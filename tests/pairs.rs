use motoc::pairs::{all_pairs, usable_pairs};

#[test]
fn all_pairs_of_four() {
    assert_eq!(all_pairs(4), vec![(1, 0), (2, 0), (2, 1), (3, 0), (3, 1), (3, 2)]);
    assert!(all_pairs(0).is_empty());
    assert!(all_pairs(1).is_empty());
}

#[test]
fn small_rotations_never_reach_the_fit() {
    // every delta rotation is below the 0.4 rad filter
    let angles = [0.0f64, 0.1, 0.2, 0.3, 0.35];
    let r = usable_pairs(angles.len(), |i, j| (angles[i] - angles[j]).abs() >= 0.4);
    assert!(r.is_empty());
}

#[test]
fn usable_pairs_keeps_accepted_in_order() {
    let angles = [0.0f64, 0.5, 0.6, 1.2];
    let r = usable_pairs(angles.len(), |i, j| (angles[i] - angles[j]).abs() >= 0.4);
    assert_eq!(r, vec![(1, 0), (2, 0), (3, 0), (3, 1), (3, 2)]);
}
