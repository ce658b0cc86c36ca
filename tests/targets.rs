use motoc::devices::TrackingOrigin;
use motoc::targets::{
    adjust_target, adjust_target_from, height_choice, parse_reference_space, reset_target,
    reset_target_from, space_of_lowered, AdjustTarget, HeightChoice, ReferenceSpace, ResetTarget,
};

fn origins() -> Vec<TrackingOrigin> {
    vec![
        TrackingOrigin { id: 0, name: "Lighthouse".to_string() },
        TrackingOrigin { id: 1, name: "Quest".to_string() },
        TrackingOrigin { id: 2, name: "7".to_string() },
    ]
}

#[test]
fn reference_space_names() {
    assert_eq!(parse_reference_space("STAGE"), Some(ReferenceSpace::Stage));
    assert_eq!(parse_reference_space("Local"), Some(ReferenceSpace::Local));
    assert_eq!(parse_reference_space("view"), None);
    assert_eq!(space_of_lowered("stage"), Some(ReferenceSpace::Stage));
    assert_eq!(space_of_lowered("Stage"), None);
}

#[test]
fn reset_targets() {
    let o = origins();
    assert_eq!(reset_target("Stage", &o), ResetTarget::Space(ReferenceSpace::Stage));
    assert_eq!(reset_target("1", &o), ResetTarget::Origin(1));
    assert_eq!(reset_target("+2", &o), ResetTarget::Origin(2));
    assert_eq!(reset_target("9", &o), ResetTarget::NoSuchOrigin(9));
    assert_eq!(reset_target("quest", &o), ResetTarget::NotAnId);
    assert_eq!(reset_target("-1", &o), ResetTarget::NotAnId);
    assert_eq!(reset_target("4294967296", &o), ResetTarget::NotAnId);
    assert_eq!(reset_target_from("local", None, &o), ResetTarget::Space(ReferenceSpace::Local));
    assert_eq!(reset_target_from("x", Some(0), &o), ResetTarget::Origin(0));
}

#[test]
fn adjust_targets() {
    let o = origins();
    assert_eq!(adjust_target("LOCAL", &o), AdjustTarget::Space(ReferenceSpace::Local));
    assert_eq!(adjust_target("quest", &o), AdjustTarget::Origin(1));
    assert_eq!(adjust_target("0", &o), AdjustTarget::Origin(0));
    assert_eq!(adjust_target("7", &o), AdjustTarget::Origin(2));
    assert_eq!(adjust_target("nothing", &o), AdjustTarget::NotFound);
    let names = vec!["lighthouse".to_string(), "quest".to_string(), "7".to_string()];
    assert_eq!(adjust_target_from("quest", None, &o, &names), AdjustTarget::Origin(1));
    assert_eq!(adjust_target_from("Quest", None, &o, &names), AdjustTarget::NotFound);
}

#[test]
fn recenter_heights() {
    assert_eq!(height_choice(&None), HeightChoice::Normal);
    assert_eq!(height_choice(&Some("KEEP".to_string())), HeightChoice::Keep);
    assert_eq!(height_choice(&Some("1.7".to_string())), HeightChoice::Relative);
}
