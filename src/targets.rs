//! What the name given to a command designates: a reference space, or a
//! tracking origin by id or by name. Names are matched without regard to case.
use vstd::prelude::*;
use crate::devices::TrackingOrigin;
use crate::text::{lower_of, lowercase, parse_u32, u32_of};

verus! {

/// A reference space of the runtime whose offset can be set.
#[derive(Clone, Copy, PartialEq, Eq, Structural, Debug)]
pub enum ReferenceSpace {
    Stage,
    Local,
}

/// What the `reset` command resets.
#[derive(Clone, Copy, PartialEq, Eq, Structural, Debug)]
pub enum ResetTarget {
    Space(ReferenceSpace),
    /// The tracking origin at this position.
    Origin(usize),
    /// The name is an id, but no tracking origin has it.
    NoSuchOrigin(u32),
    /// The name is neither a reference space nor an id.
    NotAnId,
}

/// What the `adjust` command adjusts.
#[derive(Clone, Copy, PartialEq, Eq, Structural, Debug)]
pub enum AdjustTarget {
    Space(ReferenceSpace),
    /// The tracking origin at this position.
    Origin(usize),
    NotFound,
}

/// How the `recenter` command treats the height.
#[derive(Clone, Copy, PartialEq, Eq, Structural, Debug)]
pub enum HeightChoice {
    /// No height given: the recentred space puts the head at height zero.
    Normal,
    /// Keep the current height of the reference space.
    Keep,
    /// The given text is an eye height to be read as a number.
    Relative,
}

/// The reference space that a lower-case name designates.
pub open spec fn space_named(lowered: Seq<char>) -> Option<ReferenceSpace> {
    if lowered == "stage"@ {
        Some(ReferenceSpace::Stage)
    } else if lowered == "local"@ {
        Some(ReferenceSpace::Local)
    } else {
        None
    }
}

/// `i` is the first position of an origin with id `id`.
pub open spec fn first_with_id(origins: Seq<TrackingOrigin>, id: u32, i: int) -> bool {
    0 <= i < origins.len() && origins[i].id == id && forall|j: int|
        0 <= j < i ==> (#[trigger] origins[j]).id != id
}

/// The position of the first origin with id `id`, if there is one.
pub open spec fn origin_with_id(origins: Seq<TrackingOrigin>, id: u32) -> Option<usize> {
    if exists|i: int| first_with_id(origins, id, i) {
        Some((choose|i: int| first_with_id(origins, id, i)) as usize)
    } else {
        None
    }
}

/// The reset target of a name, from its lower-case form and its value as an id.
pub open spec fn reset_target_of(
    lowered: Seq<char>,
    number: Option<u32>,
    origins: Seq<TrackingOrigin>,
) -> ResetTarget {
    match space_named(lowered) {
        Some(s) => ResetTarget::Space(s),
        None => match number {
            None => ResetTarget::NotAnId,
            Some(n) => match origin_with_id(origins, n) {
                Some(i) => ResetTarget::Origin(i),
                None => ResetTarget::NoSuchOrigin(n),
            },
        },
    }
}

/// Origin `i` answers to a name with this lower-case form and this value as an id.
pub open spec fn origin_answers(
    lowered: Seq<char>,
    number: Option<u32>,
    origin: TrackingOrigin,
    lowered_name: Seq<char>,
) -> bool {
    number == Some(origin.id) || lowered_name == lowered
}

/// `i` is the first origin that answers to the name.
pub open spec fn first_answering(
    lowered: Seq<char>,
    number: Option<u32>,
    origins: Seq<TrackingOrigin>,
    names: Seq<Seq<char>>,
    i: int,
) -> bool {
    0 <= i < origins.len() && origin_answers(lowered, number, origins[i], names[i]) && forall|
        j: int,
    | 0 <= j < i ==> !origin_answers(lowered, number, #[trigger] origins[j], names[j])
}

/// The adjust target of a name, given the lower-case names of the origins.
pub open spec fn adjust_target_of(
    lowered: Seq<char>,
    number: Option<u32>,
    origins: Seq<TrackingOrigin>,
    names: Seq<Seq<char>>,
) -> AdjustTarget {
    match space_named(lowered) {
        Some(s) => AdjustTarget::Space(s),
        None => if exists|i: int| first_answering(lowered, number, origins, names, i) {
            AdjustTarget::Origin(
                (choose|i: int| first_answering(lowered, number, origins, names, i)) as usize,
            )
        } else {
            AdjustTarget::NotFound
        },
    }
}

/// The lower-case names of the origins.
pub open spec fn lowered_names(origins: Seq<TrackingOrigin>) -> Seq<Seq<char>> {
    Seq::new(origins.len(), |i: int| lower_of(origins[i].name@))
}

/// The reference space that an already lower-cased name designates.
pub fn space_of_lowered(lowered: &str) -> (r: Option<ReferenceSpace>)
    ensures
        r == space_named(lowered@),
{
    let l = lowered.to_owned();
    if l == "stage".to_owned() {
        Some(ReferenceSpace::Stage)
    } else if l == "local".to_owned() {
        Some(ReferenceSpace::Local)
    } else {
        None
    }
}

/// The reference space a name designates, "stage" or "local" in any case.
pub fn parse_reference_space(name: &str) -> (r: Option<ReferenceSpace>)
    ensures
        r == space_named(lower_of(name@)),
{
    let l = lowercase(name);
    space_of_lowered(l.as_str())
}

fn position_with_id(origins: &Vec<TrackingOrigin>, id: u32) -> (r: Option<usize>)
    ensures
        r == origin_with_id(origins@, id),
{
    let mut i: usize = 0;
    while i < origins.len()
        invariant
            i <= origins@.len(),
            forall|j: int| 0 <= j < i ==> (#[trigger] origins@[j]).id != id,
        decreases origins@.len() - i,
    {
        if origins[i].id == id {
            assert(first_with_id(origins@, id, i as int));
            let ghost c = choose|c: int| first_with_id(origins@, id, c);
            assert(c == i) by {
                if c < i {
                    assert(origins@[c].id != id);
                } else if c > i {
                    assert(origins@[i as int].id != id);
                }
            }
            return Some(i);
        }
        i = i + 1;
    }
    None
}

/// The reset target of a name, from its lower-case form and its value as an id.
pub fn reset_target_from(lowered: &str, number: Option<u32>, origins: &Vec<TrackingOrigin>) -> (r:
    ResetTarget)
    ensures
        r == reset_target_of(lowered@, number, origins@),
{
    match space_of_lowered(lowered) {
        Some(s) => ResetTarget::Space(s),
        None => match number {
            None => ResetTarget::NotAnId,
            Some(n) => match position_with_id(origins, n) {
                Some(i) => ResetTarget::Origin(i),
                None => ResetTarget::NoSuchOrigin(n),
            },
        },
    }
}

/// What `reset` resets for a name: "stage" or "local" in any case, else the
/// tracking origin whose id the name is.
pub fn reset_target(id: &str, origins: &Vec<TrackingOrigin>) -> (r: ResetTarget)
    ensures
        r == reset_target_of(lower_of(id@), u32_of(id@), origins@),
{
    let l = lowercase(id);
    let n = parse_u32(id);
    reset_target_from(l.as_str(), n, origins)
}

/// The adjust target of a name, given its lower-case form, its value as an
/// id, and the lower-case names of the origins.
pub fn adjust_target_from(
    lowered: &str,
    number: Option<u32>,
    origins: &Vec<TrackingOrigin>,
    names: &Vec<String>,
) -> (r: AdjustTarget)
    requires
        names@.len() == origins@.len(),
    ensures
        r == adjust_target_of(lowered@, number, origins@, names@.map_values(|n: String| n@)),
{
    let ghost ns = names@.map_values(|n: String| n@);
    if let Some(s) = space_of_lowered(lowered) {
        return AdjustTarget::Space(s);
    }
    let key = lowered.to_owned();
    let mut i: usize = 0;
    while i < origins.len()
        invariant
            i <= origins@.len(),
            names@.len() == origins@.len(),
            ns == names@.map_values(|n: String| n@),
            key@ == lowered@,
            space_named(lowered@) is None,
            forall|j: int|
                0 <= j < i ==> !origin_answers(lowered@, number, #[trigger] origins@[j], ns[j]),
        decreases origins@.len() - i,
    {
        let by_id = match number {
            Some(n) => n == origins[i].id,
            None => false,
        };
        if by_id || names[i] == key {
            assert(origin_answers(lowered@, number, origins@[i as int], ns[i as int]));
            assert(first_answering(lowered@, number, origins@, ns, i as int));
            let ghost c = choose|c: int| first_answering(lowered@, number, origins@, ns, c);
            assert(c == i) by {
                if c < i {
                    assert(!origin_answers(lowered@, number, origins@[c], ns[c]));
                } else if c > i {
                    assert(!origin_answers(lowered@, number, origins@[i as int], ns[i as int]));
                }
            }
            return AdjustTarget::Origin(i);
        }
        i = i + 1;
    }
    AdjustTarget::NotFound
}

/// What `adjust` adjusts for a name: "stage" or "local" in any case, else
/// the first tracking origin whose id the name is or whose name it is, in
/// any case.
pub fn adjust_target(id: &str, origins: &Vec<TrackingOrigin>) -> (r: AdjustTarget)
    ensures
        r == adjust_target_of(lower_of(id@), u32_of(id@), origins@, lowered_names(origins@)),
{
    let mut names: Vec<String> = Vec::new();
    let mut i: usize = 0;
    while i < origins.len()
        invariant
            i <= origins@.len(),
            names@.len() == i,
            forall|j: int| 0 <= j < i ==> (#[trigger] names@[j])@ == lower_of(origins@[j].name@),
        decreases origins@.len() - i,
    {
        names.push(lowercase(origins[i].name.as_str()));
        i = i + 1;
    }
    assert(names@.map_values(|n: String| n@) =~= lowered_names(origins@));
    let l = lowercase(id);
    let n = parse_u32(id);
    adjust_target_from(l.as_str(), n, origins, &names)
}

/// How `recenter` treats an optional height: "keep" in any case keeps it,
/// any other text is an eye height.
pub fn height_choice(height: &Option<String>) -> (r: HeightChoice)
    ensures
        r == (match height {
            None => HeightChoice::Normal,
            Some(h) => if lower_of(h@) == "keep"@ {
                HeightChoice::Keep
            } else {
                HeightChoice::Relative
            },
        }),
{
    match height {
        None => HeightChoice::Normal,
        Some(h) => {
            let l = lowercase(h.as_str());
            if l == "keep".to_owned() {
                HeightChoice::Keep
            } else {
                HeightChoice::Relative
            }
        },
    }
}

} // verus!
