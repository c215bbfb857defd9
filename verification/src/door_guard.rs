//! Decisions of the entry door guard script: whether a door should fire its
//! hit handlers, given what the player runtime reports about the room.
use vstd::prelude::*;
use crate::text::{eq_ignore_ascii_case, eq_ignore_ascii_case_spec};
use crate::player_datum::{ScriptError, ScriptErrorCode};

verus! {

/// Script handler for entry doors.
pub struct DoorGuard;

/// What the runtime found out about the door instance a handler is called on.
#[derive(Debug, Clone, Copy)]
pub struct DoorFacts {
    /// The walk list of the online user ends next to this door.
    pub explicitly_targeted: bool,
    /// The door leads back to the room the user just left.
    pub points_to_previous_room: bool,
    /// The user is standing on the door just after coming through it.
    pub debounce: bool,
}

/// A status the guard writes into the door's `pStatus` property.
#[derive(Debug, Clone, Copy, PartialEq, Eq, Structural)]
pub enum DoorStatus {
    CheckHit,
    CheckNoHit,
}

/// What a handler call does.
#[derive(Debug, Clone, Copy, PartialEq, Eq, Structural)]
pub enum DoorGuardAction {
    /// The handler is not taken over: the script's own handler runs.
    PassThrough,
    /// The handler is taken over and does nothing.
    Swallow,
    /// The handler is taken over after writing `pStatus`.
    SetStatus(DoorStatus),
}

impl DoorGuard {
    /// Handles `checkHit` and `checkNoHit`, in any ASCII case.
    pub fn has_handler(&self, name: &str) -> (b: bool)
        ensures
            b == (eq_ignore_ascii_case_spec(name@, "checkHit"@) || eq_ignore_ascii_case_spec(
                name@,
                "checkNoHit"@,
            )),
    {
        eq_ignore_ascii_case(name, "checkHit") || eq_ignore_ascii_case(name, "checkNoHit")
    }

    /// Decides a handler call. `facts` is `None` when the call has no script
    /// instance. `checkNoHit` on an explicitly targeted door flips the door
    /// to `checkHit`; on a door back to the previous room it is swallowed.
    /// `checkHit` right after entering through the door flips it to
    /// `checkNoHit`. Everything else passes through.
    pub fn call_handler(&self, name: &str, facts: Option<DoorFacts>) -> (a: DoorGuardAction)
        ensures
            a == (if eq_ignore_ascii_case_spec(name@, "checkNoHit"@) {
                match facts {
                    None => DoorGuardAction::PassThrough,
                    Some(f) => if f.explicitly_targeted {
                        DoorGuardAction::SetStatus(DoorStatus::CheckHit)
                    } else if f.points_to_previous_room {
                        DoorGuardAction::Swallow
                    } else {
                        DoorGuardAction::PassThrough
                    },
                }
            } else if !eq_ignore_ascii_case_spec(name@, "checkHit"@) {
                DoorGuardAction::PassThrough
            } else {
                match facts {
                    Some(f) if f.debounce => DoorGuardAction::SetStatus(DoorStatus::CheckNoHit),
                    _ => DoorGuardAction::PassThrough,
                }
            }),
    {
        if eq_ignore_ascii_case(name, "checkNoHit") {
            let Some(f) = facts else {
                return DoorGuardAction::PassThrough;
            };
            if f.explicitly_targeted {
                return DoorGuardAction::SetStatus(DoorStatus::CheckHit);
            }
            if f.points_to_previous_room {
                return DoorGuardAction::Swallow;
            }
            return DoorGuardAction::PassThrough;
        }
        if !eq_ignore_ascii_case(name, "checkHit") {
            return DoorGuardAction::PassThrough;
        }
        let Some(f) = facts else {
            return DoorGuardAction::PassThrough;
        };
        if f.debounce {
            return DoorGuardAction::SetStatus(DoorStatus::CheckNoHit);
        }
        DoorGuardAction::PassThrough
    }
}

/// A room name without its leading `@`, if it has one.
pub open spec fn room_key_spec(name: Seq<char>) -> Seq<char> {
    if name.len() > 0 && name[0] == '@' {
        name.drop_first()
    } else {
        name
    }
}

/// Strips one leading `@` from a room name.
pub fn room_name_key(name: &str) -> (k: &str)
    ensures
        k@ == room_key_spec(name@),
{
    let n = name.unicode_len();
    if n > 0 && name.get_char(0) == '@' {
        name.substring_char(1, n)
    } else {
        name
    }
}

/// The door's target room is the room the user came from: both are known,
/// the previous room is not empty, and they are equal up to a leading `@`
/// and ASCII case.
pub fn door_points_to_previous_room(target_room: Option<&str>, previous_room: Option<&str>) -> (b:
    bool)
    ensures
        b == (match (target_room, previous_room) {
            (Some(t), Some(p)) => p@.len() > 0 && eq_ignore_ascii_case_spec(
                room_key_spec(t@),
                room_key_spec(p@),
            ),
            _ => false,
        }),
{
    let Some(target_room) = target_room else {
        return false;
    };
    let Some(previous_room) = previous_room else {
        return false;
    };
    !previous_room.is_empty() && eq_ignore_ascii_case(
        room_name_key(target_room),
        room_name_key(previous_room),
    )
}

/// A sprite's rectangle on stage.
#[derive(Debug, Clone, Copy, PartialEq, Eq, Structural)]
pub struct SpriteRect {
    pub left: i32,
    pub top: i32,
    pub right: i32,
    pub bottom: i32,
}

/// Two rectangles share interior area.
pub open spec fn rects_overlap(a: SpriteRect, b: SpriteRect) -> bool {
    !(a.right <= b.left || a.left >= b.right || a.bottom <= b.top || a.top >= b.bottom)
}

/// Two rectangles count as overlapping exactly when their horizontal
/// spans and their vertical spans both overlap; rectangles side by side or
/// one above the other never do.
pub proof fn lemma_overlap_needs_both_axes(a: SpriteRect, b: SpriteRect)
    ensures
        rects_overlap(a, b) <==> (a.left < b.right && b.left < a.right && a.top < b.bottom && b.top
            < a.bottom),
        rects_overlap(a, b) == rects_overlap(b, a),
        a.bottom <= b.top ==> !rects_overlap(a, b),
        a.right <= b.left ==> !rects_overlap(a, b),
{
}

/// Two sprites overlap; false when either sprite does not exist.
pub fn sprites_intersect(left: Option<SpriteRect>, right: Option<SpriteRect>) -> (b: bool)
    ensures
        b == (match (left, right) {
            (Some(l), Some(r)) => rects_overlap(l, r),
            _ => false,
        }),
{
    let Some(left) = left else {
        return false;
    };
    let Some(right) = right else {
        return false;
    };
    !(left.right <= right.left || left.left >= right.right || left.bottom <= right.top || left.top
        >= right.bottom)
}

/// Two room cells are neighbours (or the same cell).
pub open spec fn cells_near(a: (i32, i32), b: (i32, i32)) -> bool {
    -1 <= a.0 - b.0 <= 1 && -1 <= a.1 - b.1 <= 1
}

/// The differences that comparing two cells computes fit in an `i32`.
pub open spec fn cell_diff_fits(a: (i32, i32), b: (i32, i32)) -> bool {
    &&& i32::MIN < a.0 - b.0 <= i32::MAX
    &&& -1 <= a.0 - b.0 <= 1 ==> i32::MIN < a.1 - b.1 <= i32::MAX
}

/// Compares two room points already rounded to whole cells.
pub fn near_room_cell(left: (i32, i32), right: (i32, i32)) -> (b: bool)
    requires
        cell_diff_fits(left, right),
    ensures
        b == cells_near(left, right),
{
    let dx = left.0 - right.0;
    if (if dx < 0 { -dx } else { dx }) > 1 {
        return false;
    }
    let dy = left.1 - right.1;
    (if dy < 0 { -dy } else { dy }) <= 1
}

/// Entry `i` of a walk list is a point next to the door's cell.
pub open spec fn walk_point_near(door: (i32, i32), walk: Seq<Option<(i32, i32)>>, i: int) -> bool {
    walk[i] matches Some(p) && cells_near(door, p)
}

/// The door is where the user explicitly walks to: it leads back to the
/// previous room, its cell is known, the walk list exists, and one of the
/// points in the walk list is next to the door's cell. Entries that are not
/// points are `None`.
pub fn is_entry_door_explicitly_targeted(
    points_to_previous_room: bool,
    door_cell: Option<(i32, i32)>,
    walk_list: Option<&Vec<Option<(i32, i32)>>>,
) -> (b: bool)
    requires
        door_cell matches Some(d) ==> walk_list matches Some(w) ==> forall|i: int|
            0 <= i < w@.len() ==> (#[trigger] w@[i] matches Some(p) ==> cell_diff_fits(d, p)),
    ensures
        b == (points_to_previous_room && door_cell is Some && walk_list is Some && exists|i: int|
            0 <= i < walk_list.unwrap()@.len() && #[trigger] walk_point_near(
                door_cell.unwrap(),
                walk_list.unwrap()@,
                i,
            )),
{
    if !points_to_previous_room {
        return false;
    }
    let Some(door) = door_cell else {
        return false;
    };
    let Some(walk) = walk_list else {
        return false;
    };
    let mut i: usize = 0;
    while i < walk.len()
        invariant
            points_to_previous_room,
            door_cell == Some(door),
            walk_list == Some(walk),
            i <= walk@.len(),
            forall|j: int|
                0 <= j < walk@.len() ==> (#[trigger] walk@[j] matches Some(p) ==> cell_diff_fits(
                    door,
                    p,
                )),
            forall|j: int|
                0 <= j < i ==> !#[trigger] walk_point_near(door, walk@, j),
        decreases walk@.len() - i,
    {
        if let Some(point) = walk[i] {
            if near_room_cell(door, point) {
                assert(walk_point_near(door, walk@, i as int));
                assert(door_cell.unwrap() == door);
                assert(walk_list.unwrap()@ == walk@);
                assert(walk_point_near(door_cell.unwrap(), walk_list.unwrap()@, i as int));
                return true;
            }
        }
        i += 1;
    }
    false
}

/// The user just came through this door and still stands on it: the door
/// leads back to the previous room, is not explicitly targeted, and the
/// door and user sprites (when both exist) overlap.
pub fn should_debounce_entry_door(
    points_to_previous_room: bool,
    explicitly_targeted: bool,
    door_sprite: Option<SpriteRect>,
    user_sprite: Option<SpriteRect>,
) -> (b: bool)
    ensures
        b == (points_to_previous_room && !explicitly_targeted && match (door_sprite, user_sprite) {
            (Some(d), Some(u)) => rects_overlap(d, u),
            _ => false,
        }),
{
    if !points_to_previous_room {
        return false;
    }
    if explicitly_targeted {
        return false;
    }
    sprites_intersect(door_sprite, user_sprite)
}

/// A property value as the door guard reads it. `F` is the runtime's number
/// type, used for floats and point coordinates.
#[derive(Debug)]
pub enum DatumValue<F> {
    Void,
    Int(i32),
    Float(F),
    SpriteRef(i16),
    Point(F, F),
    /// Any other kind of datum.
    Other,
}

/// A property value together with the type name the runtime gives it.
#[derive(Debug)]
pub struct PropDatum<F> {
    pub value: DatumValue<F>,
    pub kind_name: String,
}

/// A number read from a property: an integer or a float.
#[derive(Debug, Clone, Copy, PartialEq)]
pub enum NumberValue<F> {
    Int(i32),
    Float(F),
}

/// Message for a property of the wrong kind.
pub open spec fn wrong_kind_message(kind: Seq<char>, name: Seq<char>, kind_name: Seq<char>) -> Seq<
    char,
> {
    "Expected "@ + kind + " property "@ + name + ", got "@ + kind_name
}

/// The error for property `name`, expected to be a `kind`, holding a datum of
/// type `kind_name`.
pub fn wrong_kind_error(kind: &str, name: &str, kind_name: &str) -> (e: ScriptError)
    ensures
        e.code == ScriptErrorCode::Generic,
        e.message@ == wrong_kind_message(kind@, name@, kind_name@),
{
    let mut message = String::from_str("Expected ");
    message.append(kind);
    message.append(" property ");
    message.append(name);
    message.append(", got ");
    message.append(kind_name);
    proof {
        reveal_strlit("Expected ");
        reveal_strlit(" property ");
        reveal_strlit(", got ");
    }
    ScriptError { code: ScriptErrorCode::Generic, message }
}

/// What reading sprite property `name` gives: nothing for a missing or void
/// property, the number of a sprite reference or of an integer (cut to
/// 16 bits), and an error for anything else.
pub open spec fn sprite_prop_spec<F>(name: Seq<char>, value: Option<&PropDatum<F>>) -> Result<
    Option<i16>,
    Seq<char>,
> {
    match value {
        None => Ok(None),
        Some(d) => match d.value {
            DatumValue::SpriteRef(n) => Ok(Some(n)),
            DatumValue::Int(n) => Ok(Some(#[verifier::truncate] (n as i16))),
            DatumValue::Void => Ok(None),
            _ => Err(wrong_kind_message("sprite"@, name, d.kind_name@)),
        },
    }
}

/// What reading point property `name` gives: nothing for a missing or void
/// property, the coordinates of a point, and an error for anything else.
pub open spec fn point_prop_spec<F>(name: Seq<char>, value: Option<&PropDatum<F>>) -> Result<
    Option<(F, F)>,
    Seq<char>,
> {
    match value {
        None => Ok(None),
        Some(d) => match d.value {
            DatumValue::Point(x, y) => Ok(Some((x, y))),
            DatumValue::Void => Ok(None),
            _ => Err(wrong_kind_message("point"@, name, d.kind_name@)),
        },
    }
}

/// What reading number property `name` gives: nothing for a missing or void
/// property, an integer or a float as it is, and an error for anything else.
pub open spec fn number_prop_spec<F>(name: Seq<char>, value: Option<&PropDatum<F>>) -> Result<
    Option<NumberValue<F>>,
    Seq<char>,
> {
    match value {
        None => Ok(None),
        Some(d) => match d.value {
            DatumValue::Int(n) => Ok(Some(NumberValue::Int(n))),
            DatumValue::Float(f) => Ok(Some(NumberValue::Float(f))),
            DatumValue::Void => Ok(None),
            _ => Err(wrong_kind_message("number"@, name, d.kind_name@)),
        },
    }
}

/// A getter's result meets its specification: the same value, or a
/// generic script error with the same message.
pub open spec fn read_matches<T>(r: Result<Option<T>, ScriptError>, s: Result<Option<T>, Seq<char>>) -> bool {
    match s {
        Ok(v) => r matches Ok(x) && x == v,
        Err(m) => r matches Err(e) && e.code == ScriptErrorCode::Generic && e.message@ == m,
    }
}

/// Reads sprite property `name` of an instance; `value` is the property's
/// datum, `None` when the instance has no such property.
pub fn get_instance_sprite_prop<F>(name: &str, value: Option<&PropDatum<F>>) -> (r: Result<
    Option<i16>,
    ScriptError,
>)
    ensures
        read_matches(r, sprite_prop_spec(name@, value)),
{
    let Some(d) = value else {
        return Ok(None);
    };
    match &d.value {
        DatumValue::SpriteRef(n) => Ok(Some(*n)),
        DatumValue::Int(n) => Ok(Some(#[verifier::truncate] (*n as i16))),
        DatumValue::Void => Ok(None),
        _ => Err(wrong_kind_error("sprite", name, d.kind_name.as_str())),
    }
}

/// Reads point property `name` of an instance.
pub fn get_instance_point_prop<F: Copy>(name: &str, value: Option<&PropDatum<F>>) -> (r: Result<
    Option<(F, F)>,
    ScriptError,
>)
    ensures
        read_matches(r, point_prop_spec(name@, value)),
{
    let Some(d) = value else {
        return Ok(None);
    };
    match &d.value {
        DatumValue::Point(x, y) => Ok(Some((*x, *y))),
        DatumValue::Void => Ok(None),
        _ => Err(wrong_kind_error("point", name, d.kind_name.as_str())),
    }
}

/// Reads number property `name` of an instance.
pub fn get_instance_number_prop<F: Copy>(name: &str, value: Option<&PropDatum<F>>) -> (r: Result<
    Option<NumberValue<F>>,
    ScriptError,
>)
    ensures
        read_matches(r, number_prop_spec(name@, value)),
{
    let Some(d) = value else {
        return Ok(None);
    };
    match &d.value {
        DatumValue::Int(n) => Ok(Some(NumberValue::Int(*n))),
        DatumValue::Float(f) => Ok(Some(NumberValue::Float(*f))),
        DatumValue::Void => Ok(None),
        _ => Err(wrong_kind_error("number", name, d.kind_name.as_str())),
    }
}

/// Reads number property `prop_name` of the script instance held in a
/// global. `instance_prop` is `None` when the global is missing or holds no
/// script instance, else the instance's property as for
/// `get_instance_number_prop`.
pub fn get_global_instance_number_prop<F: Copy>(
    prop_name: &str,
    instance_prop: Option<Option<&PropDatum<F>>>,
) -> (r: Result<Option<NumberValue<F>>, ScriptError>)
    ensures
        read_matches(
            r,
            match instance_prop {
                None => Ok(None),
                Some(v) => number_prop_spec(prop_name@, v),
            },
        ),
{
    match instance_prop {
        None => Ok(None),
        Some(v) => get_instance_number_prop(prop_name, v),
    }
}

/// Reads a property of the script instance at position `one_based_index`
/// (1-based; 0 reads the first) of the list held in a global. `list` is
/// `None` when the global is missing or holds no list; each item is `None`
/// when it is not a script instance, else the instance's property (`None`
/// when the instance has no such property).
pub fn get_global_list_instance_prop<R: Copy>(
    list: Option<&Vec<Option<Option<R>>>>,
    one_based_index: usize,
) -> (r: Option<R>)
    ensures
        r == (match list {
            None => None,
            Some(items) => {
                let k: int = if one_based_index == 0 { 0 } else { one_based_index - 1 };
                if k < items@.len() {
                    match items@[k] {
                        Some(p) => p,
                        None => None,
                    }
                } else {
                    None
                }
            },
        }),
{
    let Some(items) = list else {
        return None;
    };
    let k = one_based_index.saturating_sub(1);
    if k >= items.len() {
        return None;
    }
    match items[k] {
        Some(p) => p,
        None => None,
    }
}

} // verus!
