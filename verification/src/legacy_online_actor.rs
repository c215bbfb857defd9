//! Decisions and computations of the scripted online actors (bartenders):
//! which handlers they answer, their per-room profile, their animation
//! clock, and the cropping of one animation frame out of a sprite strip.
use vstd::prelude::*;
use vstd::pervasive::strictly_cloned;
use crate::text::{
    ascii_lowercase, eq_ignore_ascii_case, eq_ignore_ascii_case_spec, lemma_lowercase_eq_ignore,
};

verus! {

/// Script handler standing in for a legacy online actor script.
pub struct LegacyOnlineActor {
    script_name: String,
}

/// Handler names an actor answers, in lower case.
pub open spec fn actor_handler_names() -> Seq<Seq<char>> {
    seq![
        "new"@,
        "gomove"@,
        "updateuser"@,
        "setupleave"@,
        "dosetupleave"@,
        "getavatarsprite"@,
        "getinfoimage"@,
        "getmyheight"@,
        "setemoticon"@,
        "kill"@,
        "killemoticon"@,
        "setkeywalk"@,
        "setmousewalk"@,
        "setaction"@,
        "setactionfromlist"@,
        "addpet"@,
        "removepet"@,
        "doclick"@,
        "domouseover"@,
        "lookatowner"@,
        "checkemoticon"@,
        "shownamesign"@,
        "frameevent"@,
        "startconv"@,
    ]
}

fn actor_handler_list() -> (v: Vec<&'static str>)
    ensures
        v@.len() == actor_handler_names().len(),
        forall|i: int| 0 <= i < v@.len() ==> #[trigger] v@[i]@ == actor_handler_names()[i],
{
    vec![
        "new",
        "gomove",
        "updateuser",
        "setupleave",
        "dosetupleave",
        "getavatarsprite",
        "getinfoimage",
        "getmyheight",
        "setemoticon",
        "kill",
        "killemoticon",
        "setkeywalk",
        "setmousewalk",
        "setaction",
        "setactionfromlist",
        "addpet",
        "removepet",
        "doclick",
        "domouseover",
        "lookatowner",
        "checkemoticon",
        "shownamesign",
        "frameevent",
        "startconv",
    ]
}

impl LegacyOnlineActor {
    /// The name of the script this actor stands in for.
    pub closed spec fn script_name(&self) -> Seq<char> {
        self.script_name@
    }

    pub fn new(script_name: &str) -> (r: Self)
        ensures
            r.script_name() == script_name@,
    {
        Self { script_name: String::from_str(script_name) }
    }

    /// Answers the actor handlers, in any ASCII case.
    pub fn has_handler(&self, name: &str) -> (b: bool)
        ensures
            b == exists|i: int|
                0 <= i < actor_handler_names().len() && #[trigger] eq_ignore_ascii_case_spec(
                    name@,
                    actor_handler_names()[i],
                ),
    {
        lookup_handler(name).is_some()
    }
}

/// How an actor looks and behaves in its room. World positions are whole
/// numbers.
#[derive(Debug)]
pub struct ActorProfile {
    pub display_name: &'static str,
    pub member_candidates: Vec<&'static str>,
    pub loc: (i32, i32),
    pub has_dialogue: bool,
    pub frame_count: usize,
    pub frame_duration: i32,
    pub conversation_title: &'static str,
    pub conversation_lines: Vec<&'static str>,
}

/// The kinds of actor a script name selects.
#[derive(Debug, Clone, Copy, PartialEq, Eq, Structural)]
pub enum ActorKind {
    AquaBartender,
    DenBartender,
    Bartender,
}

/// The kind of actor a script name selects, matched up to ASCII case.
pub open spec fn actor_kind(script_name: Seq<char>) -> ActorKind {
    if eq_ignore_ascii_case_spec(script_name, "pbartender_aqua"@) {
        ActorKind::AquaBartender
    } else if eq_ignore_ascii_case_spec(script_name, "pbartender_den"@) {
        ActorKind::DenBartender
    } else {
        ActorKind::Bartender
    }
}

/// The texts of a list of static strings.
pub open spec fn texts(v: Seq<&'static str>) -> Seq<Seq<char>> {
    v.map_values(|s: &'static str| s@)
}

/// The profile each kind of actor has.
pub open spec fn profile_is(p: ActorProfile, kind: ActorKind) -> bool {
    &&& p.display_name@ == "Bartender"@
    &&& match kind {
        ActorKind::AquaBartender => {
            &&& texts(p.member_candidates@) == seq!["obj_bartender"@]
            &&& p.loc == (-480i32, 315i32)
            &&& p.has_dialogue
            &&& p.frame_count == 18
            &&& p.frame_duration == 8
            &&& p.conversation_title@ == "Hello there."@
            &&& texts(p.conversation_lines@) == seq![
                "Welcome to the Aqua Lounge."@,
                "Take it easy and enjoy the bubbles."@,
            ]
        },
        ActorKind::DenBartender => {
            &&& texts(p.member_candidates@) == seq!["obj_bartender2"@, "obj_bartender"@]
            &&& p.loc == (225i32, 125i32)
            &&& p.has_dialogue
            &&& p.frame_count == 21
            &&& p.frame_duration == 7
            &&& p.conversation_title@ == "Good to see you."@
            &&& texts(p.conversation_lines@) == seq![
                "Welcome to the Den."@,
                "Pull up a seat and make yourself comfortable."@,
            ]
        },
        ActorKind::Bartender => {
            &&& texts(p.member_candidates@) == seq!["obj_bartender"@, "obj_bartender2"@]
            &&& p.loc == (-200i32, -200i32)
            &&& !p.has_dialogue
            &&& p.frame_count == 1
            &&& p.frame_duration == 8
            &&& p.conversation_title@ == ""@
            &&& p.conversation_lines@.len() == 0
        },
    }
}

/// The profile of the actor a script name stands for.
pub fn actor_profile(script_name: &str) -> (p: ActorProfile)
    ensures
        profile_is(p, actor_kind(script_name@)),
{
    if eq_ignore_ascii_case(script_name, "pbartender_aqua") {
        let p = ActorProfile {
            display_name: "Bartender",
            member_candidates: vec!["obj_bartender"],
            loc: (-480, 315),
            has_dialogue: true,
            frame_count: 18,
            frame_duration: 8,
            conversation_title: "Hello there.",
            conversation_lines: vec![
                "Welcome to the Aqua Lounge.",
                "Take it easy and enjoy the bubbles.",
            ],
        };
        assert(texts(p.member_candidates@) =~= seq!["obj_bartender"@]);
        assert(texts(p.conversation_lines@) =~= seq![
            "Welcome to the Aqua Lounge."@,
            "Take it easy and enjoy the bubbles."@,
        ]);
        p
    } else if eq_ignore_ascii_case(script_name, "pbartender_den") {
        let p = ActorProfile {
            display_name: "Bartender",
            member_candidates: vec!["obj_bartender2", "obj_bartender"],
            loc: (225, 125),
            has_dialogue: true,
            frame_count: 21,
            frame_duration: 7,
            conversation_title: "Good to see you.",
            conversation_lines: vec![
                "Welcome to the Den.",
                "Pull up a seat and make yourself comfortable.",
            ],
        };
        assert(texts(p.member_candidates@) =~= seq!["obj_bartender2"@, "obj_bartender"@]);
        assert(texts(p.conversation_lines@) =~= seq![
            "Welcome to the Den."@,
            "Pull up a seat and make yourself comfortable."@,
        ]);
        p
    } else {
        let p = ActorProfile {
            display_name: "Bartender",
            member_candidates: vec!["obj_bartender", "obj_bartender2"],
            loc: (-200, -200),
            has_dialogue: false,
            frame_count: 1,
            frame_duration: 8,
            conversation_title: "",
            conversation_lines: vec![],
        };
        assert(texts(p.member_candidates@) =~= seq!["obj_bartender"@, "obj_bartender2"@]);
        p
    }
}

/// The sprite channel that shows the actor: the one after its base channel.
pub fn actor_visible_sprite_pos(sprite_pos: i32) -> (r: i32)
    requires
        sprite_pos < i32::MAX,
    ensures
        r == sprite_pos + 1,
{
    sprite_pos + 1
}

/// One tick of an actor's animation clock.
#[derive(Debug, Clone, Copy, PartialEq, Eq, Structural)]
pub struct FrameAdvance {
    /// The frame to show (never negative).
    pub frame: usize,
    /// New value of `pAnimTick`, when it is written.
    pub anim_tick: Option<i32>,
    /// New value of `pAnimFrame`, when it is written.
    pub anim_frame: Option<i32>,
}

/// The clock step: with a single frame nothing moves and frame 0 shows.
/// Otherwise the tick counter goes up by one; when it reaches the frame
/// duration it wraps to 0 and the frame moves on, cycling through the
/// frames. `tick` and `frame` are the stored counters, 0 when absent.
pub open spec fn frame_advance_spec(
    frame_count: usize,
    frame_duration: i32,
    tick: Option<i32>,
    frame: Option<i32>,
) -> FrameAdvance {
    if frame_count <= 1 {
        FrameAdvance { frame: 0, anim_tick: None, anim_frame: None }
    } else {
        let t = tick.unwrap_or(0) + 1;
        let f = frame.unwrap_or(0);
        if t >= frame_duration {
            let nf = truncated_rem(f + 1, frame_count_i32(frame_count) as int);
            FrameAdvance {
                frame: if nf > 0 { nf as usize } else { 0 },
                anim_tick: Some(0),
                anim_frame: Some(nf as i32),
            }
        } else {
            FrameAdvance {
                frame: if f > 0 { f as usize } else { 0 },
                anim_tick: Some(t as i32),
                anim_frame: None,
            }
        }
    }
}

/// The frame count converted with `as i32` (keeping the low 32 bits).
pub open spec fn frame_count_i32(frame_count: usize) -> i32 {
    #[verifier::truncate]
    (frame_count as i32)
}

/// Remainder with the sign of the dividend, as `%` computes on `i32`.
pub open spec fn truncated_rem(a: int, b: int) -> int {
    if a >= 0 {
        a % b
    } else {
        -((-a) % b)
    }
}

/// Advances an actor's animation clock by one tick.
pub fn advance_actor_frame(
    frame_count: usize,
    frame_duration: i32,
    anim_tick: Option<i32>,
    anim_frame: Option<i32>,
) -> (r: FrameAdvance)
    requires
        frame_count > 1 ==> anim_tick.unwrap_or(0) < i32::MAX,
        frame_count > 1 && anim_tick.unwrap_or(0) + 1 >= frame_duration ==> anim_frame.unwrap_or(
            0,
        ) < i32::MAX && frame_count_i32(frame_count) != 0,
    ensures
        r == frame_advance_spec(frame_count, frame_duration, anim_tick, anim_frame),
{
    if frame_count <= 1 {
        return FrameAdvance { frame: 0, anim_tick: None, anim_frame: None };
    }
    let mut tick = anim_tick.unwrap_or(0) + 1;
    let mut frame = anim_frame.unwrap_or(0);
    let mut new_frame = None;
    if tick >= frame_duration {
        tick = 0;
        frame = (frame + 1) % (#[verifier::truncate] (frame_count as i32));
        new_frame = Some(frame);
    }
    FrameAdvance { frame: if frame > 0 { frame as usize } else { 0 }, anim_tick: Some(tick), anim_frame: new_frame }
}

/// An animation frame counter that starts inside `0..frame_count` stays
/// there at every tick, and the frame shown is that counter.
pub proof fn lemma_frame_stays_in_range(
    frame_count: usize,
    frame_duration: i32,
    tick: Option<i32>,
    frame: Option<i32>,
)
    requires
        1 < frame_count <= i32::MAX,
        0 <= frame.unwrap_or(0) < frame_count,
    ensures
        ({
            let r = frame_advance_spec(frame_count, frame_duration, tick, frame);
            &&& r.frame < frame_count
            &&& r.anim_frame matches Some(f) ==> 0 <= f < frame_count && r.frame == f
            &&& r.anim_frame is None ==> r.frame == frame.unwrap_or(0)
        }),
{
    let f = frame.unwrap_or(0) as int;
    let m = frame_count as int;
    assert(0 <= (f + 1) % m < m) by (nonlinear_arith)
        requires
            m > 0,
            f >= 0,
    ;
}

/// A bitmap: its pixel data and properties. `P` is the runtime's palette
/// reference type and `M` its matte type.
#[derive(Debug)]
pub struct ActorBitmap<P, M> {
    pub width: u16,
    pub height: u16,
    pub bit_depth: u8,
    pub original_bit_depth: u8,
    pub data: Vec<u8>,
    pub palette_ref: P,
    pub matte: Option<M>,
    pub use_alpha: bool,
    pub trim_white_space: bool,
    pub was_trimmed: bool,
    pub version: u32,
}

/// Where one frame of a horizontal strip of `frame_count` frames lies in a
/// bitmap: `(row_stride, first_byte, frame_width, bytes_per_pixel)`. The row
/// stride is the declared one when the data holds every declared row, else
/// the data length over the height, rounded down to whole pixels. `None`
/// when the bitmap or strip is empty, pixels are narrower than a byte, the
/// declared size overflows, or a frame would be zero pixels wide.
pub open spec fn crop_layout(
    width: int,
    height: int,
    bit_depth: int,
    data_len: int,
    frame: int,
    frame_count: int,
) -> Option<(int, int, int, int)> {
    if frame_count == 0 || width == 0 || height == 0 {
        None
    } else {
        let bpp = bit_depth / 8;
        let declared = width * bpp;
        if bpp == 0 || declared * height > usize::MAX {
            None
        } else {
            let row_stride = if declared * height <= data_len {
                declared
            } else {
                data_len / height - (data_len / height) % bpp
            };
            let source_width = row_stride / bpp;
            let frame_width = source_width / frame_count;
            let left = frame_width * (frame % frame_count);
            if frame_width == 0 || left + frame_width > source_width {
                None
            } else {
                Some((row_stride, left * bpp, frame_width, bpp))
            }
        }
    }
}

/// The first `n` rows of `row_bytes` bytes each, `stride` bytes apart,
/// starting at byte `first` of `data`, one after another.
pub open spec fn cropped_rows(data: Seq<u8>, stride: int, first: int, row_bytes: int, n: nat) -> Seq<
    u8,
>
    decreases n,
{
    if n == 0 {
        seq![]
    } else {
        let y = n - 1;
        cropped_rows(data, stride, first, row_bytes, (n - 1) as nat) + data.subrange(
            y * stride + first,
            y * stride + first + row_bytes,
        )
    }
}

/// Facts about the layout that keep every row inside the data.
proof fn lemma_crop_layout_rows_fit(
    width: int,
    height: int,
    bit_depth: int,
    data_len: int,
    frame: int,
    frame_count: int,
)
    requires
        0 <= width,
        0 <= height,
        0 <= bit_depth,
        0 <= data_len <= usize::MAX,
        0 <= frame,
        0 <= frame_count,
        crop_layout(width, height, bit_depth, data_len, frame, frame_count) is Some,
    ensures
        ({
            let (rs, first, fw, bpp) = crop_layout(
                width,
                height,
                bit_depth,
                data_len,
                frame,
                frame_count,
            ).unwrap();
            &&& bpp > 0
            &&& fw > 0
            &&& first + fw * bpp <= rs
            &&& rs * height <= data_len
            &&& fw * bpp * height <= data_len
        }),
{
    let bpp = bit_depth / 8;
    let declared = width * bpp;
    let (rs, first, fw, _) = crop_layout(width, height, bit_depth, data_len, frame, frame_count).unwrap();
    let sw = rs / bpp;
    let left = fw * (frame % frame_count);
    assert(declared >= 0) by (nonlinear_arith)
        requires
            declared == width * bpp,
            width >= 0,
            bpp > 0,
    ;
    if declared * height > data_len {
        let q0 = data_len / height;
        assert(q0 >= 0);
        assert(q0 % bpp <= q0) by (nonlinear_arith)
            requires
                q0 >= 0,
                bpp > 0,
        ;
    }
    assert(rs >= 0);
    assert(fw >= 0);
    assert(left >= 0) by (nonlinear_arith)
        requires
            left == fw * (frame % frame_count),
            fw >= 0,
            frame >= 0,
            frame_count > 0,
    ;
    assert(sw * bpp <= rs) by (nonlinear_arith)
        requires
            sw == rs / bpp,
            bpp > 0,
            rs >= 0,
    ;
    assert(first + fw * bpp <= rs && first >= 0) by (nonlinear_arith)
        requires
            first == left * bpp,
            left + fw <= sw,
            left >= 0,
            sw * bpp <= rs,
            bpp > 0,
    ;
    if declared * height <= data_len {
    } else {
        let q = data_len / height;
        assert(rs <= q);
        assert(q * height <= data_len) by (nonlinear_arith)
            requires
                q == data_len / height,
                height > 0,
                data_len >= 0,
        ;
        assert(rs * height <= q * height) by (nonlinear_arith)
            requires
                rs <= q,
                height > 0,
        ;
    }
    assert(fw * bpp * height <= rs * height) by (nonlinear_arith)
        requires
            fw * bpp <= rs,
            height > 0,
            fw >= 0,
            bpp > 0,
    ;
}

/// Row `y < height` of the layout ends inside the data.
proof fn lemma_row_inside(rs: int, first: int, frb: int, height: int, data_len: int, y: int)
    requires
        rs >= 0,
        0 <= y < height,
        0 <= first,
        first + frb <= rs,
        rs * height <= data_len,
        frb >= 0,
    ensures
        0 <= y * rs,
        y * rs + first + frb <= data_len,
{
    assert(y * rs + rs <= rs * height) by (nonlinear_arith)
        requires
            0 <= y < height,
            rs >= 0,
    ;
    assert(0 <= y * rs) by (nonlinear_arith)
        requires
            0 <= y,
            rs >= 0,
    ;
}

/// The layout of frame `frame` of `frame_count` in `source`.
pub open spec fn source_crop_layout<P, M>(source: ActorBitmap<P, M>, frame: usize, frame_count: usize) -> Option<
    (int, int, int, int),
> {
    crop_layout(
        source.width as int,
        source.height as int,
        source.bit_depth as int,
        source.data@.len() as int,
        frame as int,
        frame_count as int,
    )
}

/// `out` is frame `frame` of `frame_count` cut out of `source`: as wide as a
/// frame, as high as the source, the frame's rows of pixels, the source's
/// depth and flags, a clone of its palette, no matte, version 0.
pub open spec fn is_cropped_frame<P: Clone, M>(
    source: ActorBitmap<P, M>,
    frame: usize,
    frame_count: usize,
    out: ActorBitmap<P, M>,
) -> bool {
    let (rs, first, fw, bpp) = source_crop_layout(source, frame, frame_count).unwrap();
    &&& out.width == #[verifier::truncate] (fw as u16)
    &&& out.height == source.height
    &&& out.data@ == cropped_rows(source.data@, rs, first, fw * bpp, source.height as nat)
    &&& out.bit_depth == source.bit_depth
    &&& out.original_bit_depth == source.original_bit_depth
    &&& out.use_alpha == source.use_alpha
    &&& out.trim_white_space == source.trim_white_space
    &&& out.was_trimmed == source.was_trimmed
    &&& strictly_cloned(source.palette_ref, out.palette_ref)
    &&& out.matte is None
    &&& out.version == 0
}

/// Cuts frame `frame` (counted modulo `frame_count`) out of a horizontal
/// strip of `frame_count` equally wide frames.
pub fn crop_actor_frame<P: Clone, M>(source: &ActorBitmap<P, M>, frame: usize, frame_count: usize) -> (r: Option<
    ActorBitmap<P, M>,
>)
    ensures
        r is Some <==> source_crop_layout(*source, frame, frame_count) is Some,
        r matches Some(out) ==> is_cropped_frame(*source, frame, frame_count, out),
{
    if frame_count == 0 || source.width == 0 || source.height == 0 {
        return None;
    }
    let bytes_per_pixel = (source.bit_depth as usize) / 8;
    if bytes_per_pixel == 0 {
        return None;
    }
    let height = source.height as usize;
    assert((source.width as usize) * bytes_per_pixel <= 65535 * 31) by (nonlinear_arith)
        requires
            source.width <= 65535,
            bytes_per_pixel <= 31,
    ;
    let declared_row_stride = (source.width as usize) * bytes_per_pixel;
    let declared_size = match declared_row_stride.checked_mul(height) {
        Some(n) => n,
        None => return None,
    };
    let row_stride = if declared_size <= source.data.len() {
        declared_row_stride
    } else {
        let inferred_stride = source.data.len() / height;
        assert(inferred_stride % bytes_per_pixel <= inferred_stride) by (nonlinear_arith)
            requires
                bytes_per_pixel > 0,
        ;
        inferred_stride - (inferred_stride % bytes_per_pixel)
    };
    let source_width = row_stride / bytes_per_pixel;
    let frame_width = source_width / frame_count;
    if frame_width == 0 {
        return None;
    }
    let ghost layout = crop_layout(
        source.width as int,
        source.height as int,
        source.bit_depth as int,
        source.data@.len() as int,
        frame as int,
        frame_count as int,
    );
    assert(frame_width * (frame % frame_count) + frame_width <= source_width) by (nonlinear_arith)
        requires
            frame_width == source_width / frame_count,
            frame_count > 0,
            frame % frame_count < frame_count,
    ;
    let left = frame_width * (frame % frame_count);
    if left + frame_width > source_width {
        return None;
    }
    proof {
        lemma_crop_layout_rows_fit(
            source.width as int,
            source.height as int,
            source.bit_depth as int,
            source.data@.len() as int,
            frame as int,
            frame_count as int,
        );
    }
    let frame_row_bytes = frame_width * bytes_per_pixel;
    let first = left * bytes_per_pixel;
    let mut data: Vec<u8> = Vec::with_capacity(frame_row_bytes * height);
    let mut y: usize = 0;
    while y < height
        invariant
            layout == Some((row_stride as int, first as int, frame_width as int, bytes_per_pixel as int)),
            height == source.height,
            first + frame_row_bytes <= row_stride,
            row_stride * height <= source.data@.len(),
            source.data@.len() <= usize::MAX,
            frame_row_bytes == frame_width * bytes_per_pixel,
            y <= height,
            data@ == cropped_rows(source.data@, row_stride as int, first as int, frame_row_bytes as int, y as nat),
        decreases height - y,
    {
        proof {
            lemma_row_inside(
                row_stride as int,
                first as int,
                frame_row_bytes as int,
                height as int,
                source.data@.len() as int,
                y as int,
            );
        }
        let source_start = y * row_stride + first;
        let source_end = source_start + frame_row_bytes;
        let ghost before = data@;
        let mut i = source_start;
        while i < source_end
            invariant
                source_start <= i <= source_end,
                source_end <= source.data@.len(),
                data@ == before + source.data@.subrange(source_start as int, i as int),
            decreases source_end - i,
        {
            data.push(source.data[i]);
            i += 1;
            assert(data@ =~= before + source.data@.subrange(source_start as int, i as int));
        }
        y += 1;
        assert(data@ =~= cropped_rows(source.data@, row_stride as int, first as int, frame_row_bytes as int, y as nat));
    }
    Some(
        ActorBitmap {
            width: #[verifier::truncate] (frame_width as u16),
            height: height as u16,
            bit_depth: source.bit_depth,
            original_bit_depth: source.original_bit_depth,
            data,
            palette_ref: source.palette_ref.clone(),
            matte: None,
            use_alpha: source.use_alpha,
            trim_white_space: source.trim_white_space,
            was_trimmed: source.was_trimmed,
            version: 0,
        },
    )
}

/// The walking modes an actor can be switched to.
#[derive(Debug, Clone, Copy, PartialEq, Eq, Structural)]
pub enum WalkType {
    KeyWalk,
    MouseWalk,
}

/// The handlers an actor answers, in the order of `actor_handler_names`.
#[derive(Debug, Clone, Copy, PartialEq, Eq, Structural)]
pub enum ActorHandler {
    New,
    GoMove,
    UpdateUser,
    SetupLeave,
    DoSetupLeave,
    GetAvatarSprite,
    GetInfoImage,
    GetMyHeight,
    SetEmoticon,
    Kill,
    KillEmoticon,
    SetKeyWalk,
    SetMouseWalk,
    SetAction,
    SetActionFromList,
    AddPet,
    RemovePet,
    DoClick,
    DoMouseOver,
    LookAtOwner,
    CheckEmoticon,
    ShowNameSign,
    FrameEvent,
    StartConv,
}

/// The handler at position `i` of `actor_handler_names`.
pub open spec fn handler_at(i: int) -> ActorHandler {
    if i == 0 {
        ActorHandler::New
    } else if i == 1 {
        ActorHandler::GoMove
    } else if i == 2 {
        ActorHandler::UpdateUser
    } else if i == 3 {
        ActorHandler::SetupLeave
    } else if i == 4 {
        ActorHandler::DoSetupLeave
    } else if i == 5 {
        ActorHandler::GetAvatarSprite
    } else if i == 6 {
        ActorHandler::GetInfoImage
    } else if i == 7 {
        ActorHandler::GetMyHeight
    } else if i == 8 {
        ActorHandler::SetEmoticon
    } else if i == 9 {
        ActorHandler::Kill
    } else if i == 10 {
        ActorHandler::KillEmoticon
    } else if i == 11 {
        ActorHandler::SetKeyWalk
    } else if i == 12 {
        ActorHandler::SetMouseWalk
    } else if i == 13 {
        ActorHandler::SetAction
    } else if i == 14 {
        ActorHandler::SetActionFromList
    } else if i == 15 {
        ActorHandler::AddPet
    } else if i == 16 {
        ActorHandler::RemovePet
    } else if i == 17 {
        ActorHandler::DoClick
    } else if i == 18 {
        ActorHandler::DoMouseOver
    } else if i == 19 {
        ActorHandler::LookAtOwner
    } else if i == 20 {
        ActorHandler::CheckEmoticon
    } else if i == 21 {
        ActorHandler::ShowNameSign
    } else if i == 22 {
        ActorHandler::FrameEvent
    } else {
        ActorHandler::StartConv
    }
}

/// The handler `name` calls, matched up to ASCII case (the first match; the
/// names are distinct).
pub open spec fn actor_handler(name: Seq<char>) -> Option<ActorHandler> {
    if exists|i: int|
        0 <= i < actor_handler_names().len() && #[trigger] eq_ignore_ascii_case_spec(
            name,
            actor_handler_names()[i],
        ) {
        Some(
            handler_at(
                choose|i: int|
                    0 <= i < actor_handler_names().len() && #[trigger] eq_ignore_ascii_case_spec(
                        name,
                        actor_handler_names()[i],
                    ) && forall|j: int|
                        0 <= j < i ==> !#[trigger] eq_ignore_ascii_case_spec(
                            name,
                            actor_handler_names()[j],
                        ),
            ),
        )
    } else {
        None
    }
}

fn handler_from_index(i: usize) -> (h: ActorHandler)
    ensures
        h == handler_at(i as int) || i >= 24,
        i < 24 ==> h == handler_at(i as int),
{
    match i {
        0 => ActorHandler::New,
        1 => ActorHandler::GoMove,
        2 => ActorHandler::UpdateUser,
        3 => ActorHandler::SetupLeave,
        4 => ActorHandler::DoSetupLeave,
        5 => ActorHandler::GetAvatarSprite,
        6 => ActorHandler::GetInfoImage,
        7 => ActorHandler::GetMyHeight,
        8 => ActorHandler::SetEmoticon,
        9 => ActorHandler::Kill,
        10 => ActorHandler::KillEmoticon,
        11 => ActorHandler::SetKeyWalk,
        12 => ActorHandler::SetMouseWalk,
        13 => ActorHandler::SetAction,
        14 => ActorHandler::SetActionFromList,
        15 => ActorHandler::AddPet,
        16 => ActorHandler::RemovePet,
        17 => ActorHandler::DoClick,
        18 => ActorHandler::DoMouseOver,
        19 => ActorHandler::LookAtOwner,
        20 => ActorHandler::CheckEmoticon,
        21 => ActorHandler::ShowNameSign,
        22 => ActorHandler::FrameEvent,
        _ => ActorHandler::StartConv,
    }
}

/// Finds the handler a name calls.
fn lookup_handler(name: &str) -> (r: Option<ActorHandler>)
    ensures
        r == actor_handler(name@),
        r is Some <==> exists|i: int|
            0 <= i < actor_handler_names().len() && #[trigger] eq_ignore_ascii_case_spec(
                name@,
                actor_handler_names()[i],
            ),
{
    let names = actor_handler_list();
    let ghost h = actor_handler_names();
    let mut i: usize = 0;
    while i < names.len()
        invariant
            h == actor_handler_names(),
            names@.len() == h.len(),
            forall|j: int| 0 <= j < names@.len() ==> #[trigger] names@[j]@ == h[j],
            i <= names@.len(),
            forall|j: int| 0 <= j < i ==> !#[trigger] eq_ignore_ascii_case_spec(name@, h[j]),
        decreases names@.len() - i,
    {
        if eq_ignore_ascii_case(name, names[i]) {
            proof {
                assert(eq_ignore_ascii_case_spec(name@, h[i as int]));
                let c = choose|c: int|
                    0 <= c < h.len() && #[trigger] eq_ignore_ascii_case_spec(name@, h[c]) && forall|
                        j: int,
                    | 0 <= j < c ==> !#[trigger] eq_ignore_ascii_case_spec(name@, h[j]);
                if c < i {
                    assert(!eq_ignore_ascii_case_spec(name@, h[c]));
                }
                if c > i {
                    assert(!eq_ignore_ascii_case_spec(name@, h[i as int]));
                }
                assert(c == i);
            }
            return Some(handler_from_index(i));
        }
        i += 1;
    }
    None
}

/// The stored properties a handler call reads.
#[derive(Debug, Clone, Copy, PartialEq, Eq, Structural)]
pub struct ActorSlots {
    /// `pSpritePos` as an integer: the actor's base sprite channel.
    pub sprite_pos: Option<i32>,
    /// `pOnlinePos` as an integer: the actor's slot in the online user lists.
    pub online_pos: Option<i32>,
    /// `pLoc` is a point.
    pub loc_is_point: bool,
}

/// The first argument of a handler call, converted to an integer.
#[derive(Debug, Clone, Copy, PartialEq, Eq, Structural)]
pub enum IntArg {
    /// The call has no argument.
    Absent,
    /// The argument converts to this integer.
    Value(i32),
    /// The argument does not convert to an integer.
    NotInt,
}

/// The integer an argument stands for, 0 when it is absent.
pub open spec fn int_arg_or_zero(a: IntArg) -> i32 {
    match a {
        IntArg::Value(n) => n,
        _ => 0,
    }
}

/// A status an actor's `pStatus` is set to.
#[derive(Debug, Clone, Copy, PartialEq, Eq, Structural)]
pub enum ActorStatus {
    Killed,
}

/// The symbol text of a status.
pub open spec fn status_text(s: ActorStatus) -> Seq<char> {
    match s {
        ActorStatus::Killed => "killed"@,
    }
}

/// The symbol a status is written as.
pub fn status_symbol(s: ActorStatus) -> (r: &'static str)
    ensures
        r@ == status_text(s),
{
    match s {
        ActorStatus::Killed => "killed",
    }
}

/// What clearing a sprite channel writes into the sprite.
#[derive(Debug, Clone, Copy, PartialEq, Eq, Structural)]
pub struct ClearedSprite {
    pub has_member: bool,
    pub loc_h: i32,
    pub loc_v: i32,
    pub visible: bool,
}

/// A cleared sprite channel has no member, is hidden, and sits off stage at
/// (-100, -100).
pub fn cleared_sprite_settings() -> (r: ClearedSprite)
    ensures
        r == (ClearedSprite { has_member: false, loc_h: -100i32, loc_v: -100i32, visible: false }),
{
    ClearedSprite { has_member: false, loc_h: -100, loc_v: -100, visible: false }
}

/// What a handler call makes the runtime do.
#[derive(Debug, Clone, Copy, PartialEq, Eq, Structural)]
pub enum ActorAction {
    /// The call is not handled here.
    NotHandled,
    /// The first argument does not convert to an integer: the call fails and
    /// changes nothing.
    ArgumentError,
    /// Returns void.
    Void,
    /// Returns the integer.
    ReturnInt(i32),
    /// `new`: sets up the instance for online slot `online_pos`, with base
    /// sprite channel `sprite_pos`, and returns the instance.
    Init { online_pos: i32, sprite_pos: i32 },
    /// `kill`: clears both sprite channels (`cleared_sprite_settings`), drops
    /// the visible channel from the button and mouse-over lists, frees
    /// online slot `clear_slot` (when positive), sets `pStatus` to `status`,
    /// and returns void.
    Kill { sprite_pos: i32, visible_pos: i32, clear_slot: Option<i32>, status: ActorStatus },
    /// Sets `pEmoticonNr` and returns void.
    SetEmoticon(i32),
    /// Sets `pWalkType` and returns void.
    SetWalkType(WalkType),
    /// Returns a reference to this sprite channel.
    ReturnSprite(i16),
    /// Moves the name sign sprite over the actor and returns void.
    ShowNameSign(i16),
    /// Sets the cursor to its `npc` version and returns void.
    NpcCursor,
    /// Opens the actor's conversation bubble and returns void.
    StartConversation,
    /// Steps the animation; moves the visible sprite channel `moved_sprite`
    /// when `pLoc` is a point; returns void.
    FrameEvent { moved_sprite: Option<i32> },
}

/// The handler call's action. `has_instance` says whether the call has a
/// script instance, `int_arg` is the first argument converted to an integer,
/// `sprite_arg` the first argument read as a sprite reference (`None` when
/// absent or not a sprite reference), and `slots` the stored properties.
pub open spec fn actor_action_spec(
    script_name: Seq<char>,
    name: Seq<char>,
    has_instance: bool,
    int_arg: IntArg,
    sprite_arg: Option<i16>,
    slots: ActorSlots,
) -> ActorAction {
    let sprite_pos = slots.sprite_pos.unwrap_or(0);
    let dialogue = actor_kind(script_name) != ActorKind::Bartender;
    if !has_instance {
        ActorAction::NotHandled
    } else {
        match actor_handler(name) {
            None => ActorAction::NotHandled,
            Some(h) => match h {
                ActorHandler::New => if int_arg == IntArg::NotInt {
                    ActorAction::ArgumentError
                } else {
                    let online_pos = int_arg_or_zero(int_arg);
                    ActorAction::Init { online_pos, sprite_pos: (200 + online_pos * 3) as i32 }
                },
                ActorHandler::SetupLeave | ActorHandler::DoSetupLeave
                | ActorHandler::GetMyHeight => ActorAction::ReturnInt(0),
                ActorHandler::Kill => {
                    let online_pos = slots.online_pos.unwrap_or(0);
                    ActorAction::Kill {
                        sprite_pos,
                        visible_pos: (sprite_pos + 1) as i32,
                        clear_slot: if online_pos > 0 {
                            Some(online_pos)
                        } else {
                            None
                        },
                        status: ActorStatus::Killed,
                    }
                },
                ActorHandler::SetEmoticon => if int_arg == IntArg::NotInt {
                    ActorAction::ArgumentError
                } else {
                    ActorAction::SetEmoticon(int_arg_or_zero(int_arg))
                },
                ActorHandler::SetKeyWalk => ActorAction::SetWalkType(WalkType::KeyWalk),
                ActorHandler::SetMouseWalk => ActorAction::SetWalkType(WalkType::MouseWalk),
                ActorHandler::GetAvatarSprite => ActorAction::ReturnSprite(
                    #[verifier::truncate]
                    ((sprite_pos + 1) as i16),
                ),
                ActorHandler::ShowNameSign => match sprite_arg {
                    Some(sprite) => ActorAction::ShowNameSign(sprite),
                    None => ActorAction::Void,
                },
                ActorHandler::DoMouseOver => if dialogue {
                    ActorAction::NpcCursor
                } else {
                    ActorAction::Void
                },
                ActorHandler::DoClick | ActorHandler::StartConv => if dialogue {
                    ActorAction::StartConversation
                } else {
                    ActorAction::Void
                },
                ActorHandler::FrameEvent | ActorHandler::GoMove => ActorAction::FrameEvent {
                    moved_sprite: if slots.loc_is_point {
                        Some((sprite_pos + 1) as i32)
                    } else {
                        None
                    },
                },
                _ => ActorAction::Void,
            },
        }
    }
}

impl LegacyOnlineActor {
    /// Decides what a handler call does; the caller carries out the returned
    /// action on the player.
    pub fn call_handler(
        &self,
        name: &str,
        has_instance: bool,
        int_arg: IntArg,
        sprite_arg: Option<i16>,
        slots: ActorSlots,
    ) -> (a: ActorAction)
        requires
            has_instance && actor_handler(name@) == Some(ActorHandler::New) ==> i32::MIN
                <= int_arg_or_zero(int_arg) * 3 && 200 + int_arg_or_zero(int_arg) * 3 <= i32::MAX,
            has_instance && (actor_handler(name@) == Some(ActorHandler::Kill) || actor_handler(
                name@,
            ) == Some(ActorHandler::GetAvatarSprite)) ==> slots.sprite_pos.unwrap_or(0) < i32::MAX,
            has_instance && slots.loc_is_point && (actor_handler(name@) == Some(
                ActorHandler::FrameEvent,
            ) || actor_handler(name@) == Some(ActorHandler::GoMove)) ==> slots.sprite_pos.unwrap_or(
                0,
            ) < i32::MAX,
        ensures
            a == actor_action_spec(
                self.script_name(),
                name@,
                has_instance,
                int_arg,
                sprite_arg,
                slots,
            ),
    {
        if !has_instance {
            return ActorAction::NotHandled;
        }
        let Some(handler) = lookup_handler(name) else {
            return ActorAction::NotHandled;
        };
        let sprite_pos = slots.sprite_pos.unwrap_or(0);
        match handler {
            ActorHandler::New => {
                let online_pos = match int_arg {
                    IntArg::Value(n) => n,
                    IntArg::Absent => 0,
                    IntArg::NotInt => return ActorAction::ArgumentError,
                };
                ActorAction::Init { online_pos, sprite_pos: 200 + online_pos * 3 }
            },
            ActorHandler::SetupLeave | ActorHandler::DoSetupLeave
            | ActorHandler::GetMyHeight => ActorAction::ReturnInt(0),
            ActorHandler::Kill => {
                let online_pos = slots.online_pos.unwrap_or(0);
                let visible_pos = actor_visible_sprite_pos(sprite_pos);
                ActorAction::Kill {
                    sprite_pos,
                    visible_pos,
                    clear_slot: if online_pos > 0 {
                        Some(online_pos)
                    } else {
                        None
                    },
                    status: ActorStatus::Killed,
                }
            },
            ActorHandler::SetEmoticon => match int_arg {
                IntArg::Value(n) => ActorAction::SetEmoticon(n),
                IntArg::Absent => ActorAction::SetEmoticon(0),
                IntArg::NotInt => ActorAction::ArgumentError,
            },
            ActorHandler::SetKeyWalk => ActorAction::SetWalkType(WalkType::KeyWalk),
            ActorHandler::SetMouseWalk => ActorAction::SetWalkType(WalkType::MouseWalk),
            ActorHandler::GetAvatarSprite => ActorAction::ReturnSprite(
                #[verifier::truncate]
                (actor_visible_sprite_pos(sprite_pos) as i16),
            ),
            ActorHandler::ShowNameSign => match sprite_arg {
                Some(sprite) => ActorAction::ShowNameSign(sprite),
                None => ActorAction::Void,
            },
            ActorHandler::DoMouseOver => {
                if actor_profile(self.script_name.as_str()).has_dialogue {
                    ActorAction::NpcCursor
                } else {
                    ActorAction::Void
                }
            },
            ActorHandler::DoClick | ActorHandler::StartConv => {
                if actor_profile(self.script_name.as_str()).has_dialogue {
                    ActorAction::StartConversation
                } else {
                    ActorAction::Void
                }
            },
            ActorHandler::FrameEvent | ActorHandler::GoMove => ActorAction::FrameEvent {
                moved_sprite: if slots.loc_is_point {
                    Some(actor_visible_sprite_pos(sprite_pos))
                } else {
                    None
                },
            },
            _ => ActorAction::Void,
        }
    }
}

/// `kill` frees the actor's online slot whenever its stored online position
/// `p` is a real slot (`p >= 1`), and only then; it always clears the base
/// sprite channel and the one above it and marks the actor killed.
pub proof fn lemma_kill_frees_online_slot(
    script_name: Seq<char>,
    name: Seq<char>,
    int_arg: IntArg,
    sprite_arg: Option<i16>,
    slots: ActorSlots,
)
    requires
        actor_handler(name) == Some(ActorHandler::Kill),
        slots.sprite_pos.unwrap_or(0) < i32::MAX,
    ensures
        actor_action_spec(script_name, name, true, int_arg, sprite_arg, slots) matches ActorAction::Kill {
            sprite_pos,
            visible_pos,
            clear_slot,
            status,
        } && sprite_pos == slots.sprite_pos.unwrap_or(0) && visible_pos == sprite_pos + 1 && status
            == ActorStatus::Killed && (forall|p: i32|
            slots.online_pos == Some(p) ==> (p >= 1 ==> clear_slot == Some(p)) && (p <= 0
                ==> clear_slot is None)) && (slots.online_pos is None ==> clear_slot is None),
{
}

/// With a script instance, a handler call is taken over (the action is not
/// `NotHandled`) exactly when `has_handler` answers its name.
pub proof fn lemma_handled_iff_has_handler(
    script_name: Seq<char>,
    name: Seq<char>,
    int_arg: IntArg,
    sprite_arg: Option<i16>,
    slots: ActorSlots,
)
    ensures
        (actor_action_spec(script_name, name, true, int_arg, sprite_arg, slots)
            != ActorAction::NotHandled) == exists|i: int|
            0 <= i < actor_handler_names().len() && #[trigger] eq_ignore_ascii_case_spec(
                name,
                actor_handler_names()[i],
            ),
{
}


/// Registration point of a cropped frame: centred horizontally, and the
/// source's vertical registration clamped into the frame.
pub fn frame_reg_point(frame_width: u16, frame_height: u16, source_reg_y: i16) -> (r: (i16, i16))
    requires
        frame_height <= i16::MAX,
    ensures
        r.0 == frame_width / 2,
        r.1 == (if source_reg_y < 0 {
            0
        } else if source_reg_y > frame_height {
            frame_height as i16
        } else {
            source_reg_y
        }),
{
    let reg_x = (frame_width / 2) as i16;
    let max = frame_height as i16;
    let reg_y = if source_reg_y < 0 {
        0
    } else if source_reg_y > max {
        max
    } else {
        source_reg_y
    };
    (reg_x, reg_y)
}

/// A property list key as the lookups see it: the text of a symbol or
/// string key, or another kind of key.
#[derive(Debug)]
pub enum PropKey {
    Name(String),
    Other,
}

/// A property list value as the object lists see it: an integer, a script
/// instance (of the runtime's reference type `O`), or anything else.
#[derive(Debug, Clone, Copy, PartialEq, Eq)]
pub enum PropValue<O> {
    Int(i32),
    Instance(O),
    Other,
}

/// A property list entry: its key and its value.
pub type PropPair<O> = (PropKey, PropValue<O>);

/// An entry of an object list: a property list, or `None` for any other datum.
pub type ObjectEntry<O> = Option<Vec<PropPair<O>>>;

/// The text of a key; `None` for a key that is neither symbol nor string.
pub open spec fn key_text(k: PropKey) -> Option<Seq<char>> {
    match k {
        PropKey::Name(s) => Some(s@),
        PropKey::Other => None,
    }
}

/// An object list entry as plain values: the key texts and values of a
/// property list, or `None` for any other datum.
pub type EntryView<O> = Option<Seq<(Option<Seq<char>>, PropValue<O>)>>;

pub open spec fn entry_view<O>(e: ObjectEntry<O>) -> EntryView<O> {
    match e {
        Some(props) => Some(props@.map_values(|p: PropPair<O>| (key_text(p.0), p.1))),
        None => None,
    }
}

pub open spec fn entries_view<O>(items: Seq<ObjectEntry<O>>) -> Seq<EntryView<O>> {
    items.map_values(|e: ObjectEntry<O>| entry_view(e))
}

/// Key text `t` names `name` up to ASCII case.
pub open spec fn text_matches(t: Option<Seq<char>>, name: Seq<char>) -> bool {
    t matches Some(x) && eq_ignore_ascii_case_spec(x, name)
}

/// Key `k` names `name` up to ASCII case.
pub open spec fn key_matches(k: PropKey, name: Seq<char>) -> bool {
    text_matches(key_text(k), name)
}

/// Finds the first entry whose key names `key_name`, ignoring ASCII case.
pub fn prop_value<O>(props: &Vec<PropPair<O>>, key_name: &str) -> (r: Option<usize>)
    ensures
        match r {
            Some(i) => i < props@.len() && key_matches(props@[i as int].0, key_name@) && forall|j: int|
                0 <= j < i ==> !#[trigger] key_matches(props@[j].0, key_name@),
            None => forall|j: int|
                0 <= j < props@.len() ==> !#[trigger] key_matches(props@[j].0, key_name@),
        },
{
    let mut i: usize = 0;
    while i < props.len()
        invariant
            i <= props@.len(),
            forall|j: int| 0 <= j < i ==> !#[trigger] key_matches(props@[j].0, key_name@),
        decreases props@.len() - i,
    {
        if let PropKey::Name(s) = &props[i].0 {
            if eq_ignore_ascii_case(s.as_str(), key_name) {
                return Some(i);
            }
        }
        i += 1;
    }
    None
}

/// The entry is a property list whose first `pNr` entry holds `sprite_pos`.
pub open spec fn view_has_sprite<O>(e: EntryView<O>, sprite_pos: i32) -> bool {
    match e {
        Some(ps) => exists|i: int|
            0 <= i < ps.len() && #[trigger] text_matches(ps[i].0, "pNr"@) && (forall|j: int|
                0 <= j < i ==> !#[trigger] text_matches(ps[j].0, "pNr"@)) && ps[i].1 == PropValue::<
                O,
            >::Int(sprite_pos),
        None => false,
    }
}

/// Whether an object list entry is the one for sprite channel `sprite_pos`.
pub fn entry_has_sprite<O>(entry: &ObjectEntry<O>, sprite_pos: i32) -> (b: bool)
    ensures
        b == view_has_sprite(entry_view(*entry), sprite_pos),
{
    let Some(props) = entry else {
        return false;
    };
    let ghost ps = props@.map_values(|p: PropPair<O>| (key_text(p.0), p.1));
    assert(forall|j: int| 0 <= j < props@.len() ==> #[trigger] ps[j] == (key_text(props@[j].0), props@[j].1));
    match prop_value(props, "pNr") {
        Some(i) => {
            let found = match &props[i].1 {
                PropValue::Int(n) => *n == sprite_pos,
                _ => false,
            };
            proof {
                if view_has_sprite(entry_view(*entry), sprite_pos) {
                    let k = choose|k: int|
                        0 <= k < ps.len() && #[trigger] text_matches(ps[k].0, "pNr"@) && (forall|j: int|
                            0 <= j < k ==> !#[trigger] text_matches(ps[j].0, "pNr"@)) && ps[k].1
                            == PropValue::<O>::Int(sprite_pos);
                    assert(key_matches(props@[k].0, "pNr"@));
                    assert(text_matches(ps[i as int].0, "pNr"@));
                    if k < i {
                        assert(!key_matches(props@[k].0, "pNr"@));
                    }
                    assert(k == i as int);
                }
                if found {
                    assert(text_matches(ps[i as int].0, "pNr"@));
                    assert forall|j: int| 0 <= j < i implies !#[trigger] text_matches(ps[j].0, "pNr"@) by {
                        assert(!key_matches(props@[j].0, "pNr"@));
                    }
                }
            }
            found
        },
        None => {
            proof {
                if view_has_sprite(entry_view(*entry), sprite_pos) {
                    let k = choose|k: int|
                        0 <= k < ps.len() && #[trigger] text_matches(ps[k].0, "pNr"@) && (forall|j: int|
                            0 <= j < k ==> !#[trigger] text_matches(ps[j].0, "pNr"@)) && ps[k].1
                            == PropValue::<O>::Int(sprite_pos);
                    assert(key_matches(props@[k].0, "pNr"@));
                }
            }
            false
        },
    }
}

/// The entries of a list that are not for `sprite_pos`, in order.
pub open spec fn without_sprite<O>(items: Seq<EntryView<O>>, sprite_pos: i32) -> Seq<EntryView<O>>
    decreases items.len(),
{
    if items.len() == 0 {
        seq![]
    } else {
        let r = without_sprite(items.drop_last(), sprite_pos);
        if view_has_sprite(items.last(), sprite_pos) {
            r
        } else {
            r.push(items.last())
        }
    }
}

/// The entry appended for actor `instance` on sprite channel `sprite_pos`:
/// a property list `[#pNr: sprite_pos, #pObj: instance]`.
pub open spec fn new_entry_view<O>(sprite_pos: i32, instance: O) -> EntryView<O> {
    Some(
        seq![
            (Some("pNr"@), PropValue::Int(sprite_pos)),
            (Some("pObj"@), PropValue::Instance(instance)),
        ],
    )
}

/// An object list after `append_object_list_entry`: the entries for
/// `sprite_pos` removed and the actor's new entry placed last.
pub open spec fn appended_entries<O>(items: Seq<EntryView<O>>, sprite_pos: i32, instance: O) -> Seq<
    EntryView<O>,
> {
    without_sprite(items, sprite_pos).push(new_entry_view(sprite_pos, instance))
}

fn take_without_sprite<O>(items: Vec<ObjectEntry<O>>, sprite_pos: i32) -> (r: Vec<ObjectEntry<O>>)
    ensures
        entries_view(r@) == without_sprite(entries_view(items@), sprite_pos),
{
    let ghost all = items@;
    let n = items.len();
    let mut rest = items;
    let mut kept: Vec<ObjectEntry<O>> = Vec::new();
    let mut k: usize = 0;
    assert(entries_view(all.take(0)) =~= seq![]);
    while rest.len() > 0
        invariant
            k <= all.len(),
            all.len() == n,
            rest@ == all.skip(k as int),
            entries_view(kept@) == without_sprite(entries_view(all.take(k as int)), sprite_pos),
        decreases rest@.len(),
    {
        let e = rest.remove(0);
        proof {
            assert(e == all[k as int]);
            let before = entries_view(all.take(k as int));
            let after = entries_view(all.take(k as int + 1));
            assert(after =~= before.push(entry_view(e)));
            assert(after.drop_last() =~= before);
        }
        let for_sprite = entry_has_sprite(&e, sprite_pos);
        let ghost old_kept = kept@;
        if !for_sprite {
            kept.push(e);
            assert(entries_view(kept@) =~= entries_view(old_kept).push(entry_view(e)));
        }
        k += 1;
        assert(rest@ =~= all.skip(k as int));
    }
    assert(all.take(k as int) =~= all);
    kept
}

/// Replaces the entries for `sprite_pos` in an object list by the new entry
/// for actor `instance`, placed last.
pub fn append_object_list_entry<O>(items: &mut Vec<ObjectEntry<O>>, sprite_pos: i32, instance: O)
    ensures
        entries_view(final(items)@) == appended_entries(
            entries_view(old(items)@),
            sprite_pos,
            instance,
        ),
{
    let mut old_items: Vec<ObjectEntry<O>> = Vec::new();
    std::mem::swap(items, &mut old_items);
    let mut kept = take_without_sprite(old_items, sprite_pos);
    let entry = vec![
        (PropKey::Name(String::from_str("pNr")), PropValue::Int(sprite_pos)),
        (PropKey::Name(String::from_str("pObj")), PropValue::Instance(instance)),
    ];
    let ghost kept_before = kept@;
    let ghost new_entry = Some(entry);
    kept.push(Some(entry));
    proof {
        assert(entry_view(new_entry) =~= new_entry_view(sprite_pos, instance));
        assert(entries_view(kept@) =~= entries_view(kept_before).push(entry_view(new_entry)));
    }
    *items = kept;
}

/// Drops the entries for `sprite_pos` from an object list; returns whether
/// any was dropped (when none was, the list is the same and need not be
/// written back).
pub fn remove_object_list_entry<O>(items: &mut Vec<ObjectEntry<O>>, sprite_pos: i32) -> (changed: bool)
    ensures
        entries_view(final(items)@) == without_sprite(entries_view(old(items)@), sprite_pos),
        changed == (without_sprite(entries_view(old(items)@), sprite_pos).len() != old(
            items,
        )@.len()),
{
    let old_len = items.len();
    let mut old_items: Vec<ObjectEntry<O>> = Vec::new();
    std::mem::swap(items, &mut old_items);
    let kept = take_without_sprite(old_items, sprite_pos);
    let changed = kept.len() != old_len;
    *items = kept;
    changed
}

/// No entry of the filtered list is for `sprite_pos`.
pub proof fn lemma_without_sprite_has_none<O>(items: Seq<EntryView<O>>, sprite_pos: i32)
    ensures
        forall|i: int|
            0 <= i < without_sprite(items, sprite_pos).len() ==> !view_has_sprite(
                #[trigger] without_sprite(items, sprite_pos)[i],
                sprite_pos,
            ),
        without_sprite(items, sprite_pos).len() <= items.len(),
    decreases items.len(),
{
    if items.len() > 0 {
        lemma_without_sprite_has_none(items.drop_last(), sprite_pos);
    }
}

/// Filtering a list none of whose entries is for `sprite_pos` keeps it.
pub proof fn lemma_without_sprite_keeps<O>(items: Seq<EntryView<O>>, sprite_pos: i32)
    requires
        forall|i: int| 0 <= i < items.len() ==> !view_has_sprite(#[trigger] items[i], sprite_pos),
    ensures
        without_sprite(items, sprite_pos) == items,
    decreases items.len(),
{
    if items.len() > 0 {
        lemma_without_sprite_keeps(items.drop_last(), sprite_pos);
        assert(items.drop_last().push(items.last()) =~= items);
    }
}

/// The appended entry is for `sprite_pos`.
pub proof fn lemma_new_entry_has_sprite<O>(sprite_pos: i32, instance: O)
    ensures
        view_has_sprite(new_entry_view(sprite_pos, instance), sprite_pos),
{
    let ps = seq![
        (Some("pNr"@), PropValue::Int(sprite_pos)),
        (Some("pObj"@), PropValue::Instance(instance)),
    ];
    assert(text_matches(ps[0].0, "pNr"@));
}

/// Appending the same actor entry twice gives the same list as once: the
/// list holds exactly one entry for `sprite_pos`, placed last.
pub proof fn lemma_append_idempotent<O>(items: Seq<EntryView<O>>, sprite_pos: i32, instance: O)
    ensures
        appended_entries(appended_entries(items, sprite_pos, instance), sprite_pos, instance)
            == appended_entries(items, sprite_pos, instance),
        forall|i: int|
            0 <= i < appended_entries(items, sprite_pos, instance).len() - 1 ==> !view_has_sprite(
                #[trigger] appended_entries(items, sprite_pos, instance)[i],
                sprite_pos,
            ),
        view_has_sprite(appended_entries(items, sprite_pos, instance).last(), sprite_pos),
{
    let w = without_sprite(items, sprite_pos);
    let a = w.push(new_entry_view(sprite_pos, instance));
    lemma_without_sprite_has_none(items, sprite_pos);
    lemma_without_sprite_keeps(w, sprite_pos);
    lemma_new_entry_has_sprite(sprite_pos, instance);
    assert(a.drop_last() =~= w);
    assert forall|i: int| 0 <= i < a.len() - 1 implies !view_has_sprite(#[trigger] a[i], sprite_pos) by {
        assert(a[i] == w[i]);
    }
}

/// Removing an actor's entry right after appending it leaves the other
/// entries of the list, in order.
pub proof fn lemma_remove_after_append<O>(items: Seq<EntryView<O>>, sprite_pos: i32, instance: O)
    ensures
        without_sprite(appended_entries(items, sprite_pos, instance), sprite_pos) == without_sprite(
            items,
            sprite_pos,
        ),
{
    let w = without_sprite(items, sprite_pos);
    let a = w.push(new_entry_view(sprite_pos, instance));
    lemma_without_sprite_has_none(items, sprite_pos);
    lemma_without_sprite_keeps(w, sprite_pos);
    lemma_new_entry_has_sprite(sprite_pos, instance);
    assert(a.drop_last() =~= w);
}

/// Sets item `index` (counted from 1) of a list, when it exists; index 0
/// stands for the first item.
pub fn set_list_item<T>(items: &mut Vec<T>, index: usize, value: T)
    ensures
        ({
            let i = if index == 0 { 0 } else { index - 1 };
            &&& i < old(items)@.len() ==> final(items)@ == old(items)@.update(i, value)
            &&& i >= old(items)@.len() ==> final(items)@ == old(items)@
        }),
{
    let i = index.saturating_sub(1);
    if i < items.len() {
        items.set(i, value);
    }
}

/// Frees online slot `online_pos` (counted from 1) in the user list and the
/// online list; nothing happens for a position that is not positive.
pub fn clear_online_actor_slot<T: Copy>(
    user_list: &mut Vec<T>,
    online_list: &mut Vec<T>,
    online_pos: i32,
    cleared: T,
)
    ensures
        online_pos <= 0 ==> final(user_list)@ == old(user_list)@ && final(online_list)@ == old(
            online_list,
        )@,
        online_pos > 0 && online_pos <= old(user_list)@.len() ==> final(user_list)@ == old(
            user_list,
        )@.update(online_pos - 1, cleared),
        online_pos > old(user_list)@.len() ==> final(user_list)@ == old(user_list)@,
        online_pos > 0 && online_pos <= old(online_list)@.len() ==> final(online_list)@ == old(
            online_list,
        )@.update(online_pos - 1, cleared),
        online_pos > old(online_list)@.len() ==> final(online_list)@ == old(online_list)@,
{
    if online_pos <= 0 {
        return;
    }
    set_list_item(user_list, online_pos as usize, cleared);
    set_list_item(online_list, online_pos as usize, cleared);
}

/// A property value an actor starts with. Numbers that the player keeps as
/// floating point (`Float`, the coordinates of `Point`) are whole here.
#[derive(Debug, Clone, Copy, PartialEq)]
pub enum InitValue {
    Symbol(&'static str),
    Int(i32),
    /// A floating-point number with this whole value.
    Float(i32),
    /// A point with these whole coordinates.
    Point(i32, i32),
    Text(&'static str),
    EmptyList,
    Void,
    /// A property list `[#name: text]`.
    NameList(&'static str),
}

/// An initial property value as plain values.
pub enum InitView {
    Symbol(Seq<char>),
    Int(i32),
    Float(i32),
    Point(i32, i32),
    Text(Seq<char>),
    EmptyList,
    Void,
    NameList(Seq<char>),
}

pub open spec fn init_view(v: InitValue) -> InitView {
    match v {
        InitValue::Symbol(s) => InitView::Symbol(s@),
        InitValue::Int(n) => InitView::Int(n),
        InitValue::Float(n) => InitView::Float(n),
        InitValue::Point(x, y) => InitView::Point(x, y),
        InitValue::Text(s) => InitView::Text(s@),
        InitValue::EmptyList => InitView::EmptyList,
        InitValue::Void => InitView::Void,
        InitValue::NameList(s) => InitView::NameList(s@),
    }
}

pub open spec fn init_entries_view(v: Seq<(&'static str, InitValue)>) -> Seq<(Seq<char>, InitView)> {
    v.map_values(|e: (&'static str, InitValue)| (e.0@, init_view(e.1)))
}

/// The base sprite channel of the actor in online slot `online_pos`.
pub open spec fn actor_sprite_pos(online_pos: i32) -> int {
    200 + online_pos * 3
}

/// The properties a new actor is given, in the order they are written: the
/// walking, emoticon and animation state at rest, its online slot and sprite
/// channels, its name, and last the NPC list naming it.
pub open spec fn initial_props_spec(
    display_name: Seq<char>,
    loc: (i32, i32),
    online_pos: i32,
    sprite_pos: i32,
) -> Seq<(Seq<char>, InitView)> {
    seq![
        ("pStatus"@, InitView::Symbol("chat"@)),
        ("pPoint"@, InitView::Point(0, 0)),
        ("pLoc"@, InitView::Point(loc.0, loc.1)),
        ("pPathLoc"@, InitView::Point(loc.0, loc.1)),
        ("pWalkList"@, InitView::EmptyList),
        ("pKeyWalklist"@, InitView::EmptyList),
        ("pKeyPoint"@, InitView::Point(0, 0)),
        ("pSpeedH"@, InitView::Int(0)),
        ("pSpeedV"@, InitView::Int(0)),
        ("pSpeed"@, InitView::Int(0)),
        ("pWalkTime"@, InitView::Int(0)),
        ("pWalkSpeed"@, InitView::Float(0)),
        ("pTime"@, InitView::Int(0)),
        ("pWalkStatus"@, InitView::Symbol("stand"@)),
        ("pWalkType"@, InitView::Symbol("mouseWalk"@)),
        ("pAvatar"@, InitView::Int(0)),
        ("pOnlinePos"@, InitView::Int(online_pos)),
        ("pLastPoint"@, InitView::Point(0, 0)),
        ("pAppearance"@, InitView::EmptyList),
        ("pEmoticon"@, InitView::Int(0)),
        ("pEmoticonNr"@, InitView::Int(0)),
        ("pSpritePos"@, InitView::Int(sprite_pos)),
        ("pSitHeight"@, InitView::Int(0)),
        ("pIsLeaving"@, InitView::Int(0)),
        ("pFadeUp"@, InitView::Int(0)),
        ("pName"@, InitView::Text(display_name)),
        ("pGender"@, InitView::Int(0)),
        ("pInfo"@, InitView::Text(""@)),
        ("pAge"@, InitView::Text(""@)),
        ("pAction"@, InitView::Void),
        ("pCitizenType"@, InitView::Int(0)),
        ("pPet"@, InitView::Int(0)),
        ("pUsePet"@, InitView::Int(0)),
        ("pSpriteNr"@, InitView::Int(sprite_pos)),
        ("pConv"@, InitView::EmptyList),
        ("pAnimFrame"@, InitView::Int(0)),
        ("pAnimTick"@, InitView::Int(0)),
        ("pNPClist"@, InitView::NameList(display_name)),
    ]
}

/// A new actor's path location starts where the actor stands: `pPathLoc`
/// holds the same point as `pLoc`, the profile's location; `pSpritePos` and
/// `pSpriteNr` both name the base sprite channel, and `pOnlinePos` the slot.
pub proof fn lemma_initial_locations(
    display_name: Seq<char>,
    loc: (i32, i32),
    online_pos: i32,
    sprite_pos: i32,
)
    ensures
        ({
            let s = initial_props_spec(display_name, loc, online_pos, sprite_pos);
            &&& s[2] == ("pLoc"@, InitView::Point(loc.0, loc.1))
            &&& s[3] == ("pPathLoc"@, s[2].1)
            &&& s[16] == ("pOnlinePos"@, InitView::Int(online_pos))
            &&& s[21] == ("pSpritePos"@, InitView::Int(sprite_pos))
            &&& s[33] == ("pSpriteNr"@, s[21].1)
        }),
{
}

/// The properties a new actor in online slot `online_pos` starts with.
pub fn initial_actor_props(profile: &ActorProfile, online_pos: i32) -> (r: Vec<(&'static str, InitValue)>)
    requires
        i32::MIN <= online_pos * 3,
        actor_sprite_pos(online_pos) <= i32::MAX,
    ensures
        init_entries_view(r@) == initial_props_spec(
            profile.display_name@,
            profile.loc,
            online_pos,
            actor_sprite_pos(online_pos) as i32,
        ),
{
    let sprite_pos = 200 + online_pos * 3;
    let r = vec![
        ("pStatus", InitValue::Symbol("chat")),
        ("pPoint", InitValue::Point(0, 0)),
        ("pLoc", InitValue::Point(profile.loc.0, profile.loc.1)),
        ("pPathLoc", InitValue::Point(profile.loc.0, profile.loc.1)),
        ("pWalkList", InitValue::EmptyList),
        ("pKeyWalklist", InitValue::EmptyList),
        ("pKeyPoint", InitValue::Point(0, 0)),
        ("pSpeedH", InitValue::Int(0)),
        ("pSpeedV", InitValue::Int(0)),
        ("pSpeed", InitValue::Int(0)),
        ("pWalkTime", InitValue::Int(0)),
        ("pWalkSpeed", InitValue::Float(0)),
        ("pTime", InitValue::Int(0)),
        ("pWalkStatus", InitValue::Symbol("stand")),
        ("pWalkType", InitValue::Symbol("mouseWalk")),
        ("pAvatar", InitValue::Int(0)),
        ("pOnlinePos", InitValue::Int(online_pos)),
        ("pLastPoint", InitValue::Point(0, 0)),
        ("pAppearance", InitValue::EmptyList),
        ("pEmoticon", InitValue::Int(0)),
        ("pEmoticonNr", InitValue::Int(0)),
        ("pSpritePos", InitValue::Int(sprite_pos)),
        ("pSitHeight", InitValue::Int(0)),
        ("pIsLeaving", InitValue::Int(0)),
        ("pFadeUp", InitValue::Int(0)),
        ("pName", InitValue::Text(profile.display_name)),
        ("pGender", InitValue::Int(0)),
        ("pInfo", InitValue::Text("")),
        ("pAge", InitValue::Text("")),
        ("pAction", InitValue::Void),
        ("pCitizenType", InitValue::Int(0)),
        ("pPet", InitValue::Int(0)),
        ("pUsePet", InitValue::Int(0)),
        ("pSpriteNr", InitValue::Int(sprite_pos)),
        ("pConv", InitValue::EmptyList),
        ("pAnimFrame", InitValue::Int(0)),
        ("pAnimTick", InitValue::Int(0)),
        ("pNPClist", InitValue::NameList(profile.display_name)),
    ];
    assert(init_entries_view(r@) =~= initial_props_spec(
        profile.display_name@,
        profile.loc,
        online_pos,
        sprite_pos,
    ));
    r
}

/// The property names an actor instance has.
pub open spec fn actor_property_names() -> Seq<Seq<char>> {
    seq![
        "pStatus"@,
        "pPoint"@,
        "pLoc"@,
        "pPathLoc"@,
        "pWalkList"@,
        "pKeyWalklist"@,
        "pKeyPoint"@,
        "pSpeedH"@,
        "pSpeedV"@,
        "pSpeed"@,
        "pWalkTime"@,
        "pWalkSpeed"@,
        "pTime"@,
        "pWalkStatus"@,
        "pWalkType"@,
        "pAvatar"@,
        "pOnlinePos"@,
        "pLastPoint"@,
        "pAppearance"@,
        "pEmoticon"@,
        "pEmoticonNr"@,
        "pSpritePos"@,
        "pSitHeight"@,
        "pIsLeaving"@,
        "pFadeUp"@,
        "pName"@,
        "pNPClist"@,
        "pGender"@,
        "pInfo"@,
        "pAge"@,
        "pAction"@,
        "pCitizenType"@,
        "pPet"@,
        "pUsePet"@,
        "pSpriteNr"@,
        "pConv"@,
        "pAnimFrame"@,
        "pAnimTick"@,
        "pFrameMember"@,
    ]
}

impl LegacyOnlineActor {
    /// The property names an actor instance has.
    pub fn get_property_names(&self) -> (r: Vec<String>)
        ensures
            r@.map_values(|s: String| s@) == actor_property_names(),
    {
        let names: Vec<&'static str> = vec![
            "pStatus",
            "pPoint",
            "pLoc",
            "pPathLoc",
            "pWalkList",
            "pKeyWalklist",
            "pKeyPoint",
            "pSpeedH",
            "pSpeedV",
            "pSpeed",
            "pWalkTime",
            "pWalkSpeed",
            "pTime",
            "pWalkStatus",
            "pWalkType",
            "pAvatar",
            "pOnlinePos",
            "pLastPoint",
            "pAppearance",
            "pEmoticon",
            "pEmoticonNr",
            "pSpritePos",
            "pSitHeight",
            "pIsLeaving",
            "pFadeUp",
            "pName",
            "pNPClist",
            "pGender",
            "pInfo",
            "pAge",
            "pAction",
            "pCitizenType",
            "pPet",
            "pUsePet",
            "pSpriteNr",
            "pConv",
            "pAnimFrame",
            "pAnimTick",
            "pFrameMember",
        ];
        let mut r: Vec<String> = Vec::new();
        let mut i: usize = 0;
        while i < names.len()
            invariant
                i <= names@.len(),
                names@.map_values(|s: &'static str| s@) == actor_property_names(),
                r@.map_values(|s: String| s@) == names@.take(i as int).map_values(
                    |s: &'static str| s@,
                ),
            decreases names@.len() - i,
        {
            let ghost before = r@;
            let name = String::from_str(names[i]);
            r.push(name);
            proof {
                assert(r@ == before.push(name));
                assert(names@.take(i + 1) =~= names@.take(i as int).push(names@[i as int]));
                assert(r@.map_values(|s: String| s@) =~= before.map_values(|s: String| s@).push(
                    name@,
                ));
                assert(names@.take(i + 1).map_values(|s: &'static str| s@) =~= names@.take(
                    i as int,
                ).map_values(|s: &'static str| s@).push(names@[i as int]@));
            }
            i += 1;
        }
        assert(names@.take(names@.len() as int) =~= names@);
        r
    }
}

/// Where the name sign goes: level with the actor, its height plus two
/// pixels above it. `None` when the sign is already there (nothing moves).
pub fn name_sign_loc(actor_loc: (i32, i32), actor_height: i32, sign_loc: (i32, i32)) -> (r: Option<
    (i32, i32),
>)
    requires
        i32::MIN <= actor_loc.1 - actor_height <= i32::MAX,
        i32::MIN <= actor_loc.1 - actor_height - 2,
    ensures
        ({
            let target = (actor_loc.0, (actor_loc.1 - actor_height - 2) as i32);
            &&& sign_loc == target ==> r is None
            &&& sign_loc != target ==> r == Some(target)
        }),
{
    let target = (actor_loc.0, actor_loc.1 - actor_height - 2);
    if sign_loc.0 != target.0 || sign_loc.1 != target.1 {
        Some(target)
    } else {
        None
    }
}

/// The bubbles of an actor's conversation: bubble `i` has id `i + 1`
/// (converted with `as i32`) and the `i`-th line of the profile as its text.
pub fn conversation_layout(profile: &ActorProfile) -> (r: Vec<(i32, &'static str)>)
    ensures
        r@.len() == profile.conversation_lines@.len(),
        forall|i: int|
            0 <= i < r@.len() ==> #[trigger] r@[i].0 == #[verifier::truncate] ((i + 1) as i32)
                && r@[i].1@ == profile.conversation_lines@[i]@,
{
    let mut r: Vec<(i32, &'static str)> = Vec::new();
    let mut i: usize = 0;
    while i < profile.conversation_lines.len()
        invariant
            i <= profile.conversation_lines@.len(),
            r@.len() == i,
            forall|j: int|
                0 <= j < i ==> #[trigger] r@[j].0 == #[verifier::truncate] ((j + 1) as i32)
                    && r@[j].1@ == profile.conversation_lines@[j]@,
        decreases profile.conversation_lines@.len() - i,
    {
        r.push((#[verifier::truncate] ((i + 1) as i32), profile.conversation_lines[i]));
        i += 1;
    }
    r
}

/// The settings an actor's visible sprite gets when it is assigned its
/// member.
#[derive(Debug, Clone, Copy, PartialEq, Eq, Structural)]
pub struct ActorSpriteSettings {
    pub puppet: bool,
    pub visible: bool,
    pub ink: i32,
    pub blend: i32,
    pub editable: bool,
    pub width: i32,
    pub height: i32,
    pub has_loc_changed: bool,
    pub has_size_changed: bool,
    /// Palette index of the foreground colour.
    pub color: u8,
}

/// Sprite settings for a member of size `member_size` (0 x 0 when unknown):
/// a visible, editable puppet with ink 36, full blend, the member's size, and
/// foreground colour 255; the size counts as changed only when both sides
/// are positive.
pub fn actor_sprite_settings(member_size: Option<(i32, i32)>) -> (r: ActorSpriteSettings)
    ensures
        ({
            let (w, h) = match member_size {
                Some(s) => s,
                None => (0i32, 0i32),
            };
            r == ActorSpriteSettings {
                puppet: true,
                visible: true,
                ink: 36,
                blend: 100,
                editable: true,
                width: w,
                height: h,
                has_loc_changed: true,
                has_size_changed: w > 0 && h > 0,
                color: 255,
            }
        }),
{
    let (width, height) = match member_size {
        Some(s) => s,
        None => (0, 0),
    };
    ActorSpriteSettings {
        puppet: true,
        visible: true,
        ink: 36,
        blend: 100,
        editable: true,
        width,
        height,
        has_loc_changed: true,
        has_size_changed: width > 0 && height > 0,
        color: 255,
    }
}

/// An actor made for a script name behaves as one made for the lower-cased
/// name: the same kind of actor, and the same action for every call.
pub proof fn lemma_lowercase_script_name(
    script_name: Seq<char>,
    name: Seq<char>,
    has_instance: bool,
    int_arg: IntArg,
    sprite_arg: Option<i16>,
    slots: ActorSlots,
)
    ensures
        actor_kind(ascii_lowercase(script_name)) == actor_kind(script_name),
        actor_action_spec(ascii_lowercase(script_name), name, has_instance, int_arg, sprite_arg, slots)
            == actor_action_spec(script_name, name, has_instance, int_arg, sprite_arg, slots),
{
    lemma_lowercase_eq_ignore(script_name, "pbartender_aqua"@);
    lemma_lowercase_eq_ignore(script_name, "pbartender_den"@);
}

/// The new picture of an actor's animation frame member: nothing for a
/// single-frame actor, a missing source bitmap, a frame that cannot be cut,
/// or a frame member that is not a bitmap; otherwise frame `frame` cut out of
/// the source strip.
pub fn frame_update<P: Clone, M>(
    frame_count: usize,
    source: Option<&ActorBitmap<P, M>>,
    frame_is_bitmap: bool,
    frame: usize,
) -> (r: Option<ActorBitmap<P, M>>)
    ensures
        r is Some <==> (frame_count > 1 && source is Some && source_crop_layout(
            *source.unwrap(),
            frame,
            frame_count,
        ) is Some && frame_is_bitmap),
        r matches Some(out) ==> is_cropped_frame(*source.unwrap(), frame, frame_count, out),
{
    if frame_count <= 1 {
        return None;
    }
    let Some(source) = source else {
        return None;
    };
    let Some(frame_bitmap) = crop_actor_frame(source, frame, frame_count) else {
        return None;
    };
    if !frame_is_bitmap {
        return None;
    }
    Some(frame_bitmap)
}

/// The cast member made for an actor's animation frame: the frame's size,
/// its registration point (see `frame_reg_point`), and the frame's own
/// background colour, else the source member's.
#[derive(Debug)]
pub struct FrameMemberLayout<C> {
    pub width: u16,
    pub height: u16,
    pub reg_point: (i16, i16),
    pub member_reg_point: (i32, i32),
    pub bg_color: C,
}

/// Lays out the cast member for a cropped frame.
pub fn frame_member_layout<C>(
    frame_width: u16,
    frame_height: u16,
    source_reg_y: i16,
    frame_bg: Option<C>,
    source_bg: C,
) -> (r: FrameMemberLayout<C>)
    requires
        frame_height <= i16::MAX,
    ensures
        r.width == frame_width,
        r.height == frame_height,
        r.reg_point.0 == frame_width / 2,
        r.reg_point.1 == (if source_reg_y < 0 {
            0
        } else if source_reg_y > frame_height {
            frame_height as i16
        } else {
            source_reg_y
        }),
        r.member_reg_point == (r.reg_point.0 as i32, r.reg_point.1 as i32),
        r.bg_color == (match frame_bg {
            Some(c) => c,
            None => source_bg,
        }),
{
    let reg_point = frame_reg_point(frame_width, frame_height, source_reg_y);
    let bg_color = match frame_bg {
        Some(c) => c,
        None => source_bg,
    };
    FrameMemberLayout {
        width: frame_width,
        height: frame_height,
        reg_point,
        member_reg_point: (reg_point.0 as i32, reg_point.1 as i32),
        bg_color,
    }
}

/// A step of setting up an actor after its properties are written.
#[derive(Debug, Clone, Copy, PartialEq, Eq, Structural)]
pub enum InitStep {
    /// Store the animation frame member in `pFrameMember`.
    SetFrameMember,
    /// Clear this sprite channel (`cleared_sprite_settings`).
    ClearSprite(i32),
    /// Give this sprite channel the frame member (`actor_sprite_settings`);
    /// it fails when the channel does not exist.
    AssignSprite(i32),
    /// Add the actor to `pObjButtonList` under this sprite channel.
    RegisterButton(i32),
    /// Add the actor to `pObjMouseOverList` under this sprite channel.
    RegisterMouseOver(i32),
}

/// The steps after the properties: with a frame member, store it, clear the
/// base sprite channel and assign the visible one; without, nothing.
pub fn init_sprite_steps(sprite_pos: i32, has_frame_member: bool) -> (r: Vec<InitStep>)
    requires
        has_frame_member ==> sprite_pos < i32::MAX,
    ensures
        !has_frame_member ==> r@ == Seq::<InitStep>::empty(),
        has_frame_member ==> r@ == seq![
            InitStep::SetFrameMember,
            InitStep::ClearSprite(sprite_pos),
            InitStep::AssignSprite((sprite_pos + 1) as i32),
        ],
{
    if !has_frame_member {
        return Vec::new();
    }
    let visible = actor_visible_sprite_pos(sprite_pos);
    let r = vec![
        InitStep::SetFrameMember,
        InitStep::ClearSprite(sprite_pos),
        InitStep::AssignSprite(visible),
    ];
    r
}

/// The steps after assigning sprite channel `visible_pos`: register the
/// actor in the button and mouse-over lists only if the assignment worked.
pub fn init_register_steps(visible_pos: i32, assigned: bool) -> (r: Vec<InitStep>)
    ensures
        !assigned ==> r@ == Seq::<InitStep>::empty(),
        assigned ==> r@ == seq![
            InitStep::RegisterButton(visible_pos),
            InitStep::RegisterMouseOver(visible_pos),
        ],
{
    if !assigned {
        return Vec::new();
    }
    vec![InitStep::RegisterButton(visible_pos), InitStep::RegisterMouseOver(visible_pos)]
}

} // verus!
