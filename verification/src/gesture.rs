//! `GestureCommand`: 3D animation, physics and expressive character control.
//! Float fields are held as their IEEE-754 bit patterns, which is what the
//! wire carries for them.

use vstd::prelude::*;
use crate::wire;
use crate::wire::{
    encode_fields, fold_fields, int32_from_wire, int32_of, opt_bool, opt_float, opt_int32,
    opt_string, utf8_payload, value_in_bounds, Fault, FieldValue, MessageKind, WireError,
    WireValue,
};

verus! {

/// Core action type.
#[derive(Clone, Copy, Debug, PartialEq, Eq, Hash, PartialOrd, Ord, Structural)]
pub enum ActionType {
    Idle,
    Jump,
    Wave,
    Run,
    Attack,
    Walk,
    Crouch,
    Roll,
    Emote,
    Interact,
}

/// Animation blending mode.
#[derive(Clone, Copy, Debug, PartialEq, Eq, Hash, PartialOrd, Ord, Structural)]
pub enum BlendMode {
    Override,
    Additive,
    Layer,
}

/// Easing curve for the animation.
#[derive(Clone, Copy, Debug, PartialEq, Eq, Hash, PartialOrd, Ord, Structural)]
pub enum Easing {
    Linear,
    EaseIn,
    EaseOut,
    EaseInOut,
    Spring,
    Bounce,
}

/// Emotional context for facial and body expression layering.
#[derive(Clone, Copy, Debug, PartialEq, Eq, Hash, PartialOrd, Ord, Structural)]
pub enum EmotionTag {
    Neutral,
    Aggressive,
    Fearful,
    Joyful,
    Exhausted,
    Determined,
    Surprised,
}

/// Directional vector in 3D world space (bit patterns of `f32` components).
#[derive(Clone, Copy, Debug, PartialEq, Eq, Structural)]
pub struct Vector3 {
    pub x: u32,
    pub y: u32,
    pub z: u32,
}

/// A gesture command packet.
#[derive(Clone, Debug)]
pub struct GestureCommand {
    /// Core action type (an [`ActionType`] number).
    pub action: i32,
    /// Normalised intensity of the action, as `f32` bits.
    pub intensity: u32,
    /// Duration of the action in milliseconds.
    pub duration_ms: i32,
    /// Directional vector in 3D world space.
    pub direction: Option<Vector3>,
    /// Set on packets that passed validation.
    pub compiler_verified: bool,
    /// Playback speed multiplier, as `f32` bits.
    pub speed_multiplier: u32,
    /// Number of times to loop the action (0 = infinite, 1 = once).
    pub loop_count: i32,
    /// Animation blending mode (a [`BlendMode`] number).
    pub blend_mode: i32,
    /// Priority in the animation queue (higher overrides lower).
    pub priority: i32,
    /// Easing curve (an [`Easing`] number).
    pub easing: i32,
    /// Skeleton bone or bone group the action is constrained to, or empty.
    pub target_bone: String,
    /// Emotional context (an [`EmotionTag`] number).
    pub emotion_tag: i32,
}

/// The value of a [`GestureCommand`], with its string as characters.
pub struct GestureCommandView {
    pub action: i32,
    pub intensity: u32,
    pub duration_ms: i32,
    pub direction: Option<Vector3>,
    pub compiler_verified: bool,
    pub speed_multiplier: u32,
    pub loop_count: i32,
    pub blend_mode: i32,
    pub priority: i32,
    pub easing: i32,
    pub target_bone: Seq<char>,
    pub emotion_tag: i32,
}

impl View for GestureCommand {
    type V = GestureCommandView;

    open spec fn view(&self) -> GestureCommandView {
        GestureCommandView {
            action: self.action,
            intensity: self.intensity,
            duration_ms: self.duration_ms,
            direction: self.direction,
            compiler_verified: self.compiler_verified,
            speed_multiplier: self.speed_multiplier,
            loop_count: self.loop_count,
            blend_mode: self.blend_mode,
            priority: self.priority,
            easing: self.easing,
            target_bone: self.target_bone@,
            emotion_tag: self.emotion_tag,
        }
    }
}

impl ActionType {
    /// The number this variant carries on the wire.
    pub open spec fn spec_value(self) -> i32 {
        match self {
            ActionType::Idle => 0,
            ActionType::Jump => 1,
            ActionType::Wave => 2,
            ActionType::Run => 3,
            ActionType::Attack => 4,
            ActionType::Walk => 5,
            ActionType::Crouch => 6,
            ActionType::Roll => 7,
            ActionType::Emote => 8,
            ActionType::Interact => 9,
        }
    }

    /// The number this variant carries on the wire.
    pub fn value(self) -> (r: i32)
        ensures
            r == self.spec_value(),
    {
        match self {
            ActionType::Idle => 0,
            ActionType::Jump => 1,
            ActionType::Wave => 2,
            ActionType::Run => 3,
            ActionType::Attack => 4,
            ActionType::Walk => 5,
            ActionType::Crouch => 6,
            ActionType::Roll => 7,
            ActionType::Emote => 8,
            ActionType::Interact => 9,
        }
    }
}

impl BlendMode {
    /// The number this variant carries on the wire.
    pub open spec fn spec_value(self) -> i32 {
        match self {
            BlendMode::Override => 0,
            BlendMode::Additive => 1,
            BlendMode::Layer => 2,
        }
    }

    /// The number this variant carries on the wire.
    pub fn value(self) -> (r: i32)
        ensures
            r == self.spec_value(),
    {
        match self {
            BlendMode::Override => 0,
            BlendMode::Additive => 1,
            BlendMode::Layer => 2,
        }
    }
}

impl Easing {
    /// The number this variant carries on the wire.
    pub open spec fn spec_value(self) -> i32 {
        match self {
            Easing::Linear => 0,
            Easing::EaseIn => 1,
            Easing::EaseOut => 2,
            Easing::EaseInOut => 3,
            Easing::Spring => 4,
            Easing::Bounce => 5,
        }
    }

    /// The number this variant carries on the wire.
    pub fn value(self) -> (r: i32)
        ensures
            r == self.spec_value(),
    {
        match self {
            Easing::Linear => 0,
            Easing::EaseIn => 1,
            Easing::EaseOut => 2,
            Easing::EaseInOut => 3,
            Easing::Spring => 4,
            Easing::Bounce => 5,
        }
    }
}

impl EmotionTag {
    /// The number this variant carries on the wire.
    pub open spec fn spec_value(self) -> i32 {
        match self {
            EmotionTag::Neutral => 0,
            EmotionTag::Aggressive => 1,
            EmotionTag::Fearful => 2,
            EmotionTag::Joyful => 3,
            EmotionTag::Exhausted => 4,
            EmotionTag::Determined => 5,
            EmotionTag::Surprised => 6,
        }
    }

    /// The number this variant carries on the wire.
    pub fn value(self) -> (r: i32)
        ensures
            r == self.spec_value(),
    {
        match self {
            EmotionTag::Neutral => 0,
            EmotionTag::Aggressive => 1,
            EmotionTag::Fearful => 2,
            EmotionTag::Joyful => 3,
            EmotionTag::Exhausted => 4,
            EmotionTag::Determined => 5,
            EmotionTag::Surprised => 6,
        }
    }
}

/// The all-zero vector.
pub open spec fn vector3_default() -> Vector3 {
    Vector3 { x: 0, y: 0, z: 0 }
}

/// A gesture command with every field at its default.
pub open spec fn gesture_default() -> GestureCommandView {
    GestureCommandView {
        action: 0,
        intensity: 0,
        duration_ms: 0,
        direction: None,
        compiler_verified: false,
        speed_multiplier: 0,
        loop_count: 0,
        blend_mode: 0,
        priority: 0,
        easing: 0,
        target_bone: seq![],
        emotion_tag: 0,
    }
}

impl Default for Vector3 {
    fn default() -> (r: Self)
        ensures
            r == vector3_default(),
    {
        Vector3 { x: 0, y: 0, z: 0 }
    }
}

impl Default for GestureCommand {
    fn default() -> (r: Self)
        ensures
            r@ == gesture_default(),
    {
        GestureCommand {
            action: 0,
            intensity: 0,
            duration_ms: 0,
            direction: None,
            compiler_verified: false,
            speed_multiplier: 0,
            loop_count: 0,
            blend_mode: 0,
            priority: 0,
            easing: 0,
            target_bone: String::new(),
            emotion_tag: 0,
        }
    }
}

/// The fields a [`Vector3`] is written as, in field-number order.
pub open spec fn vector3_fields(v: Vector3) -> Seq<(u32, FieldValue)> {
    opt_float(1, v.x) + opt_float(2, v.y) + opt_float(3, v.z)
}

/// The encoded bytes of a [`Vector3`].
pub open spec fn vector3_bytes(v: Vector3) -> Seq<u8> {
    encode_fields(vector3_fields(v))
}

/// The fields a gesture command is written as, in field-number order.
pub open spec fn gesture_fields(g: GestureCommandView) -> Seq<(u32, FieldValue)> {
    opt_int32(1, g.action) + opt_float(2, g.intensity) + opt_int32(3, g.duration_ms) + (match g.direction {
        Some(d) => seq![(4u32, FieldValue::Bytes(vector3_bytes(d)))],
        None => seq![],
    }) + opt_bool(5, g.compiler_verified) + opt_float(6, g.speed_multiplier) + opt_int32(
        7,
        g.loop_count,
    ) + opt_int32(8, g.blend_mode) + opt_int32(9, g.priority) + opt_int32(10, g.easing)
        + opt_string(11, g.target_bone) + opt_int32(12, g.emotion_tag)
}

/// The encoded bytes of a gesture command.
pub open spec fn gesture_bytes(g: GestureCommandView) -> Seq<u8> {
    encode_fields(gesture_fields(g))
}

/// Encodes a [`Vector3`].
pub fn encode_vector3(v: &Vector3) -> (out: Vec<u8>)
    ensures
        out@ == vector3_bytes(*v),
{
    let mut buf: Vec<u8> = Vec::new();
    let ghost acc: Seq<(u32, FieldValue)> = seq![];
    assert(buf@ =~= encode_fields(acc));
    wire::put_opt_float(1, v.x, &mut buf);
    proof {
        wire::lemma_encode_fields_concat(acc, opt_float(1, v.x));
        acc = acc + opt_float(1, v.x);
    }
    wire::put_opt_float(2, v.y, &mut buf);
    proof {
        wire::lemma_encode_fields_concat(acc, opt_float(2, v.y));
        acc = acc + opt_float(2, v.y);
    }
    wire::put_opt_float(3, v.z, &mut buf);
    proof {
        wire::lemma_encode_fields_concat(acc, opt_float(3, v.z));
        acc = acc + opt_float(3, v.z);
        assert(acc =~= vector3_fields(*v));
    }
    buf
}

} // verus!

verus! {

/// Encodes a gesture command as `prost` would: fields in number order,
/// each left out when it holds its default.
pub fn encode_gesture(g: &GestureCommand) -> (out: Vec<u8>)
    ensures
        out@ == gesture_bytes(g@),
{
    let mut buf: Vec<u8> = Vec::new();
    let ghost acc: Seq<(u32, FieldValue)> = seq![];
    assert(buf@ =~= encode_fields(acc));
    wire::put_opt_int32(1, g.action, &mut buf);
    proof {
        wire::lemma_encode_fields_concat(acc, opt_int32(1, g.action));
        acc = acc + opt_int32(1, g.action);
    }
    wire::put_opt_float(2, g.intensity, &mut buf);
    proof {
        wire::lemma_encode_fields_concat(acc, opt_float(2, g.intensity));
        acc = acc + opt_float(2, g.intensity);
    }
    wire::put_opt_int32(3, g.duration_ms, &mut buf);
    proof {
        wire::lemma_encode_fields_concat(acc, opt_int32(3, g.duration_ms));
        acc = acc + opt_int32(3, g.duration_ms);
    }
    let ghost dir_fields: Seq<(u32, FieldValue)> = match g.direction {
        Some(d) => seq![(4u32, FieldValue::Bytes(vector3_bytes(d)))],
        None => seq![],
    };
    match &g.direction {
        Some(d) => {
            let body = encode_vector3(d);
            wire::put_message(4, &body, &mut buf);
        },
        None => {
            assert(buf@ =~= buf@ + encode_fields(dir_fields));
        },
    }
    proof {
        wire::lemma_encode_fields_concat(acc, dir_fields);
        acc = acc + dir_fields;
    }
    wire::put_opt_bool(5, g.compiler_verified, &mut buf);
    proof {
        wire::lemma_encode_fields_concat(acc, opt_bool(5, g.compiler_verified));
        acc = acc + opt_bool(5, g.compiler_verified);
    }
    wire::put_opt_float(6, g.speed_multiplier, &mut buf);
    proof {
        wire::lemma_encode_fields_concat(acc, opt_float(6, g.speed_multiplier));
        acc = acc + opt_float(6, g.speed_multiplier);
    }
    wire::put_opt_int32(7, g.loop_count, &mut buf);
    proof {
        wire::lemma_encode_fields_concat(acc, opt_int32(7, g.loop_count));
        acc = acc + opt_int32(7, g.loop_count);
    }
    wire::put_opt_int32(8, g.blend_mode, &mut buf);
    proof {
        wire::lemma_encode_fields_concat(acc, opt_int32(8, g.blend_mode));
        acc = acc + opt_int32(8, g.blend_mode);
    }
    wire::put_opt_int32(9, g.priority, &mut buf);
    proof {
        wire::lemma_encode_fields_concat(acc, opt_int32(9, g.priority));
        acc = acc + opt_int32(9, g.priority);
    }
    wire::put_opt_int32(10, g.easing, &mut buf);
    proof {
        wire::lemma_encode_fields_concat(acc, opt_int32(10, g.easing));
        acc = acc + opt_int32(10, g.easing);
    }
    wire::put_opt_string(11, &g.target_bone, &mut buf);
    proof {
        wire::lemma_encode_fields_concat(acc, opt_string(11, g.target_bone@));
        acc = acc + opt_string(11, g.target_bone@);
    }
    wire::put_opt_int32(12, g.emotion_tag, &mut buf);
    proof {
        wire::lemma_encode_fields_concat(acc, opt_int32(12, g.emotion_tag));
        acc = acc + opt_int32(12, g.emotion_tag);
        assert(acc =~= gesture_fields(g@));
    }
    buf
}

/// The effect of one decoded field on a vector.
pub open spec fn vector3_apply(m: Vector3, t: u32, v: FieldValue) -> Result<Vector3, WireError> {
    match v {
        FieldValue::Fixed32(x) => if t == 1 {
            Ok(Vector3 { x: x, ..m })
        } else if t == 2 {
            Ok(Vector3 { y: x, ..m })
        } else if t == 3 {
            Ok(Vector3 { z: x, ..m })
        } else {
            Ok(m)
        },
        _ => Ok(m),
    }
}

/// [`vector3_apply`] as a value.
pub open spec fn vector3_applier() -> spec_fn(Vector3, u32, FieldValue) -> Result<Vector3, WireError> {
    |m: Vector3, t: u32, v: FieldValue| vector3_apply(m, t, v)
}

/// Decoding `s` into a vector that already holds `m` (later fields win).
pub open spec fn vector3_merge(s: Seq<u8>, m: Vector3) -> Result<Vector3, WireError> {
    wire::stream_decode(MessageKind::Vector3, m, s, vector3_applier_in())
}

/// [`vector3_apply`] as a value that also takes the bytes after the field,
/// which it does not look at.
pub open spec fn vector3_applier_in() -> spec_fn(Vector3, u32, FieldValue, Seq<u8>) -> Result<Vector3, WireError> {
    |m: Vector3, t: u32, v: FieldValue, tail: Seq<u8>| vector3_apply(m, t, v)
}

/// The effect of one decoded field on a gesture command.
pub open spec fn gesture_apply(m: GestureCommandView, t: u32, v: FieldValue) -> Result<GestureCommandView, WireError> {
    match v {
        FieldValue::Varint(x) => if t == 1 {
            Ok(GestureCommandView { action: int32_of(x), ..m })
        } else if t == 3 {
            Ok(GestureCommandView { duration_ms: int32_of(x), ..m })
        } else if t == 5 {
            Ok(GestureCommandView { compiler_verified: x != 0, ..m })
        } else if t == 7 {
            Ok(GestureCommandView { loop_count: int32_of(x), ..m })
        } else if t == 8 {
            Ok(GestureCommandView { blend_mode: int32_of(x), ..m })
        } else if t == 9 {
            Ok(GestureCommandView { priority: int32_of(x), ..m })
        } else if t == 10 {
            Ok(GestureCommandView { easing: int32_of(x), ..m })
        } else if t == 12 {
            Ok(GestureCommandView { emotion_tag: int32_of(x), ..m })
        } else {
            Ok(m)
        },
        FieldValue::Fixed32(x) => if t == 2 {
            Ok(GestureCommandView { intensity: x, ..m })
        } else if t == 6 {
            Ok(GestureCommandView { speed_multiplier: x, ..m })
        } else {
            Ok(m)
        },
        FieldValue::Bytes(b) => if t == 4 {
            let start = match m.direction {
                Some(d) => d,
                None => vector3_default(),
            };
            match vector3_merge(b, start) {
                Ok(d) => Ok(GestureCommandView { direction: Some(d), ..m }),
                Err(e) => Err(e),
            }
        } else if t == 11 {
            match utf8_payload(b) {
                Ok(cs) => Ok(GestureCommandView { target_bone: cs, ..m }),
                Err(e) => Err(e),
            }
        } else {
            Ok(m)
        },
        FieldValue::Skipped => Ok(m),
    }
}

/// [`gesture_apply`] as a value.
pub open spec fn gesture_applier() -> spec_fn(GestureCommandView, u32, FieldValue) -> Result<GestureCommandView, WireError> {
    |m: GestureCommandView, t: u32, v: FieldValue| gesture_apply(m, t, v)
}

/// What decoding `s` as a gesture command gives.
pub open spec fn gesture_decode(s: Seq<u8>) -> Result<GestureCommandView, WireError> {
    wire::stream_decode(MessageKind::GestureCommand, gesture_default(), s, gesture_applier_in())
}

/// The effect of one decoded field on a gesture command when `tail`
/// follows it: as [`gesture_apply`], but the embedded direction is read in
/// place, where it may run into `tail`.
pub open spec fn gesture_apply_in(m: GestureCommandView, t: u32, v: FieldValue, tail: Seq<u8>) -> Result<GestureCommandView, WireError> {
    match v {
        FieldValue::Bytes(b) => if t == 4 {
            let start = match m.direction {
                Some(d) => d,
                None => vector3_default(),
            };
            match wire::stream_limited(MessageKind::Vector3, start, b + tail, b.len() as int, vector3_applier_in()) {
                Ok(d) => Ok(GestureCommandView { direction: Some(d), ..m }),
                Err(e) => Err(e),
            }
        } else {
            gesture_apply(m, t, v)
        },
        _ => gesture_apply(m, t, v),
    }
}

/// [`gesture_apply_in`] as a value.
pub open spec fn gesture_applier_in() -> spec_fn(GestureCommandView, u32, FieldValue, Seq<u8>) -> Result<GestureCommandView, WireError> {
    |m: GestureCommandView, t: u32, v: FieldValue, tail: Seq<u8>| gesture_apply_in(m, t, v, tail)
}

/// A field that applies on its own bytes applies the same in place.
pub proof fn lemma_gesture_apply_in(m: GestureCommandView, t: u32, v: FieldValue, tail: Seq<u8>)
    ensures
        gesture_apply(m, t, v) is Ok ==> gesture_apply_in(m, t, v, tail) == gesture_apply(m, t, v),
{
    if let FieldValue::Bytes(b) = v {
        if t == 4 && gesture_apply(m, t, v) is Ok {
            let start = match m.direction {
                Some(d) => d,
                None => vector3_default(),
            };
            wire::lemma_limited_prefix(MessageKind::Vector3, start, b, tail, vector3_applier_in());
        }
    }
}

/// Decodes `s` into a vector that already holds `m`.
pub fn merge_vector3(s: &[u8], m: Vector3) -> (r: Result<Vector3, WireError>)
    ensures
        match vector3_merge(s@, m) {
            Ok(v) => r == Ok::<Vector3, WireError>(v),
            Err(e) => r == Err::<Vector3, WireError>(e),
        },
{
    let mut cur = m;
    let mut pos: usize = 0;
    assert(s@.skip(0) =~= s@);
    while pos < s.len()
        invariant
            pos <= s@.len(),
            vector3_merge(s@, m) == wire::stream_decode(MessageKind::Vector3, cur, s@.skip(pos as int), vector3_applier_in()),
        decreases s@.len() - pos,
    {
        let ghost rest = s@.skip(pos as int);
        proof {
            wire::lemma_read_field_bounds(MessageKind::Vector3, rest);
        }
        match wire::read_field(MessageKind::Vector3, s, pos) {
            Err(e) => return Err(e),
            Ok((t, w, p)) => {
                assert(rest.skip((p - pos) as int) =~= s@.skip(p as int));
                match w {
                    WireValue::Fixed32(x) => {
                        if t == 1 {
                            cur.x = x;
                        } else if t == 2 {
                            cur.y = x;
                        } else if t == 3 {
                            cur.z = x;
                        }
                    },
                    _ => {},
                }
                pos = p;
            },
        }
    }
    Ok(cur)
}

/// Decodes a [`Vector3`].
pub fn decode_vector3(s: &[u8]) -> (r: Result<Vector3, WireError>)
    ensures
        match vector3_merge(s@, vector3_default()) {
            Ok(v) => r == Ok::<Vector3, WireError>(v),
            Err(e) => r == Err::<Vector3, WireError>(e),
        },
{
    merge_vector3(s, Vector3::default())
}

/// Merges the embedded vector at `a..b` of `s` into `m` in place: fields
/// are read from `s` while they start before `b`, and the last must end
/// at `b`.
fn merge_vector3_in(s: &[u8], a: usize, b: usize, m: Vector3) -> (r: Result<Vector3, WireError>)
    requires
        a <= b <= s@.len(),
    ensures
        match wire::stream_limited(MessageKind::Vector3, m, s@.skip(a as int), (b - a) as int, vector3_applier_in()) {
            Ok(v) => r == Ok::<Vector3, WireError>(v),
            Err(e) => r == Err::<Vector3, WireError>(e),
        },
{
    let mut cur = m;
    let mut pos: usize = a;
    while pos < b
        invariant
            a <= pos <= s@.len(),
            b <= s@.len(),
            wire::stream_limited(MessageKind::Vector3, m, s@.skip(a as int), (b - a) as int, vector3_applier_in())
                == wire::stream_limited(MessageKind::Vector3, cur, s@.skip(pos as int), b - pos, vector3_applier_in()),
        decreases s@.len() - pos,
    {
        let ghost rest = s@.skip(pos as int);
        proof {
            wire::lemma_read_field_bounds(MessageKind::Vector3, rest);
        }
        match wire::read_field(MessageKind::Vector3, s, pos) {
            Err(e) => return Err(e),
            Ok((t, w, p)) => {
                assert(rest.skip((p - pos) as int) =~= s@.skip(p as int));
                match w {
                    WireValue::Fixed32(x) => {
                        if t == 1 {
                            cur.x = x;
                        } else if t == 2 {
                            cur.y = x;
                        } else if t == 3 {
                            cur.z = x;
                        }
                    },
                    _ => {},
                }
                pos = p;
            },
        }
    }
    if pos != b {
        return Err(WireError::of(Fault::DelimitedLengthExceeded));
    }
    Ok(cur)
}

/// Applies one decoded field of `s` to `m`.
fn apply_gesture_field(m: &mut GestureCommand, t: u32, w: WireValue, s: &[u8], p: usize) -> (r: Result<(), WireError>)
    requires
        value_in_bounds(s@.len(), w),
        p <= s@.len(),
        w matches WireValue::Bytes(a, b) ==> b == p,
    ensures
        match gesture_apply_in(old(m)@, t, wire::value_view(s@, w), s@.skip(p as int)) {
            Ok(g) => r is Ok && final(m)@ == g,
            Err(e) => r == Err::<(), WireError>(e),
        },
{
    match w {
        WireValue::Varint(x) => {
            if t == 1 {
                m.action = int32_from_wire(x);
            } else if t == 3 {
                m.duration_ms = int32_from_wire(x);
            } else if t == 5 {
                m.compiler_verified = x != 0;
            } else if t == 7 {
                m.loop_count = int32_from_wire(x);
            } else if t == 8 {
                m.blend_mode = int32_from_wire(x);
            } else if t == 9 {
                m.priority = int32_from_wire(x);
            } else if t == 10 {
                m.easing = int32_from_wire(x);
            } else if t == 12 {
                m.emotion_tag = int32_from_wire(x);
            }
            Ok(())
        },
        WireValue::Fixed32(x) => {
            if t == 2 {
                m.intensity = x;
            } else if t == 6 {
                m.speed_multiplier = x;
            }
            Ok(())
        },
        WireValue::Bytes(a, b) => {
            if t == 4 {
                let start = match m.direction {
                    Some(d) => d,
                    None => Vector3::default(),
                };
                assert(s@.skip(a as int) =~= s@.subrange(a as int, b as int) + s@.skip(b as int));
                match merge_vector3_in(s, a, b, start) {
                    Ok(d) => {
                        m.direction = Some(d);
                        Ok(())
                    },
                    Err(e) => Err(e),
                }
            } else if t == 11 {
                match wire::read_string(s, a, b) {
                    Ok(st) => {
                        m.target_bone = st;
                        Ok(())
                    },
                    Err(e) => Err(e),
                }
            } else {
                Ok(())
            }
        },
        WireValue::Skipped => Ok(()),
    }
}

/// Decodes a gesture command as `prost` would: unknown fields are skipped,
/// later occurrences of a field win, an embedded vector is merged into the
/// one already read.
/// Fields are read and applied one by one, embedded messages in place, so
/// the error is the first `prost` meets, with the fields it passed through.
pub fn decode_gesture(s: &[u8]) -> (r: Result<GestureCommand, WireError>)
    ensures
        match gesture_decode(s@) {
            Ok(g) => r matches Ok(x) && x@ == g,
            Err(e) => r matches Err(e2) && e2 == e,
        },
{
    let mut cur = GestureCommand::default();
    let mut pos: usize = 0;
    assert(s@.skip(0) =~= s@);
    while pos < s.len()
        invariant
            pos <= s@.len(),
            gesture_decode(s@) == wire::stream_decode(MessageKind::GestureCommand, cur@, s@.skip(pos as int), gesture_applier_in()),
        decreases s@.len() - pos,
    {
        let ghost rest = s@.skip(pos as int);
        proof {
            wire::lemma_read_field_bounds(MessageKind::GestureCommand, rest);
        }
        match wire::read_field(MessageKind::GestureCommand, s, pos) {
            Err(e) => return Err(e),
            Ok((t, w, p)) => {
                assert(rest.skip((p - pos) as int) =~= s@.skip(p as int));
                match apply_gesture_field(&mut cur, t, w, s, p) {
                    Ok(()) => {},
                    Err(e) => return Err(e.push(MessageKind::GestureCommand, t)),
                }
                pos = p;
            },
        }
    }
    Ok(cur)
}

} // verus!

verus! {

/// A vector whose components survive encoding: none is negative zero,
/// which the encoder leaves out as it does positive zero.
pub open spec fn vector3_keeps(v: Vector3) -> bool {
    v.x != 0x8000_0000 && v.y != 0x8000_0000 && v.z != 0x8000_0000
}

/// A gesture command that survives encoding: no float field is negative
/// zero, and the bone name fits in a 64-bit length.
pub open spec fn gesture_keeps(g: GestureCommandView) -> bool {
    &&& g.intensity != 0x8000_0000
    &&& g.speed_multiplier != 0x8000_0000
    &&& (g.direction matches Some(d) ==> vector3_keeps(d))
    &&& vstd::utf8::encode_utf8(g.target_bone).len() < 0x1_0000_0000_0000_0000
}

/// Decoding an encoded vector gives it back.
pub proof fn lemma_vector3_roundtrip(v: Vector3)
    requires
        vector3_keeps(v),
    ensures
        vector3_merge(vector3_bytes(v), vector3_default()) == Ok::<Vector3, WireError>(v),
        vector3_bytes(v).len() <= 15,
{
    let k = MessageKind::Vector3;
    let a = opt_float(1, v.x);
    let b = opt_float(2, v.y);
    let c = opt_float(3, v.z);
    wire::lemma_opt_float_ok(k, 1, v.x);
    wire::lemma_opt_float_ok(k, 2, v.y);
    wire::lemma_opt_float_ok(k, 3, v.z);
    wire::lemma_fields_ok_concat(k, a, b);
    wire::lemma_fields_ok_concat(k, a + b, c);
    wire::lemma_parse_encode_fields(k, vector3_fields(v));
    let ap = vector3_applier();
    let m0 = vector3_default();
    let m1 = Vector3 { x: v.x, ..m0 };
    let m2 = Vector3 { y: v.y, ..m1 };
    wire::lemma_fold_opt_float(m0, 1, v.x, ap);
    wire::lemma_fold_opt_float(m1, 2, v.y, ap);
    wire::lemma_fold_opt_float(m2, 3, v.z, ap);
    wire::lemma_fold_concat(m0, a, b, ap);
    wire::lemma_fold_concat(m0, a + b, c, ap);
    wire::lemma_encode_fields_concat(a, b);
    wire::lemma_encode_fields_concat(a + b, c);
    wire::lemma_opt_float_len(1, v.x);
    wire::lemma_opt_float_len(2, v.y);
    wire::lemma_opt_float_len(3, v.z);
    wire::lemma_stream_is_fold(MessageKind::Vector3, vector3_default(), vector3_bytes(v), vector3_applier_in(), vector3_applier());
}

} // verus!

verus! {

/// The piece of [`gesture_fields`] for the direction.
pub open spec fn direction_piece(d: Option<Vector3>) -> Seq<(u32, FieldValue)> {
    match d {
        Some(v) => seq![(4u32, FieldValue::Bytes(vector3_bytes(v)))],
        None => seq![],
    }
}

/// The gesture fields are all ones the field table accepts.
proof fn lemma_gesture_fields_ok(g: GestureCommandView)
    requires
        gesture_keeps(g),
    ensures
        wire::fields_ok(MessageKind::GestureCommand, gesture_fields(g)),
{
    let k = MessageKind::GestureCommand;
    let p1 = opt_int32(1, g.action);
    let p2 = opt_float(2, g.intensity);
    let p3 = opt_int32(3, g.duration_ms);
    let p4 = direction_piece(g.direction);
    let p5 = opt_bool(5, g.compiler_verified);
    let p6 = opt_float(6, g.speed_multiplier);
    let p7 = opt_int32(7, g.loop_count);
    let p8 = opt_int32(8, g.blend_mode);
    let p9 = opt_int32(9, g.priority);
    let p10 = opt_int32(10, g.easing);
    let p11 = opt_string(11, g.target_bone);
    let p12 = opt_int32(12, g.emotion_tag);
    wire::lemma_opt_int32_ok(k, 1, g.action);
    wire::lemma_opt_float_ok(k, 2, g.intensity);
    wire::lemma_opt_int32_ok(k, 3, g.duration_ms);
    if let Some(d) = g.direction {
        lemma_vector3_roundtrip(d);
        wire::lemma_single_ok(k, 4, FieldValue::Bytes(vector3_bytes(d)));
    }
    wire::lemma_opt_bool_ok(k, 5, g.compiler_verified);
    wire::lemma_opt_float_ok(k, 6, g.speed_multiplier);
    wire::lemma_opt_int32_ok(k, 7, g.loop_count);
    wire::lemma_opt_int32_ok(k, 8, g.blend_mode);
    wire::lemma_opt_int32_ok(k, 9, g.priority);
    wire::lemma_opt_int32_ok(k, 10, g.easing);
    wire::lemma_opt_string_ok(k, 11, g.target_bone);
    wire::lemma_opt_int32_ok(k, 12, g.emotion_tag);
    wire::lemma_fields_ok_concat(k, p1, p2);
    wire::lemma_fields_ok_concat(k, p1 + p2, p3);
    wire::lemma_fields_ok_concat(k, p1 + p2 + p3, p4);
    wire::lemma_fields_ok_concat(k, p1 + p2 + p3 + p4, p5);
    wire::lemma_fields_ok_concat(k, p1 + p2 + p3 + p4 + p5, p6);
    wire::lemma_fields_ok_concat(k, p1 + p2 + p3 + p4 + p5 + p6, p7);
    wire::lemma_fields_ok_concat(k, p1 + p2 + p3 + p4 + p5 + p6 + p7, p8);
    wire::lemma_fields_ok_concat(k, p1 + p2 + p3 + p4 + p5 + p6 + p7 + p8, p9);
    wire::lemma_fields_ok_concat(k, p1 + p2 + p3 + p4 + p5 + p6 + p7 + p8 + p9, p10);
    wire::lemma_fields_ok_concat(k, p1 + p2 + p3 + p4 + p5 + p6 + p7 + p8 + p9 + p10, p11);
    wire::lemma_fields_ok_concat(k, p1 + p2 + p3 + p4 + p5 + p6 + p7 + p8 + p9 + p10 + p11, p12);
}

/// Folding the gesture fields over the default command rebuilds the command.
#[verifier::rlimit(50)]
proof fn lemma_gesture_fold(g: GestureCommandView)
    requires
        gesture_keeps(g),
    ensures
        fold_fields(gesture_default(), gesture_fields(g), gesture_applier()) == Ok::<GestureCommandView, WireError>(g),
{
    let p1 = opt_int32(1, g.action);
    let p2 = opt_float(2, g.intensity);
    let p3 = opt_int32(3, g.duration_ms);
    let p4 = direction_piece(g.direction);
    let p5 = opt_bool(5, g.compiler_verified);
    let p6 = opt_float(6, g.speed_multiplier);
    let p7 = opt_int32(7, g.loop_count);
    let p8 = opt_int32(8, g.blend_mode);
    let p9 = opt_int32(9, g.priority);
    let p10 = opt_int32(10, g.easing);
    let p11 = opt_string(11, g.target_bone);
    let p12 = opt_int32(12, g.emotion_tag);
    let ap = gesture_applier();
    let m0 = gesture_default();
    let m1 = GestureCommandView { action: g.action, ..m0 };
    let m2 = GestureCommandView { intensity: g.intensity, ..m1 };
    let m3 = GestureCommandView { duration_ms: g.duration_ms, ..m2 };
    let m4 = GestureCommandView { direction: g.direction, ..m3 };
    let m5 = GestureCommandView { compiler_verified: g.compiler_verified, ..m4 };
    let m6 = GestureCommandView { speed_multiplier: g.speed_multiplier, ..m5 };
    let m7 = GestureCommandView { loop_count: g.loop_count, ..m6 };
    let m8 = GestureCommandView { blend_mode: g.blend_mode, ..m7 };
    let m9 = GestureCommandView { priority: g.priority, ..m8 };
    let m10 = GestureCommandView { easing: g.easing, ..m9 };
    let m11 = GestureCommandView { target_bone: g.target_bone, ..m10 };
    let m12 = GestureCommandView { emotion_tag: g.emotion_tag, ..m11 };
    assert(fold_fields(m0, p1, ap) == Ok::<GestureCommandView, WireError>(m1)) by {
        wire::lemma_int32_roundtrip(g.action);
        wire::lemma_fold_opt_int32(m0, 1, g.action, ap);
    }
    assert(fold_fields(m1, p2, ap) == Ok::<GestureCommandView, WireError>(m2)) by {
        wire::lemma_fold_opt_float(m1, 2, g.intensity, ap);
    }
    assert(fold_fields(m2, p3, ap) == Ok::<GestureCommandView, WireError>(m3)) by {
        wire::lemma_int32_roundtrip(g.duration_ms);
        wire::lemma_fold_opt_int32(m2, 3, g.duration_ms, ap);
    }
    assert(fold_fields(m3, p4, ap) == Ok::<GestureCommandView, WireError>(m4)) by {
        if let Some(d) = g.direction {
            lemma_vector3_roundtrip(d);
            wire::lemma_fold_single(m3, 4, FieldValue::Bytes(vector3_bytes(d)), ap);
        }
    }
    assert(fold_fields(m4, p5, ap) == Ok::<GestureCommandView, WireError>(m5)) by {
        wire::lemma_fold_opt_bool(m4, 5, g.compiler_verified, ap);
    }
    assert(fold_fields(m5, p6, ap) == Ok::<GestureCommandView, WireError>(m6)) by {
        wire::lemma_fold_opt_float(m5, 6, g.speed_multiplier, ap);
    }
    assert(fold_fields(m6, p7, ap) == Ok::<GestureCommandView, WireError>(m7)) by {
        wire::lemma_int32_roundtrip(g.loop_count);
        wire::lemma_fold_opt_int32(m6, 7, g.loop_count, ap);
    }
    assert(fold_fields(m7, p8, ap) == Ok::<GestureCommandView, WireError>(m8)) by {
        wire::lemma_int32_roundtrip(g.blend_mode);
        wire::lemma_fold_opt_int32(m7, 8, g.blend_mode, ap);
    }
    assert(fold_fields(m8, p9, ap) == Ok::<GestureCommandView, WireError>(m9)) by {
        wire::lemma_int32_roundtrip(g.priority);
        wire::lemma_fold_opt_int32(m8, 9, g.priority, ap);
    }
    assert(fold_fields(m9, p10, ap) == Ok::<GestureCommandView, WireError>(m10)) by {
        wire::lemma_int32_roundtrip(g.easing);
        wire::lemma_fold_opt_int32(m9, 10, g.easing, ap);
    }
    assert(fold_fields(m10, p11, ap) == Ok::<GestureCommandView, WireError>(m11)) by {
        wire::lemma_utf8_payload_roundtrip(g.target_bone);
        wire::lemma_fold_opt_string(m10, 11, g.target_bone, ap);
        if g.target_bone.len() == 0 {
            assert(m10.target_bone =~= g.target_bone);
        }
    }
    assert(fold_fields(m11, p12, ap) == Ok::<GestureCommandView, WireError>(m12)) by {
        wire::lemma_int32_roundtrip(g.emotion_tag);
        wire::lemma_fold_opt_int32(m11, 12, g.emotion_tag, ap);
    }
    wire::lemma_fold_concat(m0, p1, p2, ap);
    wire::lemma_fold_concat(m0, p1 + p2, p3, ap);
    wire::lemma_fold_concat(m0, p1 + p2 + p3, p4, ap);
    wire::lemma_fold_concat(m0, p1 + p2 + p3 + p4, p5, ap);
    wire::lemma_fold_concat(m0, p1 + p2 + p3 + p4 + p5, p6, ap);
    wire::lemma_fold_concat(m0, p1 + p2 + p3 + p4 + p5 + p6, p7, ap);
    wire::lemma_fold_concat(m0, p1 + p2 + p3 + p4 + p5 + p6 + p7, p8, ap);
    wire::lemma_fold_concat(m0, p1 + p2 + p3 + p4 + p5 + p6 + p7 + p8, p9, ap);
    wire::lemma_fold_concat(m0, p1 + p2 + p3 + p4 + p5 + p6 + p7 + p8 + p9, p10, ap);
    wire::lemma_fold_concat(m0, p1 + p2 + p3 + p4 + p5 + p6 + p7 + p8 + p9 + p10, p11, ap);
    wire::lemma_fold_concat(m0, p1 + p2 + p3 + p4 + p5 + p6 + p7 + p8 + p9 + p10 + p11, p12, ap);
    assert(m12 == g);
}

/// Decoding an encoded gesture command gives it back, for every command
/// whose float fields are not negative zero.
pub proof fn lemma_gesture_roundtrip(g: GestureCommandView)
    requires
        gesture_keeps(g),
    ensures
        gesture_decode(gesture_bytes(g)) == Ok::<GestureCommandView, WireError>(g),
{
    lemma_gesture_fields_ok(g);
    wire::lemma_parse_encode_fields(MessageKind::GestureCommand, gesture_fields(g));
    lemma_gesture_fold(g);
    assert forall|m2: GestureCommandView, t: u32, v: FieldValue, tail: Seq<u8>| gesture_applier()(m2, t, v) is Ok implies
        #[trigger] gesture_applier_in()(m2, t, v, tail) == gesture_applier()(m2, t, v) by {
        lemma_gesture_apply_in(m2, t, v, tail);
    }
    wire::lemma_stream_is_fold(MessageKind::GestureCommand, gesture_default(), gesture_bytes(g), gesture_applier_in(), gesture_applier());
}

} // verus!

verus! {

/// Each field of a vector is written under its own field number: a vector
/// with only one component set encodes as that one `float` field (`x` = 1,
/// `y` = 2, `z` = 3).
pub proof fn lemma_vector3_field_numbers(f: u32)
    ensures
        vector3_bytes(Vector3 { x: f, ..vector3_default() }) == encode_fields(opt_float(1, f)),
        vector3_bytes(Vector3 { y: f, ..vector3_default() }) == encode_fields(opt_float(2, f)),
        vector3_bytes(Vector3 { z: f, ..vector3_default() }) == encode_fields(opt_float(3, f)),
{
    assert(vector3_fields(Vector3 { x: f, ..vector3_default() }) =~= opt_float(1, f));
    assert(vector3_fields(Vector3 { y: f, ..vector3_default() }) =~= opt_float(2, f));
    assert(vector3_fields(Vector3 { z: f, ..vector3_default() }) =~= opt_float(3, f));
}

/// Each field of a gesture command is written under the field number of
/// the schema: a command with only one field set encodes as that one field
/// (action 1, intensity 2, duration_ms 3, direction 4, compiler_verified 5,
/// speed_multiplier 6, loop_count 7, blend_mode 8, priority 9, easing 10,
/// target_bone 11, emotion_tag 12).
pub proof fn lemma_gesture_field_numbers(x: i32, f: u32, b: bool, s: Seq<char>, d: Vector3)
    ensures
        gesture_bytes(GestureCommandView { action: x, ..gesture_default() }) == encode_fields(opt_int32(1, x)),
        gesture_bytes(GestureCommandView { intensity: f, ..gesture_default() }) == encode_fields(opt_float(2, f)),
        gesture_bytes(GestureCommandView { duration_ms: x, ..gesture_default() }) == encode_fields(opt_int32(3, x)),
        gesture_bytes(GestureCommandView { direction: Some(d), ..gesture_default() }) == encode_fields(
            seq![(4u32, FieldValue::Bytes(vector3_bytes(d)))],
        ),
        gesture_bytes(GestureCommandView { compiler_verified: b, ..gesture_default() }) == encode_fields(opt_bool(5, b)),
        gesture_bytes(GestureCommandView { speed_multiplier: f, ..gesture_default() }) == encode_fields(
            opt_float(6, f),
        ),
        gesture_bytes(GestureCommandView { loop_count: x, ..gesture_default() }) == encode_fields(opt_int32(7, x)),
        gesture_bytes(GestureCommandView { blend_mode: x, ..gesture_default() }) == encode_fields(opt_int32(8, x)),
        gesture_bytes(GestureCommandView { priority: x, ..gesture_default() }) == encode_fields(opt_int32(9, x)),
        gesture_bytes(GestureCommandView { easing: x, ..gesture_default() }) == encode_fields(opt_int32(10, x)),
        gesture_bytes(GestureCommandView { target_bone: s, ..gesture_default() }) == encode_fields(opt_string(11, s)),
        gesture_bytes(GestureCommandView { emotion_tag: x, ..gesture_default() }) == encode_fields(opt_int32(12, x)),
{
    let z = gesture_default();
    assert(vstd::utf8::encode_utf8(z.target_bone).len() == 0) by {
        assert(z.target_bone =~= Seq::<char>::empty());
    }
    assert(gesture_fields(GestureCommandView { action: x, ..z }) =~= opt_int32(1, x));
    assert(gesture_fields(GestureCommandView { intensity: f, ..z }) =~= opt_float(2, f));
    assert(gesture_fields(GestureCommandView { duration_ms: x, ..z }) =~= opt_int32(3, x));
    assert(gesture_fields(GestureCommandView { direction: Some(d), ..z }) =~= seq![
        (4u32, FieldValue::Bytes(vector3_bytes(d))),
    ]);
    assert(gesture_fields(GestureCommandView { compiler_verified: b, ..z }) =~= opt_bool(5, b));
    assert(gesture_fields(GestureCommandView { speed_multiplier: f, ..z }) =~= opt_float(6, f));
    assert(gesture_fields(GestureCommandView { loop_count: x, ..z }) =~= opt_int32(7, x));
    assert(gesture_fields(GestureCommandView { blend_mode: x, ..z }) =~= opt_int32(8, x));
    assert(gesture_fields(GestureCommandView { priority: x, ..z }) =~= opt_int32(9, x));
    assert(gesture_fields(GestureCommandView { easing: x, ..z }) =~= opt_int32(10, x));
    assert(gesture_fields(GestureCommandView { target_bone: s, ..z }) =~= opt_string(11, s));
    assert(gesture_fields(GestureCommandView { emotion_tag: x, ..z }) =~= opt_int32(12, x));
}

/// An `int32` or `bool` field read from a packet that holds only that
/// field lands in the gesture field of that number.
pub proof fn lemma_gesture_fields_read_back(x: i32, b: bool)
    ensures
        gesture_decode(encode_fields(opt_int32(1, x))) == Ok::<GestureCommandView, WireError>(
            GestureCommandView { action: x, ..gesture_default() },
        ),
        gesture_decode(encode_fields(opt_int32(3, x))) == Ok::<GestureCommandView, WireError>(
            GestureCommandView { duration_ms: x, ..gesture_default() },
        ),
        gesture_decode(encode_fields(opt_int32(7, x))) == Ok::<GestureCommandView, WireError>(
            GestureCommandView { loop_count: x, ..gesture_default() },
        ),
        gesture_decode(encode_fields(opt_int32(8, x))) == Ok::<GestureCommandView, WireError>(
            GestureCommandView { blend_mode: x, ..gesture_default() },
        ),
        gesture_decode(encode_fields(opt_int32(9, x))) == Ok::<GestureCommandView, WireError>(
            GestureCommandView { priority: x, ..gesture_default() },
        ),
        gesture_decode(encode_fields(opt_int32(10, x))) == Ok::<GestureCommandView, WireError>(
            GestureCommandView { easing: x, ..gesture_default() },
        ),
        gesture_decode(encode_fields(opt_int32(12, x))) == Ok::<GestureCommandView, WireError>(
            GestureCommandView { emotion_tag: x, ..gesture_default() },
        ),
        gesture_decode(encode_fields(opt_bool(5, b))) == Ok::<GestureCommandView, WireError>(
            GestureCommandView { compiler_verified: b, ..gesture_default() },
        ),
{
    let z = gesture_default();
    assert(vstd::utf8::encode_utf8(z.target_bone).len() == 0) by {
        assert(z.target_bone =~= Seq::<char>::empty());
    }
    lemma_gesture_field_numbers(x, 0, b, seq![], vector3_default());
    lemma_gesture_roundtrip(GestureCommandView { action: x, ..z });
    lemma_gesture_roundtrip(GestureCommandView { duration_ms: x, ..z });
    lemma_gesture_roundtrip(GestureCommandView { loop_count: x, ..z });
    lemma_gesture_roundtrip(GestureCommandView { blend_mode: x, ..z });
    lemma_gesture_roundtrip(GestureCommandView { priority: x, ..z });
    lemma_gesture_roundtrip(GestureCommandView { easing: x, ..z });
    lemma_gesture_roundtrip(GestureCommandView { emotion_tag: x, ..z });
    lemma_gesture_roundtrip(GestureCommandView { compiler_verified: b, ..z });
}

} // verus!
