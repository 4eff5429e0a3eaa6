//! The registry of value kinds: their wire tags, their byte layouts, and the
//! routines that write and read each of them.
use vstd::prelude::*;
use crate::error::AnimXError;
use crate::reader::{
    AnimXReader, Parsed, parse_bool, parse_u8, parse_words, parse_nullable_string,
    lemma_words_one, lemma_le_value_bound, lemma_pow256_bound,
};
use crate::wire::{
    words_le, nullable_str_bytes, push_le, lemma_words_le_one, write_nullable_string, write_u8s,
    write_i32s, write_u32s, write_i64s, write_u64s,
};

verus! {

/// How time is laid out in a track.
#[derive(Debug, Clone, Copy, PartialEq, Eq, Structural)]
pub enum TrackType {
    /// Evenly spaced samples from time 0.
    Raw,
    /// Sparse (time, value) pairs.
    Discrete,
    /// Interpolated keyframes.
    Curve,
    /// Reserved; no body is implemented for it.
    Bezier,
}

/// The wire tag of a track kind.
pub open spec fn track_type_tag(t: TrackType) -> u8 {
    match t {
        TrackType::Raw => 0,
        TrackType::Discrete => 1,
        TrackType::Curve => 2,
        TrackType::Bezier => 3,
    }
}

/// The track kind a stream tag names; the reserved `Bezier` tag is not accepted.
pub open spec fn track_type_from_tag(b: u8) -> Option<TrackType> {
    if b == 0 {
        Some(TrackType::Raw)
    } else if b == 1 {
        Some(TrackType::Discrete)
    } else if b == 2 {
        Some(TrackType::Curve)
    } else {
        None
    }
}

impl TrackType {
    /// The track kind a stream tag names; the reserved `Bezier` tag is not accepted.
    pub fn from_u8(b: u8) -> (r: Option<TrackType>)
        ensures
            r == track_type_from_tag(b),
            r is Some <==> b < 3,
            r is Some ==> track_type_tag(r->0) == b,
    {
        match b {
            0 => Some(TrackType::Raw),
            1 => Some(TrackType::Discrete),
            2 => Some(TrackType::Curve),
            _ => None,
        }
    }

    /// The wire tag.
    pub fn tag(&self) -> (r: u8)
        ensures
            r == track_type_tag(*self),
    {
        match self {
            TrackType::Raw => 0,
            TrackType::Discrete => 1,
            TrackType::Curve => 2,
            TrackType::Bezier => 3,
        }
    }
}

/// How a curve moves from one keyframe to the next.
#[derive(Debug, Clone, Copy, PartialEq, Eq, Structural)]
pub enum Interpolation {
    Hold,
    Linear,
    Tangent,
    CubicBezier,
}

/// The wire tag of an interpolation kind.
pub open spec fn interpolation_tag(i: Interpolation) -> u8 {
    match i {
        Interpolation::Hold => 0,
        Interpolation::Linear => 1,
        Interpolation::Tangent => 2,
        Interpolation::CubicBezier => 3,
    }
}

/// The interpolation kind a stream tag names.
pub open spec fn interpolation_from_tag(b: u8) -> Option<Interpolation> {
    if b == 0 {
        Some(Interpolation::Hold)
    } else if b == 1 {
        Some(Interpolation::Linear)
    } else if b == 2 {
        Some(Interpolation::Tangent)
    } else if b == 3 {
        Some(Interpolation::CubicBezier)
    } else {
        None
    }
}

impl Interpolation {
    /// The interpolation kind a stream tag names.
    pub fn from_u8(b: u8) -> (r: Option<Interpolation>)
        ensures
            r == interpolation_from_tag(b),
            r is Some <==> b < 4,
            r is Some ==> interpolation_tag(r->0) == b,
    {
        match b {
            0 => Some(Interpolation::Hold),
            1 => Some(Interpolation::Linear),
            2 => Some(Interpolation::Tangent),
            3 => Some(Interpolation::CubicBezier),
            _ => None,
        }
    }

    /// The wire tag.
    pub fn tag(&self) -> (r: u8)
        ensures
            r == interpolation_tag(*self),
    {
        match self {
            Interpolation::Hold => 0,
            Interpolation::Linear => 1,
            Interpolation::Tangent => 2,
            Interpolation::CubicBezier => 3,
        }
    }
}

/// The kinds of value a track can carry, in wire-tag order: the tag of a kind
/// is its position in this list.
#[derive(Debug, Clone, Copy, PartialEq, Eq, Structural)]
pub enum ValueType {
    Byte,
    Ushort,
    Ulong,
    Sbyte,
    Short,
    Bool,
    Bool2,
    Bool3,
    Bool4,
    Int,
    Int2,
    Int3,
    Int4,
    Uint,
    Uint2,
    Uint3,
    Uint4,
    Long,
    Long2,
    Long3,
    Long4,
    Float,
    Float2,
    Float3,
    Float4,
    FloatQ,
    Float2x2,
    Float3x3,
    Float4x4,
    Double,
    Double2,
    Double3,
    Double4,
    DoubleQ,
    Double2x2,
    Double3x3,
    Double4x4,
    Color,
    Color32,
    OptString,
}

/// The wire tag of a value kind.
pub open spec fn value_type_tag(k: ValueType) -> u8 {
    match k {
        ValueType::Byte => 0,
        ValueType::Ushort => 1,
        ValueType::Ulong => 2,
        ValueType::Sbyte => 3,
        ValueType::Short => 4,
        ValueType::Bool => 5,
        ValueType::Bool2 => 6,
        ValueType::Bool3 => 7,
        ValueType::Bool4 => 8,
        ValueType::Int => 9,
        ValueType::Int2 => 10,
        ValueType::Int3 => 11,
        ValueType::Int4 => 12,
        ValueType::Uint => 13,
        ValueType::Uint2 => 14,
        ValueType::Uint3 => 15,
        ValueType::Uint4 => 16,
        ValueType::Long => 17,
        ValueType::Long2 => 18,
        ValueType::Long3 => 19,
        ValueType::Long4 => 20,
        ValueType::Float => 21,
        ValueType::Float2 => 22,
        ValueType::Float3 => 23,
        ValueType::Float4 => 24,
        ValueType::FloatQ => 25,
        ValueType::Float2x2 => 26,
        ValueType::Float3x3 => 27,
        ValueType::Float4x4 => 28,
        ValueType::Double => 29,
        ValueType::Double2 => 30,
        ValueType::Double3 => 31,
        ValueType::Double4 => 32,
        ValueType::DoubleQ => 33,
        ValueType::Double2x2 => 34,
        ValueType::Double3x3 => 35,
        ValueType::Double4x4 => 36,
        ValueType::Color => 37,
        ValueType::Color32 => 38,
        ValueType::OptString => 39,
    }
}

/// The number of components of a fixed-layout kind.
pub open spec fn value_count(k: ValueType) -> nat {
    match k {
        ValueType::Byte => 1,
        ValueType::Ushort => 1,
        ValueType::Ulong => 1,
        ValueType::Sbyte => 1,
        ValueType::Short => 1,
        ValueType::Bool => 1,
        ValueType::Bool2 => 2,
        ValueType::Bool3 => 3,
        ValueType::Bool4 => 4,
        ValueType::Int => 1,
        ValueType::Int2 => 2,
        ValueType::Int3 => 3,
        ValueType::Int4 => 4,
        ValueType::Uint => 1,
        ValueType::Uint2 => 2,
        ValueType::Uint3 => 3,
        ValueType::Uint4 => 4,
        ValueType::Long => 1,
        ValueType::Long2 => 2,
        ValueType::Long3 => 3,
        ValueType::Long4 => 4,
        ValueType::Float => 1,
        ValueType::Float2 => 2,
        ValueType::Float3 => 3,
        ValueType::Float4 => 4,
        ValueType::FloatQ => 4,
        ValueType::Float2x2 => 4,
        ValueType::Float3x3 => 9,
        ValueType::Float4x4 => 16,
        ValueType::Double => 1,
        ValueType::Double2 => 2,
        ValueType::Double3 => 3,
        ValueType::Double4 => 4,
        ValueType::DoubleQ => 4,
        ValueType::Double2x2 => 4,
        ValueType::Double3x3 => 9,
        ValueType::Double4x4 => 16,
        ValueType::Color => 4,
        ValueType::Color32 => 4,
        ValueType::OptString => 0,
    }
}

/// The byte width of each component of a fixed-layout kind.
pub open spec fn value_width(k: ValueType) -> nat {
    match k {
        ValueType::Byte => 1,
        ValueType::Ushort => 2,
        ValueType::Ulong => 8,
        ValueType::Sbyte => 1,
        ValueType::Short => 2,
        ValueType::Bool => 1,
        ValueType::Bool2 => 1,
        ValueType::Bool3 => 1,
        ValueType::Bool4 => 1,
        ValueType::Int => 4,
        ValueType::Int2 => 4,
        ValueType::Int3 => 4,
        ValueType::Int4 => 4,
        ValueType::Uint => 4,
        ValueType::Uint2 => 4,
        ValueType::Uint3 => 4,
        ValueType::Uint4 => 4,
        ValueType::Long => 8,
        ValueType::Long2 => 8,
        ValueType::Long3 => 8,
        ValueType::Long4 => 8,
        ValueType::Float => 4,
        ValueType::Float2 => 4,
        ValueType::Float3 => 4,
        ValueType::Float4 => 4,
        ValueType::FloatQ => 4,
        ValueType::Float2x2 => 4,
        ValueType::Float3x3 => 4,
        ValueType::Float4x4 => 4,
        ValueType::Double => 8,
        ValueType::Double2 => 8,
        ValueType::Double3 => 8,
        ValueType::Double4 => 8,
        ValueType::DoubleQ => 8,
        ValueType::Double2x2 => 8,
        ValueType::Double3x3 => 8,
        ValueType::Double4x4 => 8,
        ValueType::Color => 4,
        ValueType::Color32 => 1,
        ValueType::OptString => 0,
    }
}

pub open spec fn is_bool_pack(k: ValueType) -> bool {
    k is Bool2 || k is Bool3 || k is Bool4
}

/// A kind laid out as components of one fixed width each.
pub open spec fn is_fixed_words(k: ValueType) -> bool {
    !(k is Bool) && !is_bool_pack(k) && !(k is OptString)
}

/// The value kind a stream tag names.
pub open spec fn value_type_from_tag(b: u8) -> Option<ValueType> {
    match b {
        0 => Some(ValueType::Byte),
        1 => Some(ValueType::Ushort),
        2 => Some(ValueType::Ulong),
        3 => Some(ValueType::Sbyte),
        4 => Some(ValueType::Short),
        5 => Some(ValueType::Bool),
        6 => Some(ValueType::Bool2),
        7 => Some(ValueType::Bool3),
        8 => Some(ValueType::Bool4),
        9 => Some(ValueType::Int),
        10 => Some(ValueType::Int2),
        11 => Some(ValueType::Int3),
        12 => Some(ValueType::Int4),
        13 => Some(ValueType::Uint),
        14 => Some(ValueType::Uint2),
        15 => Some(ValueType::Uint3),
        16 => Some(ValueType::Uint4),
        17 => Some(ValueType::Long),
        18 => Some(ValueType::Long2),
        19 => Some(ValueType::Long3),
        20 => Some(ValueType::Long4),
        21 => Some(ValueType::Float),
        22 => Some(ValueType::Float2),
        23 => Some(ValueType::Float3),
        24 => Some(ValueType::Float4),
        25 => Some(ValueType::FloatQ),
        26 => Some(ValueType::Float2x2),
        27 => Some(ValueType::Float3x3),
        28 => Some(ValueType::Float4x4),
        29 => Some(ValueType::Double),
        30 => Some(ValueType::Double2),
        31 => Some(ValueType::Double3),
        32 => Some(ValueType::Double4),
        33 => Some(ValueType::DoubleQ),
        34 => Some(ValueType::Double2x2),
        35 => Some(ValueType::Double3x3),
        36 => Some(ValueType::Double4x4),
        37 => Some(ValueType::Color),
        38 => Some(ValueType::Color32),
        39 => Some(ValueType::OptString),
        _ => None,
    }
}

impl ValueType {
    /// The value kind a stream tag names.
    pub fn from_u8(b: u8) -> (r: Option<ValueType>)
        ensures
            r == value_type_from_tag(b),
            r is Some <==> b < 40,
            r is Some ==> value_type_tag(r->0) == b,
    {
        match b {
            0 => Some(ValueType::Byte),
            1 => Some(ValueType::Ushort),
            2 => Some(ValueType::Ulong),
            3 => Some(ValueType::Sbyte),
            4 => Some(ValueType::Short),
            5 => Some(ValueType::Bool),
            6 => Some(ValueType::Bool2),
            7 => Some(ValueType::Bool3),
            8 => Some(ValueType::Bool4),
            9 => Some(ValueType::Int),
            10 => Some(ValueType::Int2),
            11 => Some(ValueType::Int3),
            12 => Some(ValueType::Int4),
            13 => Some(ValueType::Uint),
            14 => Some(ValueType::Uint2),
            15 => Some(ValueType::Uint3),
            16 => Some(ValueType::Uint4),
            17 => Some(ValueType::Long),
            18 => Some(ValueType::Long2),
            19 => Some(ValueType::Long3),
            20 => Some(ValueType::Long4),
            21 => Some(ValueType::Float),
            22 => Some(ValueType::Float2),
            23 => Some(ValueType::Float3),
            24 => Some(ValueType::Float4),
            25 => Some(ValueType::FloatQ),
            26 => Some(ValueType::Float2x2),
            27 => Some(ValueType::Float3x3),
            28 => Some(ValueType::Float4x4),
            29 => Some(ValueType::Double),
            30 => Some(ValueType::Double2),
            31 => Some(ValueType::Double3),
            32 => Some(ValueType::Double4),
            33 => Some(ValueType::DoubleQ),
            34 => Some(ValueType::Double2x2),
            35 => Some(ValueType::Double3x3),
            36 => Some(ValueType::Double4x4),
            37 => Some(ValueType::Color),
            38 => Some(ValueType::Color32),
            39 => Some(ValueType::OptString),
            _ => None,
        }
    }

    /// The wire tag.
    pub fn tag(&self) -> (r: u8)
        ensures
            r == value_type_tag(*self),
    {
        match self {
            ValueType::Byte => 0,
            ValueType::Ushort => 1,
            ValueType::Ulong => 2,
            ValueType::Sbyte => 3,
            ValueType::Short => 4,
            ValueType::Bool => 5,
            ValueType::Bool2 => 6,
            ValueType::Bool3 => 7,
            ValueType::Bool4 => 8,
            ValueType::Int => 9,
            ValueType::Int2 => 10,
            ValueType::Int3 => 11,
            ValueType::Int4 => 12,
            ValueType::Uint => 13,
            ValueType::Uint2 => 14,
            ValueType::Uint3 => 15,
            ValueType::Uint4 => 16,
            ValueType::Long => 17,
            ValueType::Long2 => 18,
            ValueType::Long3 => 19,
            ValueType::Long4 => 20,
            ValueType::Float => 21,
            ValueType::Float2 => 22,
            ValueType::Float3 => 23,
            ValueType::Float4 => 24,
            ValueType::FloatQ => 25,
            ValueType::Float2x2 => 26,
            ValueType::Float3x3 => 27,
            ValueType::Float4x4 => 28,
            ValueType::Double => 29,
            ValueType::Double2 => 30,
            ValueType::Double3 => 31,
            ValueType::Double4 => 32,
            ValueType::DoubleQ => 33,
            ValueType::Double2x2 => 34,
            ValueType::Double3x3 => 35,
            ValueType::Double4x4 => 36,
            ValueType::Color => 37,
            ValueType::Color32 => 38,
            ValueType::OptString => 39,
        }
    }
}

/// A nullable string as a keyframe value: the empty string stands for null.
#[derive(Debug, Clone, Default)]
pub struct OptString(pub String);

impl View for OptString {
    type V = Seq<char>;

    open spec fn view(&self) -> Seq<char> {
        self.0@
    }
}

/// One keyframe value, of any kind.
#[derive(Debug, Clone)]
pub enum Value {
    /// An unsigned 8-bit integer.
    Byte(u8),
    /// An unsigned 16-bit integer.
    Ushort(u16),
    /// An unsigned 64-bit integer.
    Ulong(u64),
    /// A signed 8-bit integer.
    Sbyte(i8),
    /// A signed 16-bit integer.
    Short(i16),
    /// A flag, one byte on the wire.
    Bool(bool),
    /// Flags (x, y), packed into one byte on the wire.
    Bool2([bool; 2]),
    /// Flags (x, y, z), packed into one byte on the wire.
    Bool3([bool; 3]),
    /// Flags (x, y, z, w), packed into one byte on the wire.
    Bool4([bool; 4]),
    /// A signed 32-bit integer.
    Int(i32),
    /// A vector (x, y) of signed 32-bit integers.
    Int2([i32; 2]),
    /// A vector (x, y, z) of signed 32-bit integers.
    Int3([i32; 3]),
    /// A vector (x, y, z, w) of signed 32-bit integers.
    Int4([i32; 4]),
    /// An unsigned 32-bit integer.
    Uint(u32),
    /// A vector (x, y) of unsigned 32-bit integers.
    Uint2([u32; 2]),
    /// A vector (x, y, z) of unsigned 32-bit integers.
    Uint3([u32; 3]),
    /// A vector (x, y, z, w) of unsigned 32-bit integers.
    Uint4([u32; 4]),
    /// A signed 64-bit integer.
    Long(i64),
    /// A vector (x, y) of signed 64-bit integers.
    Long2([i64; 2]),
    /// A vector (x, y, z) of signed 64-bit integers.
    Long3([i64; 3]),
    /// A vector (x, y, z, w) of signed 64-bit integers.
    Long4([i64; 4]),
    /// A single-precision float, as its bit pattern.
    Float(u32),
    /// A vector (x, y) of single-precision floats, as bit patterns.
    Float2([u32; 2]),
    /// A vector (x, y, z) of single-precision floats, as bit patterns.
    Float3([u32; 3]),
    /// A vector (x, y, z, w) of single-precision floats, as bit patterns.
    Float4([u32; 4]),
    /// A single-precision quaternion (x, y, z, w), as bit patterns.
    FloatQ([u32; 4]),
    /// A 2x2 matrix of single-precision floats, row-major, as bit patterns.
    Float2x2([u32; 4]),
    /// A 3x3 matrix of single-precision floats, row-major, as bit patterns.
    Float3x3([u32; 9]),
    /// A 4x4 matrix of single-precision floats, row-major, as bit patterns.
    Float4x4([u32; 16]),
    /// A double-precision float, as its bit pattern.
    Double(u64),
    /// A vector (x, y) of double-precision floats, as bit patterns.
    Double2([u64; 2]),
    /// A vector (x, y, z) of double-precision floats, as bit patterns.
    Double3([u64; 3]),
    /// A vector (x, y, z, w) of double-precision floats, as bit patterns.
    Double4([u64; 4]),
    /// A double-precision quaternion (x, y, z, w), as bit patterns.
    DoubleQ([u64; 4]),
    /// A 2x2 matrix of double-precision floats, row-major, as bit patterns.
    Double2x2([u64; 4]),
    /// A 3x3 matrix of double-precision floats, row-major, as bit patterns.
    Double3x3([u64; 9]),
    /// A 4x4 matrix of double-precision floats, row-major, as bit patterns.
    Double4x4([u64; 16]),
    /// A color (r, g, b, a) of single-precision floats, as bit patterns.
    Color([u32; 4]),
    /// A color (r, g, b, a) of bytes.
    Color32([u8; 4]),
    /// A nullable string; the empty string stands for null.
    OptString(OptString),
}

/// What a value is: its kind, its components as unsigned numbers (the bit
/// pattern of a signed or floating-point component; 0 or 1 for a flag), and,
/// for a string, its characters.
pub struct ValueView {
    pub kind: ValueType,
    pub comps: Seq<nat>,
    pub text: Seq<char>,
}

pub open spec fn numbers(kind: ValueType, comps: Seq<nat>) -> ValueView {
    ValueView { kind, comps, text: seq![] }
}

impl View for Value {
    type V = ValueView;

    open spec fn view(&self) -> ValueView {
        match self {
            Value::Byte(x) => numbers(ValueType::Byte, seq![*x as nat]),
            Value::Ushort(x) => numbers(ValueType::Ushort, seq![*x as nat]),
            Value::Ulong(x) => numbers(ValueType::Ulong, seq![*x as nat]),
            Value::Sbyte(x) => numbers(ValueType::Sbyte, seq![(*x as u8) as nat]),
            Value::Short(x) => numbers(ValueType::Short, seq![(*x as u16) as nat]),
            Value::Bool(x) => numbers(ValueType::Bool, seq![if *x { 1nat } else { 0nat }]),
            Value::Bool2(a) => numbers(ValueType::Bool2, a@.map_values(|x: bool| if x { 1nat } else { 0nat })),
            Value::Bool3(a) => numbers(ValueType::Bool3, a@.map_values(|x: bool| if x { 1nat } else { 0nat })),
            Value::Bool4(a) => numbers(ValueType::Bool4, a@.map_values(|x: bool| if x { 1nat } else { 0nat })),
            Value::Int(x) => numbers(ValueType::Int, seq![(*x as u32) as nat]),
            Value::Int2(a) => numbers(ValueType::Int2, a@.map_values(|x: i32| (x as u32) as nat)),
            Value::Int3(a) => numbers(ValueType::Int3, a@.map_values(|x: i32| (x as u32) as nat)),
            Value::Int4(a) => numbers(ValueType::Int4, a@.map_values(|x: i32| (x as u32) as nat)),
            Value::Uint(x) => numbers(ValueType::Uint, seq![*x as nat]),
            Value::Uint2(a) => numbers(ValueType::Uint2, a@.map_values(|x: u32| x as nat)),
            Value::Uint3(a) => numbers(ValueType::Uint3, a@.map_values(|x: u32| x as nat)),
            Value::Uint4(a) => numbers(ValueType::Uint4, a@.map_values(|x: u32| x as nat)),
            Value::Long(x) => numbers(ValueType::Long, seq![(*x as u64) as nat]),
            Value::Long2(a) => numbers(ValueType::Long2, a@.map_values(|x: i64| (x as u64) as nat)),
            Value::Long3(a) => numbers(ValueType::Long3, a@.map_values(|x: i64| (x as u64) as nat)),
            Value::Long4(a) => numbers(ValueType::Long4, a@.map_values(|x: i64| (x as u64) as nat)),
            Value::Float(x) => numbers(ValueType::Float, seq![*x as nat]),
            Value::Float2(a) => numbers(ValueType::Float2, a@.map_values(|x: u32| x as nat)),
            Value::Float3(a) => numbers(ValueType::Float3, a@.map_values(|x: u32| x as nat)),
            Value::Float4(a) => numbers(ValueType::Float4, a@.map_values(|x: u32| x as nat)),
            Value::FloatQ(a) => numbers(ValueType::FloatQ, a@.map_values(|x: u32| x as nat)),
            Value::Float2x2(a) => numbers(ValueType::Float2x2, a@.map_values(|x: u32| x as nat)),
            Value::Float3x3(a) => numbers(ValueType::Float3x3, a@.map_values(|x: u32| x as nat)),
            Value::Float4x4(a) => numbers(ValueType::Float4x4, a@.map_values(|x: u32| x as nat)),
            Value::Double(x) => numbers(ValueType::Double, seq![*x as nat]),
            Value::Double2(a) => numbers(ValueType::Double2, a@.map_values(|x: u64| x as nat)),
            Value::Double3(a) => numbers(ValueType::Double3, a@.map_values(|x: u64| x as nat)),
            Value::Double4(a) => numbers(ValueType::Double4, a@.map_values(|x: u64| x as nat)),
            Value::DoubleQ(a) => numbers(ValueType::DoubleQ, a@.map_values(|x: u64| x as nat)),
            Value::Double2x2(a) => numbers(ValueType::Double2x2, a@.map_values(|x: u64| x as nat)),
            Value::Double3x3(a) => numbers(ValueType::Double3x3, a@.map_values(|x: u64| x as nat)),
            Value::Double4x4(a) => numbers(ValueType::Double4x4, a@.map_values(|x: u64| x as nat)),
            Value::Color(a) => numbers(ValueType::Color, a@.map_values(|x: u32| x as nat)),
            Value::Color32(a) => numbers(ValueType::Color32, a@.map_values(|x: u8| x as nat)),
            Value::OptString(s) => ValueView { kind: ValueType::OptString, comps: seq![], text: s@ },
        }
    }
}

/// The single byte of a packed flag set: flag `i` is bit `i`.
pub open spec fn pack_bits(c: Seq<nat>) -> nat {
    c[0] + 2 * c[1] + (if c.len() > 2 { 4 * c[2] } else { 0 }) + (if c.len() > 3 {
        8 * c[3]
    } else {
        0
    })
}

/// The first `n` bits of a byte, low bit first.
pub open spec fn unpack_bits(b: u8, n: nat) -> Seq<nat> {
    seq![(b % 2) as nat, ((b / 2) % 2) as nat, ((b / 4) % 2) as nat, ((b / 8) % 2) as nat].subrange(
        0,
        n as int,
    )
}

/// The bytes of a value on the wire.
pub open spec fn value_bytes(v: ValueView) -> Seq<u8> {
    if v.kind is Bool {
        seq![v.comps[0] as u8]
    } else if is_bool_pack(v.kind) {
        seq![pack_bits(v.comps) as u8]
    } else if v.kind is OptString {
        nullable_str_bytes(v.text)
    } else {
        words_le(v.comps, value_width(v.kind))
    }
}

/// Each value of `vs` on the wire, one after the other.
pub open spec fn values_bytes(vs: Seq<ValueView>) -> Seq<u8>
    decreases vs.len(),
{
    if vs.len() == 0 {
        seq![]
    } else {
        values_bytes(vs.drop_last()) + value_bytes(vs.last())
    }
}

/// A value of kind `k` read from the stream.
pub open spec fn parse_value(s: Seq<u8>, p: int, k: ValueType) -> Parsed<ValueView> {
    if k is Bool {
        match parse_bool(s, p) {
            Ok((b, q)) => Ok((numbers(k, seq![if b { 1nat } else { 0nat }]), q)),
            Err(e) => Err(e),
        }
    } else if is_bool_pack(k) {
        match parse_u8(s, p) {
            Ok((b, q)) => Ok((numbers(k, unpack_bits(b, value_count(k))), q)),
            Err(e) => Err(e),
        }
    } else if k is OptString {
        match parse_nullable_string(s, p) {
            Ok((Some(t), q)) => Ok((ValueView { kind: k, comps: seq![], text: t }, q)),
            Ok((None, q)) => Ok((ValueView { kind: k, comps: seq![], text: seq![] }, q)),
            Err(e) => Err(e),
        }
    } else {
        match parse_words(s, p, value_count(k), value_width(k)) {
            Ok((ws, q)) => Ok((numbers(k, ws), q)),
            Err(e) => Err(e),
        }
    }
}

impl Value {
    /// The kind of this value.
    pub fn kind(&self) -> (r: ValueType)
        ensures
            r == self@.kind,
    {
        match self {
            Value::Byte(_) => ValueType::Byte,
            Value::Ushort(_) => ValueType::Ushort,
            Value::Ulong(_) => ValueType::Ulong,
            Value::Sbyte(_) => ValueType::Sbyte,
            Value::Short(_) => ValueType::Short,
            Value::Bool(_) => ValueType::Bool,
            Value::Bool2(_) => ValueType::Bool2,
            Value::Bool3(_) => ValueType::Bool3,
            Value::Bool4(_) => ValueType::Bool4,
            Value::Int(_) => ValueType::Int,
            Value::Int2(_) => ValueType::Int2,
            Value::Int3(_) => ValueType::Int3,
            Value::Int4(_) => ValueType::Int4,
            Value::Uint(_) => ValueType::Uint,
            Value::Uint2(_) => ValueType::Uint2,
            Value::Uint3(_) => ValueType::Uint3,
            Value::Uint4(_) => ValueType::Uint4,
            Value::Long(_) => ValueType::Long,
            Value::Long2(_) => ValueType::Long2,
            Value::Long3(_) => ValueType::Long3,
            Value::Long4(_) => ValueType::Long4,
            Value::Float(_) => ValueType::Float,
            Value::Float2(_) => ValueType::Float2,
            Value::Float3(_) => ValueType::Float3,
            Value::Float4(_) => ValueType::Float4,
            Value::FloatQ(_) => ValueType::FloatQ,
            Value::Float2x2(_) => ValueType::Float2x2,
            Value::Float3x3(_) => ValueType::Float3x3,
            Value::Float4x4(_) => ValueType::Float4x4,
            Value::Double(_) => ValueType::Double,
            Value::Double2(_) => ValueType::Double2,
            Value::Double3(_) => ValueType::Double3,
            Value::Double4(_) => ValueType::Double4,
            Value::DoubleQ(_) => ValueType::DoubleQ,
            Value::Double2x2(_) => ValueType::Double2x2,
            Value::Double3x3(_) => ValueType::Double3x3,
            Value::Double4x4(_) => ValueType::Double4x4,
            Value::Color(_) => ValueType::Color,
            Value::Color32(_) => ValueType::Color32,
            Value::OptString(_) => ValueType::OptString,
        }
    }

    /// Appends this value's bytes.
    pub fn write(&self, out: &mut Vec<u8>)
        ensures
            final(out)@ == old(out)@ + value_bytes(self@),
    {
        match self {
            Value::Byte(x) => {
                push_le(out, *x as u64, 1);
                proof {
                    lemma_words_le_one(*x as nat, 1);
                }
            },
            Value::Ushort(x) => {
                push_le(out, *x as u64, 2);
                proof {
                    lemma_words_le_one(*x as nat, 2);
                }
            },
            Value::Ulong(x) => {
                push_le(out, *x, 8);
                proof {
                    lemma_words_le_one(*x as nat, 8);
                }
            },
            Value::Sbyte(x) => {
                push_le(out, (*x as u8) as u64, 1);
                proof {
                    lemma_words_le_one((*x as u8) as nat, 1);
                }
            },
            Value::Short(x) => {
                push_le(out, (*x as u16) as u64, 2);
                proof {
                    lemma_words_le_one((*x as u16) as nat, 2);
                }
            },
            Value::Bool(x) => out.push(if *x { 1u8 } else { 0u8 }),
            Value::Bool2(a) => {
                let b: u8 = if a[0] { 1u8 } else { 0u8 } + if a[1] { 2u8 } else { 0u8 };
                out.push(b);
            },
            Value::Bool3(a) => {
                let b: u8 = if a[0] { 1u8 } else { 0u8 } + if a[1] { 2u8 } else { 0u8 } + if a[2] { 4u8 } else { 0u8 };
                out.push(b);
            },
            Value::Bool4(a) => {
                let b: u8 = if a[0] { 1u8 } else { 0u8 } + if a[1] { 2u8 } else { 0u8 } + if a[2] { 4u8 } else { 0u8 } + if a[3] { 8u8 } else { 0u8 };
                out.push(b);
            },
            Value::Int(x) => {
                push_le(out, (*x as u32) as u64, 4);
                proof {
                    lemma_words_le_one((*x as u32) as nat, 4);
                }
            },
            Value::Int2(a) => write_i32s(out, a.as_slice()),
            Value::Int3(a) => write_i32s(out, a.as_slice()),
            Value::Int4(a) => write_i32s(out, a.as_slice()),
            Value::Uint(x) => {
                push_le(out, *x as u64, 4);
                proof {
                    lemma_words_le_one(*x as nat, 4);
                }
            },
            Value::Uint2(a) => write_u32s(out, a.as_slice()),
            Value::Uint3(a) => write_u32s(out, a.as_slice()),
            Value::Uint4(a) => write_u32s(out, a.as_slice()),
            Value::Long(x) => {
                push_le(out, *x as u64, 8);
                proof {
                    lemma_words_le_one((*x as u64) as nat, 8);
                }
            },
            Value::Long2(a) => write_i64s(out, a.as_slice()),
            Value::Long3(a) => write_i64s(out, a.as_slice()),
            Value::Long4(a) => write_i64s(out, a.as_slice()),
            Value::Float(x) => {
                push_le(out, *x as u64, 4);
                proof {
                    lemma_words_le_one(*x as nat, 4);
                }
            },
            Value::Float2(a) => write_u32s(out, a.as_slice()),
            Value::Float3(a) => write_u32s(out, a.as_slice()),
            Value::Float4(a) => write_u32s(out, a.as_slice()),
            Value::FloatQ(a) => write_u32s(out, a.as_slice()),
            Value::Float2x2(a) => write_u32s(out, a.as_slice()),
            Value::Float3x3(a) => write_u32s(out, a.as_slice()),
            Value::Float4x4(a) => write_u32s(out, a.as_slice()),
            Value::Double(x) => {
                push_le(out, *x, 8);
                proof {
                    lemma_words_le_one(*x as nat, 8);
                }
            },
            Value::Double2(a) => write_u64s(out, a.as_slice()),
            Value::Double3(a) => write_u64s(out, a.as_slice()),
            Value::Double4(a) => write_u64s(out, a.as_slice()),
            Value::DoubleQ(a) => write_u64s(out, a.as_slice()),
            Value::Double2x2(a) => write_u64s(out, a.as_slice()),
            Value::Double3x3(a) => write_u64s(out, a.as_slice()),
            Value::Double4x4(a) => write_u64s(out, a.as_slice()),
            Value::Color(a) => write_u32s(out, a.as_slice()),
            Value::Color32(a) => write_u8s(out, a.as_slice()),
            Value::OptString(s) => write_nullable_string(out, s.0.as_str()),
        }
    }
}

impl AnimXReader {
    /// The next value, of kind `k`.
    #[verifier::rlimit(100)]
    #[verifier::spinoff_prover]
    pub fn read_value(&mut self, k: ValueType) -> (r: Result<Value, AnimXError>)
        requires
            old(self).wf(),
        ensures
            final(self).wf(),
            final(self).bytes() == old(self).bytes(),
            match parse_value(old(self).bytes(), old(self).position(), k) {
                Ok((v, q)) => r is Ok && r->Ok_0@ == v && final(self).position() == q,
                Err(e) => r == Err::<Value, AnimXError>(e),
            },
    {
        let ghost s = self.bytes();
        let ghost p = self.position();
        match k {
            ValueType::Byte => {
                let a = self.read_u8s::<1>()?;
                assert(a@.map_values(|x: u8| x as nat) =~= seq![a[0] as nat]);
                Ok(Value::Byte(a[0]))
            },
            ValueType::Ushort => {
                proof {
                    lemma_words_one(s, p, 2);
                }
                let v = self.read_le(2)?;
                proof {
                    lemma_le_value_bound(s.subrange(p, p + 2));
                    lemma_pow256_bound(2);
                }
                let x: u16 = v as u16;
                assert(seq![x as nat] =~= seq![v as nat]);
                Ok(Value::Ushort(x))
            },
            ValueType::Ulong => {
                let a = self.read_u64s::<1>()?;
                assert(a@.map_values(|x: u64| x as nat) =~= seq![a[0] as nat]);
                Ok(Value::Ulong(a[0]))
            },
            ValueType::Sbyte => {
                proof {
                    lemma_words_one(s, p, 1);
                }
                let v = self.read_le(1)?;
                proof {
                    lemma_le_value_bound(s.subrange(p, p + 1));
                    lemma_pow256_bound(1);
                }
                let x: i8 = #[verifier::truncate] ((v as u8) as i8);
                assert((x as u8) == v as u8) by (bit_vector)
                    requires
                        x == #[verifier::truncate] ((v as u8) as i8),
                ;
                assert(seq![(x as u8) as nat] =~= seq![v as nat]);
                Ok(Value::Sbyte(x))
            },
            ValueType::Short => {
                proof {
                    lemma_words_one(s, p, 2);
                }
                let v = self.read_le(2)?;
                proof {
                    lemma_le_value_bound(s.subrange(p, p + 2));
                    lemma_pow256_bound(2);
                }
                let x: i16 = #[verifier::truncate] ((v as u16) as i16);
                assert((x as u16) == v as u16) by (bit_vector)
                    requires
                        x == #[verifier::truncate] ((v as u16) as i16),
                ;
                assert(seq![(x as u16) as nat] =~= seq![v as nat]);
                Ok(Value::Short(x))
            },
            ValueType::Bool => Ok(Value::Bool(self.read_bool()?)),
            ValueType::Bool2 => {
                let b = self.read_u8()?;
                let a = [b % 2 == 1, (b / 2) % 2 == 1];
                assert(a@.map_values(|x: bool| if x { 1nat } else { 0nat }) =~= unpack_bits(b, 2));
                Ok(Value::Bool2(a))
            },
            ValueType::Bool3 => {
                let b = self.read_u8()?;
                let a = [b % 2 == 1, (b / 2) % 2 == 1, (b / 4) % 2 == 1];
                assert(a@.map_values(|x: bool| if x { 1nat } else { 0nat }) =~= unpack_bits(b, 3));
                Ok(Value::Bool3(a))
            },
            ValueType::Bool4 => {
                let b = self.read_u8()?;
                let a = [b % 2 == 1, (b / 2) % 2 == 1, (b / 4) % 2 == 1, (b / 8) % 2 == 1];
                assert(a@.map_values(|x: bool| if x { 1nat } else { 0nat }) =~= unpack_bits(b, 4));
                Ok(Value::Bool4(a))
            },
            ValueType::Int => {
                let a = self.read_i32s::<1>()?;
                assert(a@.map_values(|x: i32| (x as u32) as nat) =~= seq![(a[0] as u32) as nat]);
                Ok(Value::Int(a[0]))
            },
            ValueType::Int2 => Ok(Value::Int2(self.read_i32s::<2>()?)),
            ValueType::Int3 => Ok(Value::Int3(self.read_i32s::<3>()?)),
            ValueType::Int4 => Ok(Value::Int4(self.read_i32s::<4>()?)),
            ValueType::Uint => {
                let a = self.read_u32s::<1>()?;
                assert(a@.map_values(|x: u32| x as nat) =~= seq![a[0] as nat]);
                Ok(Value::Uint(a[0]))
            },
            ValueType::Uint2 => Ok(Value::Uint2(self.read_u32s::<2>()?)),
            ValueType::Uint3 => Ok(Value::Uint3(self.read_u32s::<3>()?)),
            ValueType::Uint4 => Ok(Value::Uint4(self.read_u32s::<4>()?)),
            ValueType::Long => {
                let a = self.read_i64s::<1>()?;
                assert(a@.map_values(|x: i64| (x as u64) as nat) =~= seq![(a[0] as u64) as nat]);
                Ok(Value::Long(a[0]))
            },
            ValueType::Long2 => Ok(Value::Long2(self.read_i64s::<2>()?)),
            ValueType::Long3 => Ok(Value::Long3(self.read_i64s::<3>()?)),
            ValueType::Long4 => Ok(Value::Long4(self.read_i64s::<4>()?)),
            ValueType::Float => {
                let a = self.read_u32s::<1>()?;
                assert(a@.map_values(|x: u32| x as nat) =~= seq![a[0] as nat]);
                Ok(Value::Float(a[0]))
            },
            ValueType::Float2 => Ok(Value::Float2(self.read_u32s::<2>()?)),
            ValueType::Float3 => Ok(Value::Float3(self.read_u32s::<3>()?)),
            ValueType::Float4 => Ok(Value::Float4(self.read_u32s::<4>()?)),
            ValueType::FloatQ => Ok(Value::FloatQ(self.read_u32s::<4>()?)),
            ValueType::Float2x2 => Ok(Value::Float2x2(self.read_u32s::<4>()?)),
            ValueType::Float3x3 => Ok(Value::Float3x3(self.read_u32s::<9>()?)),
            ValueType::Float4x4 => Ok(Value::Float4x4(self.read_u32s::<16>()?)),
            ValueType::Double => {
                let a = self.read_u64s::<1>()?;
                assert(a@.map_values(|x: u64| x as nat) =~= seq![a[0] as nat]);
                Ok(Value::Double(a[0]))
            },
            ValueType::Double2 => Ok(Value::Double2(self.read_u64s::<2>()?)),
            ValueType::Double3 => Ok(Value::Double3(self.read_u64s::<3>()?)),
            ValueType::Double4 => Ok(Value::Double4(self.read_u64s::<4>()?)),
            ValueType::DoubleQ => Ok(Value::DoubleQ(self.read_u64s::<4>()?)),
            ValueType::Double2x2 => Ok(Value::Double2x2(self.read_u64s::<4>()?)),
            ValueType::Double3x3 => Ok(Value::Double3x3(self.read_u64s::<9>()?)),
            ValueType::Double4x4 => Ok(Value::Double4x4(self.read_u64s::<16>()?)),
            ValueType::Color => Ok(Value::Color(self.read_u32s::<4>()?)),
            ValueType::Color32 => Ok(Value::Color32(self.read_u8s::<4>()?)),
            ValueType::OptString => match self.read_nullable_string()? {
                Some(t) => Ok(Value::OptString(OptString(t))),
                None => Ok(Value::OptString(OptString(String::new()))),
            },
        }
    }
}

} // verus!
