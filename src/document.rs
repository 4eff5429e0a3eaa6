//! Reading an animation from an AnimJ document, given as a parsed tree.
use vstd::prelude::*;
use vstd::utf8::*;
use crate::error::AnimXError;
use crate::laws::{lemma_parse_varint_bytes, lemma_varint_bytes_len};
use crate::reader::{AnimXReader, parse_bytes, parse_le, parse_words, pow256, lemma_pow256_bound};
use crate::animation::{
    Animation, AnimationView, opt_text, opt_value, CurveData, CurveKeyframe, CurveKeyframeView, DiscreteData,
    DiscreteKeyframe, RawData, Track, TrackData, TrackDataView, TrackView,
};
use crate::types::{
    Interpolation, TrackType, ValueType, ValueView, Value, is_bool_pack, numbers, pack_bits, parse_value, unpack_bits,
    value_bytes, value_count, value_width,
};
use crate::wire::{le_bytes, le_value, lemma_le_bytes_len, push_le, varint_bytes, words_le};

verus! {

/// A number of a document, in the forms the value kinds read it.
#[derive(Debug, Clone, Copy, PartialEq, Eq, Structural)]
pub struct JsonNumber {
    /// The number itself when it is an integer.
    pub integer: Option<i128>,
    /// The number as a single-precision float, as its bit pattern.
    pub f32_bits: u32,
    /// The number as a double-precision float, as its bit pattern.
    pub f64_bits: u64,
}

/// A parsed document: object members keep their order.
#[derive(Debug)]
pub enum Json {
    Null,
    Bool(bool),
    Number(JsonNumber),
    Str(String),
    Array(Vec<Json>),
    Object(Vec<(String, Json)>),
}

// ---------------------------------------------------------------------------
// The canonical wire bytes of a value decode back to it.

pub proof fn lemma_le_round_trip(x: nat, w: nat)
    requires
        x < pow256(w),
    ensures
        le_value(le_bytes(x, w)) == x,
    decreases w,
{
    if w > 0 {
        assert(x / 256 < pow256((w - 1) as nat)) by (nonlinear_arith)
            requires
                x < pow256(w),
                pow256(w) == 256 * pow256((w - 1) as nat),
        ;
        lemma_le_round_trip(x / 256, (w - 1) as nat);
        assert(le_bytes(x, w).drop_first() =~= le_bytes(x / 256, (w - 1) as nat));
    }
}

pub proof fn lemma_words_round_trip(c: Seq<nat>, w: nat, s: Seq<u8>, p: int)
    requires
        0 <= p,
        p + words_le(c, w).len() <= s.len(),
        s.subrange(p, p + words_le(c, w).len()) == words_le(c, w),
        forall|i: int| 0 <= i < c.len() ==> #[trigger] c[i] < pow256(w),
    ensures
        parse_words(s, p, c.len(), w) == Ok::<(Seq<nat>, int), AnimXError>(
            (c, p + words_le(c, w).len()),
        ),
    decreases c.len(),
{
    if c.len() > 0 {
        let front = words_le(c.drop_last(), w);
        let last = le_bytes(c.last(), w);
        lemma_le_bytes_len(c.last(), w);
        assert(words_le(c, w) == front + last);
        assert(s.subrange(p, p + front.len()) =~= front) by {
            assert forall|i: int| 0 <= i < front.len() implies s.subrange(p, p + front.len())[i]
                == front[i] by {
                assert(s.subrange(p, p + words_le(c, w).len())[i] == words_le(c, w)[i]);
            }
        }
        assert(c.drop_last().len() == (c.len() - 1) as nat);
        lemma_words_round_trip(c.drop_last(), w, s, p);
        let q = p + front.len();
        assert(s.subrange(p + front.len(), p + front.len() + w) =~= last) by {
            assert forall|i: int| 0 <= i < w implies s.subrange(p + front.len(), p + front.len() + w)[i]
                == last[i] by {
                assert(s.subrange(p, p + words_le(c, w).len())[front.len() + i] == words_le(c, w)[front.len() + i]);
            }
        }
        lemma_le_round_trip(c.last(), w);
        assert(parse_bytes(s, q, w) == Ok::<(Seq<u8>, int), AnimXError>((last, q + w)));
        assert(parse_le(s, q, w) == Ok::<(nat, int), AnimXError>((c.last(), q + w)));
        assert(c.drop_last().push(c.last()) =~= c);
        let n = c.len();
        assert(parse_words(s, p, (n - 1) as nat, w) == Ok::<(Seq<nat>, int), AnimXError>(
            (c.drop_last(), q),
        ));
        assert(words_le(c, w).len() == front.len() + w);
        assert(parse_words(s, p, n, w) == Ok::<(Seq<nat>, int), AnimXError>(
            (c.drop_last().push(c.last()), q + w),
        ));
    } else {
        assert(c =~= Seq::<nat>::empty());
    }
}

/// A value that its kind can hold.
pub open spec fn value_valid(v: ValueView) -> bool {
    if v.kind is OptString {
        v.comps == Seq::<nat>::empty() && encode_utf8(v.text).len() <= u64::MAX
    } else {
        &&& v.text == Seq::<char>::empty()
        &&& v.comps.len() == value_count(v.kind)
        &&& if v.kind is Bool || is_bool_pack(v.kind) {
            forall|i: int| 0 <= i < v.comps.len() ==> #[trigger] v.comps[i] <= 1
        } else {
            forall|i: int| 0 <= i < v.comps.len() ==> #[trigger] v.comps[i] < pow256(
                value_width(v.kind),
            )
        }
    }
}

/// Reading the bytes of a value that its kind can hold gives that value back.
pub proof fn lemma_value_round_trip(v: ValueView)
    requires
        value_valid(v),
    ensures
        parse_value(value_bytes(v), 0, v.kind) == Ok::<(ValueView, int), AnimXError>(
            (v, value_bytes(v).len() as int),
        ),
{
    let s = value_bytes(v);
    let k = v.kind;
    if k is Bool {
        assert(seq![if s[0] != 0 { 1nat } else { 0nat }] =~= v.comps);
        assert(numbers(k, v.comps) == v);
    } else if is_bool_pack(k) {
        let b = s[0];
        assert(unpack_bits(b, value_count(k)) =~= v.comps);
        assert(numbers(k, v.comps) == v);
    } else if k is OptString {
        if v.text.len() == 0 {
            assert(s == seq![0u8]);
            assert(v.comps =~= seq![]);
            assert(v.text =~= seq![]);
        } else {
            let t = v.text;
            let e = encode_utf8(t);
            let vb = varint_bytes(e.len());
            assert(s == seq![1u8] + vb + e);
            lemma_varint_bytes_len(e.len());
            assert(s.subrange(1, 1 + vb.len() as int) =~= vb);
            lemma_parse_varint_bytes(e.len(), s, 1, 0, 1);
            assert(s.subrange(1 + vb.len() as int, 1 + vb.len() + e.len() as int) =~= e);
            encode_utf8_valid_utf8(t);
            encode_utf8_decode_utf8(t);
        }
    } else {
        assert(s.subrange(0, s.len() as int) =~= s);
        lemma_words_round_trip(v.comps, value_width(k), s, 0);
        assert(numbers(k, v.comps) == v);
    }
}


} // verus!

verus! {

// ---------------------------------------------------------------------------
// Values in a document.

/// The first member of `m` from index `i` on named `key`.
pub open spec fn member_from(m: Seq<(String, Json)>, key: Seq<char>, i: int) -> Option<Json>
    decreases m.len() - i,
{
    if i < 0 || i >= m.len() {
        None
    } else if m[i].0@ == key {
        Some(m[i].1)
    } else {
        member_from(m, key, i + 1)
    }
}

/// The first member of `m` named `key`.
pub open spec fn member(m: Seq<(String, Json)>, key: Seq<char>) -> Option<Json> {
    member_from(m, key, 0)
}

/// The kind of each component of a kind.
pub open spec fn component_kind(k: ValueType) -> ValueType {
    match k {
        ValueType::Bool2 | ValueType::Bool3 | ValueType::Bool4 => ValueType::Bool,
        ValueType::Int2 | ValueType::Int3 | ValueType::Int4 => ValueType::Int,
        ValueType::Uint2 | ValueType::Uint3 | ValueType::Uint4 => ValueType::Uint,
        ValueType::Long2 | ValueType::Long3 | ValueType::Long4 => ValueType::Long,
        ValueType::Float2 | ValueType::Float3 | ValueType::Float4 | ValueType::FloatQ
        | ValueType::Float2x2 | ValueType::Float3x3 | ValueType::Float4x4
        | ValueType::Color => ValueType::Float,
        ValueType::Double2 | ValueType::Double3 | ValueType::Double4 | ValueType::DoubleQ
        | ValueType::Double2x2 | ValueType::Double3x3 | ValueType::Double4x4 => ValueType::Double,
        ValueType::Color32 => ValueType::Byte,
        _ => k,
    }
}

/// The side of a square matrix kind, 0 for other kinds.
pub open spec fn matrix_size(k: ValueType) -> nat {
    match k {
        ValueType::Float2x2 | ValueType::Double2x2 => 2,
        ValueType::Float3x3 | ValueType::Double3x3 => 3,
        ValueType::Float4x4 | ValueType::Double4x4 => 4,
        _ => 0,
    }
}

/// The member name of component `i` of a vector, quaternion or color kind.
pub open spec fn component_name(k: ValueType, i: int) -> Seq<char> {
    if k is Color || k is Color32 {
        if i == 0 { "r"@ } else if i == 1 { "g"@ } else if i == 2 { "b"@ } else { "a"@ }
    } else {
        if i == 0 { "x"@ } else if i == 1 { "y"@ } else if i == 2 { "z"@ } else { "w"@ }
    }
}

/// An integer within `lo..=hi`, as its `w`-byte two's-complement pattern.
pub open spec fn int_bits(n: JsonNumber, lo: int, hi: int, w: nat) -> Option<nat> {
    match n.integer {
        Some(x) => if lo <= x <= hi {
            Some(if x < 0 { (x + pow256(w)) as nat } else { x as nat })
        } else {
            None
        },
        None => None,
    }
}

/// One component of scalar kind `c` read from a document node.
pub open spec fn component_of(j: Json, c: ValueType) -> Option<nat> {
    match j {
        Json::Bool(b) => if c is Bool { Some(if b { 1nat } else { 0nat }) } else { None },
        Json::Number(n) => match c {
            ValueType::Float => Some(n.f32_bits as nat),
            ValueType::Double => Some(n.f64_bits as nat),
            ValueType::Byte => int_bits(n, 0, 255, 1),
            ValueType::Ushort => int_bits(n, 0, 65535, 2),
            ValueType::Ulong => int_bits(n, 0, 0xffff_ffff_ffff_ffff, 8),
            ValueType::Sbyte => int_bits(n, -128, 127, 1),
            ValueType::Short => int_bits(n, -32768, 32767, 2),
            ValueType::Int => int_bits(n, -0x8000_0000, 0x7fff_ffff, 4),
            ValueType::Uint => int_bits(n, 0, 0xffff_ffff, 4),
            ValueType::Long => int_bits(n, -0x8000_0000_0000_0000, 0x7fff_ffff_ffff_ffff, 8),
            _ => None,
        },
        _ => None,
    }
}

/// The first `n` named components of a vector, quaternion or color kind `k`.
pub open spec fn object_components(m: Seq<(String, Json)>, k: ValueType, n: nat) -> Option<
    Seq<nat>,
>
    decreases n,
{
    if n == 0 {
        Some(seq![])
    } else {
        match object_components(m, k, (n - 1) as nat) {
            None => None,
            Some(cs) => match member(m, component_name(k, n - 1)) {
                None => None,
                Some(x) => match component_of(x, component_kind(k)) {
                    None => None,
                    Some(c) => Some(cs.push(c)),
                },
            },
        }
    }
}

/// The first `n` entries of an array, each a component of scalar kind `c`.
pub open spec fn array_components(v: Seq<Json>, c: ValueType, n: nat) -> Option<Seq<nat>>
    decreases n,
{
    if n == 0 {
        Some(seq![])
    } else {
        match array_components(v, c, (n - 1) as nat) {
            None => None,
            Some(cs) => match component_of(v[n - 1], c) {
                None => None,
                Some(x) => Some(cs.push(x)),
            },
        }
    }
}

/// One matrix row: an array of exactly `size` components.
pub open spec fn row_components(j: Json, c: ValueType, size: nat) -> Option<Seq<nat>> {
    match j {
        Json::Array(v) => if v@.len() == size {
            array_components(v@, c, size)
        } else {
            None
        },
        _ => None,
    }
}

/// The first `r` rows of a matrix, row-major.
pub open spec fn matrix_components(rows: Seq<Json>, c: ValueType, size: nat, r: nat) -> Option<
    Seq<nat>,
>
    decreases r,
{
    if r == 0 {
        Some(seq![])
    } else {
        match matrix_components(rows, c, size, (r - 1) as nat) {
            None => None,
            Some(cs) => match row_components(rows[r - 1], c, size) {
                None => None,
                Some(rc) => Some(cs + rc),
            },
        }
    }
}

/// The components of a value of non-string kind `k` in a document node.
pub open spec fn document_components(j: Json, k: ValueType) -> Option<Seq<nat>> {
    if matrix_size(k) > 0 {
        match j {
            Json::Array(rows) => if rows@.len() == matrix_size(k) {
                matrix_components(rows@, component_kind(k), matrix_size(k), matrix_size(k))
            } else {
                None
            },
            _ => None,
        }
    } else if value_count(k) == 1 {
        match component_of(j, k) {
            Some(c) => Some(seq![c]),
            None => None,
        }
    } else {
        match j {
            Json::Object(m) => object_components(m@, k, value_count(k)),
            _ => None,
        }
    }
}

/// The value of kind `k` that a document node holds, if it holds one.
pub open spec fn document_value(j: Json, k: ValueType) -> Option<ValueView> {
    if k is OptString {
        match j {
            Json::Str(s) => Some(ValueView { kind: k, comps: seq![], text: s@ }),
            _ => None,
        }
    } else {
        match document_components(j, k) {
            Some(cs) => Some(numbers(k, cs)),
            None => None,
        }
    }
}

} // verus!

verus! {

/// The first member of `m` named `key`.
pub fn get_member<'a>(m: &'a Vec<(String, Json)>, key: &String) -> (r: Option<&'a Json>)
    ensures
        match member(m@, key@) {
            Some(x) => r is Some && *r->0 == x,
            None => r is None,
        },
{
    let mut i: usize = 0;
    while i < m.len()
        invariant
            i <= m@.len(),
            member(m@, key@) == member_from(m@, key@, i as int),
        decreases m@.len() - i,
    {
        if m[i].0 == *key {
            return Some(&m[i].1);
        }
        i = i + 1;
    }
    None
}

fn int_bits_of(n: &JsonNumber, lo: i128, hi: i128, w: usize, modulus: i128) -> (r: Option<u64>)
    requires
        1 <= w <= 8,
        modulus == pow256(w as nat),
        -modulus <= lo <= 0 <= hi < modulus,
    ensures
        r is Some <==> int_bits(*n, lo as int, hi as int, w as nat) is Some,
        r is Some ==> r->0 as nat == int_bits(*n, lo as int, hi as int, w as nat)->0,
        r is Some ==> (r->0 as nat) < pow256(w as nat),
{
    proof {
        lemma_pow256_bound(w as nat);
    }
    match n.integer {
        Some(x) => if lo <= x && x <= hi {
            if x < 0 {
                Some((x + modulus) as u64)
            } else {
                Some(x as u64)
            }
        } else {
            None
        },
        None => None,
    }
}

/// A component of scalar kind `c` in range: a flag is 0 or 1, any other
/// component fits in the kind's width.
pub open spec fn component_ok(x: nat, c: ValueType) -> bool {
    if c is Bool {
        x <= 1
    } else {
        x < pow256(value_width(c))
    }
}

/// One component of scalar kind `c` read from a document node.
fn get_component(j: &Json, c: ValueType) -> (r: Option<u64>)
    ensures
        r is Some <==> component_of(*j, c) is Some,
        r is Some ==> r->0 as nat == component_of(*j, c)->0 && component_ok(r->0 as nat, c),
{
    proof {
        lemma_pow256_bound(4);
        lemma_pow256_bound(8);
    }
    match j {
        Json::Bool(b) => match c {
            ValueType::Bool => Some(if *b { 1 } else { 0 }),
            _ => None,
        },
        Json::Number(n) => match c {
            ValueType::Float => Some(n.f32_bits as u64),
            ValueType::Double => Some(n.f64_bits),
            ValueType::Byte => int_bits_of(n, 0, 255, 1, 256),
            ValueType::Ushort => int_bits_of(n, 0, 65535, 2, 0x1_0000),
            ValueType::Ulong => int_bits_of(n, 0, 0xffff_ffff_ffff_ffff, 8, 0x1_0000_0000_0000_0000),
            ValueType::Sbyte => int_bits_of(n, -128, 127, 1, 256),
            ValueType::Short => int_bits_of(n, -32768, 32767, 2, 0x1_0000),
            ValueType::Int => int_bits_of(n, -0x8000_0000, 0x7fff_ffff, 4, 0x1_0000_0000),
            ValueType::Uint => int_bits_of(n, 0, 0xffff_ffff, 4, 0x1_0000_0000),
            ValueType::Long => int_bits_of(
                n,
                -0x8000_0000_0000_0000,
                0x7fff_ffff_ffff_ffff,
                8,
                0x1_0000_0000_0000_0000,
            ),
            _ => None,
        },
        _ => None,
    }
}

proof fn lemma_array_none(v: Seq<Json>, c: ValueType, i: nat, n: nat)
    requires
        i <= n,
        array_components(v, c, i) is None,
    ensures
        array_components(v, c, n) is None,
    decreases n - i,
{
    if i < n {
        lemma_array_none(v, c, i, (n - 1) as nat);
    }
}

proof fn lemma_object_none(m: Seq<(String, Json)>, k: ValueType, i: nat, n: nat)
    requires
        i <= n,
        object_components(m, k, i) is None,
    ensures
        object_components(m, k, n) is None,
    decreases n - i,
{
    if i < n {
        lemma_object_none(m, k, i, (n - 1) as nat);
    }
}

proof fn lemma_matrix_none(rows: Seq<Json>, c: ValueType, size: nat, i: nat, n: nat)
    requires
        i <= n,
        matrix_components(rows, c, size, i) is None,
    ensures
        matrix_components(rows, c, size, n) is None,
    decreases n - i,
{
    if i < n {
        lemma_matrix_none(rows, c, size, i, (n - 1) as nat);
    }
}

fn get_array_components(v: &Vec<Json>, c: ValueType, n: usize) -> (r: Option<Vec<u64>>)
    requires
        n <= v@.len(),
    ensures
        r is Some <==> array_components(v@, c, n as nat) is Some,
        r is Some ==> r->0@.map_values(|x: u64| x as nat) == array_components(v@, c, n as nat)->0,
        r is Some ==> forall|i: int| 0 <= i < n ==> component_ok(#[trigger] r->0@[i] as nat, c),
        r is Some ==> r->0@.len() == n,
{
    let mut out: Vec<u64> = Vec::new();
    let mut i: usize = 0;
    assert(out@.map_values(|x: u64| x as nat) =~= Seq::<nat>::empty());
    while i < n
        invariant
            i <= n <= v@.len(),
            out@.len() == i,
            array_components(v@, c, i as nat) == Some(out@.map_values(|x: u64| x as nat)),
            forall|j: int| 0 <= j < i ==> component_ok(#[trigger] out@[j] as nat, c),
        decreases n - i,
    {
        match get_component(&v[i], c) {
            Some(x) => {
                let ghost before = out@;
                out.push(x);
                assert(out@.map_values(|x: u64| x as nat) =~= before.map_values(|x: u64| x as nat).push(x as nat));
            },
            None => {
                proof {
                    lemma_array_none(v@, c, (i + 1) as nat, n as nat);
                }
                return None;
            },
        }
        i = i + 1;
    }
    Some(out)
}

/// The member name of component `i` of a vector, quaternion or color kind.
fn get_component_name(k: ValueType, i: usize) -> (r: String)
    ensures
        r@ == component_name(k, i as int),
{
    match k {
        ValueType::Color | ValueType::Color32 => {
            if i == 0 {
                "r".to_owned()
            } else if i == 1 {
                "g".to_owned()
            } else if i == 2 {
                "b".to_owned()
            } else {
                "a".to_owned()
            }
        },
        _ => {
            if i == 0 {
                "x".to_owned()
            } else if i == 1 {
                "y".to_owned()
            } else if i == 2 {
                "z".to_owned()
            } else {
                "w".to_owned()
            }
        },
    }
}

fn get_component_kind(k: ValueType) -> (r: ValueType)
    ensures
        r == component_kind(k),
{
    match k {
        ValueType::Bool2 | ValueType::Bool3 | ValueType::Bool4 => ValueType::Bool,
        ValueType::Int2 | ValueType::Int3 | ValueType::Int4 => ValueType::Int,
        ValueType::Uint2 | ValueType::Uint3 | ValueType::Uint4 => ValueType::Uint,
        ValueType::Long2 | ValueType::Long3 | ValueType::Long4 => ValueType::Long,
        ValueType::Float2 | ValueType::Float3 | ValueType::Float4 | ValueType::FloatQ
        | ValueType::Float2x2 | ValueType::Float3x3 | ValueType::Float4x4
        | ValueType::Color => ValueType::Float,
        ValueType::Double2 | ValueType::Double3 | ValueType::Double4 | ValueType::DoubleQ
        | ValueType::Double2x2 | ValueType::Double3x3 | ValueType::Double4x4 => ValueType::Double,
        ValueType::Color32 => ValueType::Byte,
        _ => k,
    }
}

fn get_object_components(m: &Vec<(String, Json)>, k: ValueType, n: usize) -> (r: Option<Vec<u64>>)
    ensures
        r is Some <==> object_components(m@, k, n as nat) is Some,
        r is Some ==> r->0@.map_values(|x: u64| x as nat) == object_components(m@, k, n as nat)->0,
        r is Some ==> forall|i: int| 0 <= i < n ==> component_ok(#[trigger] r->0@[i] as nat, component_kind(k)),
        r is Some ==> r->0@.len() == n,
{
    let c = get_component_kind(k);
    let mut out: Vec<u64> = Vec::new();
    let mut i: usize = 0;
    assert(out@.map_values(|x: u64| x as nat) =~= Seq::<nat>::empty());
    while i < n
        invariant
            i <= n,
            c == component_kind(k),
            out@.len() == i,
            object_components(m@, k, i as nat) == Some(out@.map_values(|x: u64| x as nat)),
            forall|j: int| 0 <= j < i ==> component_ok(#[trigger] out@[j] as nat, c),
        decreases n - i,
    {
        let name = get_component_name(k, i);
        let x = match get_member(m, &name) {
            Some(node) => get_component(node, c),
            None => None,
        };
        match x {
            Some(x) => {
                let ghost before = out@;
                out.push(x);
                assert(out@.map_values(|x: u64| x as nat) =~= before.map_values(|x: u64| x as nat).push(x as nat));
            },
            None => {
                proof {
                    lemma_object_none(m@, k, (i + 1) as nat, n as nat);
                }
                return None;
            },
        }
        i = i + 1;
    }
    Some(out)
}

fn get_matrix_components(rows: &Vec<Json>, c: ValueType, size: usize) -> (r: Option<Vec<u64>>)
    requires
        size <= rows@.len(),
        size <= 4,
    ensures
        r is Some <==> matrix_components(rows@, c, size as nat, size as nat) is Some,
        r is Some ==> r->0@.map_values(|x: u64| x as nat) == matrix_components(rows@, c, size as nat, size as nat)->0,
        r is Some ==> forall|i: int| 0 <= i < r->0@.len() ==> component_ok(#[trigger] r->0@[i] as nat, c),
        r is Some ==> r->0@.len() == size * size,
{
    let mut out: Vec<u64> = Vec::new();
    let mut i: usize = 0;
    assert(out@.map_values(|x: u64| x as nat) =~= Seq::<nat>::empty());
    while i < size
        invariant
            i <= size <= rows@.len(),
            size <= 4,
            out@.len() == i * size,
            matrix_components(rows@, c, size as nat, i as nat) == Some(out@.map_values(|x: u64| x as nat)),
            forall|j: int| 0 <= j < out@.len() ==> component_ok(#[trigger] out@[j] as nat, c),
        decreases size - i,
    {
        let row = match &rows[i] {
            Json::Array(v) => if v.len() == size {
                get_array_components(v, c, size)
            } else {
                None
            },
            _ => None,
        };
        match row {
            Some(mut rc) => {
                let ghost before = out@;
                let ghost added = rc@;
                out.append(&mut rc);
                assert(out@.map_values(|x: u64| x as nat) =~= before.map_values(|x: u64| x as nat) + added.map_values(|x: u64| x as nat));
                assert forall|j: int| 0 <= j < out@.len() implies component_ok(#[trigger] out@[j] as nat, c) by {
                    if j >= before.len() {
                        assert(out@[j] == added[j - before.len()]);
                    } else {
                        assert(out@[j] == before[j]);
                    }
                }
                assert((i + 1) * size == i * size + size) by (nonlinear_arith);
            },
            None => {
                proof {
                    lemma_matrix_none(rows@, c, size as nat, (i + 1) as nat, size as nat);
                }
                return None;
            },
        }
        i = i + 1;
    }
    Some(out)
}

} // verus!

verus! {

fn get_matrix_size(k: ValueType) -> (r: usize)
    ensures
        r == matrix_size(k),
{
    match k {
        ValueType::Float2x2 | ValueType::Double2x2 => 2,
        ValueType::Float3x3 | ValueType::Double3x3 => 3,
        ValueType::Float4x4 | ValueType::Double4x4 => 4,
        _ => 0,
    }
}

fn get_value_count(k: ValueType) -> (r: usize)
    ensures
        r == value_count(k),
{
    match k {
        ValueType::OptString => 0,
        ValueType::Bool2 | ValueType::Int2 | ValueType::Uint2 | ValueType::Long2
        | ValueType::Float2 | ValueType::Double2 => 2,
        ValueType::Bool3 | ValueType::Int3 | ValueType::Uint3 | ValueType::Long3
        | ValueType::Float3 | ValueType::Double3 => 3,
        ValueType::Float3x3 | ValueType::Double3x3 => 9,
        ValueType::Bool4 | ValueType::Int4 | ValueType::Uint4 | ValueType::Long4
        | ValueType::Float4 | ValueType::Double4 | ValueType::FloatQ | ValueType::DoubleQ
        | ValueType::Color | ValueType::Color32 | ValueType::Float2x2
        | ValueType::Double2x2 => 4,
        ValueType::Float4x4 | ValueType::Double4x4 => 16,
        _ => 1,
    }
}

fn get_value_width(k: ValueType) -> (r: usize)
    ensures
        r == value_width(k),
{
    match k {
        ValueType::OptString => 0,
        ValueType::Byte | ValueType::Sbyte | ValueType::Bool | ValueType::Bool2
        | ValueType::Bool3 | ValueType::Bool4 | ValueType::Color32 => 1,
        ValueType::Ushort | ValueType::Short => 2,
        ValueType::Ulong | ValueType::Long | ValueType::Long2 | ValueType::Long3
        | ValueType::Long4 | ValueType::Double | ValueType::Double2 | ValueType::Double3
        | ValueType::Double4 | ValueType::DoubleQ | ValueType::Double2x2
        | ValueType::Double3x3 | ValueType::Double4x4 => 8,
        _ => 4,
    }
}

fn get_document_components(j: &Json, k: ValueType) -> (r: Option<Vec<u64>>)
    requires
        !(k is OptString),
    ensures
        r is Some <==> document_components(*j, k) is Some,
        r is Some ==> r->0@.map_values(|x: u64| x as nat) == document_components(*j, k)->0,
        r is Some ==> r->0@.len() == value_count(k),
        r is Some ==> forall|i: int|
            0 <= i < r->0@.len() ==> component_ok(#[trigger] r->0@[i] as nat, component_kind(k)),
{
    let size = get_matrix_size(k);
    if size > 0 {
        match j {
            Json::Array(rows) => if rows.len() == size {
                get_matrix_components(rows, get_component_kind(k), size)
            } else {
                None
            },
            _ => None,
        }
    } else {
        let n = get_value_count(k);
        if n == 1 {
            match get_component(j, k) {
                Some(c) => {
                    let out = vec![c];
                    assert(out@.map_values(|x: u64| x as nat) =~= seq![c as nat]);
                    Some(out)
                },
                None => None,
            }
        } else {
            match j {
                Json::Object(m) => get_object_components(m, k, n),
                _ => None,
            }
        }
    }
}

fn emit_components(out: &mut Vec<u8>, k: ValueType, cs: &Vec<u64>)
    requires
        !(k is OptString),
        cs@.len() == value_count(k),
        forall|i: int| 0 <= i < cs@.len() ==> component_ok(#[trigger] cs@[i] as nat, component_kind(k)),
    ensures
        final(out)@ == old(out)@ + value_bytes(numbers(k, cs@.map_values(|x: u64| x as nat))),
{
    let ghost comps = cs@.map_values(|x: u64| x as nat);
    match k {
        ValueType::Bool => {
            assert(component_ok(cs@[0] as nat, ValueType::Bool));
            out.push(cs[0] as u8);
        },
        ValueType::Bool2 | ValueType::Bool3 | ValueType::Bool4 => {
            let n = cs.len();
            assert(component_ok(cs@[0] as nat, ValueType::Bool));
            assert(component_ok(cs@[1] as nat, ValueType::Bool));
            let mut b: u64 = cs[0] + 2 * cs[1];
            if n > 2 {
                assert(component_ok(cs@[2] as nat, ValueType::Bool));
                b = b + 4 * cs[2];
            }
            if n > 3 {
                assert(component_ok(cs@[3] as nat, ValueType::Bool));
                b = b + 8 * cs[3];
            }
            assert(b == pack_bits(comps));
            out.push(b as u8);
        },
        _ => {
            let w = get_value_width(k);
            let mut i: usize = 0;
            assert(comps.subrange(0, 0) =~= Seq::<nat>::empty());
            while i < cs.len()
                invariant
                    i <= cs@.len(),
                    w == value_width(k),
                    comps == cs@.map_values(|x: u64| x as nat),
                    out@ == old(out)@ + words_le(comps.subrange(0, i as int), w as nat),
                decreases cs@.len() - i,
            {
                push_le(out, cs[i], w);
                assert(comps.subrange(0, i + 1).drop_last() =~= comps.subrange(0, i as int));
                i = i + 1;
            }
            assert(comps.subrange(0, cs@.len() as int) =~= comps);
        },
    }
}

/// The value of kind `k` that a document node holds, if it holds one.
pub fn read_document_value(j: &Json, k: ValueType) -> (r: Option<Value>)
    ensures
        r is Some <==> document_value(*j, k) is Some,
        r is Some ==> r->0@ == document_value(*j, k)->0,
{
    match k {
        ValueType::OptString => match j {
            Json::Str(s) => Some(Value::OptString(crate::types::OptString(s.clone()))),
            _ => None,
        },
        _ => {
            let cs = match get_document_components(j, k) {
                Some(cs) => cs,
                None => return None,
            };
            let mut bytes: Vec<u8> = Vec::new();
            emit_components(&mut bytes, k, &cs);
            let ghost v = numbers(k, cs@.map_values(|x: u64| x as nat));
            proof {
                assert(bytes@ =~= value_bytes(v));
                lemma_pow256_bound(1);
                lemma_pow256_bound(2);
                lemma_pow256_bound(4);
                lemma_pow256_bound(8);
                assert(value_width(component_kind(k)) == value_width(k));
                assert forall|i: int| 0 <= i < v.comps.len() implies if k is Bool || is_bool_pack(k) {
                    #[trigger] v.comps[i] <= 1
                } else {
                    v.comps[i] < pow256(value_width(k))
                } by {
                    assert(component_ok(cs@[i] as nat, component_kind(k)));
                }
                assert(value_valid(v));
                lemma_value_round_trip(v);
            }
            let mut reader = AnimXReader::new(bytes);
            match reader.read_value(k) {
                Ok(x) => Some(x),
                Err(_) => None,
            }
        },
    }
}

} // verus!

verus! {

/// The value kind a document names: the kind's name in lower case, `string` for
/// the nullable string.
pub open spec fn value_type_named(s: Seq<char>) -> Option<ValueType> {
    if s == "byte"@ {
        Some(ValueType::Byte)
    } else if s == "ushort"@ {
        Some(ValueType::Ushort)
    } else if s == "ulong"@ {
        Some(ValueType::Ulong)
    } else if s == "sbyte"@ {
        Some(ValueType::Sbyte)
    } else if s == "short"@ {
        Some(ValueType::Short)
    } else if s == "bool"@ {
        Some(ValueType::Bool)
    } else if s == "bool2"@ {
        Some(ValueType::Bool2)
    } else if s == "bool3"@ {
        Some(ValueType::Bool3)
    } else if s == "bool4"@ {
        Some(ValueType::Bool4)
    } else if s == "int"@ {
        Some(ValueType::Int)
    } else if s == "int2"@ {
        Some(ValueType::Int2)
    } else if s == "int3"@ {
        Some(ValueType::Int3)
    } else if s == "int4"@ {
        Some(ValueType::Int4)
    } else if s == "uint"@ {
        Some(ValueType::Uint)
    } else if s == "uint2"@ {
        Some(ValueType::Uint2)
    } else if s == "uint3"@ {
        Some(ValueType::Uint3)
    } else if s == "uint4"@ {
        Some(ValueType::Uint4)
    } else if s == "long"@ {
        Some(ValueType::Long)
    } else if s == "long2"@ {
        Some(ValueType::Long2)
    } else if s == "long3"@ {
        Some(ValueType::Long3)
    } else if s == "long4"@ {
        Some(ValueType::Long4)
    } else if s == "float"@ {
        Some(ValueType::Float)
    } else if s == "float2"@ {
        Some(ValueType::Float2)
    } else if s == "float3"@ {
        Some(ValueType::Float3)
    } else if s == "float4"@ {
        Some(ValueType::Float4)
    } else if s == "floatq"@ {
        Some(ValueType::FloatQ)
    } else if s == "float2x2"@ {
        Some(ValueType::Float2x2)
    } else if s == "float3x3"@ {
        Some(ValueType::Float3x3)
    } else if s == "float4x4"@ {
        Some(ValueType::Float4x4)
    } else if s == "double"@ {
        Some(ValueType::Double)
    } else if s == "double2"@ {
        Some(ValueType::Double2)
    } else if s == "double3"@ {
        Some(ValueType::Double3)
    } else if s == "double4"@ {
        Some(ValueType::Double4)
    } else if s == "doubleq"@ {
        Some(ValueType::DoubleQ)
    } else if s == "double2x2"@ {
        Some(ValueType::Double2x2)
    } else if s == "double3x3"@ {
        Some(ValueType::Double3x3)
    } else if s == "double4x4"@ {
        Some(ValueType::Double4x4)
    } else if s == "color"@ {
        Some(ValueType::Color)
    } else if s == "color32"@ {
        Some(ValueType::Color32)
    } else if s == "string"@ {
        Some(ValueType::OptString)
    } else {
        None
    }
}

/// The value kind a document names.
pub fn value_type_from_name(s: &String) -> (r: Option<ValueType>)
    ensures
        r == value_type_named(s@),
{
    if *s == "byte".to_owned() {
        Some(ValueType::Byte)
    } else if *s == "ushort".to_owned() {
        Some(ValueType::Ushort)
    } else if *s == "ulong".to_owned() {
        Some(ValueType::Ulong)
    } else if *s == "sbyte".to_owned() {
        Some(ValueType::Sbyte)
    } else if *s == "short".to_owned() {
        Some(ValueType::Short)
    } else if *s == "bool".to_owned() {
        Some(ValueType::Bool)
    } else if *s == "bool2".to_owned() {
        Some(ValueType::Bool2)
    } else if *s == "bool3".to_owned() {
        Some(ValueType::Bool3)
    } else if *s == "bool4".to_owned() {
        Some(ValueType::Bool4)
    } else if *s == "int".to_owned() {
        Some(ValueType::Int)
    } else if *s == "int2".to_owned() {
        Some(ValueType::Int2)
    } else if *s == "int3".to_owned() {
        Some(ValueType::Int3)
    } else if *s == "int4".to_owned() {
        Some(ValueType::Int4)
    } else if *s == "uint".to_owned() {
        Some(ValueType::Uint)
    } else if *s == "uint2".to_owned() {
        Some(ValueType::Uint2)
    } else if *s == "uint3".to_owned() {
        Some(ValueType::Uint3)
    } else if *s == "uint4".to_owned() {
        Some(ValueType::Uint4)
    } else if *s == "long".to_owned() {
        Some(ValueType::Long)
    } else if *s == "long2".to_owned() {
        Some(ValueType::Long2)
    } else if *s == "long3".to_owned() {
        Some(ValueType::Long3)
    } else if *s == "long4".to_owned() {
        Some(ValueType::Long4)
    } else if *s == "float".to_owned() {
        Some(ValueType::Float)
    } else if *s == "float2".to_owned() {
        Some(ValueType::Float2)
    } else if *s == "float3".to_owned() {
        Some(ValueType::Float3)
    } else if *s == "float4".to_owned() {
        Some(ValueType::Float4)
    } else if *s == "floatq".to_owned() {
        Some(ValueType::FloatQ)
    } else if *s == "float2x2".to_owned() {
        Some(ValueType::Float2x2)
    } else if *s == "float3x3".to_owned() {
        Some(ValueType::Float3x3)
    } else if *s == "float4x4".to_owned() {
        Some(ValueType::Float4x4)
    } else if *s == "double".to_owned() {
        Some(ValueType::Double)
    } else if *s == "double2".to_owned() {
        Some(ValueType::Double2)
    } else if *s == "double3".to_owned() {
        Some(ValueType::Double3)
    } else if *s == "double4".to_owned() {
        Some(ValueType::Double4)
    } else if *s == "doubleq".to_owned() {
        Some(ValueType::DoubleQ)
    } else if *s == "double2x2".to_owned() {
        Some(ValueType::Double2x2)
    } else if *s == "double3x3".to_owned() {
        Some(ValueType::Double3x3)
    } else if *s == "double4x4".to_owned() {
        Some(ValueType::Double4x4)
    } else if *s == "color".to_owned() {
        Some(ValueType::Color)
    } else if *s == "color32".to_owned() {
        Some(ValueType::Color32)
    } else if *s == "string".to_owned() {
        Some(ValueType::OptString)
    } else {
        None
    }
}

/// Why a document does not describe an animation.
pub enum DocFail {
    /// A field is missing or has the wrong shape; holds the field name.
    Field(Seq<char>),
    /// A track kind that has no implemented body.
    Unimplemented,
}

/// The library error that stands for a document failure.
pub open spec fn fails_as(e: AnimXError, f: DocFail) -> bool {
    match f {
        DocFail::Field(n) => e is StructuralError && e->StructuralError_0@ == n,
        DocFail::Unimplemented => e is Unimplemented,
    }
}

pub open spec fn track_type_named(s: Seq<char>) -> Option<TrackType> {
    if s == "Raw"@ {
        Some(TrackType::Raw)
    } else if s == "Discrete"@ {
        Some(TrackType::Discrete)
    } else if s == "Curve"@ {
        Some(TrackType::Curve)
    } else if s == "Bezier"@ {
        Some(TrackType::Bezier)
    } else {
        None
    }
}

pub open spec fn interpolation_named(s: Seq<char>) -> Option<Interpolation> {
    if s == "Hold"@ {
        Some(Interpolation::Hold)
    } else if s == "Linear"@ {
        Some(Interpolation::Linear)
    } else if s == "Tangent"@ {
        Some(Interpolation::Tangent)
    } else if s == "CubicBezier"@ {
        Some(Interpolation::CubicBezier)
    } else {
        None
    }
}

/// An optional string member: absent or null is `None`.
pub open spec fn opt_text_member(m: Seq<(String, Json)>, key: Seq<char>) -> Result<
    Option<Seq<char>>,
    DocFail,
> {
    match member(m, key) {
        None => Ok(None),
        Some(Json::Null) => Ok(None),
        Some(Json::Str(s)) => Ok(Some(s@)),
        _ => Err(DocFail::Field(key)),
    }
}

/// An optional float member: absent or null is `None`.
pub open spec fn opt_f32_member(m: Seq<(String, Json)>, key: Seq<char>) -> Result<
    Option<u32>,
    DocFail,
> {
    match member(m, key) {
        None => Ok(None),
        Some(Json::Null) => Ok(None),
        Some(Json::Number(n)) => Ok(Some(n.f32_bits)),
        _ => Err(DocFail::Field(key)),
    }
}

/// An optional tangent member of kind `k`: absent or null is `None`.
pub open spec fn opt_value_member(m: Seq<(String, Json)>, key: Seq<char>, k: ValueType) -> Result<
    Option<ValueView>,
    DocFail,
> {
    match member(m, key) {
        None => Ok(None),
        Some(Json::Null) => Ok(None),
        Some(x) => match document_value(x, k) {
            Some(v) => Ok(Some(v)),
            None => Err(DocFail::Field(key)),
        },
    }
}

/// The first `n` items of `items`, each read by `f`; the first failure wins.
pub open spec fn doc_many<T>(items: Seq<Json>, n: nat, f: spec_fn(Json) -> Result<T, DocFail>) -> Result<
    Seq<T>,
    DocFail,
>
    decreases n,
{
    if n == 0 {
        Ok(seq![])
    } else {
        match doc_many(items, (n - 1) as nat, f) {
            Err(e) => Err(e),
            Ok(xs) => match f(items[n - 1]) {
                Err(e) => Err(e),
                Ok(x) => Ok(xs.push(x)),
            },
        }
    }
}

pub proof fn lemma_doc_many_err<T>(
    items: Seq<Json>,
    i: nat,
    n: nat,
    f: spec_fn(Json) -> Result<T, DocFail>,
)
    requires
        i <= n,
        doc_many(items, i, f) is Err,
    ensures
        doc_many(items, n, f) == doc_many(items, i, f),
    decreases n - i,
{
    if i < n {
        lemma_doc_many_err(items, i, (n - 1) as nat, f);
    }
}

/// A sampled keyframe: a bare value.
pub open spec fn raw_item(k: ValueType) -> spec_fn(Json) -> Result<ValueView, DocFail> {
    |j: Json|
        match document_value(j, k) {
            Some(v) => Ok(v),
            None => Err(DocFail::Field("keyframes"@)),
        }
}

/// A sparse keyframe: an object with `time` and `value`.
pub open spec fn timed_keyframe(j: Json, k: ValueType) -> Result<(u32, ValueView), DocFail> {
    match j {
        Json::Object(m) => match member(m@, "time"@) {
            Some(Json::Number(t)) => match member(m@, "value"@) {
                Some(x) => match document_value(x, k) {
                    Some(v) => Ok((t.f32_bits, v)),
                    None => Err(DocFail::Field("value"@)),
                },
                None => Err(DocFail::Field("value"@)),
            },
            _ => Err(DocFail::Field("time"@)),
        },
        _ => Err(DocFail::Field("keyframes"@)),
    }
}

pub open spec fn timed_item(k: ValueType) -> spec_fn(Json) -> Result<(u32, ValueView), DocFail> {
    |j: Json| timed_keyframe(j, k)
}

/// An interpolated keyframe: `time`, `value`, `interpolation`, and optional
/// `leftTangent` and `rightTangent`.
pub open spec fn curve_keyframe(j: Json, k: ValueType) -> Result<CurveKeyframeView, DocFail> {
    match timed_keyframe(j, k) {
        Err(e) => Err(e),
        Ok((t, v)) => {
            let m = j->Object_0@;
            match member(m, "interpolation"@) {
                Some(Json::Str(s)) => match interpolation_named(s@) {
                    None => Err(DocFail::Field("interpolation"@)),
                    Some(i) => match opt_value_member(m, "leftTangent"@, k) {
                        Err(e) => Err(e),
                        Ok(l) => match opt_value_member(m, "rightTangent"@, k) {
                            Err(e) => Err(e),
                            Ok(r) => Ok(
                                CurveKeyframeView {
                                    time: t,
                                    value: v,
                                    interpolation: i,
                                    left_tangent: l,
                                    right_tangent: r,
                                },
                            ),
                        },
                    },
                },
                _ => Err(DocFail::Field("interpolation"@)),
            }
        },
    }
}

pub open spec fn curve_item(k: ValueType) -> spec_fn(Json) -> Result<CurveKeyframeView, DocFail> {
    |j: Json| curve_keyframe(j, k)
}

/// The members that hold a track's body: those of its `data` object when it
/// has one, else its own.
pub open spec fn body_members(m: Seq<(String, Json)>) -> Seq<(String, Json)> {
    match member(m, "data"@) {
        Some(Json::Object(d)) => d@,
        _ => m,
    }
}

/// The track a document node describes.
pub open spec fn document_track(j: Json) -> Result<TrackView, DocFail> {
    match j {
        Json::Object(m0) => {
            let m = m0@;
            match member(m, "trackType"@) {
                Some(Json::Str(ts)) => match track_type_named(ts@) {
                    None => Err(DocFail::Field("trackType"@)),
                    Some(t) => match member(m, "valueType"@) {
                        Some(Json::Str(vs)) => match value_type_named(vs@) {
                            None => Err(DocFail::Field("valueType"@)),
                            Some(k) => if t is Bezier {
                                Err(DocFail::Unimplemented)
                            } else {
                                document_track_body(body_members(m), t, k)
                            },
                        },
                        _ => Err(DocFail::Field("valueType"@)),
                    },
                },
                _ => Err(DocFail::Field("trackType"@)),
            }
        },
        _ => Err(DocFail::Field("tracks"@)),
    }
}

/// The body of a track of kind `t` and value kind `k`.
pub open spec fn document_track_body(b: Seq<(String, Json)>, t: TrackType, k: ValueType) -> Result<
    TrackView,
    DocFail,
> {
    match opt_text_member(b, "node"@) {
        Err(e) => Err(e),
        Ok(node) => match opt_text_member(b, "property"@) {
            Err(e) => Err(e),
            Ok(property) => match member(b, "keyframes"@) {
                Some(Json::Array(items)) => match t {
                    TrackType::Raw => match opt_f32_member(b, "interval"@) {
                        Err(e) => Err(e),
                        Ok(interval) => match doc_many(items@, items@.len(), raw_item(k)) {
                            Err(e) => Err(e),
                            Ok(vs) => Ok(
                                TrackView {
                                    value_type: k,
                                    data: TrackDataView::Raw { node, property, interval, keyframes: vs },
                                },
                            ),
                        },
                    },
                    TrackType::Discrete => match doc_many(items@, items@.len(), timed_item(k)) {
                        Err(e) => Err(e),
                        Ok(ts) => Ok(
                            TrackView {
                                value_type: k,
                                data: TrackDataView::Discrete { node, property, keyframes: ts },
                            },
                        ),
                    },
                    _ => match doc_many(items@, items@.len(), curve_item(k)) {
                        Err(e) => Err(e),
                        Ok(cs) => Ok(
                            TrackView {
                                value_type: k,
                                data: TrackDataView::Curve { node, property, keyframes: cs },
                            },
                        ),
                    },
                },
                _ => Err(DocFail::Field("keyframes"@)),
            },
        },
    }
}

pub open spec fn track_item() -> spec_fn(Json) -> Result<TrackView, DocFail> {
    |j: Json| document_track(j)
}

/// The animation so far, `acc`, updated by the members of the top-level
/// object from index `i` on. Members other than `name`, `globalDuration` and
/// `tracks` are ignored; each `tracks` member appends its tracks.
pub open spec fn document_members(m: Seq<(String, Json)>, i: int, acc: AnimationView) -> Result<
    AnimationView,
    DocFail,
>
    decreases m.len() - i,
{
    if i < 0 || i >= m.len() {
        Ok(acc)
    } else {
        let key = m[i].0@;
        let v = m[i].1;
        if key == "name"@ {
            match v {
                Json::Str(s) => document_members(
                    m,
                    i + 1,
                    AnimationView { name: Some(s@), ..acc },
                ),
                _ => Err(DocFail::Field("name"@)),
            }
        } else if key == "globalDuration"@ {
            match v {
                Json::Number(n) => document_members(
                    m,
                    i + 1,
                    AnimationView { global_duration: Some(n.f32_bits), ..acc },
                ),
                _ => Err(DocFail::Field("globalDuration"@)),
            }
        } else if key == "tracks"@ {
            match v {
                Json::Array(items) => match doc_many(items@, items@.len(), track_item()) {
                    Err(e) => Err(e),
                    Ok(ts) => document_members(
                        m,
                        i + 1,
                        AnimationView { tracks: acc.tracks + ts, ..acc },
                    ),
                },
                _ => Err(DocFail::Field("tracks"@)),
            }
        } else {
            document_members(m, i + 1, acc)
        }
    }
}

/// The animation a document describes: its top level is an object.
pub open spec fn document_animation(j: Json) -> Result<AnimationView, DocFail> {
    match j {
        Json::Object(m) => document_members(
            m@,
            0,
            AnimationView { name: None, global_duration: None, tracks: seq![] },
        ),
        _ => Err(DocFail::Field("animation"@)),
    }
}

} // verus!

verus! {

fn read_raw_items(items: &Vec<Json>, k: ValueType) -> (r: Result<Vec<Value>, AnimXError>)
    ensures
        match doc_many(items@, items@.len(), raw_item(k)) {
            Ok(xs) => r is Ok && r->Ok_0@.map_values(|x: Value| x@) == xs,
            Err(f) => r is Err && fails_as(r->Err_0, f),
        },
{
    let mut out: Vec<Value> = Vec::new();
    let mut i: usize = 0;
    assert(out@.map_values(|x: Value| x@) =~= Seq::<ValueView>::empty());
    while i < items.len()
        invariant
            i <= items@.len(),
            doc_many(items@, i as nat, raw_item(k)) == Ok::<Seq<ValueView>, DocFail>(out@.map_values(|x: Value| x@)),
        decreases items@.len() - i,
    {
        match read_raw_item(&items[i], k) {
            Ok(x) => {
                let ghost before = out@;
                let ghost xv = x@;
                out.push(x);
                assert(out@.map_values(|x: Value| x@) =~= before.map_values(|x: Value| x@).push(xv));
            },
            Err(e) => {
                proof {
                    lemma_doc_many_err(items@, (i + 1) as nat, items@.len(), raw_item(k));
                }
                return Err(e);
            },
        }
        i = i + 1;
    }
    Ok(out)
}

fn read_timed_items(items: &Vec<Json>, k: ValueType) -> (r: Result<Vec<DiscreteKeyframe>, AnimXError>)
    ensures
        match doc_many(items@, items@.len(), timed_item(k)) {
            Ok(xs) => r is Ok && r->Ok_0@.map_values(|x: DiscreteKeyframe| (x.time, x.value@)) == xs,
            Err(f) => r is Err && fails_as(r->Err_0, f),
        },
{
    let mut out: Vec<DiscreteKeyframe> = Vec::new();
    let mut i: usize = 0;
    assert(out@.map_values(|x: DiscreteKeyframe| (x.time, x.value@)) =~= Seq::<(u32, ValueView)>::empty());
    while i < items.len()
        invariant
            i <= items@.len(),
            doc_many(items@, i as nat, timed_item(k)) == Ok::<Seq<(u32, ValueView)>, DocFail>(out@.map_values(|x: DiscreteKeyframe| (x.time, x.value@))),
        decreases items@.len() - i,
    {
        match read_timed_keyframe(&items[i], k) {
            Ok(x) => {
                let ghost before = out@;
                let ghost xv = (x.time, x.value@);
                out.push(x);
                assert(out@.map_values(|x: DiscreteKeyframe| (x.time, x.value@)) =~= before.map_values(|x: DiscreteKeyframe| (x.time, x.value@)).push(xv));
            },
            Err(e) => {
                proof {
                    lemma_doc_many_err(items@, (i + 1) as nat, items@.len(), timed_item(k));
                }
                return Err(e);
            },
        }
        i = i + 1;
    }
    Ok(out)
}

fn read_curve_items(items: &Vec<Json>, k: ValueType) -> (r: Result<Vec<CurveKeyframe>, AnimXError>)
    ensures
        match doc_many(items@, items@.len(), curve_item(k)) {
            Ok(xs) => r is Ok && r->Ok_0@.map_values(|x: CurveKeyframe| x@) == xs,
            Err(f) => r is Err && fails_as(r->Err_0, f),
        },
{
    let mut out: Vec<CurveKeyframe> = Vec::new();
    let mut i: usize = 0;
    assert(out@.map_values(|x: CurveKeyframe| x@) =~= Seq::<CurveKeyframeView>::empty());
    while i < items.len()
        invariant
            i <= items@.len(),
            doc_many(items@, i as nat, curve_item(k)) == Ok::<Seq<CurveKeyframeView>, DocFail>(out@.map_values(|x: CurveKeyframe| x@)),
        decreases items@.len() - i,
    {
        match read_curve_keyframe(&items[i], k) {
            Ok(x) => {
                let ghost before = out@;
                let ghost xv = x@;
                out.push(x);
                assert(out@.map_values(|x: CurveKeyframe| x@) =~= before.map_values(|x: CurveKeyframe| x@).push(xv));
            },
            Err(e) => {
                proof {
                    lemma_doc_many_err(items@, (i + 1) as nat, items@.len(), curve_item(k));
                }
                return Err(e);
            },
        }
        i = i + 1;
    }
    Ok(out)
}

fn read_track_items(items: &Vec<Json>) -> (r: Result<Vec<Track>, AnimXError>)
    ensures
        match doc_many(items@, items@.len(), track_item()) {
            Ok(xs) => r is Ok && r->Ok_0@.map_values(|x: Track| x@) == xs,
            Err(f) => r is Err && fails_as(r->Err_0, f),
        },
{
    let mut out: Vec<Track> = Vec::new();
    let mut i: usize = 0;
    assert(out@.map_values(|x: Track| x@) =~= Seq::<TrackView>::empty());
    while i < items.len()
        invariant
            i <= items@.len(),
            doc_many(items@, i as nat, track_item()) == Ok::<Seq<TrackView>, DocFail>(out@.map_values(|x: Track| x@)),
        decreases items@.len() - i,
    {
        match read_document_track(&items[i]) {
            Ok(x) => {
                let ghost before = out@;
                let ghost xv = x@;
                out.push(x);
                assert(out@.map_values(|x: Track| x@) =~= before.map_values(|x: Track| x@).push(xv));
            },
            Err(e) => {
                proof {
                    lemma_doc_many_err(items@, (i + 1) as nat, items@.len(), track_item());
                }
                return Err(e);
            },
        }
        i = i + 1;
    }
    Ok(out)
}

/// The member of `m` named `key`.
fn lookup<'a>(m: &'a Vec<(String, Json)>, key: &str) -> (r: Option<&'a Json>)
    ensures
        match member(m@, key@) {
            Some(x) => r is Some && *r->0 == x,
            None => r is None,
        },
{
    let k = key.to_owned();
    get_member(m, &k)
}

fn field_error(name: &str) -> (e: AnimXError)
    ensures
        fails_as(e, DocFail::Field(name@)),
{
    AnimXError::StructuralError(name.to_owned())
}

fn get_opt_text(m: &Vec<(String, Json)>, key: &str) -> (r: Result<Option<String>, AnimXError>)
    ensures
        match opt_text_member(m@, key@) {
            Ok(o) => r is Ok && opt_text(r->Ok_0) == o,
            Err(f) => r is Err && fails_as(r->Err_0, f),
        },
{
    match lookup(m, key) {
        None => Ok(None),
        Some(Json::Null) => Ok(None),
        Some(Json::Str(s)) => Ok(Some(s.clone())),
        _ => Err(field_error(key)),
    }
}

fn get_opt_f32(m: &Vec<(String, Json)>, key: &str) -> (r: Result<Option<u32>, AnimXError>)
    ensures
        match opt_f32_member(m@, key@) {
            Ok(o) => r == Ok::<Option<u32>, AnimXError>(o),
            Err(f) => r is Err && fails_as(r->Err_0, f),
        },
{
    match lookup(m, key) {
        None => Ok(None),
        Some(Json::Null) => Ok(None),
        Some(Json::Number(n)) => Ok(Some(n.f32_bits)),
        _ => Err(field_error(key)),
    }
}

fn get_opt_value(m: &Vec<(String, Json)>, key: &str, k: ValueType) -> (r: Result<Option<Value>, AnimXError>)
    ensures
        match opt_value_member(m@, key@, k) {
            Ok(o) => r is Ok && opt_value(r->Ok_0) == o,
            Err(f) => r is Err && fails_as(r->Err_0, f),
        },
{
    match lookup(m, key) {
        None => Ok(None),
        Some(Json::Null) => Ok(None),
        Some(x) => match read_document_value(x, k) {
            Some(v) => Ok(Some(v)),
            None => Err(field_error(key)),
        },
    }
}

fn read_raw_item(j: &Json, k: ValueType) -> (r: Result<Value, AnimXError>)
    ensures
        match raw_item(k)(*j) {
            Ok(v) => r is Ok && r->Ok_0@ == v,
            Err(f) => r is Err && fails_as(r->Err_0, f),
        },
{
    match read_document_value(j, k) {
        Some(v) => Ok(v),
        None => Err(field_error("keyframes")),
    }
}

fn read_timed_keyframe(j: &Json, k: ValueType) -> (r: Result<DiscreteKeyframe, AnimXError>)
    ensures
        match timed_keyframe(*j, k) {
            Ok(kf) => r is Ok && (r->Ok_0.time, r->Ok_0.value@) == kf,
            Err(f) => r is Err && fails_as(r->Err_0, f),
        },
{
    match j {
        Json::Object(m) => match lookup(m, "time") {
            Some(Json::Number(t)) => match lookup(m, "value") {
                Some(x) => match read_document_value(x, k) {
                    Some(v) => Ok(DiscreteKeyframe { time: t.f32_bits, value: v }),
                    None => Err(field_error("value")),
                },
                None => Err(field_error("value")),
            },
            _ => Err(field_error("time")),
        },
        _ => Err(field_error("keyframes")),
    }
}

fn interpolation_from_name(s: &String) -> (r: Option<Interpolation>)
    ensures
        r == interpolation_named(s@),
{
    if *s == "Hold".to_owned() {
        Some(Interpolation::Hold)
    } else if *s == "Linear".to_owned() {
        Some(Interpolation::Linear)
    } else if *s == "Tangent".to_owned() {
        Some(Interpolation::Tangent)
    } else if *s == "CubicBezier".to_owned() {
        Some(Interpolation::CubicBezier)
    } else {
        None
    }
}

fn track_type_from_name(s: &String) -> (r: Option<TrackType>)
    ensures
        r == track_type_named(s@),
{
    if *s == "Raw".to_owned() {
        Some(TrackType::Raw)
    } else if *s == "Discrete".to_owned() {
        Some(TrackType::Discrete)
    } else if *s == "Curve".to_owned() {
        Some(TrackType::Curve)
    } else if *s == "Bezier".to_owned() {
        Some(TrackType::Bezier)
    } else {
        None
    }
}

fn read_curve_keyframe(j: &Json, k: ValueType) -> (r: Result<CurveKeyframe, AnimXError>)
    ensures
        match curve_keyframe(*j, k) {
            Ok(kf) => r is Ok && r->Ok_0@ == kf,
            Err(f) => r is Err && fails_as(r->Err_0, f),
        },
{
    let timed = read_timed_keyframe(j, k)?;
    let m = match j {
        Json::Object(m) => m,
        _ => return Err(field_error("keyframes")),
    };
    let interpolation = match lookup(m, "interpolation") {
        Some(Json::Str(s)) => match interpolation_from_name(s) {
            Some(i) => i,
            None => return Err(field_error("interpolation")),
        },
        _ => return Err(field_error("interpolation")),
    };
    let left_tangent = get_opt_value(m, "leftTangent", k)?;
    let right_tangent = get_opt_value(m, "rightTangent", k)?;
    Ok(CurveKeyframe { time: timed.time, value: timed.value, interpolation, left_tangent, right_tangent })
}

fn track_body(m: &Vec<(String, Json)>) -> (r: &Vec<(String, Json)>)
    ensures
        r@ == body_members(m@),
{
    match lookup(m, "data") {
        Some(Json::Object(d)) => d,
        _ => m,
    }
}

/// The track a document node describes.
pub fn read_document_track(j: &Json) -> (r: Result<Track, AnimXError>)
    ensures
        match document_track(*j) {
            Ok(t) => r is Ok && r->Ok_0@ == t,
            Err(f) => r is Err && fails_as(r->Err_0, f),
        },
{
    let m = match j {
        Json::Object(m) => m,
        _ => return Err(field_error("tracks")),
    };
    let t = match lookup(m, "trackType") {
        Some(Json::Str(s)) => match track_type_from_name(s) {
            Some(t) => t,
            None => return Err(field_error("trackType")),
        },
        _ => return Err(field_error("trackType")),
    };
    let k = match lookup(m, "valueType") {
        Some(Json::Str(s)) => match value_type_from_name(s) {
            Some(k) => k,
            None => return Err(field_error("valueType")),
        },
        _ => return Err(field_error("valueType")),
    };
    if let TrackType::Bezier = t {
        return Err(AnimXError::Unimplemented);
    }
    let b = track_body(m);
    let node = get_opt_text(b, "node")?;
    let property = get_opt_text(b, "property")?;
    let items = match lookup(b, "keyframes") {
        Some(Json::Array(items)) => items,
        _ => return Err(field_error("keyframes")),
    };
    match t {
        TrackType::Raw => {
            let interval = get_opt_f32(b, "interval")?;
            let keyframes = read_raw_items(items, k)?;
            Ok(Track { value_type: k, data: TrackData::Raw(RawData { node, property, interval, keyframes }) })
        },
        TrackType::Discrete => {
            let keyframes = read_timed_items(items, k)?;
            Ok(Track { value_type: k, data: TrackData::Discrete(DiscreteData { node, property, keyframes }) })
        },
        _ => {
            let keyframes = read_curve_items(items, k)?;
            Ok(Track { value_type: k, data: TrackData::Curve(CurveData { node, property, keyframes }) })
        },
    }
}

impl Animation {
    /// Reads an animation from an AnimJ document. Members of the top-level
    /// object other than `name`, `globalDuration` and `tracks` are ignored.
    pub fn from_document(j: &Json) -> (r: Result<Animation, AnimXError>)
        ensures
            match document_animation(*j) {
                Ok(a) => r is Ok && r->Ok_0@ == a,
                Err(f) => r is Err && fails_as(r->Err_0, f),
            },
    {
        let m = match j {
            Json::Object(m) => m,
            _ => return Err(field_error("animation")),
        };
        let mut out = Animation { name: None, global_duration: None, tracks: Vec::new() };
        let mut i: usize = 0;
        assert(out@.tracks =~= Seq::<TrackView>::empty());
        while i < m.len()
            invariant
                i <= m@.len(),
                document_animation(*j) == document_members(m@, i as int, out@),
                *j == Json::Object(*m),
            decreases m@.len() - i,
        {
            let key = &m[i].0;
            let v = &m[i].1;
            if *key == "name".to_owned() {
                match v {
                    Json::Str(s) => {
                        out.name = Some(s.clone());
                    },
                    _ => return Err(field_error("name")),
                }
            } else if *key == "globalDuration".to_owned() {
                match v {
                    Json::Number(n) => {
                        out.global_duration = Some(n.f32_bits);
                    },
                    _ => return Err(field_error("globalDuration")),
                }
            } else if *key == "tracks".to_owned() {
                match v {
                    Json::Array(items) => {
                        let mut ts = read_track_items(items)?;
                        let ghost before = out@.tracks;
                        let ghost added = ts@;
                        out.tracks.append(&mut ts);
                        assert(out@.tracks =~= before + added.map_values(|x: Track| x@));
                    },
                    _ => return Err(field_error("tracks")),
                }
            }
            i = i + 1;
        }
        Ok(out)
    }
}

} // verus!
