//! Laws of the codec that relate several of its functions.
use vstd::prelude::*;
use crate::reader::{parse_varint, parse_varint_from};
use crate::wire::varint_bytes;
use crate::animation::AnimationView;
use crate::document::{Json, document_animation, document_members};

verus! {

pub proof fn lemma_varint_bytes_len(n: nat)
    ensures
        varint_bytes(n).len() >= 1,
    decreases n,
{
    if n >= 128 {
        lemma_varint_bytes_len(n / 128);
    }
}

pub proof fn lemma_parse_varint_bytes(n: nat, s: Seq<u8>, p: int, acc: nat, mult: nat)
    requires
        0 <= p,
        p + varint_bytes(n).len() <= s.len(),
        s.subrange(p, p + varint_bytes(n).len()) == varint_bytes(n),
        mult >= 1,
        acc + n * mult <= u64::MAX,
    ensures
        parse_varint_from(s, p, acc, mult) == Ok::<(u64, int), crate::error::AnimXError>(
            ((acc + n * mult) as u64, p + varint_bytes(n).len()),
        ),
    decreases n,
{
    let v = varint_bytes(n);
    lemma_varint_bytes_len(n);
    assert(s[p] == v[0]) by {
        assert(s.subrange(p, p + v.len())[0] == s[p]);
    }
    if n < 128 {
        assert(s[p] == n);
    } else {
        let rest = varint_bytes(n / 128);
        assert(v == seq![(n % 128 + 128) as u8] + rest);
        assert(s[p] % 128 == n % 128);
        assert(s[p] >= 128);
        let next = acc + (n % 128) * mult;
        assert(next + (n / 128) * (mult * 128) == acc + n * mult && next <= acc + n * mult)
            by (nonlinear_arith)
            requires
                next == acc + (n % 128) * mult,
                mult >= 1,
                n >= 128,
        {
            assert(n == 128 * (n / 128) + n % 128);
        }
        assert(s.subrange(p + 1, p + 1 + rest.len()) =~= rest) by {
            assert forall|i: int| 0 <= i < rest.len() implies s.subrange(
                p + 1,
                p + 1 + rest.len(),
            )[i] == rest[i] by {
                assert(s.subrange(p, p + v.len())[i + 1] == v[i + 1]);
            }
        }
        lemma_parse_varint_bytes(n / 128, s, p + 1, next, mult * 128);
    }
}

/// Decoding the varint form of any 64-bit number gives that number back, and
/// consumes exactly its bytes, whatever follows them.
pub proof fn varint_round_trip(n: u64, rest: Seq<u8>)
    ensures
        parse_varint(varint_bytes(n as nat) + rest, 0) == Ok::<
            (u64, int),
            crate::error::AnimXError,
        >((n, varint_bytes(n as nat).len() as int)),
{
    let s = varint_bytes(n as nat) + rest;
    assert(s.subrange(0, varint_bytes(n as nat).len() as int) =~= varint_bytes(n as nat));
    lemma_parse_varint_bytes(n as nat, s, 0, 0, 1);
}


proof fn lemma_members_shifted(
    ma: Seq<(String, Json)>,
    mb: Seq<(String, Json)>,
    i: int,
    j: int,
    acc: AnimationView,
)
    requires
        0 <= i <= j <= ma.len(),
        mb.len() == ma.len() + 1,
        forall|x: int| i <= x < ma.len() ==> mb[x + 1] == #[trigger] ma[x],
    ensures
        document_members(mb, j + 1, acc) == document_members(ma, j, acc),
    decreases ma.len() - j,
{
    if j < ma.len() {
        assert(mb[j + 1] == ma[j]);
        let key = ma[j].0@;
        let v = ma[j].1;
        if key == "name"@ {
            if let Json::Str(s) = v {
                lemma_members_shifted(ma, mb, i, j + 1, AnimationView { name: Some(s@), ..acc });
            }
        } else if key == "globalDuration"@ {
            if let Json::Number(n) = v {
                lemma_members_shifted(
                    ma,
                    mb,
                    i,
                    j + 1,
                    AnimationView { global_duration: Some(n.f32_bits), ..acc },
                );
            }
        } else if key == "tracks"@ {
            if let Json::Array(items) = v {
                match crate::document::doc_many(items@, items@.len(), crate::document::track_item()) {
                    Ok(ts) => {
                        lemma_members_shifted(
                            ma,
                            mb,
                            i,
                            j + 1,
                            AnimationView { tracks: acc.tracks + ts, ..acc },
                        );
                    },
                    Err(_) => {},
                }
            }
        } else {
            lemma_members_shifted(ma, mb, i, j + 1, acc);
        }
    }
}

proof fn lemma_members_inserted(
    ma: Seq<(String, Json)>,
    mb: Seq<(String, Json)>,
    i: int,
    j: int,
    acc: AnimationView,
)
    requires
        0 <= j <= i <= ma.len(),
        mb == ma.insert(i, mb[i]),
        mb[i].0@ != "name"@,
        mb[i].0@ != "globalDuration"@,
        mb[i].0@ != "tracks"@,
    ensures
        document_members(mb, j, acc) == document_members(ma, j, acc),
    decreases i - j,
{
    if j == i {
        assert forall|x: int| i <= x < ma.len() implies mb[x + 1] == #[trigger] ma[x] by {}
        lemma_members_shifted(ma, mb, i, i, acc);
    } else {
        assert(mb[j] == ma[j]);
        let key = ma[j].0@;
        let v = ma[j].1;
        if key == "name"@ {
            if let Json::Str(s) = v {
                lemma_members_inserted(ma, mb, i, j + 1, AnimationView { name: Some(s@), ..acc });
            }
        } else if key == "globalDuration"@ {
            if let Json::Number(n) = v {
                lemma_members_inserted(
                    ma,
                    mb,
                    i,
                    j + 1,
                    AnimationView { global_duration: Some(n.f32_bits), ..acc },
                );
            }
        } else if key == "tracks"@ {
            if let Json::Array(items) = v {
                match crate::document::doc_many(items@, items@.len(), crate::document::track_item()) {
                    Ok(ts) => {
                        lemma_members_inserted(
                            ma,
                            mb,
                            i,
                            j + 1,
                            AnimationView { tracks: acc.tracks + ts, ..acc },
                        );
                    },
                    Err(_) => {},
                }
            }
        } else {
            lemma_members_inserted(ma, mb, i, j + 1, acc);
        }
    }
}

/// A document whose top-level object has one more member, named other than
/// `name`, `globalDuration` and `tracks`, describes the same animation (or
/// fails the same way) as the document without it.
pub proof fn unknown_member_ignored(a: Json, b: Json, i: int, key: String, v: Json)
    requires
        a is Object,
        b is Object,
        0 <= i <= a->Object_0@.len(),
        b->Object_0@ == a->Object_0@.insert(i, (key, v)),
        key@ != "name"@,
        key@ != "globalDuration"@,
        key@ != "tracks"@,
    ensures
        document_animation(b) == document_animation(a),
{
    let ma = a->Object_0@;
    let mb = b->Object_0@;
    assert(mb[i] == (key, v));
    lemma_members_inserted(
        ma,
        mb,
        i,
        0,
        AnimationView { name: None, global_duration: None, tracks: seq![] },
    );
}

} // verus!
