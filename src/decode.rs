//! Reading an animation from an AnimX stream, and what each read means as a
//! parse of the bytes.
use vstd::prelude::*;
use crate::animation::{
    Animation, CurveData, CurveKeyframe, CurveKeyframeView, DiscreteData, DiscreteKeyframe,
    RawData, Track, TrackData, TrackDataView, TrackView, AnimationView,
};
use crate::error::AnimXError;
use crate::reader::{AnimXReader, Parsed, parse_le, parse_string, parse_u8, parse_varint};
use crate::types::{
    Interpolation, TrackType, Value, ValueType, ValueView, interpolation_from_tag, parse_value,
    track_type_from_tag, value_type_from_tag,
};

verus! {

/// `n` items one after the other, each read by `f`.
pub open spec fn parse_many<T>(
    s: Seq<u8>,
    p: int,
    n: nat,
    f: spec_fn(Seq<u8>, int) -> Parsed<T>,
) -> Parsed<Seq<T>>
    decreases n,
{
    if n == 0 {
        Ok((seq![], p))
    } else {
        match parse_many(s, p, (n - 1) as nat, f) {
            Err(e) => Err(e),
            Ok((xs, q)) => match f(s, q) {
                Err(e) => Err(e),
                Ok((x, r)) => Ok((xs.push(x), r)),
            },
        }
    }
}

/// Once a run of items fails, every longer run fails the same way.
pub proof fn lemma_many_err<T>(
    s: Seq<u8>,
    p: int,
    i: nat,
    n: nat,
    f: spec_fn(Seq<u8>, int) -> Parsed<T>,
)
    requires
        i <= n,
        parse_many(s, p, i, f) is Err,
    ensures
        parse_many(s, p, n, f) == parse_many(s, p, i, f),
    decreases n - i,
{
    if i < n {
        lemma_many_err(s, p, i, (n - 1) as nat, f);
    }
}

/// A run of `n` items that parses holds `n` items.
pub proof fn lemma_many_len<T>(s: Seq<u8>, p: int, n: nat, f: spec_fn(Seq<u8>, int) -> Parsed<T>)
    ensures
        parse_many(s, p, n, f) matches Ok((xs, _)) ==> xs.len() == n,
    decreases n,
{
    if n > 0 {
        lemma_many_len(s, p, (n - 1) as nat, f);
    }
}

pub open spec fn value_item(k: ValueType) -> spec_fn(Seq<u8>, int) -> Parsed<ValueView> {
    |s: Seq<u8>, p: int| parse_value(s, p, k)
}

/// A time (four bytes) followed by a value of kind `k`.
pub open spec fn parse_timed(s: Seq<u8>, p: int, k: ValueType) -> Parsed<(u32, ValueView)> {
    match parse_le(s, p, 4) {
        Err(e) => Err(e),
        Ok((t, q)) => match parse_value(s, q, k) {
            Err(e) => Err(e),
            Ok((v, r)) => Ok(((t as u32, v), r)),
        },
    }
}

pub open spec fn timed_item(k: ValueType) -> spec_fn(Seq<u8>, int) -> Parsed<(u32, ValueView)> {
    |s: Seq<u8>, p: int| parse_timed(s, p, k)
}

/// A left tangent and a right tangent, both of kind `k`.
pub open spec fn parse_tangent_pair(s: Seq<u8>, p: int, k: ValueType) -> Parsed<
    (ValueView, ValueView),
> {
    match parse_value(s, p, k) {
        Err(e) => Err(e),
        Ok((l, q)) => match parse_value(s, q, k) {
            Err(e) => Err(e),
            Ok((r, t)) => Ok(((l, r), t)),
        },
    }
}

pub open spec fn tangent_item(k: ValueType) -> spec_fn(Seq<u8>, int) -> Parsed<
    (ValueView, ValueView),
> {
    |s: Seq<u8>, p: int| parse_tangent_pair(s, p, k)
}

/// One interpolation tag.
pub open spec fn parse_interpolation(s: Seq<u8>, p: int) -> Parsed<Interpolation> {
    match parse_u8(s, p) {
        Err(e) => Err(e),
        Ok((b, q)) => match interpolation_from_tag(b) {
            Some(i) => Ok((i, q)),
            None => Err(AnimXError::IncorrectInterpolationType),
        },
    }
}

pub open spec fn interpolation_item() -> spec_fn(Seq<u8>, int) -> Parsed<Interpolation> {
    |s: Seq<u8>, p: int| parse_interpolation(s, p)
}

/// Curve keyframes from their (time, value) pairs and interpolation tags,
/// without tangents. With `per_frame` clear, the first tag serves every keyframe.
pub open spec fn curve_base(
    ts: Seq<(u32, ValueView)>,
    interps: Seq<Interpolation>,
    per_frame: bool,
) -> Seq<CurveKeyframeView> {
    Seq::new(
        ts.len(),
        |i: int|
            CurveKeyframeView {
                time: ts[i].0,
                value: ts[i].1,
                interpolation: if per_frame {
                    interps[i]
                } else {
                    interps[0]
                },
                left_tangent: None,
                right_tangent: None,
            },
    )
}

/// The first `tg.len()` keyframes of `base` given the tangent pairs of `tg`.
pub open spec fn with_tangents(
    base: Seq<CurveKeyframeView>,
    tg: Seq<(ValueView, ValueView)>,
) -> Seq<CurveKeyframeView> {
    Seq::new(
        base.len(),
        |i: int|
            if i < tg.len() {
                CurveKeyframeView {
                    time: base[i].time,
                    value: base[i].value,
                    interpolation: base[i].interpolation,
                    left_tangent: Some(tg[i].0),
                    right_tangent: Some(tg[i].1),
                }
            } else {
                base[i]
            },
    )
}

/// The keyframes of a curve body from its info byte on, as `(keyframes, end)`.
pub open spec fn parse_curve_keyframes(s: Seq<u8>, p: int, k: ValueType, n: nat) -> Parsed<
    Seq<CurveKeyframeView>,
> {
    match parse_u8(s, p) {
        Err(e) => Err(e),
        Ok((info, pos1)) => {
            let per_frame = info % 2 == 1;
            let tangents = (info / 2) % 2 == 1;
            match parse_many(s, pos1, if per_frame { n } else { 1 }, interpolation_item()) {
                Err(e) => Err(e),
                Ok((interps, pos2)) => match parse_many(s, pos2, n, timed_item(k)) {
                    Err(e) => Err(e),
                    Ok((ts, pos3)) => if tangents {
                        match parse_many(s, pos3, n, tangent_item(k)) {
                            Err(e) => Err(e),
                            Ok((tg, pos4)) => Ok(
                                (with_tangents(curve_base(ts, interps, per_frame), tg), pos4),
                            ),
                        }
                    } else {
                        Ok((curve_base(ts, interps, per_frame), pos3))
                    },
                },
            }
        },
    }
}

/// The body of a track of kind `t` and value kind `k`, from the byte after its tags.
pub open spec fn parse_track_body(s: Seq<u8>, p: int, t: TrackType, k: ValueType) -> Parsed<
    TrackDataView,
> {
    match parse_string(s, p) {
        Err(e) => Err(e),
        Ok((node, pos1)) => match parse_string(s, pos1) {
            Err(e) => Err(e),
            Ok((property, pos2)) => match parse_varint(s, pos2) {
                Err(e) => Err(e),
                Ok((n, pos3)) => match t {
                    TrackType::Raw => match parse_le(s, pos3, 4) {
                        Err(e) => Err(e),
                        Ok((interval, pos4)) => match parse_many(s, pos4, n as nat, value_item(k)) {
                            Err(e) => Err(e),
                            Ok((vs, pos5)) => Ok(
                                (
                                    TrackDataView::Raw {
                                        node: Some(node),
                                        property: Some(property),
                                        interval: Some(interval as u32),
                                        keyframes: vs,
                                    },
                                    pos5,
                                ),
                            ),
                        },
                    },
                    TrackType::Discrete => match parse_many(s, pos3, n as nat, timed_item(k)) {
                        Err(e) => Err(e),
                        Ok((ts, pos4)) => Ok(
                            (
                                TrackDataView::Discrete {
                                    node: Some(node),
                                    property: Some(property),
                                    keyframes: ts,
                                },
                                pos4,
                            ),
                        ),
                    },
                    _ => match parse_curve_keyframes(s, pos3, k, n as nat) {
                        Err(e) => Err(e),
                        Ok((kfs, pos4)) => Ok(
                            (
                                TrackDataView::Curve {
                                    node: Some(node),
                                    property: Some(property),
                                    keyframes: kfs,
                                },
                                pos4,
                            ),
                        ),
                    },
                },
            },
        },
    }
}

/// One track record: track-kind tag, value-kind tag, then the body.
pub open spec fn parse_track(s: Seq<u8>, p: int) -> Parsed<TrackView> {
    match parse_u8(s, p) {
        Err(e) => Err(e),
        Ok((tb, pos1)) => match track_type_from_tag(tb) {
            None => Err(AnimXError::IncorrectTrackType),
            Some(t) => match parse_u8(s, pos1) {
                Err(e) => Err(e),
                Ok((vb, pos2)) => match value_type_from_tag(vb) {
                    None => Err(AnimXError::IncorrectValueType),
                    Some(k) => match parse_track_body(s, pos2, t, k) {
                        Err(e) => Err(e),
                        Ok((d, pos3)) => Ok((TrackView { value_type: k, data: d }, pos3)),
                    },
                },
            },
        },
    }
}

pub open spec fn track_item() -> spec_fn(Seq<u8>, int) -> Parsed<TrackView> {
    |s: Seq<u8>, p: int| parse_track(s, p)
}

/// A whole AnimX stream from `p`.
pub open spec fn parse_animation(s: Seq<u8>, p: int) -> Parsed<AnimationView> {
    match parse_string(s, p) {
        Err(e) => Err(e),
        Ok((magic, pos1)) => if magic != "AnimX"@ {
            Err(AnimXError::IncorrectHeader)
        } else {
            match parse_le(s, pos1, 4) {
                Err(e) => Err(e),
                Ok((version, pos2)) => if version != 1 {
                    Err(AnimXError::UnsupportedVersion)
                } else {
                    match parse_varint(s, pos2) {
                        Err(e) => Err(e),
                        Ok((count, pos3)) => match parse_le(s, pos3, 4) {
                            Err(e) => Err(e),
                            Ok((duration, pos4)) => match parse_string(s, pos4) {
                                Err(e) => Err(e),
                                Ok((name, pos5)) => match parse_u8(s, pos5) {
                                    Err(e) => Err(e),
                                    Ok((flag, pos6)) => if flag != 0 {
                                        Err(AnimXError::UnsupportedEncoding)
                                    } else {
                                        match parse_many(s, pos6, count as nat, track_item()) {
                                            Err(e) => Err(e),
                                            Ok((ts, pos7)) => Ok(
                                                (
                                                    AnimationView {
                                                        name: Some(name),
                                                        global_duration: Some(duration as u32),
                                                        tracks: ts,
                                                    },
                                                    pos7,
                                                ),
                                            ),
                                        }
                                    },
                                },
                            },
                        },
                    }
                },
            }
        },
    }
}

impl AnimXReader {
    /// A time followed by a value of kind `k`.
    pub fn read_timed(&mut self, k: ValueType) -> (r: Result<DiscreteKeyframe, AnimXError>)
        requires
            old(self).wf(),
        ensures
            final(self).wf(),
            final(self).bytes() == old(self).bytes(),
            match parse_timed(old(self).bytes(), old(self).position(), k) {
                Ok((kf, q)) => r is Ok && (r->Ok_0.time, r->Ok_0.value@) == kf
                    && final(self).position() == q,
                Err(e) => r == Err::<DiscreteKeyframe, AnimXError>(e),
            },
    {
        let time = self.read_f32()?;
        let value = self.read_value(k)?;
        Ok(DiscreteKeyframe { time, value })
    }

    /// `n` values of kind `k`.
    pub fn read_values(&mut self, k: ValueType, n: u64) -> (r: Result<Vec<Value>, AnimXError>)
        requires
            old(self).wf(),
        ensures
            final(self).wf(),
            final(self).bytes() == old(self).bytes(),
            match parse_many(old(self).bytes(), old(self).position(), n as nat, value_item(k)) {
                Ok((vs, q)) => r is Ok && r->Ok_0@.map_values(|v: Value| v@) == vs
                    && final(self).position() == q,
                Err(e) => r == Err::<Vec<Value>, AnimXError>(e),
            },
    {
        let ghost s = self.bytes();
        let ghost p0 = self.position();
        let mut out: Vec<Value> = Vec::new();
        let mut i: u64 = 0;
        assert(out@.map_values(|v: Value| v@) =~= Seq::<ValueView>::empty());
        while i < n
            invariant
                self.wf(),
                self.bytes() == s,
                s == old(self).bytes(),
                p0 == old(self).position(),
                i <= n,
                parse_many(s, p0, i as nat, value_item(k)) == Ok::<(Seq<ValueView>, int), AnimXError>(
                    (out@.map_values(|v: Value| v@), self.position()),
                ),
            decreases n - i,
        {
            let v = match self.read_value(k) {
                Ok(v) => v,
                Err(e) => {
                    proof {
                        lemma_many_err(s, p0, (i + 1) as nat, n as nat, value_item(k));
                    }
                    return Err(e);
                },
            };
            let ghost before = out@;
            out.push(v);
            assert(out@.map_values(|v: Value| v@) =~= before.map_values(|v: Value| v@).push(v@));
            i = i + 1;
        }
        Ok(out)
    }

    /// `n` (time, value) pairs of value kind `k`.
    pub fn read_discrete_keyframes(&mut self, k: ValueType, n: u64) -> (r: Result<
        Vec<DiscreteKeyframe>,
        AnimXError,
    >)
        requires
            old(self).wf(),
        ensures
            final(self).wf(),
            final(self).bytes() == old(self).bytes(),
            match parse_many(old(self).bytes(), old(self).position(), n as nat, timed_item(k)) {
                Ok((ts, q)) => r is Ok && r->Ok_0@.map_values(
                    |d: DiscreteKeyframe| (d.time, d.value@),
                ) == ts && final(self).position() == q,
                Err(e) => r == Err::<Vec<DiscreteKeyframe>, AnimXError>(e),
            },
    {
        let ghost s = self.bytes();
        let ghost p0 = self.position();
        let mut out: Vec<DiscreteKeyframe> = Vec::new();
        let mut i: u64 = 0;
        assert(out@.map_values(|d: DiscreteKeyframe| (d.time, d.value@)) =~= Seq::<
            (u32, ValueView),
        >::empty());
        while i < n
            invariant
                self.wf(),
                self.bytes() == s,
                s == old(self).bytes(),
                p0 == old(self).position(),
                i <= n,
                parse_many(s, p0, i as nat, timed_item(k)) == Ok::<
                    (Seq<(u32, ValueView)>, int),
                    AnimXError,
                >((out@.map_values(|d: DiscreteKeyframe| (d.time, d.value@)), self.position())),
            decreases n - i,
        {
            let kf = match self.read_timed(k) {
                Ok(kf) => kf,
                Err(e) => {
                    proof {
                        lemma_many_err(s, p0, (i + 1) as nat, n as nat, timed_item(k));
                    }
                    return Err(e);
                },
            };
            let ghost before = out@;
            let ghost item = (kf.time, kf.value@);
            out.push(kf);
            assert(out@.map_values(|d: DiscreteKeyframe| (d.time, d.value@)) =~= before.map_values(
                |d: DiscreteKeyframe| (d.time, d.value@),
            ).push(item));
            i = i + 1;
        }
        Ok(out)
    }

    /// One interpolation tag.
    pub fn read_interpolation(&mut self) -> (r: Result<Interpolation, AnimXError>)
        requires
            old(self).wf(),
        ensures
            final(self).wf(),
            final(self).bytes() == old(self).bytes(),
            match parse_interpolation(old(self).bytes(), old(self).position()) {
                Ok((i, q)) => r == Ok::<Interpolation, AnimXError>(i) && final(self).position() == q,
                Err(e) => r == Err::<Interpolation, AnimXError>(e),
            },
    {
        let b = self.read_u8()?;
        match Interpolation::from_u8(b) {
            Some(i) => Ok(i),
            None => Err(AnimXError::IncorrectInterpolationType),
        }
    }

    /// `n` interpolation tags.
    pub fn read_interpolations(&mut self, n: u64) -> (r: Result<Vec<Interpolation>, AnimXError>)
        requires
            old(self).wf(),
        ensures
            final(self).wf(),
            final(self).bytes() == old(self).bytes(),
            match parse_many(old(self).bytes(), old(self).position(), n as nat, interpolation_item()) {
                Ok((is, q)) => r is Ok && r->Ok_0@ == is && final(self).position() == q,
                Err(e) => r == Err::<Vec<Interpolation>, AnimXError>(e),
            },
    {
        let ghost s = self.bytes();
        let ghost p0 = self.position();
        let mut out: Vec<Interpolation> = Vec::new();
        let mut i: u64 = 0;
        while i < n
            invariant
                self.wf(),
                self.bytes() == s,
                s == old(self).bytes(),
                p0 == old(self).position(),
                i <= n,
                parse_many(s, p0, i as nat, interpolation_item()) == Ok::<
                    (Seq<Interpolation>, int),
                    AnimXError,
                >((out@, self.position())),
            decreases n - i,
        {
            let x = match self.read_interpolation() {
                Ok(x) => x,
                Err(e) => {
                    proof {
                        lemma_many_err(s, p0, (i + 1) as nat, n as nat, interpolation_item());
                    }
                    return Err(e);
                },
            };
            out.push(x);
            i = i + 1;
        }
        Ok(out)
    }

    /// A left tangent and a right tangent of kind `k`.
    pub fn read_tangent_pair(&mut self, k: ValueType) -> (r: Result<(Value, Value), AnimXError>)
        requires
            old(self).wf(),
        ensures
            final(self).wf(),
            final(self).bytes() == old(self).bytes(),
            match parse_tangent_pair(old(self).bytes(), old(self).position(), k) {
                Ok((pair, q)) => r is Ok && (r->Ok_0.0@, r->Ok_0.1@) == pair
                    && final(self).position() == q,
                Err(e) => r == Err::<(Value, Value), AnimXError>(e),
            },
    {
        let l = self.read_value(k)?;
        let r = self.read_value(k)?;
        Ok((l, r))
    }

    /// The keyframes of a curve body of `n` keyframes of kind `k`, from its info byte on.
    pub fn read_curve_keyframes(&mut self, k: ValueType, n: u64) -> (r: Result<
        Vec<CurveKeyframe>,
        AnimXError,
    >)
        requires
            old(self).wf(),
        ensures
            final(self).wf(),
            final(self).bytes() == old(self).bytes(),
            match parse_curve_keyframes(old(self).bytes(), old(self).position(), k, n as nat) {
                Ok((kfs, q)) => r is Ok && r->Ok_0@.map_values(|c: CurveKeyframe| c@) == kfs
                    && final(self).position() == q,
                Err(e) => r == Err::<Vec<CurveKeyframe>, AnimXError>(e),
            },
    {
        let ghost s = self.bytes();
        let ghost p0 = self.position();
        let info = self.read_u8()?;
        let ghost pos1 = self.position();
        let per_frame = info % 2 == 1;
        let tangents = (info / 2) % 2 == 1;
        let interps = self.read_interpolations(if per_frame { n } else { 1 })?;
        let ghost pos2 = self.position();
        proof {
            lemma_many_len(s, pos1, if per_frame { n as nat } else { 1 }, interpolation_item());
        }
        let ghost mut ts: Seq<(u32, ValueView)> = seq![];
        let mut kfs: Vec<CurveKeyframe> = Vec::new();
        let mut i: u64 = 0;
        assert(kfs@.map_values(|c: CurveKeyframe| c@) =~= curve_base(ts, interps@, per_frame));
        while i < n
            invariant
                self.wf(),
                self.bytes() == s,
                s == old(self).bytes(),
                i <= n,
                p0 == old(self).position(),
                parse_u8(s, p0) == Ok::<(u8, int), AnimXError>((info, pos1)),
                per_frame == (info % 2 == 1),
                tangents == ((info / 2) % 2 == 1),
                parse_many(s, pos1, if per_frame { n as nat } else { 1 }, interpolation_item())
                    == Ok::<(Seq<Interpolation>, int), AnimXError>((interps@, pos2)),
                interps@.len() == if per_frame { n as nat } else { 1 },
                ts.len() == i,
                kfs@.len() == i,
                parse_many(s, pos2, i as nat, timed_item(k)) == Ok::<
                    (Seq<(u32, ValueView)>, int),
                    AnimXError,
                >((ts, self.position())),
                kfs@.map_values(|c: CurveKeyframe| c@) == curve_base(ts, interps@, per_frame),
            decreases n - i,
        {
            let kf = match self.read_timed(k) {
                Ok(kf) => kf,
                Err(e) => {
                    proof {
                        lemma_many_err(s, pos2, (i + 1) as nat, n as nat, timed_item(k));
                    }
                    return Err(e);
                },
            };
            let interpolation = if per_frame {
                interps[i as usize]
            } else {
                interps[0]
            };
            let ghost before = kfs@;
            proof {
                ts = ts.push((kf.time, kf.value@));
            }
            let made = CurveKeyframe {
                time: kf.time,
                value: kf.value,
                interpolation,
                left_tangent: None,
                right_tangent: None,
            };
            let ghost made_view = made@;
            kfs.push(made);
            assert(kfs@.last()@ == made_view);
            assert forall|x: int| 0 <= x < kfs@.len() implies (#[trigger] kfs@[x])@ == curve_base(
                ts,
                interps@,
                per_frame,
            )[x] by {
                if x < i {
                    assert(kfs@[x] == before[x]);
                    assert(before.map_values(|c: CurveKeyframe| c@)[x] == before[x]@);
                }
            }
            assert(kfs@.map_values(|c: CurveKeyframe| c@) =~= curve_base(ts, interps@, per_frame));
            i = i + 1;
        }
        if !tangents {
            return Ok(kfs);
        }
        let ghost pos3 = self.position();
        let ghost base = kfs@.map_values(|c: CurveKeyframe| c@);
        assert(base == curve_base(ts, interps@, per_frame));
        let ghost mut tg: Seq<(ValueView, ValueView)> = seq![];
        let mut j: u64 = 0;
        assert(base =~= with_tangents(base, tg));
        while j < n
            invariant
                self.wf(),
                self.bytes() == s,
                s == old(self).bytes(),
                j <= n,
                p0 == old(self).position(),
                parse_u8(s, p0) == Ok::<(u8, int), AnimXError>((info, pos1)),
                per_frame == (info % 2 == 1),
                tangents == ((info / 2) % 2 == 1),
                tangents,
                parse_many(s, pos1, if per_frame { n as nat } else { 1 }, interpolation_item())
                    == Ok::<(Seq<Interpolation>, int), AnimXError>((interps@, pos2)),
                parse_many(s, pos2, n as nat, timed_item(k)) == Ok::<
                    (Seq<(u32, ValueView)>, int),
                    AnimXError,
                >((ts, pos3)),
                base == curve_base(ts, interps@, per_frame),
                kfs@.len() == n,
                base.len() == n,
                tg.len() == j,
                parse_many(s, pos3, j as nat, tangent_item(k)) == Ok::<
                    (Seq<(ValueView, ValueView)>, int),
                    AnimXError,
                >((tg, self.position())),
                kfs@.map_values(|c: CurveKeyframe| c@) == with_tangents(base, tg),
            decreases n - j,
        {
            let (l, r) = match self.read_tangent_pair(k) {
                Ok(pair) => pair,
                Err(e) => {
                    proof {
                        lemma_many_err(s, pos3, (j + 1) as nat, n as nat, tangent_item(k));
                    }
                    return Err(e);
                },
            };
            proof {
                tg = tg.push((l@, r@));
            }
            let ghost before = kfs@;
            assert(j < kfs@.len());
            let idx = j as usize;
            let kf = kfs.remove(idx);
            let made = CurveKeyframe {
                time: kf.time,
                value: kf.value,
                interpolation: kf.interpolation,
                left_tangent: Some(l),
                right_tangent: Some(r),
            };
            let ghost made_copy = made;
            kfs.insert(idx, made);
            assert(kfs@ =~= before.update(idx as int, made_copy));
            assert(idx == j);
            assert(kfs@.map_values(|c: CurveKeyframe| c@) =~= with_tangents(base, tg)) by {
                assert forall|x: int| 0 <= x < n implies (#[trigger] kfs@[x])@ == with_tangents(
                    base,
                    tg,
                )[x] by {
                    assert(before.map_values(|c: CurveKeyframe| c@)[x] == before[x]@);
                    if x != j {
                        assert(kfs@[x] == before[x]);
                    }
                }
            }
            j = j + 1;
        }
        Ok(kfs)
    }

    /// The body of a track of kind `t` and value kind `k`, from the byte after its tags.
    pub fn read_track_body(&mut self, t: TrackType, k: ValueType) -> (r: Result<TrackData, AnimXError>)
        requires
            old(self).wf(),
            !(t is Bezier),
        ensures
            final(self).wf(),
            final(self).bytes() == old(self).bytes(),
            match parse_track_body(old(self).bytes(), old(self).position(), t, k) {
                Ok((d, q)) => r is Ok && r->Ok_0@ == d && final(self).position() == q,
                Err(e) => r == Err::<TrackData, AnimXError>(e),
            },
    {
        let node = self.read_string()?;
        let property = self.read_string()?;
        let n = self.read_varint()?;
        match t {
            TrackType::Raw => {
                let interval = self.read_f32()?;
                let keyframes = self.read_values(k, n)?;
                Ok(TrackData::Raw(RawData {
                    node: Some(node),
                    property: Some(property),
                    interval: Some(interval),
                    keyframes,
                }))
            },
            TrackType::Discrete => {
                let keyframes = self.read_discrete_keyframes(k, n)?;
                Ok(TrackData::Discrete(DiscreteData {
                    node: Some(node),
                    property: Some(property),
                    keyframes,
                }))
            },
            _ => {
                let keyframes = self.read_curve_keyframes(k, n)?;
                Ok(TrackData::Curve(CurveData {
                    node: Some(node),
                    property: Some(property),
                    keyframes,
                }))
            },
        }
    }

    /// One track record. A track-kind tag outside the known kinds fails with
    /// `IncorrectTrackType` and consumes nothing after that tag.
    pub fn read_track(&mut self) -> (r: Result<Track, AnimXError>)
        requires
            old(self).wf(),
        ensures
            final(self).wf(),
            final(self).bytes() == old(self).bytes(),
            match parse_track(old(self).bytes(), old(self).position()) {
                Ok((t, q)) => r is Ok && r->Ok_0@ == t && final(self).position() == q,
                Err(e) => r == Err::<Track, AnimXError>(e),
            },
            (parse_u8(old(self).bytes(), old(self).position()) is Ok && parse_u8(
                old(self).bytes(),
                old(self).position(),
            )->Ok_0.0 >= 3) ==> (r is Err && r->Err_0 is IncorrectTrackType
                && final(self).position() == old(self).position() + 1),
    {
        let tb = self.read_u8()?;
        let t = match TrackType::from_u8(tb) {
            Some(t) => t,
            None => return Err(AnimXError::IncorrectTrackType),
        };
        let vb = self.read_u8()?;
        let k = match ValueType::from_u8(vb) {
            Some(k) => k,
            None => return Err(AnimXError::IncorrectValueType),
        };
        let data = self.read_track_body(t, k)?;
        Ok(Track { value_type: k, data })
    }

    /// `n` track records.
    pub fn read_tracks(&mut self, n: u64) -> (r: Result<Vec<Track>, AnimXError>)
        requires
            old(self).wf(),
        ensures
            final(self).wf(),
            final(self).bytes() == old(self).bytes(),
            match parse_many(old(self).bytes(), old(self).position(), n as nat, track_item()) {
                Ok((ts, q)) => r is Ok && r->Ok_0@.map_values(|t: Track| t@) == ts
                    && final(self).position() == q,
                Err(e) => r == Err::<Vec<Track>, AnimXError>(e),
            },
    {
        let ghost s = self.bytes();
        let ghost p0 = self.position();
        let mut out: Vec<Track> = Vec::new();
        let mut i: u64 = 0;
        assert(out@.map_values(|t: Track| t@) =~= Seq::<TrackView>::empty());
        while i < n
            invariant
                self.wf(),
                self.bytes() == s,
                s == old(self).bytes(),
                p0 == old(self).position(),
                i <= n,
                parse_many(s, p0, i as nat, track_item()) == Ok::<(Seq<TrackView>, int), AnimXError>(
                    (out@.map_values(|t: Track| t@), self.position()),
                ),
            decreases n - i,
        {
            let t = match self.read_track() {
                Ok(t) => t,
                Err(e) => {
                    proof {
                        lemma_many_err(s, p0, (i + 1) as nat, n as nat, track_item());
                    }
                    return Err(e);
                },
            };
            let ghost before = out@;
            let ghost tv = t@;
            out.push(t);
            assert(out@.map_values(|t: Track| t@) =~= before.map_values(|t: Track| t@).push(tv));
            i = i + 1;
        }
        Ok(out)
    }

    /// A whole AnimX stream: header, then the tracks it announces.
    pub fn read_animx(&mut self) -> (r: Result<Animation, AnimXError>)
        requires
            old(self).wf(),
        ensures
            final(self).wf(),
            final(self).bytes() == old(self).bytes(),
            match parse_animation(old(self).bytes(), old(self).position()) {
                Ok((a, q)) => r is Ok && r->Ok_0@ == a && final(self).position() == q,
                Err(e) => r == Err::<Animation, AnimXError>(e),
            },
    {
        let magic = self.read_string()?;
        let expected = "AnimX".to_owned();
        if !(magic == expected) {
            return Err(AnimXError::IncorrectHeader);
        }
        let version = self.read_le(4)?;
        if version != 1 {
            return Err(AnimXError::UnsupportedVersion);
        }
        let count = self.read_varint()?;
        let duration = self.read_f32()?;
        let name = self.read_string()?;
        let flag = self.read_u8()?;
        if flag != 0 {
            return Err(AnimXError::UnsupportedEncoding);
        }
        let tracks = self.read_tracks(count)?;
        Ok(Animation { name: Some(name), global_duration: Some(duration), tracks })
    }
}

impl Animation {
    /// Decodes an AnimX stream. Compression is not supported.
    pub fn from_animx(data: Vec<u8>) -> (r: Result<Animation, AnimXError>)
        ensures
            match parse_animation(data@, 0) {
                Ok((a, _)) => r is Ok && r->Ok_0@ == a,
                Err(e) => r == Err::<Animation, AnimXError>(e),
            },
    {
        let mut reader = AnimXReader::new(data);
        reader.read_animx()
    }
}

} // verus!
