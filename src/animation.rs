//! The animation model (tracks of keyframes) and its AnimX encoding.
use vstd::prelude::*;
use crate::error::AnimXError;
use crate::types::{
    Interpolation, TrackType, Value, ValueType, ValueView, interpolation_tag, track_type_tag,
    value_bytes, value_type_tag, values_bytes,
};
use crate::wire::{
    le_bytes, opt_f32_bytes, opt_str_bytes, push_le, str_bytes, varint_bytes, write_opt_f32,
    write_opt_string, write_string, write_varint,
};

verus! {

/// Sampled keyframes: bare values, evenly spaced from time 0 by `interval`.
#[derive(Debug, Clone)]
pub struct RawData {
    pub node: Option<String>,
    pub property: Option<String>,
    /// Seconds between samples, as the bit pattern of a single-precision float.
    pub interval: Option<u32>,
    pub keyframes: Vec<Value>,
}

/// One sparse keyframe.
#[derive(Debug, Clone)]
pub struct DiscreteKeyframe {
    /// Seconds, as the bit pattern of a single-precision float.
    pub time: u32,
    pub value: Value,
}

/// Sparse keyframes: (time, value) pairs.
#[derive(Debug, Clone)]
pub struct DiscreteData {
    pub node: Option<String>,
    pub property: Option<String>,
    pub keyframes: Vec<DiscreteKeyframe>,
}

/// One interpolated keyframe. Its tangents, when present, are values of the
/// track's own kind.
#[derive(Debug, Clone)]
pub struct CurveKeyframe {
    /// Seconds, as the bit pattern of a single-precision float.
    pub time: u32,
    pub value: Value,
    pub interpolation: Interpolation,
    pub left_tangent: Option<Value>,
    pub right_tangent: Option<Value>,
}

/// Interpolated keyframes. Either every keyframe carries a tangent pair or none does.
#[derive(Debug, Clone)]
pub struct CurveData {
    pub node: Option<String>,
    pub property: Option<String>,
    pub keyframes: Vec<CurveKeyframe>,
}

/// The keyframes of a track, in one of the three shapes.
#[derive(Debug, Clone)]
pub enum TrackData {
    Raw(RawData),
    Discrete(DiscreteData),
    Curve(CurveData),
}

/// One animated property: its keyframes and the kind of value they hold.
#[derive(Debug, Clone)]
pub struct Track {
    pub value_type: ValueType,
    pub data: TrackData,
}

/// An animation clip: an optional name, an optional duration, and its tracks in order.
#[derive(Debug, Clone)]
pub struct Animation {
    pub name: Option<String>,
    /// Seconds, as the bit pattern of a single-precision float.
    pub global_duration: Option<u32>,
    pub tracks: Vec<Track>,
}

pub open spec fn opt_text(o: Option<String>) -> Option<Seq<char>> {
    match o {
        Some(s) => Some(s@),
        None => None,
    }
}

pub open spec fn opt_value(o: Option<Value>) -> Option<ValueView> {
    match o {
        Some(v) => Some(v@),
        None => None,
    }
}

pub struct CurveKeyframeView {
    pub time: u32,
    pub value: ValueView,
    pub interpolation: Interpolation,
    pub left_tangent: Option<ValueView>,
    pub right_tangent: Option<ValueView>,
}

impl View for CurveKeyframe {
    type V = CurveKeyframeView;

    open spec fn view(&self) -> CurveKeyframeView {
        CurveKeyframeView {
            time: self.time,
            value: self.value@,
            interpolation: self.interpolation,
            left_tangent: opt_value(self.left_tangent),
            right_tangent: opt_value(self.right_tangent),
        }
    }
}

pub enum TrackDataView {
    Raw {
        node: Option<Seq<char>>,
        property: Option<Seq<char>>,
        interval: Option<u32>,
        keyframes: Seq<ValueView>,
    },
    Discrete {
        node: Option<Seq<char>>,
        property: Option<Seq<char>>,
        keyframes: Seq<(u32, ValueView)>,
    },
    Curve {
        node: Option<Seq<char>>,
        property: Option<Seq<char>>,
        keyframes: Seq<CurveKeyframeView>,
    },
}

impl View for TrackData {
    type V = TrackDataView;

    open spec fn view(&self) -> TrackDataView {
        match self {
            TrackData::Raw(d) => TrackDataView::Raw {
                node: opt_text(d.node),
                property: opt_text(d.property),
                interval: d.interval,
                keyframes: d.keyframes@.map_values(|v: Value| v@),
            },
            TrackData::Discrete(d) => TrackDataView::Discrete {
                node: opt_text(d.node),
                property: opt_text(d.property),
                keyframes: d.keyframes@.map_values(|k: DiscreteKeyframe| (k.time, k.value@)),
            },
            TrackData::Curve(d) => TrackDataView::Curve {
                node: opt_text(d.node),
                property: opt_text(d.property),
                keyframes: d.keyframes@.map_values(|k: CurveKeyframe| k@),
            },
        }
    }
}

pub struct TrackView {
    pub value_type: ValueType,
    pub data: TrackDataView,
}

impl TrackView {
    pub open spec fn track_type(self) -> TrackType {
        match self.data {
            TrackDataView::Raw { .. } => TrackType::Raw,
            TrackDataView::Discrete { .. } => TrackType::Discrete,
            TrackDataView::Curve { .. } => TrackType::Curve,
        }
    }
}

impl View for Track {
    type V = TrackView;

    open spec fn view(&self) -> TrackView {
        TrackView { value_type: self.value_type, data: self.data@ }
    }
}

pub struct AnimationView {
    pub name: Option<Seq<char>>,
    pub global_duration: Option<u32>,
    pub tracks: Seq<TrackView>,
}

impl View for Animation {
    type V = AnimationView;

    open spec fn view(&self) -> AnimationView {
        AnimationView {
            name: opt_text(self.name),
            global_duration: self.global_duration,
            tracks: self.tracks@.map_values(|t: Track| t@),
        }
    }
}

// ---------------------------------------------------------------------------
// Consistency of a track with its declared value kind.

pub open spec fn has_tangent_pair(k: CurveKeyframeView) -> bool {
    k.left_tangent is Some && k.right_tangent is Some
}

pub open spec fn has_no_tangent(k: CurveKeyframeView) -> bool {
    k.left_tangent is None && k.right_tangent is None
}

/// Every keyframe carries a tangent pair, or none carries any tangent.
pub open spec fn tangents_uniform(kfs: Seq<CurveKeyframeView>) -> bool {
    (forall|i: int| 0 <= i < kfs.len() ==> has_tangent_pair(#[trigger] kfs[i])) || (forall|i: int|
        0 <= i < kfs.len() ==> has_no_tangent(#[trigger] kfs[i]))
}

/// The tangents are written: there are keyframes and each carries a pair.
pub open spec fn writes_tangents(kfs: Seq<CurveKeyframeView>) -> bool {
    kfs.len() > 0 && forall|i: int| 0 <= i < kfs.len() ==> has_tangent_pair(#[trigger] kfs[i])
}

pub open spec fn opt_kind_is(o: Option<ValueView>, k: ValueType) -> bool {
    match o {
        Some(v) => v.kind == k,
        None => true,
    }
}

/// Every value in the keyframes has kind `k`.
pub open spec fn kinds_agree(d: TrackDataView, k: ValueType) -> bool {
    match d {
        TrackDataView::Raw { keyframes, .. } => forall|i: int|
            0 <= i < keyframes.len() ==> (#[trigger] keyframes[i]).kind == k,
        TrackDataView::Discrete { keyframes, .. } => forall|i: int|
            0 <= i < keyframes.len() ==> (#[trigger] keyframes[i]).1.kind == k,
        TrackDataView::Curve { keyframes, .. } => forall|i: int|
            0 <= i < keyframes.len() ==> {
                &&& (#[trigger] keyframes[i]).value.kind == k
                &&& opt_kind_is(keyframes[i].left_tangent, k)
                &&& opt_kind_is(keyframes[i].right_tangent, k)
            },
    }
}

/// Why a track cannot be encoded, if it cannot.
pub open spec fn track_error(t: TrackView) -> Option<AnimXError> {
    if !kinds_agree(t.data, t.value_type) {
        Some(AnimXError::IncorrectValueType)
    } else {
        match t.data {
            TrackDataView::Curve { keyframes, .. } => if tangents_uniform(keyframes) {
                None
            } else {
                Some(AnimXError::InconsistentTangents)
            },
            _ => None,
        }
    }
}

/// The error of the first track that cannot be encoded, if any.
pub open spec fn tracks_error(ts: Seq<TrackView>) -> Option<AnimXError>
    decreases ts.len(),
{
    if ts.len() == 0 {
        None
    } else {
        match tracks_error(ts.drop_last()) {
            Some(e) => Some(e),
            None => track_error(ts.last()),
        }
    }
}

proof fn lemma_tracks_error_stays(ts: Seq<TrackView>, i: int)
    requires
        0 <= i <= ts.len(),
        tracks_error(ts.subrange(0, i)) is Some,
    ensures
        tracks_error(ts) == tracks_error(ts.subrange(0, i)),
    decreases ts.len() - i,
{
    if i < ts.len() {
        assert(ts.drop_last().subrange(0, i) =~= ts.subrange(0, i));
        lemma_tracks_error_stays(ts.drop_last(), i);
    } else {
        assert(ts.subrange(0, i) =~= ts);
    }
}

// ---------------------------------------------------------------------------
// The encoding.

/// (time, value) pairs on the wire.
pub open spec fn timed_bytes(kfs: Seq<(u32, ValueView)>) -> Seq<u8>
    decreases kfs.len(),
{
    if kfs.len() == 0 {
        seq![]
    } else {
        timed_bytes(kfs.drop_last()) + le_bytes(kfs.last().0 as nat, 4) + value_bytes(
            kfs.last().1,
        )
    }
}

/// The (left, right) tangent pairs of curve keyframes on the wire.
pub open spec fn tangent_bytes(kfs: Seq<CurveKeyframeView>) -> Seq<u8>
    decreases kfs.len(),
{
    if kfs.len() == 0 {
        seq![]
    } else {
        tangent_bytes(kfs.drop_last()) + value_bytes(kfs.last().left_tangent->0) + value_bytes(
            kfs.last().right_tangent->0,
        )
    }
}

pub open spec fn curve_timed(kfs: Seq<CurveKeyframeView>) -> Seq<(u32, ValueView)> {
    kfs.map_values(|k: CurveKeyframeView| (k.time, k.value))
}

/// The curve info byte. Bit 0 (one interpolation tag per keyframe) is always
/// set by this encoder; bit 1 says that tangent pairs follow.
pub open spec fn curve_info(kfs: Seq<CurveKeyframeView>) -> u8 {
    if writes_tangents(kfs) {
        3
    } else {
        1
    }
}

/// The body of a track on the wire.
pub open spec fn track_body_bytes(d: TrackDataView) -> Seq<u8> {
    match d {
        TrackDataView::Raw { node, property, interval, keyframes } => opt_str_bytes(node)
            + opt_str_bytes(property) + varint_bytes(keyframes.len()) + opt_f32_bytes(interval)
            + values_bytes(keyframes),
        TrackDataView::Discrete { node, property, keyframes } => opt_str_bytes(node)
            + opt_str_bytes(property) + varint_bytes(keyframes.len()) + timed_bytes(keyframes),
        TrackDataView::Curve { node, property, keyframes } => opt_str_bytes(node)
            + opt_str_bytes(property) + varint_bytes(keyframes.len()) + seq![
            curve_info(keyframes),
        ] + keyframes.map_values(|k: CurveKeyframeView| interpolation_tag(k.interpolation))
            + timed_bytes(curve_timed(keyframes)) + if writes_tangents(keyframes) {
            tangent_bytes(keyframes)
        } else {
            seq![]
        },
    }
}

/// A track on the wire: its two tags, then its body.
pub open spec fn track_bytes(t: TrackView) -> Seq<u8> {
    seq![track_type_tag(t.track_type()), value_type_tag(t.value_type)] + track_body_bytes(t.data)
}

pub open spec fn tracks_bytes(ts: Seq<TrackView>) -> Seq<u8>
    decreases ts.len(),
{
    if ts.len() == 0 {
        seq![]
    } else {
        tracks_bytes(ts.drop_last()) + track_bytes(ts.last())
    }
}

/// A whole AnimX stream: magic, version 1, track count, duration, name,
/// encoding flag 0, then the tracks.
pub open spec fn animation_bytes(a: AnimationView) -> Seq<u8> {
    str_bytes("AnimX"@) + le_bytes(1, 4) + varint_bytes(a.tracks.len()) + opt_f32_bytes(
        a.global_duration,
    ) + opt_str_bytes(a.name) + seq![0u8] + tracks_bytes(a.tracks)
}

fn write_values(out: &mut Vec<u8>, vs: &Vec<Value>)
    ensures
        final(out)@ == old(out)@ + values_bytes(vs@.map_values(|v: Value| v@)),
{
    let mut i: usize = 0;
    assert(vs@.subrange(0, 0).map_values(|v: Value| v@) =~= Seq::<ValueView>::empty());
    while i < vs.len()
        invariant
            i <= vs@.len(),
            out@ == old(out)@ + values_bytes(vs@.subrange(0, i as int).map_values(|v: Value| v@)),
        decreases vs@.len() - i,
    {
        vs[i].write(out);
        let ghost m = vs@.subrange(0, i + 1).map_values(|v: Value| v@);
        assert(m.drop_last() =~= vs@.subrange(0, i as int).map_values(|v: Value| v@));
        i = i + 1;
    }
    assert(vs@.subrange(0, vs@.len() as int) =~= vs@);
}

fn write_discrete(out: &mut Vec<u8>, kfs: &Vec<DiscreteKeyframe>)
    ensures
        final(out)@ == old(out)@ + timed_bytes(
            kfs@.map_values(|k: DiscreteKeyframe| (k.time, k.value@)),
        ),
{
    let mut i: usize = 0;
    assert(kfs@.subrange(0, 0).map_values(|k: DiscreteKeyframe| (k.time, k.value@)) =~= Seq::<
        (u32, ValueView),
    >::empty());
    while i < kfs.len()
        invariant
            i <= kfs@.len(),
            out@ == old(out)@ + timed_bytes(
                kfs@.subrange(0, i as int).map_values(|k: DiscreteKeyframe| (k.time, k.value@)),
            ),
        decreases kfs@.len() - i,
    {
        push_le(out, kfs[i].time as u64, 4);
        kfs[i].value.write(out);
        let ghost m = kfs@.subrange(0, i + 1).map_values(
            |k: DiscreteKeyframe| (k.time, k.value@),
        );
        assert(m.drop_last() =~= kfs@.subrange(0, i as int).map_values(
            |k: DiscreteKeyframe| (k.time, k.value@),
        ));
        i = i + 1;
    }
    assert(kfs@.subrange(0, kfs@.len() as int) =~= kfs@);
}

fn write_curve_timed(out: &mut Vec<u8>, kfs: &Vec<CurveKeyframe>)
    ensures
        final(out)@ == old(out)@ + timed_bytes(
            curve_timed(kfs@.map_values(|k: CurveKeyframe| k@)),
        ),
{
    let ghost all = curve_timed(kfs@.map_values(|k: CurveKeyframe| k@));
    let mut i: usize = 0;
    assert(all.subrange(0, 0) =~= Seq::<(u32, ValueView)>::empty());
    while i < kfs.len()
        invariant
            i <= kfs@.len(),
            all == curve_timed(kfs@.map_values(|k: CurveKeyframe| k@)),
            out@ == old(out)@ + timed_bytes(all.subrange(0, i as int)),
        decreases kfs@.len() - i,
    {
        push_le(out, kfs[i].time as u64, 4);
        kfs[i].value.write(out);
        assert(all.subrange(0, i + 1).drop_last() =~= all.subrange(0, i as int));
        i = i + 1;
    }
    assert(all.subrange(0, kfs@.len() as int) =~= all);
}

fn write_interpolations(out: &mut Vec<u8>, kfs: &Vec<CurveKeyframe>)
    ensures
        final(out)@ == old(out)@ + kfs@.map_values(|k: CurveKeyframe| k@).map_values(
            |k: CurveKeyframeView| interpolation_tag(k.interpolation),
        ),
{
    let ghost all = kfs@.map_values(|k: CurveKeyframe| k@).map_values(
        |k: CurveKeyframeView| interpolation_tag(k.interpolation),
    );
    let mut i: usize = 0;
    while i < kfs.len()
        invariant
            i <= kfs@.len(),
            all.len() == kfs@.len(),
            all == kfs@.map_values(|k: CurveKeyframe| k@).map_values(
                |k: CurveKeyframeView| interpolation_tag(k.interpolation),
            ),
            out@ == old(out)@ + all.subrange(0, i as int),
        decreases kfs@.len() - i,
    {
        out.push(kfs[i].interpolation.tag());
        assert(all.subrange(0, i + 1) =~= all.subrange(0, i as int).push(all[i as int]));
        i = i + 1;
    }
    assert(all.subrange(0, kfs@.len() as int) =~= all);
}

fn write_tangents(out: &mut Vec<u8>, kfs: &Vec<CurveKeyframe>)
    requires
        forall|i: int|
            0 <= i < kfs@.len() ==> has_tangent_pair((#[trigger] kfs@[i])@),
    ensures
        final(out)@ == old(out)@ + tangent_bytes(kfs@.map_values(|k: CurveKeyframe| k@)),
{
    let ghost all = kfs@.map_values(|k: CurveKeyframe| k@);
    let mut i: usize = 0;
    assert(all.subrange(0, 0) =~= Seq::<CurveKeyframeView>::empty());
    while i < kfs.len()
        invariant
            i <= kfs@.len(),
            all == kfs@.map_values(|k: CurveKeyframe| k@),
            forall|j: int| 0 <= j < kfs@.len() ==> has_tangent_pair((#[trigger] kfs@[j])@),
            out@ == old(out)@ + tangent_bytes(all.subrange(0, i as int)),
        decreases kfs@.len() - i,
    {
        assert(has_tangent_pair(kfs@[i as int]@));
        match (&kfs[i].left_tangent, &kfs[i].right_tangent) {
            (Some(l), Some(r)) => {
                l.write(out);
                r.write(out);
            },
            _ => {},
        }
        assert(all.subrange(0, i + 1).drop_last() =~= all.subrange(0, i as int));
        i = i + 1;
    }
    assert(all.subrange(0, kfs@.len() as int) =~= all);
}

impl RawData {
    /// Appends the body of a sampled track.
    pub fn write(&self, out: &mut Vec<u8>)
        ensures
            final(out)@ == old(out)@ + track_body_bytes(TrackData::Raw(*self)@),
    {
        write_opt_string(out, &self.node);
        write_opt_string(out, &self.property);
        write_varint(out, self.keyframes.len() as u64);
        write_opt_f32(out, self.interval);
        write_values(out, &self.keyframes);
        assert(out@ =~= old(out)@ + track_body_bytes(TrackData::Raw(*self)@));
    }
}

impl DiscreteData {
    /// Appends the body of a sparse track.
    pub fn write(&self, out: &mut Vec<u8>)
        ensures
            final(out)@ == old(out)@ + track_body_bytes(TrackData::Discrete(*self)@),
    {
        write_opt_string(out, &self.node);
        write_opt_string(out, &self.property);
        write_varint(out, self.keyframes.len() as u64);
        write_discrete(out, &self.keyframes);
        assert(out@ =~= old(out)@ + track_body_bytes(TrackData::Discrete(*self)@));
    }
}

impl CurveData {
    /// Appends the body of an interpolated track.
    pub fn write(&self, out: &mut Vec<u8>)
        requires
            tangents_uniform(self.keyframes@.map_values(|k: CurveKeyframe| k@)),
        ensures
            final(out)@ == old(out)@ + track_body_bytes(TrackData::Curve(*self)@),
    {
        let ghost m = self.keyframes@.map_values(|k: CurveKeyframe| k@);
        write_opt_string(out, &self.node);
        write_opt_string(out, &self.property);
        write_varint(out, self.keyframes.len() as u64);
        let tangents = self.keyframes.len() > 0 && match &self.keyframes[0].left_tangent {
            Some(_) => match &self.keyframes[0].right_tangent {
                Some(_) => true,
                None => false,
            },
            None => false,
        };
        assert(tangents == writes_tangents(m)) by {
            if self.keyframes@.len() > 0 {
                assert(m[0] == self.keyframes@[0]@);
            }
        }
        out.push(if tangents { 3u8 } else { 1u8 });
        write_interpolations(out, &self.keyframes);
        write_curve_timed(out, &self.keyframes);
        if tangents {
            assert forall|i: int| 0 <= i < self.keyframes@.len() implies has_tangent_pair(
                (#[trigger] self.keyframes@[i])@,
            ) by {
                assert(m[i] == self.keyframes@[i]@);
            }
            write_tangents(out, &self.keyframes);
        }
        assert(out@ =~= old(out)@ + track_body_bytes(TrackData::Curve(*self)@));
    }
}

impl Track {
    /// The track kind, from the shape of its keyframes.
    pub fn track_type(&self) -> (r: TrackType)
        ensures
            r == self@.track_type(),
    {
        match &self.data {
            TrackData::Raw(_) => TrackType::Raw,
            TrackData::Discrete(_) => TrackType::Discrete,
            TrackData::Curve(_) => TrackType::Curve,
        }
    }

    /// Why this track cannot be encoded, if it cannot: a value of another kind
    /// than the track declares, or a curve whose tangents are not all-or-nothing.
    pub fn check(&self) -> (r: Option<AnimXError>)
        ensures
            r == track_error(self@),
    {
        let k = self.value_type;
        match &self.data {
            TrackData::Raw(d) => {
                let ghost m = d.keyframes@.map_values(|v: Value| v@);
                let mut i: usize = 0;
                while i < d.keyframes.len()
                    invariant
                        i <= d.keyframes@.len(),
                        m == d.keyframes@.map_values(|v: Value| v@),
                        self@.data is Raw,
                        self@.data->Raw_keyframes == m,
                        k == self.value_type,
                        forall|j: int| 0 <= j < i ==> (#[trigger] m[j]).kind == k,
                    decreases d.keyframes@.len() - i,
                {
                    assert(m[i as int] == d.keyframes@[i as int]@);
                    if d.keyframes[i].kind() != k {
                        return Some(AnimXError::IncorrectValueType);
                    }
                    i = i + 1;
                }
                None
            },
            TrackData::Discrete(d) => {
                let ghost m = d.keyframes@.map_values(|k: DiscreteKeyframe| (k.time, k.value@));
                let mut i: usize = 0;
                while i < d.keyframes.len()
                    invariant
                        i <= d.keyframes@.len(),
                        m == d.keyframes@.map_values(|k: DiscreteKeyframe| (k.time, k.value@)),
                        self@.data is Discrete,
                        self@.data->Discrete_keyframes == m,
                        k == self.value_type,
                        forall|j: int| 0 <= j < i ==> (#[trigger] m[j]).1.kind == k,
                    decreases d.keyframes@.len() - i,
                {
                    assert(m[i as int] == (d.keyframes@[i as int].time, d.keyframes@[i as int].value@));
                    if d.keyframes[i].value.kind() != k {
                        return Some(AnimXError::IncorrectValueType);
                    }
                    i = i + 1;
                }
                None
            },
            TrackData::Curve(d) => {
                let ghost m = d.keyframes@.map_values(|k: CurveKeyframe| k@);
                let mut all_pairs = true;
                let mut all_none = true;
                let mut i: usize = 0;
                while i < d.keyframes.len()
                    invariant
                        i <= d.keyframes@.len(),
                        m == d.keyframes@.map_values(|k: CurveKeyframe| k@),
                        self@.data is Curve,
                        self@.data->Curve_keyframes == m,
                        k == self.value_type,
                        forall|j: int|
                            0 <= j < i ==> {
                                &&& (#[trigger] m[j]).value.kind == k
                                &&& opt_kind_is(m[j].left_tangent, k)
                                &&& opt_kind_is(m[j].right_tangent, k)
                            },
                        all_pairs <==> forall|j: int| 0 <= j < i ==> has_tangent_pair(
                            #[trigger] m[j],
                        ),
                        all_none <==> forall|j: int| 0 <= j < i ==> has_no_tangent(
                            #[trigger] m[j],
                        ),
                    decreases d.keyframes@.len() - i,
                {
                    let kf = &d.keyframes[i];
                    assert(m[i as int] == kf@);
                    if kf.value.kind() != k {
                        return Some(AnimXError::IncorrectValueType);
                    }
                    match &kf.left_tangent {
                        Some(v) => {
                            if v.kind() != k {
                                return Some(AnimXError::IncorrectValueType);
                            }
                        },
                        None => {},
                    }
                    match &kf.right_tangent {
                        Some(v) => {
                            if v.kind() != k {
                                return Some(AnimXError::IncorrectValueType);
                            }
                        },
                        None => {},
                    }
                    let pair = kf.left_tangent.is_some() && kf.right_tangent.is_some();
                    let none = kf.left_tangent.is_none() && kf.right_tangent.is_none();
                    all_pairs = all_pairs && pair;
                    all_none = all_none && none;
                    i = i + 1;
                }
                if all_pairs || all_none {
                    None
                } else {
                    Some(AnimXError::InconsistentTangents)
                }
            },
        }
    }

    /// Appends this track: its two tags, then its body.
    pub fn write(&self, out: &mut Vec<u8>)
        requires
            track_error(self@) is None,
        ensures
            final(out)@ == old(out)@ + track_bytes(self@),
    {
        out.push(self.track_type().tag());
        out.push(self.value_type.tag());
        match &self.data {
            TrackData::Raw(d) => d.write(out),
            TrackData::Discrete(d) => d.write(out),
            TrackData::Curve(d) => {
                assert(tangents_uniform(self@.data->Curve_keyframes));
                d.write(out);
            },
        }
        assert(out@ =~= old(out)@ + track_bytes(self@));
    }
}

/// What the rest of the system sees of a track: its two tags, and its record.
pub trait TrackTrait {
    /// The (track kind, value kind) tags.
    fn tags(&self) -> (TrackType, ValueType);

    /// Appends the whole track record, or returns why the track cannot be encoded.
    fn write_record(&self, out: &mut Vec<u8>) -> Result<(), AnimXError>;
}

impl TrackTrait for Track {
    fn tags(&self) -> (r: (TrackType, ValueType))
        ensures
            r == (self@.track_type(), self.value_type),
    {
        (self.track_type(), self.value_type)
    }

    fn write_record(&self, out: &mut Vec<u8>) -> (r: Result<(), AnimXError>)
        ensures
            match track_error(self@) {
                Some(e) => r == Err::<(), AnimXError>(e) && final(out)@ == old(out)@,
                None => r is Ok && final(out)@ == old(out)@ + track_bytes(self@),
            },
    {
        match self.check() {
            Some(e) => Err(e),
            None => {
                self.write(out);
                Ok(())
            },
        }
    }
}

impl Animation {
    /// Appends this animation as an AnimX stream. Nothing is appended, and the
    /// error is returned, when a track cannot be encoded.
    pub fn write_animx(&self, out: &mut Vec<u8>) -> (r: Result<(), AnimXError>)
        ensures
            match tracks_error(self@.tracks) {
                Some(e) => r == Err::<(), AnimXError>(e) && final(out)@ == old(out)@,
                None => r is Ok && final(out)@ == old(out)@ + animation_bytes(self@),
            },
    {
        match check_tracks(&self.tracks) {
            Some(e) => return Err(e),
            None => {},
        }
        let ghost ts = self@.tracks;
        write_string(out, "AnimX");
        push_le(out, 1, 4);
        write_varint(out, self.tracks.len() as u64);
        write_opt_f32(out, self.global_duration);
        write_opt_string(out, &self.name);
        out.push(0u8);
        let ghost start = out@;
        let mut j: usize = 0;
        while j < self.tracks.len()
            invariant
                j <= self.tracks@.len(),
                ts == self.tracks@.map_values(|t: Track| t@),
                tracks_error(ts) is None,
                out@ == start + tracks_bytes(ts.subrange(0, j as int)),
            decreases self.tracks@.len() - j,
        {
            proof {
                lemma_tracks_error_none(ts, j as int);
            }
            self.tracks[j].write(out);
            assert(ts.subrange(0, j + 1).drop_last() =~= ts.subrange(0, j as int));
            j = j + 1;
        }
        assert(ts.subrange(0, ts.len() as int) =~= ts);
        assert(out@ =~= old(out)@ + animation_bytes(self@));
        Ok(())
    }
}

/// The error of the first track that cannot be encoded, if any.
fn check_tracks(tracks: &Vec<Track>) -> (r: Option<AnimXError>)
    ensures
        r == tracks_error(tracks@.map_values(|t: Track| t@)),
{
    let ghost ts = tracks@.map_values(|t: Track| t@);
    let mut i: usize = 0;
    assert(ts.subrange(0, 0) =~= Seq::<TrackView>::empty());
    while i < tracks.len()
        invariant
            i <= tracks@.len(),
            ts == tracks@.map_values(|t: Track| t@),
            tracks_error(ts.subrange(0, i as int)) is None,
        decreases tracks@.len() - i,
    {
        let c = tracks[i].check();
        assert(ts.subrange(0, i + 1).drop_last() =~= ts.subrange(0, i as int));
        match c {
            Some(e) => {
                proof {
                    lemma_tracks_error_stays(ts, i + 1);
                }
                return Some(e);
            },
            None => {},
        }
        i = i + 1;
    }
    assert(ts.subrange(0, ts.len() as int) =~= ts);
    None
}

proof fn lemma_tracks_error_none(ts: Seq<TrackView>, j: int)
    requires
        0 <= j < ts.len(),
        tracks_error(ts) is None,
    ensures
        track_error(ts[j]) is None,
    decreases ts.len(),
{
    if j < ts.len() - 1 {
        lemma_tracks_error_none(ts.drop_last(), j);
    }
}

} // verus!
