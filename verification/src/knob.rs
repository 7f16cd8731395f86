//! Knobs: named values that vary from frame to frame of an animation.
//!
//! Each knob has a track with one value per frame. A track starts out
//! holding the neutral multiplier one everywhere; varying the knob over a
//! range of frames fills that range with values that run linearly from the
//! first to the last.
use crate::error::ConfigurationError;
use crate::scalar::{
    clamp64, clamp_wide, div_wide, lemma_product_bounds, trunc_quotient, Scalar, ONE_RAW,
};
use vstd::prelude::*;

verus! {

/// One knob: its name and its track.
pub struct KnobTrack {
    pub name: String,
    pub values: Vec<Scalar>,
}

/// The knobs of an animation, in the order in which they were first varied.
pub struct KnobTable {
    knobs: Vec<KnobTrack>,
}

/// The value at `frame` of a knob that runs linearly from `v0` at `start`
/// to `v1` at `end`: `v0 + (frame - start) * (v1 - v0) / (end - start)`.
pub open spec fn interpolated(v0: Scalar, v1: Scalar, start: int, end: int, frame: int) -> Scalar {
    Scalar {
        raw: clamp64(v0@ + trunc_quotient((frame - start) * clamp64(v1@ - v0@), end - start)) as i64,
    }
}

/// The track of a knob that has not been varied yet: one at every frame
/// from 0 to `total_frames`.
pub open spec fn neutral_track(total_frames: int) -> Seq<Scalar> {
    Seq::new((total_frames + 1) as nat, |f: int| Scalar { raw: ONE_RAW })
}

/// `track` with the frames `start ..= end` filled by interpolation.
pub open spec fn varied(track: Seq<Scalar>, start: int, end: int, v0: Scalar, v1: Scalar) -> Seq<
    Scalar,
> {
    Seq::new(
        track.len(),
        |f: int|
            if start <= f <= end {
                interpolated(v0, v1, start, end, f)
            } else {
                track[f]
            },
    )
}

/// The index of the first entry from `from` on that bears `name`, or the
/// number of entries if there is none.
pub open spec fn first_index(
    entries: Seq<(Seq<char>, Seq<Scalar>)>,
    name: Seq<char>,
    from: int,
) -> int
    decreases entries.len() - from,
{
    if from < 0 || from >= entries.len() {
        entries.len() as int
    } else if entries[from].0 == name {
        from
    } else {
        first_index(entries, name, from + 1)
    }
}

/// The track of the knob `name`, or `None` if no knob bears that name.
pub open spec fn track_of(entries: Seq<(Seq<char>, Seq<Scalar>)>, name: Seq<char>) -> Option<
    Seq<Scalar>,
> {
    let i = first_index(entries, name, 0);
    if i < entries.len() {
        Some(entries[i].1)
    } else {
        None
    }
}

/// The track that a knob is varied on: its own, or a neutral one for a knob
/// that does not exist yet.
pub open spec fn base_track(
    entries: Seq<(Seq<char>, Seq<Scalar>)>,
    name: Seq<char>,
    total_frames: int,
) -> Seq<Scalar> {
    match track_of(entries, name) {
        Some(track) => track,
        None => neutral_track(total_frames),
    }
}

/// Why a knob cannot be varied over `start ..= end`, if it cannot.
pub open spec fn vary_error(
    entries: Seq<(Seq<char>, Seq<Scalar>)>,
    name: Seq<char>,
    start: int,
    end: int,
    total_frames: int,
) -> Option<ConfigurationError> {
    if start == end {
        Some(ConfigurationError::ZeroLengthVary)
    } else if end < start || end >= base_track(entries, name, total_frames).len() {
        Some(ConfigurationError::VaryOutOfRange)
    } else {
        None
    }
}

/// The knobs after the knob `name` has been varied over `start ..= end`:
/// its track replaced where it exists, and a new knob added at the end
/// where it does not.
pub open spec fn with_vary(
    entries: Seq<(Seq<char>, Seq<Scalar>)>,
    name: Seq<char>,
    start: int,
    end: int,
    v0: Scalar,
    v1: Scalar,
    total_frames: int,
) -> Seq<(Seq<char>, Seq<Scalar>)> {
    let i = first_index(entries, name, 0);
    let track = varied(base_track(entries, name, total_frames), start, end, v0, v1);
    if i < entries.len() {
        entries.update(i, (name, track))
    } else {
        entries.push((name, track))
    }
}

/// Where the first entry that bears `name` lies.
pub proof fn lemma_first_index(entries: Seq<(Seq<char>, Seq<Scalar>)>, name: Seq<char>, from: int)
    requires
        0 <= from <= entries.len(),
    ensures
        from <= first_index(entries, name, from) <= entries.len(),
        first_index(entries, name, from) < entries.len() ==> entries[first_index(
            entries,
            name,
            from,
        )].0 == name,
        forall|j: int| from <= j < first_index(entries, name, from) ==> entries[j].0 != name,
    decreases entries.len() - from,
{
    if from < entries.len() && entries[from].0 != name {
        lemma_first_index(entries, name, from + 1);
    }
}

/// The first entry that bears `name` is found by its properties: it bears
/// the name and no entry before it does.
pub proof fn lemma_first_index_is(
    entries: Seq<(Seq<char>, Seq<Scalar>)>,
    name: Seq<char>,
    from: int,
    i: int,
)
    requires
        0 <= from <= i <= entries.len(),
        i < entries.len() ==> entries[i].0 == name,
        forall|j: int| from <= j < i ==> entries[j].0 != name,
    ensures
        first_index(entries, name, from) == i,
    decreases entries.len() - from,
{
    if from < i {
        lemma_first_index_is(entries, name, from + 1, i);
    }
}

/// Replacing the track of one entry changes the track of its name, if it
/// is the first entry of that name, and of no other name.
pub proof fn lemma_replace_track(
    entries: Seq<(Seq<char>, Seq<Scalar>)>,
    i: int,
    track: Seq<Scalar>,
    other: Seq<char>,
)
    requires
        0 <= i < entries.len(),
        first_index(entries, entries[i].0, 0) == i,
    ensures
        track_of(entries.update(i, (entries[i].0, track)), entries[i].0) == Some(track),
        other != entries[i].0 ==> track_of(entries.update(i, (entries[i].0, track)), other)
            == track_of(entries, other),
{
    let after = entries.update(i, (entries[i].0, track));
    let name = entries[i].0;
    lemma_first_index(entries, name, 0);
    lemma_first_index_is(after, name, 0, i);
    if other != name {
        lemma_first_index(entries, other, 0);
        let j = first_index(entries, other, 0);
        lemma_first_index_is(after, other, 0, j);
    }
}

/// Adding an entry under a name that no entry bears yet gives that name a
/// track and changes the track of no other name.
pub proof fn lemma_push_track(
    entries: Seq<(Seq<char>, Seq<Scalar>)>,
    name: Seq<char>,
    track: Seq<Scalar>,
    other: Seq<char>,
)
    requires
        track_of(entries, name).is_none(),
    ensures
        track_of(entries.push((name, track)), name) == Some(track),
        other != name ==> track_of(entries.push((name, track)), other) == track_of(entries, other),
{
    let after = entries.push((name, track));
    lemma_first_index(entries, name, 0);
    lemma_first_index_is(after, name, 0, entries.len() as int);
    if other != name {
        lemma_first_index(entries, other, 0);
        let j = first_index(entries, other, 0);
        if j < entries.len() {
            lemma_first_index_is(after, other, 0, j);
        } else {
            lemma_first_index_is(after, other, 0, after.len() as int);
        }
    }
}

/// Varying a knob gives its name the varied track and changes the track of
/// no other name.
pub proof fn lemma_with_vary_tracks(
    entries: Seq<(Seq<char>, Seq<Scalar>)>,
    name: Seq<char>,
    start: int,
    end: int,
    v0: Scalar,
    v1: Scalar,
    total_frames: int,
    other: Seq<char>,
)
    ensures
        track_of(with_vary(entries, name, start, end, v0, v1, total_frames), name) == Some(
            varied(base_track(entries, name, total_frames), start, end, v0, v1),
        ),
        other != name ==> track_of(
            with_vary(entries, name, start, end, v0, v1, total_frames),
            other,
        ) == track_of(entries, other),
{
    let i = first_index(entries, name, 0);
    let track = varied(base_track(entries, name, total_frames), start, end, v0, v1);
    lemma_first_index(entries, name, 0);
    if i < entries.len() {
        lemma_replace_track(entries, i, track, other);
    } else {
        lemma_push_track(entries, name, track, other);
    }
}

/// The interpolated values start at `v0`, and rise with the frame where
/// `v1` is not below `v0`.
pub proof fn lemma_interpolated_monotone(
    v0: Scalar,
    v1: Scalar,
    start: int,
    end: int,
    f: int,
    g: int,
)
    requires
        start < end,
        start <= f <= g <= end,
        v0@ <= v1@,
    ensures
        interpolated(v0, v1, start, end, start) == v0,
        interpolated(v0, v1, start, end, f)@ <= interpolated(v0, v1, start, end, g)@,
{
    let d = clamp64(v1@ - v0@);
    assert((start - start) * d == 0) by (nonlinear_arith);
    assert((f - start) * d <= (g - start) * d) by (nonlinear_arith)
        requires
            f <= g,
            d >= 0,
    ;
    crate::scalar::lemma_trunc_div_monotone((f - start) * d, (g - start) * d, end - start);
}

/// The interpolated values end at `v1`, as long as `v1 - v0` does not
/// saturate.
pub proof fn lemma_interpolated_end(v0: Scalar, v1: Scalar, start: int, end: int)
    requires
        start < end,
        i64::MIN <= v1@ - v0@ <= i64::MAX,
    ensures
        interpolated(v0, v1, start, end, end) == v1,
{
    crate::scalar::lemma_trunc_div_multiple(v1@ - v0@, end - start);
    assert((end - start) * (v1@ - v0@) == (v1@ - v0@) * (end - start)) by (nonlinear_arith);
}

/// The value at `frame` of a knob that runs linearly from `v0` at `start`
/// to `v1` at `end`.
pub fn interpolate(v0: Scalar, v1: Scalar, start: u32, end: u32, frame: u32) -> (r: Scalar)
    requires
        start != end,
    ensures
        r == interpolated(v0, v1, start as int, end as int, frame as int),
{
    let step: i64 = frame as i64 - start as i64;
    let span: i64 = end as i64 - start as i64;
    let change: Scalar = v1.sub(v0);
    proof {
        lemma_product_bounds(step as int, change@);
    }
    let gain: i128 = (step as i128) * (change.raw as i128);
    let gained: i128 = if span > 0 {
        proof {
            crate::scalar::lemma_trunc_div_bounds(gain as int, span as int);
        }
        div_wide(gain, span as i128)
    } else {
        proof {
            crate::scalar::lemma_trunc_div_bounds(-gain as int, -span as int);
        }
        div_wide(-gain, -(span as i128))
    };
    Scalar { raw: clamp_wide(v0.raw as i128 + gained) }
}

impl View for KnobTable {
    type V = Seq<(Seq<char>, Seq<Scalar>)>;

    /// The name and the track of each knob.
    closed spec fn view(&self) -> Seq<(Seq<char>, Seq<Scalar>)> {
        Seq::new(self.knobs@.len(), |i: int| (self.knobs@[i].name@, self.knobs@[i].values@))
    }
}

impl KnobTable {
    /// The table without knobs.
    pub fn new() -> (t: Self)
        ensures
            t@ == Seq::<(Seq<char>, Seq<Scalar>)>::empty(),
    {
        let t = KnobTable { knobs: Vec::new() };
        assert(t@ =~= Seq::<(Seq<char>, Seq<Scalar>)>::empty());
        t
    }

    /// The index of the first knob that bears `name`.
    fn find(&self, name: &String) -> (i: usize)
        ensures
            i == first_index(self@, name@, 0),
            i <= self.knobs@.len(),
            self@.len() == self.knobs@.len(),
    {
        let count: usize = self.knobs.len();
        let mut i: usize = 0;
        while i < count
            invariant
                i <= count,
                count == self.knobs@.len(),
                self@.len() == count,
                forall|j: int| 0 <= j < i ==> self@[j].0 != name@,
            decreases count - i,
        {
            if self.knobs[i].name.eq(name) {
                proof {
                    lemma_first_index_is(self@, name@, 0, i as int);
                }
                return i;
            }
            i = i + 1;
        }
        proof {
            lemma_first_index_is(self@, name@, 0, count as int);
        }
        count
    }

    /// Varies the knob `name` linearly from `v0` at `start_frame` to `v1`
    /// at `end_frame`. A knob that does not exist yet is created with a
    /// neutral track for the frames `0 ..= total_frames`.
    ///
    /// Fails, and changes nothing, where the range is empty, reversed or
    /// reaches beyond the end of the track.
    pub fn add_vary(
        &mut self,
        name: String,
        start_frame: u32,
        end_frame: u32,
        v0: Scalar,
        v1: Scalar,
        total_frames: u32,
    ) -> (r: Result<(), ConfigurationError>)
        requires
            total_frames < usize::MAX,
        ensures
            match vary_error(
                old(self)@,
                name@,
                start_frame as int,
                end_frame as int,
                total_frames as int,
            ) {
                Some(e) => r == Err::<(), ConfigurationError>(e) && final(self)@ == old(self)@,
                None => r.is_ok() && final(self)@ == with_vary(
                    old(self)@,
                    name@,
                    start_frame as int,
                    end_frame as int,
                    v0,
                    v1,
                    total_frames as int,
                ),
            },
    {
        if start_frame == end_frame {
            return Err(ConfigurationError::ZeroLengthVary);
        }
        let i: usize = self.find(&name);
        let exists: bool = i < self.knobs.len();
        let length: usize = if exists {
            self.knobs[i].values.len()
        } else {
            total_frames as usize + 1
        };
        let ghost base = base_track(old(self)@, name@, total_frames as int);
        assert(base.len() == length);
        if end_frame < start_frame || end_frame as usize >= length {
            return Err(ConfigurationError::VaryOutOfRange);
        }
        let mut values: Vec<Scalar> = Vec::new();
        let mut f: usize = 0;
        while f < length
            invariant
                f <= length,
                length == base.len(),
                start_frame < end_frame,
                end_frame < length,
                values@.len() == f,
                self@ == old(self)@,
                self@.len() == self.knobs@.len(),
                i == first_index(self@, name@, 0),
                exists == (i < self.knobs@.len()),
                base == base_track(self@, name@, total_frames as int),
                forall|j: int|
                    0 <= j < f ==> values@[j] == varied(
                        base,
                        start_frame as int,
                        end_frame as int,
                        v0,
                        v1,
                    )[j],
            decreases length - f,
        {
            let value: Scalar = if start_frame as usize <= f && f <= end_frame as usize {
                interpolate(v0, v1, start_frame, end_frame, f as u32)
            } else if exists {
                self.knobs[i].values[f]
            } else {
                Scalar::one()
            };
            values.push(value);
            f = f + 1;
        }
        let ghost track = varied(base, start_frame as int, end_frame as int, v0, v1);
        assert(values@ =~= track);
        if exists {
            proof {
                lemma_first_index(old(self)@, name@, 0);
            }
            self.knobs[i] = KnobTrack { name, values };
            assert(self@ =~= old(self)@.update(i as int, (name@, track)));
        } else {
            self.knobs.push(KnobTrack { name, values });
            assert(self@ =~= old(self)@.push((name@, track)));
        }
        Ok(())
    }

    /// The value of the knob `name` at `frame`.
    ///
    /// Fails where no knob bears that name, or where the frame lies beyond
    /// the end of the knob's track.
    pub fn get_knob_val(&self, name: String, frame: u32) -> (r: Result<Scalar, ConfigurationError>)
        ensures
            match track_of(self@, name@) {
                None => r == Err::<Scalar, ConfigurationError>(ConfigurationError::UnknownKnob),
                Some(track) => if frame < track.len() {
                    r == Ok::<Scalar, ConfigurationError>(track[frame as int])
                } else {
                    r == Err::<Scalar, ConfigurationError>(ConfigurationError::FrameOutOfRange)
                },
            },
    {
        let i: usize = self.find(&name);
        if i >= self.knobs.len() {
            return Err(ConfigurationError::UnknownKnob);
        }
        if frame as usize >= self.knobs[i].values.len() {
            return Err(ConfigurationError::FrameOutOfRange);
        }
        Ok(self.knobs[i].values[frame as usize])
    }
}

} // verus!
