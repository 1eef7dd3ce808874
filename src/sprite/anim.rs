//! Named frame ranges of a sprite sheet, and a controller that plays them
//! over time.
use crate::sprite::SpriteSheet;
use std::ops::Range;
use vstd::prelude::*;

verus! {

struct Entry {
    name: String,
    frames: Range<u32>,
}

/// Maps animation names to ranges of frames.
pub struct AnimationSet {
    entries: Vec<Entry>,
    model: Ghost<Map<Seq<char>, Range<u32>>>,
}

impl View for AnimationSet {
    type V = Map<Seq<char>, Range<u32>>;

    closed spec fn view(&self) -> Map<Seq<char>, Range<u32>> {
        self.model@
    }
}

impl AnimationSet {
    /// Each name is held once, and the map of animations is what is held.
    pub closed spec fn wf(&self) -> bool {
        &&& forall|i: int, j: int|
            0 <= i < j < self.entries@.len() ==> #[trigger] self.entries@[i].name@
                != #[trigger] self.entries@[j].name@
        &&& forall|i: int|
            0 <= i < self.entries@.len() ==> {
                &&& #[trigger] self.model@.contains_key(self.entries@[i].name@)
                &&& self.model@[self.entries@[i].name@] == self.entries@[i].frames
            }
        &&& forall|k: Seq<char>| #[trigger]
            self.model@.contains_key(k) ==> exists|i: int|
                0 <= i < self.entries@.len() && #[trigger] self.entries@[i].name@ == k
    }

    /// An empty set.
    pub fn new() -> (r: Self)
        ensures
            r.wf(),
            r@ == Map::<Seq<char>, Range<u32>>::empty(),
    {
        AnimationSet { entries: Vec::new(), model: Ghost(Map::empty()) }
    }

    fn position(&self, id: &str) -> (r: Option<usize>)
        requires
            self.wf(),
        ensures
            match r {
                Some(i) => i < self.entries@.len() && self.entries@[i as int].name@ == id@,
                None => !self@.contains_key(id@),
            },
    {
        let key = id.to_owned();
        let mut i: usize = 0;
        while i < self.entries.len()
            invariant
                self.wf(),
                key@ == id@,
                i <= self.entries@.len(),
                forall|j: int| 0 <= j < i ==> #[trigger] self.entries@[j].name@ != id@,
            decreases self.entries@.len() - i,
        {
            if self.entries[i].name == key {
                return Some(i);
            }
            i = i + 1;
        }
        None
    }

    /// Sets the frames of the animation `id`, replacing what it had.
    pub fn add_animation(&mut self, id: String, frames: Range<u32>) -> (r: &mut Self)
        requires
            old(self).wf(),
        ensures
            r.wf(),
            r@ == old(self)@.insert(id@, frames),
            *final(self) == *final(r),
    {
        match self.position(id.as_str()) {
            Some(i) => {
                let ghost k = id@;
                self.entries.set(i, Entry { name: id, frames });
                self.model = Ghost(self.model@.insert(k, frames));
                proof {
                    assert forall|q: Seq<char>| #[trigger] self.model@.contains_key(q) implies exists|j: int|
                        0 <= j < self.entries@.len() && #[trigger] self.entries@[j].name@ == q by {
                        if q == k {
                            assert(self.entries@[i as int].name@ == q);
                        } else {
                            assert(old(self).model@.contains_key(q));
                            let j = choose|j: int|
                                0 <= j < old(self).entries@.len() && #[trigger] old(self).entries@[j].name@ == q;
                            assert(self.entries@[j].name@ == q);
                        }
                    }
                }
            },
            None => {
                let ghost k = id@;
                self.entries.push(Entry { name: id, frames });
                self.model = Ghost(self.model@.insert(k, frames));
                proof {
                    let n = self.entries@.len() - 1;
                    assert forall|q: Seq<char>| #[trigger] self.model@.contains_key(q) implies exists|j: int|
                        0 <= j < self.entries@.len() && #[trigger] self.entries@[j].name@ == q by {
                        if q == k {
                            assert(self.entries@[n].name@ == q);
                        } else {
                            assert(old(self).model@.contains_key(q));
                            let j = choose|j: int|
                                0 <= j < old(self).entries@.len() && #[trigger] old(self).entries@[j].name@ == q;
                            assert(self.entries@[j].name@ == q);
                        }
                    }
                }
            },
        }
        self
    }

    /// Sets the frames of the animation `id`, replacing what it had.
    pub fn with_animation(self, id: String, frames: Range<u32>) -> (r: Self)
        requires
            self.wf(),
        ensures
            r.wf(),
            r@ == self@.insert(id@, frames),
    {
        let mut r = self;
        r.add_animation(id, frames);
        r
    }

    /// The frames of the animation `id`, if it is in the set.
    pub fn get(&self, id: &str) -> (r: Option<Range<u32>>)
        requires
            self.wf(),
        ensures
            r == (if self@.contains_key(id@) {
                Some(self@[id@])
            } else {
                None
            }),
    {
        match self.position(id) {
            Some(i) => {
                let frames = &self.entries[i].frames;
                Some(Range { start: frames.start, end: frames.end })
            },
            None => None,
        }
    }
}

/// An animation being played.
pub struct Animation {
    /// Time spent in the animation since it started or last wrapped, in
    /// nanoseconds.
    pub elapsed: u64,
    /// Its frames.
    pub range: Range<u32>,
    /// How many more times it plays through, or `None` for ever.
    pub repeat: Option<u64>,
    /// What plays once the repetitions are spent: an animation name and its
    /// own repetitions. `None`: the last frame stays.
    pub next: Option<(String, Option<u64>)>,
}

/// What a controller shows.
pub enum Current {
    Animated(Animation),
    Still(u32),
}

/// Whole nanoseconds of a duration of `secs` seconds and `subsec_nanos`
/// nanoseconds beyond them.
pub fn duration_to_nanos(secs: u64, subsec_nanos: u32) -> (r: u64)
    requires
        secs * 1_000_000_000 + subsec_nanos <= u64::MAX,
    ensures
        r == secs * 1_000_000_000 + subsec_nanos,
{
    secs * 1_000_000_000 + subsec_nanos as u64
}

/// Number of frames of `r`.
pub open spec fn frame_count(r: Range<u32>) -> int {
    r.end - r.start
}

/// A range that an animation can play, with frames of `frame_nanos` each:
/// it is not empty and its whole length fits in `u64` nanoseconds.
pub open spec fn playable(frame_nanos: u64, r: Range<u32>) -> bool {
    &&& r.start < r.end
    &&& frame_nanos * frame_count(r) <= u64::MAX
}

/// One step of time for an animation: `nanos` are added to what has
/// elapsed. Without a lap completed, or repeating for ever, it wraps around
/// its length. With laps completed but repetitions left, the repetitions
/// decrease by them. Once they are spent, the last frame stays if nothing
/// follows; otherwise the next animation starts from its beginning, and
/// the time of the laps beyond the repetitions is returned to be played by
/// it. The second component is that time, 0 in every other case.
pub open spec fn step(
    set: Map<Seq<char>, Range<u32>>,
    frame_nanos: u64,
    cur: Current,
    nanos: u64,
) -> (Current, int) {
    match cur {
        Current::Still(f) => (Current::Still(f), 0),
        Current::Animated(a) => {
            let e = a.elapsed + nanos;
            let length = frame_nanos * frame_count(a.range);
            let laps = e / length;
            if laps == 0 || a.repeat is None {
                (
                    Current::Animated(
                        Animation { elapsed: (e % length) as u64, range: a.range, repeat: a.repeat, next: a.next },
                    ),
                    0,
                )
            } else if a.repeat->0 > laps {
                (
                    Current::Animated(
                        Animation {
                            elapsed: e as u64,
                            range: a.range,
                            repeat: Some((a.repeat->0 - laps) as u64),
                            next: a.next,
                        },
                    ),
                    0,
                )
            } else {
                match a.next {
                    None => (Current::Still((a.range.end - 1) as u32), 0),
                    Some((id, repeat)) => (
                        Current::Animated(Animation { elapsed: 0, range: set[id@], repeat, next: None }),
                        (laps - a.repeat->0) * length,
                    ),
                }
            }
        },
    }
}

/// Time `nanos` played from `cur`: steps until no time is left over. A step
/// returns time only when the next animation starts, and that one has no
/// successor, so two steps are the most it takes.
pub open spec fn advanced(
    set: Map<Seq<char>, Range<u32>>,
    frame_nanos: u64,
    cur: Current,
    nanos: u64,
) -> Current {
    if nanos == 0 {
        cur
    } else {
        let (c1, left) = step(set, frame_nanos, cur, nanos);
        if left == 0 {
            c1
        } else {
            step(set, frame_nanos, c1, left as u64).0
        }
    }
}

/// Plays the animations of a set on a sprite sheet.
pub struct AnimationController {
    set: AnimationSet,
    layout: SpriteSheet,
    frame_duration: u64,
    current: Current,
}

impl AnimationController {
    /// The animations that can be played.
    pub closed spec fn set(&self) -> Map<Seq<char>, Range<u32>> {
        self.set@
    }

    /// Duration of one frame, in nanoseconds.
    pub closed spec fn frame_nanos(&self) -> u64 {
        self.frame_duration
    }

    /// What is shown now.
    pub closed spec fn current(&self) -> Current {
        self.current
    }

    /// The sheet that frames are taken from.
    pub closed spec fn layout(&self) -> SpriteSheet {
        self.layout
    }

    /// The set of animations is well formed.
    pub closed spec fn wf(&self) -> bool {
        self.set.wf()
    }

    /// Whether time can pass on what is shown: an animation being played
    /// has frames of non-zero duration, a playable range, and a successor
    /// from the set with a playable range.
    pub open spec fn can_play(&self) -> bool {
        self.current() matches Current::Animated(a) ==> {
            &&& self.frame_nanos() > 0
            &&& playable(self.frame_nanos(), a.range)
            &&& match a.next {
                None => true,
                Some((id, _)) => self.set().contains_key(id@) && playable(self.frame_nanos(), self.set()[id@]),
            }
        }
    }

    /// Whether `nanos` more can be played: time can pass, and the elapsed
    /// time stays within `u64`.
    pub open spec fn can_advance(&self, nanos: u64) -> bool {
        &&& self.can_play()
        &&& self.current() matches Current::Animated(a) ==> a.elapsed + nanos <= u64::MAX
    }

    /// A controller showing frame 0 still, with frames of `frame_nanos`
    /// nanoseconds.
    pub fn new(set: AnimationSet, layout: SpriteSheet, frame_nanos: u64) -> (r: Self)
        requires
            set.wf(),
        ensures
            r.wf(),
            r.set() == set@,
            r.layout() == layout,
            r.frame_nanos() == frame_nanos,
            r.current() == Current::Still(0),
    {
        AnimationController { set, layout, frame_duration: frame_nanos, current: Current::Still(0) }
    }

    /// The animations that can be played.
    pub fn animations(&self) -> (r: &AnimationSet)
        requires
            self.wf(),
        ensures
            r@ == self.set(),
            r.wf(),
    {
        &self.set
    }

    /// What is shown now.
    pub fn showing(&self) -> (r: &Current)
        ensures
            *r == self.current(),
    {
        &self.current
    }

    /// Duration of one frame, in nanoseconds.
    pub fn frame_duration(&self) -> (r: u64)
        ensures
            r == self.frame_nanos(),
    {
        self.frame_duration
    }

    /// The sheet that frames are taken from.
    pub fn sheet(&self) -> (r: &SpriteSheet)
        ensures
            *r == self.layout(),
    {
        &self.layout
    }

    /// The frame shown now.
    pub fn frame(&self) -> (r: u32)
        requires
            self.current() matches Current::Animated(a) ==> {
                &&& self.frame_nanos() > 0
                &&& a.range.start + a.elapsed / self.frame_nanos() <= u32::MAX
            },
        ensures
            r == match self.current() {
                Current::Animated(a) => a.range.start + a.elapsed / self.frame_nanos(),
                Current::Still(f) => f as int,
            },
    {
        match &self.current {
            Current::Animated(a) => a.range.start + (a.elapsed / self.frame_duration) as u32,
            Current::Still(f) => *f,
        }
    }

    /// Starts the animation `id` from its beginning; after `repeat` more
    /// plays (`None`: for ever) `next` follows.
    pub fn play(&mut self, id: &str, repeat: Option<u64>, next: Option<(String, Option<u64>)>)
        requires
            old(self).wf(),
            old(self).set().contains_key(id@),
        ensures
            final(self).wf(),
            final(self).set() == old(self).set(),
            final(self).layout() == old(self).layout(),
            final(self).frame_nanos() == old(self).frame_nanos(),
            final(self).current() == Current::Animated(
                Animation { elapsed: 0, range: old(self).set()[id@], repeat, next },
            ),
    {
        let range = match self.set.get(id) {
            Some(range) => range,
            None => Range { start: 0, end: 1 },
        };
        self.current = Current::Animated(Animation { elapsed: 0, range, repeat, next });
    }

    /// Plays `nanos` nanoseconds of time.
    pub fn advance(&mut self, nanos: u64)
        requires
            old(self).wf(),
            old(self).can_advance(nanos),
        ensures
            final(self).wf(),
            final(self).set() == old(self).set(),
            final(self).layout() == old(self).layout(),
            final(self).frame_nanos() == old(self).frame_nanos(),
            final(self).current() == advanced(old(self).set(), old(self).frame_nanos(), old(self).current(), nanos),
    {
        let ghost target = advanced(self.set@, self.frame_duration, self.current, nanos);
        let mut duration = nanos;
        while duration > 0
            invariant
                self.wf(),
                self.set@ == old(self).set@,
                self.layout == old(self).layout,
                self.frame_duration == old(self).frame_duration,
                self.can_advance(duration),
                duration == 0 ==> self.current == target,
                duration > 0 ==> advanced(self.set@, self.frame_duration, self.current, duration) == target,
            decreases rank(self.current) + if duration > 0 { 1int } else { 0int },
        {
            proof {
                lemma_step_then_rest(self.set@, self.frame_duration, self.current, duration);
            }
            duration = self.advance_step(duration);
        }
    }

    fn advance_step(&mut self, duration: u64) -> (left: u64)
        requires
            old(self).wf(),
            old(self).can_advance(duration),
        ensures
            final(self).wf(),
            final(self).set@ == old(self).set@,
            final(self).layout == old(self).layout,
            final(self).frame_duration == old(self).frame_duration,
            (final(self).current, left as int) == step(old(self).set@, old(self).frame_duration, old(self).current, duration),
            final(self).can_advance(left),
            left > 0 ==> rank(final(self).current) < rank(old(self).current),
            left == 0 ==> rank(final(self).current) <= rank(old(self).current),
    {
        let mut current = Current::Still(0);
        std::mem::swap(&mut current, &mut self.current);
        match current {
            Current::Still(frame) => {
                self.current = Current::Still(frame);
                0
            },
            Current::Animated(animation) => {
                let elapsed = animation.elapsed + duration;
                let count = (animation.range.end - animation.range.start) as u64;
                let length = self.frame_duration * count;
                proof {
                    assert(length > 0) by (nonlinear_arith)
                        requires length == self.frame_duration * count, self.frame_duration > 0, count > 0;
                }
                let laps = elapsed / length;
                if laps == 0 || animation.repeat.is_none() {
                    self.current = Current::Animated(Animation {
                        elapsed: elapsed % length,
                        range: animation.range,
                        repeat: animation.repeat,
                        next: animation.next,
                    });
                    0
                } else {
                    let repeat = match animation.repeat {
                        Some(repeat) => repeat,
                        None => 0,
                    };
                    if repeat > laps {
                        self.current = Current::Animated(Animation {
                            elapsed,
                            range: animation.range,
                            repeat: Some(repeat - laps),
                            next: animation.next,
                        });
                        0
                    } else {
                        let laps_left = laps - repeat;
                        proof {
                            assert(laps_left * length <= elapsed) by (nonlinear_arith)
                                requires laps == elapsed / length, laps_left <= laps, length > 0;
                        }
                        let left = laps_left * length;
                        match animation.next {
                            None => {
                                self.current = Current::Still(animation.range.end - 1);
                                0
                            },
                            Some((id, next_repeat)) => {
                                let range = match self.set.get(id.as_str()) {
                                    Some(range) => range,
                                    None => Range { start: 0, end: 1 },
                                };
                                self.current = Current::Animated(Animation {
                                    elapsed: 0,
                                    range,
                                    repeat: next_repeat,
                                    next: None,
                                });
                                left
                            },
                        }
                    }
                }
            },
        }
    }
}

/// How many more steps can return time: one for an animation with a
/// successor, none otherwise.
pub open spec fn rank(cur: Current) -> int {
    match cur {
        Current::Animated(a) => if a.next is Some { 2int } else { 1int },
        Current::Still(_) => 0int,
    }
}

proof fn lemma_step_then_rest(set: Map<Seq<char>, Range<u32>>, frame_nanos: u64, cur: Current, nanos: u64)
    requires
        nanos > 0,
        cur matches Current::Animated(a) ==> {
            &&& frame_nanos > 0
            &&& playable(frame_nanos, a.range)
            &&& a.elapsed + nanos <= u64::MAX
        },
    ensures
        ({
            let (c1, left) = step(set, frame_nanos, cur, nanos);
            &&& left >= 0
            &&& left <= u64::MAX
            &&& advanced(set, frame_nanos, cur, nanos) == advanced(set, frame_nanos, c1, left as u64)
        }),
{
    let (c1, left) = step(set, frame_nanos, cur, nanos);
    if let Current::Animated(a) = cur {
        let e = a.elapsed + nanos;
        let length = frame_nanos * frame_count(a.range);
        assert(length > 0) by (nonlinear_arith)
            requires length == frame_nanos * frame_count(a.range), frame_nanos > 0, frame_count(a.range) > 0;
        let laps = e / length;
        if left > 0 {
            assert(left <= e) by (nonlinear_arith)
                requires laps == e / length, left == (laps - a.repeat->0) * length, a.repeat->0 <= laps, a.repeat->0 >= 0, length > 0;
            assert(step(set, frame_nanos, c1, left as u64).1 == 0);
        }
    }
}

} // verus!
