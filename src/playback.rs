use vstd::prelude::*;
use crate::midi::MidiEvent;

verus! {

/// The playback moment, in microseconds, at which an event is due: its song
/// time shifted by the lead-in.
pub open spec fn due(e: MidiEvent, leed_in: u64) -> int {
    leed_in + e.timestamp
}

pub open spec fn sorted(s: Seq<MidiEvent>) -> bool {
    forall|i: int, j: int| 0 <= i <= j < s.len() ==> s[i].timestamp <= s[j].timestamp
}

/// Events in song order whose due times all fit in a `u64`.
pub open spec fn valid_events(s: Seq<MidiEvent>, leed_in: u64) -> bool {
    &&& sorted(s)
    &&& forall|i: int| 0 <= i < s.len() ==> due(#[trigger] s[i], leed_in) <= u64::MAX
}

/// The index of the first event at or after `from` that is due after `t`.
pub open spec fn seek_from(s: Seq<MidiEvent>, leed_in: u64, from: int, t: u64) -> int
    decreases s.len() - from,
{
    if from < 0 || from >= s.len() || due(s[from], leed_in) > t {
        from
    } else {
        seek_from(s, leed_in, from + 1, t)
    }
}

pub open spec fn sat_add(a: u64, b: u64) -> u64 {
    if a + b > u64::MAX { u64::MAX } else { (a + b) as u64 }
}

/// A position in a song's events: the playback time in microseconds, the
/// index of the first event not yet handed out, and the paused flag.
pub ghost struct PlaybackModel {
    pub events: Seq<MidiEvent>,
    pub leed_in: u64,
    pub length: u64,
    pub time: u64,
    pub seeker: int,
    pub paused: bool,
}

impl PlaybackModel {
    /// Every event before the seeker is due by the current time, and the
    /// length is the due time of the last event (the lead-in if none).
    pub open spec fn wf(self) -> bool {
        &&& valid_events(self.events, self.leed_in)
        &&& 0 <= self.seeker <= self.events.len()
        &&& forall|i: int| 0 <= i < self.seeker ==> due(#[trigger] self.events[i], self.leed_in) <= self.time
        &&& self.length == if self.events.len() == 0 {
            self.leed_in as int
        } else {
            due(self.events.last(), self.leed_in)
        }
    }

    /// The position after `delta` microseconds of playing; no change while
    /// paused.
    pub open spec fn advance(self, delta: u64) -> PlaybackModel {
        if self.paused {
            self
        } else {
            let t = sat_add(self.time, delta);
            PlaybackModel { time: t, seeker: seek_from(self.events, self.leed_in, self.seeker, t), ..self }
        }
    }

    /// The events handed out by `advance(delta)`.
    pub open spec fn crossed(self, delta: u64) -> Seq<MidiEvent> {
        self.events.subrange(self.seeker, self.advance(delta).seeker)
    }

    /// The position at time `t`: the events due by `t` count as handed out.
    pub open spec fn seek(self, t: u64) -> PlaybackModel {
        PlaybackModel { time: t, seeker: seek_from(self.events, self.leed_in, 0, t), ..self }
    }
}

/// What `seek_from` finds: the events it passes are due by `t`, the one it
/// stops at is not, and in song order neither is any later one.
pub proof fn lemma_seek_from(s: Seq<MidiEvent>, leed_in: u64, from: int, t: u64)
    requires
        sorted(s),
        0 <= from <= s.len(),
    ensures
        from <= seek_from(s, leed_in, from, t) <= s.len(),
        forall|i: int| from <= i < seek_from(s, leed_in, from, t) ==> due(#[trigger] s[i], leed_in) <= t,
        forall|i: int| seek_from(s, leed_in, from, t) <= i < s.len() ==> due(#[trigger] s[i], leed_in) > t,
    decreases s.len() - from,
{
    if from < s.len() && due(s[from], leed_in) <= t {
        lemma_seek_from(s, leed_in, from + 1, t);
    } else if from < s.len() {
        assert forall|i: int| from <= i < s.len() implies due(#[trigger] s[i], leed_in) > t by {
            assert(s[from].timestamp <= s[i].timestamp);
        }
    }
}

pub struct PlaybackState {
    events: Vec<MidiEvent>,
    leed_in: u64,
    length: u64,
    time: u64,
    seeker: usize,
    paused: bool,
}

impl View for PlaybackState {
    type V = PlaybackModel;

    closed spec fn view(&self) -> PlaybackModel {
        PlaybackModel {
            events: self.events@,
            leed_in: self.leed_in,
            length: self.length,
            time: self.time,
            seeker: self.seeker as int,
            paused: self.paused,
        }
    }
}

impl PlaybackState {
    /// Playback at time zero, playing, before any event.
    pub fn new(leed_in: u64, events: Vec<MidiEvent>) -> (r: PlaybackState)
        requires
            valid_events(events@, leed_in),
        ensures
            r@.wf(),
            r@.events == events@,
            r@.leed_in == leed_in,
            r@.time == 0,
            r@.seeker == 0,
            !r@.paused,
    {
        let length = if events.len() == 0 {
            leed_in
        } else {
            proof {
                assert(due(events@[events.len() - 1], leed_in) <= u64::MAX);
            }
            leed_in + events[events.len() - 1].timestamp
        };
        PlaybackState { events, leed_in, length, time: 0, seeker: 0, paused: false }
    }

    fn scan(&self, from: usize, t: u64) -> (k: usize)
        requires
            self@.wf(),
            from <= self@.events.len(),
        ensures
            k == seek_from(self@.events, self@.leed_in, from as int, t),
    {
        let len = self.events.len();
        let mut k = from;
        while k < len
            invariant
                self@.wf(),
                len == self@.events.len(),
                from <= k <= len,
                seek_from(self@.events, self@.leed_in, from as int, t)
                    == seek_from(self@.events, self@.leed_in, k as int, t),
            decreases len - k,
        {
            proof {
                assert(due(self@.events[k as int], self@.leed_in) <= u64::MAX);
            }
            if self.leed_in + self.events[k].timestamp > t {
                return k;
            }
            k = k + 1;
        }
        k
    }

    /// While playing: advances the time by `delta` (saturating) and hands out
    /// the events that fell due. While paused: nothing.
    pub fn update(&mut self, delta: u64) -> (r: Vec<MidiEvent>)
        requires
            old(self)@.wf(),
        ensures
            final(self)@ == old(self)@.advance(delta),
            r@ == old(self)@.crossed(delta),
            final(self)@.wf(),
    {
        if self.paused {
            proof {
                assert(self@.crossed(delta) =~= Seq::<MidiEvent>::empty());
            }
            return Vec::new();
        }
        self.time = self.time.saturating_add(delta);
        let from = self.seeker;
        let k = self.scan(from, self.time);
        proof {
            lemma_seek_from(self@.events, self@.leed_in, from as int, self@.time);
        }
        let mut out: Vec<MidiEvent> = Vec::new();
        let mut i = from;
        while i < k
            invariant
                from <= i <= k,
                k <= self.events@.len(),
                out@ == self.events@.subrange(from as int, i as int),
            decreases k - i,
        {
            out.push(self.events[i]);
            i = i + 1;
            proof {
                assert(out@ =~= self.events@.subrange(from as int, i as int));
            }
        }
        self.seeker = k;
        out
    }

    /// Moves to time `t`, keeping the paused flag.
    pub fn set_time(&mut self, t: u64)
        requires
            old(self)@.wf(),
        ensures
            final(self)@ == old(self)@.seek(t),
            final(self)@.wf(),
    {
        let k = self.scan(0, t);
        proof {
            lemma_seek_from(self@.events, self@.leed_in, 0, t);
        }
        self.time = t;
        self.seeker = k;
    }

    pub fn pause(&mut self)
        requires
            old(self)@.wf(),
        ensures
            final(self)@ == (PlaybackModel { paused: true, ..old(self)@ }),
            final(self)@.wf(),
    {
        self.paused = true;
    }

    pub fn resume(&mut self)
        requires
            old(self)@.wf(),
        ensures
            final(self)@ == (PlaybackModel { paused: false, ..old(self)@ }),
            final(self)@.wf(),
    {
        self.paused = false;
    }

    pub fn is_paused(&self) -> (r: bool)
        ensures
            r == self@.paused,
    {
        self.paused
    }

    pub fn time(&self) -> (r: u64)
        ensures
            r == self@.time,
    {
        self.time
    }

    pub fn leed_in(&self) -> (r: u64)
        ensures
            r == self@.leed_in,
    {
        self.leed_in
    }

    pub fn length(&self) -> (r: u64)
        ensures
            r == self@.length,
    {
        self.length
    }

    pub fn events(&self) -> (r: &Vec<MidiEvent>)
        ensures
            r@ == self@.events,
    {
        &self.events
    }
}

} // verus!
