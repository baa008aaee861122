use vstd::prelude::*;
use std::collections::{HashSet, VecDeque};
use std::time::Instant;
use crate::midi::{KeyboardRange, MidiEventSource, MidiMessage};

verus! {

broadcast use {
    vstd::std_specs::hash::group_hash_axioms,
    vstd::std_specs::hash::axiom_set_deref_key_removed,
    vstd::std_specs::hash::axiom_set_contains_deref_key,
};

/// How long an early press stays eligible to satisfy a later requirement.
pub const LEEWAY_MS: u64 = 500;

/// std::time::Instant, carried opaquely as the reconciler's clock origin.
#[verifier::external_type_specification]
#[verifier::external_body]
pub struct ExInstant(Instant);

/// Relies on Instant::now: the monotonic clock's current reading.
pub assume_specification[ Instant::now ]() -> Instant;

/// Relies on Instant::elapsed: the time since `epoch`, in whole
/// milliseconds, saturated at u64::MAX.
#[verifier::external_body]
fn millis_since(epoch: &Instant) -> (r: u64) {
    u64::try_from(epoch.elapsed().as_millis()).unwrap_or(u64::MAX)
}

/// A press by the performer that no requirement has claimed yet, with the
/// wall-clock millisecond at which it happened.
#[derive(Clone, Copy, Debug, PartialEq, Eq, Structural)]
pub struct UserPress {
    pub timestamp: u64,
    pub note_id: u8,
}

pub open spec fn other_note(n: u8) -> spec_fn(UserPress) -> bool {
    |u: UserPress| u.note_id != n
}

/// Milliseconds from `from` to `now`, zero when `now` is earlier.
pub open spec fn elapsed(now: u64, from: u64) -> int {
    if now >= from { now - from } else { 0 }
}

pub open spec fn fresh_at(now: u64) -> spec_fn(UserPress) -> bool {
    |u: UserPress| elapsed(now, u.timestamp) <= LEEWAY_MS
}

pub open spec fn has_note(p: Seq<UserPress>, n: u8) -> bool {
    exists|i: int| 0 <= i < p.len() && p[i].note_id == n
}

/// The pending presses after a press of `n` at `now`: an earlier entry for
/// `n` is dropped and the new one goes to the back.
pub open spec fn upserted(p: Seq<UserPress>, n: u8, now: u64) -> Seq<UserPress> {
    p.filter(other_note(n)).push(UserPress { timestamp: now, note_id: n })
}

/// Oldest first.
pub open spec fn time_ordered(p: Seq<UserPress>) -> bool {
    forall|i: int, j: int| 0 <= i <= j < p.len() ==> p[i].timestamp <= p[j].timestamp
}

/// No press is later than `now`.
pub open spec fn all_by(p: Seq<UserPress>, now: u64) -> bool {
    forall|i: int| 0 <= i < p.len() ==> (#[trigger] p[i]).timestamp <= now
}

pub open spec fn unique_notes(p: Seq<UserPress>) -> bool {
    forall|i: int, j: int| 0 <= i < j < p.len() ==> p[i].note_id != p[j].note_id
}

/// The abstract state of the reconciler: the keyboard's range, the notes the
/// song still requires, and the early presses awaiting a requirement.
pub ghost struct PlayAlongModel {
    pub range: KeyboardRange,
    pub required: Set<u8>,
    pub pending: Seq<UserPress>,
    /// The latest clock reading taken, in milliseconds.
    pub clock: u64,
}

impl PlayAlongModel {
    /// A note is never both required and pending, each pending note has one
    /// entry, and only presses of the keyboard's range are pending.
    pub open spec fn wf(self) -> bool {
        &&& unique_notes(self.pending)
        &&& forall|i: int| 0 <= i < self.pending.len() ==> {
            &&& !self.required.contains(#[trigger] self.pending[i].note_id)
            &&& self.range.spec_contains(self.pending[i].note_id)
        }
    }

    pub open spec fn is_pending(self, n: u8) -> bool {
        has_note(self.pending, n)
    }

    /// A note event of the song, whatever the keyboard's range.
    pub open spec fn file_key(self, n: u8, on: bool) -> PlayAlongModel {
        if on {
            if has_note(self.pending, n) {
                PlayAlongModel { pending: self.pending.filter(other_note(n)), ..self }
            } else {
                PlayAlongModel { required: self.required.insert(n), ..self }
            }
        } else {
            PlayAlongModel { required: self.required.remove(n), ..self }
        }
    }

    /// A note event of the performer at wall-clock millisecond `now`; notes
    /// outside the keyboard's range are ignored.
    pub open spec fn user_key(self, n: u8, on: bool, now: u64) -> PlayAlongModel {
        if !self.range.spec_contains(n) || !on {
            self
        } else if self.required.contains(n) {
            PlayAlongModel {
                required: self.required.remove(n),
                pending: self.pending.filter(other_note(n)),
                ..self
            }
        } else {
            PlayAlongModel { pending: upserted(self.pending, n, now), ..self }
        }
    }

    pub open spec fn key(self, src: MidiEventSource, n: u8, on: bool, now: u64) -> PlayAlongModel {
        match src {
            MidiEventSource::User => self.user_key(n, on, now),
            MidiEventSource::File => self.file_key(n, on),
        }
    }

    /// A MIDI message: a note on presses, a note off releases, anything else
    /// is ignored.
    pub open spec fn message(self, src: MidiEventSource, m: MidiMessage, now: u64) -> PlayAlongModel {
        match m {
            MidiMessage::NoteOn { key, .. } => self.key(src, key, true, now),
            MidiMessage::NoteOff { key, .. } => self.key(src, key, false, now),
            _ => self,
        }
    }

    /// The expiry sweep at wall-clock millisecond `now`.
    pub open spec fn expire(self, now: u64) -> PlayAlongModel {
        PlayAlongModel { pending: self.pending.filter(fresh_at(now)), ..self }
    }

    pub open spec fn with_clock(self, now: u64) -> PlayAlongModel {
        PlayAlongModel { clock: now, ..self }
    }

    pub open spec fn reset(self) -> PlayAlongModel {
        PlayAlongModel { required: Set::empty(), ..self }
    }
}

/// Filtering keeps exactly the entries that pass, and keeps notes unique.
pub proof fn lemma_filter_keeps(p: Seq<UserPress>, f: spec_fn(UserPress) -> bool)
    ensures
        forall|x: UserPress| #[trigger] p.filter(f).contains(x) <==> p.contains(x) && f(x),
        unique_notes(p) ==> unique_notes(p.filter(f)),
    decreases p.len(),
{
    reveal(Seq::filter);
    broadcast use vstd::seq_lib::group_filter_ensures;
    assert forall|x: UserPress| #[trigger] p.filter(f).contains(x) implies p.contains(x) && f(x) by {
        p.lemma_filter_contains_rev(f, x);
        let j = choose|j: int| 0 <= j < p.filter(f).len() && p.filter(f)[j] == x;
        assert(f(p.filter(f)[j]));
    }
    assert forall|x: UserPress| p.contains(x) && f(x) implies #[trigger] p.filter(f).contains(x) by {
        let j = choose|j: int| 0 <= j < p.len() && p[j] == x;
        assert(p.filter(f).contains(p[j]));
    }
    if p.len() > 0 && unique_notes(p) {
        let q = p.drop_last();
        assert(unique_notes(q));
        lemma_filter_keeps(q, f);
        let fq = q.filter(f);
        if f(p.last()) {
            assert forall|i: int| 0 <= i < fq.len() implies fq[i].note_id != p.last().note_id by {
                assert(fq.contains(fq[i]));
                let k = choose|k: int| 0 <= k < q.len() && q[k] == fq[i];
                assert(p[k] == q[k]);
            }
        }
    }
}

pub struct PlayAlong {
    user_keyboard_range: KeyboardRange,
    required_notes: HashSet<u8>,
    // Presses of the last LEEWAY_MS milliseconds, for the leeway logic.
    user_pressed_recently: VecDeque<UserPress>,
    epoch: Instant,
    last_reading: u64,
}

impl View for PlayAlong {
    type V = PlayAlongModel;

    closed spec fn view(&self) -> PlayAlongModel {
        PlayAlongModel {
            range: self.user_keyboard_range,
            required: self.required_notes@,
            pending: self.user_pressed_recently@,
            clock: self.last_reading,
        }
    }
}


/// Changing the pending presses by a filter, or the required notes by removing
/// a note, keeps the state well formed.
proof fn lemma_filter_wf(m: PlayAlongModel, f: spec_fn(UserPress) -> bool, n: u8)
    requires
        m.wf(),
    ensures
        (PlayAlongModel { pending: m.pending.filter(f), ..m }).wf(),
        (PlayAlongModel { pending: m.pending.filter(f), required: m.required.remove(n), ..m }).wf(),
{
    lemma_filter_keeps(m.pending, f);
    let q = m.pending.filter(f);
    assert forall|i: int| 0 <= i < q.len() implies {
        &&& !m.required.contains(#[trigger] q[i].note_id)
        &&& m.range.spec_contains(q[i].note_id)
    } by {
        assert(q.contains(q[i]));
        let j = choose|j: int| 0 <= j < m.pending.len() && m.pending[j] == q[i];
        assert(m.pending[j] == q[i]);
    }
}

/// Filtering keeps the presses oldest first, and none later than `now`.
pub proof fn lemma_filter_ordered(p: Seq<UserPress>, f: spec_fn(UserPress) -> bool, now: u64)
    ensures
        time_ordered(p) ==> time_ordered(p.filter(f)),
        all_by(p, now) ==> all_by(p.filter(f), now),
    decreases p.len(),
{
    reveal(Seq::filter);
    lemma_filter_keeps(p, f);
    let r = p.filter(f);
    if all_by(p, now) {
        assert forall|i: int| 0 <= i < r.len() implies (#[trigger] r[i]).timestamp <= now by {
            assert(r.contains(r[i]));
        }
    }
    if p.len() > 0 && time_ordered(p) {
        let q = p.drop_last();
        lemma_filter_ordered(q, f, now);
        lemma_filter_keeps(q, f);
        let fq = q.filter(f);
        assert forall|i: int| 0 <= i < fq.len() implies fq[i].timestamp <= p.last().timestamp by {
            assert(fq.contains(fq[i]));
            let k = choose|k: int| 0 <= k < q.len() && q[k] == fq[i];
            assert(p[k] == q[k]);
        }
    }
}

/// A note event at `now` keeps the presses oldest first when none of them is
/// later than `now`.
pub proof fn lemma_key_keeps_order(m: PlayAlongModel, src: MidiEventSource, n: u8, on: bool, now: u64)
    requires
        time_ordered(m.pending),
        all_by(m.pending, now),
    ensures
        time_ordered(m.key(src, n, on, now).pending),
        all_by(m.key(src, n, on, now).pending, now),
{
    lemma_filter_ordered(m.pending, other_note(n), now);
    let f = m.pending.filter(other_note(n));
    let q = f.push(UserPress { timestamp: now, note_id: n });
    assert forall|i: int| 0 <= i < q.len() implies (#[trigger] q[i]).timestamp <= now by {
        if i < f.len() {
            assert(q[i] == f[i]);
        }
    }
    assert forall|i: int, j: int| 0 <= i <= j < q.len() implies q[i].timestamp <= q[j].timestamp by {
        if j < f.len() {
            assert(q[i] == f[i] && q[j] == f[j]);
        } else if i < f.len() {
            assert(q[i] == f[i]);
        }
    }
}

impl PlayAlong {
    pub fn new(user_keyboard_range: KeyboardRange) -> (r: PlayAlong)
        ensures
            r@ == (PlayAlongModel {
                range: user_keyboard_range,
                required: Set::empty(),
                pending: Seq::empty(),
                clock: 0,
            }),
            r@.wf(),
    {
        PlayAlong {
            user_keyboard_range,
            required_notes: HashSet::new(),
            user_pressed_recently: VecDeque::new(),
            epoch: Instant::now(),
            last_reading: 0,
        }
    }

    pub fn keyboard_range(&self) -> (r: KeyboardRange)
        ensures
            r == self@.range,
    {
        self.user_keyboard_range
    }

    /// The pending presses that pass `fresh_at(now)` (when `expire`) or are
    /// of another note than `n` (otherwise).
    fn filtered_presses(&self, expire: bool, now: u64, n: u8) -> (r: VecDeque<UserPress>)
        ensures
            r@ == self@.pending.filter(if expire { fresh_at(now) } else { other_note(n) }),
    {
        let ghost f = if expire { fresh_at(now) } else { other_note(n) };
        let p = &self.user_pressed_recently;
        let mut kept: VecDeque<UserPress> = VecDeque::new();
        let len = p.len();
        let mut i: usize = 0;
        while i < len
            invariant
                len == p@.len(),
                i <= len,
                p@ == self@.pending,
                f == (if expire { fresh_at(now) } else { other_note(n) }),
                kept@ == p@.take(i as int).filter(f),
            decreases len - i,
        {
            let item = p[i];
            proof {
                reveal_with_fuel(Seq::filter, 1);
                assert(p@.take(i + 1).drop_last() =~= p@.take(i as int));
            }
            let keep = if expire {
                let age: u64 = if now >= item.timestamp { now - item.timestamp } else { 0 };
                age <= LEEWAY_MS
            } else {
                item.note_id != n
            };
            proof {
                assert(p@.take(i + 1).last() == item);
                if expire {
                    assert(f == fresh_at(now));
                } else {
                    assert(f == other_note(n));
                }
                assert(f(item) == keep);
            }
            if keep {
                kept.push_back(item);
            }
            i = i + 1;
        }
        proof {
            assert(p@.take(len as int) =~= p@);
        }
        kept
    }

    /// The index of the pending press of `n`, if there is one.
    fn find_pending(&self, n: u8) -> (r: Option<usize>)
        ensures
            match r {
                Some(i) => i < self@.pending.len() && self@.pending[i as int].note_id == n,
                None => !has_note(self@.pending, n),
            },
    {
        let p = &self.user_pressed_recently;
        let len = p.len();
        let mut i: usize = 0;
        while i < len
            invariant
                len == p@.len(),
                i <= len,
                p@ == self@.pending,
                forall|j: int| 0 <= j < i ==> p@[j].note_id != n,
            decreases len - i,
        {
            if p[i].note_id == n {
                return Some(i);
            }
            i = i + 1;
        }
        None
    }

    /// Drops the presses older than the leeway window, as of wall-clock
    /// millisecond `now`.
    pub fn update_at(&mut self, now: u64)
        requires
            old(self)@.wf(),
        ensures
            final(self)@ == old(self)@.expire(now),
            final(self)@.wf(),
            time_ordered(old(self)@.pending) ==> time_ordered(final(self)@.pending),
    {
        let kept = self.filtered_presses(true, now, 0);
        proof {
            lemma_filter_ordered(self@.pending, fresh_at(now), now);
            lemma_filter_wf(self@, fresh_at(now), 0);
        }
        self.user_pressed_recently = kept;
    }

    /// Reads the clock, in milliseconds since this reconciler was made; a
    /// reading never goes back behind an earlier one.
    pub fn read_clock(&mut self) -> (now: u64)
        requires
            old(self)@.wf(),
        ensures
            now >= old(self)@.clock,
            final(self)@ == old(self)@.with_clock(now),
            final(self)@.wf(),
    {
        let reading = millis_since(&self.epoch);
        let now = if reading > self.last_reading { reading } else { self.last_reading };
        self.last_reading = now;
        now
    }

    /// Drops the presses older than the leeway window, as of now.
    pub fn update(&mut self)
        requires
            old(self)@.wf(),
        ensures
            exists|now: u64|
                now >= old(self)@.clock && final(self)@ == #[trigger] old(self)@.with_clock(now).expire(now),
            final(self)@.wf(),
    {
        let now = self.read_clock();
        self.update_at(now);
    }

    fn user_press_key(&mut self, note_id: u8, active: bool, now: u64)
        requires
            old(self)@.wf(),
            old(self)@.range.spec_contains(note_id),
        ensures
            final(self)@ == old(self)@.user_key(note_id, active, now),
            final(self)@.wf(),
    {
        if active {
            if self.required_notes.contains(&note_id) {
                let kept = self.filtered_presses(false, now, note_id);
                proof {
                    lemma_filter_wf(self@, other_note(note_id), note_id);
                }
                self.required_notes.remove(&note_id);
                self.user_pressed_recently = kept;
            } else {
                // A repeated press moves to the back, keeping the oldest first.
                let press = UserPress { timestamp: now, note_id };
                let mut kept = self.filtered_presses(false, now, note_id);
                proof {
                    lemma_filter_wf(self@, other_note(note_id), note_id);
                    lemma_filter_keeps(self@.pending, other_note(note_id));
                }
                kept.push_back(press);
                self.user_pressed_recently = kept;
                proof {
                    let f = old(self)@.pending.filter(other_note(note_id));
                    let q = self@.pending;
                    assert(q == f.push(press));
                    assert forall|a: int, b: int| 0 <= a < b < q.len()
                        implies q[a].note_id != q[b].note_id by {
                        if b == q.len() - 1 {
                            assert(f.contains(q[a]));
                        } else {
                            assert(f[a] == q[a] && f[b] == q[b]);
                        }
                    }
                    assert forall|a: int| 0 <= a < q.len() implies {
                        &&& !self@.required.contains(#[trigger] q[a].note_id)
                        &&& self@.range.spec_contains(q[a].note_id)
                    } by {
                        if a < q.len() - 1 {
                            assert(f[a] == q[a]);
                            assert(f.contains(q[a]));
                            assert(old(self)@.pending.contains(q[a]));
                        }
                    }
                }
            }
        }
    }

    fn file_press_key(&mut self, note_id: u8, active: bool)
        requires
            old(self)@.wf(),
        ensures
            final(self)@ == old(self)@.file_key(note_id, active),
            final(self)@.wf(),
    {
        if active {
            if self.find_pending(note_id).is_some() {
                let kept = self.filtered_presses(false, 0, note_id);
                proof {
                    lemma_filter_wf(self@, other_note(note_id), note_id);
                }
                self.user_pressed_recently = kept;
            } else {
                let ghost before = self@;
                self.required_notes.insert(note_id);
                proof {
                    assert forall|i: int| 0 <= i < before.pending.len() implies
                        before.pending[i].note_id != note_id by {}
                    assert(self@.pending == before.pending);
                    assert(self@.required == before.required.insert(note_id));
                    assert(self@.wf());
                }
            }
        } else {
            let ghost before = self@;
            self.required_notes.remove(&note_id);
            assert(self@.required == before.required.remove(note_id));
            assert(self@.pending == before.pending);
            assert(self@.wf());
        }
    }

    /// A note event from `src` at wall-clock millisecond `now`; the
    /// performer's notes outside the keyboard's range are ignored.
    pub fn press_key_at(&mut self, src: MidiEventSource, note_id: u8, active: bool, now: u64)
        requires
            old(self)@.wf(),
        ensures
            final(self)@ == old(self)@.key(src, note_id, active, now),
            final(self)@.wf(),
            time_ordered(old(self)@.pending) && all_by(old(self)@.pending, now) ==> {
                &&& time_ordered(final(self)@.pending)
                &&& all_by(final(self)@.pending, now)
            },
    {
        proof {
            if time_ordered(self@.pending) && all_by(self@.pending, now) {
                lemma_key_keeps_order(self@, src, note_id, active, now);
            }
        }
        match src {
            MidiEventSource::User => {
                if self.user_keyboard_range.contains(note_id) {
                    self.user_press_key(note_id, active, now);
                }
            },
            MidiEventSource::File => self.file_press_key(note_id, active),
        }
    }

    /// Feeds a message from `source` at wall-clock millisecond `now`.
    pub fn midi_event_at(&mut self, source: MidiEventSource, message: &MidiMessage, now: u64)
        requires
            old(self)@.wf(),
        ensures
            final(self)@ == old(self)@.message(source, *message, now),
            final(self)@.wf(),
            time_ordered(old(self)@.pending) && all_by(old(self)@.pending, now) ==> {
                &&& time_ordered(final(self)@.pending)
                &&& all_by(final(self)@.pending, now)
            },
    {
        match message {
            MidiMessage::NoteOn { key, .. } => self.press_key_at(source, *key, true, now),
            MidiMessage::NoteOff { key, .. } => self.press_key_at(source, *key, false, now),
            _ => {},
        }
    }

    /// Feeds a message from `source`, stamped with the clock's current reading.
    pub fn midi_event(&mut self, source: MidiEventSource, message: &MidiMessage)
        requires
            old(self)@.wf(),
        ensures
            exists|now: u64|
                now >= old(self)@.clock && final(self)@ == #[trigger] old(self)@.with_clock(now).message(
                    source,
                    *message,
                    now,
                ),
            final(self)@.wf(),
    {
        let now = self.read_clock();
        self.midi_event_at(source, message, now);
    }

    /// Forgets the outstanding requirements; pending presses stay.
    pub fn clear(&mut self)
        requires
            old(self)@.wf(),
        ensures
            final(self)@ == old(self)@.reset(),
            final(self)@.wf(),
    {
        self.required_notes.clear();
    }

    pub fn are_required_keys_pressed(&self) -> (r: bool)
        ensures
            r == self@.required.is_empty(),
    {
        self.required_notes.is_empty()
    }

    pub fn is_required(&self, note_id: u8) -> (r: bool)
        ensures
            r == self@.required.contains(note_id),
    {
        self.required_notes.contains(&note_id)
    }

    /// The pending presses, oldest first.
    pub fn pending_presses(&self) -> (r: &VecDeque<UserPress>)
        ensures
            r@ == self@.pending,
    {
        &self.user_pressed_recently
    }

    pub fn is_pending(&self, note_id: u8) -> (r: bool)
        ensures
            r == self@.is_pending(note_id),
    {
        self.find_pending(note_id).is_some()
    }
}


proof fn lemma_upserted(p: Seq<UserPress>, n: u8, now: u64)
    ensures
        upserted(p, n, now).contains(UserPress { timestamp: now, note_id: n }),
        forall|i: int|
            0 <= i < upserted(p, n, now).len() && #[trigger] upserted(p, n, now)[i].note_id == n
                ==> upserted(p, n, now)[i].timestamp == now,
{
    let press = UserPress { timestamp: now, note_id: n };
    let f = p.filter(other_note(n));
    let q = upserted(p, n, now);
    lemma_filter_keeps(p, other_note(n));
    assert(q[f.len() as int] == press);
    assert forall|i: int| 0 <= i < q.len() && #[trigger] q[i].note_id == n implies q[i].timestamp == now by {
        if i < f.len() {
            assert(q[i] == f[i]);
            assert(f.contains(f[i]));
        }
    }
}

/// A press of `n` that comes at most the leeway window before the song asks
/// for `n` satisfies the requirement in advance: after an expiry sweep inside
/// the window and the song's note on, `n` is not required.
pub proof fn law_early_press_satisfies_requirement(
    m: PlayAlongModel,
    n: u8,
    pressed_at: u64,
    swept_at: u64,
)
    requires
        m.wf(),
        m.range.spec_contains(n),
        !m.required.contains(n),
        elapsed(swept_at, pressed_at) <= LEEWAY_MS,
    ensures
        !m.user_key(n, true, pressed_at).expire(swept_at).file_key(n, true).required.contains(n),
{
    let m1 = m.user_key(n, true, pressed_at);
    let m2 = m1.expire(swept_at);
    let press = UserPress { timestamp: pressed_at, note_id: n };
    lemma_upserted(m.pending, n, pressed_at);
    lemma_filter_keeps(m1.pending, fresh_at(swept_at));
    assert(m2.pending.contains(press));
    let i = choose|i: int| 0 <= i < m2.pending.len() && m2.pending[i] == press;
    assert(m2.pending[i].note_id == n);
    assert(has_note(m2.pending, n));
}

/// An unclaimed press of a note the song does not require is pending at
/// once, and is gone after a sweep more than the leeway window later.
pub proof fn law_unclaimed_press_expires(m: PlayAlongModel, n: u8, pressed_at: u64, swept_at: u64)
    requires
        m.wf(),
        m.range.spec_contains(n),
        !m.required.contains(n),
        swept_at > pressed_at + LEEWAY_MS,
    ensures
        m.user_key(n, true, pressed_at).is_pending(n),
        !m.user_key(n, true, pressed_at).expire(swept_at).is_pending(n),
{
    let m1 = m.user_key(n, true, pressed_at);
    let m2 = m1.expire(swept_at);
    let press = UserPress { timestamp: pressed_at, note_id: n };
    lemma_upserted(m.pending, n, pressed_at);
    let i = choose|i: int| 0 <= i < m1.pending.len() && m1.pending[i] == press;
    assert(m1.pending[i].note_id == n);
    lemma_filter_keeps(m1.pending, fresh_at(swept_at));
    if has_note(m2.pending, n) {
        let j = choose|j: int| 0 <= j < m2.pending.len() && m2.pending[j].note_id == n;
        assert(m2.pending.contains(m2.pending[j]));
        let k = choose|k: int| 0 <= k < m1.pending.len() && m1.pending[k] == m2.pending[j];
        assert(m1.pending[k].note_id == n);
    }
}

/// The song releasing `n` always takes `n` off the required notes, whether or
/// not it was ever pressed.
pub proof fn law_file_release_clears_requirement(m: PlayAlongModel, n: u8)
    requires
        m.wf(),
    ensures
        !m.file_key(n, false).required.contains(n),
{
}

/// A note message outside the keyboard's range.
pub open spec fn off_keyboard(r: KeyboardRange, msg: MidiMessage) -> bool {
    match msg {
        MidiMessage::NoteOn { key, .. } => !r.spec_contains(key),
        MidiMessage::NoteOff { key, .. } => !r.spec_contains(key),
        _ => false,
    }
}

/// A performer's message about a note outside the keyboard's range changes
/// nothing, at any time.
pub proof fn law_out_of_range_ignored(m: PlayAlongModel, msg: MidiMessage, now: u64)
    requires
        off_keyboard(m.range, msg),
    ensures
        m.message(MidiEventSource::User, msg, now) == m,
{
}

/// One call on the reconciler: a message, an expiry sweep, or a reset.
pub ghost enum PlayAlongCall {
    Message { source: MidiEventSource, message: MidiMessage, now: u64 },
    Sweep { now: u64 },
    Reset,
}

pub open spec fn apply(m: PlayAlongModel, c: PlayAlongCall) -> PlayAlongModel {
    match c {
        PlayAlongCall::Message { source, message, now } => m.message(source, message, now),
        PlayAlongCall::Sweep { now } => m.expire(now),
        PlayAlongCall::Reset => m.reset(),
    }
}

/// The reconciler after a run of calls, in order.
pub open spec fn run_calls(m: PlayAlongModel, cs: Seq<PlayAlongCall>) -> PlayAlongModel
    decreases cs.len(),
{
    if cs.len() == 0 {
        m
    } else {
        apply(run_calls(m, cs.drop_last()), cs.last())
    }
}

/// Whether a call is other than a performer's message about a note outside
/// the keyboard's range `r`.
pub open spec fn reaches_keyboard(r: KeyboardRange) -> spec_fn(PlayAlongCall) -> bool {
    |c: PlayAlongCall|
        match c {
            PlayAlongCall::Message { source, message, .. } => !(source == MidiEventSource::User
                && off_keyboard(r, message)),
            _ => true,
        }
}

proof fn lemma_run_keeps_range(m: PlayAlongModel, cs: Seq<PlayAlongCall>)
    ensures
        run_calls(m, cs).range == m.range,
    decreases cs.len(),
{
    if cs.len() > 0 {
        lemma_run_keeps_range(m, cs.drop_last());
    }
}

/// Over any run of calls, the performer's messages about notes outside the
/// keyboard's range can be left out without changing the required notes or
/// the pending presses.
pub proof fn law_out_of_range_run_ignored(m: PlayAlongModel, cs: Seq<PlayAlongCall>)
    ensures
        run_calls(m, cs) == run_calls(m, cs.filter(reaches_keyboard(m.range))),
    decreases cs.len(),
{
    if cs.len() > 0 {
        let q = cs.drop_last();
        let g = reaches_keyboard(m.range);
        law_out_of_range_run_ignored(m, q);
        lemma_run_keeps_range(m, q);
        reveal_with_fuel(Seq::filter, 1);
        let fq = q.filter(g);
        if g(cs.last()) {
            assert(cs.filter(g) == fq.push(cs.last()));
            assert(fq.push(cs.last()).drop_last() =~= fq);
        } else {
            assert(cs.filter(g) == fq);
            match cs.last() {
                PlayAlongCall::Message { source, message, now } => {
                    law_out_of_range_ignored(run_calls(m, q), message, now);
                },
                _ => {},
            }
        }
    }
}

/// A note message about `n`.
pub open spec fn about_note(msg: MidiMessage, n: u8) -> bool {
    match msg {
        MidiMessage::NoteOn { key, .. } => key == n,
        MidiMessage::NoteOff { key, .. } => key == n,
        _ => false,
    }
}

/// A call that leaves an early press of `n` at `pressed_at` in place: a
/// message about another note, a reset, or a sweep inside the leeway window.
pub open spec fn keeps_press(c: PlayAlongCall, n: u8, pressed_at: u64) -> bool {
    match c {
        PlayAlongCall::Message { message, .. } => !about_note(message, n),
        PlayAlongCall::Sweep { now } => elapsed(now, pressed_at) <= LEEWAY_MS,
        PlayAlongCall::Reset => true,
    }
}

proof fn lemma_press_survives(m: PlayAlongModel, n: u8, pressed_at: u64, cs: Seq<PlayAlongCall>)
    requires
        m.pending.contains(UserPress { timestamp: pressed_at, note_id: n }),
        !m.required.contains(n),
        forall|i: int| 0 <= i < cs.len() ==> keeps_press(#[trigger] cs[i], n, pressed_at),
    ensures
        run_calls(m, cs).pending.contains(UserPress { timestamp: pressed_at, note_id: n }),
        !run_calls(m, cs).required.contains(n),
    decreases cs.len(),
{
    if cs.len() > 0 {
        let q = cs.drop_last();
        assert forall|i: int| 0 <= i < q.len() implies keeps_press(#[trigger] q[i], n, pressed_at) by {
            assert(q[i] == cs[i]);
        }
        lemma_press_survives(m, n, pressed_at, q);
        let r = run_calls(m, q);
        let c = cs.last();
        assert(keeps_press(cs[cs.len() - 1], n, pressed_at));
        match c {
            PlayAlongCall::Message { source, message, now } => {
                match message {
                    MidiMessage::NoteOn { key, .. } => {
                        lemma_filter_keeps(r.pending, other_note(key));
                        lemma_filter_keeps(r.pending.filter(other_note(key)), other_note(key));
                        let f = r.pending.filter(other_note(key));
                        let press = UserPress { timestamp: pressed_at, note_id: n };
                        assert(f.contains(press));
                        let j = choose|j: int| 0 <= j < f.len() && f[j] == press;
                        assert(f.push(UserPress { timestamp: now, note_id: key })[j] == press);
                    },
                    MidiMessage::NoteOff { key, .. } => {},
                    _ => {},
                }
            },
            PlayAlongCall::Sweep { now } => {
                lemma_filter_keeps(r.pending, fresh_at(now));
            },
            PlayAlongCall::Reset => {},
        }
    }
}

/// An early press of `n` survives any run of calls that are messages about
/// other notes, resets, or sweeps inside the leeway window; the song's note
/// on for `n` after them is then satisfied in advance, and `n` is not
/// required.
pub proof fn law_early_press_survives_other_calls(
    m: PlayAlongModel,
    n: u8,
    pressed_at: u64,
    cs: Seq<PlayAlongCall>,
)
    requires
        m.wf(),
        m.range.spec_contains(n),
        !m.required.contains(n),
        forall|i: int| 0 <= i < cs.len() ==> keeps_press(#[trigger] cs[i], n, pressed_at),
    ensures
        !run_calls(m.user_key(n, true, pressed_at), cs).file_key(n, true).required.contains(n),
{
    let m1 = m.user_key(n, true, pressed_at);
    lemma_upserted(m.pending, n, pressed_at);
    lemma_press_survives(m1, n, pressed_at, cs);
    let r = run_calls(m1, cs);
    let press = UserPress { timestamp: pressed_at, note_id: n };
    let i = choose|i: int| 0 <= i < r.pending.len() && r.pending[i] == press;
    assert(r.pending[i].note_id == n);
}

} // verus!
