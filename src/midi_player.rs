use vstd::prelude::*;
use crate::midi::{KeyboardRange, MidiEvent, MidiEventSource, MidiMessage};
use crate::play_along::{PlayAlong, PlayAlongModel};
use crate::playback::{due, lemma_seek_from, sat_add, valid_events, PlaybackModel, PlaybackState};

verus! {

/// The lead-in before a song's first event, in microseconds.
pub const LEAD_IN_US: u64 = 3_000_000;

/// Who plays a track: the output alone, the performer (whose notes are also
/// required of them), or nobody.
#[derive(Clone, Copy, Debug, PartialEq, Eq, Structural)]
pub enum PlayerConfig {
    Auto,
    Human,
    Mute,
}

/// A song: its events in song order, and the player of each track.
pub struct Song {
    pub events: Vec<MidiEvent>,
    pub tracks: Vec<PlayerConfig>,
}

impl Song {
    /// Events in order, each on a channel 0 to 15 and a track that exists.
    pub open spec fn valid(&self) -> bool {
        &&& valid_events(self.events@, LEAD_IN_US)
        &&& forall|i: int| 0 <= i < self.events@.len() ==> {
            &&& (#[trigger] self.events@[i]).track_id < self.tracks@.len()
            &&& self.events@[i].channel < 16
        }
    }
}

/// What the player asks of the sound output, in order.
#[derive(Clone, Copy, Debug, PartialEq, Eq, Structural)]
pub enum OutputCommand {
    Midi { channel: u8, message: MidiMessage },
    StopAll,
}

/// The output for events that fell due: each one, unchanged, unless its
/// track is muted.
pub open spec fn routed(evs: Seq<MidiEvent>, tracks: Seq<PlayerConfig>) -> Seq<OutputCommand>
    decreases evs.len(),
{
    if evs.len() == 0 {
        Seq::empty()
    } else {
        let r = routed(evs.drop_last(), tracks);
        let e = evs.last();
        if tracks[e.track_id as int] == PlayerConfig::Mute {
            r
        } else {
            r.push(OutputCommand::Midi { channel: e.channel, message: e.message })
        }
    }
}

/// The reconciler after the events of the performer's tracks.
pub open spec fn practised(
    pa: PlayAlongModel,
    evs: Seq<MidiEvent>,
    tracks: Seq<PlayerConfig>,
    now: u64,
) -> PlayAlongModel
    decreases evs.len(),
{
    if evs.len() == 0 {
        pa
    } else {
        let p = practised(pa, evs.drop_last(), tracks, now);
        let e = evs.last();
        if tracks[e.track_id as int] == PlayerConfig::Human {
            p.message(MidiEventSource::File, e.message, now)
        } else {
            p
        }
    }
}

/// The program of channel `ch` at time `t`: that of the last program change
/// on `ch` due at or before `t`, or 0.
pub open spec fn active_program(s: Seq<MidiEvent>, leed_in: u64, ch: u8, t: u64) -> u8
    decreases s.len(),
{
    if s.len() == 0 {
        0
    } else {
        let e = s.last();
        match e.message {
            MidiMessage::ProgramChange { program } => {
                if e.channel == ch && due(e, leed_in) <= t {
                    program
                } else {
                    active_program(s.drop_last(), leed_in, ch, t)
                }
            },
            _ => active_program(s.drop_last(), leed_in, ch, t),
        }
    }
}

/// A program change for every channel, in channel order, to its program at
/// time `t`.
pub open spec fn program_replay(s: Seq<MidiEvent>, leed_in: u64, t: u64) -> Seq<OutputCommand> {
    Seq::new(
        16,
        |c: int|
            OutputCommand::Midi {
                channel: c as u8,
                message: MidiMessage::ProgramChange { program: active_program(s, leed_in, c as u8, t) },
            },
    )
}

/// `t` moved by `delta_ms` milliseconds, clamped to the range of `u64`.
pub open spec fn rewound(t: u64, delta_ms: i64) -> u64 {
    let x = t + delta_ms * 1000;
    if x < 0 {
        0
    } else if x > u64::MAX {
        u64::MAX
    } else {
        x as u64
    }
}

/// The abstract state of the player: the playback position, the song's
/// events and players, the output commands not yet taken, and the reconciler.
pub ghost struct PlayerModel {
    pub playback: PlaybackModel,
    pub song_events: Seq<MidiEvent>,
    pub tracks: Seq<PlayerConfig>,
    pub output: Seq<OutputCommand>,
    pub play_along: PlayAlongModel,
}

impl PlayerModel {
    pub open spec fn wf(self) -> bool {
        &&& self.playback.wf()
        &&& self.play_along.wf()
        &&& self.song_events == self.playback.events
        &&& forall|i: int| 0 <= i < self.song_events.len() ==> {
            &&& (#[trigger] self.song_events[i]).track_id < self.tracks.len()
            &&& self.song_events[i].channel < 16
        }
    }

    /// A frame of `delta` microseconds, at wall-clock millisecond `now`.
    pub open spec fn tick(self, delta: u64, now: u64) -> PlayerModel {
        let evs = self.playback.crossed(delta);
        PlayerModel {
            playback: self.playback.advance(delta),
            output: self.output + routed(evs, self.tracks),
            play_along: practised(self.play_along.expire(now), evs, self.tracks, now),
            ..self
        }
    }

    /// The state with the reconciler's latest clock reading set to `now`.
    pub open spec fn with_clock(self, now: u64) -> PlayerModel {
        PlayerModel { play_along: self.play_along.with_clock(now), ..self }
    }

    pub open spec fn pause(self) -> PlayerModel {
        PlayerModel {
            playback: PlaybackModel { paused: true, ..self.playback },
            output: self.output.push(OutputCommand::StopAll),
            ..self
        }
    }

    pub open spec fn resume(self) -> PlayerModel {
        PlayerModel {
            playback: PlaybackModel { paused: false, ..self.playback },
            play_along: self.play_along.reset(),
            ..self
        }
    }

    pub open spec fn seek(self, t: u64) -> PlayerModel {
        PlayerModel {
            playback: self.playback.seek(t),
            output: self.output.push(OutputCommand::StopAll) + program_replay(
                self.playback.events,
                self.playback.leed_in,
                t,
            ),
            ..self
        }
    }

    pub open spec fn rewind(self, delta_ms: i64) -> PlayerModel {
        self.seek(rewound(self.playback.time, delta_ms))
    }
}

pub struct MidiPlayer {
    playback: PlaybackState,
    // Commands for the sound output that the host has not taken yet.
    output: Vec<OutputCommand>,
    song: Song,
    play_along: PlayAlong,
}

impl View for MidiPlayer {
    type V = PlayerModel;

    closed spec fn view(&self) -> PlayerModel {
        PlayerModel {
            playback: self.playback@,
            song_events: self.song.events@,
            tracks: self.song.tracks@,
            output: self.output@,
            play_along: self.play_along@,
        }
    }
}

fn copy_events(v: &Vec<MidiEvent>) -> (r: Vec<MidiEvent>)
    ensures
        r@ == v@,
{
    let mut r: Vec<MidiEvent> = Vec::new();
    let mut i: usize = 0;
    while i < v.len()
        invariant
            i <= v@.len(),
            r@ == v@.take(i as int),
        decreases v@.len() - i,
    {
        r.push(v[i]);
        i = i + 1;
        proof {
            assert(r@ =~= v@.take(i as int));
        }
    }
    proof {
        assert(v@.take(v@.len() as int) =~= v@);
    }
    r
}


impl MidiPlayer {
    /// Appends a program change for every channel, as of time `t`.
    fn send_midi_programs_for_timestamp(&mut self, t: u64)
        requires
            old(self)@.wf(),
        ensures
            final(self)@ == (PlayerModel {
                output: old(self)@.output + program_replay(
                    old(self)@.playback.events,
                    old(self)@.playback.leed_in,
                    t,
                ),
                ..old(self)@
            }),
    {
        let ghost s = self@.playback.events;
        let ghost l = self@.playback.leed_in;
        let ghost out0 = self@.output;
        let mut programs: Vec<u8> = Vec::new();
        let mut c: usize = 0;
        while c < 16
            invariant
                c <= 16,
                programs@.len() == c,
                forall|j: int| 0 <= j < c ==> programs@[j] == 0,
            decreases 16 - c,
        {
            programs.push(0);
            c = c + 1;
        }
        let events = self.playback.events();
        let leed_in = self.playback.leed_in();
        let mut i: usize = 0;
        while i < events.len()
            invariant
                self@.wf(),
                events@ == s,
                leed_in == l,
                s == self@.playback.events,
                l == self@.playback.leed_in,
                self@ == old(self)@,
                i <= s.len(),
                programs@.len() == 16,
                forall|ch: int| 0 <= ch < 16 ==> programs@[ch] == active_program(s.take(i as int), l, ch as u8, t),
            decreases s.len() - i,
        {
            let e = events[i];
            proof {
                assert(s.take(i + 1).drop_last() =~= s.take(i as int));
                assert(s.take(i + 1).last() == e);
                assert(self@.song_events[i as int] == e);
                assert(valid_events(s, l));
                assert(due(s[i as int], l) <= u64::MAX);
            }
            if let MidiMessage::ProgramChange { program } = e.message {
                if leed_in + e.timestamp <= t {
                    programs.set(e.channel as usize, program);
                }
            }
            i = i + 1;
        }
        proof {
            assert(s.take(s.len() as int) =~= s);
        }
        let ghost replay = program_replay(s, l, t);
        proof {
            assert(out0 + replay.take(0) =~= out0);
        }
        let mut c: usize = 0;
        while c < 16
            invariant
                c <= 16,
                programs@.len() == 16,
                replay == program_replay(s, l, t),
                replay.len() == 16,
                forall|ch: int| 0 <= ch < 16 ==> programs@[ch] == active_program(s, l, ch as u8, t),
                self@ == (PlayerModel { output: out0 + replay.take(c as int), ..old(self)@ }),
            decreases 16 - c,
        {
            let cmd = OutputCommand::Midi {
                channel: c as u8,
                message: MidiMessage::ProgramChange { program: programs[c] },
            };
            self.output.push(cmd);
            proof {
                assert(replay[c as int] == cmd);
                assert(out0 + replay.take(c + 1) =~= (out0 + replay.take(c as int)).push(cmd));
            }
            c = c + 1;
        }
        proof {
            assert(replay.take(16) =~= replay);
        }
    }

    fn clear(&mut self)
        requires
            old(self)@.wf(),
        ensures
            final(self)@ == (PlayerModel { output: old(self)@.output.push(OutputCommand::StopAll), ..old(self)@ }),
    {
        self.output.push(OutputCommand::StopAll);
    }
}


impl MidiPlayer {
    /// A player at the start of `song`, with each channel's program reset.
    pub fn new(song: Song, user_keyboard_range: KeyboardRange) -> (r: MidiPlayer)
        requires
            song.valid(),
        ensures
            r@.wf(),
            r@.playback == (PlaybackModel {
                events: song.events@,
                leed_in: LEAD_IN_US,
                length: r@.playback.length,
                time: 0,
                seeker: 0,
                paused: false,
            }),
            r@.song_events == song.events@,
            r@.tracks == song.tracks@,
            r@.output == program_replay(song.events@, LEAD_IN_US, 0),
            r@.play_along == (PlayAlongModel {
                range: user_keyboard_range,
                required: Set::empty(),
                pending: Seq::empty(),
                clock: r@.play_along.clock,
            }),
    {
        let events = copy_events(&song.events);
        let mut player = MidiPlayer {
            playback: PlaybackState::new(LEAD_IN_US, events),
            output: Vec::new(),
            song,
            play_along: PlayAlong::new(user_keyboard_range),
        };
        // Programs left over from an earlier song are reset to those at the start.
        player.send_midi_programs_for_timestamp(0);
        let now = player.play_along.read_clock();
        let ghost before = player@;
        proof {
            assert(Seq::<OutputCommand>::empty() + program_replay(song.events@, LEAD_IN_US, 0)
                =~= program_replay(song.events@, LEAD_IN_US, 0));
        }
        player.update_at(0, now);
        proof {
            let s = before.playback.events;
            if s.len() > 0 {
                assert(due(s[0], LEAD_IN_US) > 0);
            }
            assert(before.playback.crossed(0) =~= Seq::<MidiEvent>::empty());
            assert(before.output + routed(Seq::empty(), before.tracks) =~= before.output);
            reveal_with_fuel(Seq::filter, 1);
            assert(before.play_along.expire(now) == before.play_along);
        }
        player
    }

    pub fn song(&self) -> (r: &Song)
        ensures
            r.events@ == self@.song_events,
            r.tracks@ == self@.tracks,
    {
        &self.song
    }

    /// A frame of `delta` microseconds at wall-clock millisecond `now`: expires
    /// early presses, advances playback, sends the events that fell due to the
    /// output unless their track is muted, and reports those of the
    /// performer's tracks to the reconciler. Returns the events that fell due.
    pub fn update_at(&mut self, delta: u64, now: u64) -> (r: Vec<MidiEvent>)
        requires
            old(self)@.wf(),
        ensures
            final(self)@ == old(self)@.tick(delta, now),
            r@ == old(self)@.playback.crossed(delta),
            final(self)@.wf(),
    {
        let ghost m0 = self@;
        let ghost tracks = m0.tracks;
        self.play_along.update_at(now);
        let events = self.playback.update(delta);
        let ghost pa0 = self@.play_along;
        proof {
            assert(self@.playback.wf());
            assert(self@.playback == m0.playback.advance(delta));
            lemma_seek_from(
                m0.playback.events,
                m0.playback.leed_in,
                m0.playback.seeker,
                sat_add(m0.playback.time, delta),
            );
            assert(m0.playback.seeker <= self@.playback.seeker <= m0.song_events.len());
            assert forall|j: int| 0 <= j < events@.len() implies
                (#[trigger] events@[j]).track_id < tracks.len() by {
                assert(events@[j] == m0.song_events[m0.playback.seeker + j]);
            }
            assert(m0.output + routed(events@.take(0), tracks) =~= m0.output);
        }
        let mut i: usize = 0;
        while i < events.len()
            invariant
                i <= events@.len(),
                events@ == m0.playback.crossed(delta),
                forall|j: int| 0 <= j < events@.len() ==> (#[trigger] events@[j]).track_id < tracks.len(),
                self.song.tracks@ == tracks,
                self.song.events@ == m0.song_events,
                self.playback@ == m0.playback.advance(delta),
                pa0 == m0.play_along.expire(now),
                self@.output == m0.output + routed(events@.take(i as int), tracks),
                self@.play_along == practised(pa0, events@.take(i as int), tracks, now),
                self@.play_along.wf(),
            decreases events@.len() - i,
        {
            let e = events[i];
            let ghost out_i = self@.output;
            proof {
                assert(events@.take(i + 1).drop_last() =~= events@.take(i as int));
                assert(events@.take(i + 1).last() == e);
                assert(events@[i as int] == e);
            }
            let cfg = self.song.tracks[e.track_id];
            let cmd = OutputCommand::Midi { channel: e.channel, message: e.message };
            match cfg {
                PlayerConfig::Auto => {
                    self.output.push(cmd);
                },
                PlayerConfig::Human => {
                    // The performer's notes sound too; an output without sound
                    // silences them.
                    self.output.push(cmd);
                    self.play_along.midi_event_at(MidiEventSource::File, &e.message, now);
                },
                PlayerConfig::Mute => {},
            }
            proof {
                assert(m0.output + routed(events@.take(i + 1), tracks) =~= if cfg == PlayerConfig::Mute {
                    out_i
                } else {
                    out_i.push(cmd)
                });
            }
            i = i + 1;
        }
        proof {
            assert(events@.take(events@.len() as int) =~= events@);
        }
        events
    }

    /// A frame of `delta` microseconds, at the clock's current reading.
    pub fn update(&mut self, delta: u64) -> (r: Vec<MidiEvent>)
        requires
            old(self)@.wf(),
        ensures
            exists|now: u64|
                now >= old(self)@.play_along.clock && final(self)@ == #[trigger] old(self)@.with_clock(
                    now,
                ).tick(delta, now),
            r@ == old(self)@.playback.crossed(delta),
            final(self)@.wf(),
    {
        let now = self.play_along.read_clock();
        proof {
            assert(self@ == old(self)@.with_clock(now));
        }
        let r = self.update_at(delta, now);
        proof {
            assert(self@ == old(self)@.with_clock(now).tick(delta, now));
        }
        r
    }

    pub fn pause_resume(&mut self)
        requires
            old(self)@.wf(),
        ensures
            final(self)@ == if old(self)@.playback.paused {
                old(self)@.resume()
            } else {
                old(self)@.pause()
            },
            final(self)@.wf(),
    {
        if self.playback.is_paused() {
            self.resume();
        } else {
            self.pause();
        }
    }

    /// Silences the output and pauses.
    pub fn pause(&mut self)
        requires
            old(self)@.wf(),
        ensures
            final(self)@ == old(self)@.pause(),
            final(self)@.wf(),
    {
        self.clear();
        self.playback.pause();
    }

    /// Resumes, forgetting the requirements from before the pause.
    pub fn resume(&mut self)
        requires
            old(self)@.wf(),
        ensures
            final(self)@ == old(self)@.resume(),
            final(self)@.wf(),
    {
        self.playback.resume();
        self.play_along.clear();
    }

    /// Moves to time `t` without sounding the events skipped over, silences
    /// the output and sends each channel's program at `t`.
    pub fn set_time(&mut self, t: u64)
        requires
            old(self)@.wf(),
        ensures
            final(self)@ == old(self)@.seek(t),
            final(self)@.wf(),
    {
        self.playback.set_time(t);
        self.clear();
        self.send_midi_programs_for_timestamp(t);
        proof {
            let m = old(self)@;
            assert(m.output.push(OutputCommand::StopAll) + program_replay(m.playback.events, m.playback.leed_in, t)
                == self@.output);
        }
    }

    /// Moves by `delta` milliseconds, forward or back, saturating at zero
    /// and at the largest time, then as `set_time`.
    pub fn rewind(&mut self, delta: i64)
        requires
            old(self)@.wf(),
        ensures
            final(self)@ == old(self)@.rewind(delta),
            final(self)@.wf(),
    {
        let time = self.playback.time();
        let x: i128 = time as i128 + (delta as i128) * 1000;
        let t: u64 = if x < 0 {
            0
        } else if x > u64::MAX as i128 {
            u64::MAX
        } else {
            x as u64
        };
        self.set_time(t);
    }

    pub fn leed_in(&self) -> (r: u64)
        ensures
            r == self@.playback.leed_in,
    {
        self.playback.leed_in()
    }

    pub fn length(&self) -> (r: u64)
        ensures
            r == self@.playback.length,
    {
        self.playback.length()
    }

    pub fn time(&self) -> (r: u64)
        ensures
            r == self@.playback.time,
    {
        self.playback.time()
    }

    pub fn is_paused(&self) -> (r: bool)
        ensures
            r == self@.playback.paused,
    {
        self.playback.is_paused()
    }

    pub fn play_along(&self) -> (r: &PlayAlong)
        ensures
            r@ == self@.play_along,
    {
        &self.play_along
    }

    pub fn play_along_mut(&mut self) -> (r: &mut PlayAlong)
        ensures
            r@ == old(self)@.play_along,
            final(self)@ == (PlayerModel { play_along: final(r)@, ..old(self)@ }),
    {
        &mut self.play_along
    }

    /// Ends the session: silences the output. A host calls this once, when it
    /// drops the player, on every path.
    pub fn finish(&mut self)
        requires
            old(self)@.wf(),
        ensures
            final(self)@ == (PlayerModel { output: old(self)@.output.push(OutputCommand::StopAll), ..old(self)@ }),
    {
        self.clear();
    }

    /// Hands over the output commands issued so far, in order.
    pub fn take_output(&mut self) -> (r: Vec<OutputCommand>)
        ensures
            r@ == old(self)@.output,
            final(self)@ == (PlayerModel { output: Seq::empty(), ..old(self)@ }),
    {
        let out = copy_commands(&self.output);
        self.output.clear();
        out
    }
}

fn copy_commands(v: &Vec<OutputCommand>) -> (r: Vec<OutputCommand>)
    ensures
        r@ == v@,
{
    let mut r: Vec<OutputCommand> = Vec::new();
    let mut i: usize = 0;
    while i < v.len()
        invariant
            i <= v@.len(),
            r@ == v@.take(i as int),
        decreases v@.len() - i,
    {
        r.push(v[i]);
        i = i + 1;
        proof {
            assert(r@ =~= v@.take(i as int));
        }
    }
    proof {
        assert(v@.take(v@.len() as int) =~= v@);
    }
    r
}


/// The player after a run of frames, each a duration and a wall-clock reading.
pub open spec fn run(m: PlayerModel, frames: Seq<(u64, u64)>) -> PlayerModel
    decreases frames.len(),
{
    if frames.len() == 0 {
        m
    } else {
        run(m, frames.drop_last()).tick(frames.last().0, frames.last().1)
    }
}

/// Pausing, running any frames, then resuming: the only output of the whole
/// interval is the one that silences the output on pausing, the position is
/// where it was, and no requirement is left outstanding.
pub proof fn law_pause_resume(m: PlayerModel, frames: Seq<(u64, u64)>)
    requires
        m.wf(),
    ensures
        run(m.pause(), frames).output == m.output.push(OutputCommand::StopAll),
        run(m.pause(), frames).playback == m.pause().playback,
        run(m.pause(), frames).resume().output == m.output.push(OutputCommand::StopAll),
        run(m.pause(), frames).resume().playback == (PlaybackModel { paused: false, ..m.playback }),
        run(m.pause(), frames).resume().play_along.required == Set::<u8>::empty(),
    decreases frames.len(),
{
    if frames.len() > 0 {
        law_pause_resume(m, frames.drop_last());
        let p = run(m.pause(), frames.drop_last());
        let delta = frames.last().0;
        assert(p.playback.crossed(delta) =~= Seq::<MidiEvent>::empty());
        assert(p.output + routed(Seq::<MidiEvent>::empty(), p.tracks) =~= p.output);
    }
}

/// A program change on channel `ch` that is due at or before `t`.
pub open spec fn sets_program(e: MidiEvent, leed_in: u64, ch: u8, t: u64) -> bool {
    &&& e.message is ProgramChange
    &&& e.channel == ch
    &&& due(e, leed_in) <= t
}

/// The program is that of the last program change on `ch` due at or before
/// `t`, and 0 when there is none.
pub proof fn lemma_active_program(s: Seq<MidiEvent>, leed_in: u64, ch: u8, t: u64)
    ensures
        (forall|i: int| 0 <= i < s.len() ==> !sets_program(#[trigger] s[i], leed_in, ch, t))
            ==> active_program(s, leed_in, ch, t) == 0,
        (exists|i: int| 0 <= i < s.len() && sets_program(#[trigger] s[i], leed_in, ch, t)) ==> exists|i: int|
            {
                &&& 0 <= i < s.len()
                &&& sets_program(#[trigger] s[i], leed_in, ch, t)
                &&& s[i].message == MidiMessage::ProgramChange {
                    program: active_program(s, leed_in, ch, t),
                }
                &&& forall|j: int| i < j < s.len() ==> !sets_program(#[trigger] s[j], leed_in, ch, t)
            },
    decreases s.len(),
{
    if s.len() > 0 {
        let q = s.drop_last();
        lemma_active_program(q, leed_in, ch, t);
        let k = s.len() - 1;
        if sets_program(s[k], leed_in, ch, t) {
            assert(s[k] == s.last());
        } else {
            assert forall|i: int| 0 <= i < q.len() implies q[i] == s[i] by {}
            if exists|i: int| 0 <= i < s.len() && sets_program(#[trigger] s[i], leed_in, ch, t) {
                let i0 = choose|i: int| 0 <= i < s.len() && sets_program(#[trigger] s[i], leed_in, ch, t);
                assert(q[i0] == s[i0]);
                let w = choose|i: int|
                    {
                        &&& 0 <= i < q.len()
                        &&& sets_program(#[trigger] q[i], leed_in, ch, t)
                        &&& q[i].message == MidiMessage::ProgramChange {
                            program: active_program(q, leed_in, ch, t),
                        }
                        &&& forall|j: int| i < j < q.len() ==> !sets_program(#[trigger] q[j], leed_in, ch, t)
                    };
                assert(s[w] == q[w]);
                assert forall|j: int| w < j < s.len() implies !sets_program(#[trigger] s[j], leed_in, ch, t) by {
                    if j < k {
                        assert(q[j] == s[j]);
                    }
                }
            }
            if forall|i: int| 0 <= i < s.len() ==> !sets_program(#[trigger] s[i], leed_in, ch, t) {
                assert forall|i: int| 0 <= i < q.len() implies !sets_program(#[trigger] q[i], leed_in, ch, t) by {
                    assert(q[i] == s[i]);
                }
            }
        }
    }
}

/// A seek to `t` ends the output with a program change for every channel, to
/// the program of its last program change due at or before `t` (0 if none),
/// whatever the position before the seek.
pub proof fn law_seek_restores_programs(m1: PlayerModel, m2: PlayerModel, t: u64, ch: u8)
    requires
        m1.wf(),
        m2.wf(),
        m1.playback.events == m2.playback.events,
        m1.playback.leed_in == m2.playback.leed_in,
        ch < 16,
    ensures
        ({
            let o1 = m1.seek(t).output;
            let o2 = m2.seek(t).output;
            &&& o1.len() == m1.output.len() + 17
            &&& o1[m1.output.len() as int] == OutputCommand::StopAll
            &&& o1.subrange(o1.len() - 16, o1.len() as int) == o2.subrange(o2.len() - 16, o2.len() as int)
            &&& o1[o1.len() - 16 + ch] == OutputCommand::Midi {
                channel: ch,
                message: MidiMessage::ProgramChange {
                    program: active_program(m1.playback.events, m1.playback.leed_in, ch, t),
                },
            }
        }),
        m1.seek(t).playback.time == t,
{
    let o1 = m1.seek(t).output;
    let o2 = m2.seek(t).output;
    let r = program_replay(m1.playback.events, m1.playback.leed_in, t);
    assert(o1.subrange(o1.len() - 16, o1.len() as int) =~= r);
    assert(o2.subrange(o2.len() - 16, o2.len() as int) =~= r);
    assert(o1[o1.len() - 16 + ch] == r[ch as int]);
    lemma_active_program(m1.playback.events, m1.playback.leed_in, ch, t);
}

/// A rewind moves the time by the given milliseconds and clamps it at zero;
/// once at zero, further rewinds back keep it there.
pub proof fn law_rewind_saturates(m: PlayerModel, back_ms: i64, again_ms: i64)
    requires
        m.wf(),
        back_ms < 0,
        m.playback.time + back_ms * 1000 <= 0,
        again_ms <= 0,
    ensures
        m.rewind(back_ms).playback.time == 0,
        m.rewind(back_ms).rewind(again_ms).playback.time == 0,
        forall|d: i64| #[trigger] m.rewind(d).playback.time >= 0
            && (m.playback.time + d * 1000 >= 0 && m.playback.time + d * 1000 <= u64::MAX
                ==> m.rewind(d).playback.time == m.playback.time + d * 1000),
{
}

/// The player after a run of rewinds, in order.
pub open spec fn rewind_all(m: PlayerModel, ds: Seq<i64>) -> PlayerModel
    decreases ds.len(),
{
    if ds.len() == 0 {
        m
    } else {
        rewind_all(m, ds.drop_last()).rewind(ds.last())
    }
}

/// Once a rewind back has reached time zero, any number of further rewinds
/// back keep it at zero.
pub proof fn law_rewinds_stay_at_zero(m: PlayerModel, back_ms: i64, ds: Seq<i64>)
    requires
        m.playback.time + back_ms * 1000 <= 0,
        forall|i: int| 0 <= i < ds.len() ==> #[trigger] ds[i] <= 0,
    ensures
        rewind_all(m.rewind(back_ms), ds).playback.time == 0,
    decreases ds.len(),
{
    if ds.len() > 0 {
        let q = ds.drop_last();
        assert forall|i: int| 0 <= i < q.len() implies #[trigger] q[i] <= 0 by {
            assert(q[i] == ds[i]);
        }
        law_rewinds_stay_at_zero(m, back_ms, q);
        assert(ds[ds.len() - 1] <= 0);
    }
}

} // verus!
