//! The timed sequence of actions that samples a range of notes.
//!
//! A session is planned in full before anything is sent. The driver asks a
//! `Progress` for one step after the other, carries each action out and
//! reports what became of it; when an action fails or the session is
//! cancelled, the steps that follow are those that are still owed.

use vstd::prelude::*;
use crate::sampler::SamplingConfig;

verus! {

/// One thing the driver does.
#[derive(Debug, Clone, Copy, PartialEq, Eq, Structural)]
pub enum Action {
    /// The full panic sweep over all channels.
    MidiPanic,
    /// Build and start the input stream.
    OpenStream,
    /// Pause and drop the input stream.
    CloseStream,
    /// Bind the stream's tap to the recording buffer.
    ArmTap,
    /// Release the tap.
    DisarmTap,
    /// Empty the recording buffer.
    ClearBuffer,
    /// Switch recording on: frames reach the buffer from here on.
    StartRecording,
    /// Switch recording off.
    StopRecording,
    /// Wait this many milliseconds.
    Sleep(u64),
    /// All-Notes-Off and Reset-All-Controllers on one channel.
    ChannelPanic(u8),
    /// Take the time just before the note is switched on.
    MarkGateStart,
    NoteOn { channel: u8, note: u8, velocity: u8 },
    NoteOff { channel: u8, note: u8, velocity: u8 },
    /// Take the time just after the note was switched off.
    MarkGateEnd,
    /// Move the frames out of the buffer into a segment for this note.
    Snapshot { note: u8, velocity: u8 },
}

/// Wait after the opening panic, for the instrument to take it in.
pub const PANIC_SETTLE_MS: u64 = 100;

/// Wait after the channel panic that precedes each note.
pub const NOTE_SETTLE_MS: u64 = 50;

/// Quiet gap between two notes.
pub const NOTE_GAP_MS: u64 = 300;

/// Step `s` of the protocol for one note, `0 <= s < 14`: clear the buffer,
/// start recording, pre-roll, channel panic and settle, gate with its two
/// time marks, release, post-roll, stop recording, snapshot.
pub open spec fn protocol_step(cfg: SamplingConfig, note: u8, velocity: u8, s: int) -> Action {
    if s == 0 {
        Action::ClearBuffer
    } else if s == 1 {
        Action::StartRecording
    } else if s == 2 {
        Action::Sleep(cfg.pre_delay_ms)
    } else if s == 3 {
        Action::ChannelPanic(cfg.midi_channel)
    } else if s == 4 {
        Action::Sleep(NOTE_SETTLE_MS)
    } else if s == 5 {
        Action::MarkGateStart
    } else if s == 6 {
        Action::NoteOn { channel: cfg.midi_channel, note, velocity }
    } else if s == 7 {
        Action::Sleep(cfg.note_duration_ms)
    } else if s == 8 {
        Action::NoteOff { channel: cfg.midi_channel, note, velocity }
    } else if s == 9 {
        Action::MarkGateEnd
    } else if s == 10 {
        Action::Sleep(cfg.release_time_ms)
    } else if s == 11 {
        Action::Sleep(cfg.post_delay_ms)
    } else if s == 12 {
        Action::StopRecording
    } else {
        Action::Snapshot { note, velocity }
    }
}

/// The protocol for one note.
pub open spec fn note_protocol(cfg: SamplingConfig, note: u8, velocity: u8) -> Seq<Action> {
    Seq::new(14, |s: int| protocol_step(cfg, note, velocity, s))
}

/// What a session samples: each velocity in turn, and for each the notes
/// `start..start + notes` upwards.
pub struct Sweep {
    pub velocities: Seq<u8>,
    pub start: u8,
    pub notes: int,
}

impl Sweep {
    /// At least one velocity and one note, and no note above 127.
    pub open spec fn valid(self) -> bool {
        &&& self.velocities.len() >= 1
        &&& self.notes >= 1
        &&& self.start + self.notes <= 128
    }

    /// Number of segments: notes times velocities.
    pub open spec fn total(self) -> int {
        self.velocities.len() * self.notes
    }

    /// Velocity of segment `k`: velocities change slowest.
    pub open spec fn velocity_of(self, k: int) -> u8 {
        self.velocities[k / self.notes]
    }

    /// Note of segment `k`.
    pub open spec fn note_of(self, k: int) -> u8 {
        (self.start + k % self.notes) as u8
    }

    /// Number of actions of the session.
    pub open spec fn plan_len(self) -> int {
        4 + 15 * self.total() - 1 + 3
    }

    /// Action `i` of the session: panic, settle, open the stream and arm
    /// the tap; then the protocol of each segment, with a quiet gap between
    /// two segments; then disarm the tap, close the stream and panic.
    pub open spec fn action(self, cfg: SamplingConfig, i: int) -> Action {
        let j = i - 4;
        let t = j - (15 * self.total() - 1);
        if i == 0 {
            Action::MidiPanic
        } else if i == 1 {
            Action::Sleep(PANIC_SETTLE_MS)
        } else if i == 2 {
            Action::OpenStream
        } else if i == 3 {
            Action::ArmTap
        } else if t < 0 {
            if j % 15 == 14 {
                Action::Sleep(NOTE_GAP_MS)
            } else {
                protocol_step(cfg, self.note_of(j / 15), self.velocity_of(j / 15), j % 15)
            }
        } else if t == 0 {
            Action::DisarmTap
        } else if t == 1 {
            Action::CloseStream
        } else {
            Action::MidiPanic
        }
    }

    /// The session as a sequence of actions.
    pub open spec fn plan(self, cfg: SamplingConfig) -> Seq<Action> {
        Seq::new(self.plan_len() as nat, |i: int| self.action(cfg, i))
    }
}


/// Appends the protocol for one note.
pub fn push_protocol(plan: &mut Vec<Action>, cfg: &SamplingConfig, note: u8, velocity: u8)
    ensures
        final(plan)@ == old(plan)@ + note_protocol(*cfg, note, velocity),
{
    plan.push(Action::ClearBuffer);
    plan.push(Action::StartRecording);
    plan.push(Action::Sleep(cfg.pre_delay_ms));
    plan.push(Action::ChannelPanic(cfg.midi_channel));
    plan.push(Action::Sleep(NOTE_SETTLE_MS));
    plan.push(Action::MarkGateStart);
    plan.push(Action::NoteOn { channel: cfg.midi_channel, note, velocity });
    plan.push(Action::Sleep(cfg.note_duration_ms));
    plan.push(Action::NoteOff { channel: cfg.midi_channel, note, velocity });
    plan.push(Action::MarkGateEnd);
    plan.push(Action::Sleep(cfg.release_time_ms));
    plan.push(Action::Sleep(cfg.post_delay_ms));
    plan.push(Action::StopRecording);
    plan.push(Action::Snapshot { note, velocity });
    assert(plan@ =~= old(plan)@ + note_protocol(*cfg, note, velocity));
}

/// Segment `v * notes + n` has note `start + n` and the velocity at `v`,
/// and is one of the `total` segments.
pub proof fn lemma_segment(sweep: Sweep, v: int, n: int)
    requires
        sweep.valid(),
        0 <= v < sweep.velocities.len(),
        0 <= n < sweep.notes,
    ensures
        0 <= v * sweep.notes + n < sweep.total(),
        sweep.velocity_of(v * sweep.notes + n) == sweep.velocities[v],
        sweep.note_of(v * sweep.notes + n) == sweep.start + n,
{
    let d = sweep.notes;
    let k = v * d + n;
    assert(0 <= v * d && (v + 1) * d <= sweep.velocities.len() * d) by (nonlinear_arith)
        requires
            0 <= v,
            v + 1 <= sweep.velocities.len(),
            d >= 1,
    ;
    assert((v + 1) * d == v * d + d) by (nonlinear_arith);
    vstd::arithmetic::div_mod::lemma_fundamental_div_mod_converse(k, d, v, n);
}

/// The actions of a session that samples the notes `start..=end` at each
/// of the velocities in turn.
pub fn build_plan(cfg: &SamplingConfig, velocities: &Vec<u8>, start: u8, end: u8) -> (plan: Vec<
    Action,
>)
    requires
        start <= end <= 127,
        velocities@.len() >= 1,
    ensures
        plan@ == (Sweep { velocities: velocities@, start, notes: end - start + 1 }).plan(*cfg),
{
    let ghost sweep = Sweep { velocities: velocities@, start, notes: end - start + 1 };
    let notes: usize = (end - start) as usize + 1;
    let mut plan: Vec<Action> = Vec::new();
    plan.push(Action::MidiPanic);
    plan.push(Action::Sleep(PANIC_SETTLE_MS));
    plan.push(Action::OpenStream);
    plan.push(Action::ArmTap);
    assert(sweep.total() >= 1) by (nonlinear_arith)
        requires
            sweep.total() == sweep.velocities.len() * sweep.notes,
            sweep.velocities.len() >= 1,
            sweep.notes >= 1,
    ;
    let mut v: usize = 0;
    while v < velocities.len()
        invariant
            sweep == (Sweep { velocities: velocities@, start, notes: end - start + 1 }),
            sweep.valid(),
            notes == sweep.notes,
            start <= end <= 127,
            v <= velocities@.len(),
            plan@.len() == 4 + 15 * (v * notes) - (if v == 0 {
                0int
            } else {
                1int
            }),
            forall|i: int| 0 <= i < plan@.len() ==> plan@[i] == sweep.action(*cfg, i),
        decreases velocities@.len() - v,
    {
        let velocity: u8 = velocities[v];
        assert((v * notes == 0) <==> v == 0) by (nonlinear_arith)
            requires
                notes >= 1,
                v >= 0,
        ;
        let mut n: usize = 0;
        while n < notes
            invariant
                sweep == (Sweep { velocities: velocities@, start, notes: end - start + 1 }),
                sweep.valid(),
                notes == sweep.notes,
                start <= end <= 127,
                v < velocities@.len(),
                velocity == velocities@[v as int],
                n <= notes,
                plan@.len() == 4 + 15 * (v * notes + n) - (if v * notes + n == 0 {
                    0int
                } else {
                    1int
                }),
                forall|i: int| 0 <= i < plan@.len() ==> plan@[i] == sweep.action(*cfg, i),
            decreases notes - n,
        {
            let ghost k = v * notes + n;
            let ghost before = plan@;
            let note: u8 = start + n as u8;
            proof {
                lemma_segment(sweep, v as int, n as int);
                assert(0 <= v * notes && ((v * notes == 0) <==> v == 0)) by (nonlinear_arith)
                    requires
                        0 <= v,
                        1 <= notes,
                ;
            }
            if v > 0 || n > 0 {
                plan.push(Action::Sleep(NOTE_GAP_MS));
            }
            assert(plan@.len() == 4 + 15 * k);
            let ghost with_gap = plan@;
            push_protocol(&mut plan, cfg, note, velocity);
            assert forall|i: int| 0 <= i < plan@.len() implies plan@[i] == sweep.action(
                *cfg,
                i,
            ) by {
                if i < before.len() {
                    assert(plan@[i] == before[i]);
                } else if i < with_gap.len() {
                    assert(plan@[i] == Action::Sleep(NOTE_GAP_MS));
                    assert(i - 4 == 15 * (k - 1) + 14);
                } else {
                    let s = i - (4 + 15 * k);
                    assert(plan@[i] == note_protocol(*cfg, note, velocity)[s]);
                    assert(i - 4 == 15 * k + s);
                    assert((i - 4) / 15 == k);
                    assert((i - 4) % 15 == s);
                }
            }
            n = n + 1;
        }
        assert((v + 1) * notes == v * notes + notes) by (nonlinear_arith);
        assert(v * notes + notes > 0);
        v = v + 1;
    }
    assert(plan@.len() == 4 + 15 * sweep.total() - 1);
    plan.push(Action::DisarmTap);
    plan.push(Action::CloseStream);
    plan.push(Action::MidiPanic);
    assert(plan@ =~= sweep.plan(*cfg));
    plan
}


/// What is switched on while a session runs.
#[derive(Debug, Clone, Copy, PartialEq, Eq, Structural)]
pub struct Rig {
    pub stream_open: bool,
    pub tap_armed: bool,
    pub recording: bool,
}

/// Nothing is switched on.
pub open spec fn idle() -> Rig {
    Rig { stream_open: false, tap_armed: false, recording: false }
}

/// The rig after one more action.
pub open spec fn rig_step(r: Rig, a: Action) -> Rig {
    match a {
        Action::OpenStream => Rig { stream_open: true, ..r },
        Action::CloseStream => Rig { stream_open: false, ..r },
        Action::ArmTap => Rig { tap_armed: true, ..r },
        Action::DisarmTap => Rig { tap_armed: false, ..r },
        Action::StartRecording => Rig { recording: true, ..r },
        Action::StopRecording => Rig { recording: false, ..r },
        _ => r,
    }
}

/// The rig after the actions of `t`, starting from `r`.
pub open spec fn rig_run(r: Rig, t: Seq<Action>) -> Rig
    decreases t.len(),
{
    if t.len() == 0 {
        r
    } else {
        rig_step(rig_run(r, t.drop_last()), t.last())
    }
}

/// The rig after the actions of `t`, starting with nothing switched on.
pub open spec fn rig_after(t: Seq<Action>) -> Rig {
    rig_run(idle(), t)
}

/// How often `a` occurs in `t`.
pub open spec fn occurrences(t: Seq<Action>, a: Action) -> nat
    decreases t.len(),
{
    if t.len() == 0 {
        0
    } else {
        occurrences(t.drop_last(), a) + if t.last() == a {
            1nat
        } else {
            0nat
        }
    }
}

/// What is owed when a session stops with the rig in state `r`: recording
/// off, the tap released and the stream closed, each only where it is on,
/// and a panic in every case.
pub open spec fn wind_down(r: Rig) -> Seq<Action> {
    (if r.recording {
        seq![Action::StopRecording]
    } else {
        Seq::<Action>::empty()
    }) + (if r.tap_armed {
        seq![Action::DisarmTap]
    } else {
        Seq::<Action>::empty()
    }) + (if r.stream_open {
        seq![Action::CloseStream]
    } else {
        Seq::<Action>::empty()
    }) + seq![Action::MidiPanic]
}

/// Running `a + b` is running `a`, then `b`.
pub proof fn lemma_rig_run_concat(r: Rig, a: Seq<Action>, b: Seq<Action>)
    ensures
        rig_run(r, a + b) == rig_run(rig_run(r, a), b),
    decreases b.len(),
{
    if b.len() == 0 {
        assert(a + b =~= a);
    } else {
        assert((a + b).drop_last() =~= a + b.drop_last());
        assert((a + b).last() == b.last());
        lemma_rig_run_concat(r, a, b.drop_last());
    }
}

/// Occurrences add up over a concatenation.
pub proof fn lemma_occurrences_concat(a: Seq<Action>, b: Seq<Action>, x: Action)
    ensures
        occurrences(a + b, x) == occurrences(a, x) + occurrences(b, x),
    decreases b.len(),
{
    if b.len() == 0 {
        assert(a + b =~= a);
    } else {
        assert((a + b).drop_last() =~= a + b.drop_last());
        assert((a + b).last() == b.last());
        lemma_occurrences_concat(a, b.drop_last(), x);
    }
}

/// Running one action.
pub proof fn lemma_rig_run_one(r: Rig, a: Action)
    ensures
        rig_run(r, seq![a]) == rig_step(r, a),
{
    assert(seq![a].drop_last() =~= Seq::<Action>::empty());
    reveal_with_fuel(rig_run, 2);
}

/// After the actions owed by `wind_down`, nothing is switched on, whatever
/// was before; the last of them is the panic.
pub proof fn lemma_wind_down_quiets(r: Rig)
    ensures
        rig_run(r, wind_down(r)) == idle(),
        wind_down(r).last() == Action::MidiPanic,
        occurrences(wind_down(r), Action::MidiPanic) == 1,
        occurrences(wind_down(r), Action::CloseStream) == if r.stream_open {
            1nat
        } else {
            0nat
        },
        occurrences(wind_down(r), Action::OpenStream) == 0,
{
    let none = Seq::<Action>::empty();
    let a = if r.recording {
        seq![Action::StopRecording]
    } else {
        none
    };
    let b = if r.tap_armed {
        seq![Action::DisarmTap]
    } else {
        none
    };
    let c = if r.stream_open {
        seq![Action::CloseStream]
    } else {
        none
    };
    let d = seq![Action::MidiPanic];
    lemma_rig_run_concat(r, a + b + c, d);
    lemma_rig_run_concat(r, a + b, c);
    lemma_rig_run_concat(r, a, b);
    lemma_rig_run_one(r, Action::StopRecording);
    lemma_rig_run_one(rig_run(r, a), Action::DisarmTap);
    lemma_rig_run_one(rig_run(r, a + b), Action::CloseStream);
    lemma_rig_run_one(rig_run(r, a + b + c), Action::MidiPanic);
    assert forall|x: Action| #[trigger]
        occurrences(wind_down(r), x) == occurrences(a, x) + occurrences(b, x) + occurrences(c, x)
            + occurrences(d, x) by {
        lemma_occurrences_concat(a + b + c, d, x);
        lemma_occurrences_concat(a + b, c, x);
        lemma_occurrences_concat(a, b, x);
    }
    assert forall|x: Action, y: Action| #[trigger]
        occurrences(seq![y], x) == if x == y {
            1nat
        } else {
            0nat
        } by {
        assert(seq![y].drop_last() =~= none);
        reveal_with_fuel(occurrences, 2);
    }
}


impl Sweep {
    /// Whether recording is on after the first `m` actions of the plan:
    /// within a note, after its second and up to its twelfth action.
    pub open spec fn recording_after(self, m: int) -> bool {
        4 <= m <= self.plan_len() - 3 && 2 <= (m - 4) % 15 <= 12
    }

    /// The rig after the first `m` actions of the plan.
    pub open spec fn rig_at(self, m: int) -> Rig {
        Rig {
            stream_open: 3 <= m <= self.plan_len() - 2,
            tap_armed: 4 <= m <= self.plan_len() - 3,
            recording: self.recording_after(m),
        }
    }
}

/// A valid sweep has at least one segment.
pub proof fn lemma_total_positive(sweep: Sweep)
    requires
        sweep.valid(),
    ensures
        sweep.total() >= 1,
        sweep.plan_len() >= 21,
{
    assert(sweep.velocities.len() * sweep.notes >= 1) by (nonlinear_arith)
        requires
            sweep.velocities.len() >= 1,
            sweep.notes >= 1,
    ;
}

/// The state of the rig and the number of streams opened and closed after
/// each prefix of the plan.
pub proof fn lemma_prefix(sweep: Sweep, cfg: SamplingConfig, m: int)
    requires
        sweep.valid(),
        0 <= m <= sweep.plan_len(),
    ensures
        rig_after(sweep.plan(cfg).take(m)) == sweep.rig_at(m),
        occurrences(sweep.plan(cfg).take(m), Action::OpenStream) == if m >= 3 {
            1nat
        } else {
            0nat
        },
        occurrences(sweep.plan(cfg).take(m), Action::CloseStream) == if m >= sweep.plan_len() - 1 {
            1nat
        } else {
            0nat
        },
    decreases m,
{
    lemma_total_positive(sweep);
    let plan = sweep.plan(cfg);
    if m > 0 {
        lemma_prefix(sweep, cfg, m - 1);
        assert(plan.take(m).drop_last() =~= plan.take(m - 1));
        assert(plan.take(m).last() == sweep.action(cfg, m - 1));
    }
}

/// The plan opens the input stream once and closes it once, however many
/// notes and velocities it covers, and leaves nothing switched on.
pub proof fn lemma_one_stream(sweep: Sweep, cfg: SamplingConfig)
    requires
        sweep.valid(),
    ensures
        occurrences(sweep.plan(cfg), Action::OpenStream) == 1,
        occurrences(sweep.plan(cfg), Action::CloseStream) == 1,
        rig_after(sweep.plan(cfg)) == idle(),
{
    lemma_total_positive(sweep);
    lemma_prefix(sweep, cfg, sweep.plan_len());
    assert(sweep.plan(cfg).take(sweep.plan_len()) =~= sweep.plan(cfg));
}

/// However far a session got, its actions so far followed by those owed
/// by `wind_down` open at most one stream, close every stream they
/// opened, end with a panic and leave nothing switched on.
pub proof fn lemma_stopped_session(sweep: Sweep, cfg: SamplingConfig, done: int)
    requires
        sweep.valid(),
        0 <= done <= sweep.plan_len(),
    ensures
        ({
            let so_far = sweep.plan(cfg).take(done);
            let run = so_far + wind_down(rig_after(so_far));
            &&& rig_after(run) == idle()
            &&& run.last() == Action::MidiPanic
            &&& occurrences(run, Action::OpenStream) <= 1
            &&& occurrences(run, Action::CloseStream) == occurrences(run, Action::OpenStream)
        }),
{
    lemma_total_positive(sweep);
    let so_far = sweep.plan(cfg).take(done);
    let r = rig_after(so_far);
    lemma_prefix(sweep, cfg, done);
    lemma_wind_down_quiets(r);
    lemma_rig_run_concat(idle(), so_far, wind_down(r));
    lemma_occurrences_concat(so_far, wind_down(r), Action::OpenStream);
    lemma_occurrences_concat(so_far, wind_down(r), Action::CloseStream);
}

/// Recording is only ever switched on directly after the buffer was
/// cleared, and while it was off.
pub proof fn lemma_cleared_before_recording(sweep: Sweep, cfg: SamplingConfig, i: int)
    requires
        sweep.valid(),
        0 <= i < sweep.plan_len(),
        sweep.plan(cfg)[i] == Action::StartRecording,
    ensures
        i >= 1,
        sweep.plan(cfg)[i - 1] == Action::ClearBuffer,
        !rig_after(sweep.plan(cfg).take(i - 1)).recording,
        !rig_after(sweep.plan(cfg).take(i)).recording,
{
    lemma_total_positive(sweep);
    lemma_prefix(sweep, cfg, i - 1);
    lemma_prefix(sweep, cfg, i);
}

/// Every segment of the sweep has its protocol in the plan, from action
/// `4 + 15 * k` on, and its protocol starts by clearing the buffer.
pub proof fn lemma_protocol_in_plan(sweep: Sweep, cfg: SamplingConfig, k: int)
    requires
        sweep.valid(),
        0 <= k < sweep.total(),
    ensures
        4 + 15 * k + 14 <= sweep.plan_len(),
        sweep.plan(cfg).subrange(4 + 15 * k, 4 + 15 * k + 14) == note_protocol(
            cfg,
            sweep.note_of(k),
            sweep.velocity_of(k),
        ),
        sweep.plan(cfg)[4 + 15 * k] == Action::ClearBuffer,
{
    let part = sweep.plan(cfg).subrange(4 + 15 * k, 4 + 15 * k + 14);
    assert forall|s: int| 0 <= s < 14 implies part[s] == protocol_step(
        cfg,
        sweep.note_of(k),
        sweep.velocity_of(k),
        s,
    ) by {
        assert((15 * k + s) / 15 == k);
        assert((15 * k + s) % 15 == s);
    }
    assert(part =~= note_protocol(cfg, sweep.note_of(k), sweep.velocity_of(k)));
}


/// The rig after the first `done` actions of a plan.
pub fn rig_of(plan: &Vec<Action>, done: usize) -> (r: Rig)
    requires
        done <= plan@.len(),
    ensures
        r == rig_after(plan@.take(done as int)),
{
    let mut r = Rig { stream_open: false, tap_armed: false, recording: false };
    let mut i: usize = 0;
    while i < done
        invariant
            i <= done <= plan@.len(),
            r == rig_after(plan@.take(i as int)),
        decreases done - i,
    {
        proof {
            assert(plan@.take(i + 1).drop_last() =~= plan@.take(i as int));
            assert(plan@.take(i + 1).last() == plan@[i as int]);
        }
        match plan[i] {
            Action::OpenStream => {
                r.stream_open = true;
            },
            Action::CloseStream => {
                r.stream_open = false;
            },
            Action::ArmTap => {
                r.tap_armed = true;
            },
            Action::DisarmTap => {
                r.tap_armed = false;
            },
            Action::StartRecording => {
                r.recording = true;
            },
            Action::StopRecording => {
                r.recording = false;
            },
            _ => {},
        }
        i = i + 1;
    }
    r
}

/// What is owed when a session stops after `done` actions of its plan went
/// through, because the next one failed or the session was cancelled:
/// recording off, the tap released, the stream closed, each only where it
/// is on by then, and a panic. A `done` beyond the plan counts as the whole
/// plan.
pub fn abort_actions(plan: &Vec<Action>, done: usize) -> (out: Vec<Action>)
    ensures
        out@ == wind_down(
            rig_after(
                plan@.take(
                    if done <= plan@.len() {
                        done as int
                    } else {
                        plan@.len() as int
                    },
                ),
            ),
        ),
{
    let upto: usize = if done <= plan.len() {
        done
    } else {
        plan.len()
    };
    let r = rig_of(plan, upto);
    let mut out: Vec<Action> = Vec::new();
    if r.recording {
        out.push(Action::StopRecording);
    }
    if r.tap_armed {
        out.push(Action::DisarmTap);
    }
    if r.stream_open {
        out.push(Action::CloseStream);
    }
    out.push(Action::MidiPanic);
    assert(out@ =~= wind_down(r));
    out
}


/// How many segments the actions of `t` take: its snapshots.
pub open spec fn segments_taken(t: Seq<Action>) -> nat
    decreases t.len(),
{
    if t.len() == 0 {
        0
    } else {
        segments_taken(t.drop_last()) + if t.last() is Snapshot {
            1nat
        } else {
            0nat
        }
    }
}

/// How many Note-On and Note-Off messages the actions of `t` send.
pub open spec fn gate_events(t: Seq<Action>) -> nat
    decreases t.len(),
{
    if t.len() == 0 {
        0
    } else {
        gate_events(t.drop_last()) + if t.last() is NoteOn || t.last() is NoteOff {
            1nat
        } else {
            0nat
        }
    }
}

/// Segments taken and gate messages sent after each prefix of the plan.
proof fn lemma_counts(sweep: Sweep, cfg: SamplingConfig, m: int)
    requires
        sweep.valid(),
        0 <= m <= sweep.plan_len(),
    ensures
        ({
            let t = sweep.plan(cfg).take(m);
            let x = if m < 4 {
                0
            } else if m - 4 <= 15 * sweep.total() - 1 {
                m - 4
            } else {
                15 * sweep.total() - 1
            };
            &&& segments_taken(t) == (x + 1) / 15
            &&& gate_events(t) == (x + 8) / 15 + (x + 6) / 15
        }),
    decreases m,
{
    lemma_total_positive(sweep);
    let plan = sweep.plan(cfg);
    if m > 0 {
        lemma_counts(sweep, cfg, m - 1);
        assert(plan.take(m).drop_last() =~= plan.take(m - 1));
        assert(plan.take(m).last() == sweep.action(cfg, m - 1));
    }
}

/// A session takes one segment for each note at each velocity, and sends
/// one Note-On and one Note-Off for each.
pub proof fn lemma_one_segment_per_note(sweep: Sweep, cfg: SamplingConfig)
    requires
        sweep.valid(),
    ensures
        segments_taken(sweep.plan(cfg)) == sweep.notes * sweep.velocities.len(),
        gate_events(sweep.plan(cfg)) == 2 * (sweep.notes * sweep.velocities.len()),
{
    lemma_total_positive(sweep);
    lemma_counts(sweep, cfg, sweep.plan_len());
    assert(sweep.plan(cfg).take(sweep.plan_len()) =~= sweep.plan(cfg));
    assert(sweep.velocities.len() * sweep.notes == sweep.notes * sweep.velocities.len())
        by (nonlinear_arith);
}

/// How a session ended.
#[derive(Debug, Clone, Copy, PartialEq, Eq, Structural)]
pub enum Ending {
    /// Every action of the plan went through.
    Completed,
    /// The session was cancelled; the segments taken so far stand.
    Cancelled,
    /// An action failed, or the stream reported a fatal error.
    Failed,
}

/// What the driver does next.
#[derive(Debug, Clone, Copy, PartialEq, Eq, Structural)]
pub enum Step {
    Do(Action),
    Finish(Ending),
}

/// What the driver reports when it asks for the next step.
#[derive(Debug, Clone, Copy, PartialEq, Eq, Structural)]
pub struct Report {
    /// The action handed out last failed.
    pub failed: bool,
    /// The stream reported a fatal error.
    pub fault: bool,
    /// The session is to be cancelled.
    pub cancel: bool,
}

/// A session under way: its plan and how far it got.
///
/// While the plan runs, its actions are handed out in order. When an
/// action fails or the stream reports a fatal error, and when a
/// cancellation is asked for and the next action is a wait, the session
/// is wound down instead: what is owed for the actions that went through
/// is handed out, whatever becomes of it, and the session ends.
pub struct Progress {
    pub(crate) plan: Vec<Action>,
    pub(crate) handed: usize,
    pub(crate) completed: usize,
    pub(crate) owed: Vec<Action>,
    pub(crate) owed_handed: usize,
    pub(crate) ending: Option<Ending>,
}

impl Progress {
    /// The counters lie within the plan and within what is owed; once
    /// the session is stopped, what is owed is the winding down of the
    /// rig as the completed actions left it.
    #[verifier::type_invariant]
    spec fn sound(&self) -> bool {
        &&& self.handed <= self.plan@.len()
        &&& self.owed_handed <= self.owed@.len()
        &&& (self.ending == Some(Ending::Failed) || self.ending == Some(Ending::Cancelled)) ==> {
            &&& self.completed <= self.handed
            &&& self.owed@ == wind_down(rig_after(self.plan@.take(self.completed as int)))
        }
        &&& self.ending == Some(Ending::Completed) ==> self.handed == self.plan@.len()
    }

    /// The plan of the session.
    pub closed spec fn plan(&self) -> Seq<Action> {
        self.plan@
    }

    /// Actions of the plan handed out so far.
    pub closed spec fn handed(&self) -> int {
        self.handed as int
    }

    /// Actions of the plan that had gone through when the session was
    /// stopped.
    pub closed spec fn completed(&self) -> int {
        self.completed as int
    }

    /// What is owed, once the session is stopped.
    pub closed spec fn owed(&self) -> Seq<Action> {
        if self.ending is Some {
            self.owed@
        } else {
            Seq::empty()
        }
    }

    /// Owed actions handed out so far.
    pub closed spec fn owed_handed(&self) -> int {
        self.owed_handed as int
    }

    /// How the session ends or ended; nothing while the plan runs.
    pub closed spec fn ending(&self) -> Option<Ending> {
        self.ending
    }

    /// Whether a report stops a running session, and after how many
    /// completed actions: a failure of the action handed out last leaves
    /// those before it; a fatal error of the stream, and a cancellation
    /// before a wait, leave all that were handed out.
    pub open spec fn stops_at(&self, report: Report) -> Option<(int, Ending)> {
        if report.failed && self.handed() >= 1 {
            Some((self.handed() - 1, Ending::Failed))
        } else if report.fault {
            Some((self.handed(), Ending::Failed))
        } else if report.cancel && self.handed() < self.plan().len() && self.plan()[self.handed()]
            is Sleep {
            Some((self.handed(), Ending::Cancelled))
        } else {
            None
        }
    }

    /// A session that is about to start on a plan.
    pub fn new(plan: Vec<Action>) -> (s: Progress)
        ensures
            s.plan() == plan@,
            s.handed() == 0,
            s.ending() is None,
    {
        Progress { plan, handed: 0, completed: 0, owed: Vec::new(), owed_handed: 0, ending: None }
    }

    /// How the session ends or ended; nothing while the plan runs.
    pub fn how_it_ended(&self) -> (e: Option<Ending>)
        ensures
            e == self.ending(),
    {
        self.ending
    }

    /// Actions of the plan that went through before the session was
    /// stopped, or that were handed out so far while it runs.
    pub fn actions_completed(&self) -> (n: usize)
        ensures
            n == if self.ending() == Some(Ending::Failed) || self.ending() == Some(
                Ending::Cancelled,
            ) {
                self.completed()
            } else {
                self.handed()
            },
    {
        match self.ending {
            Some(Ending::Failed) => self.completed,
            Some(Ending::Cancelled) => self.completed,
            _ => self.handed,
        }
    }

    /// The next step of the session.
    ///
    /// While the plan runs and the report does not stop it, the next
    /// action of the plan is handed out, and after the last the session
    /// finishes as completed. A report that stops it starts the winding
    /// down: the first owed action is handed out. While the session is
    /// wound down the report is not looked at: the owed actions are handed
    /// out one by one, and after the last the session finishes as failed
    /// or cancelled. A finished session stays finished.
    pub fn advance(&mut self, report: Report) -> (step: Step)
        ensures
            final(self).plan() == old(self).plan(),
            old(self).ending() is None && old(self).stops_at(report) is None && old(self).handed()
                < old(self).plan().len() ==> step == Step::Do(
                old(self).plan()[old(self).handed()],
            ) && final(self).handed() == old(self).handed() + 1 && final(self).ending() is None,
            old(self).ending() is None && old(self).stops_at(report) is None && old(self).handed()
                >= old(self).plan().len() ==> step == Step::Finish(Ending::Completed)
                && final(self).ending() == Some(Ending::Completed) && final(self).handed() == old(
                self,
            ).handed(),
            old(self).ending() is None ==> (old(self).stops_at(report) matches Some(stop) ==> {
                &&& final(self).ending() == Some(stop.1)
                &&& final(self).completed() == stop.0
                &&& final(self).handed() == old(self).handed()
                &&& final(self).owed() == wind_down(rig_after(old(self).plan().take(stop.0)))
                &&& final(self).owed_handed() == 1
                &&& step == Step::Do(final(self).owed()[0])
            }),
            old(self).ending() matches Some(e) ==> {
                &&& final(self).ending() == old(self).ending()
                &&& final(self).owed() == old(self).owed()
                &&& final(self).handed() == old(self).handed()
                &&& final(self).completed() == old(self).completed()
                &&& old(self).owed_handed() < old(self).owed().len() ==> step == Step::Do(
                    old(self).owed()[old(self).owed_handed()],
                ) && final(self).owed_handed() == old(self).owed_handed() + 1
                &&& old(self).owed_handed() >= old(self).owed().len() ==> step == Step::Finish(e)
                    && final(self).owed_handed() == old(self).owed_handed()
            },
    {
        proof {
            use_type_invariant(&*self);
        }
        match self.ending {
            Some(e) => {
                if self.owed_handed < self.owed.len() {
                    let action = self.owed[self.owed_handed];
                    self.owed_handed = self.owed_handed + 1;
                    Step::Do(action)
                } else {
                    Step::Finish(e)
                }
            },
            None => {
                let stop: Option<(usize, Ending)> = if report.failed && self.handed >= 1 {
                    Some((self.handed - 1, Ending::Failed))
                } else if report.fault {
                    Some((self.handed, Ending::Failed))
                } else if report.cancel && self.handed < self.plan.len() && is_sleep(
                    &self.plan[self.handed],
                ) {
                    Some((self.handed, Ending::Cancelled))
                } else {
                    None
                };
                match stop {
                    Some((done, ending)) => {
                        let owed = abort_actions(&self.plan, done);
                        let first = owed[0];
                        self.owed_handed = 0;
                        self.owed = owed;
                        self.owed_handed = 1;
                        self.completed = done;
                        self.ending = Some(ending);
                        Step::Do(first)
                    },
                    None => {
                        if self.handed < self.plan.len() {
                            let action = self.plan[self.handed];
                            self.handed = self.handed + 1;
                            Step::Do(action)
                        } else {
                            self.ending = Some(Ending::Completed);
                            Step::Finish(Ending::Completed)
                        }
                    },
                }
            },
        }
    }
}

/// Whether the action is a wait.
fn is_sleep(action: &Action) -> (r: bool)
    ensures
        r == (*action is Sleep),
{
    match action {
        Action::Sleep(_) => true,
        _ => false,
    }
}

} // verus!
