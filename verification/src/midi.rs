//! MIDI 1.0 and 2.0 event checks, their decoding into instrument actions, and
//! the per-frame schedule of a processing block.
//!
//! Control values and velocities are exact fractions `numerator / denominator`
//! and pitch bends a signed fraction of the wheel's travel; turning them into
//! real numbers is left to the audio side.
use vstd::prelude::*;
use crate::keyboard::{key_of, played, KeyboardView};

verus! {

/// Longest block the processor accepts.
pub const MAX_FRAMES: u32 = 4096;
/// Most events of one kind in one block.
pub const MAX_EVENTS: usize = 256;

/// A MIDI 1.0 message of one to three bytes at a frame of the block.
#[derive(Clone, Copy, Debug, PartialEq, Eq)]
pub struct MidiMessage {
    pub frame: u32,
    pub length: u8,
    pub data: [u8; 3],
}

/// The kinds of MIDI 2.0 channel voice message the instrument reads.
#[derive(Clone, Copy, Debug, PartialEq, Eq)]
pub enum Midi2Kind {
    NoteOn,
    NoteOff,
    ControlChange,
    PitchBend,
    Other,
}

/// A MIDI 2.0 channel voice message at a frame of the block.
#[derive(Clone, Copy, Debug, PartialEq, Eq)]
pub struct Midi2Message {
    pub frame: u32,
    pub kind: Midi2Kind,
    pub channel: u8,
    pub index: u8,
    pub value: u32,
    /// The value came from a 7-bit MIDI 1.0 message.
    pub origin_7bit: bool,
}

/// The fraction `numerator / denominator`, a level in 0..=1.
#[derive(Clone, Copy, Debug, PartialEq, Eq)]
pub struct Level {
    pub numerator: u32,
    pub denominator: u32,
}

/// A pitch-wheel position: `magnitude / span` of full travel, downward or up.
#[derive(Clone, Copy, Debug, PartialEq, Eq)]
pub struct Bend {
    pub downward: bool,
    pub magnitude: u32,
    pub span: u32,
}

/// What one message asks of the instrument.
#[derive(Clone, Copy, Debug, PartialEq, Eq)]
pub enum Action {
    NoteOn { channel: u8, note: u8, velocity: Level },
    NoteOff { channel: u8, note: u8 },
    Control { channel: u8, controller: u8, value: Level },
    PitchBend { channel: u8, bend: Bend },
    Ignore,
}

pub open spec fn is_channel_status(status: u8) -> bool {
    let family = status & 0xf0u8;
    family == 0x80u8 || family == 0x90u8 || family == 0xb0u8 || family == 0xe0u8
}

/// A well formed MIDI 1.0 message: a status byte, data bytes below 128, and
/// all three bytes for the note, controller and wheel messages.
pub open spec fn midi1_valid(m: MidiMessage) -> bool {
    &&& 1 <= m.length <= 3
    &&& m.data[0] >= 128
    &&& forall|i: int| 1 <= i < m.length ==> #[trigger] m.data[i] < 128
    &&& (!is_channel_status(m.data[0]) || m.length == 3)
}

pub fn valid_midi1(m: &MidiMessage) -> (r: bool)
    ensures
        r == midi1_valid(*m),
{
    if m.length < 1 || m.length > 3 || m.data[0] < 128 {
        return false;
    }
    if m.length >= 2 && m.data[1] >= 128 {
        return false;
    }
    if m.length == 3 && m.data[2] >= 128 {
        return false;
    }
    let family = m.data[0] & 0xf0u8;
    !(family == 0x80u8 || family == 0x90u8 || family == 0xb0u8 || family == 0xe0u8) || m.length
        == 3
}

/// A MIDI 2.0 message the instrument accepts: channel and index in range and
/// a note velocity within sixteen bits.
pub open spec fn midi2_valid(m: Midi2Message) -> bool {
    &&& m.channel < 16
    &&& m.index < 128
    &&& !((m.kind == Midi2Kind::NoteOn || m.kind == Midi2Kind::NoteOff) && m.value > 65535)
}

pub fn valid_midi2(m: &Midi2Message) -> (r: bool)
    ensures
        r == midi2_valid(*m),
{
    let note = match m.kind {
        Midi2Kind::NoteOn | Midi2Kind::NoteOff => true,
        _ => false,
    };
    m.channel < 16 && m.index < 128 && !(note && m.value > 65535)
}

pub open spec fn bend14_spec(lsb: u8, msb: u8) -> Bend {
    let value = (lsb as u16) | ((msb as u16) << 7u16);
    if value >= 8192 {
        Bend { downward: false, magnitude: (value - 8192) as u32, span: 8191 }
    } else {
        Bend { downward: true, magnitude: (8192 - value) as u32, span: 8192 }
    }
}

/// The 14-bit wheel position of a MIDI 1.0 bend, centred on 8192.
pub fn bend_14(lsb: u8, msb: u8) -> (b: Bend)
    ensures
        b == bend14_spec(lsb, msb),
{
    let value: u16 = (lsb as u16) | ((msb as u16) << 7u16);
    if value >= 8192 {
        Bend { downward: false, magnitude: (value - 8192) as u32, span: 8191 }
    } else {
        Bend { downward: true, magnitude: (8192 - value) as u32, span: 8192 }
    }
}

pub open spec fn bend32_spec(value: u32) -> Bend {
    if value >= 0x8000_0000u32 {
        Bend {
            downward: false,
            magnitude: (value - 0x8000_0000u32) as u32,
            span: 0x7fff_ffffu32,
        }
    } else {
        Bend { downward: true, magnitude: (0x8000_0000u32 - value) as u32, span: 0x8000_0000u32 }
    }
}

/// The 32-bit wheel position of a MIDI 2.0 bend, centred on 2^31.
pub fn bend_32(value: u32) -> (b: Bend)
    ensures
        b == bend32_spec(value),
{
    if value >= 0x8000_0000u32 {
        Bend { downward: false, magnitude: value - 0x8000_0000u32, span: 0x7fff_ffffu32 }
    } else {
        Bend { downward: true, magnitude: 0x8000_0000u32 - value, span: 0x8000_0000u32 }
    }
}

pub open spec fn decode_midi1_spec(data: Seq<u8>) -> Action {
    let status = data[0];
    let channel = status & 15u8;
    let family = status & 0xf0u8;
    if family == 0x90u8 {
        Action::NoteOn {
            channel,
            note: data[1],
            velocity: Level { numerator: data[2] as u32, denominator: 127 },
        }
    } else if family == 0x80u8 {
        Action::NoteOff { channel, note: data[1] }
    } else if family == 0xb0u8 {
        Action::Control {
            channel,
            controller: data[1],
            value: Level { numerator: data[2] as u32, denominator: 127 },
        }
    } else if family == 0xe0u8 {
        Action::PitchBend { channel, bend: bend14_spec(data[1], data[2]) }
    } else {
        Action::Ignore
    }
}

/// What a MIDI 1.0 message asks: note on and off, controller and wheel on
/// the status byte's channel; anything else is ignored.
pub fn decode_midi1(m: &MidiMessage) -> (a: Action)
    ensures
        a == decode_midi1_spec(m.data@),
{
    let status = m.data[0];
    let channel = status & 15u8;
    let family = status & 0xf0u8;
    if family == 0x90u8 {
        Action::NoteOn {
            channel,
            note: m.data[1],
            velocity: Level { numerator: m.data[2] as u32, denominator: 127 },
        }
    } else if family == 0x80u8 {
        Action::NoteOff { channel, note: m.data[1] }
    } else if family == 0xb0u8 {
        Action::Control {
            channel,
            controller: m.data[1],
            value: Level { numerator: m.data[2] as u32, denominator: 127 },
        }
    } else if family == 0xe0u8 {
        Action::PitchBend { channel, bend: bend_14(m.data[1], m.data[2]) }
    } else {
        Action::Ignore
    }
}

pub open spec fn decode_midi2_spec(m: Midi2Message) -> Action {
    match m.kind {
        Midi2Kind::NoteOn => Action::NoteOn {
            channel: m.channel,
            note: m.index,
            velocity: if m.origin_7bit {
                Level { numerator: m.value >> 9u32, denominator: 127 }
            } else {
                Level { numerator: if m.value == 0 { 1 } else { m.value }, denominator: 65535 }
            },
        },
        Midi2Kind::NoteOff => Action::NoteOff { channel: m.channel, note: m.index },
        Midi2Kind::ControlChange => Action::Control {
            channel: m.channel,
            controller: m.index,
            value: if m.origin_7bit {
                Level { numerator: m.value >> 25u32, denominator: 127 }
            } else {
                Level { numerator: m.value, denominator: 0xffff_ffffu32 }
            },
        },
        Midi2Kind::PitchBend => Action::PitchBend { channel: m.channel, bend: bend32_spec(m.value) },
        Midi2Kind::Other => Action::Ignore,
    }
}

/// What a MIDI 2.0 message asks. A 16-bit Note On velocity of zero is the
/// softest strike, never a Note Off.
pub fn decode_midi2(m: &Midi2Message) -> (a: Action)
    ensures
        a == decode_midi2_spec(*m),
{
    match m.kind {
        Midi2Kind::NoteOn => {
            let velocity = if m.origin_7bit {
                Level { numerator: m.value >> 9u32, denominator: 127 }
            } else {
                Level { numerator: if m.value == 0 { 1 } else { m.value }, denominator: 65535 }
            };
            Action::NoteOn { channel: m.channel, note: m.index, velocity }
        },
        Midi2Kind::NoteOff => Action::NoteOff { channel: m.channel, note: m.index },
        Midi2Kind::ControlChange => {
            let value = if m.origin_7bit {
                Level { numerator: m.value >> 25u32, denominator: 127 }
            } else {
                Level { numerator: m.value, denominator: 0xffff_ffffu32 }
            };
            Action::Control { channel: m.channel, controller: m.index, value }
        },
        Midi2Kind::PitchBend => Action::PitchBend { channel: m.channel, bend: bend_32(m.value) },
        Midi2Kind::Other => Action::Ignore,
    }
}

/// At most `MAX_EVENTS` frames, each inside the block, in nondecreasing order.
pub open spec fn frames_ordered(frames: Seq<u32>, block_frames: u32) -> bool {
    &&& frames.len() <= MAX_EVENTS
    &&& forall|i: int| 0 <= i < frames.len() ==> #[trigger] frames[i] < block_frames
    &&& forall|i: int, j: int| 0 <= i <= j < frames.len() ==> frames[i] <= frames[j]
}

/// Whether an event list's frames can be played in order inside the block.
pub fn ordered(frames: &[u32], block_frames: u32) -> (r: bool)
    ensures
        r == frames_ordered(frames@, block_frames),
{
    let mut previous: u32 = 0;
    let mut i: usize = 0;
    while i < frames.len()
        invariant
            i <= frames.len(),
            i <= MAX_EVENTS,
            forall|a: int| 0 <= a < i ==> #[trigger] frames@[a] < block_frames,
            forall|a: int, b: int| 0 <= a <= b < i ==> frames@[a] <= frames@[b],
            forall|a: int| 0 <= a < i ==> #[trigger] frames@[a] <= previous,
            i > 0 ==> previous == frames@[i - 1],
            i == 0 ==> previous == 0,
        decreases frames.len() - i,
    {
        if i + 1 > MAX_EVENTS {
            return false;
        }
        let frame = frames[i];
        if frame >= block_frames || frame < previous {
            proof {
                if frame < previous {
                    assert(frames@[i - 1] > frames@[i as int]);
                }
            }
            return false;
        }
        previous = frame;
        i += 1;
    }
    true
}

/// Entries in nondecreasing order.
pub open spec fn nondecreasing(frames: Seq<u32>) -> bool {
    forall|i: int, j: int| 0 <= i <= j < frames.len() ==> frames[i] <= frames[j]
}

/// How many entries of a list lie before frame `f`: in a nondecreasing list,
/// its first entries.
pub open spec fn before(frames: Seq<u32>, f: int) -> int
    decreases frames.len(),
{
    if frames.len() == 0 {
        0
    } else if frames.last() < f {
        frames.len() as int
    } else {
        before(frames.drop_last(), f)
    }
}

/// One step of a block: apply a parameter change, a MIDI 1.0 or a MIDI 2.0
/// message, by its position in its list, or render a frame.
#[derive(Clone, Copy, Debug, PartialEq, Eq)]
pub enum Step {
    Parameter(usize),
    Midi1(usize),
    Midi2(usize),
    Render(u32),
}

/// The step for entry `i` of list `source`: 0 the parameter changes, 1 the
/// MIDI 1.0 messages, 2 the MIDI 2.0 messages.
pub open spec fn step_of(source: u8, i: int) -> Step {
    if source == 0 {
        Step::Parameter(i as usize)
    } else if source == 1 {
        Step::Midi1(i as usize)
    } else {
        Step::Midi2(i as usize)
    }
}

/// The entries of list `source` at frame `f`, in list order.
pub open spec fn run_at(frames: Seq<u32>, f: int, source: u8) -> Seq<Step> {
    Seq::new(
        (before(frames, f + 1) - before(frames, f)) as nat,
        |k: int| step_of(source, before(frames, f) + k),
    )
}

/// What happens at frame `f`: its parameter changes, then its MIDI 1.0
/// messages, then its MIDI 2.0 messages, each in list order, then the frame
/// is rendered.
pub open spec fn frame_steps(parameters: Seq<u32>, midi: Seq<u32>, midi2: Seq<u32>, f: int) -> Seq<Step> {
    run_at(parameters, f, 0) + run_at(midi, f, 1) + run_at(midi2, f, 2) + seq![Step::Render(f as u32)]
}

/// The steps of the first `n` frames.
pub open spec fn schedule_spec(parameters: Seq<u32>, midi: Seq<u32>, midi2: Seq<u32>, n: int) -> Seq<Step>
    decreases n,
{
    if n <= 0 {
        Seq::empty()
    } else {
        schedule_spec(parameters, midi, midi2, n - 1) + frame_steps(parameters, midi, midi2, n - 1)
    }
}

proof fn lemma_before(frames: Seq<u32>, f: int)
    requires
        nondecreasing(frames),
    ensures
        0 <= before(frames, f) <= frames.len(),
        forall|j: int| 0 <= j < before(frames, f) ==> #[trigger] frames[j] < f,
        forall|j: int| before(frames, f) <= j < frames.len() ==> #[trigger] frames[j] >= f,
    decreases frames.len(),
{
    if frames.len() > 0 {
        let pre = frames.drop_last();
        assert(nondecreasing(pre)) by {
            assert forall|i: int, j: int| 0 <= i <= j < pre.len() implies pre[i] <= pre[j] by {
                assert(pre[i] == frames[i] && pre[j] == frames[j]);
            }
        }
        lemma_before(pre, f);
        if frames.last() < f {
            assert forall|j: int| 0 <= j < frames.len() implies #[trigger] frames[j] < f by {
                assert(frames[j] <= frames[frames.len() - 1]);
            }
        } else {
            assert forall|j: int| 0 <= j < before(frames, f) implies #[trigger] frames[j] < f by {
                assert(frames[j] == pre[j]);
            }
            assert forall|j: int| before(frames, f) <= j < frames.len() implies #[trigger] frames[j] >= f by {
                if j < pre.len() {
                    assert(frames[j] == pre[j]);
                }
            }
        }
    }
}

fn push_run(steps: &mut Vec<Step>, list: &[u32], at: usize, frame: u32, source: u8) -> (next: usize)
    requires
        nondecreasing(list@),
        at == before(list@, frame as int),
        source <= 2,
    ensures
        next == before(list@, frame + 1),
        final(steps)@ == old(steps)@ + run_at(list@, frame as int, source),
{
    proof {
        lemma_before(list@, frame as int);
        lemma_before(list@, frame + 1);
    }
    let ghost lo = before(list@, frame as int);
    let ghost hi = before(list@, frame + 1);
    let ghost base = steps@;
    assert(lo <= hi) by {
        if hi < lo {
            assert(list@[hi] < frame);
            assert(list@[hi] >= frame + 1);
        }
    }
    let mut k: usize = at;
    while k < list.len() && list[k] == frame
        invariant
            nondecreasing(list@),
            source <= 2,
            lo == before(list@, frame as int),
            hi == before(list@, frame + 1),
            0 <= lo <= list@.len(),
            0 <= hi <= list@.len(),
            forall|j: int| 0 <= j < lo ==> #[trigger] list@[j] < frame,
            forall|j: int| lo <= j < list@.len() ==> #[trigger] list@[j] >= frame,
            forall|j: int| 0 <= j < hi ==> #[trigger] list@[j] < frame + 1,
            forall|j: int| hi <= j < list@.len() ==> #[trigger] list@[j] >= frame + 1,
            lo <= k <= hi,
            steps@ == base + run_at(list@, frame as int, source).subrange(0, k - lo),
        decreases list.len() - k,
    {
        let step = if source == 0 {
            Step::Parameter(k)
        } else if source == 1 {
            Step::Midi1(k)
        } else {
            Step::Midi2(k)
        };
        assert(step == step_of(source, k as int));
        steps.push(step);
        k += 1;
        assert(run_at(list@, frame as int, source).subrange(0, k - lo) =~= run_at(
            list@,
            frame as int,
            source,
        ).subrange(0, k - 1 - lo).push(step));
    }
    assert(k == hi) by {
        if k < hi {
            assert(list@[k as int] < frame + 1);
            assert(list@[k as int] >= frame);
        }
    }
    assert(run_at(list@, frame as int, source).subrange(0, k - lo) =~= run_at(
        list@,
        frame as int,
        source,
    ));
    k
}

/// The order in which a block is carried out: at each frame, its parameter
/// changes, then its MIDI 1.0 messages, then its MIDI 2.0 messages, each in
/// list order, then the frame itself.
pub fn schedule(parameters: &[u32], midi: &[u32], midi2: &[u32], frames: u32) -> (steps: Vec<Step>)
    requires
        frames_ordered(parameters@, frames),
        frames_ordered(midi@, frames),
        frames_ordered(midi2@, frames),
        frames <= MAX_FRAMES,
    ensures
        steps@ == schedule_spec(parameters@, midi@, midi2@, frames as int),
{
    let mut steps: Vec<Step> = Vec::new();
    let mut p: usize = 0;
    let mut m: usize = 0;
    let mut w: usize = 0;
    let mut frame: u32 = 0;
    proof {
        lemma_before(parameters@, 0);
        lemma_before(midi@, 0);
        lemma_before(midi2@, 0);
        if before(parameters@, 0) > 0 {
            assert(parameters@[0] < 0);
        }
        if before(midi@, 0) > 0 {
            assert(midi@[0] < 0);
        }
        if before(midi2@, 0) > 0 {
            assert(midi2@[0] < 0);
        }
    }
    while frame < frames
        invariant
            frames_ordered(parameters@, frames),
            frames_ordered(midi@, frames),
            frames_ordered(midi2@, frames),
            frames <= MAX_FRAMES,
            frame <= frames,
            p == before(parameters@, frame as int),
            m == before(midi@, frame as int),
            w == before(midi2@, frame as int),
            steps@ == schedule_spec(parameters@, midi@, midi2@, frame as int),
        decreases frames - frame,
    {
        let ghost start = steps@;
        p = push_run(&mut steps, parameters, p, frame, 0);
        m = push_run(&mut steps, midi, m, frame, 1);
        w = push_run(&mut steps, midi2, w, frame, 2);
        steps.push(Step::Render(frame));
        assert(steps@ =~= start + frame_steps(parameters@, midi@, midi2@, frame as int));
        frame += 1;
    }
    steps
}

/// The position a step carries for list `source` (0 parameters, 1 MIDI 1.0,
/// 2 MIDI 2.0), or the frame a render step carries for `source` 3.
pub open spec fn position_in(step: Step, source: u8) -> Option<int> {
    match step {
        Step::Parameter(i) => if source == 0 { Some(i as int) } else { None },
        Step::Midi1(i) => if source == 1 { Some(i as int) } else { None },
        Step::Midi2(i) => if source == 2 { Some(i as int) } else { None },
        Step::Render(f) => if source == 3 { Some(f as int) } else { None },
    }
}

/// The positions of list `source` that the steps carry, in step order.
pub open spec fn positions(steps: Seq<Step>, source: u8) -> Seq<int>
    decreases steps.len(),
{
    if steps.len() == 0 {
        Seq::empty()
    } else {
        let rest = positions(steps.drop_last(), source);
        match position_in(steps.last(), source) {
            Some(i) => rest.push(i),
            None => rest,
        }
    }
}

/// The numbers `lo` up to, not including, `hi`.
pub open spec fn span(lo: int, hi: int) -> Seq<int> {
    Seq::new((if hi > lo { hi - lo } else { 0 }) as nat, |k: int| lo + k)
}

proof fn lemma_positions_concat(a: Seq<Step>, b: Seq<Step>, source: u8)
    ensures
        positions(a + b, source) == positions(a, source) + positions(b, source),
    decreases b.len(),
{
    if b.len() == 0 {
        assert(a + b =~= a);
        assert(positions(a, source) + positions(b, source) =~= positions(a, source));
    } else {
        lemma_positions_concat(a, b.drop_last(), source);
        assert((a + b).drop_last() =~= a + b.drop_last());
        assert((a + b).last() == b.last());
        match position_in(b.last(), source) {
            Some(i) => {
                assert(positions(a, source) + positions(b, source) =~= (positions(a, source)
                    + positions(b.drop_last(), source)).push(i));
            },
            None => {},
        }
    }
}

proof fn lemma_positions_run(frames: Seq<u32>, f: int, list: u8, source: u8)
    requires
        nondecreasing(frames),
        frames.len() <= MAX_EVENTS,
        list <= 2,
        source <= 3,
        before(frames, f) <= before(frames, f + 1),
    ensures
        positions(run_at(frames, f, list), source) == if list == source {
            span(before(frames, f), before(frames, f + 1))
        } else {
            Seq::<int>::empty()
        },
{
    lemma_before(frames, f);
    lemma_before(frames, f + 1);
    let lo = before(frames, f);
    let hi = before(frames, f + 1);
    let run = run_at(frames, f, list);
    assert forall|n: int| 0 <= n <= run.len() implies #[trigger] positions(run.subrange(0, n), source)
        == if list == source { span(lo, lo + n) } else { Seq::<int>::empty() } by {
        lemma_positions_prefix(run, n, lo, list, source);
    }
    assert(run.subrange(0, run.len() as int) =~= run);
}

proof fn lemma_positions_prefix(run: Seq<Step>, n: int, lo: int, list: u8, source: u8)
    requires
        list <= 2,
        source <= 3,
        0 <= n <= run.len(),
        lo >= 0,
        lo + run.len() <= MAX_EVENTS,
        forall|k: int| 0 <= k < run.len() ==> #[trigger] run[k] == step_of(list, lo + k),
    ensures
        positions(run.subrange(0, n), source) == if list == source {
            span(lo, lo + n)
        } else {
            Seq::<int>::empty()
        },
    decreases n,
{
    if n == 0 {
        assert(run.subrange(0, 0) =~= Seq::<Step>::empty());
        assert(span(lo, lo) =~= Seq::<int>::empty());
    } else {
        lemma_positions_prefix(run, n - 1, lo, list, source);
        assert(run.subrange(0, n).drop_last() =~= run.subrange(0, n - 1));
        assert(run.subrange(0, n).last() == step_of(list, lo + n - 1));
        assert(position_in(step_of(list, lo + n - 1), source) == if list == source {
            Some(lo + n - 1)
        } else {
            None::<int>
        });
        if list == source {
            assert(span(lo, lo + n) =~= span(lo, lo + n - 1).push(lo + n - 1));
        }
    }
}

proof fn lemma_positions_frame(
    parameters: Seq<u32>,
    midi: Seq<u32>,
    midi2: Seq<u32>,
    f: int,
    source: u8,
)
    requires
        nondecreasing(parameters),
        nondecreasing(midi),
        nondecreasing(midi2),
        parameters.len() <= MAX_EVENTS,
        midi.len() <= MAX_EVENTS,
        midi2.len() <= MAX_EVENTS,
        0 <= f,
        f + 1 <= u32::MAX,
        source <= 3,
    ensures
        positions(frame_steps(parameters, midi, midi2, f), source) == if source == 0 {
            span(before(parameters, f), before(parameters, f + 1))
        } else if source == 1 {
            span(before(midi, f), before(midi, f + 1))
        } else if source == 2 {
            span(before(midi2, f), before(midi2, f + 1))
        } else {
            seq![f]
        },
{
    lemma_before_grows(parameters, f);
    lemma_before_grows(midi, f);
    lemma_before_grows(midi2, f);
    let a = run_at(parameters, f, 0);
    let b = run_at(midi, f, 1);
    let c = run_at(midi2, f, 2);
    let r = seq![Step::Render(f as u32)];
    lemma_positions_run(parameters, f, 0, source);
    lemma_positions_run(midi, f, 1, source);
    lemma_positions_run(midi2, f, 2, source);
    lemma_positions_concat(a, b, source);
    lemma_positions_concat(a + b, c, source);
    lemma_positions_concat(a + b + c, r, source);
    assert(r.drop_last() =~= Seq::<Step>::empty());
    assert(r.last() == Step::Render(f as u32));
    assert(positions(Seq::<Step>::empty(), source) =~= Seq::<int>::empty());
    assert(positions(r, source) =~= if source == 3 { seq![f] } else { Seq::<int>::empty() });
    let e = Seq::<int>::empty();
    if source == 0 {
        assert(positions(frame_steps(parameters, midi, midi2, f), source) =~= span(
            before(parameters, f),
            before(parameters, f + 1),
        ) + e + e + e);
    } else if source == 1 {
        assert(positions(frame_steps(parameters, midi, midi2, f), source) =~= e + span(
            before(midi, f),
            before(midi, f + 1),
        ) + e + e);
    } else if source == 2 {
        assert(positions(frame_steps(parameters, midi, midi2, f), source) =~= e + e + span(
            before(midi2, f),
            before(midi2, f + 1),
        ) + e);
    } else {
        assert(positions(frame_steps(parameters, midi, midi2, f), source) =~= e + e + e + seq![f]);
    }
}

proof fn lemma_before_grows(frames: Seq<u32>, f: int)
    requires
        nondecreasing(frames),
    ensures
        before(frames, f) <= before(frames, f + 1),
{
    lemma_before(frames, f);
    lemma_before(frames, f + 1);
    let lo = before(frames, f);
    let hi = before(frames, f + 1);
    if hi < lo {
        assert(frames[hi] < f);
        assert(frames[hi] >= f + 1);
    }
}

proof fn lemma_schedule_positions(
    parameters: Seq<u32>,
    midi: Seq<u32>,
    midi2: Seq<u32>,
    n: int,
    source: u8,
)
    requires
        nondecreasing(parameters),
        nondecreasing(midi),
        nondecreasing(midi2),
        parameters.len() <= MAX_EVENTS,
        midi.len() <= MAX_EVENTS,
        midi2.len() <= MAX_EVENTS,
        0 <= n <= u32::MAX,
        source <= 3,
        before(parameters, 0) == 0,
        before(midi, 0) == 0,
        before(midi2, 0) == 0,
    ensures
        positions(schedule_spec(parameters, midi, midi2, n), source) == if source == 0 {
            span(0, before(parameters, n))
        } else if source == 1 {
            span(0, before(midi, n))
        } else if source == 2 {
            span(0, before(midi2, n))
        } else {
            span(0, n)
        },
    decreases n,
{
    if n == 0 {
        assert(span(0, 0) =~= Seq::<int>::empty());
        lemma_before(parameters, 0);
        lemma_before(midi, 0);
        lemma_before(midi2, 0);
    } else {
        lemma_schedule_positions(parameters, midi, midi2, n - 1, source);
        lemma_positions_concat(
            schedule_spec(parameters, midi, midi2, n - 1),
            frame_steps(parameters, midi, midi2, n - 1),
            source,
        );
        lemma_positions_frame(parameters, midi, midi2, n - 1, source);
        lemma_before(parameters, n - 1);
        lemma_before(midi, n - 1);
        lemma_before(midi2, n - 1);
        lemma_before_grows(parameters, n - 1);
        lemma_before_grows(midi, n - 1);
        lemma_before_grows(midi2, n - 1);
        if source == 0 {
            assert(span(0, before(parameters, n - 1)) + span(before(parameters, n - 1), before(parameters, n))
                =~= span(0, before(parameters, n)));
        } else if source == 1 {
            assert(span(0, before(midi, n - 1)) + span(before(midi, n - 1), before(midi, n))
                =~= span(0, before(midi, n)));
        } else if source == 2 {
            assert(span(0, before(midi2, n - 1)) + span(before(midi2, n - 1), before(midi2, n))
                =~= span(0, before(midi2, n)));
        } else {
            assert(span(0, n - 1) + seq![n - 1] =~= span(0, n));
        }
    }
}

/// A block carries out every parameter change and every message exactly
/// once, each list in its own order, and renders every frame once, in order.
pub proof fn law_block_carries_out_every_event_once(
    parameters: Seq<u32>,
    midi: Seq<u32>,
    midi2: Seq<u32>,
    frames: u32,
)
    requires
        frames_ordered(parameters, frames),
        frames_ordered(midi, frames),
        frames_ordered(midi2, frames),
    ensures
        positions(schedule_spec(parameters, midi, midi2, frames as int), 0) == span(0, parameters.len() as int),
        positions(schedule_spec(parameters, midi, midi2, frames as int), 1) == span(0, midi.len() as int),
        positions(schedule_spec(parameters, midi, midi2, frames as int), 2) == span(0, midi2.len() as int),
        positions(schedule_spec(parameters, midi, midi2, frames as int), 3) == span(0, frames as int),
{
    assert forall|list: Seq<u32>| frames_ordered(list, frames) implies before(list, 0) == 0 && before(
        list,
        frames as int,
    ) == list.len() by {
        lemma_before(list, 0);
        lemma_before(list, frames as int);
        if before(list, 0) > 0 {
            assert(list[0] < 0);
        }
        let b = before(list, frames as int);
        if b < list.len() {
            assert(list[b] >= frames);
        }
    }
    lemma_schedule_positions(parameters, midi, midi2, frames as int, 0);
    lemma_schedule_positions(parameters, midi, midi2, frames as int, 1);
    lemma_schedule_positions(parameters, midi, midi2, frames as int, 2);
    lemma_schedule_positions(parameters, midi, midi2, frames as int, 3);
}

/// The frames of a list of MIDI 1.0 messages.
pub fn midi1_frames(events: &[MidiMessage]) -> (frames: Vec<u32>)
    ensures
        frames@.len() == events@.len(),
        forall|i: int| 0 <= i < events@.len() ==> #[trigger] frames@[i] == events@[i].frame,
{
    let mut frames: Vec<u32> = Vec::new();
    let mut i: usize = 0;
    while i < events.len()
        invariant
            i <= events@.len(),
            frames@.len() == i,
            forall|k: int| 0 <= k < i ==> #[trigger] frames@[k] == events@[k].frame,
        decreases events.len() - i,
    {
        frames.push(events[i].frame);
        i += 1;
    }
    frames
}

/// The frames of a list of MIDI 2.0 messages.
pub fn midi2_frames(events: &[Midi2Message]) -> (frames: Vec<u32>)
    ensures
        frames@.len() == events@.len(),
        forall|i: int| 0 <= i < events@.len() ==> #[trigger] frames@[i] == events@[i].frame,
{
    let mut frames: Vec<u32> = Vec::new();
    let mut i: usize = 0;
    while i < events.len()
        invariant
            i <= events@.len(),
            frames@.len() == i,
            forall|k: int| 0 <= k < i ==> #[trigger] frames@[k] == events@[k].frame,
        decreases events.len() - i,
    {
        frames.push(events[i].frame);
        i += 1;
    }
    frames
}

/// A processor layout the instrument supports: a block of 1 to `MAX_FRAMES`
/// frames, no audio input, mono or stereo output.
pub open spec fn layout_supported_spec(frames: u32, inputs: u32, outputs: u32) -> bool {
    frames != 0 && frames <= MAX_FRAMES && inputs == 0 && 1 <= outputs <= 2
}

pub fn layout_supported(frames: u32, inputs: u32, outputs: u32) -> (r: bool)
    ensures
        r == layout_supported_spec(frames, inputs, outputs),
{
    frames != 0 && frames <= MAX_FRAMES && inputs == 0 && 1 <= outputs && outputs <= 2
}

/// The shape of a processing call and of the processor it is made on.
#[derive(Clone, Copy, Debug)]
pub struct BlockShape {
    /// An engine has been prepared.
    pub prepared: bool,
    pub frames: u32,
    pub maximum_frames: u32,
    pub inputs: u32,
    pub outputs: u32,
    pub channels: u32,
    pub output_len: usize,
}

pub open spec fn shape_accepted(s: BlockShape) -> bool {
    &&& s.prepared
    &&& s.frames <= s.maximum_frames
    &&& s.inputs == 0
    &&& s.outputs == s.channels
    &&& s.frames * s.outputs <= s.output_len
}

/// A block is rendered only when the call matches the prepared layout, every
/// event list is ordered inside the block, every MIDI message is well formed
/// and every parameter change is one the settings accept. A refused block
/// renders silence and changes nothing.
pub open spec fn block_accepted_spec(
    s: BlockShape,
    midi: Seq<MidiMessage>,
    midi2: Seq<Midi2Message>,
    parameter_frames: Seq<u32>,
    parameters_valid: bool,
) -> bool {
    &&& shape_accepted(s)
    &&& frames_ordered(midi.map_values(|m: MidiMessage| m.frame), s.frames)
    &&& frames_ordered(midi2.map_values(|m: Midi2Message| m.frame), s.frames)
    &&& frames_ordered(parameter_frames, s.frames)
    &&& forall|i: int| 0 <= i < midi.len() ==> midi1_valid(#[trigger] midi[i])
    &&& forall|i: int| 0 <= i < midi2.len() ==> midi2_valid(#[trigger] midi2[i])
    &&& parameters_valid
}

pub fn block_accepted(
    s: &BlockShape,
    midi: &[MidiMessage],
    midi2: &[Midi2Message],
    parameter_frames: &[u32],
    parameters_valid: bool,
) -> (r: bool)
    ensures
        r == block_accepted_spec(*s, midi@, midi2@, parameter_frames@, parameters_valid),
{
    if !s.prepared || s.frames > s.maximum_frames || s.inputs != 0 || s.outputs != s.channels {
        return false;
    }
    match (s.frames as usize).checked_mul(s.outputs as usize) {
        None => return false,
        Some(n) => {
            if n > s.output_len {
                return false;
            }
        },
    }
    let f1 = midi1_frames(midi);
    let f2 = midi2_frames(midi2);
    assert(f1@ =~= midi@.map_values(|m: MidiMessage| m.frame));
    assert(f2@ =~= midi2@.map_values(|m: Midi2Message| m.frame));
    if !ordered(f1.as_slice(), s.frames) || !ordered(f2.as_slice(), s.frames) || !ordered(
        parameter_frames,
        s.frames,
    ) {
        return false;
    }
    let mut i: usize = 0;
    while i < midi.len()
        invariant
            i <= midi@.len(),
            forall|k: int| 0 <= k < i ==> midi1_valid(#[trigger] midi@[k]),
        decreases midi.len() - i,
    {
        if !valid_midi1(&midi[i]) {
            return false;
        }
        i += 1;
    }
    let mut k: usize = 0;
    while k < midi2.len()
        invariant
            k <= midi2@.len(),
            forall|j: int| 0 <= j < k ==> midi2_valid(#[trigger] midi2@[j]),
        decreases midi2.len() - k,
    {
        if !valid_midi2(&midi2[k]) {
            return false;
        }
        k += 1;
    }
    parameters_valid
}


/// A genuine MIDI 2.0 Note On never releases a key: without a 7-bit origin
/// even a zero velocity strikes, as the softest note.
pub proof fn law_midi2_note_on_always_strikes(m: Midi2Message, k: KeyboardView)
    requires
        m.kind == Midi2Kind::NoteOn,
        !m.origin_7bit,
        midi2_valid(m),
    ensures
        decode_midi2_spec(m) matches Action::NoteOn { channel, note, velocity } && channel
            == m.channel && note == m.index && played(k, channel, note, velocity) == match key_of(
            m.channel,
            m.index,
        ) {
            Some(i) => Some(k.struck(i as int, m.channel)),
            None => None,
        },
{
}

/// A MIDI 1.0 Note On at velocity zero releases the key it names.
pub proof fn law_midi1_note_on_at_zero_releases(channel: u8, note: u8, k: KeyboardView)
    requires
        channel < 16,
        note < 128,
    ensures
        decode_midi1_spec(seq![0x90u8 | channel, note, 0u8]) matches Action::NoteOn {
            channel: c,
            note: n,
            velocity,
        } && c == channel && n == note && played(k, c, n, velocity) == match key_of(channel, note) {
            Some(i) => Some(k.released(i as int, channel)),
            None => None,
        },
{
    assert((0x90u8 | channel) & 15u8 == channel && (0x90u8 | channel) & 0xf0u8 == 0x90u8) by (bit_vector)
        requires
            channel < 16,
    ;
    let d = seq![0x90u8 | channel, note, 0u8];
    assert(d[0] == (0x90u8 | channel) && d[1] == note && d[2] == 0u8);
}

/// A 7-bit-origin MIDI 2.0 note or controller that carries the 7-bit value in
/// its top bits decodes to exactly the action of the MIDI 1.0 message it came
/// from.
pub proof fn law_seven_bit_origin_matches_midi1(channel: u8, index: u8, v: u8, low: u32, note: bool)
    requires
        channel < 16,
        index < 128,
        v < 128,
        note ==> low < 512,
        !note ==> low < 0x0200_0000,
    ensures
        ({
            let status: u8 = if note { (0x90u8 | channel) } else { (0xb0u8 | channel) };
            let value: u32 = if note { ((v as u32) << 9u32) | low } else { ((v as u32) << 25u32) | low };
            let m2 = Midi2Message {
                frame: 0,
                kind: if note { Midi2Kind::NoteOn } else { Midi2Kind::ControlChange },
                channel,
                index,
                value,
                origin_7bit: true,
            };
            decode_midi2_spec(m2) == decode_midi1_spec(seq![status, index, v])
        }),
{
    let status: u8 = if note { (0x90u8 | channel) } else { (0xb0u8 | channel) };
    assert((0x90u8 | channel) & 15u8 == channel && (0x90u8 | channel) & 0xf0u8 == 0x90u8) by (bit_vector)
        requires
            channel < 16,
    ;
    assert((0xb0u8 | channel) & 15u8 == channel && (0xb0u8 | channel) & 0xf0u8 == 0xb0u8) by (bit_vector)
        requires
            channel < 16,
    ;
    if note {
        assert((((v as u32) << 9u32) | low) >> 9u32 == v as u32) by (bit_vector)
            requires
                v < 128,
                low < 512,
        ;
    } else {
        assert((((v as u32) << 25u32) | low) >> 25u32 == v as u32) by (bit_vector)
            requires
                v < 128,
                low < 0x0200_0000,
        ;
    }
    let d = seq![status, index, v];
    assert(d[0] == status && d[1] == index && d[2] == v);
}

/// The wheel never reports more than its full travel, and its centre is exactly
/// zero, in both protocols.
pub proof fn law_bend_stays_within_travel(lsb: u8, msb: u8, value: u32)
    requires
        lsb < 128,
        msb < 128,
    ensures
        bend14_spec(lsb, msb).magnitude <= bend14_spec(lsb, msb).span,
        bend32_spec(value).magnitude <= bend32_spec(value).span,
        bend14_spec(0, 64).magnitude == 0,
        bend32_spec(0x8000_0000u32).magnitude == 0,
{
    assert(((lsb as u16) | ((msb as u16) << 7u16)) < 16384) by (bit_vector)
        requires
            lsb < 128,
            msb < 128,
    ;
    assert(((0u8 as u16) | ((64u8 as u16) << 7u16)) == 8192) by (bit_vector);
}

/// A MIDI 1.0 pitch-wheel message carries the wheel position in its two data
/// bytes, the first the low seven bits and the second the high seven bits.
/// Positions from 8192 up push the wheel up by `position - 8192` of 8191
/// steps; positions below it pull it down by `8192 - position` of 8192.
pub proof fn law_midi1_wheel_position(channel: u8, low: u8, high: u8)
    requires
        channel < 16,
        low < 128,
        high < 128,
    ensures
        ({
            let position = low as int + 128 * high as int;
            decode_midi1_spec(seq![0xe0u8 | channel, low, high]) matches Action::PitchBend {
                channel: c,
                bend,
            } && c == channel && if position >= 8192 {
                !bend.downward && bend.magnitude == position - 8192 && bend.span == 8191
            } else {
                bend.downward && bend.magnitude == 8192 - position && bend.span == 8192
            }
        }),
{
    assert((0xe0u8 | channel) & 15u8 == channel && (0xe0u8 | channel) & 0xf0u8 == 0xe0u8) by (bit_vector)
        requires
            channel < 16,
    ;
    assert(((low as u16) | ((high as u16) << 7u16)) == (low as u16) + 128 * (high as u16)) by (bit_vector)
        requires
            low < 128,
            high < 128,
    ;
    let d = seq![0xe0u8 | channel, low, high];
    assert(d[0] == (0xe0u8 | channel) && d[1] == low && d[2] == high);
}

/// A MIDI 2.0 pitch-wheel value is a 32-bit position centred on 2^31: from
/// the centre up it pushes the wheel up by `value - 2^31` of `2^31 - 1`
/// steps, below it pulls it down by `2^31 - value` of `2^31` steps.
pub proof fn law_midi2_wheel_position(m: Midi2Message)
    requires
        m.kind == Midi2Kind::PitchBend,
    ensures
        decode_midi2_spec(m) matches Action::PitchBend { channel, bend } && channel == m.channel
            && if m.value >= 0x8000_0000 {
            !bend.downward && bend.magnitude == m.value - 0x8000_0000 && bend.span == 0x7fff_ffff
        } else {
            bend.downward && bend.magnitude == 0x8000_0000 - m.value && bend.span == 0x8000_0000
        },
{
}

/// MIDI 1.0 note and controller messages act on the channel in the status
/// byte's low four bits, name the note or controller in the first data byte
/// and carry the velocity or level, out of 127, in the second.
pub proof fn law_midi1_notes_and_controllers(channel: u8, first: u8, second: u8)
    requires
        channel < 16,
        first < 128,
        second < 128,
    ensures
        decode_midi1_spec(seq![0x90u8 | channel, first, second]) == (Action::NoteOn {
            channel,
            note: first,
            velocity: Level { numerator: second as u32, denominator: 127 },
        }),
        decode_midi1_spec(seq![0x80u8 | channel, first, second]) == (Action::NoteOff {
            channel,
            note: first,
        }),
        decode_midi1_spec(seq![0xb0u8 | channel, first, second]) == (Action::Control {
            channel,
            controller: first,
            value: Level { numerator: second as u32, denominator: 127 },
        }),
{
    assert((0x90u8 | channel) & 15u8 == channel && (0x90u8 | channel) & 0xf0u8 == 0x90u8
        && (0x80u8 | channel) & 15u8 == channel && (0x80u8 | channel) & 0xf0u8 == 0x80u8
        && (0xb0u8 | channel) & 15u8 == channel && (0xb0u8 | channel) & 0xf0u8 == 0xb0u8)
        by (bit_vector)
        requires
            channel < 16,
    ;
    let a = seq![0x90u8 | channel, first, second];
    let b = seq![0x80u8 | channel, first, second];
    let c = seq![0xb0u8 | channel, first, second];
    assert(a[0] == (0x90u8 | channel) && a[1] == first && a[2] == second);
    assert(b[0] == (0x80u8 | channel) && b[1] == first && b[2] == second);
    assert(c[0] == (0xb0u8 | channel) && c[1] == first && c[2] == second);
}

} // verus!
