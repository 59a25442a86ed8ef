//! Key and pedal ownership of the shared mechanical keyboard.
//!
//! There is one tine per pitch, whatever channel plays it. Each key keeps two
//! sixteen-bit channel masks: the channels holding it down and the channels
//! whose sustain pedal is keeping it up after release. Each channel also has a
//! pedal bit. A key's damper rests on the tine exactly when no channel owns
//! the key. The ringing of a tine is physics and is decided elsewhere; the
//! operations that depend on it take it as a per-key `active` flag.
use vstd::prelude::*;
use crate::midi::Level;

verus! {

/// Lowest playable MIDI note.
pub const FIRST_NOTE: u8 = 28;
/// Highest playable MIDI note.
pub const LAST_NOTE: u8 = 100;
/// One key per note from `FIRST_NOTE` to `LAST_NOTE`.
pub const KEY_COUNT: usize = 73;
/// MIDI channels.
pub const CHANNELS: u8 = 16;

/// Controller numbers the keyboard answers.
pub const CONTROLLER_SUSTAIN: u8 = 64;
pub const CONTROLLER_ALL_SOUND_OFF: u8 = 120;
pub const CONTROLLER_RESET_ALL: u8 = 121;
pub const CONTROLLER_ALL_NOTES_OFF: u8 = 123;

/// The key a channel and note address, if both are in range.
pub open spec fn key_of(channel: u8, note: u8) -> Option<usize> {
    if channel < CHANNELS && FIRST_NOTE <= note && note <= LAST_NOTE {
        Some((note - FIRST_NOTE) as usize)
    } else {
        None
    }
}

/// The bit of a channel in a channel mask.
pub open spec fn bit(channel: u8) -> u16 {
    (1u16 << channel)
}

/// Index of the key that `note` on `channel` plays.
pub fn key_index(channel: u8, note: u8) -> (r: Option<usize>)
    ensures
        r == key_of(channel, note),
{
    if channel < CHANNELS && FIRST_NOTE <= note && note <= LAST_NOTE {
        Some((note - FIRST_NOTE) as usize)
    } else {
        None
    }
}

/// Whether `note` is one of the keyboard's notes.
pub fn playable(note: u8) -> (r: bool)
    ensures
        r == (FIRST_NOTE <= note && note <= LAST_NOTE),
{
    FIRST_NOTE <= note && note <= LAST_NOTE
}

/// Abstract state: per-key held and sustained channel masks, the pedal mask,
/// and the channel of each key's last strike.
pub struct KeyboardView {
    pub held: Seq<u16>,
    pub sustained: Seq<u16>,
    pub pedals: u16,
    pub last_channel: Seq<u8>,
}

impl KeyboardView {
    pub open spec fn wf(self) -> bool {
        &&& self.held.len() == KEY_COUNT
        &&& self.sustained.len() == KEY_COUNT
        &&& self.last_channel.len() == KEY_COUNT
        &&& forall|i: int| 0 <= i < KEY_COUNT ==> #[trigger] self.last_channel[i] < CHANNELS
    }

    /// Channels owning key `i`, holding or sustaining it.
    pub open spec fn owners(self, i: int) -> u16 {
        self.held[i] | self.sustained[i]
    }

    /// The damper of key `i` rests on its tine: nobody owns the key.
    pub open spec fn damped(self, i: int) -> bool {
        self.owners(i) == 0
    }

    /// `channel` strikes key `i`: it holds the key, drops its own sustain of
    /// it, and becomes the key's last striker.
    pub open spec fn struck(self, i: int, channel: u8) -> KeyboardView {
        KeyboardView {
            held: self.held.update(i, self.held[i] | bit(channel)),
            sustained: self.sustained.update(i, self.sustained[i] & !bit(channel)),
            pedals: self.pedals,
            last_channel: self.last_channel.update(i, channel),
        }
    }

    /// Sustain mask of key `i` after `channel` lets it go.
    pub open spec fn sustain_after_release(self, i: int, channel: u8) -> u16 {
        if self.held[i] & bit(channel) != 0 && self.pedals & bit(channel) != 0 {
            self.sustained[i] | bit(channel)
        } else {
            self.sustained[i]
        }
    }

    /// `channel` lets key `i` go; a held key under that channel's pedal stays
    /// up as sustained.
    pub open spec fn released(self, i: int, channel: u8) -> KeyboardView {
        KeyboardView {
            held: self.held.update(i, self.held[i] & !bit(channel)),
            sustained: self.sustained.update(i, self.sustain_after_release(i, channel)),
            pedals: self.pedals,
            last_channel: self.last_channel,
        }
    }

    /// `channel` lets every key go.
    pub open spec fn all_released(self, channel: u8) -> KeyboardView {
        KeyboardView {
            held: Seq::new(KEY_COUNT as nat, |i: int| self.held[i] & !bit(channel)),
            sustained: Seq::new(
                KEY_COUNT as nat,
                |i: int| self.sustain_after_release(i, channel),
            ),
            pedals: self.pedals,
            last_channel: self.last_channel,
        }
    }

    /// `channel` presses its pedal; a still ringing key last struck from the
    /// channel is caught by it.
    pub open spec fn pedal_pressed(self, channel: u8, active: Seq<bool>) -> KeyboardView {
        KeyboardView {
            held: self.held,
            sustained: Seq::new(
                KEY_COUNT as nat,
                |i: int|
                    if active[i] && self.last_channel[i] == channel {
                        self.sustained[i] | bit(channel)
                    } else {
                        self.sustained[i]
                    },
            ),
            pedals: self.pedals | bit(channel),
            last_channel: self.last_channel,
        }
    }

    /// `channel` lifts its pedal and gives up every key it sustained.
    pub open spec fn pedal_lifted(self, channel: u8) -> KeyboardView {
        KeyboardView {
            held: self.held,
            sustained: Seq::new(KEY_COUNT as nat, |i: int| self.sustained[i] & !bit(channel)),
            pedals: self.pedals & !bit(channel),
            last_channel: self.last_channel,
        }
    }

    /// `channel` gives up all ownership at once.
    pub open spec fn silenced(self, channel: u8) -> KeyboardView {
        KeyboardView {
            held: Seq::new(KEY_COUNT as nat, |i: int| self.held[i] & !bit(channel)),
            sustained: Seq::new(KEY_COUNT as nat, |i: int| self.sustained[i] & !bit(channel)),
            pedals: self.pedals,
            last_channel: self.last_channel,
        }
    }

    /// Whether all-sound-off on `channel` stops key `i`: the channel owned it
    /// or struck it last, and nobody owns it afterwards.
    pub open spec fn stopped_by(self, i: int, channel: u8) -> bool {
        &&& (self.owners(i) & bit(channel) != 0 || self.last_channel[i] == channel)
        &&& self.silenced(channel).damped(i)
    }

    /// Keys that `channel`'s pitch wheel retunes: ringing and last struck from it.
    pub open spec fn bend_target(self, i: int, channel: u8, active: Seq<bool>) -> bool {
        active[i] && self.last_channel[i] == channel
    }

    /// Every key released from every channel, pedals up.
    pub open spec fn cleared(self) -> KeyboardView {
        KeyboardView {
            held: Seq::new(KEY_COUNT as nat, |i: int| 0u16),
            sustained: Seq::new(KEY_COUNT as nat, |i: int| 0u16),
            pedals: 0,
            last_channel: self.last_channel,
        }
    }
}

/// A level the keyboard reads: a fraction with a nonzero denominator, at
/// most one.
pub open spec fn level_valid(l: Level) -> bool {
    l.denominator > 0 && l.numerator <= l.denominator
}

/// A controller level of at least one half presses a pedal.
pub open spec fn level_high(l: Level) -> bool {
    2 * (l.numerator as int) >= l.denominator as int
}

/// The keyboard after a note-on at `velocity`: `None` when the note or the
/// level is refused; level zero releases the key, any other level strikes.
pub open spec fn played(k: KeyboardView, channel: u8, note: u8, velocity: Level) -> Option<KeyboardView> {
    match key_of(channel, note) {
        None => None,
        Some(i) => if !level_valid(velocity) {
            None
        } else if velocity.numerator == 0 {
            Some(k.released(i as int, channel))
        } else {
            Some(k.struck(i as int, channel))
        },
    }
}

/// What a controller message asks of the voices.
pub struct ControlOutcome {
    /// Per key: stop the tine at once.
    pub stops: Vec<bool>,
    /// Return the channel's pitch wheel to its centre.
    pub centre_bend: bool,
}

pub struct Keyboard {
    held: Vec<u16>,
    sustained: Vec<u16>,
    pedals: u16,
    last_channel: Vec<u8>,
}

impl View for Keyboard {
    type V = KeyboardView;

    closed spec fn view(&self) -> KeyboardView {
        KeyboardView {
            held: self.held@,
            sustained: self.sustained@,
            pedals: self.pedals,
            last_channel: self.last_channel@,
        }
    }
}

fn filled_u16(value: u16) -> (v: Vec<u16>)
    ensures
        v@ == Seq::new(KEY_COUNT as nat, |i: int| value),
{
    let mut v: Vec<u16> = Vec::new();
    while v.len() < KEY_COUNT
        invariant
            v.len() <= KEY_COUNT,
            forall|j: int| 0 <= j < v.len() ==> v@[j] == value,
        decreases KEY_COUNT - v.len(),
    {
        v.push(value);
    }
    assert(v@ =~= Seq::new(KEY_COUNT as nat, |i: int| value));
    v
}

impl Keyboard {
    /// All keys free, all pedals up, every key last struck from channel 0.
    pub fn new() -> (k: Keyboard)
        ensures
            k@.wf(),
            k@.held == Seq::new(KEY_COUNT as nat, |i: int| 0u16),
            k@.sustained == Seq::new(KEY_COUNT as nat, |i: int| 0u16),
            k@.pedals == 0,
            k@.last_channel == Seq::new(KEY_COUNT as nat, |i: int| 0u8),
    {
        let mut last: Vec<u8> = Vec::new();
        while last.len() < KEY_COUNT
            invariant
                last.len() <= KEY_COUNT,
                forall|j: int| 0 <= j < last.len() ==> last@[j] == 0u8,
            decreases KEY_COUNT - last.len(),
        {
            last.push(0);
        }
        assert(last@ =~= Seq::new(KEY_COUNT as nat, |i: int| 0u8));
        Keyboard { held: filled_u16(0), sustained: filled_u16(0), pedals: 0, last_channel: last }
    }

    /// Whether key `key`'s damper rests on its tine.
    pub fn damped(&self, key: usize) -> (r: bool)
        requires
            self@.wf(),
            key < KEY_COUNT,
        ensures
            r == self@.damped(key as int),
    {
        (self.held[key] | self.sustained[key]) == 0
    }

    /// The channel that struck key `key` last.
    pub fn last_channel(&self, key: usize) -> (r: u8)
        requires
            self@.wf(),
            key < KEY_COUNT,
        ensures
            r == self@.last_channel[key as int],
    {
        self.last_channel[key]
    }

    /// A strike of `note` from `channel`; answers the key to strike, or `None`
    /// and no change when the channel or note is out of range.
    pub fn note_on(&mut self, channel: u8, note: u8) -> (r: Option<usize>)
        requires
            old(self)@.wf(),
        ensures
            final(self)@.wf(),
            r == key_of(channel, note),
            r is None ==> final(self)@ == old(self)@,
            r is Some ==> final(self)@ == old(self)@.struck(r->0 as int, channel),
    {
        let key = match key_index(channel, note) {
            Some(k) => k,
            None => return None,
        };
        let b: u16 = 1u16 << channel;
        let h = self.held[key] | b;
        let s = self.sustained[key] & !b;
        self.held.set(key, h);
        self.sustained.set(key, s);
        self.last_channel.set(key, channel);
        proof {
            assert(final(self)@.last_channel =~= old(self)@.last_channel.update(key as int, channel));
        }
        Some(key)
    }

    /// `channel` lets `note` go; answers its key, or `None` and no change when
    /// out of range.
    pub fn note_off(&mut self, channel: u8, note: u8) -> (r: Option<usize>)
        requires
            old(self)@.wf(),
        ensures
            final(self)@.wf(),
            r == key_of(channel, note),
            r is None ==> final(self)@ == old(self)@,
            r is Some ==> final(self)@ == old(self)@.released(r->0 as int, channel),
    {
        let key = match key_index(channel, note) {
            Some(k) => k,
            None => return None,
        };
        self.release_key(key, channel);
        Some(key)
    }

    fn release_key(&mut self, key: usize, channel: u8)
        requires
            old(self)@.wf(),
            key < KEY_COUNT,
            channel < CHANNELS,
        ensures
            final(self)@ == old(self)@.released(key as int, channel),
    {
        let b: u16 = 1u16 << channel;
        if self.held[key] & b != 0 && self.pedals & b != 0 {
            let s = self.sustained[key] | b;
            self.sustained.set(key, s);
        }
        let h = self.held[key] & !b;
        self.held.set(key, h);
        proof {
            assert(final(self)@.sustained =~= old(self)@.released(key as int, channel).sustained);
        }
    }

    /// `channel` presses its sustain pedal, catching every still ringing key it
    /// struck last.
    pub fn press_pedal(&mut self, channel: u8, active: &Vec<bool>)
        requires
            old(self)@.wf(),
            channel < CHANNELS,
            active.len() == KEY_COUNT,
        ensures
            final(self)@.wf(),
            final(self)@ == old(self)@.pedal_pressed(channel, active@),
    {
        let b: u16 = 1u16 << channel;
        self.pedals = self.pedals | b;
        let mut i: usize = 0;
        while i < KEY_COUNT
            invariant
                self@.wf(),
                old(self)@.wf(),
                channel < CHANNELS,
                i <= KEY_COUNT,
                self.pedals == old(self)@.pedals | bit(channel),
                b == bit(channel),
                active.len() == KEY_COUNT,
                self.held@ == old(self)@.held,
                self.last_channel@ == old(self)@.last_channel,
                forall|j: int|
                    0 <= j < i ==> #[trigger] self.sustained@[j] == old(
                        self,
                    )@.pedal_pressed(channel, active@).sustained[j],
                forall|j: int| i <= j < KEY_COUNT ==> #[trigger] self.sustained@[j] == old(self)@.sustained[j],
            decreases KEY_COUNT - i,
        {
            if active[i] && self.last_channel[i] == channel {
                let s = self.sustained[i] | b;
                self.sustained.set(i, s);
            }
            i += 1;
        }
        assert(self.sustained@ =~= old(self)@.pedal_pressed(channel, active@).sustained);
    }

    /// `channel` lifts its sustain pedal, giving up every key it sustained.
    pub fn lift_pedal(&mut self, channel: u8)
        requires
            old(self)@.wf(),
            channel < CHANNELS,
        ensures
            final(self)@.wf(),
            final(self)@ == old(self)@.pedal_lifted(channel),
    {
        let b: u16 = 1u16 << channel;
        self.pedals = self.pedals & !b;
        let mut i: usize = 0;
        while i < KEY_COUNT
            invariant
                self@.wf(),
                old(self)@.wf(),
                channel < CHANNELS,
                i <= KEY_COUNT,
                self.pedals == old(self)@.pedals & !bit(channel),
                b == bit(channel),
                self.held@ == old(self)@.held,
                self.last_channel@ == old(self)@.last_channel,
                forall|j: int|
                    0 <= j < i ==> #[trigger] self.sustained@[j] == old(self)@.sustained[j]
                        & !bit(channel),
                forall|j: int| i <= j < KEY_COUNT ==> #[trigger] self.sustained@[j] == old(self)@.sustained[j],
            decreases KEY_COUNT - i,
        {
            let s = self.sustained[i] & !b;
            self.sustained.set(i, s);
            i += 1;
        }
        assert(self.sustained@ =~= old(self)@.pedal_lifted(channel).sustained);
    }

    /// `channel` lets every key go, as note-offs for every note would.
    pub fn release_all(&mut self, channel: u8)
        requires
            old(self)@.wf(),
            channel < CHANNELS,
        ensures
            final(self)@.wf(),
            final(self)@ == old(self)@.all_released(channel),
    {
        let mut i: usize = 0;
        while i < KEY_COUNT
            invariant
                self@.wf(),
                old(self)@.wf(),
                channel < CHANNELS,
                i <= KEY_COUNT,
                self.pedals == old(self)@.pedals,
                self.last_channel@ == old(self)@.last_channel,
                forall|j: int|
                    0 <= j < i ==> #[trigger] self.held@[j] == old(self)@.all_released(
                        channel,
                    ).held[j],
                forall|j: int|
                    0 <= j < i ==> #[trigger] self.sustained@[j] == old(self)@.all_released(
                        channel,
                    ).sustained[j],
                forall|j: int| i <= j < KEY_COUNT ==> #[trigger] self.held@[j] == old(self)@.held[j],
                forall|j: int| i <= j < KEY_COUNT ==> #[trigger] self.sustained@[j] == old(self)@.sustained[j],
            decreases KEY_COUNT - i,
        {
            self.release_key(i, channel);
            i += 1;
        }
        assert(self.held@ =~= old(self)@.all_released(channel).held);
        assert(self.sustained@ =~= old(self)@.all_released(channel).sustained);
    }

    /// `channel` gives up every key at once; answers, per key, whether the
    /// tine must stop.
    pub fn silence(&mut self, channel: u8) -> (stops: Vec<bool>)
        requires
            old(self)@.wf(),
            channel < CHANNELS,
        ensures
            final(self)@.wf(),
            final(self)@ == old(self)@.silenced(channel),
            stops@.len() == KEY_COUNT,
            forall|i: int| 0 <= i < KEY_COUNT ==> #[trigger] stops@[i] == old(self)@.stopped_by(i, channel),
    {
        let b: u16 = 1u16 << channel;
        let mut stops: Vec<bool> = Vec::new();
        let mut i: usize = 0;
        while i < KEY_COUNT
            invariant
                self@.wf(),
                old(self)@.wf(),
                channel < CHANNELS,
                i <= KEY_COUNT,
                stops.len() == i,
                b == bit(channel),
                self.pedals == old(self)@.pedals,
                self.last_channel@ == old(self)@.last_channel,
                forall|j: int| 0 <= j < i ==> #[trigger] stops@[j] == old(self)@.stopped_by(j, channel),
                forall|j: int|
                    0 <= j < i ==> #[trigger] self.held@[j] == old(self)@.held[j] & !bit(channel),
                forall|j: int|
                    0 <= j < i ==> #[trigger] self.sustained@[j] == old(self)@.sustained[j]
                        & !bit(channel),
                forall|j: int| i <= j < KEY_COUNT ==> #[trigger] self.held@[j] == old(self)@.held[j],
                forall|j: int| i <= j < KEY_COUNT ==> #[trigger] self.sustained@[j] == old(self)@.sustained[j],
            decreases KEY_COUNT - i,
        {
            let owned = (self.held[i] | self.sustained[i]) & b != 0;
            let h = self.held[i] & !b;
            let s = self.sustained[i] & !b;
            self.held.set(i, h);
            self.sustained.set(i, s);
            stops.push((owned || self.last_channel[i] == channel) && (h | s) == 0);
            i += 1;
        }
        assert(self.held@ =~= old(self)@.silenced(channel).held);
        assert(self.sustained@ =~= old(self)@.silenced(channel).sustained);
        stops
    }

    /// Per key: whether `channel`'s pitch wheel retunes it.
    pub fn bend_targets(&self, channel: u8, active: &Vec<bool>) -> (targets: Vec<bool>)
        requires
            self@.wf(),
            active.len() == KEY_COUNT,
        ensures
            targets@.len() == KEY_COUNT,
            forall|i: int|
                0 <= i < KEY_COUNT ==> #[trigger] targets@[i] == self@.bend_target(i, channel, active@),
    {
        let mut targets: Vec<bool> = Vec::new();
        let mut i: usize = 0;
        while i < KEY_COUNT
            invariant
                self@.wf(),
                i <= KEY_COUNT,
                targets.len() == i,
                active.len() == KEY_COUNT,
                forall|j: int|
                    0 <= j < i ==> #[trigger] targets@[j] == self@.bend_target(j, channel, active@),
            decreases KEY_COUNT - i,
        {
            targets.push(active[i] && self.last_channel[i] == channel);
            i += 1;
        }
        targets
    }

    /// A controller message. Sustain (64) presses the pedal when `high` and
    /// lifts it otherwise; all-notes-off (123) releases every key;
    /// all-sound-off (120) silences the channel; reset-all (121) lifts the
    /// pedal and centres the wheel. Any other controller, or a channel out of
    /// range, is refused with no change.
    pub fn control_change(&mut self, channel: u8, controller: u8, high: bool, active: &Vec<bool>) -> (r: Option<ControlOutcome>)
        requires
            old(self)@.wf(),
            active.len() == KEY_COUNT,
        ensures
            final(self)@.wf(),
            r is None <==> (channel >= CHANNELS || (controller != CONTROLLER_SUSTAIN
                && controller != CONTROLLER_ALL_SOUND_OFF && controller != CONTROLLER_RESET_ALL
                && controller != CONTROLLER_ALL_NOTES_OFF)),
            r is None ==> final(self)@ == old(self)@,
            r matches Some(o) ==> {
                &&& o.stops@.len() == KEY_COUNT
                &&& o.centre_bend == (controller == CONTROLLER_RESET_ALL)
                &&& controller == CONTROLLER_SUSTAIN && high ==> final(self)@ == old(self)@.pedal_pressed(channel, active@)
                &&& controller == CONTROLLER_SUSTAIN && !high ==> final(self)@ == old(self)@.pedal_lifted(channel)
                &&& controller == CONTROLLER_RESET_ALL ==> final(self)@ == old(self)@.pedal_lifted(channel)
                &&& controller == CONTROLLER_ALL_NOTES_OFF ==> final(self)@ == old(self)@.all_released(channel)
                &&& controller == CONTROLLER_ALL_SOUND_OFF ==> final(self)@ == old(self)@.silenced(channel)
                &&& forall|i: int| 0 <= i < KEY_COUNT ==> #[trigger] o.stops@[i] == (
                    controller == CONTROLLER_ALL_SOUND_OFF && old(self)@.stopped_by(i, channel))
            },
    {
        if channel >= CHANNELS {
            return None;
        }
        if controller == CONTROLLER_ALL_SOUND_OFF {
            let stops = self.silence(channel);
            return Some(ControlOutcome { stops, centre_bend: false });
        }
        if controller == CONTROLLER_SUSTAIN {
            if high {
                self.press_pedal(channel, active);
            } else {
                self.lift_pedal(channel);
            }
        } else if controller == CONTROLLER_ALL_NOTES_OFF {
            self.release_all(channel);
        } else if controller == CONTROLLER_RESET_ALL {
            self.lift_pedal(channel);
        } else {
            return None;
        }
        let stops = no_stops();
        Some(ControlOutcome { stops, centre_bend: controller == CONTROLLER_RESET_ALL })
    }

    /// A note-on at `velocity`, as a MIDI message delivers it. A level above
    /// one, or without a denominator, is refused with no change; level zero
    /// releases the key, as MIDI 1.0 has it; any other level strikes. Answers
    /// the key and whether it was struck.
    pub fn play(&mut self, channel: u8, note: u8, velocity: Level) -> (r: Option<(usize, bool)>)
        requires
            old(self)@.wf(),
        ensures
            final(self)@.wf(),
            r is None <==> played(old(self)@, channel, note, velocity) is None,
            r is None ==> final(self)@ == old(self)@,
            r matches Some((key, struck)) ==> Some(key) == key_of(channel, note)
                && struck == (velocity.numerator != 0)
                && played(old(self)@, channel, note, velocity) == Some(final(self)@),
    {
        let key = match key_index(channel, note) {
            Some(k) => k,
            None => return None,
        };
        if velocity.denominator == 0 || velocity.numerator > velocity.denominator {
            return None;
        }
        if velocity.numerator == 0 {
            self.note_off(channel, note);
            Some((key, false))
        } else {
            self.note_on(channel, note);
            Some((key, true))
        }
    }

    /// A controller message at level `value`, as a MIDI message delivers it:
    /// a level above one, or without a denominator, is refused with no
    /// change; otherwise as `control_change`, a level of one half or more
    /// pressing the sustain pedal.
    pub fn control(&mut self, channel: u8, controller: u8, value: Level, active: &Vec<bool>) -> (r: Option<ControlOutcome>)
        requires
            old(self)@.wf(),
            active.len() == KEY_COUNT,
        ensures
            final(self)@.wf(),
            !level_valid(value) ==> r is None && final(self)@ == old(self)@,
            level_valid(value) ==> (r is None <==> (channel >= CHANNELS || (controller
                != CONTROLLER_SUSTAIN && controller != CONTROLLER_ALL_SOUND_OFF && controller
                != CONTROLLER_RESET_ALL && controller != CONTROLLER_ALL_NOTES_OFF))),
            r is None ==> final(self)@ == old(self)@,
            r matches Some(o) ==> {
                &&& o.stops@.len() == KEY_COUNT
                &&& o.centre_bend == (controller == CONTROLLER_RESET_ALL)
                &&& controller == CONTROLLER_SUSTAIN && level_high(value) ==> final(self)@ == old(self)@.pedal_pressed(channel, active@)
                &&& controller == CONTROLLER_SUSTAIN && !level_high(value) ==> final(self)@ == old(self)@.pedal_lifted(channel)
                &&& controller == CONTROLLER_RESET_ALL ==> final(self)@ == old(self)@.pedal_lifted(channel)
                &&& controller == CONTROLLER_ALL_NOTES_OFF ==> final(self)@ == old(self)@.all_released(channel)
                &&& controller == CONTROLLER_ALL_SOUND_OFF ==> final(self)@ == old(self)@.silenced(channel)
                &&& forall|i: int| 0 <= i < KEY_COUNT ==> #[trigger] o.stops@[i] == (
                    controller == CONTROLLER_ALL_SOUND_OFF && old(self)@.stopped_by(i, channel))
            },
    {
        if value.denominator == 0 || value.numerator > value.denominator {
            return None;
        }
        let high = value.numerator as u64 * 2 >= value.denominator as u64;
        self.control_change(channel, controller, high, active)
    }

    /// Releases every key from every channel and lifts every pedal; the last
    /// striker of each key is kept.
    pub fn reset(&mut self)
        requires
            old(self)@.wf(),
        ensures
            final(self)@.wf(),
            final(self)@ == old(self)@.cleared(),
    {
        self.held = filled_u16(0);
        self.sustained = filled_u16(0);
        self.pedals = 0;
    }
}

fn no_stops() -> (v: Vec<bool>)
    ensures
        v@.len() == KEY_COUNT,
        forall|i: int| 0 <= i < KEY_COUNT ==> !#[trigger] v@[i],
{
    let mut v: Vec<bool> = Vec::new();
    while v.len() < KEY_COUNT
        invariant
            v.len() <= KEY_COUNT,
            forall|j: int| 0 <= j < v.len() ==> !#[trigger] v@[j],
        decreases KEY_COUNT - v.len(),
    {
        v.push(false);
    }
    v
}


proof fn lemma_bit_facts(x: u16, y: u16, c: u8, d: u8)
    requires
        c < 16,
        d < 16,
    ensures
        (x | bit(c)) != 0,
        (x | bit(c)) & bit(c) != 0,
        (x & !bit(c)) & bit(c) == 0,
        c != d ==> (x & !bit(d)) & bit(c) == x & bit(c),
        c != d ==> (x | bit(d)) & bit(c) == x & bit(c),
        (x | y) & bit(c) == (x & bit(c)) | (y & bit(c)),
        (x | y) == 0 <==> (x == 0 && y == 0),
        (x & bit(c) != 0) ==> x != 0,
        (x & bit(c)) == 0 && (y & bit(c)) == 0 ==> (x | y) & bit(c) == 0,
{
    assert((x & (1u16 << c)) == 0 && (y & (1u16 << c)) == 0 ==> (x | y) & (1u16 << c) == 0) by (bit_vector);
    assert((x | (1u16 << c)) != 0) by (bit_vector)
        requires
            c < 16,
    ;
    assert((x | (1u16 << c)) & (1u16 << c) != 0) by (bit_vector)
        requires
            c < 16,
    ;
    assert((x & !(1u16 << c)) & (1u16 << c) == 0) by (bit_vector)
        requires
            c < 16,
    ;
    assert(c != d ==> (x & !(1u16 << d)) & (1u16 << c) == x & (1u16 << c)) by (bit_vector)
        requires
            c < 16,
            d < 16,
    ;
    assert(c != d ==> (x | (1u16 << d)) & (1u16 << c) == x & (1u16 << c)) by (bit_vector)
        requires
            c < 16,
            d < 16,
    ;
    assert((x | y) & (1u16 << c) == (x & (1u16 << c)) | (y & (1u16 << c))) by (bit_vector);
    assert((x | y) == 0 <==> (x == 0 && y == 0)) by (bit_vector);
    assert((x & (1u16 << c) != 0) ==> x != 0) by (bit_vector);
}

/// A channel whose pedal is up sustains no key.
pub open spec fn coherent(k: KeyboardView) -> bool {
    forall|i: int, c: u8|
        0 <= i < KEY_COUNT && c < CHANNELS && #[trigger] (k.pedals & bit(c)) == 0 ==> #[trigger] (
        k.sustained[i] & bit(c)) == 0
}

/// A fresh keyboard is coherent: nothing is held or sustained.
pub proof fn law_new_keyboard_is_quiet(k: KeyboardView)
    requires
        k.wf(),
        k.held == Seq::new(KEY_COUNT as nat, |i: int| 0u16),
        k.sustained == Seq::new(KEY_COUNT as nat, |i: int| 0u16),
        k.pedals == 0,
    ensures
        coherent(k),
        forall|i: int| 0 <= i < KEY_COUNT ==> #[trigger] k.damped(i),
{
    assert forall|i: int, c: u8|
        0 <= i < KEY_COUNT && c < CHANNELS && #[trigger] (k.pedals & bit(c)) == 0 implies #[trigger] (
        k.sustained[i] & bit(c)) == 0 by {
        assert(0u16 & (1u16 << c) == 0) by (bit_vector);
    }
    assert forall|i: int| 0 <= i < KEY_COUNT implies #[trigger] k.damped(i) by {
        lemma_bit_facts(0, 0, 0, 0);
    }
}

/// The key a channel strikes is no longer damped.
pub proof fn law_struck_key_rings(k: KeyboardView, i: int, c: u8)
    requires
        k.wf(),
        0 <= i < KEY_COUNT,
        c < CHANNELS,
    ensures
        !k.struck(i, c).damped(i),
        k.struck(i, c).held[i] & bit(c) != 0,
{
    lemma_bit_facts(k.held[i], k.sustained[i] & !bit(c), c, c);
    lemma_bit_facts(k.held[i] | bit(c), k.sustained[i] & !bit(c), c, c);
}

/// A held key that its channel lets go under that channel's pedal keeps ringing.
pub proof fn law_pedal_sustains_released_key(k: KeyboardView, i: int, c: u8)
    requires
        k.wf(),
        0 <= i < KEY_COUNT,
        c < CHANNELS,
        k.held[i] & bit(c) != 0,
        k.pedals & bit(c) != 0,
    ensures
        !k.released(i, c).damped(i),
        k.released(i, c).sustained[i] & bit(c) != 0,
{
    let r = k.released(i, c);
    lemma_bit_facts(k.sustained[i], 0, c, c);
    lemma_bit_facts(r.held[i], r.sustained[i], c, c);
}

/// Without its pedal, a channel letting go of a key gives up exactly its own
/// ownership: the key stays up only if another channel still owns it.
pub proof fn law_release_without_pedal(k: KeyboardView, i: int, c: u8)
    requires
        k.wf(),
        coherent(k),
        0 <= i < KEY_COUNT,
        c < CHANNELS,
        k.pedals & bit(c) == 0,
    ensures
        forall|d: u8| d < CHANNELS ==> #[trigger] (k.released(i, c).owners(i) & bit(d)) == if d == c {
            0
        } else {
            k.owners(i) & bit(d)
        },
{
    let r = k.released(i, c);
    assert(k.sustained[i] & bit(c) == 0);
    assert(r.sustained[i] == k.sustained[i]);
    assert(r.held[i] == k.held[i] & !bit(c));
    assert forall|d: u8| d < CHANNELS implies #[trigger] (r.owners(i) & bit(d)) == if d == c {
        0
    } else {
        k.owners(i) & bit(d)
    } by {
        lemma_bit_facts(r.held[i], r.sustained[i], d, c);
        lemma_bit_facts(k.held[i], k.sustained[i], d, c);
        lemma_bit_facts(k.held[i], 0, d, c);
    }
}

/// Lifting one channel's pedal leaves every other channel's ownership alone.
pub proof fn law_pedal_lift_is_channel_local(k: KeyboardView, c: u8, d: u8, i: int)
    requires
        k.wf(),
        0 <= i < KEY_COUNT,
        c < CHANNELS,
        d < CHANNELS,
        c != d,
    ensures
        k.pedal_lifted(d).owners(i) & bit(c) == k.owners(i) & bit(c),
        k.pedal_lifted(d).pedals & bit(c) == k.pedals & bit(c),
        k.pedal_lifted(d).sustained[i] & bit(d) == 0,
{
    let p = k.pedal_lifted(d);
    lemma_bit_facts(k.sustained[i], 0, c, d);
    lemma_bit_facts(k.sustained[i], 0, d, d);
    lemma_bit_facts(k.pedals, 0, c, d);
    lemma_bit_facts(p.held[i], p.sustained[i], c, d);
    lemma_bit_facts(k.held[i], k.sustained[i], c, d);
}

/// Lifting a pedal, the channel's own or another's, lets go of no held key:
/// every channel holding a key still holds it, and a key held down keeps its
/// damper off.
pub proof fn law_pedal_lift_keeps_held_keys(k: KeyboardView, c: u8, d: u8, i: int)
    requires
        k.wf(),
        0 <= i < KEY_COUNT,
        c < CHANNELS,
        d < CHANNELS,
    ensures
        k.pedal_lifted(d).held[i] & bit(c) == k.held[i] & bit(c),
        k.held[i] != 0 ==> !k.pedal_lifted(d).damped(i),
        k.pedal_lifted(d).pedals & bit(d) == 0,
{
    let p = k.pedal_lifted(d);
    lemma_bit_facts(p.held[i], p.sustained[i], c, d);
    lemma_bit_facts(k.pedals, 0, d, d);
}

/// A still ringing key last struck from a channel is caught when that channel
/// presses its pedal, even after release.
pub proof fn law_late_pedal_recaptures(k: KeyboardView, active: Seq<bool>, i: int, c: u8)
    requires
        k.wf(),
        0 <= i < KEY_COUNT,
        c < CHANNELS,
        active.len() == KEY_COUNT,
        active[i],
        k.last_channel[i] == c,
    ensures
        !k.pedal_pressed(c, active).damped(i),
{
    let p = k.pedal_pressed(c, active);
    lemma_bit_facts(k.sustained[i], 0, c, c);
    lemma_bit_facts(p.held[i], p.sustained[i], c, c);
}

/// All-sound-off on one channel never stops a key another channel still owns,
/// and leaves that key ringing.
pub proof fn law_silence_spares_other_owners(k: KeyboardView, i: int, c: u8, d: u8)
    requires
        k.wf(),
        0 <= i < KEY_COUNT,
        c < CHANNELS,
        d < CHANNELS,
        c != d,
        k.owners(i) & bit(d) != 0,
    ensures
        !k.stopped_by(i, c),
        !k.silenced(c).damped(i),
        k.silenced(c).owners(i) & bit(d) != 0,
{
    let s = k.silenced(c);
    lemma_bit_facts(k.held[i], k.sustained[i], d, c);
    lemma_bit_facts(k.held[i], 0, d, c);
    lemma_bit_facts(k.sustained[i], 0, d, c);
    lemma_bit_facts(s.held[i], s.sustained[i], d, c);
}

/// After all-sound-off a channel owns nothing.
pub proof fn law_silence_clears_the_channel(k: KeyboardView, i: int, c: u8)
    requires
        k.wf(),
        0 <= i < KEY_COUNT,
        c < CHANNELS,
    ensures
        k.silenced(c).owners(i) & bit(c) == 0,
{
    let s = k.silenced(c);
    assert(s.held[i] == k.held[i] & !bit(c));
    assert(s.sustained[i] == k.sustained[i] & !bit(c));
    lemma_bit_facts(k.held[i], 0, c, c);
    lemma_bit_facts(k.sustained[i], 0, c, c);
    lemma_bit_facts(s.held[i], s.sustained[i], c, c);
}

/// After a reset every damper is down and no pedal is pressed.
pub proof fn law_reset_damps_everything(k: KeyboardView, i: int)
    requires
        k.wf(),
        0 <= i < KEY_COUNT,
    ensures
        k.cleared().damped(i),
        k.cleared().pedals == 0,
        coherent(k.cleared()),
{
    let z = k.cleared();
    lemma_bit_facts(0, 0, 0, 0);
    assert forall|j: int, c: u8|
        0 <= j < KEY_COUNT && c < CHANNELS && #[trigger] (z.pedals & bit(c)) == 0 implies #[trigger] (
        z.sustained[j] & bit(c)) == 0 by {
        assert(0u16 & (1u16 << c) == 0) by (bit_vector);
    }
}

/// Every keyboard operation keeps a channel without its pedal from sustaining
/// anything.
pub proof fn law_operations_keep_coherence(k: KeyboardView, i: int, c: u8, active: Seq<bool>)
    requires
        k.wf(),
        coherent(k),
        0 <= i < KEY_COUNT,
        c < CHANNELS,
        active.len() == KEY_COUNT,
    ensures
        coherent(k.struck(i, c)),
        coherent(k.released(i, c)),
        coherent(k.all_released(c)),
        coherent(k.pedal_pressed(c, active)),
        coherent(k.pedal_lifted(c)),
        coherent(k.silenced(c)),
{
    let a = k.struck(i, c);
    assert forall|j: int, d: u8|
        0 <= j < KEY_COUNT && d < CHANNELS && #[trigger] (a.pedals & bit(d)) == 0 implies #[trigger] (
        a.sustained[j] & bit(d)) == 0 by {
        assert(k.sustained[j] & bit(d) == 0);
        lemma_bit_facts(k.sustained[j], 0, d, c);
        if d == c {
            lemma_bit_facts(k.sustained[j], 0, d, d);
        }
    }
    let b = k.released(i, c);
    assert forall|j: int, d: u8|
        0 <= j < KEY_COUNT && d < CHANNELS && #[trigger] (b.pedals & bit(d)) == 0 implies #[trigger] (
        b.sustained[j] & bit(d)) == 0 by {
        assert(k.sustained[j] & bit(d) == 0);
        lemma_bit_facts(k.sustained[j], 0, d, c);
    }
    let e = k.all_released(c);
    assert forall|j: int, d: u8|
        0 <= j < KEY_COUNT && d < CHANNELS && #[trigger] (e.pedals & bit(d)) == 0 implies #[trigger] (
        e.sustained[j] & bit(d)) == 0 by {
        assert(k.sustained[j] & bit(d) == 0);
        lemma_bit_facts(k.sustained[j], 0, d, c);
    }
    let f = k.pedal_pressed(c, active);
    assert forall|j: int, d: u8|
        0 <= j < KEY_COUNT && d < CHANNELS && #[trigger] (f.pedals & bit(d)) == 0 implies #[trigger] (
        f.sustained[j] & bit(d)) == 0 by {
        lemma_bit_facts(k.pedals, 0, d, c);
        lemma_bit_facts(k.pedals, 0, c, c);
        assert(d != c);
        assert(k.sustained[j] & bit(d) == 0);
        lemma_bit_facts(k.sustained[j], 0, d, c);
    }
    let g = k.pedal_lifted(c);
    assert forall|j: int, d: u8|
        0 <= j < KEY_COUNT && d < CHANNELS && #[trigger] (g.pedals & bit(d)) == 0 implies #[trigger] (
        g.sustained[j] & bit(d)) == 0 by {
        lemma_bit_facts(k.pedals, 0, d, c);
        lemma_bit_facts(k.sustained[j], 0, d, c);
        if d != c {
            assert(k.sustained[j] & bit(d) == 0);
        }
    }
    let h = k.silenced(c);
    assert forall|j: int, d: u8|
        0 <= j < KEY_COUNT && d < CHANNELS && #[trigger] (h.pedals & bit(d)) == 0 implies #[trigger] (
        h.sustained[j] & bit(d)) == 0 by {
        assert(k.sustained[j] & bit(d) == 0);
        lemma_bit_facts(k.sustained[j], 0, d, c);
    }
}

} // verus!
