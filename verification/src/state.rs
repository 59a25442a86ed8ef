//! The processor's saved state: a tagged little-endian byte record.
//!
//! Layout of the current schema, 156 bytes: the tag `RFRH`, the schema
//! version as a 32-bit word, seven voicing controls as 64-bit words, the
//! pickup law byte and three zero bytes, seven electronics controls and four
//! mechanical controls. Real-valued controls travel as their IEEE-754 bit
//! patterns; what they mean, and whether they are in range, is decided where
//! they are turned back into numbers. Older schemas stay loadable: they carry
//! a prefix of these blocks, or, for the two-path schemas, a choice of
//! listening path and profile.
use vstd::prelude::*;
use crate::model::LAW_COUNT;

verus! {

/// Schema written by `save_state`.
pub const STATE_VERSION: u32 = 6;
/// Length of the current schema.
pub const STATE_BYTES: usize = 156;
/// Length of schema 5, still loadable.
pub const V5_STATE_BYTES: usize = 124;

/// Bit patterns of the seven voicing controls after the gain.
#[derive(Clone, Copy, Debug, PartialEq, Eq)]
pub struct VoicingBits {
    pub distance_mm: u64,
    pub alignment_mm: u64,
    pub hardness: u64,
    pub sustain: u64,
    pub bell: u64,
    pub dynamics: u64,
}

/// Bit patterns of the seven panel electronics controls.
#[derive(Clone, Copy, Debug, PartialEq, Eq)]
pub struct ElectronicsBits {
    pub bass_db: u64,
    pub treble_db: u64,
    pub vibrato: u64,
    pub speed_hz: u64,
    pub intensity: u64,
    pub preamp: u64,
    pub bass_boost: u64,
}

/// Bit patterns of the four mechanical controls.
#[derive(Clone, Copy, Debug, PartialEq, Eq)]
pub struct MechanicsBits {
    pub hammer: u64,
    pub tine: u64,
    pub pole: u64,
    pub twist: u64,
}

/// Every control of the settings, as saved.
#[derive(Clone, Copy, Debug, PartialEq, Eq)]
pub struct SettingsBits {
    pub gain: u64,
    pub law: u8,
    pub voicing: VoicingBits,
    pub electronics: ElectronicsBits,
    pub mechanics: MechanicsBits,
}

/// The pickup geometry a two-path schema was listening through.
#[derive(Clone, Copy, Debug, PartialEq, Eq)]
pub enum LegacyPath {
    /// The production law at the current 1.5 / 0.5 mm geometry.
    Current,
    /// The production law at the close 0.5 / 0.25 mm geometry.
    Close,
    /// The aperture law at 0.5 / 0.5 mm.
    CloseAperture,
}

/// The profile a two-path schema had selected.
#[derive(Clone, Copy, Debug, PartialEq, Eq)]
pub enum LegacyProfile {
    Original,
    CalibratedSustain,
    Calibrated,
}

/// What a loaded state says of the voicing.
#[derive(Clone, Copy, Debug, PartialEq, Eq)]
pub enum Voicing {
    /// Schema 1 saved only the gain.
    Defaults,
    /// Schemas 2 and 3: the listened path and the profile.
    Legacy { path: LegacyPath, profile: LegacyProfile },
    /// Schemas 4 onward: the law byte, naming one of the pickup laws, and the
    /// voicing controls.
    Saved { law: u8, fields: VoicingBits },
}

/// A state that passed the framing checks; blocks a schema predates are `None`.
#[derive(Clone, Copy, Debug, PartialEq, Eq)]
pub struct LoadedState {
    pub version: u32,
    pub gain: u64,
    pub voicing: Voicing,
    pub electronics: Option<ElectronicsBits>,
    pub mechanics: Option<MechanicsBits>,
}

pub open spec fn pow256(n: nat) -> nat
    decreases n,
{
    if n == 0 {
        1
    } else {
        256 * pow256((n - 1) as nat)
    }
}

/// The number a little-endian byte string spells.
pub open spec fn le_value(s: Seq<u8>) -> nat
    decreases s.len(),
{
    if s.len() == 0 {
        0
    } else {
        s[0] as nat + 256 * le_value(s.drop_first())
    }
}

/// The `n` little-endian bytes of `v`.
pub open spec fn le_bytes(v: nat, n: nat) -> Seq<u8>
    decreases n,
{
    if n == 0 {
        Seq::empty()
    } else {
        seq![(v % 256) as u8] + le_bytes(v / 256, (n - 1) as nat)
    }
}

pub open spec fn tag() -> Seq<u8> {
    seq![0x52u8, 0x46u8, 0x52u8, 0x48u8]
}

pub open spec fn word(v: u64) -> Seq<u8> {
    le_bytes(v as nat, 8)
}

/// The bytes `save_state` writes for `s`.
pub open spec fn encoded(s: SettingsBits) -> Seq<u8> {
    tag() + le_bytes(STATE_VERSION as nat, 4) + word(s.gain) + word(s.voicing.distance_mm) + word(
        s.voicing.alignment_mm,
    ) + word(s.voicing.hardness) + word(s.voicing.sustain) + word(s.voicing.bell) + word(
        s.voicing.dynamics,
    ) + seq![s.law, 0u8, 0u8, 0u8] + word(s.electronics.bass_db) + word(s.electronics.treble_db)
        + word(s.electronics.vibrato) + word(s.electronics.speed_hz) + word(s.electronics.intensity)
        + word(s.electronics.preamp) + word(s.electronics.bass_boost) + word(s.mechanics.hammer)
        + word(s.mechanics.tine) + word(s.mechanics.pole) + word(s.mechanics.twist)
}

/// The 64-bit word at byte `at`.
pub open spec fn word_at(b: Seq<u8>, at: int) -> u64 {
    le_value(b.subrange(at, at + 8)) as u64
}

pub open spec fn voicing_at(b: Seq<u8>) -> VoicingBits {
    VoicingBits {
        distance_mm: word_at(b, 16),
        alignment_mm: word_at(b, 24),
        hardness: word_at(b, 32),
        sustain: word_at(b, 40),
        bell: word_at(b, 48),
        dynamics: word_at(b, 56),
    }
}

pub open spec fn electronics_at(b: Seq<u8>) -> ElectronicsBits {
    ElectronicsBits {
        bass_db: word_at(b, 68),
        treble_db: word_at(b, 76),
        vibrato: word_at(b, 84),
        speed_hz: word_at(b, 92),
        intensity: word_at(b, 100),
        preamp: word_at(b, 108),
        bass_boost: word_at(b, 116),
    }
}

pub open spec fn mechanics_at(b: Seq<u8>) -> MechanicsBits {
    MechanicsBits {
        hammer: word_at(b, 124),
        tine: word_at(b, 132),
        pole: word_at(b, 140),
        twist: word_at(b, 148),
    }
}

pub open spec fn legacy_path(p: u8) -> LegacyPath {
    if p == 0 {
        LegacyPath::Current
    } else if p == 3 {
        LegacyPath::CloseAperture
    } else {
        LegacyPath::Close
    }
}

pub open spec fn legacy_profile(p: u8) -> LegacyProfile {
    if p == 0 {
        LegacyProfile::Original
    } else if p == 1 {
        LegacyProfile::CalibratedSustain
    } else {
        LegacyProfile::Calibrated
    }
}

/// The voicing a framed state of `version` and length `b.len()` carries, if
/// its schema's own checks pass.
pub open spec fn voicing_of(b: Seq<u8>, version: nat) -> Option<Voicing> {
    let n = b.len();
    if version == 1 && n == 16 {
        Some(Voicing::Defaults)
    } else if (version == 2 || version == 3) && n == 20 && b[16] < 4 && b[17] < 4 && b[18] <= 1
        && b[19] < 3 {
        if version == 2 && b[19] != 0 {
            None
        } else {
            Some(
                Voicing::Legacy {
                    path: legacy_path(if b[18] == 1 { b[17] } else { b[16] }),
                    profile: legacy_profile(b[19]),
                },
            )
        }
    } else if ((version == 4 && n == 68) || (version == 5 && n == V5_STATE_BYTES) || (version == 6
        && n == STATE_BYTES)) && b[64] < LAW_COUNT && b[65] == 0 && b[66] == 0 && b[67] == 0 {
        Some(Voicing::Saved { law: b[64], fields: voicing_at(b) })
    } else {
        None
    }
}

/// What `load_state` accepts: a known length, the tag, and a schema whose
/// checks pass.
pub open spec fn loaded(b: Seq<u8>) -> Option<LoadedState> {
    let n = b.len();
    if !(n == 16 || n == 20 || n == 68 || n == V5_STATE_BYTES || n == STATE_BYTES)
        || b.subrange(0, 4) != tag() {
        None
    } else {
        let version = le_value(b.subrange(4, 8));
        match voicing_of(b, version) {
            None => None,
            Some(voicing) => Some(
                LoadedState {
                    version: version as u32,
                    gain: word_at(b, 8),
                    voicing,
                    electronics: if version >= 5 {
                        Some(electronics_at(b))
                    } else {
                        None
                    },
                    mechanics: if version >= 6 {
                        Some(mechanics_at(b))
                    } else {
                        None
                    },
                },
            ),
        }
    }
}

proof fn lemma_le_value_bound(s: Seq<u8>)
    ensures
        le_value(s) < pow256(s.len()),
    decreases s.len(),
{
    if s.len() > 0 {
        lemma_le_value_bound(s.drop_first());
    }
}

proof fn lemma_le_bytes_len(v: nat, n: nat)
    ensures
        le_bytes(v, n).len() == n,
    decreases n,
{
    if n > 0 {
        lemma_le_bytes_len(v / 256, (n - 1) as nat);
    }
}

proof fn lemma_le_roundtrip(v: nat, n: nat)
    requires
        v < pow256(n),
    ensures
        le_value(le_bytes(v, n)) == v,
    decreases n,
{
    if n > 0 {
        lemma_le_roundtrip(v / 256, (n - 1) as nat);
        lemma_le_bytes_len(v / 256, (n - 1) as nat);
        assert(le_bytes(v, n).drop_first() =~= le_bytes(v / 256, (n - 1) as nat));
    }
}

proof fn lemma_pow256_word()
    ensures
        pow256(4) == 0x1_0000_0000nat,
        pow256(8) == 0x1_0000_0000_0000_0000nat,
{
    reveal_with_fuel(pow256, 9);
}

/// Reads `n` little-endian bytes starting at `at`.
fn read_le(b: &[u8], at: usize, n: usize) -> (r: u64)
    requires
        n <= 8,
        at + n <= b@.len(),
    ensures
        r == le_value(b@.subrange(at as int, at + n)),
{
    let len = b.len();
    let mut acc: u64 = 0;
    let mut k: usize = n;
    proof {
        assert(b@.subrange(at + n, at + n) =~= Seq::<u8>::empty());
    }
    while k > 0
        invariant
            k <= n <= 8,
            at + n <= b@.len(),
            len == b@.len(),
            acc == le_value(b@.subrange(at + k, at + n)),
        decreases k,
    {
        let ghost tail = b@.subrange(at + k, at + n);
        let ghost longer = b@.subrange(at + k - 1, at + n);
        proof {
            assert(longer.drop_first() =~= tail);
            lemma_le_value_bound(tail);
            assert(tail.len() <= 7);
            lemma_pow_mono((tail.len()) as nat, 7);
            lemma_pow256_seven();
        }
        let byte = b[at + (k - 1)];
        acc = acc * 256 + byte as u64;
        k -= 1;
    }
    acc
}

proof fn lemma_pow256_seven()
    ensures
        pow256(7) == 0x100_0000_0000_0000nat,
{
    reveal_with_fuel(pow256, 8);
}

proof fn lemma_pow_mono(a: nat, b: nat)
    requires
        a <= b,
    ensures
        pow256(a) <= pow256(b),
    decreases b,
{
    if a < b {
        lemma_pow_mono(a, (b - 1) as nat);
    }
}

/// Appends the `n` little-endian bytes of `v`.
fn push_le(out: &mut Vec<u8>, v: u64, n: usize)
    ensures
        final(out)@ == old(out)@ + le_bytes(v as nat, n as nat),
{
    let mut cur: u64 = v;
    let mut k: usize = 0;
    proof {
        assert(out@ + le_bytes(v as nat, n as nat) =~= old(out)@ + le_bytes(v as nat, n as nat));
    }
    while k < n
        invariant
            k <= n,
            out@ + le_bytes(cur as nat, (n - k) as nat) == old(out)@ + le_bytes(v as nat, n as nat),
        decreases n - k,
    {
        let ghost before = out@;
        let ghost rest = le_bytes(cur as nat, (n - k) as nat);
        out.push((cur % 256) as u8);
        proof {
            assert(rest == seq![(cur as nat % 256) as u8] + le_bytes(cur as nat / 256, (n - k - 1) as nat));
            assert(out@ + le_bytes((cur / 256) as nat, (n - k - 1) as nat) =~= before + rest);
        }
        cur = cur / 256;
        k += 1;
    }
    proof {
        assert(le_bytes(cur as nat, 0) =~= Seq::<u8>::empty());
        assert(out@ + Seq::<u8>::empty() =~= out@);
    }
}

/// The saved bytes of `s`, `STATE_BYTES` of them.
pub fn encode_state(s: &SettingsBits) -> (out: Vec<u8>)
    ensures
        out@ == encoded(*s),
        out@.len() == STATE_BYTES,
{
    let mut out: Vec<u8> = Vec::new();
    out.push(0x52u8);
    out.push(0x46u8);
    out.push(0x52u8);
    out.push(0x48u8);
    assert(out@ =~= tag());
    push_le(&mut out, STATE_VERSION as u64, 4);
    push_le(&mut out, s.gain, 8);
    push_le(&mut out, s.voicing.distance_mm, 8);
    push_le(&mut out, s.voicing.alignment_mm, 8);
    push_le(&mut out, s.voicing.hardness, 8);
    push_le(&mut out, s.voicing.sustain, 8);
    push_le(&mut out, s.voicing.bell, 8);
    push_le(&mut out, s.voicing.dynamics, 8);
    let ghost mid = out@;
    out.push(s.law);
    out.push(0u8);
    out.push(0u8);
    out.push(0u8);
    assert(out@ =~= mid + seq![s.law, 0u8, 0u8, 0u8]);
    push_le(&mut out, s.electronics.bass_db, 8);
    push_le(&mut out, s.electronics.treble_db, 8);
    push_le(&mut out, s.electronics.vibrato, 8);
    push_le(&mut out, s.electronics.speed_hz, 8);
    push_le(&mut out, s.electronics.intensity, 8);
    push_le(&mut out, s.electronics.preamp, 8);
    push_le(&mut out, s.electronics.bass_boost, 8);
    push_le(&mut out, s.mechanics.hammer, 8);
    push_le(&mut out, s.mechanics.tine, 8);
    push_le(&mut out, s.mechanics.pole, 8);
    push_le(&mut out, s.mechanics.twist, 8);
    proof {
        lemma_encoded_len(*s);
    }
    out
}

proof fn lemma_encoded_len(s: SettingsBits)
    ensures
        encoded(s).len() == STATE_BYTES,
{
    lemma_le_bytes_len(STATE_VERSION as nat, 4);
    assert forall|v: u64| #[trigger] word(v).len() == 8 by {
        lemma_le_bytes_len(v as nat, 8);
    }
    assert(word(s.gain).len() == 8);
    assert(word(s.voicing.distance_mm).len() == 8);
    assert(word(s.voicing.alignment_mm).len() == 8);
    assert(word(s.voicing.hardness).len() == 8);
    assert(word(s.voicing.sustain).len() == 8);
    assert(word(s.voicing.bell).len() == 8);
    assert(word(s.voicing.dynamics).len() == 8);
    assert(word(s.electronics.bass_db).len() == 8);
    assert(word(s.electronics.treble_db).len() == 8);
    assert(word(s.electronics.vibrato).len() == 8);
    assert(word(s.electronics.speed_hz).len() == 8);
    assert(word(s.electronics.intensity).len() == 8);
    assert(word(s.electronics.preamp).len() == 8);
    assert(word(s.electronics.bass_boost).len() == 8);
    assert(word(s.mechanics.hammer).len() == 8);
    assert(word(s.mechanics.tine).len() == 8);
    assert(word(s.mechanics.pole).len() == 8);
    assert(word(s.mechanics.twist).len() == 8);
}

/// Writes the saved bytes of `s` to the front of `destination` and answers
/// their count; a destination shorter than `STATE_BYTES` is left untouched.
pub fn save_state(s: &SettingsBits, destination: &mut [u8]) -> (r: Option<usize>)
    ensures
        old(destination)@.len() < STATE_BYTES ==> r is None && final(destination)@ == old(
            destination,
        )@,
        old(destination)@.len() >= STATE_BYTES ==> r == Some(STATE_BYTES) && final(destination)@
            == encoded(*s) + old(destination)@.skip(STATE_BYTES as int),
{
    if destination.len() < STATE_BYTES {
        return None;
    }
    let bytes = encode_state(s);
    let mut i: usize = 0;
    while i < STATE_BYTES
        invariant
            i <= STATE_BYTES,
            bytes@.len() == STATE_BYTES,
            destination@.len() == old(destination)@.len(),
            old(destination)@.len() >= STATE_BYTES,
            forall|k: int| 0 <= k < i ==> #[trigger] destination@[k] == bytes@[k],
            forall|k: int| i <= k < destination@.len() ==> #[trigger] destination@[k] == old(destination)@[k],
        decreases STATE_BYTES - i,
    {
        destination[i] = bytes[i];
        i += 1;
    }
    assert(destination@ =~= encoded(*s) + old(destination)@.skip(STATE_BYTES as int));
    Some(STATE_BYTES)
}

fn word_at_exec(b: &[u8], at: usize) -> (r: u64)
    requires
        at + 8 <= b@.len(),
    ensures
        r == word_at(b@, at as int),
{
    let r = read_le(b, at, 8);
    proof {
        lemma_le_value_bound(b@.subrange(at as int, at + 8));
        lemma_pow256_word();
    }
    r
}

/// Reads a saved state: `None` for an unknown length, a missing tag, an
/// unknown schema, or a schema's own field check failing.
pub fn load_state(b: &[u8]) -> (r: Option<LoadedState>)
    ensures
        r == loaded(b@),
{
    let n = b.len();
    if !(n == 16 || n == 20 || n == 68 || n == V5_STATE_BYTES || n == STATE_BYTES) {
        return None;
    }
    if !(b[0] == 0x52u8 && b[1] == 0x46u8 && b[2] == 0x52u8 && b[3] == 0x48u8) {
        proof {
            if b@.subrange(0, 4) == tag() {
                assert(b@.subrange(0, 4)[0] == b@[0]);
                assert(b@.subrange(0, 4)[1] == b@[1]);
                assert(b@.subrange(0, 4)[2] == b@[2]);
                assert(b@.subrange(0, 4)[3] == b@[3]);
            }
        }
        return None;
    }
    assert(b@.subrange(0, 4) =~= tag());
    let version = read_le(b, 4, 4);
    proof {
        lemma_le_value_bound(b@.subrange(4, 8));
        lemma_pow256_word();
    }
    let gain = word_at_exec(b, 8);
    let voicing = if version == 1 && n == 16 {
        Voicing::Defaults
    } else if (version == 2 || version == 3) && n == 20 && b[16] < 4 && b[17] < 4 && b[18] <= 1
        && b[19] < 3 {
        if version == 2 && b[19] != 0 {
            return None;
        }
        let p = if b[18] == 1 {
            b[17]
        } else {
            b[16]
        };
        let path = if p == 0 {
            LegacyPath::Current
        } else if p == 3 {
            LegacyPath::CloseAperture
        } else {
            LegacyPath::Close
        };
        let profile = if b[19] == 0 {
            LegacyProfile::Original
        } else if b[19] == 1 {
            LegacyProfile::CalibratedSustain
        } else {
            LegacyProfile::Calibrated
        };
        Voicing::Legacy { path, profile }
    } else if ((version == 4 && n == 68) || (version == 5 && n == V5_STATE_BYTES) || (version == 6
        && n == STATE_BYTES)) && b[64] < LAW_COUNT && b[65] == 0 && b[66] == 0 && b[67] == 0 {
        let fields = VoicingBits {
            distance_mm: word_at_exec(b, 16),
            alignment_mm: word_at_exec(b, 24),
            hardness: word_at_exec(b, 32),
            sustain: word_at_exec(b, 40),
            bell: word_at_exec(b, 48),
            dynamics: word_at_exec(b, 56),
        };
        Voicing::Saved { law: b[64], fields }
    } else {
        return None;
    };
    let electronics = if version >= 5 {
        Some(
            ElectronicsBits {
                bass_db: word_at_exec(b, 68),
                treble_db: word_at_exec(b, 76),
                vibrato: word_at_exec(b, 84),
                speed_hz: word_at_exec(b, 92),
                intensity: word_at_exec(b, 100),
                preamp: word_at_exec(b, 108),
                bass_boost: word_at_exec(b, 116),
            },
        )
    } else {
        None
    };
    let mechanics = if version >= 6 {
        Some(
            MechanicsBits {
                hammer: word_at_exec(b, 124),
                tine: word_at_exec(b, 132),
                pole: word_at_exec(b, 140),
                twist: word_at_exec(b, 148),
            },
        )
    } else {
        None
    };
    Some(LoadedState { version: version as u32, gain, voicing, electronics, mechanics })
}


/// The state record `save_state` writes for some settings, of the current
/// schema.
pub open spec fn current_state(s: SettingsBits) -> LoadedState {
    LoadedState {
        version: STATE_VERSION,
        gain: s.gain,
        voicing: Voicing::Saved { law: s.law, fields: s.voicing },
        electronics: Some(s.electronics),
        mechanics: Some(s.mechanics),
    }
}

proof fn lemma_word_back(e: Seq<u8>, at: int, v: u64)
    requires
        0 <= at,
        at + 8 <= e.len(),
        e.subrange(at, at + 8) == word(v),
    ensures
        word_at(e, at) == v,
{
    lemma_pow256_word();
    lemma_le_roundtrip(v as nat, 8);
}

/// Whatever settings are saved with a known pickup law load back exactly:
/// every control, the law byte and the schema version.
pub proof fn law_saved_state_loads_back(s: SettingsBits)
    requires
        s.law < LAW_COUNT,
    ensures
        loaded(encoded(s)) == Some(current_state(s)),
{
    let e = encoded(s);
    lemma_encoded_len(s);
    lemma_le_bytes_len(STATE_VERSION as nat, 4);
    assert forall|v: u64| #[trigger] word(v).len() == 8 by {
        lemma_le_bytes_len(v as nat, 8);
    }
    lemma_pow256_word();
    assert(e.subrange(0, 4) =~= tag());
    assert(e.subrange(4, 8) =~= le_bytes(STATE_VERSION as nat, 4));
    lemma_le_roundtrip(STATE_VERSION as nat, 4);
    assert(e.subrange(8, 16) =~= word(s.gain));
    lemma_word_back(e, 8, s.gain);
    assert(e.subrange(16, 24) =~= word(s.voicing.distance_mm));
    lemma_word_back(e, 16, s.voicing.distance_mm);
    assert(e.subrange(24, 32) =~= word(s.voicing.alignment_mm));
    lemma_word_back(e, 24, s.voicing.alignment_mm);
    assert(e.subrange(32, 40) =~= word(s.voicing.hardness));
    lemma_word_back(e, 32, s.voicing.hardness);
    assert(e.subrange(40, 48) =~= word(s.voicing.sustain));
    lemma_word_back(e, 40, s.voicing.sustain);
    assert(e.subrange(48, 56) =~= word(s.voicing.bell));
    lemma_word_back(e, 48, s.voicing.bell);
    assert(e.subrange(56, 64) =~= word(s.voicing.dynamics));
    lemma_word_back(e, 56, s.voicing.dynamics);
    assert(e[64] == s.law && e[65] == 0 && e[66] == 0 && e[67] == 0);
    assert(e.subrange(68, 76) =~= word(s.electronics.bass_db));
    lemma_word_back(e, 68, s.electronics.bass_db);
    assert(e.subrange(76, 84) =~= word(s.electronics.treble_db));
    lemma_word_back(e, 76, s.electronics.treble_db);
    assert(e.subrange(84, 92) =~= word(s.electronics.vibrato));
    lemma_word_back(e, 84, s.electronics.vibrato);
    assert(e.subrange(92, 100) =~= word(s.electronics.speed_hz));
    lemma_word_back(e, 92, s.electronics.speed_hz);
    assert(e.subrange(100, 108) =~= word(s.electronics.intensity));
    lemma_word_back(e, 100, s.electronics.intensity);
    assert(e.subrange(108, 116) =~= word(s.electronics.preamp));
    lemma_word_back(e, 108, s.electronics.preamp);
    assert(e.subrange(116, 124) =~= word(s.electronics.bass_boost));
    lemma_word_back(e, 116, s.electronics.bass_boost);
    assert(e.subrange(124, 132) =~= word(s.mechanics.hammer));
    lemma_word_back(e, 124, s.mechanics.hammer);
    assert(e.subrange(132, 140) =~= word(s.mechanics.tine));
    lemma_word_back(e, 132, s.mechanics.tine);
    assert(e.subrange(140, 148) =~= word(s.mechanics.pole));
    lemma_word_back(e, 140, s.mechanics.pole);
    assert(e.subrange(148, 156) =~= word(s.mechanics.twist));
    lemma_word_back(e, 148, s.mechanics.twist);
}

/// Nothing without the tag loads.
pub proof fn law_untagged_state_is_refused(b: Seq<u8>)
    requires
        b.len() >= 4,
        b.subrange(0, 4) != tag(),
    ensures
        loaded(b) is None,
{
}

/// A 20-byte state, of the two-path schemas, loads the profile its last byte
/// names (0 the original, 1 the calibrated sustain, 2 the calibrated
/// profile) and the path its listening byte picks: the second path byte when
/// that byte is 1, else the first, where path 0 is the current geometry, 3
/// the close aperture and 1 or 2 the close geometry.
pub proof fn law_two_path_states_keep_their_choices(b: Seq<u8>)
    requires
        b.len() == 20,
        loaded(b) is Some,
    ensures
        loaded(b) matches Some(s) && s.voicing matches Voicing::Legacy { path, profile } && {
            &&& b[19] == 0 ==> profile == LegacyProfile::Original
            &&& b[19] == 1 ==> profile == LegacyProfile::CalibratedSustain
            &&& b[19] == 2 ==> profile == LegacyProfile::Calibrated
            &&& b[19] <= 2
            &&& {
                let listened = if b[18] == 1 { b[17] } else { b[16] };
                &&& listened == 0 ==> path == LegacyPath::Current
                &&& listened == 3 ==> path == LegacyPath::CloseAperture
                &&& (listened == 1 || listened == 2) ==> path == LegacyPath::Close
            }
        },
{
}

} // verus!
