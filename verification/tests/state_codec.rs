//! The saved-state codec: the current schema round trip and the older ones.
use rf_tines::state::{
    encode_state, load_state, save_state, ElectronicsBits, LegacyPath, LegacyProfile,
    LoadedState, MechanicsBits, SettingsBits, Voicing, VoicingBits, STATE_BYTES, STATE_VERSION,
    V5_STATE_BYTES,
};

fn bits(v: f64) -> u64 {
    v.to_bits()
}

fn settings() -> SettingsBits {
    SettingsBits {
        gain: bits(0.1),
        law: 2,
        voicing: VoicingBits {
            distance_mm: bits(0.6),
            alignment_mm: bits(0.45),
            hardness: bits(0.45),
            sustain: bits(0.5),
            bell: bits(0.26),
            dynamics: bits(0.5),
        },
        electronics: ElectronicsBits {
            bass_db: bits(6.0),
            treble_db: bits(-3.0),
            vibrato: bits(1.0),
            speed_hz: bits(7.5),
            intensity: bits(0.8),
            preamp: bits(0.0),
            bass_boost: bits(0.4),
        },
        mechanics: MechanicsBits {
            hammer: bits(0.46),
            tine: bits(0.52),
            pole: bits(0.62),
            twist: bits(0.18),
        },
    }
}

fn framed(version: u32, len: usize) -> Vec<u8> {
    let mut b = vec![0u8; len];
    b[..4].copy_from_slice(b"RFRH");
    b[4..8].copy_from_slice(&version.to_le_bytes());
    b
}

#[test]
fn the_current_schema_lays_out_every_field() {
    let s = settings();
    let b = encode_state(&s);
    assert_eq!(b.len(), STATE_BYTES);
    assert_eq!(&b[..4], b"RFRH");
    assert_eq!(&b[4..8], &STATE_VERSION.to_le_bytes());
    assert_eq!(&b[8..16], &0.1f64.to_le_bytes());
    assert_eq!(&b[16..24], &0.6f64.to_le_bytes());
    assert_eq!(&b[64..68], &[2, 0, 0, 0]);
    assert_eq!(&b[68..76], &6.0f64.to_le_bytes());
    assert_eq!(&b[116..124], &0.4f64.to_le_bytes());
    assert_eq!(&b[148..156], &0.18f64.to_le_bytes());
}

#[test]
fn electronic_fields_roundtrip_and_invalid_state_is_atomic() {
    let s = settings();
    let mut destination = [0u8; STATE_BYTES];
    assert_eq!(save_state(&s, &mut destination), Some(STATE_BYTES));
    assert_eq!(
        load_state(&destination),
        Some(LoadedState {
            version: STATE_VERSION,
            gain: s.gain,
            voicing: Voicing::Saved {
                law: 2,
                fields: s.voicing
            },
            electronics: Some(s.electronics),
            mechanics: Some(s.mechanics),
        })
    );
    for (index, value) in [(3, 0), (64, 7), (66, 2)] {
        let mut bad = destination;
        bad[index] = value;
        assert_eq!(load_state(&bad), None, "{index}");
    }
}

#[test]
fn a_short_destination_is_left_untouched() {
    let mut destination = [42u8; STATE_BYTES - 1];
    assert_eq!(save_state(&settings(), &mut destination), None);
    assert_eq!(destination, [42u8; STATE_BYTES - 1]);
    let mut roomy = [7u8; STATE_BYTES + 4];
    assert_eq!(save_state(&settings(), &mut roomy), Some(STATE_BYTES));
    assert_eq!(&roomy[..STATE_BYTES], encode_state(&settings()).as_slice());
    assert_eq!(&roomy[STATE_BYTES..], &[7, 7, 7, 7]);
}

#[test]
fn the_first_schema_carried_only_the_gain() {
    let mut legacy = framed(1, 16);
    legacy[8..].copy_from_slice(&0.7f64.to_le_bytes());
    assert_eq!(
        load_state(&legacy),
        Some(LoadedState {
            version: 1,
            gain: bits(0.7),
            voicing: Voicing::Defaults,
            electronics: None,
            mechanics: None,
        })
    );
}

#[test]
fn older_state_schemas_map_onto_the_voicing_they_were_listening_to() {
    // Schema 3: A = Current, B = Close Aperture, listening to B, Calibrated profile.
    let mut v3 = framed(3, 20);
    v3[8..16].copy_from_slice(&0.25f64.to_le_bytes());
    v3[16..20].copy_from_slice(&[0, 3, 1, 2]);
    let loaded = load_state(&v3).unwrap();
    assert_eq!(loaded.gain, bits(0.25));
    assert_eq!(
        loaded.voicing,
        Voicing::Legacy {
            path: LegacyPath::CloseAperture,
            profile: LegacyProfile::Calibrated
        }
    );
    // Listening to A instead.
    v3[18] = 0;
    assert_eq!(
        load_state(&v3).unwrap().voicing,
        Voicing::Legacy {
            path: LegacyPath::Current,
            profile: LegacyProfile::Calibrated
        }
    );
    // Schema 2 required the reserved byte to be zero; the point-pole path
    // maps to the close production geometry.
    let mut v2 = v3.clone();
    v2[4..8].copy_from_slice(&2u32.to_le_bytes());
    assert_eq!(load_state(&v2), None);
    v2[19] = 0;
    v2[16] = 2;
    assert_eq!(
        load_state(&v2).unwrap().voicing,
        Voicing::Legacy {
            path: LegacyPath::Close,
            profile: LegacyProfile::Original
        }
    );
    v2[17] = 4;
    assert_eq!(load_state(&v2), None);
    // Schema 4 refuses every corrupted frame field, the law byte included.
    let mut v4 = framed(4, 68);
    v4[8..68].copy_from_slice(&encode_state(&settings())[8..68]);
    v4[64] = 1;
    assert!(load_state(&v4).is_some());
    for (index, value) in [(0, 0), (4, 9), (64, 3), (65, 1), (67, 9)] {
        let mut malformed = v4.clone();
        malformed[index] = value;
        assert_eq!(load_state(&malformed), None, "{index}");
    }
    let mut destination = [42u8; STATE_BYTES - 1];
    assert_eq!(save_state(&settings(), &mut destination), None);
    assert_eq!(destination, [42u8; STATE_BYTES - 1]);
}

#[test]
fn saved_schemas_read_the_law_and_the_blocks_they_had() {
    let current = encode_state(&settings());
    let mut v4 = framed(4, 68);
    v4[8..68].copy_from_slice(&current[8..68]);
    let loaded = load_state(&v4).unwrap();
    assert_eq!(loaded.electronics, None);
    assert_eq!(loaded.mechanics, None);
    assert_eq!(
        loaded.voicing,
        Voicing::Saved {
            law: 2,
            fields: settings().voicing
        }
    );
    let mut v5 = framed(5, V5_STATE_BYTES);
    v5[8..V5_STATE_BYTES].copy_from_slice(&current[8..V5_STATE_BYTES]);
    let loaded = load_state(&v5).unwrap();
    assert_eq!(loaded.electronics, Some(settings().electronics));
    assert_eq!(loaded.mechanics, None);
}

#[test]
fn corrupted_frames_are_refused() {
    let good = encode_state(&settings());
    for (index, value) in [(0, 0), (4, 9), (64, 3), (65, 1), (66, 1), (67, 9)] {
        let mut malformed = good.clone();
        malformed[index] = value;
        assert_eq!(load_state(&malformed), None, "{index}");
    }
    assert_eq!(load_state(&good[..STATE_BYTES - 1]), None);
    assert_eq!(load_state(&[]), None);
    let mut wrong_length = framed(6, V5_STATE_BYTES);
    wrong_length[64] = 1;
    assert_eq!(load_state(&wrong_length), None);
    assert_eq!(load_state(&framed(1, 20)), None);
}
