//! The program library's decisions, the editor's fields, the pickup law
//! names and the packaging paths.
use rf_tines::editor::{
    edit_target, editor_field, editor_page, find_field, is_choice, page_field, parse_u8,
    EditTarget, EditorValue, EDITOR_PAGES, FIELD_COUNT,
};
use rf_tines::model::{law_name, pickup_law_of, Law, ModelError, PickupLaw, LAW_COUNT};
use rf_tines::package::{build, package_layout, workspace_root};
use rf_tines::program::{
    accepts_header, contains_id, draft_base, draft_id, draft_source, factory_program, is_factory, envelope, envelope_matches, may_install,
    prepare, within_transfer, write_transfer, DocumentHeader, DraftBase, MAX_PROGRAMS,
    MAX_TRANSFER, PLUGIN_ID, FACTORY_PROGRAMS,
};

fn library(count: usize) -> Vec<String> {
    (1..=count).map(|index| format!("lab-{index}")).collect()
}

fn header(id: &str) -> DocumentHeader {
    DocumentHeader {
        id: id.to_string(),
        name: "Warm Stage".to_string(),
        plugin_id: PLUGIN_ID.to_string(),
        plugin_state_version: 6,
        payload_version: 1,
    }
}

#[test]
fn a_full_library_can_still_open_a_temporary_export_draft() {
    assert_eq!(draft_id(&Vec::new()), Some("lab-1".to_string()));
    let full = library(MAX_PROGRAMS);
    let draft = draft_id(&full).unwrap();
    assert_eq!(draft, "lab-9");
    assert!(!may_install(&full, &draft));
    assert!(draft_source(Some("unknown"), &full).is_none());
}

#[test]
fn drafts_open_only_from_known_programs() {
    let saved = vec!["warm".to_string()];
    assert!(matches!(draft_source(None, &saved), Some(DraftBase::Current)));
    assert!(matches!(
        draft_source(Some("custom.warm"), &saved),
        Some(DraftBase::Saved(id)) if id == "warm"
    ));
    assert!(draft_source(Some("custom.cold"), &saved).is_none());
    assert!(matches!(
        draft_source(Some("portable-bark-1972"), &saved),
        Some(DraftBase::Factory(id)) if id == "portable-bark-1972"
    ));
    assert!(draft_source(Some("research-direct"), &saved).is_some());
    assert!(draft_source(Some("warm"), &saved).is_none());
    assert_eq!(FACTORY_PROGRAMS, 18);
    assert_eq!(factory_program(0), Some("research-direct"));
    assert_eq!(factory_program(17), Some("tine-bass-1960"));
    assert_eq!(factory_program(18), None);
    assert!(is_factory("felt-1966") && !is_factory("felt"));
}

#[test]
fn the_editor_groups_its_fields_on_five_pages() {
    let ids: Vec<&str> = (0..EDITOR_PAGES).map(|k| editor_page(k).unwrap().id).collect();
    assert_eq!(ids, ["instrument", "hammer", "resonator", "pickup", "setup"]);
    assert_eq!(editor_page(2).unwrap().label, "Tine & Tonebar");
    assert!(editor_page(EDITOR_PAGES).is_none());
    let instrument: Vec<&str> = (0..).map_while(|k| page_field(0, k)).collect();
    assert_eq!(
        instrument,
        ["gain", "preamp", "bass-boost", "bass", "treble", "vibrato", "speed", "intensity"]
    );
    let pickup: Vec<&str> = (0..).map_while(|k| page_field(3, k)).collect();
    assert_eq!(pickup, ["distance", "alignment", "law"]);
    assert_eq!(page_field(4, 0), Some("dynamics"));
    assert_eq!(page_field(4, 1), None);
    assert_eq!(page_field(5, 0), None);
    for page in 0..EDITOR_PAGES {
        for id in (0..).map_while(|k| page_field(page, k)) {
            assert!(find_field(id).is_some(), "{id}");
        }
    }
}

#[test]
fn the_first_free_draft_identity_is_taken() {
    let existing = vec!["lab-1".to_string(), "lab-3".to_string()];
    assert_eq!(draft_id(&existing), Some("lab-2".to_string()));
    assert_eq!(draft_id(&library(9)), None);
}

#[test]
fn installs_replace_or_fill_below_the_limit() {
    let full = library(MAX_PROGRAMS);
    assert!(may_install(&full, &"lab-3".to_string()));
    assert!(!may_install(&full, &"overflow".to_string()));
    assert!(may_install(&library(MAX_PROGRAMS - 1), &"overflow".to_string()));
    assert!(contains_id(&full, &"lab-8".to_string()));
    assert!(!contains_id(&full, &"lab-9".to_string()));
}

#[test]
fn prepared_programs_are_enveloped_under_their_id() {
    let e = prepare(&header("warm"), true, true).unwrap();
    assert_eq!(e.schema_version, 1);
    assert_eq!(e.storage_path, "programs/warm.rackforge-program.json");
    assert_eq!(e.preview_sound_id, "custom.warm");
    assert!(envelope_matches(&e, "warm"));
    assert!(!envelope_matches(&e, "cold"));
    let plain = envelope("cold");
    assert_eq!(plain.storage_path, "programs/cold.rackforge-program.json");
}

#[test]
fn malformed_program_documents_are_refused() {
    assert!(prepare(&header("warm"), false, true).is_none());
    assert!(prepare(&header("warm"), true, false).is_none());
    let mut foreign = header("warm");
    foreign.plugin_id = "org.example.other".to_string();
    assert!(!accepts_header(&foreign));
    assert!(prepare(&foreign, true, true).is_none());
    let mut legacy = header("warm");
    legacy.plugin_state_version = 4;
    assert!(accepts_header(&legacy));
    legacy.plugin_state_version = 5;
    assert!(!accepts_header(&legacy));
    let mut payload = header("warm");
    payload.payload_version = 2;
    assert!(!accepts_header(&payload));
    let long = "x".repeat(64);
    assert!(accepts_header(&header(&long)));
    assert!(!accepts_header(&header(&"x".repeat(65))));
    let mut named = header("warm");
    named.name = "é".repeat(33);
    assert!(!accepts_header(&named));
    named.name = "é".repeat(32);
    assert!(accepts_header(&named));
}

#[test]
fn transfers_fit_the_buffer_or_leave_it_alone() {
    assert!(within_transfer(MAX_TRANSFER));
    assert!(!within_transfer(MAX_TRANSFER + 1));
    let mut destination = [9u8; 6];
    assert_eq!(write_transfer(&[1, 2, 3], &mut destination), Some(3));
    assert_eq!(destination, [1, 2, 3, 9, 9, 9]);
    let mut small = [9u8; 2];
    assert_eq!(write_transfer(&[1, 2, 3], &mut small), None);
    assert_eq!(small, [9, 9]);
    let huge = vec![0u8; MAX_TRANSFER + 1];
    let mut room = vec![5u8; MAX_TRANSFER + 2];
    assert_eq!(write_transfer(&huge, &mut room), None);
    assert!(room.iter().all(|b| *b == 5));
}

#[test]
fn drafts_start_from_current_saved_or_factory_settings() {
    assert!(matches!(draft_base(None), DraftBase::Current));
    assert!(matches!(draft_base(Some("custom.warm")), DraftBase::Saved(id) if id == "warm"));
    assert!(matches!(draft_base(Some("custom.")), DraftBase::Saved(id) if id.is_empty()));
    assert!(matches!(
        draft_base(Some("portable-bark-1972")),
        DraftBase::Factory(id) if id == "portable-bark-1972"
    ));
    assert!(matches!(draft_base(Some("custom")), DraftBase::Factory(id) if id == "custom"));
}

#[test]
fn the_editor_lists_its_fields_in_order() {
    let first = editor_field(0).unwrap();
    assert_eq!(first.id, "distance");
    assert_eq!(first.index, 2);
    assert_eq!((first.minimum, first.maximum, first.scale), (50, 300, 100));
    let gain = find_field("gain").unwrap();
    assert_eq!(gain.index, 0);
    assert_eq!(gain.scale, 1_000_000);
    assert_eq!(editor_field(FIELD_COUNT - 1).unwrap().id, "twist");
    assert!(editor_field(FIELD_COUNT).is_none());
    assert!(find_field("hammer-mass").is_none());
    assert!(is_choice("law") && is_choice("preamp") && is_choice("vibrato"));
    assert!(!is_choice("gain"));
}

#[test]
fn choice_text_parses_as_a_decimal_byte() {
    assert_eq!(parse_u8("0"), Some(0));
    assert_eq!(parse_u8("255"), Some(255));
    assert_eq!(parse_u8("+7"), Some(7));
    assert_eq!(parse_u8("007"), Some(7));
    assert_eq!(parse_u8("256"), None);
    assert_eq!(parse_u8("1000"), None);
    assert_eq!(parse_u8(""), None);
    assert_eq!(parse_u8("+"), None);
    assert_eq!(parse_u8("-1"), None);
    assert_eq!(parse_u8(" 1"), None);
    assert_eq!(parse_u8("1.0"), None);
}

#[test]
fn edits_become_choice_indices_or_scaled_steps() {
    assert_eq!(
        edit_target("law", &EditorValue::Choice("2".to_string())),
        Some(EditTarget::Choice {
            index: 1,
            choice: 2
        })
    );
    assert_eq!(
        edit_target("distance", &EditorValue::Integer(75)),
        Some(EditTarget::Scaled {
            index: 2,
            steps: 75,
            scale: 100
        })
    );
    assert_eq!(
        edit_target("alignment", &EditorValue::Integer(-100)),
        Some(EditTarget::Scaled {
            index: 3,
            steps: -100,
            scale: 100
        })
    );
    assert_eq!(edit_target("distance", &EditorValue::Integer(25)), None);
    assert_eq!(edit_target("distance", &EditorValue::Integer(301)), None);
    assert_eq!(edit_target("law", &EditorValue::Integer(1)), None);
    assert_eq!(edit_target("gain", &EditorValue::Choice("1".to_string())), None);
    assert_eq!(edit_target("law", &EditorValue::Choice("x".to_string())), None);
    assert_eq!(edit_target("unknown", &EditorValue::Integer(1)), None);
}

#[test]
fn pickup_laws_and_their_names() {
    assert_eq!(pickup_law_of(0), PickupLaw::Production);
    assert_eq!(pickup_law_of(1), PickupLaw::Aperture);
    assert_eq!(pickup_law_of(2), PickupLaw::RegisterAperture);
    assert_eq!(pickup_law_of(3), PickupLaw::Production);
    assert_eq!(law_name(2), Some("Register Aperture"));
    assert_eq!(law_name(LAW_COUNT), None);
    assert_eq!(Law::Production.name(), "production_inverse_sqrt");
    assert_eq!(Law::PointPole.name(), "point_pole_inverse_cube");
    assert_eq!(Law::FiniteAperture.name(), "finite_aperture_16_node");
    assert_eq!(ModelError("profile out of range").message(), "profile out of range");
}

#[test]
fn the_workspace_root_is_two_levels_above_the_tool() {
    assert_eq!(workspace_root("/w/tools/rf-tines-lab"), Ok("/w".to_string()));
    assert_eq!(
        workspace_root("/"),
        Err("cannot resolve the workspace root".to_string())
    );
    assert_eq!(
        build("/w/tools/rf-tines-lab", "0.4.1"),
        Ok("/w/dist/RF-Tines-0.4.1.rfplugin".to_string())
    );
    assert!(build("/", "0.4.1").is_err());
}

#[test]
fn packaging_finds_the_host_tools_beside_the_workspace() {
    let layout = package_layout("/src/rf-tines/tools/rf-tines-lab", ".exe").unwrap();
    assert_eq!(layout.root, "/src/rf-tines");
    assert_eq!(layout.store, "/src/rackforge/target/release/rackforge-store.exe");
    assert_eq!(layout.core, "/src/rackforge/target/release/rackforge-core.exe");
    assert_eq!(
        layout.component,
        "/src/rf-tines/target/wasm32-unknown-unknown/release/rf_tines_plugin.wasm"
    );
    assert_eq!(layout.package, "/src/rf-tines/package");
    assert_eq!(layout.dist, "/src/rf-tines/dist");
    assert!(matches!(
        package_layout("/a/b", ""),
        Err(e) if e == "cannot resolve sibling host"
    ));
}
