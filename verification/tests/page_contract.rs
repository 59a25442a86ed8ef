//! The packaged pages, checked through the page readers.
//!
//! The pages below stand for the packaged `play.html`, `config.html` and the
//! plugin manifest: each carries what the panel and the host look for.
use rf_tines::editor::is_choice;
use rf_tines::page::{count_id, has_duplicate, offered_controls, page_ids};
use rf_tines::panel::{control, fixed_id, CONTROL_COUNT};

const PLAY_PAGE: &str = r#"<!doctype html>
<html lang="en">
<head>
<meta charset="utf-8">
<title>RF-Tines</title>
<link rel="stylesheet" href="play.css">
<script type="module" src="play-programs.mjs"></script>
</head>
<body>
<header>
<p id="status" role="status">Connecting to RackForge...</p>
<label>Gain <input id="gain" type="range" min="0" max="2" step="0.001" data-rackforge-parameter-index="0"></label>
<input id="gain-number" type="number" min="0" max="2" step="0.001">
<div id="gain-knob" class="knob"></div>
<output id="gain-db"></output>
</header>
<section class="programs">
<ul id="program-list"></ul>
<select id="program-select" aria-label="Program"></select>
<button id="program-prev" type="button">Previous</button>
<button id="program-next" type="button">Next</button>
<h2 id="program-name"></h2>
<p id="program-detail"></p>
<p id="program-error" hidden></p>
<button id="save-program-open" type="button">Save Program</button>
<dialog id="save-program-dialog">
<form id="save-program-form" method="dialog">
<input id="save-program-name" type="text" maxlength="64" required>
<button id="save-program-submit" type="submit">Save</button>
<p id="save-program-feedback"></p>
</form>
</dialog>
</section>
<nav role="tablist">
<button id="tab-instrument" role="tab" type="button">Instrument</button>
<button id="tab-hammer" role="tab" type="button">Hammer</button>
<button id="tab-resonator" role="tab" type="button">Resonator</button>
<button id="tab-pickup" role="tab" type="button">Pickup</button>
<button id="tab-setup" role="tab" type="button">Setup</button>
</nav>
<section id="instrument" role="tabpanel">
<select id="law" data-rackforge-parameter-index="1"><option value="0">0</option><option value="1">1</option></select>
<output id="law-value"></output>
<input id="distance" type="range" data-rackforge-parameter-index="2">
<input id="distance-number" type="number">
<div id="distance-knob" class="knob"></div>
<output id="distance-value"></output>
<input id="alignment" type="range" data-rackforge-parameter-index="3">
<input id="alignment-number" type="number">
<div id="alignment-knob" class="knob"></div>
<output id="alignment-value"></output>
</section>
<section id="hammer" role="tabpanel">
<input id="hardness" type="range" data-rackforge-parameter-index="4">
<input id="hardness-number" type="number">
<div id="hardness-knob" class="knob"></div>
<output id="hardness-value"></output>
<input id="dynamics" type="range" data-rackforge-parameter-index="7">
<input id="dynamics-number" type="number">
<div id="dynamics-knob" class="knob"></div>
<output id="dynamics-value"></output>
<input id="hammer-mass" type="range" data-rackforge-parameter-index="15">
<input id="hammer-mass-number" type="number">
<div id="hammer-mass-knob" class="knob"></div>
<output id="hammer-mass-value"></output>
</section>
<section id="resonator" role="tabpanel">
<input id="sustain" type="range" data-rackforge-parameter-index="5">
<input id="sustain-number" type="number">
<div id="sustain-knob" class="knob"></div>
<output id="sustain-value"></output>
<input id="bell" type="range" data-rackforge-parameter-index="6">
<input id="bell-number" type="number">
<div id="bell-knob" class="knob"></div>
<output id="bell-value"></output>
<input id="tine" type="range" data-rackforge-parameter-index="16">
<input id="tine-number" type="number">
<div id="tine-knob" class="knob"></div>
<output id="tine-value"></output>
<input id="twist" type="range" data-rackforge-parameter-index="18">
<input id="twist-number" type="number">
<div id="twist-knob" class="knob"></div>
<output id="twist-value"></output>
</section>
<section id="pickup" role="tabpanel">
<input id="pole" type="range" data-rackforge-parameter-index="17">
<input id="pole-number" type="number">
<div id="pole-knob" class="knob"></div>
<output id="pole-value"></output>
</section>
<section id="setup" role="tabpanel">
<div id="stage-controls">
<input id="bass" type="range" data-rackforge-parameter-index="8">
<input id="bass-number" type="number">
<div id="bass-knob" class="knob"></div>
<output id="bass-value"></output>
<input id="treble" type="range" data-rackforge-parameter-index="9">
<input id="treble-number" type="number">
<div id="treble-knob" class="knob"></div>
<output id="treble-value"></output>
</div>
<div id="console-controls">
<div id="vibrato-control">
<select id="vibrato" data-rackforge-parameter-index="10"><option value="0">0</option><option value="1">1</option></select>
<output id="vibrato-value"></output>
<input id="speed" type="range" data-rackforge-parameter-index="11">
<input id="speed-number" type="number">
<div id="speed-knob" class="knob"></div>
<output id="speed-value"></output>
<input id="intensity" type="range" data-rackforge-parameter-index="12">
<input id="intensity-number" type="number">
<div id="intensity-knob" class="knob"></div>
<output id="intensity-value"></output>
</div>
<select id="preamp" data-rackforge-parameter-index="13"><option value="0">0</option><option value="1">1</option></select>
<output id="preamp-value"></output>
<input id="bass-boost" type="range" data-rackforge-parameter-index="14">
<input id="bass-boost-number" type="number">
<div id="bass-boost-knob" class="knob"></div>
<output id="bass-boost-value"></output>
</div>
</section>
</body>
</html>

"#;

const CONFIG_PAGE: &str = r#"<!doctype html>
<html lang="en">
<head>
<meta charset="utf-8">
<title>RF-Tines programs</title>
<script type="module" src="config.mjs"></script>
</head>
<body>
<p id="connection" role="status">Connecting to RackForge...</p>
<label>Program <select id="export-source"></select></label>
<button id="export-button" type="button">Export</button>
<input id="import-file" type="file" accept=".rftines,application/json">
<button id="import-button" type="button">Import</button>
<button id="recover-button" type="button">Recover</button>
<ol id="activity"></ol>
<p id="error" hidden></p>
</body>
</html>
"#;

const PLUGIN_MANIFEST: &str = r#"[plugin]
id = "org.rackforge.rftines"
name = "RF-Tines"
config_mode = true

[[ui]]
kind = "play"
entry = "web/play.html"

[[ui]]
kind = "config"
entry = "web/config.html"
"#;

fn control_ids() -> Vec<String> {
    (0..CONTROL_COUNT)
        .map(|k| control(k).expect("a control at every position").id.to_string())
        .collect()
}

fn occurrences(page: &str, id: &str) -> usize {
    count_id(&page_ids(page), id)
}

#[test]
fn every_id_the_panel_resolves_exists_exactly_once_on_the_page() {
    let controls = control_ids();
    assert!(
        controls.len() >= 14,
        "only found {} controls",
        controls.len()
    );
    let mut wanted: Vec<String> = (0..7)
        .map(|k| fixed_id(k).expect("a fixed id").to_string())
        .collect();
    for id in &controls {
        wanted.push(id.clone());
        wanted.push(format!("{id}-value"));
        if !is_choice(id) {
            wanted.push(format!("{id}-number"));
            wanted.push(format!("{id}-knob"));
        }
    }
    wanted.push("gain-knob".into());
    for id in wanted {
        assert_eq!(
            occurrences(PLAY_PAGE, &id),
            1,
            "the page carries id {id:?} {} times, and the panel needs exactly one",
            occurrences(PLAY_PAGE, &id)
        );
    }
}

#[test]
fn the_page_has_no_duplicate_ids_at_all() {
    let ids = page_ids(PLAY_PAGE);
    assert!(!has_duplicate(&ids), "duplicated on the page: {ids:?}");
}

#[test]
fn the_page_offers_no_control_the_panel_ignores() {
    let controls = control_ids();
    let offered = offered_controls(PLAY_PAGE)
        .expect("every parameter control sits in a closed tag that carries an id");
    assert!(!offered.is_empty());
    for id in offered {
        assert!(
            controls.iter().any(|known| *known == id) || id == "gain",
            "the page offers {id:?}, which the panel does not drive"
        );
    }
}

#[test]
fn packaged_html_contains_the_required_program_and_parameter_controls() {
    let html = PLAY_PAGE;
    for id in [
        "program-list",
        "program-select",
        "program-prev",
        "program-next",
        "program-name",
        "program-detail",
        "program-error",
        "save-program-open",
        "save-program-dialog",
        "save-program-form",
        "save-program-name",
        "save-program-submit",
        "save-program-feedback",
        "status",
        "gain",
        "gain-number",
        "gain-db",
        "law",
        "law-value",
        "preamp",
        "preamp-value",
        "vibrato",
        "vibrato-value",
        "stage-controls",
        "console-controls",
        "tab-instrument",
        "tab-setup",
    ] {
        assert_eq!(occurrences(html, id), 1, "missing or duplicate {id}");
    }
    for id in [
        "hardness",
        "dynamics",
        "distance",
        "alignment",
        "sustain",
        "bell",
    ] {
        for suffix in ["", "-number", "-knob", "-value"] {
            assert_eq!(occurrences(html, &format!("{id}{suffix}")), 1);
        }
    }
    assert!(html.contains("src=\"play-programs.mjs\""));
}

#[test]
fn packaged_config_surface_contains_the_portable_program_workflow() {
    let html = CONFIG_PAGE;
    for id in [
        "connection",
        "export-source",
        "export-button",
        "import-file",
        "import-button",
        "activity",
        "error",
    ] {
        assert_eq!(occurrences(html, id), 1, "missing or duplicate {id}");
    }
    assert!(html.contains("accept=\".rftines,application/json\""));
    assert!(html.contains("id=\"recover-button\""));
    assert!(html.contains("src=\"config.mjs\""));
    assert!(!html.contains("id=\"save-name\""));
    let manifest = PLUGIN_MANIFEST;
    assert!(manifest.contains("config_mode = true"));
    assert!(manifest.contains("kind = \"config\"\nentry = \"web/config.html\""));
}

#[test]
fn ids_are_read_in_page_order_and_an_unclosed_one_names_nothing() {
    let ids = page_ids("<a id=\"first\"><b id=\"\"><i id=\"second\"><p id=\"open");
    assert_eq!(ids, vec!["first".to_string(), String::new(), "second".to_string()]);
    assert_eq!(page_ids("no ids at all"), Vec::<String>::new());
    assert_eq!(page_ids("<a data-id=\"x\">"), vec!["x".to_string()]);
}

#[test]
fn a_repeated_id_is_found_and_counted() {
    let page = "<section id=\"hammer\"><input id=\"hammer\"><input id=\"tine\">";
    let ids = page_ids(page);
    assert!(has_duplicate(&ids));
    assert_eq!(count_id(&ids, "hammer"), 2);
    assert_eq!(count_id(&ids, "tine"), 1);
    assert_eq!(count_id(&ids, "pole"), 0);
    assert!(!has_duplicate(&page_ids("<a id=\"x\"><b id=\"y\">")));
}

#[test]
fn a_parameter_control_outside_a_closed_tag_with_an_id_is_refused() {
    assert_eq!(
        offered_controls("<input data-rackforge-parameter-index=\"1\" id=\"law\">"),
        Some(vec!["law".to_string()])
    );
    assert_eq!(
        offered_controls("<input id=\"mystery\" data-rackforge-parameter-index=\"3\">"),
        Some(vec!["mystery".to_string()])
    );
    assert_eq!(offered_controls("data-rackforge-parameter-index=\"1\" id=\"law\">"), None);
    assert_eq!(offered_controls("<input data-rackforge-parameter-index=\"1\" id=\"law\""), None);
    assert_eq!(offered_controls("<input data-rackforge-parameter-index=\"1\">"), None);
    assert_eq!(offered_controls("<p>nothing to drive</p>"), Some(Vec::new()));
}
