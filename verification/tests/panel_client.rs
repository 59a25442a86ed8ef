//! The panel's request protocol, driven the way the browser drives it.
use rf_tines::panel::{
    adjacent_sound, incoming, lighting, next_section, Incoming, MAX_MESSAGE, PROTOCOL, section_id, snapshot, Client, Operation, Reply, Request,
    SnapshotEntry, Sound, PARAMETERS,
};

/// What the panel shows before the host answers.
const DEFAULTS: [f64; PARAMETERS] = [
    0.1, 2.0, 0.6, 0.45, 0.45, 0.5, 0.26, 0.5, 0.0, 0.0, 0.0, 4.0, 0.0, 0.0, 0.85, 0.46, 0.52,
    0.62, 0.18,
];
/// How long the host may take to answer, in milliseconds.
const TIMEOUT_MS: f64 = 5000.0;

type Panel = Client<f64, f64>;

fn fresh() -> Panel {
    Client::new(DEFAULTS.to_vec())
}

/// The next request at `now`, with the request in flight expired once it has
/// waited longer than the timeout.
fn next(client: &mut Panel, now: f64, poll: bool) -> Option<Request<f64>> {
    let expired = client.pending_sent().is_some_and(|sent| now - sent > TIMEOUT_MS);
    client.next(now, expired, poll)
}

fn answer(request: &Request<f64>, ok: Option<bool>) -> Reply<f64> {
    Reply {
        request_id: Some(request.id.clone()),
        ok,
        set_value: None,
        snapshot: None,
    }
}

fn write_reply(request: &Request<f64>, value: f64) -> Reply<f64> {
    Reply {
        set_value: Some(value),
        ..answer(request, Some(true))
    }
}

fn entries(values: &[f64]) -> Vec<SnapshotEntry<f64>> {
    values
        .iter()
        .enumerate()
        .map(|(i, v)| SnapshotEntry {
            index: Some(i as u64),
            value: Some(*v),
            valid: true,
        })
        .collect()
}

fn snapshot_reply(request: &Request<f64>, values: &[f64]) -> Reply<f64> {
    Reply {
        snapshot: snapshot(&entries(values)),
        ..answer(request, Some(true))
    }
}

fn connect(client: &mut Panel) {
    let request = next(client, 0.0, true).unwrap();
    assert_eq!(request.operation, Operation::Fetch);
    client.response(&snapshot_reply(&request, &DEFAULTS));
    assert!(client.loaded);
}

fn catalog(client: &mut Panel, selected: &str) {
    client.context(
        vec![
            Sound {
                id: "a".into(),
                name: "First".into(),
                detail: String::new(),
            },
            Sound {
                id: "b".into(),
                name: "Second".into(),
                detail: "Bright".into(),
            },
        ],
        selected,
    );
}

#[test]
fn edits_coalesce_and_serialize_without_stale_acknowledgements_overwriting_them() {
    let mut client = fresh();
    connect(&mut client);
    client.queue(0, 0.2, true);
    let first = next(&mut client, 1.0, false).unwrap();
    client.queue(0, 0.3, true);
    client.queue(0, 0.4, true);
    client.queue(5, 1.0, true);
    assert!(next(&mut client, 2.0, true).is_none());
    client.response(&write_reply(&first, 0.2));
    assert_eq!(client.display(0), 0.4);
    let second = next(&mut client, 3.0, false).unwrap();
    assert_eq!(second.operation, Operation::Write(0, 0.4));
    client.response(&write_reply(&first, 0.2));
    assert!(next(&mut client, 4.0, false).is_none());
    client.response(&write_reply(&second, 0.4));
    assert!(matches!(
        next(&mut client, 5.0, false).unwrap().operation,
        Operation::Write(5, _)
    ));
}

#[test]
fn timeout_discards_ambiguous_writes_and_recovers_through_a_fresh_snapshot() {
    let mut client = fresh();
    connect(&mut client);
    client.queue(3, 1.0, true);
    let old = next(&mut client, 1.0, false).unwrap();
    client.queue(1, 1.0, true);
    let fresh_read = next(&mut client, 6000.0, true).unwrap();
    assert_eq!(fresh_read.operation, Operation::Fetch);
    assert!(!client.loaded);
    client.response(&write_reply(&old, 1.0));
    assert!(!client.loaded);
    client.response(&Reply {
        snapshot: snapshot(&Vec::new()),
        ..answer(&fresh_read, Some(true))
    });
    assert!(!client.loaded);
}

#[test]
fn program_selection_serializes_after_inflight_write_and_discards_old_queued_edits() {
    let mut client = fresh();
    catalog(&mut client, "a");
    connect(&mut client);
    client.queue(0, 0.2, true);
    let write = next(&mut client, 1.0, false).unwrap();
    client.queue(5, 0.9, true);
    client.select("b");
    client.queue(4, 0.8, true);
    assert!(next(&mut client, 2.0, true).is_none());
    client.response(&write_reply(&write, 0.2));
    let select = next(&mut client, 3.0, false).unwrap();
    assert_eq!(select.operation, Operation::Select);
    assert_eq!(select.sound_id.as_deref(), Some("b"));
    assert!(!client.loaded);
    client.response(&answer(&select, Some(true)));
    assert_eq!(
        next(&mut client, 4.0, false).unwrap().operation,
        Operation::Fetch
    );
    assert_eq!(
        client.selected, "a",
        "host context owns the selected identity"
    );
}

#[test]
fn external_program_change_invalidates_an_inflight_parameter_snapshot() {
    let mut client = fresh();
    catalog(&mut client, "a");
    connect(&mut client);
    let old = next(&mut client, 1.0, true).unwrap();
    catalog(&mut client, "b");
    client.response(&snapshot_reply(&old, &DEFAULTS));
    assert!(!client.loaded);
    assert_eq!(client.selected, "b");
    assert_eq!(
        next(&mut client, 2.0, false).unwrap().operation,
        Operation::Fetch
    );
}

#[test]
fn selection_failure_recovers_without_automatic_retry_and_remains_visible() {
    let mut client = fresh();
    catalog(&mut client, "a");
    connect(&mut client);
    client.select("missing");
    assert!(next(&mut client, 1.0, false).is_none());
    client.select("b");
    let request = next(&mut client, 2.0, false).unwrap();
    client.response(&answer(&request, Some(false)));
    assert!(client.selection_error.is_some());
    connect(&mut client);
    assert!(client.loaded);
    assert_eq!(client.selected, "a");
    assert!(client.selection_error.is_some());
    assert!(next(&mut client, 3.0, false).is_none());
}

#[test]
fn ambiguous_selection_timeout_reads_state_instead_of_replaying_selection() {
    let mut client = fresh();
    catalog(&mut client, "a");
    connect(&mut client);
    client.select("b");
    let old = next(&mut client, 1.0, false).unwrap();
    let fresh_read = next(&mut client, 6000.0, false).unwrap();
    assert_eq!(fresh_read.operation, Operation::Fetch);
    assert!(client.selection_error.is_some());
    client.response(&answer(&old, Some(true)));
    assert!(!client.loaded);
    assert!(next(&mut client, 6001.0, false).is_none());
}

#[test]
fn request_ids_count_up_from_one() {
    let mut client = fresh();
    let first = next(&mut client, 0.0, true).unwrap();
    assert_eq!(first.id, "rf-tines-ui-1");
    client.response(&snapshot_reply(&first, &DEFAULTS));
    let second = next(&mut client, 1.0, true).unwrap();
    assert_eq!(second.id, "rf-tines-ui-2");
    assert_eq!(second.sound_id, None);
}

#[test]
fn a_fresh_panel_shows_its_defaults_and_ignores_edits_until_loaded() {
    let mut client = fresh();
    assert!(!client.loaded);
    assert_eq!(client.status, "Connecting to RackForge...");
    assert_eq!(client.values, DEFAULTS.to_vec());
    client.queue(0, 0.9, true);
    assert!(next(&mut client, 0.0, false).is_none());
    assert_eq!(client.display(0), 0.1);
}

#[test]
fn an_edit_outside_its_domain_is_not_queued() {
    let mut client = fresh();
    connect(&mut client);
    client.queue(1, 0.5, false);
    assert!(next(&mut client, 1.0, false).is_none());
    client.queue(PARAMETERS, 0.5, true);
    assert!(next(&mut client, 1.0, false).is_none());
}

#[test]
fn a_rejected_write_drops_the_queue_and_reconnects() {
    let mut client = fresh();
    connect(&mut client);
    client.queue(0, 0.3, true);
    let write = next(&mut client, 1.0, false).unwrap();
    assert_eq!(client.display(0), 0.3);
    client.queue(2, 1.0, true);
    client.response(&answer(&write, Some(false)));
    assert!(!client.loaded);
    assert_eq!(client.status, "Host rejected the request. Reconnecting...");
    assert!(next(&mut client, 2.0, false).is_none());
    assert_eq!(client.display(0), 0.1);
}

#[test]
fn an_accepted_write_without_a_usable_value_reconnects() {
    let mut client = fresh();
    connect(&mut client);
    client.queue(5, 0.7, true);
    let write = next(&mut client, 1.0, false).unwrap();
    client.response(&answer(&write, Some(true)));
    assert!(!client.loaded);
    assert_eq!(
        client.status,
        "Invalid host parameter response. Reconnecting..."
    );
}

#[test]
fn an_acknowledged_write_updates_the_value_and_connects() {
    let mut client = fresh();
    connect(&mut client);
    client.queue(5, 0.7, true);
    let write = next(&mut client, 1.0, false).unwrap();
    client.response(&write_reply(&write, 0.75));
    assert!(client.loaded);
    assert_eq!(client.status, "Connected to RackForge");
    assert_eq!(client.values[5], 0.75);
    assert_eq!(client.display(5), 0.75);
}

#[test]
fn a_selection_is_refused_while_not_loaded_or_already_selecting() {
    let mut client = fresh();
    catalog(&mut client, "a");
    client.select("b");
    assert!(!client.selecting());
    connect(&mut client);
    client.select("b");
    assert!(client.selecting());
    assert_eq!(client.status, "Loading program...");
    client.select("a");
    let request = next(&mut client, 1.0, false).unwrap();
    assert_eq!(request.sound_id.as_deref(), Some("b"));
}

#[test]
fn snapshots_require_all_parameters_with_valid_domains_and_no_duplicates() {
    let lone = vec![SnapshotEntry {
        index: Some(1),
        value: Some(0.5),
        valid: false,
    }];
    assert!(snapshot(&lone).is_none());
    assert_eq!(snapshot(&entries(&DEFAULTS)), Some(DEFAULTS.to_vec()));
    let mut reversed = entries(&DEFAULTS);
    reversed.reverse();
    assert_eq!(snapshot(&reversed), Some(DEFAULTS.to_vec()));
    let mut extra = entries(&DEFAULTS);
    extra.push(SnapshotEntry {
        index: Some(19),
        value: None,
        valid: false,
    });
    assert_eq!(snapshot(&extra), Some(DEFAULTS.to_vec()));
    let mut repeated = entries(&DEFAULTS);
    repeated.push(repeated[3]);
    assert!(snapshot(&repeated).is_none());
    let mut short = entries(&DEFAULTS);
    short.pop();
    assert!(snapshot(&short).is_none());
    let mut unnamed = entries(&DEFAULTS);
    unnamed[7].index = None;
    assert!(snapshot(&unnamed).is_none());
    let mut empty = entries(&DEFAULTS);
    empty[7].value = None;
    assert!(snapshot(&empty).is_none());
}

#[test]
fn program_buttons_step_around_the_catalog() {
    let sounds: Vec<Sound> = ["a", "b", "c"]
        .iter()
        .map(|id| Sound {
            id: id.to_string(),
            name: id.to_uppercase(),
            detail: String::new(),
        })
        .collect();
    assert_eq!(adjacent_sound(&sounds, &"a".to_string(), true), Some(1));
    assert_eq!(adjacent_sound(&sounds, &"c".to_string(), true), Some(0));
    assert_eq!(adjacent_sound(&sounds, &"a".to_string(), false), Some(2));
    assert_eq!(adjacent_sound(&sounds, &"b".to_string(), false), Some(0));
    assert_eq!(adjacent_sound(&sounds, &"zzz".to_string(), false), Some(0));
    assert_eq!(adjacent_sound(&Vec::new(), &"a".to_string(), true), None);
}

#[test]
fn section_tabs_follow_the_arrow_home_and_end_keys() {
    assert_eq!(section_id(0), Some("instrument"));
    assert_eq!(section_id(4), Some("setup"));
    assert_eq!(section_id(5), None);
    assert_eq!(next_section(4, "ArrowRight"), Some(0));
    assert_eq!(next_section(0, "ArrowLeft"), Some(4));
    assert_eq!(next_section(2, "Home"), Some(0));
    assert_eq!(next_section(2, "End"), Some(4));
    assert_eq!(next_section(2, "Enter"), None);
}

#[test]
fn a_snapshot_of_the_wrong_size_is_an_invalid_reply() {
    let mut client = fresh();
    let request = next(&mut client, 0.0, true).unwrap();
    client.response(&Reply {
        snapshot: Some(vec![0.5; PARAMETERS - 1]),
        ..answer(&request, Some(true))
    });
    assert!(!client.loaded);
    assert_eq!(
        client.status,
        "Invalid host parameter response. Reconnecting..."
    );
    assert_eq!(client.values, DEFAULTS.to_vec());
}

#[test]
fn only_the_hosts_own_messages_are_read() {
    let here = "https://host.example";
    let read = |from_parent, origin, length, protocol, kind, plugin| {
        incoming(from_parent, origin, here, length, protocol, kind, plugin)
    };
    let plugin = Some("org.rackforge.rftines");
    assert_eq!(
        read(true, here, 10, Some(PROTOCOL), Some("context"), plugin),
        Incoming::Context
    );
    assert_eq!(
        read(true, here, 10, Some(PROTOCOL), Some("response"), None),
        Incoming::Response
    );
    assert_eq!(
        read(true, here, MAX_MESSAGE, Some(PROTOCOL), Some("response"), None),
        Incoming::Response
    );
    assert_eq!(
        read(true, here, MAX_MESSAGE + 1, Some(PROTOCOL), Some("response"), None),
        Incoming::Ignore
    );
    assert_eq!(
        read(false, here, 10, Some(PROTOCOL), Some("response"), None),
        Incoming::Ignore
    );
    assert_eq!(
        read(true, "https://elsewhere.example", 10, Some(PROTOCOL), Some("response"), None),
        Incoming::Ignore
    );
    assert_eq!(
        read(true, here, 10, Some("rackforge.plugin.web@2"), Some("response"), None),
        Incoming::Ignore
    );
    assert_eq!(
        read(true, here, 10, Some(PROTOCOL), Some("context"), Some("org.example.other")),
        Incoming::Ignore
    );
    assert_eq!(
        read(true, here, 10, Some(PROTOCOL), Some("ready"), plugin),
        Incoming::Ignore
    );
    assert_eq!(lighting(Some("day")), Some("day"));
    assert_eq!(lighting(Some("stage")), Some("stage"));
    assert_eq!(lighting(Some("night")), None);
    assert_eq!(lighting(None), None);
}
