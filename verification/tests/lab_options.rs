//! The laboratory's command line, read up to its floating-point values.
use rf_tines::keyboard::playable;
use rf_tines::options::{
    output_accepted, pickup_path_allowed, scan_options, settle_options, CommandLine, FloatOption, LabCommand, HELP, PICKUP_PATHS,
};

fn scan(args: &[&str]) -> Result<CommandLine, String> {
    let args: Vec<String> = args.iter().map(|s| s.to_string()).collect();
    let float_ok: Vec<bool> = args.iter().map(|s| s.parse::<f64>().is_ok()).collect();
    scan_options(&args, &float_ok)
}

fn error(args: &[&str]) -> String {
    match scan(args) {
        Ok(_) => panic!("{args:?} was accepted"),
        Err(e) => e,
    }
}

#[test]
fn a_plain_render_takes_the_defaults() {
    let line = scan(&["render", "--output", "x.wav"]).unwrap();
    assert_eq!(line.command, LabCommand::Render);
    assert_eq!(line.output.as_deref(), Some("x.wav"));
    assert_eq!((line.note, line.rate, line.pickup), (57, 48_000, None));
    assert!(!line.trace && !line.compensate && !line.laboratory);
    assert!(!line.aperture_law && !line.calibrated_sustain);
    assert!(line.decimals.is_empty());
}

#[test]
fn ambiguous_and_inapplicable_input_is_refused() {
    assert_eq!(
        error(&["render", "--output", "x.wav", "--note", "57", "--note", "60"]),
        "duplicate option: --note"
    );
    assert_eq!(
        error(&["render", "--output", "x.csv"]),
        "--output must name a .wav file"
    );
    assert_eq!(
        error(&["demo", "--output", "x.wav", "--hold", "1"]),
        "unknown or inapplicable option: --hold"
    );
    assert_eq!(
        error(&["render", "--output", "x.wav", "--unknown", "1"]),
        "unknown or inapplicable option: --unknown"
    );
}

#[test]
fn floating_point_values_are_kept_as_text_for_the_range_checks() {
    let line = scan(&["render", "--output", "x.wav", "--velocity", "NaN"]).unwrap();
    assert_eq!(
        line.decimals,
        vec![(FloatOption::Velocity, "NaN".to_string())]
    );
    let line = scan(&["render", "--output", "x.wav", "--seconds", "1"]).unwrap();
    assert_eq!(line.decimals, vec![(FloatOption::Seconds, "1".to_string())]);
    assert_eq!(
        error(&["render", "--output", "x.wav", "--velocity", "fast"]),
        "invalid value for --velocity: fast"
    );
}

#[test]
fn every_option_of_a_render_is_read() {
    let line = scan(&[
        "render",
        "--output",
        "take.wav",
        "--note",
        "+40",
        "--sample-rate",
        "96000",
        "--law",
        "aperture",
        "--sustain",
        "calibrated",
        "--pickup",
        "3",
        "--trace",
        "--compensate",
        "--hold",
        "0.5",
        "--gap-mm",
        "1.5",
        "--bar-strike",
        "-0.3",
        "--contact-stiffness",
        "4e10",
    ])
    .unwrap();
    assert_eq!(line.note, 40);
    assert_eq!(line.rate, 96_000);
    assert_eq!(line.pickup, Some(3));
    assert!(line.aperture_law && line.calibrated_sustain && line.trace && line.compensate);
    assert_eq!(
        line.decimals,
        vec![
            (FloatOption::Hold, "0.5".to_string()),
            (FloatOption::GapMm, "1.5".to_string()),
            (FloatOption::BarStrike, "-0.3".to_string()),
            (FloatOption::ContactStiffness, "4e10".to_string()),
        ]
    );
}

#[test]
fn commands_and_their_own_switches() {
    assert_eq!(error(&[]), HELP);
    assert_eq!(error(&["play"]), "unknown command: play");
    let stress = scan(&["stress"]).unwrap();
    assert_eq!(stress.command, LabCommand::Stress);
    assert!(stress.output.is_none());
    assert!(scan(&["stress", "--laboratory"]).unwrap().laboratory);
    assert_eq!(
        scan(&["stress", "--sample-rate", "+192000"]).unwrap().rate,
        192_000
    );
    assert_eq!(
        error(&["render", "--output", "x.wav", "--laboratory"]),
        "--laboratory is a stress option"
    );
    assert_eq!(
        error(&["demo", "--output", "x.wav", "--trace"]),
        "--trace is a render option"
    );
    assert_eq!(
        error(&["stress", "--compensate"]),
        "--compensate is a render option"
    );
    assert_eq!(
        error(&["stress", "--laboratory", "--laboratory"]),
        "duplicate option: --laboratory"
    );
    assert!(scan(&["demo", "--output", "demo.wav"]).is_ok());
}

#[test]
fn values_must_be_present_and_readable() {
    assert_eq!(error(&["render", "--output"]), "missing value for --output");
    assert_eq!(
        error(&["render", "--note", "300", "--output", "x.wav"]),
        "invalid value for --note: 300"
    );
    assert_eq!(
        error(&["render", "--note", "-1"]),
        "invalid value for --note: -1"
    );
    assert_eq!(
        error(&["render", "--law", "point"]),
        "invalid value for --law: point"
    );
    assert_eq!(
        error(&["render", "--sustain", "long"]),
        "invalid value for --sustain: long"
    );
    assert_eq!(
        error(&["render", "--output", "x.wav", "--sample-rate", "22050"]),
        "unsupported sample rate"
    );
    assert_eq!(
        error(&["render", "--sample-rate", "4294967296"]),
        "invalid value for --sample-rate: 4294967296"
    );
}

#[test]
fn the_output_needs_a_wav_extension() {
    assert!(scan(&["render", "--output", "dir/take.wav"]).is_ok());
    assert!(scan(&["render", "--output", "take.WAV"]).is_err());
    assert!(scan(&["render", "--output", ".wav"]).is_err());
    assert!(scan(&["demo"]).is_err());
    assert!(output_accepted(LabCommand::Stress, false, None));
    assert!(output_accepted(LabCommand::Render, true, Some("wav")));
    assert!(!output_accepted(LabCommand::Render, true, Some("WAV")));
    assert!(!output_accepted(LabCommand::Render, true, None));
    assert!(!output_accepted(LabCommand::Demo, false, None));
}

#[test]
fn pickup_paths_and_notes_in_range() {
    assert_eq!(PICKUP_PATHS, 4);
    assert!(pickup_path_allowed(LabCommand::Render, 3));
    assert!(!pickup_path_allowed(LabCommand::Render, 4));
    assert!(!pickup_path_allowed(LabCommand::Demo, 0));
    assert!(playable(28) && playable(100));
    assert!(!playable(27) && !playable(101));
}

/// The whole reading of a command line: the library's scan, the range
/// checks of the floating-point values, then the library's last checks.
fn parse(args: &[&str]) -> Result<CommandLine, String> {
    let line = scan(args)?;
    let value = |option: FloatOption, default: f64| {
        line.decimals
            .iter()
            .find(|(o, _)| *o == option)
            .map_or(default, |(_, text)| text.parse::<f64>().unwrap())
    };
    let velocity = value(FloatOption::Velocity, 0.7);
    let seconds = value(FloatOption::Seconds, 4.0);
    let hold = value(FloatOption::Hold, 2.0);
    let in_range = velocity.is_finite()
        && velocity > 0.0
        && velocity <= 1.0
        && seconds.is_finite()
        && (0.05..=60.0).contains(&seconds)
        && hold.is_finite()
        && hold >= 0.0
        && hold < seconds;
    let default_geometry =
        value(FloatOption::GapMm, 1.5) == 1.5 && value(FloatOption::OffsetMm, 0.5) == 0.5;
    settle_options(line, in_range, default_geometry)
}

#[test]
fn cli_rejects_invalid_and_ambiguous_input() {
    assert!(parse(&["render", "--output", "x.wav"]).is_ok());
    for args in [
        vec!["render", "--output", "x.wav", "--velocity", "NaN"],
        vec!["render", "--output", "x.wav", "--seconds", "1"],
        vec![
            "render", "--output", "x.wav", "--note", "57", "--note", "60",
        ],
        vec!["render", "--output", "x.csv"],
        vec!["demo", "--output", "x.wav", "--hold", "1"],
        vec!["render", "--output", "x.wav", "--unknown", "1"],
    ] {
        assert!(parse(&args).is_err(), "{args:?}");
    }
}

#[test]
fn notes_and_pickup_paths_are_checked_last() {
    let range = "note, velocity, duration or hold is outside its allowed range";
    assert_eq!(
        parse(&["render", "--output", "x.wav", "--note", "200"]).err().as_deref(),
        Some(range)
    );
    assert_eq!(
        parse(&["render", "--output", "x.wav", "--note", "27"]).err().as_deref(),
        Some(range)
    );
    assert_eq!(
        parse(&["render", "--output", "x.wav", "--pickup", "4"]).err().as_deref(),
        Some("--pickup is a render option with a path index 0..3")
    );
    assert_eq!(
        parse(&["render", "--output", "x.wav", "--pickup", "2", "--gap-mm", "1.0"])
            .err()
            .as_deref(),
        Some("--pickup renders the laboratory engine at the default geometry")
    );
    let line = parse(&["render", "--output", "x.wav", "--pickup", "3", "--note", "100"]).unwrap();
    assert_eq!((line.pickup, line.note), (Some(3), 100));
    let stress = scan(&["stress"]).unwrap();
    assert!(settle_options(stress, true, false).is_ok());
    let mut demo = scan(&["demo", "--output", "d.wav"]).unwrap();
    demo.pickup = Some(0);
    assert_eq!(
        settle_options(demo, true, true).err().as_deref(),
        Some("--pickup is a render option with a path index 0..3")
    );
}
