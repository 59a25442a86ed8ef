//! The laboratory's command line: which options each command takes, in
//! which order problems are reported, and what the integer and keyword
//! options say. Floating-point values are kept as their text, with the
//! caller's word on whether that text parses.
use vstd::prelude::*;
use vstd::string::*;
use crate::editor::{parse_bounded, parse_unsigned};
use crate::program::{contains_id, ids_of};
use crate::keyboard::{playable, FIRST_NOTE, LAST_NOTE};

verus! {

/// The laboratory's usage text, answered when no command is given.
pub const HELP: &'static str = "RF-Tines research laboratory 0.1.2
Usage:
  rf-tines-lab render --output PATH.wav [options]
  rf-tines-lab demo --output PATH.wav
  rf-tines-lab stress [--sample-rate HZ] [--laboratory]
  rf-tines-lab inspect PATH.wav
  rf-tines-lab package
  rf-tines-lab build-ui
  rf-tines-lab audition [--prepare-only]
Render options:
  --note N          MIDI 28..100 (default 57 / A3)
  --velocity V      Greater than 0, up to 1 (default 0.7)
  --sample-rate HZ  44100, 48000, 96000 or 192000 (default 48000)
  --seconds S       Duration 0.05..60 (default 4)
  --hold S          Key hold, less than duration (default 2)
  --gap-mm X        Pickup gap 0.5..5 mm (default 1.5)
  --offset-mm X     Pickup offset -3..3 mm (default 0.5)
  --trace           Export output-rate physical probes as CSV
  --compensate      Apply the profile's pickup level compensation (raw otherwise)
  --pickup I        Render through laboratory pickup path I (0..3) instead of the
                    raw engine; needs the default gap/offset. Names: rf-tines-lab help
  --sustain S       original (default) or calibrated: first/bar partial T60 from
                    the retained recordings, 20 s / 2.3 s at A3
  --bar-ratio R     Second partial over the fundamental, 2..12 (default 6.267;
                    the recordings show 6.0)
  --contact-stiffness K  Quadratic contact law coefficient, 1e8..1e12 N/m^2
                    (default 4e10)
  --bar-strike W    Second partial strike weight, -1..1 (default -0.3)
  --law L           Pickup law: production (default) or aperture
  --pole-radius-mm R  Aperture pole radius 0.2..3 mm (default 2)
  --velocity-exponent E  Hammer speed follows velocity^E, 0.5..3 (default 1.4)
WAV is mono IEEE float, without normalization or clipping. Existing files are
never overwritten. Every render writes a JSON report. Parameters are uncalibrated.
Demo: three A3 intensities and a sustained E-minor chord, ten seconds.
Stress: 73 keys, 128-frame blocks, three seconds. No audio device is opened.
--laboratory measures the four-path pickup engine with frequent interrupted fades.
Laboratory pickup paths: 0 Current, 1 Close Original, 2 Close Point Pole, 3 Close Aperture.
";

/// The laboratory pickup paths a render can go through.
pub const PICKUP_PATHS: usize = 4;

/// The commands that take options.
#[derive(Clone, Copy, Debug, PartialEq, Eq)]
pub enum LabCommand {
    Render,
    Demo,
    Stress,
}

/// The options whose value is a floating-point number.
#[derive(Clone, Copy, Debug, PartialEq, Eq)]
pub enum FloatOption {
    Velocity,
    Seconds,
    Hold,
    GapMm,
    OffsetMm,
    BarRatio,
    ContactStiffness,
    BarStrike,
    PoleRadiusMm,
    VelocityExponent,
}

/// A command line that passed the checks that need no floating point.
pub struct CommandLine {
    pub command: LabCommand,
    pub output: Option<String>,
    pub note: u8,
    pub rate: u32,
    pub pickup: Option<usize>,
    pub aperture_law: bool,
    pub calibrated_sustain: bool,
    pub trace: bool,
    pub compensate: bool,
    pub laboratory: bool,
    /// The floating-point options given, with their text, in the order given.
    pub decimals: Vec<(FloatOption, String)>,
}

/// A command line, its texts as character sequences.
pub struct CommandLineView {
    pub command: LabCommand,
    pub output: Option<Seq<char>>,
    pub note: u8,
    pub rate: u32,
    pub pickup: Option<usize>,
    pub aperture_law: bool,
    pub calibrated_sustain: bool,
    pub trace: bool,
    pub compensate: bool,
    pub laboratory: bool,
    pub decimals: Seq<(FloatOption, Seq<char>)>,
}

pub open spec fn text_of(s: Option<String>) -> Option<Seq<char>> {
    match s {
        Some(t) => Some(t@),
        None => None,
    }
}

pub open spec fn decimals_view(d: Seq<(FloatOption, String)>) -> Seq<(FloatOption, Seq<char>)> {
    d.map_values(|p: (FloatOption, String)| (p.0, p.1@))
}

impl View for CommandLine {
    type V = CommandLineView;

    open spec fn view(&self) -> CommandLineView {
        CommandLineView {
            command: self.command,
            output: text_of(self.output),
            note: self.note,
            rate: self.rate,
            pickup: self.pickup,
            aperture_law: self.aperture_law,
            calibrated_sustain: self.calibrated_sustain,
            trace: self.trace,
            compensate: self.compensate,
            laboratory: self.laboratory,
            decimals: decimals_view(self.decimals@),
        }
    }
}

/// `std::path::Path::extension` of a path, as text.
pub uninterp spec fn path_extension(path: Seq<char>) -> Option<Seq<char>>;

/// Calls `std::path::Path::extension` on `path` and returns it as text. The
/// contract names the result and states nothing more of it.
#[verifier::external_body]
fn extension_of(path: &str) -> (r: Option<String>)
    ensures
        text_of(r) == path_extension(path@),
{
    std::path::Path::new(path).extension().map(|e| e.to_string_lossy().into_owned())
}

/// The command a first argument names.
pub open spec fn command_of(name: Seq<char>) -> Option<LabCommand> {
    if name == "render"@ {
        Some(LabCommand::Render)
    } else if name == "demo"@ {
        Some(LabCommand::Demo)
    } else if name == "stress"@ {
        Some(LabCommand::Stress)
    } else {
        None
    }
}

/// A command's settings before any option: A3, 48 kHz, no output, no path.
pub open spec fn defaults(command: LabCommand) -> CommandLineView {
    CommandLineView {
        command,
        output: None,
        note: 57,
        rate: 48000,
        pickup: None,
        aperture_law: false,
        calibrated_sustain: false,
        trace: false,
        compensate: false,
        laboratory: false,
        decimals: Seq::empty(),
    }
}

/// The floating-point option a flag names.
pub open spec fn float_option_of(flag: Seq<char>) -> Option<FloatOption> {
    if flag == "--velocity"@ {
        Some(FloatOption::Velocity)
    } else if flag == "--seconds"@ {
        Some(FloatOption::Seconds)
    } else if flag == "--hold"@ {
        Some(FloatOption::Hold)
    } else if flag == "--gap-mm"@ {
        Some(FloatOption::GapMm)
    } else if flag == "--offset-mm"@ {
        Some(FloatOption::OffsetMm)
    } else if flag == "--bar-ratio"@ {
        Some(FloatOption::BarRatio)
    } else if flag == "--contact-stiffness"@ {
        Some(FloatOption::ContactStiffness)
    } else if flag == "--bar-strike"@ {
        Some(FloatOption::BarStrike)
    } else if flag == "--pole-radius-mm"@ {
        Some(FloatOption::PoleRadiusMm)
    } else if flag == "--velocity-exponent"@ {
        Some(FloatOption::VelocityExponent)
    } else {
        None
    }
}

/// The value-taking options a command accepts: stress only the sample
/// rate, demo also the output, render all of them.
pub open spec fn flag_allowed(command: LabCommand, flag: Seq<char>) -> bool {
    match command {
        LabCommand::Stress => flag == "--sample-rate"@,
        LabCommand::Demo => flag == "--sample-rate"@ || flag == "--output"@,
        LabCommand::Render => flag == "--output"@ || flag == "--note"@ || flag == "--sample-rate"@
            || flag == "--pickup"@ || flag == "--law"@ || flag == "--sustain"@ || float_option_of(
            flag,
        ) is Some,
    }
}

/// The command line after the option `flag` takes `value`; `None` when the
/// value is not one the option reads. `float_ok` says whether `value` parses
/// as a floating-point number.
pub open spec fn with_value(o: CommandLineView, flag: Seq<char>, value: Seq<char>, float_ok: bool) -> Option<CommandLineView> {
    if flag == "--output"@ {
        Some(CommandLineView { output: Some(value), ..o })
    } else if flag == "--note"@ {
        match parse_bounded(value, 255) {
            Some(n) => Some(CommandLineView { note: n as u8, ..o }),
            None => None,
        }
    } else if flag == "--sample-rate"@ {
        match parse_bounded(value, u32::MAX as nat) {
            Some(n) => Some(CommandLineView { rate: n as u32, ..o }),
            None => None,
        }
    } else if flag == "--pickup"@ {
        match parse_bounded(value, usize::MAX as nat) {
            Some(n) => Some(CommandLineView { pickup: Some(n as usize), ..o }),
            None => None,
        }
    } else if flag == "--law"@ {
        if value == "production"@ {
            Some(CommandLineView { aperture_law: false, ..o })
        } else if value == "aperture"@ {
            Some(CommandLineView { aperture_law: true, ..o })
        } else {
            None
        }
    } else if flag == "--sustain"@ {
        if value == "original"@ {
            Some(CommandLineView { calibrated_sustain: false, ..o })
        } else if value == "calibrated"@ {
            Some(CommandLineView { calibrated_sustain: true, ..o })
        } else {
            None
        }
    } else {
        match float_option_of(flag) {
            Some(k) => if float_ok {
                Some(CommandLineView { decimals: o.decimals.push((k, value)), ..o })
            } else {
                None
            },
            None => None,
        }
    }
}

pub open spec fn float_ok_at(float_ok: Seq<bool>, i: int) -> bool {
    0 <= i < float_ok.len() && float_ok[i]
}

/// Reads the options from argument `i` on, `seen` holding the flags read so
/// far; the first problem met is the answer.
pub open spec fn options_from(args: Seq<Seq<char>>, float_ok: Seq<bool>, i: int, seen: Seq<Seq<char>>, o: CommandLineView) -> Result<CommandLineView, Seq<char>>
    decreases args.len() - i,
{
    if i < 0 || i >= args.len() {
        Ok(o)
    } else {
        let flag = args[i];
        let seen2 = seen.push(flag);
        if seen.contains(flag) {
            Err("duplicate option: "@ + flag)
        } else if flag == "--laboratory"@ {
            if o.command != LabCommand::Stress {
                Err("--laboratory is a stress option"@)
            } else {
                options_from(args, float_ok, i + 1, seen2, CommandLineView { laboratory: true, ..o })
            }
        } else if flag == "--trace"@ {
            if o.command != LabCommand::Render {
                Err("--trace is a render option"@)
            } else {
                options_from(args, float_ok, i + 1, seen2, CommandLineView { trace: true, ..o })
            }
        } else if flag == "--compensate"@ {
            if o.command != LabCommand::Render {
                Err("--compensate is a render option"@)
            } else {
                options_from(args, float_ok, i + 1, seen2, CommandLineView { compensate: true, ..o })
            }
        } else if !flag_allowed(o.command, flag) {
            Err("unknown or inapplicable option: "@ + flag)
        } else if i + 1 >= args.len() {
            Err("missing value for "@ + flag)
        } else {
            match with_value(o, flag, args[i + 1], float_ok_at(float_ok, i + 1)) {
                None => Err("invalid value for "@ + flag + ": "@ + args[i + 1]),
                Some(o2) => options_from(args, float_ok, i + 2, seen2, o2),
            }
        }
    }
}

pub open spec fn supported_rate(rate: u32) -> bool {
    rate == 44100 || rate == 48000 || rate == 96000 || rate == 192000
}

/// Whether the output is a path whose extension is `wav`.
pub open spec fn names_wav(output: Option<Seq<char>>) -> bool {
    match output {
        Some(p) => path_extension(p) == Some("wav"@),
        None => false,
    }
}

/// What the command line says, or the first problem with it: the usage text
/// for no command, an unknown command, a problem with an option, an
/// unsupported sample rate, or a render or demo without a `.wav` output.
pub open spec fn options_spec(args: Seq<Seq<char>>, float_ok: Seq<bool>) -> Result<CommandLineView, Seq<char>> {
    if args.len() == 0 {
        Err(HELP@)
    } else {
        match command_of(args[0]) {
            None => Err("unknown command: "@ + args[0]),
            Some(c) => match options_from(args, float_ok, 1, Seq::empty(), defaults(c)) {
                Err(e) => Err(e),
                Ok(o) => if !supported_rate(o.rate) {
                    Err("unsupported sample rate"@)
                } else if c != LabCommand::Stress && !names_wav(o.output) {
                    Err("--output must name a .wav file"@)
                } else {
                    Ok(o)
                },
            },
        }
    }
}

fn is(a: &str, b: &str) -> (r: bool)
    ensures
        r == (a@ == b@),
{
    a.to_owned() == b.to_owned()
}

fn message(prefix: &str, subject: &str) -> (m: String)
    ensures
        m@ == prefix@ + subject@,
{
    let mut m = String::from_str(prefix);
    m.append(subject);
    m
}

fn command_named(name: &str) -> (r: Option<LabCommand>)
    ensures
        r == command_of(name@),
{
    if is(name, "render") {
        Some(LabCommand::Render)
    } else if is(name, "demo") {
        Some(LabCommand::Demo)
    } else if is(name, "stress") {
        Some(LabCommand::Stress)
    } else {
        None
    }
}

fn float_option(flag: &str) -> (r: Option<FloatOption>)
    ensures
        r == float_option_of(flag@),
{
    if is(flag, "--velocity") {
        Some(FloatOption::Velocity)
    } else if is(flag, "--seconds") {
        Some(FloatOption::Seconds)
    } else if is(flag, "--hold") {
        Some(FloatOption::Hold)
    } else if is(flag, "--gap-mm") {
        Some(FloatOption::GapMm)
    } else if is(flag, "--offset-mm") {
        Some(FloatOption::OffsetMm)
    } else if is(flag, "--bar-ratio") {
        Some(FloatOption::BarRatio)
    } else if is(flag, "--contact-stiffness") {
        Some(FloatOption::ContactStiffness)
    } else if is(flag, "--bar-strike") {
        Some(FloatOption::BarStrike)
    } else if is(flag, "--pole-radius-mm") {
        Some(FloatOption::PoleRadiusMm)
    } else if is(flag, "--velocity-exponent") {
        Some(FloatOption::VelocityExponent)
    } else {
        None
    }
}

fn allowed(command: LabCommand, flag: &str) -> (r: bool)
    ensures
        r == flag_allowed(command, flag@),
{
    match command {
        LabCommand::Stress => is(flag, "--sample-rate"),
        LabCommand::Demo => is(flag, "--sample-rate") || is(flag, "--output"),
        LabCommand::Render => is(flag, "--output") || is(flag, "--note") || is(flag, "--sample-rate")
            || is(flag, "--pickup") || is(flag, "--law") || is(flag, "--sustain") || float_option(
            flag,
        ).is_some(),
    }
}

impl CommandLine {
    fn starting(command: LabCommand) -> (line: CommandLine)
        ensures
            line@ == defaults(command),
    {
        let line = CommandLine {
            command,
            output: None,
            note: 57,
            rate: 48000,
            pickup: None,
            aperture_law: false,
            calibrated_sustain: false,
            trace: false,
            compensate: false,
            laboratory: false,
            decimals: Vec::new(),
        };
        assert(decimals_view(line.decimals@) =~= Seq::<(FloatOption, Seq<char>)>::empty());
        line
    }

    /// The option `flag` takes `value`; answers whether the value was one it
    /// reads.
    fn take(&mut self, flag: &str, value: &str, float_ok: bool) -> (accepted: bool)
        ensures
            match with_value(old(self)@, flag@, value@, float_ok) {
                Some(o) => accepted && final(self)@ == o,
                None => !accepted,
            },
    {
        if is(flag, "--output") {
            self.output = Some(String::from_str(value));
            true
        } else if is(flag, "--note") {
            match parse_unsigned(value, 255) {
                Some(n) => {
                    self.note = n as u8;
                    true
                },
                None => false,
            }
        } else if is(flag, "--sample-rate") {
            match parse_unsigned(value, 0xffff_ffffu64) {
                Some(n) => {
                    self.rate = n as u32;
                    true
                },
                None => false,
            }
        } else if is(flag, "--pickup") {
            match parse_unsigned(value, usize::MAX as u64) {
                Some(n) => {
                    self.pickup = Some(n as usize);
                    true
                },
                None => false,
            }
        } else if is(flag, "--law") {
            if is(value, "production") {
                self.aperture_law = false;
                true
            } else if is(value, "aperture") {
                self.aperture_law = true;
                true
            } else {
                false
            }
        } else if is(flag, "--sustain") {
            if is(value, "original") {
                self.calibrated_sustain = false;
                true
            } else if is(value, "calibrated") {
                self.calibrated_sustain = true;
                true
            } else {
                false
            }
        } else {
            match float_option(flag) {
                Some(k) => {
                    if float_ok {
                        let ghost before = self.decimals@;
                        self.decimals.push((k, String::from_str(value)));
                        assert(decimals_view(self.decimals@) =~= decimals_view(before).push(
                            (k, value@),
                        ));
                        true
                    } else {
                        false
                    }
                },
                None => false,
            }
        }
    }
}

fn read_flags(args: &Vec<String>, float_ok: &Vec<bool>, command: LabCommand) -> (r: Result<CommandLine, String>)
    requires
        args@.len() >= 1,
    ensures
        match options_from(ids_of(args@), float_ok@, 1, Seq::empty(), defaults(command)) {
            Ok(o) => r matches Ok(line) && line@ == o,
            Err(e) => r matches Err(m) && m@ == e,
        },
{
    let ghost a = ids_of(args@);
    let ghost total = options_from(a, float_ok@, 1, Seq::empty(), defaults(command));
    let mut line = CommandLine::starting(command);
    let mut seen: Vec<String> = Vec::new();
    let mut i: usize = 1;
    assert(ids_of(seen@) =~= Seq::<Seq<char>>::empty());
    while i < args.len()
        invariant
            a == ids_of(args@),
            1 <= i,
            line.command == command,
            total == options_from(a, float_ok@, 1, Seq::empty(), defaults(command)),
            total == options_from(a, float_ok@, i as int, ids_of(seen@), line@),
        decreases args.len() - i,
    {
        let flag = args[i].as_str();
        assert(a[i as int] == flag@);
        if contains_id(&seen, &args[i]) {
            let m = message("duplicate option: ", flag);
            assert(total == Err::<CommandLineView, Seq<char>>(m@));
            return Err(m);
        }
        let ghost before = seen@;
        seen.push(args[i].clone());
        assert(ids_of(seen@) =~= ids_of(before).push(flag@));
        if is(flag, "--laboratory") {
            match command {
                LabCommand::Stress => {},
                _ => {
                    let m = String::from_str("--laboratory is a stress option");
                    assert(total == Err::<CommandLineView, Seq<char>>(m@));
                    return Err(m);
                },
            }
            line.laboratory = true;
            i += 1;
        } else if is(flag, "--trace") {
            match command {
                LabCommand::Render => {},
                _ => {
                    let m = String::from_str("--trace is a render option");
                    assert(total == Err::<CommandLineView, Seq<char>>(m@));
                    return Err(m);
                },
            }
            line.trace = true;
            i += 1;
        } else if is(flag, "--compensate") {
            match command {
                LabCommand::Render => {},
                _ => {
                    let m = String::from_str("--compensate is a render option");
                    assert(total == Err::<CommandLineView, Seq<char>>(m@));
                    return Err(m);
                },
            }
            line.compensate = true;
            i += 1;
        } else {
            if !allowed(command, flag) {
                let m = message("unknown or inapplicable option: ", flag);
                assert(total == Err::<CommandLineView, Seq<char>>(m@));
                return Err(m);
            }
            if i + 1 >= args.len() {
                let m = message("missing value for ", flag);
                assert(total == Err::<CommandLineView, Seq<char>>(m@));
                return Err(m);
            }
            let value = args[i + 1].as_str();
            assert(a[i + 1] == value@);
            let ok = i + 1 < float_ok.len() && float_ok[i + 1];
            if !line.take(flag, value, ok) {
                let mut m = message("invalid value for ", flag);
                m.append(": ");
                m.append(value);
                assert(total == Err::<CommandLineView, Seq<char>>(m@));
                return Err(m);
            }
            i += 2;
        }
    }
    Ok(line)
}

/// Reads the laboratory's command line. `float_ok[i]` says whether `args[i]`
/// parses as a floating-point number; a missing entry counts as no.
pub fn scan_options(args: &Vec<String>, float_ok: &Vec<bool>) -> (r: Result<CommandLine, String>)
    ensures
        match options_spec(ids_of(args@), float_ok@) {
            Ok(o) => r matches Ok(line) && line@ == o,
            Err(e) => r matches Err(m) && m@ == e,
        },
{
    if args.len() == 0 {
        return Err(String::from_str(HELP));
    }
    let command = match command_named(args[0].as_str()) {
        Some(c) => c,
        None => return Err(message("unknown command: ", args[0].as_str())),
    };
    let line = match read_flags(args, float_ok, command) {
        Ok(line) => line,
        Err(e) => return Err(e),
    };
    if !(line.rate == 44100 || line.rate == 48000 || line.rate == 96000 || line.rate == 192000) {
        return Err(String::from_str("unsupported sample rate"));
    }
    let extension = match &line.output {
        Some(p) => extension_of(p.as_str()),
        None => None,
    };
    let written = match &extension {
        Some(e) => Some(e.as_str()),
        None => None,
    };
    if !output_accepted(command, line.output.is_some(), written) {
        return Err(String::from_str("--output must name a .wav file"));
    }
    Ok(line)
}

/// Whether a command may run with its output: stress writes no file, render
/// and demo need an output whose extension, `extension`, is `wav`.
pub fn output_accepted(command: LabCommand, has_output: bool, extension: Option<&str>) -> (r: bool)
    ensures
        r == (command == LabCommand::Stress || (has_output && (extension matches Some(e) && e@
            == "wav"@))),
{
    match command {
        LabCommand::Stress => true,
        _ => has_output && match extension {
            Some(e) => is(e, "wav"),
            None => false,
        },
    }
}

/// Whether a command line may run, given the answers of the floating-point
/// checks: `values_in_range` says whether the velocity, duration and hold
/// are in their ranges, `default_geometry` whether the pickup gap and offset
/// are the default ones. The note must be a keyboard note; a pickup path
/// is a render option, one of the `PICKUP_PATHS` paths, at the default
/// geometry.
pub open spec fn settled_spec(o: CommandLineView, values_in_range: bool, default_geometry: bool) -> Result<CommandLineView, Seq<char>> {
    if !(FIRST_NOTE <= o.note && o.note <= LAST_NOTE) || !values_in_range {
        Err("note, velocity, duration or hold is outside its allowed range"@)
    } else {
        match o.pickup {
            Some(index) => if o.command != LabCommand::Render || index >= PICKUP_PATHS {
                Err("--pickup is a render option with a path index 0..3"@)
            } else if !default_geometry {
                Err("--pickup renders the laboratory engine at the default geometry"@)
            } else {
                Ok(o)
            },
            None => Ok(o),
        }
    }
}

/// The last checks on a read command line, after its floating-point values
/// were checked: the note and the pickup path.
pub fn settle_options(line: CommandLine, values_in_range: bool, default_geometry: bool) -> (r: Result<CommandLine, String>)
    ensures
        match settled_spec(line@, values_in_range, default_geometry) {
            Ok(o) => r matches Ok(l) && l@ == o,
            Err(e) => r matches Err(m) && m@ == e,
        },
        r matches Ok(l) ==> FIRST_NOTE <= l.note <= LAST_NOTE && (l.pickup matches Some(i) ==> (
        l.command == LabCommand::Render && i < PICKUP_PATHS && default_geometry)),
{
    if !playable(line.note) || !values_in_range {
        return Err(String::from_str("note, velocity, duration or hold is outside its allowed range"));
    }
    match line.pickup {
        Some(index) => {
            if !pickup_path_allowed(line.command, index) {
                return Err(String::from_str("--pickup is a render option with a path index 0..3"));
            }
            if !default_geometry {
                return Err(String::from_str(
                    "--pickup renders the laboratory engine at the default geometry",
                ));
            }
            Ok(line)
        },
        None => Ok(line),
    }
}

/// Whether a render may go through the laboratory pickup path `index`.
pub fn pickup_path_allowed(command: LabCommand, index: usize) -> (r: bool)
    ensures
        r == (command == LabCommand::Render && index < PICKUP_PATHS),
{
    match command {
        LabCommand::Render => index < PICKUP_PATHS,
        _ => false,
    }
}

/// What a command line of each command can say: stress reads only its rate
/// and the laboratory switch, demo only its rate and output, and only
/// stress takes the laboratory switch.
pub open spec fn keeps_to_its_command(o: CommandLineView) -> bool {
    match o.command {
        LabCommand::Stress => o.output is None && !o.trace && !o.compensate && o.pickup is None
            && o.note == 57 && !o.aperture_law && !o.calibrated_sustain && o.decimals.len() == 0,
        LabCommand::Demo => !o.laboratory && !o.trace && !o.compensate && o.pickup is None
            && o.note == 57 && !o.aperture_law && !o.calibrated_sustain && o.decimals.len() == 0,
        LabCommand::Render => !o.laboratory,
    }
}

proof fn lemma_flag_texts()
    ensures
        "--sample-rate"@ != "--output"@,
        "--sample-rate"@ != "--note"@,
        "--output"@ != "--note"@,
        float_option_of("--sample-rate"@) is None,
        float_option_of("--output"@) is None,
{
    reveal_strlit("--sample-rate");
    reveal_strlit("--output");
    reveal_strlit("--note");
    reveal_strlit("--velocity");
    reveal_strlit("--seconds");
    reveal_strlit("--hold");
    reveal_strlit("--gap-mm");
    reveal_strlit("--offset-mm");
    reveal_strlit("--bar-ratio");
    reveal_strlit("--contact-stiffness");
    reveal_strlit("--bar-strike");
    reveal_strlit("--pole-radius-mm");
    reveal_strlit("--velocity-exponent");
    assert("--sample-rate"@.len() != "--output"@.len());
    assert("--sample-rate"@.len() != "--note"@.len());
    assert("--output"@.len() != "--note"@.len());
    assert("--sample-rate"@[2] != "--velocity"@[2]);
    assert("--sample-rate"@[2] != "--seconds"@[2] || "--sample-rate"@[3] != "--seconds"@[3]);
    assert("--output"@[2] != "--velocity"@[2]);
    assert("--output"@[2] != "--seconds"@[2]);
}

proof fn lemma_options_from_keeps(
    args: Seq<Seq<char>>,
    float_ok: Seq<bool>,
    i: int,
    seen: Seq<Seq<char>>,
    o: CommandLineView,
)
    requires
        keeps_to_its_command(o),
    ensures
        options_from(args, float_ok, i, seen, o) matches Ok(r) ==> keeps_to_its_command(r)
            && r.command == o.command,
    decreases args.len() - i,
{
    lemma_flag_texts();
    if 0 <= i < args.len() {
        let flag = args[i];
        let seen2 = seen.push(flag);
        if seen.contains(flag) {
        } else if flag == "--laboratory"@ {
            if o.command == LabCommand::Stress {
                lemma_options_from_keeps(args, float_ok, i + 1, seen2, CommandLineView { laboratory: true, ..o });
            }
        } else if flag == "--trace"@ {
            if o.command == LabCommand::Render {
                lemma_options_from_keeps(args, float_ok, i + 1, seen2, CommandLineView { trace: true, ..o });
            }
        } else if flag == "--compensate"@ {
            if o.command == LabCommand::Render {
                lemma_options_from_keeps(args, float_ok, i + 1, seen2, CommandLineView { compensate: true, ..o });
            }
        } else if flag_allowed(o.command, flag) && i + 1 < args.len() {
            if let Some(o2) = with_value(o, flag, args[i + 1], float_ok_at(float_ok, i + 1)) {
                assert(keeps_to_its_command(o2) && o2.command == o.command);
                lemma_options_from_keeps(args, float_ok, i + 2, seen2, o2);
            }
        }
    }
}

/// An accepted command line keeps to its command's own options, plays at a
/// supported sample rate, and a render or demo writes a `.wav` file.
pub proof fn law_accepted_command_line_keeps_to_its_command(args: Seq<Seq<char>>, float_ok: Seq<bool>)
    ensures
        options_spec(args, float_ok) matches Ok(o) ==> {
            &&& keeps_to_its_command(o)
            &&& supported_rate(o.rate)
            &&& o.command != LabCommand::Stress ==> names_wav(o.output)
        },
{
    if args.len() > 0 {
        if let Some(c) = command_of(args[0]) {
            lemma_options_from_keeps(args, float_ok, 1, Seq::empty(), defaults(c));
        }
    }
}

} // verus!
