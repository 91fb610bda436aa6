use timelapse::decimal::{parse_probe_output, parse_seconds, pow10_u64, ParseError, Seconds};
use timelapse::factor::{gcd_u128, pts_factor, FactorError, Ratio};
use timelapse::pipeline::{program_name, Action, Event, RunError, Stage, Timelapse, Tool};
use timelapse::render::{decimal_string, seconds_string, setpts_filter};

fn secs(units: u64, scale: u32) -> Seconds {
    Seconds { units, scale }
}

fn exited(stdout: &[u8]) -> Event {
    Event::Exited { success: true, stdout: stdout.to_vec() }
}

fn failed() -> Event {
    Event::Exited { success: false, stdout: Vec::new() }
}

fn run_args(a: Action) -> (Tool, Vec<String>) {
    match a {
        Action::Run { tool, args } => (tool, args),
        Action::Stop(r) => panic!("run stopped early: {:?}", r),
    }
}

fn strs(v: &[&str]) -> Vec<String> {
    v.iter().map(|s| s.to_string()).collect()
}

/// A run that has passed both tool checks, with its intermediate file named.
fn probing_run(length: Seconds) -> Timelapse {
    let mut t = Timelapse::new("in.mp4".to_string(), "out.mp4".to_string(), length).unwrap();
    t.advance(exited(b""));
    t.advance(exited(b""));
    t.set_intermediate("/tmp/mid.mp4".to_string());
    assert_eq!(t.stage, Stage::Probe);
    t
}

#[test]
fn probe_output_with_newline_parses() {
    let d = parse_probe_output(b"12.500000\n").unwrap();
    assert_eq!(d, secs(12_500_000, 6));
    assert_eq!(seconds_string(d), "12.500000");
}

#[test]
fn probe_output_reads_only_first_line() {
    assert_eq!(parse_probe_output(b"30.000000\nnoise"), Ok(secs(30_000_000, 6)));
    assert_eq!(parse_probe_output(b"7"), Ok(secs(7, 0)));
}

#[test]
fn probe_output_empty_fails() {
    assert_eq!(parse_probe_output(b""), Err(ParseError::Empty));
    assert_eq!(parse_probe_output(b"\n12.5\n"), Err(ParseError::Empty));
}

#[test]
fn probe_output_non_numeric_fails() {
    assert_eq!(parse_probe_output(b"N/A\n"), Err(ParseError::NotNumeric));
    assert_eq!(parse_probe_output(b"abc"), Err(ParseError::NotNumeric));
    assert_eq!(parse_probe_output(b".\n"), Err(ParseError::NotNumeric));
    assert_eq!(parse_probe_output(b"1.2.3"), Err(ParseError::NotNumeric));
    assert_eq!(parse_probe_output(b"-1"), Err(ParseError::NotNumeric));
    assert_eq!(parse_probe_output(b"12.5\r\n"), Err(ParseError::NotNumeric));
}

#[test]
fn decimal_forms() {
    assert_eq!(parse_seconds(b"10"), Ok(secs(10, 0)));
    assert_eq!(parse_seconds(b".5"), Ok(secs(5, 1)));
    assert_eq!(parse_seconds(b"5."), Ok(secs(5, 0)));
    assert_eq!(parse_seconds(b"0012.0500"), Ok(secs(120_500, 4)));
    assert_eq!(parse_seconds(b"18446744073709551615"), Ok(secs(u64::MAX, 0)));
}

#[test]
fn decimal_out_of_range() {
    assert_eq!(parse_seconds(b"18446744073709551616"), Err(ParseError::OutOfRange));
    assert_eq!(parse_seconds(b"0.0000000000000000001"), Err(ParseError::OutOfRange));
    assert_eq!(parse_seconds(b"0.000000000000000001"), Ok(secs(1, 18)));
}

#[test]
fn powers_and_gcd() {
    assert_eq!(pow10_u64(0), 1);
    assert_eq!(pow10_u64(3), 1000);
    assert_eq!(pow10_u64(18), 1_000_000_000_000_000_000);
    assert_eq!(gcd_u128(12, 18), 6);
    assert_eq!(gcd_u128(7, 0), 7);
    assert_eq!(gcd_u128(0, 5), 5);
}

#[test]
fn factor_is_length_over_duration() {
    assert_eq!(pts_factor(secs(30_000_000, 6), secs(10, 0)), Ok(Ratio { num: 1, den: 3 }));
    assert_eq!(pts_factor(secs(12_500_000, 6), secs(10, 0)), Ok(Ratio { num: 4, den: 5 }));
    assert_eq!(pts_factor(secs(10, 0), secs(25, 0)), Ok(Ratio { num: 5, den: 2 }));
    assert_eq!(pts_factor(secs(7, 0), secs(7, 0)), Ok(Ratio { num: 1, den: 1 }));
}

#[test]
fn factor_of_zero_length_is_an_error() {
    assert_eq!(pts_factor(secs(30, 0), secs(0, 0)), Err(FactorError::InvalidDuration));
    assert_eq!(pts_factor(secs(30, 0), secs(0, 3)), Err(FactorError::InvalidDuration));
}

#[test]
fn factor_of_zero_duration_is_an_error() {
    assert_eq!(pts_factor(secs(0, 6), secs(10, 0)), Err(FactorError::InvalidDuration));
}

#[test]
fn filter_embeds_factor() {
    assert_eq!(setpts_filter(Ratio { num: 1, den: 3 }), "setpts=1/3*PTS");
    assert_eq!(setpts_filter(Ratio { num: 120, den: 7 }), "setpts=120/7*PTS");
}

#[test]
fn rendering() {
    assert_eq!(decimal_string(0), "0");
    assert_eq!(decimal_string(907), "907");
    assert_eq!(decimal_string(u128::MAX), "340282366920938463463374607431768211455");
    assert_eq!(seconds_string(secs(11, 0)), "11");
    assert_eq!(seconds_string(secs(5, 3)), "0.005");
    assert_eq!(seconds_string(secs(115, 1)), "11.5");
}

#[test]
fn plus_one_second() {
    assert_eq!(secs(10, 0).plus_one(), Some(secs(11, 0)));
    assert_eq!(secs(105, 1).plus_one(), Some(secs(115, 1)));
    assert_eq!(secs(u64::MAX, 0).plus_one(), None);
}

#[test]
fn program_names() {
    assert_eq!(program_name(Tool::Processor), "ffmpeg");
    assert_eq!(program_name(Tool::Prober), "ffprobe");
}

#[test]
fn new_run_rejects_bad_lengths() {
    let r = Timelapse::new("a".to_string(), "b".to_string(), secs(0, 0));
    assert!(matches!(r, Err(RunError::InvalidDuration)));
    let r = Timelapse::new("a".to_string(), "b".to_string(), secs(u64::MAX, 0));
    assert!(matches!(r, Err(RunError::LengthOutOfRange)));
}

#[test]
fn thirty_seconds_to_ten() {
    let mut t = Timelapse::new("in.mp4".to_string(), "out.mp4".to_string(), secs(10, 0)).unwrap();
    assert_eq!(run_args(t.action()), (Tool::Processor, strs(&["-h"])));
    t.advance(exited(b"usage"));
    assert_eq!(run_args(t.action()), (Tool::Prober, strs(&["-h"])));
    t.advance(exited(b""));
    t.set_intermediate("/tmp/mid.mp4".to_string());
    assert_eq!(
        run_args(t.action()),
        (
            Tool::Prober,
            strs(&[
                "-i",
                "in.mp4",
                "-show_entries",
                "format=duration",
                "-v",
                "quiet",
                "-print_format",
                "csv=p=0"
            ])
        )
    );
    t.advance(exited(b"30.000000\n"));
    assert_eq!(t.stage, Stage::SpeedUp(Ratio { num: 1, den: 3 }));
    assert_eq!(
        run_args(t.action()),
        (
            Tool::Processor,
            strs(&["-i", "in.mp4", "-filter:v", "setpts=1/3*PTS", "-y", "/tmp/mid.mp4"])
        )
    );
    t.advance(exited(b""));
    assert_eq!(
        run_args(t.action()),
        (
            Tool::Processor,
            strs(&["-i", "/tmp/mid.mp4", "-ss", "0.0", "-t", "11", "-y", "out.mp4"])
        )
    );
    t.advance(exited(b""));
    assert_eq!(t.action(), Action::Stop(Ok(())));
}

#[test]
fn fractional_length_trims_one_second_more() {
    let mut t = probing_run(secs(25, 1));
    t.advance(exited(b"10.000000\n"));
    assert_eq!(t.stage, Stage::SpeedUp(Ratio { num: 1, den: 4 }));
    t.advance(exited(b""));
    let (_, args) = run_args(t.action());
    assert_eq!(args[5], "3.5");
}

#[test]
fn missing_prober_stops_before_processing() {
    let mut t = Timelapse::new("in.mp4".to_string(), "out.mp4".to_string(), secs(10, 0)).unwrap();
    t.advance(exited(b""));
    t.advance(Event::NotLaunched);
    let stop = Action::Stop(Err(RunError::MissingTool(Tool::Prober)));
    assert_eq!(t.action(), stop);
    t.advance(exited(b"30.000000\n"));
    t.advance(exited(b""));
    t.advance(exited(b""));
    assert_eq!(t.action(), stop);
}

#[test]
fn missing_processor_stops_at_once() {
    let mut t = Timelapse::new("in.mp4".to_string(), "out.mp4".to_string(), secs(10, 0)).unwrap();
    t.advance(Event::NotLaunched);
    assert_eq!(t.action(), Action::Stop(Err(RunError::MissingTool(Tool::Processor))));
}

#[test]
fn check_counts_a_failed_exit_as_present() {
    let mut t = Timelapse::new("in.mp4".to_string(), "out.mp4".to_string(), secs(10, 0)).unwrap();
    t.advance(failed());
    t.advance(failed());
    assert_eq!(t.stage, Stage::Probe);
}

#[test]
fn probe_that_cannot_start_stops() {
    let mut t = probing_run(secs(10, 0));
    t.advance(Event::NotLaunched);
    assert_eq!(t.stage, Stage::Finished(Err(RunError::MissingTool(Tool::Prober))));
}

#[test]
fn unreadable_probe_stops() {
    let mut t = probing_run(secs(10, 0));
    t.advance(exited(b"N/A\n"));
    assert_eq!(t.action(), Action::Stop(Err(RunError::ProbeFailed(ParseError::NotNumeric))));
    let mut t = probing_run(secs(10, 0));
    t.advance(exited(b""));
    assert_eq!(t.action(), Action::Stop(Err(RunError::ProbeFailed(ParseError::Empty))));
}

#[test]
fn zero_duration_input_stops() {
    let mut t = probing_run(secs(10, 0));
    t.advance(exited(b"0.000000\n"));
    assert_eq!(t.action(), Action::Stop(Err(RunError::InvalidDuration)));
}

#[test]
fn failed_speed_up_stops_before_trim() {
    let mut t = probing_run(secs(10, 0));
    t.advance(exited(b"30.0\n"));
    t.advance(failed());
    assert_eq!(t.action(), Action::Stop(Err(RunError::SpeedUpFailed)));
    let mut t = probing_run(secs(10, 0));
    t.advance(exited(b"30.0\n"));
    t.advance(Event::NotLaunched);
    assert_eq!(t.stage, Stage::Finished(Err(RunError::SpeedUpFailed)));
}

#[test]
fn failed_trim_is_reported() {
    let mut t = probing_run(secs(10, 0));
    t.advance(exited(b"30.0\n"));
    t.advance(exited(b""));
    t.advance(failed());
    assert_eq!(t.action(), Action::Stop(Err(RunError::TrimFailed)));
}
