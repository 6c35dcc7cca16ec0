use teelog::color::{ColorMode, TextColor};
use teelog::merge::MergeQueues;
use teelog::message::{Message, Origin};
use teelog::sink::{setup_outputs, OutputSpec, SharedOutput, SinkTarget, TimestampMode};
use teelog::supervisor::{
    dispatch_batch, drain_remaining_messages, effective_modes, handle_incoming,
    supervisor_exit_code, SIGNAL_EXIT_CODE,
};

fn msg(timestamp: u64, line: &str) -> Message {
    Message { timestamp, line: line.to_string() }
}

#[test]
fn render_plain_line_with_timestamps_off() {
    let sp: OutputSpec<Vec<u8>> =
        OutputSpec::new(SinkTarget::TermStdout, 0, TimestampMode::Off, ColorMode::Never, TextColor::White);
    assert_eq!(sp.render(&msg(123, "hello")), "hello");
}

#[test]
fn render_relative_prefix() {
    let sp: OutputSpec<Vec<u8>> = OutputSpec::new(
        SinkTarget::TermStdout,
        1_000_000_000,
        TimestampMode::Relative,
        ColorMode::Never,
        TextColor::White,
    );
    assert_eq!(sp.render(&msg(2_500_000_000, "hi")), "00:00:01.500000: hi");
}

#[test]
fn render_relative_clamps_a_backwards_clock_to_zero() {
    let sp: OutputSpec<Vec<u8>> = OutputSpec::new(
        SinkTarget::TermStdout,
        1_000,
        TimestampMode::Relative,
        ColorMode::Never,
        TextColor::White,
    );
    assert_eq!(sp.render(&msg(50, "hi")), "00:00:00.000000: hi");
}

#[test]
fn render_absolute_prefix_colorized() {
    let sp: OutputSpec<Vec<u8>> = OutputSpec::new(
        SinkTarget::TermStderr,
        0,
        TimestampMode::Absolute,
        ColorMode::Always,
        TextColor::Red,
    );
    let stamp = time::UtcDateTime::from_unix_timestamp_nanos(5_000_000_000).unwrap().to_string();
    let expected = format!("\x1b[90m{}\x1b[0m: \x1b[31mboom\x1b[0m", stamp);
    assert_eq!(sp.render(&msg(5_000_000_000, "boom")), expected);
}

#[test]
fn never_mode_log_file_is_byte_identical_plain_text() {
    let shared: SharedOutput<Vec<u8>> = SharedOutput::new(Vec::new());
    let (mut stderr_outputs, mut stdout_outputs) =
        setup_outputs(ColorMode::Never, TimestampMode::Off, 0, shared.share());
    let batch = vec![
        (Origin::Stdout, msg(1, "plain out")),
        (Origin::Stderr, msg(2, "plain err")),
    ];
    dispatch_batch(&batch, &mut stderr_outputs, &mut stdout_outputs).unwrap();
    drop(stderr_outputs);
    drop(stdout_outputs);
    let log = shared.try_into_writer().expect("no other handle remains");
    assert_eq!(log, b"plain out\nplain err\n");
}

#[test]
fn auto_mode_colorizes_the_log_file() {
    // The log-file descriptors promote `Auto` to `Always`, independent of
    // whether the invoking terminal supports color.
    let shared: SharedOutput<Vec<u8>> = SharedOutput::new(Vec::new());
    let (mut stderr_outputs, mut stdout_outputs) =
        setup_outputs(ColorMode::Auto, TimestampMode::Off, 0, shared.share());
    let batch = vec![(Origin::Stderr, msg(1, "warn"))];
    dispatch_batch(&batch, &mut stderr_outputs, &mut stdout_outputs).unwrap();
    drop(stderr_outputs);
    drop(stdout_outputs);
    let log = shared.try_into_writer().expect("no other handle remains");
    assert_eq!(log, b"\x1b[31mwarn\x1b[0m\n");
}

#[test]
fn interleaved_scenario_reaches_the_log_in_program_order() {
    // `echo -n a; echo b 1>&2` with backoff 100 ms: stdout "a" then stderr
    // "b" captured within 1 ms; the log receives them in that order.
    let shared: SharedOutput<Vec<u8>> = SharedOutput::new(Vec::new());
    let (mut stderr_outputs, mut stdout_outputs) =
        setup_outputs(ColorMode::Never, TimestampMode::Off, 0, shared.share());
    let mut queues = MergeQueues::new();
    queues.push(Origin::Stdout, msg(5_000_000, "a"));
    queues.push(Origin::Stderr, msg(6_000_000, "b"));
    drain_remaining_messages(&mut queues, &mut stderr_outputs, &mut stdout_outputs).unwrap();
    drop(stderr_outputs);
    drop(stdout_outputs);
    let log = shared.try_into_writer().expect("no other handle remains");
    assert_eq!(log, b"a\nb\n");
}

#[test]
fn rerunning_identical_output_reproduces_the_log() {
    // Two runs of a command with deterministic output, timestamps off:
    // capture instants differ between the runs, yet the log bytes match.
    let mut logs: Vec<Vec<u8>> = Vec::new();
    for run in 0..2u64 {
        let shared: SharedOutput<Vec<u8>> = SharedOutput::new(Vec::new());
        let (mut stderr_outputs, mut stdout_outputs) =
            setup_outputs(ColorMode::Never, TimestampMode::Off, run * 1_000, shared.share());
        let mut queues = MergeQueues::new();
        queues.push(Origin::Stdout, msg(10_000 + run * 777, "building"));
        queues.push(Origin::Stderr, msg(20_000 + run * 777, "warning: dusty"));
        queues.push(Origin::Stdout, msg(30_000 + run * 777, "done"));
        drain_remaining_messages(&mut queues, &mut stderr_outputs, &mut stdout_outputs).unwrap();
        drop(stderr_outputs);
        drop(stdout_outputs);
        logs.push(shared.try_into_writer().expect("no other handle remains"));
    }
    assert_eq!(logs[0], logs[1]);
    assert_eq!(logs[0], b"building\nwarning: dusty\ndone\n");
}

#[test]
fn silent_child_leaves_an_empty_log_and_its_exit_code() {
    // Child exits with code 2 and produces no output: the log file exists
    // and holds zero bytes; the supervisor reports 2.
    let shared: SharedOutput<Vec<u8>> = SharedOutput::new(Vec::new());
    let (mut stderr_outputs, mut stdout_outputs) =
        setup_outputs(ColorMode::Auto, TimestampMode::Relative, 0, shared.share());
    let mut queues = MergeQueues::new();
    drain_remaining_messages(&mut queues, &mut stderr_outputs, &mut stdout_outputs).unwrap();
    drop(stderr_outputs);
    drop(stdout_outputs);
    let log = shared.try_into_writer().expect("no other handle remains");
    assert!(log.is_empty());
    assert_eq!(supervisor_exit_code(Some(2)), 2);
}

#[test]
fn signal_killed_child_yields_the_fallback_sentinel() {
    assert_eq!(supervisor_exit_code(None), SIGNAL_EXIT_CODE);
    assert_eq!(supervisor_exit_code(None), 126);
}

#[test]
fn exit_codes_reduce_to_a_byte() {
    assert_eq!(supervisor_exit_code(Some(0)), 0);
    assert_eq!(supervisor_exit_code(Some(255)), 255);
    assert_eq!(supervisor_exit_code(Some(256)), 0);
    assert_eq!(supervisor_exit_code(Some(-1)), 255);
}

#[test]
fn plain_flag_forces_timestamps_off_and_color_never() {
    let (c, t) = effective_modes(true, ColorMode::Always, TimestampMode::Relative);
    assert!(matches!(c, ColorMode::Never));
    assert!(matches!(t, TimestampMode::Off));
    let (c, t) = effective_modes(false, ColorMode::Always, TimestampMode::Relative);
    assert!(matches!(c, ColorMode::Always));
    assert!(matches!(t, TimestampMode::Relative));
}

#[test]
fn handle_incoming_with_zero_backoff_writes_at_once() {
    let shared: SharedOutput<Vec<u8>> = SharedOutput::new(Vec::new());
    let (mut stderr_outputs, mut stdout_outputs) =
        setup_outputs(ColorMode::Never, TimestampMode::Off, 0, shared.share());
    let mut queues = MergeQueues::new();
    handle_incoming(
        &mut queues,
        Origin::Stdout,
        msg(0, "first"),
        0,
        &mut stderr_outputs,
        &mut stdout_outputs,
    )
    .unwrap();
    drop(stderr_outputs);
    drop(stdout_outputs);
    let log = shared.try_into_writer().expect("no other handle remains");
    assert_eq!(log, b"first\n");
}

#[test]
fn setup_outputs_builds_two_descriptors_per_origin() {
    let shared: SharedOutput<Vec<u8>> = SharedOutput::new(Vec::new());
    let (stderr_outputs, stdout_outputs) =
        setup_outputs(ColorMode::Auto, TimestampMode::Absolute, 7, shared);
    assert_eq!(stderr_outputs.specs.len(), 2);
    assert_eq!(stdout_outputs.specs.len(), 2);
    for sp in &stderr_outputs.specs {
        assert!(matches!(sp.base_color, TextColor::Red));
        assert!(matches!(sp.print_timestamp, TimestampMode::Absolute));
        assert_eq!(sp.start_timestamp, 7);
    }
    for sp in &stdout_outputs.specs {
        assert!(matches!(sp.base_color, TextColor::White));
    }
    // Terminal descriptors keep the configured mode; log descriptors promote
    // `Auto` to `Always`.
    assert!(matches!(stderr_outputs.specs[0].color_mode, ColorMode::Auto));
    assert!(matches!(stderr_outputs.specs[1].color_mode, ColorMode::Always));
    assert!(matches!(stdout_outputs.specs[0].color_mode, ColorMode::Auto));
    assert!(matches!(stdout_outputs.specs[1].color_mode, ColorMode::Always));
}

#[test]
fn a_failed_descriptor_stops_the_rest_of_its_set() {
    // First descriptor fails: the later descriptor in the set must not be
    // attempted for that message (fail-fast), so the good buffer stays empty.
    let bad: SharedOutput<FlaggedWriter> = SharedOutput::new(FlaggedWriter { fail: true, buf: Vec::new() });
    let good: SharedOutput<FlaggedWriter> = SharedOutput::new(FlaggedWriter { fail: false, buf: Vec::new() });
    let mut outputs = teelog::sink::Outputs {
        specs: vec![
            OutputSpec::new(SinkTarget::SharedLog(bad), 0, TimestampMode::Off, ColorMode::Never, TextColor::White),
            OutputSpec::new(SinkTarget::SharedLog(good.share()), 0, TimestampMode::Off, ColorMode::Never, TextColor::White),
        ],
    };
    let res = outputs.write_message(&msg(1, "lost"));
    assert!(res.is_err());
    drop(outputs);
    let w = good.try_into_writer().expect("no other handle remains");
    assert!(w.buf.is_empty());
}

struct FlaggedWriter {
    fail: bool,
    buf: Vec<u8>,
}

impl std::io::Write for FlaggedWriter {
    fn write(&mut self, buf: &[u8]) -> std::io::Result<usize> {
        if self.fail {
            Err(std::io::Error::new(std::io::ErrorKind::Other, "broken pipe"))
        } else {
            self.buf.extend_from_slice(buf);
            Ok(buf.len())
        }
    }

    fn flush(&mut self) -> std::io::Result<()> {
        Ok(())
    }
}

struct FailingWriter;

impl std::io::Write for FailingWriter {
    fn write(&mut self, _buf: &[u8]) -> std::io::Result<usize> {
        Err(std::io::Error::new(std::io::ErrorKind::Other, "disk full"))
    }

    fn flush(&mut self) -> std::io::Result<()> {
        Ok(())
    }
}

#[test]
fn failed_sink_write_propagates_an_error() {
    let shared: SharedOutput<FailingWriter> = SharedOutput::new(FailingWriter);
    let mut sp = OutputSpec::new(
        SinkTarget::SharedLog(shared),
        0,
        TimestampMode::Off,
        ColorMode::Never,
        TextColor::White,
    );
    let res = sp.write_message(&msg(1, "lost"));
    assert!(res.is_err());
}

#[test]
fn recorded_message_keeps_its_line() {
    let m = Message::record("kept".to_string());
    assert_eq!(m.line, "kept");
}

#[test]
fn shared_output_clones_converge_on_one_buffer() {
    let shared: SharedOutput<Vec<u8>> = SharedOutput::new(Vec::new());
    let mut a = shared.share();
    let mut b = shared.share();
    a.write_line("from a").unwrap();
    b.write_line("from b").unwrap();
    b.flush().unwrap();
    drop(a);
    drop(b);
    let buf = shared.try_into_writer().expect("no other handle remains");
    assert_eq!(buf, b"from a\nfrom b\n");
}
