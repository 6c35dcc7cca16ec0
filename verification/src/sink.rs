use vstd::prelude::*;

use crate::color::{
    colorize, colorize_result, mode_admits, no_esc, painted, ColorMode, TextColor,
};
use crate::message::Message;
use crate::timefmt::{absolute_display_of, format_absolute, format_relative, relative_spec};
use crate::timefmt::lemma_relative_no_esc;
use std::io::Write;
use vstd::string::StringExecFns;

verus! {

/// Timestamp-display mode of one destination descriptor.
#[derive(Clone, Copy, PartialEq, Eq, Structural, Debug)]
pub enum TimestampMode {
    Off,
    Absolute,
    Relative,
}

/// A write to a destination failed (disk full, broken pipe); never retried,
/// propagated to abort the enclosing drain loop.
#[derive(Debug)]
pub struct SinkWriteError {
    pub message: String,
}

/// The reference-counted cell behind a `SharedOutput`: one physical
/// writable resource behind as many handles as there are descriptors. The
/// handles must be driven from a single thread of control: the cell cannot
/// cross threads, and a concurrent write through two handles would panic
/// loudly in `RefCell::borrow_mut` rather than silently corrupt output.
#[verifier::external_body]
#[verifier::reject_recursive_types(W)]
struct SharedCell<W> {
    writer: std::rc::Rc<std::cell::RefCell<W>>,
}

impl<W> SharedCell<W> {
    /// Relies on `Rc::new` and `RefCell::new`: wraps the writer.
    #[verifier::external_body]
    fn new(writer: W) -> SharedCell<W> {
        SharedCell { writer: std::rc::Rc::new(std::cell::RefCell::new(writer)) }
    }

    /// Relies on `Rc::clone`: a second handle aliasing the same writer.
    #[verifier::external_body]
    fn share(&self) -> SharedCell<W> {
        SharedCell { writer: std::rc::Rc::clone(&self.writer) }
    }

    /// Relies on `Rc::try_unwrap` and `RefCell::into_inner`: yields the
    /// writer exactly when no other handle remains.
    #[verifier::external_body]
    fn try_into_writer(self) -> Option<W> {
        match std::rc::Rc::try_unwrap(self.writer) {
            Ok(cell) => Some(cell.into_inner()),
            Err(_) => None,
        }
    }
}

impl<W: Write> SharedCell<W> {
    /// Relies on `RefCell::borrow_mut` and the writer's `std::io::Write`
    /// impl through the `writeln` macro: writes the line and a line
    /// terminator. The borrow lives only for this call and the handle
    /// cannot leave its thread, so the borrow cannot conflict.
    #[verifier::external_body]
    fn write_line(&mut self, line: &str) -> Result<(), SinkWriteError> {
        match writeln!(self.writer.borrow_mut(), "{}", line) {
            Ok(()) => Ok(()),
            Err(e) => Err(SinkWriteError { message: e.to_string() }),
        }
    }

    /// Relies on `RefCell::borrow_mut` and the writer's `flush`.
    #[verifier::external_body]
    fn flush(&mut self) -> Result<(), SinkWriteError> {
        match self.writer.borrow_mut().flush() {
            Ok(()) => Ok(()),
            Err(e) => Err(SinkWriteError { message: e.to_string() }),
        }
    }
}

/// A wrapper around one shared output sink, so several destination
/// descriptors (across both origins' sink sets) can target the same log
/// file without opening it twice. Cloning the handle is cheap; all clones
/// alias one writer and are driven from the single merge/drain thread.
#[verifier::reject_recursive_types(W)]
pub struct SharedOutput<W> {
    cell: SharedCell<W>,
}

impl<W> SharedOutput<W> {
    /// Wrap a writer in a shared handle.
    pub fn new(writer: W) -> SharedOutput<W> {
        SharedOutput { cell: SharedCell::new(writer) }
    }

    /// A second handle aliasing the same underlying writer; cheap.
    pub fn share(&self) -> SharedOutput<W> {
        SharedOutput { cell: self.cell.share() }
    }

    /// Recover the underlying writer once this is the last handle.
    pub fn try_into_writer(self) -> Option<W> {
        self.cell.try_into_writer()
    }
}

impl<W: Write> SharedOutput<W> {
    /// Write one line and a line terminator to the shared writer.
    pub fn write_line(&mut self, line: &str) -> Result<(), SinkWriteError> {
        self.cell.write_line(line)
    }

    /// Flush the shared writer.
    pub fn flush(&mut self) -> Result<(), SinkWriteError> {
        self.cell.flush()
    }
}

/// Write one line and a line terminator to the process's own standard output.
///
/// Relies on `std::io::stdout`'s `Write` impl through the `writeln` macro.
#[verifier::external_body]
fn write_line_stdout(line: &str) -> Result<(), SinkWriteError> {
    match writeln!(std::io::stdout(), "{}", line) {
        Ok(()) => Ok(()),
        Err(e) => Err(SinkWriteError { message: e.to_string() }),
    }
}

/// Write one line and a line terminator to the process's own standard error.
///
/// Relies on `std::io::stderr`'s `Write` impl through the `writeln` macro.
#[verifier::external_body]
fn write_line_stderr(line: &str) -> Result<(), SinkWriteError> {
    match writeln!(std::io::stderr(), "{}", line) {
        Ok(()) => Ok(()),
        Err(e) => Err(SinkWriteError { message: e.to_string() }),
    }
}

/// The writable target of one destination descriptor: the invoking
/// terminal's own stream, or the shared log file.
#[verifier::reject_recursive_types(W)]
pub enum SinkTarget<W> {
    TermStdout,
    TermStderr,
    SharedLog(SharedOutput<W>),
}

/// One destination descriptor: a writable target plus its formatting policy.
/// `written` records, as ghost history, every rendered line handed to the
/// target, in order (each is terminated with a newline by the target).
#[verifier::reject_recursive_types(W)]
pub struct OutputSpec<W> {
    pub target: SinkTarget<W>,
    pub start_timestamp: u64,
    pub print_timestamp: TimestampMode,
    pub color_mode: ColorMode,
    pub base_color: TextColor,
    pub written: Ghost<Seq<Seq<char>>>,
}

/// The elapsed nanoseconds from the sink set's start instant to a capture
/// instant, clamped at zero if the wall clock ran backwards.
pub open spec fn rel_duration(timestamp: int, start: int) -> nat {
    if timestamp >= start {
        (timestamp - start) as nat
    } else {
        0
    }
}

/// The timestamp prefix of a rendered message (empty when timestamps are
/// off; otherwise the rendered instant, painted bright black when `tint`
/// is set, followed by a colon and a space).
pub open spec fn prefix_with<W>(sp: OutputSpec<W>, m: Message, tint: bool) -> Seq<char> {
    match sp.print_timestamp {
        TimestampMode::Off => Seq::empty(),
        TimestampMode::Absolute => painted(
            absolute_display_of(m.timestamp),
            TextColor::BrightBlack,
            tint,
        ) + seq![':', ' '],
        TimestampMode::Relative => painted(
            relative_spec(rel_duration(m.timestamp as int, sp.start_timestamp as int)),
            TextColor::BrightBlack,
            tint,
        ) + seq![':', ' '],
    }
}

/// A fully rendered message line under one pair of paint outcomes: the
/// timestamp prefix, then the message text painted in the descriptor's base
/// color.
pub open spec fn render_with<W>(
    sp: OutputSpec<W>,
    m: Message,
    tint_prefix: bool,
    tint_line: bool,
) -> Seq<char> {
    prefix_with(sp, m, tint_prefix) + painted(m.line@, sp.base_color, tint_line)
}

/// What rendering a message under a descriptor may produce: under `Never`
/// exactly the plain rendering; and, for message text free of the escape
/// character, always a rendering whose two paint outcomes the color mode
/// admits.
pub open spec fn render_result<W>(sp: OutputSpec<W>, m: Message, r: Seq<char>) -> bool {
    &&& (sp.color_mode == ColorMode::Never ==> r == render_with(sp, m, false, false))
    &&& (no_esc(m.line@) ==> exists|bp: bool, bl: bool|
        mode_admits(sp.color_mode, bp) && mode_admits(sp.color_mode, bl) && r == render_with(
            sp,
            m,
            bp,
            bl,
        ))
}

/// The formatting policy of a descriptor, unchanged by writes.
pub open spec fn same_config<W>(pre: OutputSpec<W>, post: OutputSpec<W>) -> bool {
    &&& post.start_timestamp == pre.start_timestamp
    &&& post.print_timestamp == pre.print_timestamp
    &&& post.color_mode == pre.color_mode
    &&& post.base_color == pre.base_color
}

/// A successful write appended exactly one rendered line for `m` to the
/// descriptor's history and left its policy unchanged.
pub open spec fn wrote_line_ok<W>(pre: OutputSpec<W>, post: OutputSpec<W>, m: Message) -> bool {
    &&& same_config(pre, post)
    &&& post.written@.len() == pre.written@.len() + 1
    &&& post.written@.take(pre.written@.len() as int) == pre.written@
    &&& render_result(pre, m, post.written@.last())
}

/// What one write call guarantees: on success, `wrote_line_ok`; on failure,
/// the history is unchanged (the line never reached the target whole) and
/// the policy is untouched.
pub open spec fn wrote_message<W>(
    pre: OutputSpec<W>,
    post: OutputSpec<W>,
    m: Message,
    res: Result<(), SinkWriteError>,
) -> bool {
    &&& same_config(pre, post)
    &&& (res is Ok ==> wrote_line_ok(pre, post, m))
    &&& (res is Err ==> post.written@ == pre.written@)
}

impl<W> OutputSpec<W> {
    /// A descriptor with the given target and policy and an empty history.
    pub fn new(
        target: SinkTarget<W>,
        start_timestamp: u64,
        print_timestamp: TimestampMode,
        color_mode: ColorMode,
        base_color: TextColor,
    ) -> (r: OutputSpec<W>)
        ensures
            fresh_desc(r, color_mode, base_color, print_timestamp, start_timestamp as int),
            r.target == target,
    {
        OutputSpec {
            target,
            start_timestamp,
            print_timestamp,
            color_mode,
            base_color,
            written: Ghost(Seq::empty()),
        }
    }

    /// Render one message according to this descriptor: an optional
    /// timestamp prefix, then the colorized text.
    pub fn render(&self, message: &Message) -> (r: String)
        ensures
            render_result(*self, *message, r@),
    {
        let line_part = colorize(message.line.as_str(), self.base_color, self.color_mode);
        match self.print_timestamp {
            TimestampMode::Off => {
                proof {
                    if self.color_mode == ColorMode::Never {
                        assert(line_part@ =~= render_with(*self, *message, false, false));
                    }
                    if no_esc(message.line@) {
                        let bl = choose|b: bool|
                            mode_admits(self.color_mode, b) && line_part@ == painted(
                                message.line@,
                                self.base_color,
                                b,
                            );
                        let bp = (self.color_mode == ColorMode::Always);
                        assert(mode_admits(self.color_mode, bp));
                        assert(line_part@ =~= render_with(*self, *message, bp, bl));
                    }
                }
                line_part
            },
            TimestampMode::Absolute => {
                let stamp = format_absolute(message.timestamp);
                self.finish_prefixed(message, stamp, line_part)
            },
            TimestampMode::Relative => {
                let duration = if message.timestamp >= self.start_timestamp {
                    message.timestamp - self.start_timestamp
                } else {
                    0
                };
                let stamp = format_relative(duration);
                proof {
                    lemma_relative_no_esc(
                        rel_duration(message.timestamp as int, self.start_timestamp as int),
                    );
                }
                self.finish_prefixed(message, stamp, line_part)
            },
        }
    }

    /// Assemble `<painted stamp>: <painted line>` for a descriptor whose
    /// timestamp mode is not `Off`.
    fn finish_prefixed(&self, message: &Message, stamp: String, line_part: String) -> (r: String)
        requires
            self.print_timestamp != TimestampMode::Off,
            self.print_timestamp == TimestampMode::Absolute ==> stamp@ == absolute_display_of(
                message.timestamp,
            ),
            self.print_timestamp == TimestampMode::Relative ==> stamp@ == relative_spec(
                rel_duration(message.timestamp as int, self.start_timestamp as int),
            ),
            no_esc(stamp@),
            colorize_result(message.line@, self.base_color, self.color_mode, line_part@),
        ensures
            render_result(*self, *message, r@),
    {
        let mut out = colorize(stamp.as_str(), TextColor::BrightBlack, self.color_mode);
        let ghost stamp_part = out@;
        out.append(": ");
        out.append(line_part.as_str());
        proof {
            reveal_strlit(": ");
            assert((": ")@ =~= seq![':', ' ']);
            assert(out@ =~= stamp_part + seq![':', ' '] + line_part@);
            if self.color_mode == ColorMode::Never {
                assert(out@ =~= render_with(*self, *message, false, false));
            }
            if no_esc(message.line@) {
                let bp = choose|b: bool|
                    mode_admits(self.color_mode, b) && stamp_part == painted(
                        stamp@,
                        TextColor::BrightBlack,
                        b,
                    );
                let bl = choose|b: bool|
                    mode_admits(self.color_mode, b) && line_part@ == painted(
                        message.line@,
                        self.base_color,
                        b,
                    );
                assert(mode_admits(self.color_mode, bp) && stamp_part == painted(
                    stamp@,
                    TextColor::BrightBlack,
                    bp,
                ));
                assert(mode_admits(self.color_mode, bl) && line_part@ == painted(
                    message.line@,
                    self.base_color,
                    bl,
                ));
                assert(out@ =~= render_with(*self, *message, bp, bl));
            }
        }
        out
    }
}

impl<W: Write> OutputSpec<W> {
    /// Write one message to this descriptor's target: render it according to
    /// the descriptor's policy, hand it to the target with a line terminator,
    /// and record it in the ghost history. A failed write is not retried.
    pub fn write_message(&mut self, message: &Message) -> (res: Result<(), SinkWriteError>)
        ensures
            wrote_message(*old(self), *final(self), *message, res),
    {
        let rendered = self.render(message);
        let res = match &mut self.target {
            SinkTarget::TermStdout => write_line_stdout(rendered.as_str()),
            SinkTarget::TermStderr => write_line_stderr(rendered.as_str()),
            SinkTarget::SharedLog(shared) => shared.write_line(rendered.as_str()),
        };
        match res {
            Ok(()) => {
                self.written = Ghost(self.written@.push(rendered@));
                proof {
                    assert(self.written@.take(old(self).written@.len() as int) =~= old(
                        self,
                    ).written@);
                }
                Ok(())
            },
            Err(e) => Err(e),
        }
    }
}

/// The ordered destination descriptors bound to one origin (one terminal
/// stream plus the shared log file).
#[verifier::reject_recursive_types(W)]
pub struct Outputs<W> {
    pub specs: Vec<OutputSpec<W>>,
}

/// A successful fan-out appended one rendered line for `m` to every
/// descriptor of the set.
pub open spec fn wrote_all_ok<W>(pre: Outputs<W>, post: Outputs<W>, m: Message) -> bool {
    &&& post.specs@.len() == pre.specs@.len()
    &&& forall|i: int|
        0 <= i < pre.specs@.len() ==> wrote_line_ok(pre.specs@[i], #[trigger] post.specs@[i], m)
}

/// A fan-out that failed at descriptor `k`: every earlier descriptor
/// received its line, and from `k` on (the failing one included) no history
/// grew — the remaining descriptors were never attempted.
pub open spec fn wrote_prefix_then_stopped<W>(
    pre: Outputs<W>,
    post: Outputs<W>,
    m: Message,
    k: int,
) -> bool {
    &&& 0 <= k < pre.specs@.len()
    &&& forall|j: int| 0 <= j < k ==> wrote_line_ok(pre.specs@[j], #[trigger] post.specs@[j], m)
    &&& forall|j: int|
        k <= j < pre.specs@.len() ==> (#[trigger] post.specs@[j]).written@
            == pre.specs@[j].written@
}

/// The descriptor policies of a whole set, unchanged by writes.
pub open spec fn configs_kept<W>(pre: Outputs<W>, post: Outputs<W>) -> bool {
    &&& post.specs@.len() == pre.specs@.len()
    &&& forall|i: int|
        0 <= i < pre.specs@.len() ==> same_config(pre.specs@[i], #[trigger] post.specs@[i])
}

impl<W: Write> Outputs<W> {
    /// Write one message to every descriptor in declaration order. If one
    /// descriptor fails, the later ones are not attempted for this message
    /// (fail-fast) and the error propagates to the caller's drain loop.
    pub fn write_message(&mut self, message: &Message) -> (res: Result<(), SinkWriteError>)
        ensures
            configs_kept(*old(self), *final(self)),
            res is Ok ==> wrote_all_ok(*old(self), *final(self), *message),
            res is Err ==> exists|k: int|
                #[trigger] wrote_prefix_then_stopped(*old(self), *final(self), *message, k),
    {
        let n = self.specs.len();
        let mut i: usize = 0;
        while i < n
            invariant
                n == self.specs@.len(),
                self.specs@.len() == old(self).specs@.len(),
                i <= n,
                forall|j: int|
                    0 <= j < i ==> wrote_line_ok(
                        old(self).specs@[j],
                        #[trigger] self.specs@[j],
                        *message,
                    ),
                forall|j: int| i <= j < n ==> self.specs@[j] == old(self).specs@[j],
            decreases n - i,
        {
            let ghost specs_pre = self.specs@;
            let mut sp = self.specs.remove(i);
            let res = sp.write_message(message);
            self.specs.insert(i, sp);
            proof {
                assert(self.specs@ =~= specs_pre.update(i as int, self.specs@[i as int]));
            }
            match res {
                Ok(()) => {
                    i = i + 1;
                },
                Err(e) => {
                    proof {
                        assert(wrote_prefix_then_stopped(
                            *old(self),
                            *self,
                            *message,
                            i as int,
                        ));
                    }
                    return Err(e);
                },
            }
        }
        Ok(())
    }
}

/// Re-running on identical lines reproduces an identical log: with
/// timestamps off, a rendered line depends only on the message text and the
/// paint outcomes, not on the capture instant, so two runs of a command
/// with deterministic output yield byte-identical rendered sequences.
pub proof fn lemma_render_off_ignores_timestamp<W>(
    sp: OutputSpec<W>,
    m1: Message,
    m2: Message,
    tint_prefix: bool,
    tint_line: bool,
)
    requires
        sp.print_timestamp == TimestampMode::Off,
        m1.line@ == m2.line@,
    ensures
        render_with(sp, m1, tint_prefix, tint_line) == render_with(sp, m2, tint_prefix, tint_line),
{
}

/// Under the `Never` color mode a successful write appends exactly the
/// plain-text rendering — the prefix and the text unpainted, byte for byte
/// — regardless of whether the invoking terminal supports color.
pub proof fn lemma_never_mode_writes_plain<W>(pre: OutputSpec<W>, post: OutputSpec<W>, m: Message)
    requires
        wrote_line_ok(pre, post, m),
        pre.color_mode == ColorMode::Never,
    ensures
        post.written@.last() == prefix_with(pre, m, false) + m.line@,
{
    assert(post.written@.last() == render_with(pre, m, false, false));
}

/// The color mode of the log-file descriptors: the log file is always
/// colorized except when the color mode is `Never` (an `Auto` terminal
/// decision would wrongly depend on the terminal, not the file).
pub open spec fn log_color_mode(mode: ColorMode) -> ColorMode {
    if mode == ColorMode::Auto {
        ColorMode::Always
    } else {
        mode
    }
}

/// A descriptor fresh from setup: the given policy and an empty history.
pub open spec fn fresh_desc<W>(
    sp: OutputSpec<W>,
    mode: ColorMode,
    base: TextColor,
    ts: TimestampMode,
    start: int,
) -> bool {
    &&& sp.color_mode == mode
    &&& sp.base_color == base
    &&& sp.print_timestamp == ts
    &&& sp.start_timestamp == start
    &&& sp.written@ == Seq::<Seq<char>>::empty()
}

/// Create the sets of destination descriptors for each origin. Each set
/// writes to the respective terminal stream of this process and to the
/// common log file; every stderr descriptor shares the error color and
/// every stdout descriptor the default color.
pub fn setup_outputs<W>(
    color: ColorMode,
    timestamps: TimestampMode,
    start_timestamp: u64,
    log_file: SharedOutput<W>,
) -> (r: (Outputs<W>, Outputs<W>))
    ensures
        r.0.specs@.len() == 2 && r.1.specs@.len() == 2,
        fresh_desc(r.0.specs@[0], color, TextColor::Red, timestamps, start_timestamp as int) && (
        r.0.specs@[0].target is TermStderr),
        fresh_desc(
            r.0.specs@[1],
            log_color_mode(color),
            TextColor::Red,
            timestamps,
            start_timestamp as int,
        ) && (r.0.specs@[1].target is SharedLog),
        fresh_desc(r.1.specs@[0], color, TextColor::White, timestamps, start_timestamp as int) && (
        r.1.specs@[0].target is TermStdout),
        fresh_desc(
            r.1.specs@[1],
            log_color_mode(color),
            TextColor::White,
            timestamps,
            start_timestamp as int,
        ) && (r.1.specs@[1].target is SharedLog),
{
    let logfile_color = match color {
        ColorMode::Auto => ColorMode::Always,
        ColorMode::Always | ColorMode::Never => color,
    };
    let mut stderr_specs: Vec<OutputSpec<W>> = Vec::new();
    stderr_specs.push(
        OutputSpec {
            target: SinkTarget::TermStderr,
            start_timestamp,
            print_timestamp: timestamps,
            color_mode: color,
            base_color: TextColor::Red,
            written: Ghost(Seq::empty()),
        },
    );
    stderr_specs.push(
        OutputSpec {
            target: SinkTarget::SharedLog(log_file.share()),
            start_timestamp,
            print_timestamp: timestamps,
            color_mode: logfile_color,
            base_color: TextColor::Red,
            written: Ghost(Seq::empty()),
        },
    );
    let mut stdout_specs: Vec<OutputSpec<W>> = Vec::new();
    stdout_specs.push(
        OutputSpec {
            target: SinkTarget::TermStdout,
            start_timestamp,
            print_timestamp: timestamps,
            color_mode: color,
            base_color: TextColor::White,
            written: Ghost(Seq::empty()),
        },
    );
    stdout_specs.push(
        OutputSpec {
            target: SinkTarget::SharedLog(log_file),
            start_timestamp,
            print_timestamp: timestamps,
            color_mode: logfile_color,
            base_color: TextColor::White,
            written: Ghost(Seq::empty()),
        },
    );
    (Outputs { specs: stderr_specs }, Outputs { specs: stdout_specs })
}

} // verus!
