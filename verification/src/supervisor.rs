use vstd::prelude::*;

use crate::color::ColorMode;
use crate::merge::{drain_spec, msgs_of, release_spec, MergeQueues};
use crate::message::{now_nanos, Message, Origin};
use crate::sink::{configs_kept, wrote_all_ok, Outputs, SinkWriteError, TimestampMode};
use std::io::Write;

verus! {

/// The exit code the supervisor reports when the child was killed by a
/// signal and so has no exit code of its own.
pub const SIGNAL_EXIT_CODE: u8 = 126;

/// Nanoseconds per millisecond, for the backoff window.
pub const NANOS_PER_MILLI: u64 = 1_000_000;

/// The process exit code the supervisor propagates: the child's own exit
/// code reduced to a byte when available, or the fallback sentinel when the
/// child was killed by a signal.
pub fn supervisor_exit_code(code: Option<i32>) -> (r: u8)
    ensures
        code is Some ==> r as int == (code.unwrap() as int) % 256,
        code is None ==> r == SIGNAL_EXIT_CODE,
{
    match code {
        None => SIGNAL_EXIT_CODE,
        Some(c) => {
            let m = c % 256;
            if m < 0 {
                (m + 256) as u8
            } else {
                m as u8
            }
        },
    }
}

/// Apply the "plain" flag to the configured modes: when set, it forces
/// timestamps off and color never, overriding both.
pub fn effective_modes(plain: bool, color: ColorMode, timestamps: TimestampMode) -> (r: (
    ColorMode,
    TimestampMode,
))
    ensures
        plain ==> r == (ColorMode::Never, TimestampMode::Off),
        !plain ==> r == (color, timestamps),
{
    if plain {
        (ColorMode::Never, TimestampMode::Off)
    } else {
        (color, timestamps)
    }
}

/// Two sink sets equal up to their opaque targets: same length, same
/// descriptors.
pub open spec fn same_outputs<W>(a: Outputs<W>, b: Outputs<W>) -> bool {
    &&& b.specs@.len() == a.specs@.len()
    &&& forall|i: int| 0 <= i < a.specs@.len() ==> b.specs@[i] == a.specs@[i]
}

/// A sink set received the messages `msgs`, one successful fan-out each, in
/// order: there is a chain of intermediate states linked by `wrote_all_ok`.
pub open spec fn outputs_wrote<W>(pre: Outputs<W>, post: Outputs<W>, msgs: Seq<Message>) -> bool
    decreases msgs.len(),
{
    if msgs.len() == 0 {
        same_outputs(pre, post)
    } else {
        exists|mid: Outputs<W>|
            #[trigger] wrote_all_ok(pre, mid, msgs[0]) && outputs_wrote(
                mid,
                post,
                msgs.drop_first(),
            )
    }
}

/// Chaining one more successful fan-out onto a written sequence.
proof fn lemma_outputs_wrote_snoc<W>(
    pre: Outputs<W>,
    mid: Outputs<W>,
    post: Outputs<W>,
    msgs: Seq<Message>,
    m: Message,
)
    requires
        outputs_wrote(pre, mid, msgs),
        wrote_all_ok(mid, post, m),
    ensures
        outputs_wrote(pre, post, msgs.push(m)),
    decreases msgs.len(),
{
    assert(msgs.push(m)[0] == if msgs.len() == 0 {
        m
    } else {
        msgs[0]
    });
    if msgs.len() == 0 {
        assert(wrote_all_ok(pre, post, m));
        assert(msgs.push(m).drop_first() =~= Seq::<Message>::empty());
        assert(same_outputs(post, post));
        assert(outputs_wrote(post, post, Seq::<Message>::empty()));
    } else {
        let first = choose|w: Outputs<W>|
            #[trigger] wrote_all_ok(pre, w, msgs[0]) && outputs_wrote(
                w,
                mid,
                msgs.drop_first(),
            );
        lemma_outputs_wrote_snoc(first, mid, post, msgs.drop_first(), m);
        assert(msgs.push(m).drop_first() =~= msgs.drop_first().push(m));
        assert(wrote_all_ok(pre, first, msgs.push(m)[0]));
    }
}

/// Re-running the supervisor on a command with deterministic output
/// reproduces an identical log, timestamps aside: two write sequences over
/// messages with pairwise equal lines, through descriptor sets whose
/// timestamp mode is `Off` and whose color mode is `Never`, with equal
/// starting histories, leave every descriptor with byte-identical history.
pub proof fn lemma_rerun_reproduces_log<W>(
    pre1: Outputs<W>,
    post1: Outputs<W>,
    ms1: Seq<Message>,
    pre2: Outputs<W>,
    post2: Outputs<W>,
    ms2: Seq<Message>,
)
    requires
        outputs_wrote(pre1, post1, ms1),
        outputs_wrote(pre2, post2, ms2),
        ms1.len() == ms2.len(),
        forall|k: int| 0 <= k < ms1.len() ==> (#[trigger] ms1[k]).line@ == (#[trigger] ms2[k]).line@,
        pre1.specs@.len() == pre2.specs@.len(),
        forall|i: int|
            0 <= i < pre1.specs@.len() ==> (#[trigger] pre1.specs@[i]).written@ == (
            #[trigger] pre2.specs@[i]).written@,
        forall|i: int|
            0 <= i < pre1.specs@.len() ==> (#[trigger] pre1.specs@[i]).print_timestamp
                == TimestampMode::Off && pre1.specs@[i].color_mode == ColorMode::Never,
        forall|i: int|
            0 <= i < pre2.specs@.len() ==> (#[trigger] pre2.specs@[i]).print_timestamp
                == TimestampMode::Off && pre2.specs@[i].color_mode == ColorMode::Never,
    ensures
        post1.specs@.len() == post2.specs@.len(),
        forall|i: int|
            0 <= i < post1.specs@.len() ==> (#[trigger] post1.specs@[i]).written@ == (
            #[trigger] post2.specs@[i]).written@,
    decreases ms1.len(),
{
    if ms1.len() == 0 {
        assert(same_outputs(pre1, post1));
        assert(same_outputs(pre2, post2));
    } else {
        let mid1 = choose|mid: Outputs<W>|
            #[trigger] wrote_all_ok(pre1, mid, ms1[0]) && outputs_wrote(
                mid,
                post1,
                ms1.drop_first(),
            );
        let mid2 = choose|mid: Outputs<W>|
            #[trigger] wrote_all_ok(pre2, mid, ms2[0]) && outputs_wrote(
                mid,
                post2,
                ms2.drop_first(),
            );
        assert forall|i: int| 0 <= i < mid1.specs@.len() implies (
        #[trigger] mid1.specs@[i]).written@ == (#[trigger] mid2.specs@[i]).written@ by {
            let rendered1 = mid1.specs@[i].written@.last();
            let rendered2 = mid2.specs@[i].written@.last();
            assert(rendered1 == crate::sink::render_with(pre1.specs@[i], ms1[0], false, false));
            assert(rendered2 == crate::sink::render_with(pre2.specs@[i], ms2[0], false, false));
            assert(rendered1 =~= ms1[0].line@);
            assert(rendered2 =~= ms2[0].line@);
            assert(mid1.specs@[i].written@ =~= pre1.specs@[i].written@.push(rendered1));
            assert(mid2.specs@[i].written@ =~= pre2.specs@[i].written@.push(rendered2));
        }
        assert(forall|k: int|
            0 <= k < ms1.drop_first().len() ==> (#[trigger] ms1.drop_first()[k]).line@ == (
            #[trigger] ms2.drop_first()[k]).line@);
        lemma_rerun_reproduces_log(mid1, post1, ms1.drop_first(), mid2, post2, ms2.drop_first());
    }
}

/// Dispatch a released batch to the two sink sets: each message goes, in
/// batch order, to the set of its origin. A failed write aborts the
/// remaining dispatch (fail-fast) and propagates.
pub fn dispatch_batch<W: Write>(
    batch: &Vec<(Origin, Message)>,
    stderr_outputs: &mut Outputs<W>,
    stdout_outputs: &mut Outputs<W>,
) -> (res: Result<(), SinkWriteError>)
    ensures
        configs_kept(*old(stderr_outputs), *final(stderr_outputs)),
        configs_kept(*old(stdout_outputs), *final(stdout_outputs)),
        res is Ok ==> outputs_wrote(
            *old(stderr_outputs),
            *final(stderr_outputs),
            msgs_of(batch@, Origin::Stderr),
        ) && outputs_wrote(
            *old(stdout_outputs),
            *final(stdout_outputs),
            msgs_of(batch@, Origin::Stdout),
        ),
{
    let n = batch.len();
    let mut i: usize = 0;
    while i < n
        invariant
            n == batch@.len(),
            i <= n,
            configs_kept(*old(stderr_outputs), *stderr_outputs),
            configs_kept(*old(stdout_outputs), *stdout_outputs),
            outputs_wrote(
                *old(stderr_outputs),
                *stderr_outputs,
                msgs_of(batch@.take(i as int), Origin::Stderr),
            ),
            outputs_wrote(
                *old(stdout_outputs),
                *stdout_outputs,
                msgs_of(batch@.take(i as int), Origin::Stdout),
            ),
        decreases n - i,
    {
        let origin = batch[i].0;
        let ghost err_pre = *stderr_outputs;
        let ghost out_pre = *stdout_outputs;
        let res = match origin {
            Origin::Stderr => stderr_outputs.write_message(&batch[i].1),
            Origin::Stdout => stdout_outputs.write_message(&batch[i].1),
        };
        match res {
            Ok(()) => {
                proof {
                    assert(batch@.take(i + 1).drop_last() =~= batch@.take(i as int));
                    assert(batch@.take(i + 1).last() == batch@[i as int]);
                    if origin == Origin::Stderr {
                        lemma_outputs_wrote_snoc(
                            *old(stderr_outputs),
                            err_pre,
                            *stderr_outputs,
                            msgs_of(batch@.take(i as int), Origin::Stderr),
                            batch@[i as int].1,
                        );
                        assert(msgs_of(batch@.take(i + 1), Origin::Stderr) =~= msgs_of(
                            batch@.take(i as int),
                            Origin::Stderr,
                        ).push(batch@[i as int].1));
                        assert(msgs_of(batch@.take(i + 1), Origin::Stdout) =~= msgs_of(
                            batch@.take(i as int),
                            Origin::Stdout,
                        ));
                    } else {
                        lemma_outputs_wrote_snoc(
                            *old(stdout_outputs),
                            out_pre,
                            *stdout_outputs,
                            msgs_of(batch@.take(i as int), Origin::Stdout),
                            batch@[i as int].1,
                        );
                        assert(msgs_of(batch@.take(i + 1), Origin::Stdout) =~= msgs_of(
                            batch@.take(i as int),
                            Origin::Stdout,
                        ).push(batch@[i as int].1));
                        assert(msgs_of(batch@.take(i + 1), Origin::Stderr) =~= msgs_of(
                            batch@.take(i as int),
                            Origin::Stderr,
                        ));
                    }
                }
                i = i + 1;
            },
            Err(e) => {
                return Err(e);
            },
        }
    }
    proof {
        assert(batch@.take(n as int) =~= batch@);
    }
    Ok(())
}

/// One supervisor step for the merge stage, holding `step_released` of the
/// states before and after: the arriving message is enqueued, then every
/// message the backoff protocol allows at the (unknowable in advance)
/// current instant is released and dispatched.
pub open spec fn step_released<W>(
    sq0: Seq<Message>,
    eq0: Seq<Message>,
    origin: Origin,
    m: Message,
    backoff_nanos: int,
    now: int,
    sq1: Seq<Message>,
    eq1: Seq<Message>,
    err_pre: Outputs<W>,
    err_post: Outputs<W>,
    out_pre: Outputs<W>,
    out_post: Outputs<W>,
) -> bool {
    let sq = if origin == Origin::Stdout {
        sq0.push(m)
    } else {
        sq0
    };
    let eq = if origin == Origin::Stderr {
        eq0.push(m)
    } else {
        eq0
    };
    let batch = release_spec(sq, eq, now, backoff_nanos);
    &&& sq == msgs_of(batch, Origin::Stdout) + sq1
    &&& eq == msgs_of(batch, Origin::Stderr) + eq1
    &&& outputs_wrote(err_pre, err_post, msgs_of(batch, Origin::Stderr))
    &&& outputs_wrote(out_pre, out_post, msgs_of(batch, Origin::Stdout))
}

/// Handle one message arriving from the shared channel: enqueue it by
/// origin, then release and dispatch everything the backoff protocol allows
/// at the current instant. The wall clock is read once per call; since the
/// clock is outside the library, the contract holds for some instant `now`.
pub fn handle_incoming<W: Write>(
    queues: &mut MergeQueues,
    origin: Origin,
    message: Message,
    backoff_ms: u64,
    stderr_outputs: &mut Outputs<W>,
    stdout_outputs: &mut Outputs<W>,
) -> (res: Result<(), SinkWriteError>)
    requires
        backoff_ms <= 1_000_000_000,
    ensures
        configs_kept(*old(stderr_outputs), *final(stderr_outputs)),
        configs_kept(*old(stdout_outputs), *final(stdout_outputs)),
        res is Ok ==> exists|now: int|
            #[trigger] step_released(
                old(queues).stdout_queue@,
                old(queues).stderr_queue@,
                origin,
                message,
                backoff_ms * NANOS_PER_MILLI,
                now,
                final(queues).stdout_queue@,
                final(queues).stderr_queue@,
                *old(stderr_outputs),
                *final(stderr_outputs),
                *old(stdout_outputs),
                *final(stdout_outputs),
            ),
{
    queues.push(origin, message);
    let now = now_nanos();
    let batch = queues.release_ready(now, backoff_ms * NANOS_PER_MILLI);
    let res = dispatch_batch(&batch, stderr_outputs, stdout_outputs);
    match res {
        Ok(()) => {
            proof {
                assert(step_released(
                    old(queues).stdout_queue@,
                    old(queues).stderr_queue@,
                    origin,
                    message,
                    (backoff_ms * NANOS_PER_MILLI) as int,
                    now as int,
                    queues.stdout_queue@,
                    queues.stderr_queue@,
                    *old(stderr_outputs),
                    *stderr_outputs,
                    *old(stdout_outputs),
                    *stdout_outputs,
                ));
            }
            Ok(())
        },
        Err(e) => Err(e),
    }
}

/// Flush everything still queued once both readers have finished, purely by
/// timestamp comparison, and dispatch it: the final drain of the merge
/// stage. Deterministic: the dispatched batch is exactly `drain_spec` of
/// the queues.
pub fn drain_remaining_messages<W: Write>(
    queues: &mut MergeQueues,
    stderr_outputs: &mut Outputs<W>,
    stdout_outputs: &mut Outputs<W>,
) -> (res: Result<(), SinkWriteError>)
    ensures
        configs_kept(*old(stderr_outputs), *final(stderr_outputs)),
        configs_kept(*old(stdout_outputs), *final(stdout_outputs)),
        final(queues).stdout_queue@.len() == 0,
        final(queues).stderr_queue@.len() == 0,
        res is Ok ==> outputs_wrote(
            *old(stderr_outputs),
            *final(stderr_outputs),
            msgs_of(
                drain_spec(old(queues).stdout_queue@, old(queues).stderr_queue@),
                Origin::Stderr,
            ),
        ) && outputs_wrote(
            *old(stdout_outputs),
            *final(stdout_outputs),
            msgs_of(
                drain_spec(old(queues).stdout_queue@, old(queues).stderr_queue@),
                Origin::Stdout,
            ),
        ),
{
    let batch = queues.drain_remaining();
    dispatch_batch(&batch, stderr_outputs, stdout_outputs)
}

} // verus!
