use vstd::prelude::*;

use crate::message::{Message, Origin};
use std::collections::VecDeque;

verus! {

/// The ordering merge stage's state: one FIFO queue per origin, holding the
/// messages received from that origin's reader and not yet released to the
/// output sinks.
pub struct MergeQueues {
    pub stdout_queue: VecDeque<Message>,
    pub stderr_queue: VecDeque<Message>,
}

/// A queued message may be released without a cross-origin comparison once it
/// has aged past the backoff window: the other reader can then no longer be
/// holding an older line (absent scheduling skew beyond the window).
pub open spec fn aged(m: Message, now: int, backoff: int) -> bool {
    m.timestamp + backoff <= now
}

/// The release decision over the two queues, as seen at instant `now` with
/// quiescence window `backoff` (both in nanoseconds): release nothing when
/// both queues are empty; release a lone head only once it has aged past the
/// window; when both queues are non-empty, a true comparison is possible, so
/// release the chronologically earlier head, a tie going to stderr.
pub open spec fn decide_spec(
    sq: Seq<Message>,
    eq: Seq<Message>,
    now: int,
    backoff: int,
) -> Option<Origin> {
    if sq.len() == 0 && eq.len() == 0 {
        None
    } else if eq.len() == 0 {
        if aged(sq[0], now, backoff) {
            Some(Origin::Stdout)
        } else {
            None
        }
    } else if sq.len() == 0 {
        if aged(eq[0], now, backoff) {
            Some(Origin::Stderr)
        } else {
            None
        }
    } else if sq[0].timestamp < eq[0].timestamp {
        Some(Origin::Stdout)
    } else {
        Some(Origin::Stderr)
    }
}

/// Everything the merge stage releases, in order, when draining at instant
/// `now`: heads are released as long as `decide_spec` allows and each released
/// message is removed from its queue.
pub open spec fn release_spec(
    sq: Seq<Message>,
    eq: Seq<Message>,
    now: int,
    backoff: int,
) -> Seq<(Origin, Message)>
    decreases sq.len() + eq.len(),
{
    match decide_spec(sq, eq, now, backoff) {
        None => Seq::empty(),
        Some(Origin::Stdout) => seq![(Origin::Stdout, sq[0])] + release_spec(
            sq.drop_first(),
            eq,
            now,
            backoff,
        ),
        Some(Origin::Stderr) => seq![(Origin::Stderr, eq[0])] + release_spec(
            sq,
            eq.drop_first(),
            now,
            backoff,
        ),
    }
}

/// The final-flush decision, used once both readers have finished: no backoff,
/// purely timestamp comparison, ties and lone queues released at once.
pub open spec fn decide_final_spec(sq: Seq<Message>, eq: Seq<Message>) -> Option<Origin> {
    if sq.len() == 0 && eq.len() == 0 {
        None
    } else if eq.len() == 0 {
        Some(Origin::Stdout)
    } else if sq.len() == 0 {
        Some(Origin::Stderr)
    } else if sq[0].timestamp < eq[0].timestamp {
        Some(Origin::Stdout)
    } else {
        Some(Origin::Stderr)
    }
}

/// The full timestamp-ordered flush of both queues, used on channel closure.
pub open spec fn drain_spec(sq: Seq<Message>, eq: Seq<Message>) -> Seq<(Origin, Message)>
    decreases sq.len() + eq.len(),
{
    match decide_final_spec(sq, eq) {
        None => Seq::empty(),
        Some(Origin::Stdout) => seq![(Origin::Stdout, sq[0])] + drain_spec(sq.drop_first(), eq),
        Some(Origin::Stderr) => seq![(Origin::Stderr, eq[0])] + drain_spec(sq, eq.drop_first()),
    }
}

/// The messages of one origin within a released batch, in release order.
pub open spec fn msgs_of(batch: Seq<(Origin, Message)>, origin: Origin) -> Seq<Message>
    decreases batch.len(),
{
    if batch.len() == 0 {
        Seq::empty()
    } else if batch.last().0 == origin {
        msgs_of(batch.drop_last(), origin).push(batch.last().1)
    } else {
        msgs_of(batch.drop_last(), origin)
    }
}

/// Timestamps never decrease along the sequence (per-origin FIFO delivery
/// of messages captured in read order).
pub open spec fn sorted_msgs(s: Seq<Message>) -> bool {
    forall|i: int, j: int| 0 <= i < j < s.len() ==> s[i].timestamp <= s[j].timestamp
}

/// A released batch is chronological: timestamps never decrease in release
/// order.
pub open spec fn batch_chronological(batch: Seq<(Origin, Message)>) -> bool {
    forall|i: int, j: int|
        0 <= i < j < batch.len() ==> batch[i].1.timestamp <= batch[j].1.timestamp
}

/// `t` is a lower bound of every timestamp in both queues.
pub open spec fn ts_lower_bound(sq: Seq<Message>, eq: Seq<Message>, t: int) -> bool {
    &&& (forall|l: int| 0 <= l < sq.len() ==> sq[l].timestamp >= t)
    &&& (forall|l: int| 0 <= l < eq.len() ==> eq[l].timestamp >= t)
}

/// The ordering guarantee of the backoff protocol. Suppose each queue is
/// chronological in itself (per-origin FIFO), and consider the messages not
/// yet delivered through the channel: each was captured less than the
/// backoff window before `now` (producer delivery delay below the window),
/// and each follows, in capture order, everything already queued from its
/// origin. Then whatever the protocol releases at `now` is in chronological
/// order, and precedes every not-yet-delivered message — so the dispatched
/// order equals true capture order across both streams.
pub proof fn lemma_release_chronological(
    sq: Seq<Message>,
    eq: Seq<Message>,
    fs: Seq<Message>,
    fe: Seq<Message>,
    now: int,
    backoff: int,
)
    requires
        sorted_msgs(sq),
        sorted_msgs(eq),
        forall|k: int| 0 <= k < fs.len() ==> #[trigger] fs[k].timestamp + backoff > now,
        forall|k: int| 0 <= k < fe.len() ==> #[trigger] fe[k].timestamp + backoff > now,
        forall|k: int, l: int|
            0 <= k < fs.len() && 0 <= l < sq.len() ==> (#[trigger] fs[k].timestamp) >= (
            #[trigger] sq[l].timestamp),
        forall|k: int, l: int|
            0 <= k < fe.len() && 0 <= l < eq.len() ==> (#[trigger] fe[k].timestamp) >= (
            #[trigger] eq[l].timestamp),
    ensures
        batch_chronological(release_spec(sq, eq, now, backoff)),
        forall|k: int, l: int|
            0 <= k < release_spec(sq, eq, now, backoff).len() && 0 <= l < fs.len() ==> #[trigger] (
            release_spec(sq, eq, now, backoff)[k]).1.timestamp <= #[trigger] fs[l].timestamp,
        forall|k: int, l: int|
            0 <= k < release_spec(sq, eq, now, backoff).len() && 0 <= l < fe.len() ==> #[trigger] (
            release_spec(sq, eq, now, backoff)[k]).1.timestamp <= #[trigger] fe[l].timestamp,
        forall|t: int|
            ts_lower_bound(sq, eq, t) ==> forall|k: int|
                0 <= k < release_spec(sq, eq, now, backoff).len() ==> #[trigger] (release_spec(
                    sq,
                    eq,
                    now,
                    backoff,
                )[k]).1.timestamp >= t,
    decreases sq.len() + eq.len(),
{
    let batch = release_spec(sq, eq, now, backoff);
    match decide_spec(sq, eq, now, backoff) {
        None => {},
        Some(Origin::Stdout) => {
            let head = sq[0];
            let rest = release_spec(sq.drop_first(), eq, now, backoff);
            lemma_release_chronological(sq.drop_first(), eq, fs, fe, now, backoff);
            assert(ts_lower_bound(sq.drop_first(), eq, head.timestamp as int));
            assert forall|k: int| 0 <= k < batch.len() implies (
            #[trigger] batch[k]).1.timestamp >= head.timestamp by {
                if k > 0 {
                    assert(batch[k] == rest[k - 1]);
                }
            }
            assert forall|t: int| ts_lower_bound(sq, eq, t) implies forall|k: int|
                0 <= k < batch.len() ==> #[trigger] (batch[k]).1.timestamp >= t by {
                assert(ts_lower_bound(sq.drop_first(), eq, t));
                assert forall|k: int| 0 <= k < batch.len() implies #[trigger] (
                batch[k]).1.timestamp >= t by {
                    if k > 0 {
                        assert(batch[k] == rest[k - 1]);
                    }
                }
            }
        },
        Some(Origin::Stderr) => {
            let head = eq[0];
            let rest = release_spec(sq, eq.drop_first(), now, backoff);
            lemma_release_chronological(sq, eq.drop_first(), fs, fe, now, backoff);
            assert(ts_lower_bound(sq, eq.drop_first(), head.timestamp as int));
            assert forall|k: int| 0 <= k < batch.len() implies (
            #[trigger] batch[k]).1.timestamp >= head.timestamp by {
                if k > 0 {
                    assert(batch[k] == rest[k - 1]);
                }
            }
            assert forall|t: int| ts_lower_bound(sq, eq, t) implies forall|k: int|
                0 <= k < batch.len() ==> #[trigger] (batch[k]).1.timestamp >= t by {
                assert(ts_lower_bound(sq, eq.drop_first(), t));
                assert forall|k: int| 0 <= k < batch.len() implies #[trigger] (
                batch[k]).1.timestamp >= t by {
                    if k > 0 {
                        assert(batch[k] == rest[k - 1]);
                    }
                }
            }
        },
    }
}

/// The final flush is chronological: once both readers have finished, the
/// queues hold everything still undispatched, and with each queue
/// chronological in itself (per-origin FIFO) the no-backoff drain releases
/// all of it in timestamp order, ties going to stderr.
pub proof fn lemma_drain_chronological(sq: Seq<Message>, eq: Seq<Message>)
    requires
        sorted_msgs(sq),
        sorted_msgs(eq),
    ensures
        batch_chronological(drain_spec(sq, eq)),
        forall|t: int|
            ts_lower_bound(sq, eq, t) ==> forall|k: int|
                0 <= k < drain_spec(sq, eq).len() ==> #[trigger] (drain_spec(
                    sq,
                    eq,
                )[k]).1.timestamp >= t,
    decreases sq.len() + eq.len(),
{
    let batch = drain_spec(sq, eq);
    match decide_final_spec(sq, eq) {
        None => {},
        Some(Origin::Stdout) => {
            let head = sq[0];
            let rest = drain_spec(sq.drop_first(), eq);
            lemma_drain_chronological(sq.drop_first(), eq);
            assert(ts_lower_bound(sq.drop_first(), eq, head.timestamp as int));
            assert forall|k: int| 0 <= k < batch.len() implies (
            #[trigger] batch[k]).1.timestamp >= head.timestamp by {
                if k > 0 {
                    assert(batch[k] == rest[k - 1]);
                }
            }
            assert forall|t: int| ts_lower_bound(sq, eq, t) implies forall|k: int|
                0 <= k < batch.len() ==> #[trigger] (batch[k]).1.timestamp >= t by {
                assert(ts_lower_bound(sq.drop_first(), eq, t));
                assert forall|k: int| 0 <= k < batch.len() implies #[trigger] (
                batch[k]).1.timestamp >= t by {
                    if k > 0 {
                        assert(batch[k] == rest[k - 1]);
                    }
                }
            }
        },
        Some(Origin::Stderr) => {
            let head = eq[0];
            let rest = drain_spec(sq, eq.drop_first());
            lemma_drain_chronological(sq, eq.drop_first());
            assert(ts_lower_bound(sq, eq.drop_first(), head.timestamp as int));
            assert forall|k: int| 0 <= k < batch.len() implies (
            #[trigger] batch[k]).1.timestamp >= head.timestamp by {
                if k > 0 {
                    assert(batch[k] == rest[k - 1]);
                }
            }
            assert forall|t: int| ts_lower_bound(sq, eq, t) implies forall|k: int|
                0 <= k < batch.len() ==> #[trigger] (batch[k]).1.timestamp >= t by {
                assert(ts_lower_bound(sq, eq.drop_first(), t));
                assert forall|k: int| 0 <= k < batch.len() implies #[trigger] (
                batch[k]).1.timestamp >= t by {
                    if k > 0 {
                        assert(batch[k] == rest[k - 1]);
                    }
                }
            }
        },
    }
}

/// A stalled stream does not block the other: when one origin's queue is
/// empty (no output from that stream) and every message queued from the
/// other origin has aged past the backoff window, the protocol releases all
/// of them at once.
pub proof fn lemma_stalled_stream_releases_all(sq: Seq<Message>, now: int, backoff: int)
    requires
        forall|l: int| 0 <= l < sq.len() ==> aged(#[trigger] sq[l], now, backoff),
    ensures
        release_spec(sq, Seq::empty(), now, backoff).len() == sq.len(),
        forall|k: int|
            0 <= k < sq.len() ==> #[trigger] release_spec(sq, Seq::empty(), now, backoff)[k] == (
                Origin::Stdout,
                sq[k],
            ),
    decreases sq.len(),
{
    let eq = Seq::<Message>::empty();
    if sq.len() > 0 {
        lemma_stalled_stream_releases_all(sq.drop_first(), now, backoff);
        let batch = release_spec(sq, eq, now, backoff);
        let rest = release_spec(sq.drop_first(), eq, now, backoff);
        assert forall|k: int| 0 <= k < sq.len() implies #[trigger] batch[k] == (
            Origin::Stdout,
            sq[k],
        ) by {
            if k > 0 {
                assert(batch[k] == rest[k - 1]);
                assert(sq.drop_first()[k - 1] == sq[k]);
            }
        }
    }
}

impl MergeQueues {
    pub fn new() -> (q: MergeQueues)
        ensures
            q.stdout_queue@ =~= Seq::<Message>::empty(),
            q.stderr_queue@ =~= Seq::<Message>::empty(),
    {
        MergeQueues { stdout_queue: VecDeque::new(), stderr_queue: VecDeque::new() }
    }

    /// Enqueue a message received from the shared channel into its origin's
    /// FIFO queue; the other queue is untouched.
    pub fn push(&mut self, origin: Origin, message: Message)
        ensures
            origin == Origin::Stdout ==> final(self).stdout_queue@ == old(self).stdout_queue@.push(
                message,
            ) && final(self).stderr_queue@ == old(self).stderr_queue@,
            origin == Origin::Stderr ==> final(self).stderr_queue@ == old(self).stderr_queue@.push(
                message,
            ) && final(self).stdout_queue@ == old(self).stdout_queue@,
    {
        match origin {
            Origin::Stdout => self.stdout_queue.push_back(message),
            Origin::Stderr => self.stderr_queue.push_back(message),
        }
    }

    /// The release decision at instant `now` (nanoseconds since the epoch)
    /// with quiescence window `backoff_nanos`.
    pub fn decide(&self, now: u64, backoff_nanos: u64) -> (r: Option<Origin>)
        ensures
            r == decide_spec(self.stdout_queue@, self.stderr_queue@, now as int, backoff_nanos as int),
    {
        let stdout_empty = self.stdout_queue.len() == 0;
        let stderr_empty = self.stderr_queue.len() == 0;
        if stdout_empty && stderr_empty {
            None
        } else if stderr_empty {
            let ts = self.stdout_queue[0].timestamp;
            if ts <= now && now - ts >= backoff_nanos {
                Some(Origin::Stdout)
            } else {
                None
            }
        } else if stdout_empty {
            let ts = self.stderr_queue[0].timestamp;
            if ts <= now && now - ts >= backoff_nanos {
                Some(Origin::Stderr)
            } else {
                None
            }
        } else {
            if self.stdout_queue[0].timestamp < self.stderr_queue[0].timestamp {
                Some(Origin::Stdout)
            } else {
                Some(Origin::Stderr)
            }
        }
    }

    /// Remove and return the head of one origin's queue.
    pub fn pop(&mut self, origin: Origin) -> (m: Message)
        requires
            origin == Origin::Stdout ==> old(self).stdout_queue@.len() > 0,
            origin == Origin::Stderr ==> old(self).stderr_queue@.len() > 0,
        ensures
            origin == Origin::Stdout ==> m == old(self).stdout_queue@[0] && final(self).stdout_queue@
                == old(self).stdout_queue@.drop_first() && final(self).stderr_queue@
                == old(self).stderr_queue@,
            origin == Origin::Stderr ==> m == old(self).stderr_queue@[0] && final(self).stderr_queue@
                == old(self).stderr_queue@.drop_first() && final(self).stdout_queue@
                == old(self).stdout_queue@,
    {
        match origin {
            Origin::Stdout => self.stdout_queue.pop_front().unwrap(),
            Origin::Stderr => self.stderr_queue.pop_front().unwrap(),
        }
    }

    /// Release, in order, every message that the backoff protocol allows at
    /// instant `now`: exactly the batch that `release_spec` describes, removed
    /// from the front of the queues.
    pub fn release_ready(&mut self, now: u64, backoff_nanos: u64) -> (batch: Vec<(Origin, Message)>)
        ensures
            batch@ == release_spec(
                old(self).stdout_queue@,
                old(self).stderr_queue@,
                now as int,
                backoff_nanos as int,
            ),
            old(self).stdout_queue@ == msgs_of(batch@, Origin::Stdout) + final(self).stdout_queue@,
            old(self).stderr_queue@ == msgs_of(batch@, Origin::Stderr) + final(self).stderr_queue@,
    {
        let ghost sq0 = self.stdout_queue@;
        let ghost eq0 = self.stderr_queue@;
        let mut batch: Vec<(Origin, Message)> = Vec::new();
        loop
            invariant
                release_spec(sq0, eq0, now as int, backoff_nanos as int) == batch@ + release_spec(
                    self.stdout_queue@,
                    self.stderr_queue@,
                    now as int,
                    backoff_nanos as int,
                ),
                sq0 == msgs_of(batch@, Origin::Stdout) + self.stdout_queue@,
                eq0 == msgs_of(batch@, Origin::Stderr) + self.stderr_queue@,
            ensures
                batch@ == release_spec(sq0, eq0, now as int, backoff_nanos as int),
                sq0 == msgs_of(batch@, Origin::Stdout) + self.stdout_queue@,
                eq0 == msgs_of(batch@, Origin::Stderr) + self.stderr_queue@,
            decreases self.stdout_queue@.len() + self.stderr_queue@.len(),
        {
            let next = self.decide(now, backoff_nanos);
            match next {
                None => {
                    proof {
                        assert(release_spec(
                            self.stdout_queue@,
                            self.stderr_queue@,
                            now as int,
                            backoff_nanos as int,
                        ) =~= Seq::<(Origin, Message)>::empty());
                        assert(batch@ + Seq::<(Origin, Message)>::empty() =~= batch@);
                    }
                    break;
                },
                Some(origin) => {
                    let ghost sq_pre = self.stdout_queue@;
                    let ghost eq_pre = self.stderr_queue@;
                    let ghost batch_pre = batch@;
                    let m = self.pop(origin);
                    batch.push((origin, m));
                    proof {
                        assert(batch@.drop_last() =~= batch_pre);
                        assert(seq![(origin, m)] + release_spec(
                            self.stdout_queue@,
                            self.stderr_queue@,
                            now as int,
                            backoff_nanos as int,
                        ) =~= release_spec(sq_pre, eq_pre, now as int, backoff_nanos as int));
                        assert(batch_pre + (seq![(origin, m)] + release_spec(
                            self.stdout_queue@,
                            self.stderr_queue@,
                            now as int,
                            backoff_nanos as int,
                        )) =~= batch@ + release_spec(
                            self.stdout_queue@,
                            self.stderr_queue@,
                            now as int,
                            backoff_nanos as int,
                        ));
                        if origin == Origin::Stdout {
                            assert(msgs_of(batch@, Origin::Stdout) =~= msgs_of(
                                batch_pre,
                                Origin::Stdout,
                            ).push(m));
                            assert(msgs_of(batch@, Origin::Stderr) =~= msgs_of(
                                batch_pre,
                                Origin::Stderr,
                            ));
                            assert(sq0 =~= msgs_of(batch@, Origin::Stdout) + self.stdout_queue@);
                        } else {
                            assert(msgs_of(batch@, Origin::Stderr) =~= msgs_of(
                                batch_pre,
                                Origin::Stderr,
                            ).push(m));
                            assert(msgs_of(batch@, Origin::Stdout) =~= msgs_of(
                                batch_pre,
                                Origin::Stdout,
                            ));
                            assert(eq0 =~= msgs_of(batch@, Origin::Stderr) + self.stderr_queue@);
                        }
                    }
                },
            }
        }
        batch
    }

    /// Flush both queues purely by timestamp comparison, with no backoff:
    /// used once both readers have finished, when no straggler can remain.
    pub fn drain_remaining(&mut self) -> (batch: Vec<(Origin, Message)>)
        ensures
            batch@ == drain_spec(old(self).stdout_queue@, old(self).stderr_queue@),
            final(self).stdout_queue@ =~= Seq::<Message>::empty(),
            final(self).stderr_queue@ =~= Seq::<Message>::empty(),
            old(self).stdout_queue@ == msgs_of(batch@, Origin::Stdout) + final(self).stdout_queue@,
            old(self).stderr_queue@ == msgs_of(batch@, Origin::Stderr) + final(self).stderr_queue@,
    {
        let ghost sq0 = self.stdout_queue@;
        let ghost eq0 = self.stderr_queue@;
        let mut batch: Vec<(Origin, Message)> = Vec::new();
        loop
            invariant
                drain_spec(sq0, eq0) == batch@ + drain_spec(
                    self.stdout_queue@,
                    self.stderr_queue@,
                ),
                sq0 == msgs_of(batch@, Origin::Stdout) + self.stdout_queue@,
                eq0 == msgs_of(batch@, Origin::Stderr) + self.stderr_queue@,
            ensures
                batch@ == drain_spec(sq0, eq0),
                self.stdout_queue@.len() == 0,
                self.stderr_queue@.len() == 0,
                sq0 == msgs_of(batch@, Origin::Stdout) + self.stdout_queue@,
                eq0 == msgs_of(batch@, Origin::Stderr) + self.stderr_queue@,
            decreases self.stdout_queue@.len() + self.stderr_queue@.len(),
        {
            let stdout_empty = self.stdout_queue.len() == 0;
            let stderr_empty = self.stderr_queue.len() == 0;
            if stdout_empty && stderr_empty {
                proof {
                    assert(drain_spec(self.stdout_queue@, self.stderr_queue@) =~= Seq::<
                        (Origin, Message),
                    >::empty());
                    assert(batch@ + Seq::<(Origin, Message)>::empty() =~= batch@);
                }
                break;
            }
            let origin = if stderr_empty {
                Origin::Stdout
            } else if stdout_empty {
                Origin::Stderr
            } else {
                if self.stdout_queue[0].timestamp < self.stderr_queue[0].timestamp {
                    Origin::Stdout
                } else {
                    Origin::Stderr
                }
            };
            let ghost sq_pre = self.stdout_queue@;
            let ghost eq_pre = self.stderr_queue@;
            let ghost batch_pre = batch@;
            let m = self.pop(origin);
            batch.push((origin, m));
            proof {
                assert(batch@.drop_last() =~= batch_pre);
                assert(seq![(origin, m)] + drain_spec(self.stdout_queue@, self.stderr_queue@)
                    =~= drain_spec(sq_pre, eq_pre));
                assert(batch_pre + (seq![(origin, m)] + drain_spec(
                    self.stdout_queue@,
                    self.stderr_queue@,
                )) =~= batch@ + drain_spec(self.stdout_queue@, self.stderr_queue@));
                if origin == Origin::Stdout {
                    assert(msgs_of(batch@, Origin::Stdout) =~= msgs_of(
                        batch_pre,
                        Origin::Stdout,
                    ).push(m));
                    assert(msgs_of(batch@, Origin::Stderr) =~= msgs_of(batch_pre, Origin::Stderr));
                    assert(sq0 =~= msgs_of(batch@, Origin::Stdout) + self.stdout_queue@);
                } else {
                    assert(msgs_of(batch@, Origin::Stderr) =~= msgs_of(
                        batch_pre,
                        Origin::Stderr,
                    ).push(m));
                    assert(msgs_of(batch@, Origin::Stdout) =~= msgs_of(batch_pre, Origin::Stdout));
                    assert(eq0 =~= msgs_of(batch@, Origin::Stderr) + self.stderr_queue@);
                }
            }
        }
        batch
    }
}

} // verus!
