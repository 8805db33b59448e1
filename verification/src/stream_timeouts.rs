//! Timeouts of a streaming response: time to first token, idle time
//! between events, and total time.
//!
//! Elapsed times are taken as arguments (in nanoseconds): reading the clock
//! is the caller's part.

use vstd::prelude::*;

use crate::errors::{StreamTimeoutError, StreamTimeoutKind};

verus! {

/// Optional limits of a stream, in milliseconds.
#[derive(Debug, Clone, Copy, PartialEq, Eq)]
pub struct StreamTimeouts {
    /// Until the first content-bearing event.
    pub ttft_ms: Option<u64>,
    /// Between two events.
    pub idle_ms: Option<u64>,
    /// For the whole stream.
    pub total_ms: Option<u64>,
}

impl StreamTimeouts {
    /// No limits.
    pub fn default() -> (r: Self)
        ensures
            r.ttft_ms is None && r.idle_ms is None && r.total_ms is None,
    {
        StreamTimeouts { ttft_ms: None, idle_ms: None, total_ms: None }
    }
}

/// Whether a stream event counts as the first token: it carries text, a
/// tool call delta or at least one tool call, or it is an error event.
pub open spec fn counts_for_ttft(
    text_delta: Option<Seq<char>>,
    has_tool_call_delta: bool,
    tool_call_count: Option<nat>,
    event: Seq<char>,
) -> bool {
    ||| text_delta matches Some(t) && t.len() > 0
    ||| has_tool_call_delta
    ||| tool_call_count matches Some(n) && n > 0
    ||| event == "error"@
}

/// The parts of a stream event the time-to-first-token limit looks at: its
/// text delta, whether it has a tool call delta, how many tool calls it
/// carries (if any), and its event name.
pub fn event_counts_for_ttft(
    text_delta: &Option<String>,
    has_tool_call_delta: bool,
    tool_call_count: Option<usize>,
    event: &str,
) -> (r: bool)
    ensures
        r == counts_for_ttft(
            match text_delta {
                Some(t) => Some(t@),
                None => None,
            },
            has_tool_call_delta,
            match tool_call_count {
                Some(n) => Some(n as nat),
                None => None,
            },
            event@,
        ),
{
    if let Some(t) = text_delta {
        if crate::text::chars_of(t.as_str()).len() > 0 {
            return true;
        }
    }
    if has_tool_call_delta {
        return true;
    }
    if let Some(n) = tool_call_count {
        if n > 0 {
            return true;
        }
    }
    crate::text::str_eq(event, "error")
}

/// A limit of `limit_ms` has run out after `elapsed_ns`.
pub open spec fn expired(limit_ms: u64, elapsed_ns: u128) -> bool {
    elapsed_ns >= limit_ms as int * 1_000_000
}

/// The limit (if any) that makes `o` a live limit that has run out.
pub open spec fn expired_limit(o: Option<u64>, elapsed_ns: u128) -> bool {
    o matches Some(x) && expired(x, elapsed_ns)
}

/// The first limit that has run out, checked in the order total, time to
/// first token (only while no content arrived), idle.
pub open spec fn timeout_exceeded(
    t: StreamTimeouts,
    since_start_ns: u128,
    since_activity_ns: u128,
    ttft_satisfied: bool,
) -> Option<StreamTimeoutError> {
    if expired_limit(t.total_ms, since_start_ns) {
        Some(StreamTimeoutError { kind: StreamTimeoutKind::Total, timeout_ms: t.total_ms->Some_0 })
    } else if !ttft_satisfied && expired_limit(t.ttft_ms, since_start_ns) {
        Some(StreamTimeoutError { kind: StreamTimeoutKind::Ttft, timeout_ms: t.ttft_ms->Some_0 })
    } else if expired_limit(t.idle_ms, since_activity_ns) {
        Some(StreamTimeoutError { kind: StreamTimeoutKind::Idle, timeout_ms: t.idle_ms->Some_0 })
    } else {
        None
    }
}

fn limit_ns(ms: u64) -> (r: u128)
    ensures
        r == ms as int * 1_000_000,
{
    (ms as u128) * 1_000_000
}

/// Checks if any timeout has been exceeded and returns the matching error.
pub fn check_timeout_exceeded(
    timeouts: StreamTimeouts,
    since_start_ns: u128,
    since_activity_ns: u128,
    ttft_satisfied: bool,
) -> (r: Option<StreamTimeoutError>)
    ensures
        r == timeout_exceeded(timeouts, since_start_ns, since_activity_ns, ttft_satisfied),
{
    if let Some(total) = timeouts.total_ms {
        if since_start_ns >= limit_ns(total) {
            return Some(StreamTimeoutError { kind: StreamTimeoutKind::Total, timeout_ms: total });
        }
    }
    if !ttft_satisfied {
        if let Some(ttft) = timeouts.ttft_ms {
            if since_start_ns >= limit_ns(ttft) {
                return Some(StreamTimeoutError { kind: StreamTimeoutKind::Ttft, timeout_ms: ttft });
            }
        }
    }
    if let Some(idle) = timeouts.idle_ms {
        if since_activity_ns >= limit_ns(idle) {
            return Some(StreamTimeoutError { kind: StreamTimeoutKind::Idle, timeout_ms: idle });
        }
    }
    None
}

/// The next limit a stream can run into: its kind, the time left (in
/// nanoseconds) and the configured limit (in milliseconds).
#[derive(Debug, Clone, Copy, PartialEq, Eq)]
pub struct StreamDeadline {
    pub kind: StreamTimeoutKind,
    pub remaining_ns: u128,
    pub timeout_ms: u64,
}

/// The deadline of one live limit.
pub open spec fn candidate(kind: StreamTimeoutKind, o: Option<u64>, elapsed_ns: u128) -> Option<
    StreamDeadline,
> {
    match o {
        Some(x) => Some(
            StreamDeadline {
                kind,
                remaining_ns: if expired(x, elapsed_ns) {
                    0
                } else {
                    (x as int * 1_000_000 - elapsed_ns) as u128
                },
                timeout_ms: x,
            },
        ),
        None => None,
    }
}

/// The sooner of two deadlines; on a tie the first one.
pub open spec fn sooner(a: Option<StreamDeadline>, b: Option<StreamDeadline>) -> Option<StreamDeadline> {
    match a {
        Some(x) => match b {
            Some(y) => if x.remaining_ns <= y.remaining_ns {
                a
            } else {
                b
            },
            None => a,
        },
        None => b,
    }
}

/// The next deadline: a limit that has already run out (checked in the order
/// total, idle, time to first token) with nothing left, else the live limit
/// with the least time left, ties going to total, then idle. The time to
/// first token counts only while no content arrived.
pub open spec fn next_deadline(
    t: StreamTimeouts,
    since_start_ns: u128,
    since_activity_ns: u128,
    ttft_satisfied: bool,
) -> Option<StreamDeadline> {
    let total = candidate(StreamTimeoutKind::Total, t.total_ms, since_start_ns);
    let idle = candidate(StreamTimeoutKind::Idle, t.idle_ms, since_activity_ns);
    let ttft = if ttft_satisfied {
        None
    } else {
        candidate(StreamTimeoutKind::Ttft, t.ttft_ms, since_start_ns)
    };
    if expired_limit(t.total_ms, since_start_ns) {
        total
    } else if expired_limit(t.idle_ms, since_activity_ns) {
        idle
    } else if !ttft_satisfied && expired_limit(t.ttft_ms, since_start_ns) {
        ttft
    } else {
        sooner(sooner(total, idle), ttft)
    }
}

/// The limit a stream will run into next, and how long until it does.
pub fn stream_next_deadline(
    timeouts: StreamTimeouts,
    since_start_ns: u128,
    since_activity_ns: u128,
    ttft_satisfied: bool,
) -> (r: Option<StreamDeadline>)
    ensures
        r == next_deadline(timeouts, since_start_ns, since_activity_ns, ttft_satisfied),
{
    let mut best: Option<StreamDeadline> = None;
    if let Some(total) = timeouts.total_ms {
        let lim = limit_ns(total);
        if lim > since_start_ns {
            best = Some(
                StreamDeadline {
                    kind: StreamTimeoutKind::Total,
                    remaining_ns: lim - since_start_ns,
                    timeout_ms: total,
                },
            );
        } else {
            return Some(StreamDeadline { kind: StreamTimeoutKind::Total, remaining_ns: 0, timeout_ms: total });
        }
    }
    if let Some(idle) = timeouts.idle_ms {
        let lim = limit_ns(idle);
        if lim > since_activity_ns {
            let rem = lim - since_activity_ns;
            best = match best {
                Some(b) => if b.remaining_ns <= rem {
                    Some(b)
                } else {
                    Some(StreamDeadline { kind: StreamTimeoutKind::Idle, remaining_ns: rem, timeout_ms: idle })
                },
                None => Some(StreamDeadline { kind: StreamTimeoutKind::Idle, remaining_ns: rem, timeout_ms: idle }),
            };
        } else {
            return Some(StreamDeadline { kind: StreamTimeoutKind::Idle, remaining_ns: 0, timeout_ms: idle });
        }
    }
    if !ttft_satisfied {
        if let Some(ttft) = timeouts.ttft_ms {
            let lim = limit_ns(ttft);
            if lim > since_start_ns {
                let rem = lim - since_start_ns;
                best = match best {
                    Some(b) => if b.remaining_ns <= rem {
                        Some(b)
                    } else {
                        Some(StreamDeadline { kind: StreamTimeoutKind::Ttft, remaining_ns: rem, timeout_ms: ttft })
                    },
                    None => Some(StreamDeadline { kind: StreamTimeoutKind::Ttft, remaining_ns: rem, timeout_ms: ttft }),
                };
            } else {
                return Some(StreamDeadline { kind: StreamTimeoutKind::Ttft, remaining_ns: 0, timeout_ms: ttft });
            }
        }
    }
    best
}

/// A stream has run past a limit exactly when its next deadline has no
/// time left.
pub proof fn lemma_deadline_passed_iff_exceeded(
    t: StreamTimeouts,
    since_start_ns: u128,
    since_activity_ns: u128,
    ttft_satisfied: bool,
)
    ensures
        timeout_exceeded(t, since_start_ns, since_activity_ns, ttft_satisfied) is Some <==> (
        next_deadline(t, since_start_ns, since_activity_ns, ttft_satisfied) matches Some(d)
            && d.remaining_ns == 0),
{
}

/// Once content has arrived, the time to first token is never the limit
/// reported.
pub proof fn lemma_ttft_ignored_once_satisfied(
    t: StreamTimeouts,
    since_start_ns: u128,
    since_activity_ns: u128,
)
    ensures
        !(timeout_exceeded(t, since_start_ns, since_activity_ns, true) matches Some(e) && e.kind
            == StreamTimeoutKind::Ttft),
        !(next_deadline(t, since_start_ns, since_activity_ns, true) matches Some(d) && d.kind
            == StreamTimeoutKind::Ttft),
{
}

} // verus!
