//! The decisions of an NDJSON event stream: buffering the body's text into
//! lines, queueing parsed events, the time-to-first-token flag, the bound on
//! queued events and the timeouts.
//!
//! Reading the body, decoding each line into an event and reading the clock
//! are the driver's part: it asks the state what to do next, performs the
//! read, and hands back the text it got and the events it decoded.

use vstd::prelude::*;

use crate::client_core::{consume_ndjson_buffer, ndjson_lines, ndjson_remainder, raw_events_view, RawEvent};
use crate::errors::{Error, StreamTimeoutError, StreamTimeoutKind};
use crate::stream_timeouts::{
    check_timeout_exceeded, expired_limit, next_deadline, stream_next_deadline, timeout_exceeded,
    StreamDeadline, StreamTimeouts,
};
use crate::text::{chars_of, extend_chars, string_of};
use vstd::utf8::{decode_utf8, valid_utf8};

verus! {

/// What std's `Utf8Error` displays for bytes that are not UTF-8.
pub uninterp spec fn utf8_error_text(bytes: Seq<u8>) -> Seq<char>;

/// What `String::from_utf8_lossy` gives for `bytes`.
pub uninterp spec fn utf8_lossy(bytes: Seq<u8>) -> Seq<char>;

/// Calls `std::str::from_utf8`, which accepts exactly the well-formed UTF-8
/// byte sequences and then gives the characters they encode; otherwise the
/// error's text (named `utf8_error_text`, which says where decoding stopped)
/// comes back.
#[verifier::external_body]
fn utf8_decode(bytes: &[u8]) -> (r: Result<String, String>)
    ensures
        r is Ok <==> valid_utf8(bytes@),
        r matches Ok(s) ==> s@ == decode_utf8(bytes@),
        r matches Err(t) ==> t@ == utf8_error_text(bytes@),
{
    match std::str::from_utf8(bytes) {
        Ok(s) => Ok(s.to_string()),
        Err(e) => Err(e.to_string()),
    }
}

/// Calls `String::from_utf8_lossy`, which decodes well-formed UTF-8 as is
/// and puts U+FFFD in place of each ill-formed part. What it gives is named
/// `utf8_lossy`; the contract states the well-formed case and leaves the
/// replacement of ill-formed parts unsaid.
#[verifier::external_body]
fn utf8_decode_lossy(bytes: &[u8]) -> (r: String)
    ensures
        r@ == utf8_lossy(bytes@),
        valid_utf8(bytes@) ==> r@ == decode_utf8(bytes@),
{
    String::from_utf8_lossy(bytes).into_owned()
}

/// The text of a chunk of an asynchronous stream's body, which must be
/// UTF-8.
pub fn parse_utf8_chunk(chunk: &[u8]) -> (r: Result<String, Error>)
    ensures
        valid_utf8(chunk@) ==> (r matches Ok(s) && s@ == decode_utf8(chunk@)),
        !valid_utf8(chunk@) ==> (r matches Err(Error::StreamProtocol { message, raw_data })
            && message@ == "invalid UTF-8 in stream: "@ + utf8_error_text(chunk@) && raw_data is None),
{
    match utf8_decode(chunk) {
        Ok(s) => Ok(s),
        Err(t) => {
            let mut m = chars_of("invalid UTF-8 in stream: ");
            let tc = chars_of(t.as_str());
            extend_chars(&mut m, tc.as_slice());
            let message = string_of(m.as_slice());
            proof {
                reveal_strlit("invalid UTF-8 in stream: ");
            }
            Err(Error::StreamProtocol { message, raw_data: None })
        },
    }
}

/// Events queued beyond this many make the stream fail with backpressure.
pub const MAX_PENDING_EVENTS: usize = 512;

/// What a stream asks its driver to do next.
#[derive(Debug)]
pub enum StreamAction<E> {
    /// Hand this event to the consumer.
    Deliver(E),
    /// Surface this error to the consumer.
    Fail(Error),
    /// Read the next chunk of the body, before the deadline if there is one.
    Read(Option<StreamDeadline>),
    /// The stream is over.
    Close,
}

/// How handing a batch of decoded events to the queue went.
#[derive(Debug)]
pub enum ProcessEventsResult {
    /// Every event was taken (keepalives are skipped).
    Taken,
    /// An event failed to decode; the events after it were not looked at.
    Failed(Error),
    /// The queue grew past its bound; it then held this many events.
    Backpressure(usize),
}

/// The state of an NDJSON stream between reads.
pub struct NdjsonStreamState<E> {
    /// Text received after the last complete line.
    pub buffer: String,
    /// Decoded events not handed out yet, oldest first.
    pub pending: Vec<E>,
    /// Whether an event counting as the first token has arrived.
    pub ttft_satisfied: bool,
    /// Whether the stream is over.
    pub finished: bool,
    /// Whether events still come from a response body (a stream made from
    /// events already at hand has none).
    pub has_body: bool,
}

/// The queue and flag after a batch of decoded events, and how it went. Each
/// item is a decode result and whether the event counts as the first token.
pub open spec fn process_events_spec<E>(
    pending: Seq<E>,
    ttft: bool,
    items: Seq<(Result<Option<E>, Error>, bool)>,
) -> (Seq<E>, bool, ProcessEventsResult)
    decreases items.len(),
{
    if items.len() == 0 {
        (pending, ttft, ProcessEventsResult::Taken)
    } else {
        match items[0].0 {
            Ok(Some(e)) => {
                let t2 = ttft || items[0].1;
                let p2 = pending.push(e);
                if p2.len() > MAX_PENDING_EVENTS {
                    (p2, t2, ProcessEventsResult::Backpressure(p2.len() as usize))
                } else {
                    process_events_spec(p2, t2, items.drop_first())
                }
            },
            Ok(None) => process_events_spec(pending, ttft, items.drop_first()),
            Err(err) => (pending, ttft, ProcessEventsResult::Failed(err)),
        }
    }
}

/// The queue after a batch decoded at the end of a blocking body: events are
/// queued in order until the first decode error, which is returned.
pub open spec fn push_all_spec<E>(pending: Seq<E>, items: Seq<Result<Option<E>, Error>>) -> (
    Seq<E>,
    Option<Error>,
)
    decreases items.len(),
{
    if items.len() == 0 {
        (pending, None)
    } else {
        match items[0] {
            Ok(Some(e)) => push_all_spec(pending.push(e), items.drop_first()),
            Ok(None) => push_all_spec(pending, items.drop_first()),
            Err(err) => (pending, Some(err)),
        }
    }
}

impl<E> NdjsonStreamState<E> {
    /// A stream over a response body that has not been read yet.
    pub fn new() -> (r: Self)
        ensures
            r.buffer@ == Seq::<char>::empty(),
            r.pending@ == Seq::<E>::empty(),
            !r.ttft_satisfied,
            !r.finished,
            r.has_body,
    {
        NdjsonStreamState {
            buffer: String::new(),
            pending: Vec::new(),
            ttft_satisfied: false,
            finished: false,
            has_body: true,
        }
    }

    /// A stream that hands out `events`, in order, and reads nothing.
    pub fn from_events(events: Vec<E>) -> (r: Self)
        ensures
            r.buffer@ == Seq::<char>::empty(),
            r.pending@ == events@,
            !r.ttft_satisfied,
            !r.finished,
            !r.has_body,
    {
        NdjsonStreamState {
            buffer: String::new(),
            pending: events,
            ttft_satisfied: false,
            finished: false,
            has_body: false,
        }
    }

    /// Takes the oldest queued event, if any.
    pub fn pop_pending(&mut self) -> (r: Option<E>)
        ensures
            old(self).pending@.len() == 0 ==> r is None && *final(self) == *old(self),
            old(self).pending@.len() > 0 ==> r == Some(old(self).pending@[0]) && final(self).pending@
                == old(self).pending@.drop_first() && final(self).buffer == old(self).buffer
                && final(self).ttft_satisfied == old(self).ttft_satisfied && final(self).finished
                == old(self).finished && final(self).has_body == old(self).has_body,
    {
        if self.pending.len() == 0 {
            None
        } else {
            let e = self.pending.remove(0);
            Some(e)
        }
    }

    /// Appends a chunk of the body's text to the buffer and takes out the
    /// complete lines (trimmed, blank ones dropped); what follows the last
    /// newline stays buffered.
    pub fn accept_chunk(&mut self, text: &str) -> (r: Vec<RawEvent>)
        ensures
            raw_events_view(r@) == ndjson_lines(old(self).buffer@ + text@),
            final(self).buffer@ == ndjson_remainder(old(self).buffer@ + text@),
            final(self).pending == old(self).pending,
            final(self).ttft_satisfied == old(self).ttft_satisfied,
            final(self).finished == old(self).finished,
            final(self).has_body == old(self).has_body,
    {
        let mut whole = chars_of(self.buffer.as_str());
        let more = chars_of(text);
        extend_chars(&mut whole, more.as_slice());
        let joined = string_of(whole.as_slice());
        let (events, rest) = consume_ndjson_buffer(joined.as_str());
        self.buffer = rest;
        events
    }

    /// A chunk of an asynchronous stream's body: it must be UTF-8 (else the
    /// error comes back and nothing changes); its text is then taken as by
    /// [`Self::accept_chunk`].
    pub fn accept_bytes(&mut self, chunk: &[u8]) -> (r: Result<Vec<RawEvent>, Error>)
        ensures
            !valid_utf8(chunk@) ==> (r matches Err(Error::StreamProtocol { message, raw_data })
                && message@ == "invalid UTF-8 in stream: "@ + utf8_error_text(chunk@)
                && raw_data is None && *final(self) == *old(self)),
            valid_utf8(chunk@) ==> (r matches Ok(events) && raw_events_view(events@)
                == ndjson_lines(old(self).buffer@ + decode_utf8(chunk@)) && final(self).buffer@
                == ndjson_remainder(old(self).buffer@ + decode_utf8(chunk@))),
            final(self).pending == old(self).pending,
            final(self).ttft_satisfied == old(self).ttft_satisfied,
            final(self).finished == old(self).finished,
            final(self).has_body == old(self).has_body,
    {
        match parse_utf8_chunk(chunk) {
            Ok(text) => Ok(self.accept_chunk(text.as_str())),
            Err(e) => Err(e),
        }
    }

    /// A chunk of a blocking stream's body, decoded with U+FFFD in place of
    /// ill-formed UTF-8, then taken as by [`Self::accept_chunk`].
    pub fn accept_bytes_lossy(&mut self, chunk: &[u8]) -> (r: Vec<RawEvent>)
        ensures
            raw_events_view(r@) == ndjson_lines(old(self).buffer@ + utf8_lossy(chunk@)),
            final(self).buffer@ == ndjson_remainder(old(self).buffer@ + utf8_lossy(chunk@)),
            valid_utf8(chunk@) ==> utf8_lossy(chunk@) == decode_utf8(chunk@),
            final(self).pending == old(self).pending,
            final(self).ttft_satisfied == old(self).ttft_satisfied,
            final(self).finished == old(self).finished,
            final(self).has_body == old(self).has_body,
    {
        let text = utf8_decode_lossy(chunk);
        self.accept_chunk(text.as_str())
    }

    /// At the end of the body: takes out the complete lines still buffered
    /// and empties the buffer (text after the last newline is dropped).
    pub fn end_of_body(&mut self) -> (r: Vec<RawEvent>)
        ensures
            raw_events_view(r@) == ndjson_lines(old(self).buffer@),
            final(self).buffer@ == Seq::<char>::empty(),
            final(self).pending == old(self).pending,
            final(self).ttft_satisfied == old(self).ttft_satisfied,
            final(self).finished == old(self).finished,
            final(self).has_body == old(self).has_body,
    {
        let (events, _rest) = consume_ndjson_buffer(self.buffer.as_str());
        self.buffer = String::new();
        events
    }

    /// Queues a batch of decoded events in order: a decoded event that
    /// counts as the first token sets the flag; keepalives (`Ok(None)`) are
    /// skipped; the first decode error stops the batch; a queue longer than
    /// its bound stops it with backpressure.
    pub fn process_ndjson_events(&mut self, batch: Vec<(Result<Option<E>, Error>, bool)>) -> (r:
        ProcessEventsResult)
        ensures
            (final(self).pending@, final(self).ttft_satisfied, r) == process_events_spec(
                old(self).pending@,
                old(self).ttft_satisfied,
                batch@,
            ),
            final(self).buffer == old(self).buffer,
            final(self).finished == old(self).finished,
            final(self).has_body == old(self).has_body,
    {
        let mut items = batch;
        let ghost goal = process_events_spec(old(self).pending@, old(self).ttft_satisfied, items@);
        while items.len() > 0
            invariant
                goal == process_events_spec(old(self).pending@, old(self).ttft_satisfied, batch@),
                goal == process_events_spec(self.pending@, self.ttft_satisfied, items@),
                self.buffer == old(self).buffer,
                self.finished == old(self).finished,
                self.has_body == old(self).has_body,
            decreases items@.len(),
        {
            let ghost before = items@;
            let (res, counts) = items.remove(0);
            assert(items@ == before.drop_first());
            assert(before[0] == (res, counts));
            assert(goal == process_events_spec(self.pending@, self.ttft_satisfied, before));
            match res {
                Ok(Some(e)) => {
                    if counts {
                        self.ttft_satisfied = true;
                    }
                    self.pending.push(e);
                    if self.pending.len() > MAX_PENDING_EVENTS {
                        return ProcessEventsResult::Backpressure(self.pending.len());
                    }
                },
                Ok(None) => {},
                Err(err) => {
                    return ProcessEventsResult::Failed(err);
                },
            }
        }
        ProcessEventsResult::Taken
    }

    /// Queues the events decoded at the end of a blocking body, in order,
    /// until the first decode error, which is returned; keepalives are
    /// skipped.
    pub fn push_all(&mut self, batch: Vec<Result<Option<E>, Error>>) -> (r: Option<Error>)
        ensures
            (final(self).pending@, r) == push_all_spec(old(self).pending@, batch@),
            final(self).buffer == old(self).buffer,
            final(self).ttft_satisfied == old(self).ttft_satisfied,
            final(self).finished == old(self).finished,
            final(self).has_body == old(self).has_body,
    {
        let mut items = batch;
        let ghost goal = push_all_spec(old(self).pending@, items@);
        while items.len() > 0
            invariant
                goal == push_all_spec(old(self).pending@, batch@),
                goal == push_all_spec(self.pending@, items@),
                self.buffer == old(self).buffer,
                self.ttft_satisfied == old(self).ttft_satisfied,
                self.finished == old(self).finished,
                self.has_body == old(self).has_body,
            decreases items@.len(),
        {
            let ghost before = items@;
            let res = items.remove(0);
            assert(items@ == before.drop_first());
            assert(before[0] == res);
            assert(goal == push_all_spec(self.pending@, before));
            match res {
                Ok(Some(e)) => {
                    self.pending.push(e);
                },
                Ok(None) => {},
                Err(err) => {
                    return Some(err);
                },
            }
        }
        None
    }

    /// The next step of an asynchronous stream. A cancelled or finished
    /// stream closes; then the timeouts are checked (a timeout ends the
    /// stream); then a queued event is delivered; else the body is read,
    /// before the next deadline.
    pub fn next_action(
        &mut self,
        timeouts: StreamTimeouts,
        since_start_ns: u128,
        since_activity_ns: u128,
        cancelled: bool,
    ) -> (r: StreamAction<E>)
        ensures
            old(self).finished || cancelled ==> r is Close && *final(self) == (NdjsonStreamState {
                finished: true,
                ..*old(self)
            }),
            !old(self).finished && !cancelled ==> match timeout_exceeded(
                timeouts,
                since_start_ns,
                since_activity_ns,
                old(self).ttft_satisfied,
            ) {
                Some(t) => r == StreamAction::<E>::Fail(Error::StreamTimeout(t)) && *final(self) == (
                NdjsonStreamState { finished: true, ..*old(self) }),
                None => if old(self).pending@.len() > 0 {
                    r == StreamAction::Deliver(old(self).pending@[0]) && final(self).pending@
                        == old(self).pending@.drop_first() && final(self).buffer
                        == old(self).buffer && final(self).ttft_satisfied
                        == old(self).ttft_satisfied && !final(self).finished
                        && final(self).has_body == old(self).has_body
                } else {
                    r == StreamAction::<E>::Read(
                        next_deadline(
                            timeouts,
                            since_start_ns,
                            since_activity_ns,
                            old(self).ttft_satisfied,
                        ),
                    ) && *final(self) == *old(self)
                },
            },
    {
        if self.finished || cancelled {
            self.finished = true;
            return StreamAction::Close;
        }
        match check_timeout_exceeded(timeouts, since_start_ns, since_activity_ns, self.ttft_satisfied) {
            Some(t) => {
                self.finished = true;
                StreamAction::Fail(Error::StreamTimeout(t))
            },
            None => match self.pop_pending() {
                Some(e) => StreamAction::Deliver(e),
                None => StreamAction::Read(
                    stream_next_deadline(
                        timeouts,
                        since_start_ns,
                        since_activity_ns,
                        self.ttft_satisfied,
                    ),
                ),
            },
        }
    }

    /// A read that ran past its deadline ends the stream with that
    /// deadline's timeout.
    pub fn read_timed_out(&mut self, deadline: StreamDeadline) -> (r: Error)
        ensures
            r == Error::StreamTimeout(
                StreamTimeoutError { kind: deadline.kind, timeout_ms: deadline.timeout_ms },
            ),
            *final(self) == (NdjsonStreamState { finished: true, ..*old(self) }),
    {
        self.finished = true;
        Error::StreamTimeout(StreamTimeoutError { kind: deadline.kind, timeout_ms: deadline.timeout_ms })
    }

    /// The next step of a blocking stream. A finished stream closes; the
    /// total limit and (until the first token) the time-to-first-token limit
    /// end the stream; a queued event is delivered; a stream without a body
    /// then closes; else [`Self::blocking_read_step`] decides.
    pub fn blocking_next(
        &mut self,
        timeouts: StreamTimeouts,
        since_start_ns: u128,
        since_activity_ns: u128,
    ) -> (r: StreamAction<E>)
        ensures
            old(self).finished ==> r is Close && *final(self) == *old(self),
            !old(self).finished && expired_limit(timeouts.total_ms, since_start_ns) ==> r
                == StreamAction::<E>::Fail(
                Error::StreamTimeout(
                    StreamTimeoutError {
                        kind: StreamTimeoutKind::Total,
                        timeout_ms: timeouts.total_ms->Some_0,
                    },
                ),
            ) && *final(self) == (NdjsonStreamState { finished: true, ..*old(self) }),
            !old(self).finished && !expired_limit(timeouts.total_ms, since_start_ns)
                && !old(self).ttft_satisfied && expired_limit(timeouts.ttft_ms, since_start_ns) ==> r
                == StreamAction::<E>::Fail(
                Error::StreamTimeout(
                    StreamTimeoutError {
                        kind: StreamTimeoutKind::Ttft,
                        timeout_ms: timeouts.ttft_ms->Some_0,
                    },
                ),
            ) && *final(self) == (NdjsonStreamState { finished: true, ..*old(self) }),
            !old(self).finished && !expired_limit(timeouts.total_ms, since_start_ns) && (
            old(self).ttft_satisfied || !expired_limit(timeouts.ttft_ms, since_start_ns)) ==> (
            if old(self).pending@.len() > 0 {
                r == StreamAction::Deliver(old(self).pending@[0]) && final(self).pending@
                    == old(self).pending@.drop_first() && final(self).buffer == old(self).buffer
                    && final(self).ttft_satisfied == old(self).ttft_satisfied && !final(self).finished && final(self).has_body == old(self).has_body
            } else if !old(self).has_body {
                r is Close && *final(self) == (NdjsonStreamState { finished: true, ..*old(self) })
            } else {
                blocking_read_spec(*old(self), timeouts, since_activity_ns, r, *final(self))
            }),
    {
        if self.finished {
            return StreamAction::Close;
        }
        if let Some(total) = timeouts.total_ms {
            if expired_now(total, since_start_ns) {
                self.finished = true;
                return StreamAction::Fail(
                    Error::StreamTimeout(
                        StreamTimeoutError { kind: StreamTimeoutKind::Total, timeout_ms: total },
                    ),
                );
            }
        }
        if !self.ttft_satisfied {
            if let Some(ttft) = timeouts.ttft_ms {
                if expired_now(ttft, since_start_ns) {
                    self.finished = true;
                    return StreamAction::Fail(
                        Error::StreamTimeout(
                            StreamTimeoutError { kind: StreamTimeoutKind::Ttft, timeout_ms: ttft },
                        ),
                    );
                }
            }
        }
        if self.pending.len() > 0 {
            let e = self.pending.remove(0);
            return StreamAction::Deliver(e);
        }
        if !self.has_body {
            self.finished = true;
            return StreamAction::Close;
        }
        self.blocking_read_step(timeouts, since_activity_ns)
    }

    /// Inside the read loop of a blocking stream: a queued event is
    /// delivered; else an idle limit that has run out ends the stream; else
    /// the body is read (with no deadline).
    pub fn blocking_read_step(&mut self, timeouts: StreamTimeouts, since_activity_ns: u128) -> (r:
        StreamAction<E>)
        ensures
            blocking_read_spec(*old(self), timeouts, since_activity_ns, r, *final(self)),
    {
        if self.pending.len() > 0 {
            let e = self.pending.remove(0);
            return StreamAction::Deliver(e);
        }
        if let Some(idle) = timeouts.idle_ms {
            if expired_now(idle, since_activity_ns) {
                self.finished = true;
                return StreamAction::Fail(
                    Error::StreamTimeout(
                        StreamTimeoutError { kind: StreamTimeoutKind::Idle, timeout_ms: idle },
                    ),
                );
            }
        }
        StreamAction::Read(None)
    }

    /// After the last events of a blocking body were queued: the stream is
    /// over, and the first of them (if any) is still delivered.
    pub fn finish_after_end(&mut self) -> (r: StreamAction<E>)
        ensures
            final(self).finished,
            final(self).buffer == old(self).buffer,
            final(self).ttft_satisfied == old(self).ttft_satisfied,
            final(self).has_body == old(self).has_body,
            old(self).pending@.len() > 0 ==> r == StreamAction::Deliver(old(self).pending@[0])
                && final(self).pending@ == old(self).pending@.drop_first(),
            old(self).pending@.len() == 0 ==> r is Close && final(self).pending@
                == old(self).pending@,
    {
        self.finished = true;
        match self.pop_pending() {
            Some(e) => StreamAction::Deliver(e),
            None => StreamAction::Close,
        }
    }
}

/// One step of the read loop of a blocking stream, from `s` to `t`.
pub open spec fn blocking_read_spec<E>(
    s: NdjsonStreamState<E>,
    timeouts: StreamTimeouts,
    since_activity_ns: u128,
    r: StreamAction<E>,
    t: NdjsonStreamState<E>,
) -> bool {
    if s.pending@.len() > 0 {
        r == StreamAction::Deliver(s.pending@[0]) && t.pending@ == s.pending@.drop_first()
            && t.buffer == s.buffer && t.ttft_satisfied == s.ttft_satisfied && t.finished
            == s.finished && t.has_body == s.has_body
    } else if expired_limit(timeouts.idle_ms, since_activity_ns) {
        r == StreamAction::<E>::Fail(
            Error::StreamTimeout(
                StreamTimeoutError {
                    kind: StreamTimeoutKind::Idle,
                    timeout_ms: timeouts.idle_ms->Some_0,
                },
            ),
        ) && t == (NdjsonStreamState { finished: true, ..s })
    } else {
        r == StreamAction::<E>::Read(None) && t == s
    }
}

/// Whether `elapsed_ns` has reached a limit of `limit_ms`.
fn expired_now(limit_ms: u64, elapsed_ns: u128) -> (r: bool)
    ensures
        r == (elapsed_ns >= limit_ms as int * 1_000_000),
{
    elapsed_ns >= (limit_ms as u128) * 1_000_000
}


/// The events a batch decodes to, in order, keepalives left out.
pub open spec fn decoded_events<E>(items: Seq<(Result<Option<E>, Error>, bool)>) -> Seq<E>
    decreases items.len(),
{
    if items.len() == 0 {
        Seq::empty()
    } else {
        match items[0].0 {
            Ok(Some(e)) => seq![e] + decoded_events(items.drop_first()),
            _ => decoded_events(items.drop_first()),
        }
    }
}

/// Queueing a batch keeps what was queued before it at the front, never
/// clears the first-token flag, and, when the whole batch is taken, appends
/// exactly its decoded events in the order they came.
pub proof fn lemma_batch_appends_in_order<E>(
    pending: Seq<E>,
    ttft: bool,
    items: Seq<(Result<Option<E>, Error>, bool)>,
)
    ensures
        ({
            let (p, t, r) = process_events_spec(pending, ttft, items);
            &&& p.len() >= pending.len()
            &&& p.subrange(0, pending.len() as int) == pending
            &&& (ttft ==> t)
            &&& (r is Taken ==> p == pending + decoded_events(items))
        }),
    decreases items.len(),
{
    if items.len() > 0 {
        let rest = items.drop_first();
        match items[0].0 {
            Ok(Some(e)) => {
                let p2 = pending.push(e);
                let t2 = ttft || items[0].1;
                if p2.len() <= MAX_PENDING_EVENTS {
                    lemma_batch_appends_in_order(p2, t2, rest);
                    let (p, t, r) = process_events_spec(p2, t2, rest);
                    assert(p.subrange(0, pending.len() as int) =~= p.subrange(0, p2.len() as int).subrange(
                        0,
                        pending.len() as int,
                    ));
                    assert(p2.subrange(0, pending.len() as int) =~= pending);
                    if r is Taken {
                        assert(pending + decoded_events(items) =~= p2 + decoded_events(rest));
                    }
                } else {
                    assert(p2.subrange(0, pending.len() as int) =~= pending);
                }
            },
            Ok(None) => {
                lemma_batch_appends_in_order(pending, ttft, rest);
            },
            Err(_) => {
                assert(pending.subrange(0, pending.len() as int) =~= pending);
            },
        }
    } else {
        assert(pending.subrange(0, pending.len() as int) =~= pending);
        assert(pending + decoded_events(items) =~= pending);
    }
}

} // verus!
