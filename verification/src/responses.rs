//! Response helpers: turning cumulative streamed text into deltas, and the
//! checks a response or a structured request must pass.

use vstd::prelude::*;

use crate::errors::{field_validation, is_field_error, Error, TransportError, TransportErrorKind};
use crate::text::{chars_of, extend_chars, has_prefix, slice_chars, string_of, trim, trim_chars};

verus! {

/// The delta of a streamed text and the text accumulated after it: when
/// `next` extends what was accumulated, its new part (and `next` becomes
/// the accumulated text); when `next` is a prefix of it, nothing (and
/// `next` becomes the accumulated text); otherwise all of `next`, appended
/// to the accumulated text.
pub open spec fn text_delta(acc: Seq<char>, next: Seq<char>) -> (Seq<char>, Seq<char>) {
    if acc.is_prefix_of(next) {
        (next.skip(acc.len() as int), next)
    } else if next.is_prefix_of(acc) {
        (seq![], next)
    } else {
        (next, acc + next)
    }
}

pub fn compute_text_delta(accumulated: String, next: String) -> (r: (String, String))
    ensures
        (r.0@, r.1@) == text_delta(accumulated@, next@),
{
    let a = chars_of(accumulated.as_str());
    let n = chars_of(next.as_str());
    if has_prefix(n.as_slice(), a.as_slice()) {
        let d = slice_chars(n.as_slice(), a.len(), n.len());
        assert(d@ =~= next@.skip(accumulated@.len() as int));
        (string_of(d.as_slice()), next)
    } else if has_prefix(a.as_slice(), n.as_slice()) {
        (String::new(), next)
    } else {
        let mut acc = a;
        extend_chars(&mut acc, n.as_slice());
        (next, string_of(acc.as_slice()))
    }
}

/// Unless the new text is a prefix of what was accumulated (a stream that
/// starts over), the accumulated text grows by exactly the delta.
pub proof fn lemma_delta_extends_accumulated(acc: Seq<char>, next: Seq<char>)
    requires
        acc.is_prefix_of(next) || !next.is_prefix_of(acc),
    ensures
        acc + text_delta(acc, next).0 == text_delta(acc, next).1,
{
    if acc.is_prefix_of(next) {
        assert(acc + next.skip(acc.len() as int) =~= next);
    }
}

/// The deltas of a run of streamed texts, joined, and the text accumulated
/// at the end, starting from `acc`.
pub open spec fn stream_deltas(acc: Seq<char>, texts: Seq<Seq<char>>) -> (Seq<char>, Seq<char>)
    decreases texts.len(),
{
    if texts.len() == 0 {
        (seq![], acc)
    } else {
        let step = text_delta(acc, texts[0]);
        let rest = stream_deltas(step.1, texts.drop_first());
        (step.0 + rest.0, rest.1)
    }
}

/// When every streamed text extends the one before it (the first extending
/// `acc`), the deltas handed out, joined after `acc`, give back the last
/// text: nothing is lost or repeated.
pub proof fn lemma_cumulative_deltas_rebuild_text(acc: Seq<char>, texts: Seq<Seq<char>>)
    requires
        texts.len() > 0 ==> acc.is_prefix_of(texts[0]),
        forall|i: int| 0 < i < texts.len() ==> #[trigger] texts[i - 1].is_prefix_of(texts[i]),
    ensures
        acc + stream_deltas(acc, texts).0 == stream_deltas(acc, texts).1,
        texts.len() > 0 ==> stream_deltas(acc, texts).1 == texts.last(),
    decreases texts.len(),
{
    if texts.len() == 0 {
        assert(acc + Seq::<char>::empty() =~= acc);
    } else {
        let step = text_delta(acc, texts[0]);
        assert(acc + texts[0].skip(acc.len() as int) =~= texts[0]);
        let tail = texts.drop_first();
        assert forall|i: int| 0 < i < tail.len() implies #[trigger] tail[i - 1].is_prefix_of(tail[i]) by {
            assert(tail[i - 1] == texts[i]);
            assert(tail[i] == texts[i + 1]);
            assert(texts[(i + 1) - 1].is_prefix_of(texts[i + 1]));
        }
        if tail.len() > 0 {
            assert(texts[1 - 1].is_prefix_of(texts[1]));
        }
        lemma_cumulative_deltas_rebuild_text(step.1, tail);
        let rest = stream_deltas(step.1, tail);
        assert(acc + (step.0 + rest.0) =~= (acc + step.0) + rest.0);
        if tail.len() == 0 {
            assert(rest.1 == step.1);
        } else {
            assert(tail.last() == texts.last());
        }
    }
}

/// Turns the events of a response stream into text deltas: it keeps the
/// text accumulated so far.
pub struct ResponseStreamAdapter {
    pub accumulated: String,
}

impl ResponseStreamAdapter {
    /// An adapter that has seen no text.
    pub fn new() -> (r: Self)
        ensures
            r.accumulated@ == Seq::<char>::empty(),
    {
        ResponseStreamAdapter { accumulated: String::new() }
    }

    /// Handles one stream event. A text event (a message delta or the
    /// message stop) that carries text yields its delta when that is not
    /// empty, and the accumulated text moves on as `text_delta` says; any
    /// other event yields nothing and changes nothing.
    pub fn next_delta(&mut self, is_text_event: bool, text: Option<String>) -> (r: Option<String>)
        ensures
            !is_text_event || text is None ==> r is None && final(self).accumulated
                == old(self).accumulated,
            is_text_event && text is Some ==> ({
                let d = text_delta(old(self).accumulated@, text->Some_0@);
                &&& final(self).accumulated@ == d.1
                &&& d.0.len() > 0 ==> (r matches Some(x) && x@ == d.0)
                &&& d.0.len() == 0 ==> r is None
            }),
    {
        if !is_text_event {
            return None;
        }
        match text {
            Some(next) => {
                let mut acc = String::new();
                std::mem::swap(&mut acc, &mut self.accumulated);
                let (delta, new_acc) = compute_text_delta(acc, next);
                self.accumulated = new_acc;
                if delta.as_str().is_empty() {
                    None
                } else {
                    Some(delta)
                }
            },
            None => None,
        }
    }
}

/// The assistant text of a response, refused when it is blank.
pub fn require_assistant_text(text: String) -> (r: Result<String, Error>)
    ensures
        trim(text@).len() > 0 ==> r == Ok::<String, Error>(text),
        trim(text@).len() == 0 ==> (r matches Err(Error::Transport(t)) && t.kind
            == TransportErrorKind::EmptyResponse && t.message@
            == "response contained no assistant text output"@ && t.retries is None),
{
    let c = chars_of(text.as_str());
    if trim_chars(c.as_slice()).len() == 0 {
        return Err(
            Error::Transport(
                TransportError {
                    kind: TransportErrorKind::EmptyResponse,
                    message: crate::text::owned("response contained no assistant text output"),
                    retries: None,
                },
            ),
        );
    }
    Ok(text)
}

/// Structured streaming needs an output format, and a structured one:
/// `format` tells whether one was given and, if so, whether it is
/// structured (`type=json_schema`).
pub fn validate_structured_output_format(format: Option<bool>) -> (r: Result<(), Error>)
    ensures
        format == Some(true) ==> r is Ok,
        format == Some(false) ==> (r matches Err(e) && is_field_error(
            e,
            "output_format must be structured (type=json_schema)"@,
            "output_format.type"@,
        )),
        format is None ==> (r matches Err(e) && is_field_error(
            e,
            "output_format is required for structured streaming"@,
            "output_format"@,
        )),
{
    match format {
        Some(true) => Ok(()),
        Some(false) => Err(
            field_validation(
                "output_format must be structured (type=json_schema)",
                "output_format.type",
            ),
        ),
        None => Err(
            field_validation("output_format is required for structured streaming", "output_format"),
        ),
    }
}

} // verus!
