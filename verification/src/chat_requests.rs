//! The checks a chat request passes before it is sent, and how its
//! metadata is filled in.

use vstd::prelude::*;

use crate::errors::{field_validation, is_field_error, is_validation_message, validation, Error};
use crate::identifiers::MessageRole;
use crate::local_tools_common::pairs_view;
use crate::text::{chars_of, str_eq, trim, trim_chars};

verus! {

/// A chat request needs messages, at least one of them from the user.
pub open spec fn messages_error(roles: Seq<MessageRole>) -> Option<Seq<char>> {
    if roles.len() == 0 {
        Some("at least one message is required"@)
    } else if !roles.contains(MessageRole::User) {
        Some("at least one user message is required"@)
    } else {
        None
    }
}

/// Checks the roles of a chat request's messages.
pub fn validate_chat_messages(roles: &Vec<MessageRole>) -> (r: Result<(), Error>)
    ensures
        match messages_error(roles@) {
            None => r is Ok,
            Some(msg) => r matches Err(e) && is_field_error(e, msg, "messages"@),
        },
{
    if roles.len() == 0 {
        return Err(field_validation("at least one message is required", "messages"));
    }
    let mut i: usize = 0;
    while i < roles.len()
        invariant
            i <= roles@.len(),
            forall|j: int| 0 <= j < i ==> roles@[j] != MessageRole::User,
        decreases roles@.len() - i,
    {
        if roles[i] == MessageRole::User {
            assert(roles@.contains(MessageRole::User)) by {
                assert(roles@[i as int] == MessageRole::User);
            }
            return Ok(());
        }
        i += 1;
    }
    Err(field_validation("at least one user message is required", "messages"))
}

/// Checks a chat request to the model proxy: a model first, then its
/// messages.
pub fn validate_chat_request(model: &Option<String>, roles: &Vec<MessageRole>) -> (r: Result<
    (),
    Error,
>)
    ensures
        model is None ==> (r matches Err(e) && is_validation_message(e, "model is required"@)),
        model is Some ==> match messages_error(roles@) {
            None => r is Ok,
            Some(msg) => r matches Err(e) && is_field_error(e, msg, "messages"@),
        },
{
    if model.is_none() {
        return Err(validation("model is required"));
    }
    validate_chat_messages(roles)
}

/// The metadata as a map: for each key, the value of its last entry.
pub open spec fn metadata_map(entries: Seq<(Seq<char>, Seq<char>)>) -> Map<Seq<char>, Seq<char>>
    decreases entries.len(),
{
    if entries.len() == 0 {
        Map::empty()
    } else {
        metadata_map(entries.drop_last()).insert(entries.last().0, entries.last().1)
    }
}

/// No key occurs twice.
pub open spec fn unique_keys(entries: Seq<(Seq<char>, Seq<char>)>) -> bool {
    forall|i: int, j: int| 0 <= i < j < entries.len() ==> entries[i].0 != entries[j].0
}

/// Adds one metadata entry: a blank key or value leaves the metadata as it
/// is; otherwise the entry is set (replacing the key's value) and the
/// metadata exists from then on.
pub fn metadata_entry(metadata: &mut Option<Vec<(String, String)>>, key: String, value: String)
    requires
        match *old(metadata) {
            Some(v) => unique_keys(pairs_view(v@)),
            None => true,
        },
    ensures
        trim(key@).len() == 0 || trim(value@).len() == 0 ==> *final(metadata) == *old(metadata),
        trim(key@).len() > 0 && trim(value@).len() > 0 ==> (*final(metadata) matches Some(v)
            && unique_keys(pairs_view(v@)) && metadata_map(pairs_view(v@)) == (match *old(
            metadata,
        ) {
            Some(o) => metadata_map(pairs_view(o@)),
            None => Map::empty(),
        }).insert(key@, value@)),
{
    let kc = chars_of(key.as_str());
    let vc = chars_of(value.as_str());
    if trim_chars(kc.as_slice()).len() == 0 || trim_chars(vc.as_slice()).len() == 0 {
        return;
    }
    let mut entries = match metadata.take() {
        Some(v) => v,
        None => {
            let e: Vec<(String, String)> = Vec::new();
            assert(pairs_view(e@) =~= Seq::<(Seq<char>, Seq<char>)>::empty());
            e
        },
    };
    let ghost ev = pairs_view(entries@);
    assert(ev == match *old(metadata) {
        Some(o) => pairs_view(o@),
        None => Seq::<(Seq<char>, Seq<char>)>::empty(),
    });
    let mut i: usize = 0;
    while i < entries.len()
        invariant
            i <= entries@.len(),
            ev == pairs_view(entries@),
            ev == match *old(metadata) {
                Some(o) => pairs_view(o@),
                None => Seq::<(Seq<char>, Seq<char>)>::empty(),
            },
            trim(key@).len() > 0,
            trim(value@).len() > 0,
            unique_keys(ev),
            forall|j: int| 0 <= j < i ==> ev[j].0 != key@,
        decreases entries@.len() - i,
    {
        if str_eq(entries[i].0.as_str(), key.as_str()) {
            let ghost old_entry = ev[i as int];
            entries.set(i, (key, value));
            proof {
                lemma_metadata_map_set(ev, i as int, (key@, value@));
                assert(pairs_view(entries@) =~= ev.update(i as int, (key@, value@)));
            }
            *metadata = Some(entries);
            return;
        }
        i += 1;
    }
    let ghost k = key@;
    let ghost v = value@;
    entries.push((key, value));
    assert(pairs_view(entries@) =~= ev.push((k, v)));
    assert(metadata_map(ev) == (match *old(metadata) {
        Some(o) => metadata_map(pairs_view(o@)),
        None => Map::empty(),
    })) by {
        if old(metadata).is_none() {
            assert(ev =~= Seq::<(Seq<char>, Seq<char>)>::empty());
        }
    }
    assert(pairs_view(entries@).drop_last() =~= ev);
    *metadata = Some(entries);
}

/// Setting an entry's value in place sets it in the map, keys staying
/// unique.
proof fn lemma_metadata_map_set(
    entries: Seq<(Seq<char>, Seq<char>)>,
    i: int,
    e: (Seq<char>, Seq<char>),
)
    requires
        0 <= i < entries.len(),
        unique_keys(entries),
        entries[i].0 == e.0,
    ensures
        unique_keys(entries.update(i, e)),
        metadata_map(entries.update(i, e)) == metadata_map(entries).insert(e.0, e.1),
    decreases entries.len(),
{
    let u = entries.update(i, e);
    assert forall|a: int, b: int| 0 <= a < b < u.len() implies u[a].0 != u[b].0 by {
        assert(u[a].0 == entries[a].0);
        assert(u[b].0 == entries[b].0);
    }
    if i == entries.len() - 1 {
        assert(u.drop_last() =~= entries.drop_last());
        lemma_metadata_map_lacks(entries.drop_last(), e.0);
        assert(metadata_map(entries).insert(e.0, e.1) =~= metadata_map(entries.drop_last()).insert(
            e.0,
            e.1,
        ));
    } else {
        let d = entries.drop_last();
        assert(u.drop_last() =~= d.update(i, e));
        assert forall|a: int, b: int| 0 <= a < b < d.len() implies d[a].0 != d[b].0 by {
            assert(d[a] == entries[a]);
            assert(d[b] == entries[b]);
        }
        lemma_metadata_map_set(d, i, e);
        assert(u.last() == entries.last());
        assert(entries.last().0 != e.0);
        assert(metadata_map(u) =~= metadata_map(entries).insert(e.0, e.1));
    }
}

/// A key none of the entries has is not in the map.
proof fn lemma_metadata_map_lacks(entries: Seq<(Seq<char>, Seq<char>)>, k: Seq<char>)
    requires
        forall|j: int| 0 <= j < entries.len() ==> entries[j].0 != k,
    ensures
        !metadata_map(entries).dom().contains(k),
    decreases entries.len(),
{
    if entries.len() > 0 {
        lemma_metadata_map_lacks(entries.drop_last(), k);
    }
}

/// The kinds of stream events a chat stream adapter tells apart.
#[derive(Debug, Clone, Copy, PartialEq, Eq)]
pub enum ChatEventKind {
    MessageDelta,
    MessageStop,
    Other,
}

/// What a chat stream adapter makes of one event.
#[derive(Debug, PartialEq, Eq)]
pub enum ChatStreamStep {
    /// A text delta for the caller.
    Delta(String),
    /// The message is complete; no more deltas follow.
    Stopped,
    /// Nothing for the caller; read on.
    Skip,
}

/// One event of a chat stream, as the adapter reads it.
pub struct ChatEvent<U, R> {
    pub kind: ChatEventKind,
    pub text_delta: Option<String>,
    pub usage: Option<U>,
    pub stop_reason: Option<R>,
    pub request_id: Option<String>,
}

/// Whether reading a stream for the next delta ends at this item: an error,
/// a message delta that carries text, or the message stop.
pub open spec fn ends_delta_read<U, R, E>(item: Result<ChatEvent<U, R>, E>) -> bool {
    match item {
        Err(_) => true,
        Ok(e) => e.kind == ChatEventKind::MessageStop || (e.kind == ChatEventKind::MessageDelta
            && e.text_delta is Some),
    }
}

/// Follows a chat stream: hands out the text of message deltas and keeps
/// what the final event says (usage, stop reason, request id).
pub struct ChatStreamAdapter<U, R> {
    pub finished: bool,
    pub final_usage: Option<U>,
    pub final_stop_reason: Option<R>,
    pub final_request_id: Option<String>,
}

impl<U, R> ChatStreamAdapter<U, R> {
    /// An adapter that has seen nothing.
    pub fn new() -> (r: Self)
        ensures
            !r.finished,
            r.final_usage is None,
            r.final_stop_reason is None,
            r.final_request_id is None,
    {
        ChatStreamAdapter { finished: false, final_usage: None, final_stop_reason: None, final_request_id: None }
    }

    /// Handles one event of the stream. A message delta with text hands the
    /// text out; the message stop finishes the adapter and records the
    /// event's usage and stop reason and its request id (or else the
    /// stream's); anything else is skipped.
    pub fn on_event(
        &mut self,
        kind: ChatEventKind,
        text_delta: Option<String>,
        usage: Option<U>,
        stop_reason: Option<R>,
        request_id: Option<String>,
        stream_request_id: Option<String>,
    ) -> (r: ChatStreamStep)
        ensures
            kind == ChatEventKind::MessageDelta && text_delta is Some ==> r == ChatStreamStep::Delta(
                text_delta->Some_0,
            ) && *final(self) == *old(self),
            kind == ChatEventKind::MessageStop ==> r == ChatStreamStep::Stopped && *final(self) == (
            ChatStreamAdapter {
                finished: true,
                final_usage: usage,
                final_stop_reason: stop_reason,
                final_request_id: if request_id is Some {
                    request_id
                } else {
                    stream_request_id
                },
            }),
            (kind == ChatEventKind::Other || (kind == ChatEventKind::MessageDelta && text_delta is None))
                ==> r == ChatStreamStep::Skip && *final(self) == *old(self),
    {
        match kind {
            ChatEventKind::MessageDelta => match text_delta {
                Some(t) => ChatStreamStep::Delta(t),
                None => ChatStreamStep::Skip,
            },
            ChatEventKind::MessageStop => {
                self.finished = true;
                self.final_usage = usage;
                self.final_stop_reason = stop_reason;
                self.final_request_id = match request_id {
                    Some(id) => Some(id),
                    None => stream_request_id,
                };
                ChatStreamStep::Stopped
            },
            ChatEventKind::Other => ChatStreamStep::Skip,
        }
    }

    /// Reads the stream (the events not yet read, first first) up to the
    /// next text delta and hands it out. An error of the stream is passed
    /// on; the message stop finishes the adapter as `on_event` says and
    /// gives `Ok(None)`, and so does the end of the stream, which leaves
    /// the adapter as it was. Events before the one that ends the read are
    /// skipped; the events after it stay unread.
    pub fn next_delta<E>(
        &mut self,
        events: &mut Vec<Result<ChatEvent<U, R>, E>>,
        stream_request_id: Option<String>,
    ) -> (r: Result<Option<String>, E>)
        ensures
            ({
                let n = old(events)@.len() - final(events)@.len();
                &&& 0 <= n <= old(events)@.len()
                &&& final(events)@ == old(events)@.skip(n)
                &&& forall|j: int| 0 <= j < n - 1 ==> !ends_delta_read(#[trigger] old(events)@[j])
                &&& if n > 0 && ends_delta_read(old(events)@[n - 1]) {
                    match old(events)@[n - 1] {
                        Err(e) => r == Err::<Option<String>, E>(e) && *final(self) == *old(self),
                        Ok(ev) => if ev.kind == ChatEventKind::MessageStop {
                            r == Ok::<Option<String>, E>(None) && *final(self) == (ChatStreamAdapter {
                                finished: true,
                                final_usage: ev.usage,
                                final_stop_reason: ev.stop_reason,
                                final_request_id: if ev.request_id is Some {
                                    ev.request_id
                                } else {
                                    stream_request_id
                                },
                            })
                        } else {
                            r == Ok::<Option<String>, E>(ev.text_delta) && *final(self) == *old(self)
                        },
                    }
                } else {
                    &&& n == old(events)@.len()
                    &&& forall|j: int| 0 <= j < n ==> !ends_delta_read(#[trigger] old(events)@[j])
                    &&& r == Ok::<Option<String>, E>(None)
                    &&& *final(self) == *old(self)
                }
            }),
    {
        let ghost start = events@;
        let mut found: Option<Result<ChatEvent<U, R>, E>> = None;
        while found.is_none() && events.len() > 0
            invariant
                start.len() >= events@.len(),
                events@ == start.skip(start.len() - events@.len()),
                found is None ==> forall|j: int| 0 <= j < start.len() - events@.len() ==> !ends_delta_read(
                    #[trigger] start[j],
                ),
                found matches Some(item) ==> {
                    &&& start.len() - events@.len() > 0
                    &&& item == start[start.len() - events@.len() - 1]
                    &&& ends_delta_read(item)
                    &&& forall|j: int| 0 <= j < start.len() - events@.len() - 1 ==> !ends_delta_read(
                        #[trigger] start[j],
                    )
                },
            decreases events@.len(),
        {
            let ghost k: int = start.len() - events@.len();
            assert(events@[0] == start[k]);
            let item = events.remove(0);
            assert(events@ =~= start.skip(k + 1));
            let ends = match &item {
                Err(_) => true,
                Ok(ev) => match ev.kind {
                    ChatEventKind::MessageStop => true,
                    ChatEventKind::MessageDelta => ev.text_delta.is_some(),
                    ChatEventKind::Other => false,
                },
            };
            if ends {
                found = Some(item);
            }
        }
        match found {
            None => Ok(None),
            Some(Err(e)) => Err(e),
            Some(Ok(ev)) => match ev.kind {
                ChatEventKind::MessageStop => {
                    self.finished = true;
                    self.final_usage = ev.usage;
                    self.final_stop_reason = ev.stop_reason;
                    self.final_request_id = match ev.request_id {
                        Some(id) => Some(id),
                        None => stream_request_id,
                    };
                    Ok(None)
                },
                _ => Ok(ev.text_delta),
            },
        }
    }

    /// Final usage info if the stream finished.
    pub fn final_usage(&self) -> (r: Option<&U>)
        ensures
            r == match self.final_usage {
                Some(u) => Some(&u),
                None => None::<&U>,
            },
    {
        match &self.final_usage {
            Some(u) => Some(u),
            None => None,
        }
    }

    /// Final stop reason if the stream finished.
    pub fn final_stop_reason(&self) -> (r: Option<&R>)
        ensures
            r == match self.final_stop_reason {
                Some(x) => Some(&x),
                None => None::<&R>,
            },
    {
        match &self.final_stop_reason {
            Some(x) => Some(x),
            None => None,
        }
    }

    /// Final request id if known.
    pub fn final_request_id(&self) -> (r: Option<&str>)
        ensures
            match r {
                Some(s) => self.final_request_id matches Some(id) && s@ == id@,
                None => self.final_request_id is None,
            },
    {
        match &self.final_request_id {
            Some(s) => Some(s.as_str()),
            None => None,
        }
    }
}

} // verus!
