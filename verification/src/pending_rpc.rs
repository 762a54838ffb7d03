//! Requests sent to the core service that still wait for their reply. Each
//! request has an id, the kind of reply it expects and a way to hand the
//! reply to whoever waits for it. A reply is routed to its request once; a
//! reply of the wrong kind is answered with an error instead; when the
//! connection ends, every waiting request is told.

use vstd::prelude::*;
use std::collections::HashMap;
use vstd::std_specs::iter::IteratorSpec;
use crate::error::{ErrorKind, LkError};
use crate::text::append_text;

verus! {

broadcast use vstd::std_specs::hash::group_hash_axioms;

/// What a pending request asks the core for.
#[derive(Clone, Copy, Debug, PartialEq, Eq, Structural)]
pub enum PendingRpcKind {
    ExecuteCommand,
    CommandsForHost,
    CommandForHost,
    CustomCommandsForHost,
    AllHostCategories,
    RefreshInvocationIds,
    InitializeHosts,
    ResolveTextEditorPath,
    DownloadEditable,
    WriteCachedFile,
    RemoveCachedFile,
    HasCachedFileChanged,
    UploadFromCache,
    Config,
    UpdateConfig,
    GetSecret,
    StoreSecret,
    RemoveSecret,
    Ack,
}

/// The variant of a reply from the core, without its contents.
#[derive(Clone, Copy, Debug, PartialEq, Eq, Structural)]
pub enum ReplyTag {
    ExecuteCommand,
    CommandsForHost,
    CommandForHost,
    CustomCommandsForHost,
    AllHostCategories,
    RefreshInvocationIds,
    InitializeHosts,
    ResolveTextEditorPath,
    DownloadEditable,
    FileOpDone,
    FileChanged,
    UploadFromCache,
    Config,
    UpdateConfigOk,
    GetSecret,
    StoreSecret,
    RemoveSecretOk,
    Ack,
    Error,
}

/// The reply a request of each kind is answered with when it succeeds.
pub open spec fn expected_reply(kind: PendingRpcKind) -> ReplyTag {
    match kind {
        PendingRpcKind::ExecuteCommand => ReplyTag::ExecuteCommand,
        PendingRpcKind::CommandsForHost => ReplyTag::CommandsForHost,
        PendingRpcKind::CommandForHost => ReplyTag::CommandForHost,
        PendingRpcKind::CustomCommandsForHost => ReplyTag::CustomCommandsForHost,
        PendingRpcKind::AllHostCategories => ReplyTag::AllHostCategories,
        PendingRpcKind::RefreshInvocationIds => ReplyTag::RefreshInvocationIds,
        PendingRpcKind::InitializeHosts => ReplyTag::InitializeHosts,
        PendingRpcKind::ResolveTextEditorPath => ReplyTag::ResolveTextEditorPath,
        PendingRpcKind::DownloadEditable => ReplyTag::DownloadEditable,
        PendingRpcKind::WriteCachedFile => ReplyTag::FileOpDone,
        PendingRpcKind::RemoveCachedFile => ReplyTag::FileOpDone,
        PendingRpcKind::HasCachedFileChanged => ReplyTag::FileChanged,
        PendingRpcKind::UploadFromCache => ReplyTag::UploadFromCache,
        PendingRpcKind::Config => ReplyTag::Config,
        PendingRpcKind::UpdateConfig => ReplyTag::UpdateConfigOk,
        PendingRpcKind::GetSecret => ReplyTag::GetSecret,
        PendingRpcKind::StoreSecret => ReplyTag::StoreSecret,
        PendingRpcKind::RemoveSecret => ReplyTag::RemoveSecretOk,
        PendingRpcKind::Ack => ReplyTag::Ack,
    }
}

/// Whether a reply is the one a request of this kind expects.
pub fn reply_matches(kind: &PendingRpcKind, reply: &ReplyTag) -> (r: bool)
    ensures
        r == (expected_reply(*kind) == *reply),
{
    let expected = match kind {
        PendingRpcKind::ExecuteCommand => ReplyTag::ExecuteCommand,
        PendingRpcKind::CommandsForHost => ReplyTag::CommandsForHost,
        PendingRpcKind::CommandForHost => ReplyTag::CommandForHost,
        PendingRpcKind::CustomCommandsForHost => ReplyTag::CustomCommandsForHost,
        PendingRpcKind::AllHostCategories => ReplyTag::AllHostCategories,
        PendingRpcKind::RefreshInvocationIds => ReplyTag::RefreshInvocationIds,
        PendingRpcKind::InitializeHosts => ReplyTag::InitializeHosts,
        PendingRpcKind::ResolveTextEditorPath => ReplyTag::ResolveTextEditorPath,
        PendingRpcKind::DownloadEditable => ReplyTag::DownloadEditable,
        PendingRpcKind::WriteCachedFile => ReplyTag::FileOpDone,
        PendingRpcKind::RemoveCachedFile => ReplyTag::FileOpDone,
        PendingRpcKind::HasCachedFileChanged => ReplyTag::FileChanged,
        PendingRpcKind::UploadFromCache => ReplyTag::UploadFromCache,
        PendingRpcKind::Config => ReplyTag::Config,
        PendingRpcKind::UpdateConfig => ReplyTag::UpdateConfigOk,
        PendingRpcKind::GetSecret => ReplyTag::GetSecret,
        PendingRpcKind::StoreSecret => ReplyTag::StoreSecret,
        PendingRpcKind::RemoveSecret => ReplyTag::RemoveSecretOk,
        PendingRpcKind::Ack => ReplyTag::Ack,
    };
    expected == *reply
}

/// A request waiting for its reply, and where to hand the reply.
pub struct PendingRpc<S> {
    pub kind: PendingRpcKind,
    pub sender: S,
}

/// Where a response for a request id goes.
pub enum Delivery<S> {
    /// No request with that id waits.
    Unknown,
    /// The request waits for a reply of this kind: hand it over.
    Matched(S),
    /// The request waits for another kind of reply: tell it so.
    Mismatched(S),
}

/// The waiting requests by id.
pub struct PendingRpcTable<S> {
    entries: HashMap<u64, PendingRpc<S>>,
}

impl<S> View for PendingRpcTable<S> {
    type V = Map<u64, PendingRpc<S>>;

    closed spec fn view(&self) -> Map<u64, PendingRpc<S>> {
        self.entries@
    }
}

impl<S> PendingRpcTable<S> {
    /// No request waits.
    pub fn new() -> (t: Self)
        ensures
            t@ == Map::<u64, PendingRpc<S>>::empty(),
    {
        PendingRpcTable { entries: HashMap::new() }
    }

    /// Number of waiting requests.
    pub fn len(&self) -> (n: usize)
        ensures
            n == self@.len(),
    {
        self.entries.len()
    }

    /// Whether a request with this id waits.
    pub fn contains(&self, request_id: u64) -> (r: bool)
        ensures
            r == self@.contains_key(request_id),
    {
        self.entries.contains_key(&request_id)
    }

    /// Records a request that waits for a reply of `kind`.
    pub fn register(&mut self, request_id: u64, kind: PendingRpcKind, sender: S)
        ensures
            final(self)@ == old(self)@.insert(request_id, PendingRpc { kind, sender }),
    {
        self.entries.insert(request_id, PendingRpc { kind, sender });
    }

    /// Stops waiting for request `request_id`, and gives back where its
    /// reply would have gone.
    pub fn take(&mut self, request_id: u64) -> (r: Option<S>)
        ensures
            final(self)@ == old(self)@.remove(request_id),
            r matches Some(s) ==> old(self)@.contains_key(request_id) && s == old(self)@[request_id].sender,
            r is None ==> !old(self)@.contains_key(request_id),
    {
        match self.entries.remove(&request_id) {
            Some(pending) => Some(pending.sender),
            None => None,
        }
    }

    /// Routes a response of kind `expected` for request `request_id`: the
    /// request stops waiting in any case, and the result says whether the
    /// reply fits it.
    pub fn take_for_response(&mut self, request_id: u64, expected: PendingRpcKind) -> (r: Delivery<S>)
        ensures
            final(self)@ == old(self)@.remove(request_id),
            r is Unknown <==> !old(self)@.contains_key(request_id),
            r matches Delivery::Matched(s) ==> old(self)@[request_id].kind == expected && s
                == old(self)@[request_id].sender,
            r matches Delivery::Mismatched(s) ==> old(self)@[request_id].kind != expected && s
                == old(self)@[request_id].sender,
            old(self)@.contains_key(request_id) ==> (r is Matched <==> old(self)@[request_id].kind
                == expected),
    {
        match self.entries.remove(&request_id) {
            None => Delivery::Unknown,
            Some(pending) => {
                if pending.kind == expected {
                    Delivery::Matched(pending.sender)
                } else {
                    Delivery::Mismatched(pending.sender)
                }
            },
        }
    }

    /// Stops waiting for every request, and gives back each one's id and
    /// where its reply would have gone, each request once.
    pub fn drain(&mut self) -> (r: Vec<(u64, S)>)
        ensures
            final(self)@ == Map::<u64, PendingRpc<S>>::empty(),
            r@.len() == old(self)@.len(),
            r@.map_values(|p: (u64, S)| p.0).no_duplicates(),
            r@.map_values(|p: (u64, S)| p.0).to_set() == old(self)@.dom(),
            forall|j: int| 0 <= j < r@.len() ==> #[trigger] r@[j].1 == old(self)@[r@[j].0].sender,
    {
        let mut ids: Vec<u64> = Vec::new();
        let keys = self.entries.keys();
        let ghost listed = keys.remaining();
        assert(listed.unref().to_set() == old(self)@.dom());
        assert(listed.unref().no_duplicates());
        for id in it: keys
            invariant
                it.seq() == listed,
                ids@ == it.seq().take(it.index() as int).unref(),
        {
            proof {
                assert(it.seq().take(it.index() + 1).unref() =~= ids@.push(*id));
            }
            ids.push(*id);
        }
        assert(ids@ =~= listed.unref());
        let mut drained: Vec<(u64, S)> = Vec::new();
        let mut i: usize = 0;
        while i < ids.len()
            invariant
                i <= ids.len(),
                ids@.no_duplicates(),
                ids@.to_set() == old(self)@.dom(),
                self@ == old(self)@.remove_keys(ids@.take(i as int).to_set()),
                drained@.len() == i,
                forall|j: int| 0 <= j < i ==> (#[trigger] drained@[j]).0 == ids@[j] && drained@[j].1
                    == old(self)@[ids@[j]].sender,
            decreases ids.len() - i,
        {
            let id = ids[i];
            proof {
                assert(ids@.to_set().contains(ids@[i as int]));
                assert(!ids@.take(i as int).contains(id)) by {
                    if ids@.take(i as int).contains(id) {
                        let j = choose|j: int| 0 <= j < i && ids@.take(i as int)[j] == id;
                        assert(ids@[j] == ids@[i as int]);
                    }
                };
                assert(ids@.take(i + 1).to_set() =~= ids@.take(i as int).to_set().insert(id)) by {
                    assert(ids@.take(i + 1) =~= ids@.take(i as int).push(id));
                    ids@.take(i as int).lemma_push_to_set_commute(id);
                };
            }
            let removed = self.entries.remove(&id);
            match removed {
                Some(pending) => {
                    drained.push((id, pending.sender));
                },
                None => {},
            }
            proof {
                assert(self@ =~= old(self)@.remove_keys(ids@.take(i + 1).to_set()));
            }
            i = i + 1;
        }
        proof {
            assert(ids@.take(ids.len() as int) =~= ids@);
            assert(self@ =~= Map::<u64, PendingRpc<S>>::empty());
            assert(drained@.map_values(|p: (u64, S)| p.0) =~= ids@);
            ids@.unique_seq_to_set();
        }
        drained
    }
}

#[verifier::external_type_specification]
#[verifier::external_body]
#[verifier::reject_recursive_types(T)]
pub struct ExSender<T>(std::sync::mpsc::Sender<T>);

/// `Sender::send`: hands `value` to the receiving side, and says whether it
/// could (not when the receiver is gone). Which it is depends on the other
/// side, so nothing is stated of the result.
#[verifier::external_body]
fn send_to<T>(sender: &std::sync::mpsc::Sender<T>, value: T) -> (sent: bool) {
    sender.send(value).is_ok()
}

/// What became of a response.
#[derive(Clone, Copy, Debug, PartialEq, Eq, Structural)]
pub enum DeliveryOutcome {
    /// No request with that id waited; nothing was sent.
    UnknownRequest,
    /// The reply was handed to the waiting request (`sent` says whether its
    /// receiver was still there).
    Delivered { sent: bool },
    /// The request expected another kind of reply and was sent the
    /// mismatch reply instead.
    Mismatched { sent: bool },
}

/// Message of the error sent to a request whose reply came with another
/// kind than it expected (with the internal error code).
pub const RESPONSE_TYPE_MISMATCH: &'static str = "RPC response type mismatch";

/// Message of the error sent to every waiting request when the connection
/// to the core is closed.
pub const DISCONNECTED_FROM_CORE: &'static str = "Disconnected from remote core";

/// Ends the wait for request `request_id` whose message could not be sent:
/// the request stops waiting, and its sender is given back to be told
/// `error`. The request's caller gets a connection failure with `error`.
pub fn wait_not_sent<S>(table: &mut PendingRpcTable<S>, request_id: u64, error: &str) -> (r: (Option<S>, LkError))
    ensures
        final(table)@ == old(table)@.remove(request_id),
        r.0 matches Some(s) ==> old(table)@.contains_key(request_id) && s == old(table)@[request_id].sender,
        r.0 is None ==> !old(table)@.contains_key(request_id),
        r.1.kind == ErrorKind::ConnectionFailed,
        r.1.message@ == error@,
        r.1.source_id@.len() == 0,
{
    let sender = table.take(request_id);
    (sender, LkError::new(ErrorKind::ConnectionFailed, error))
}

/// Ends a wait that got no reply in time (or whose reply channel closed):
/// the request stops waiting, and its caller gets a connection failure
/// with `reason`.
pub fn wait_timed_out<S>(table: &mut PendingRpcTable<S>, request_id: u64, reason: &str) -> (e: LkError)
    ensures
        final(table)@ == old(table)@.remove(request_id),
        !final(table)@.contains_key(request_id),
        e.kind == ErrorKind::ConnectionFailed,
        e.message@ == reason@,
        e.source_id@.len() == 0,
{
    let _ = table.take(request_id);
    LkError::new(ErrorKind::ConnectionFailed, reason)
}

/// Where a response goes and what is sent there.
#[derive(Debug)]
pub struct Routed<S, R> {
    /// The waiting request's sender.
    pub sender: S,
    /// What it is sent.
    pub value: R,
    /// Whether the request expected this kind of reply.
    pub matched: bool,
}

/// Decides where a response for request `request_id` of kind `expected`
/// goes: the request stops waiting; it is to be sent `reply` when it
/// expected this kind, and `mismatch_reply` otherwise. `None` when no such
/// request waits.
pub fn route_response<S, R>(
    table: &mut PendingRpcTable<S>,
    request_id: u64,
    expected: PendingRpcKind,
    reply: R,
    mismatch_reply: R,
) -> (r: Option<Routed<S, R>>)
    ensures
        final(table)@ == old(table)@.remove(request_id),
        r is None <==> !old(table)@.contains_key(request_id),
        r matches Some(d) ==> {
            &&& d.sender == old(table)@[request_id].sender
            &&& d.matched == (old(table)@[request_id].kind == expected)
            &&& d.value == (if d.matched { reply } else { mismatch_reply })
        },
{
    match table.take_for_response(request_id, expected) {
        Delivery::Unknown => None,
        Delivery::Matched(sender) => Some(Routed { sender, value: reply, matched: true }),
        Delivery::Mismatched(sender) => Some(Routed { sender, value: mismatch_reply, matched: false }),
    }
}

/// Routes a response for request `request_id` of kind `expected` (see
/// `route_response`) and sends the routed value to the routed sender.
pub fn deliver_response<R>(
    table: &mut PendingRpcTable<std::sync::mpsc::Sender<R>>,
    request_id: u64,
    expected: PendingRpcKind,
    reply: R,
    mismatch_reply: R,
) -> (r: DeliveryOutcome)
    ensures
        final(table)@ == old(table)@.remove(request_id),
        r is UnknownRequest <==> !old(table)@.contains_key(request_id),
        r is Delivered <==> old(table)@.contains_key(request_id) && old(table)@[request_id].kind == expected,
        r is Mismatched <==> old(table)@.contains_key(request_id) && old(table)@[request_id].kind != expected,
{
    match route_response(table, request_id, expected, reply, mismatch_reply) {
        None => DeliveryOutcome::UnknownRequest,
        Some(routed) => {
            let sent = send_to(&routed.sender, routed.value);
            if routed.matched {
                DeliveryOutcome::Delivered { sent }
            } else {
                DeliveryOutcome::Mismatched { sent }
            }
        },
    }
}

/// Ends every waiting request: gives back, for each request once, its id,
/// its sender and a clone of `reply` to send it. Nothing waits afterwards.
pub fn failure_notices<S, R: Clone>(table: &mut PendingRpcTable<S>, reply: &R) -> (r: Vec<(u64, S, R)>)
    ensures
        final(table)@ == Map::<u64, PendingRpc<S>>::empty(),
        r@.len() == old(table)@.len(),
        r@.map_values(|n: (u64, S, R)| n.0).no_duplicates(),
        r@.map_values(|n: (u64, S, R)| n.0).to_set() == old(table)@.dom(),
        forall|j: int| 0 <= j < r@.len() ==> {
            &&& #[trigger] r@[j].1 == old(table)@[r@[j].0].sender
            &&& cloned::<R>(*reply, r@[j].2)
        },
{
    let mut pending = table.drain();
    let ghost drained = pending@;
    let mut notices: Vec<(u64, S, R)> = Vec::new();
    let n = pending.len();
    while pending.len() > 0
        invariant
            pending@.len() <= n,
            n == drained.len(),
            pending@ == drained.take(n - notices@.len()),
            notices@.len() + pending@.len() == n,
            forall|j: int| 0 <= j < notices@.len() ==> {
                &&& (#[trigger] notices@[j]).0 == drained[n - 1 - j].0
                &&& notices@[j].1 == drained[n - 1 - j].1
                &&& cloned::<R>(*reply, notices@[j].2)
            },
        decreases pending@.len(),
    {
        let (id, sender) = pending.pop().unwrap();
        proof {
            assert(pending@ =~= drained.take(n - notices@.len() - 1));
        }
        let value = reply.clone();
        notices.push((id, sender, value));
    }
    proof {
        let ids = notices@.map_values(|x: (u64, S, R)| x.0);
        let dids = drained.map_values(|p: (u64, S)| p.0);
        assert forall|j: int| 0 <= j < n implies #[trigger] ids[j] == dids[n - 1 - j] by {}
        assert forall|a: int, b: int| 0 <= a < ids.len() && 0 <= b < ids.len() && a != b implies ids[a] != ids[b] by {
            assert(ids[a] == dids[n - 1 - a]);
            assert(ids[b] == dids[n - 1 - b]);
        }
        assert forall|x: u64| ids.to_set().contains(x) <==> dids.to_set().contains(x) by {
            if ids.to_set().contains(x) {
                let j = choose|j: int| 0 <= j < ids.len() && ids[j] == x;
                assert(dids[n - 1 - j] == x);
            }
            if dids.to_set().contains(x) {
                let j = choose|j: int| 0 <= j < dids.len() && dids[j] == x;
                assert(ids[n - 1 - j] == dids[j]);
            }
        }
        assert(ids.to_set() =~= dids.to_set());
        assert forall|j: int| 0 <= j < notices@.len() implies #[trigger] notices@[j].1 == old(table)@[notices@[j].0].sender by {
            assert(drained[n - 1 - j].1 == old(table)@[drained[n - 1 - j].0].sender);
        }
    }
    notices
}

/// Ends every waiting request by sending each the notice routed to it by
/// `failure_notices` (a copy of `reply`, an error); says how many requests
/// were told.
pub fn fail_all_pending_rpcs<R: Clone>(table: &mut PendingRpcTable<std::sync::mpsc::Sender<R>>, reply: R) -> (told: usize)
    ensures
        final(table)@ == Map::<u64, PendingRpc<std::sync::mpsc::Sender<R>>>::empty(),
        told == old(table)@.len(),
{
    let notices = failure_notices(table, &reply);
    let mut i: usize = 0;
    while i < notices.len()
        invariant
            i <= notices.len(),
        decreases notices.len() - i,
    {
        let _ = send_to(&notices[i].1, notices[i].2.clone());
        i = i + 1;
    }
    notices.len()
}

/// A reply routed to a request registered under its id finds that request
/// with the kind and sender it was registered with; afterwards nothing waits
/// under that id (a second reply is unknown), and the other requests are as
/// they were before the registration.
pub proof fn law_reply_reaches_registered_request<S>(
    table: Map<u64, PendingRpc<S>>,
    request_id: u64,
    kind: PendingRpcKind,
    sender: S,
)
    ensures
        ({
            let registered = table.insert(request_id, PendingRpc { kind, sender });
            &&& registered.contains_key(request_id)
            &&& registered[request_id].kind == kind
            &&& registered[request_id].sender == sender
            &&& !registered.remove(request_id).contains_key(request_id)
            &&& registered.remove(request_id) == table.remove(request_id)
        }),
{
    let registered = table.insert(request_id, PendingRpc { kind, sender });
    assert(registered.remove(request_id) =~= table.remove(request_id));
}

/// What a request that waited for its reply got.
#[derive(Debug)]
pub enum RpcReceipt {
    /// A reply of this kind.
    Reply(ReplyTag),
    /// The server's error for the request, its code as text.
    ServerError { code: String, message: String },
    /// No reply came (the wait timed out or the connection went away); the
    /// reason as text.
    NoReply(String),
}

/// The message of the error that answers a reply of the wrong kind.
pub const UNEXPECTED_RESPONSE: &'static str = "Unexpected response from remote core";

/// The outcome of a request, given what it got: `Ok` for the reply it
/// expects; the server's error as `code: message`; an error for a reply of
/// another kind; a connection failure when no reply came.
pub fn rpc_result(kind: PendingRpcKind, receipt: RpcReceipt) -> (r: Result<ReplyTag, LkError>)
    ensures
        match receipt {
            RpcReceipt::Reply(tag) => if expected_reply(kind) == tag {
                r == Ok::<ReplyTag, LkError>(tag)
            } else {
                r matches Err(e) && e.kind == ErrorKind::Other && e.message@ == UNEXPECTED_RESPONSE@
            },
            RpcReceipt::ServerError { code, message } => r matches Err(e) && e.kind == ErrorKind::Other
                && e.message@ == code@ + ": "@ + message@,
            RpcReceipt::NoReply(reason) => r matches Err(e) && e.kind == ErrorKind::ConnectionFailed && e.message@
                == reason@,
        },
{
    match receipt {
        RpcReceipt::Reply(tag) => {
            if reply_matches(&kind, &tag) {
                Ok(tag)
            } else {
                Err(LkError::other(UNEXPECTED_RESPONSE))
            }
        },
        RpcReceipt::ServerError { code, message } => {
            let mut text = code;
            append_text(&mut text, ": ");
            append_text(&mut text, message.as_str());
            Err(LkError::from_message(text))
        },
        RpcReceipt::NoReply(reason) => Err(LkError::new(ErrorKind::ConnectionFailed, reason.as_str())),
    }
}

} // verus!
