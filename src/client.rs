//! The protocol client's session: its state, request identifiers, the table
//! of requests awaiting a response, and the set of documents the backend
//! has been told are open.
//!
//! The client decides; it does no I/O. Each operation returns the messages
//! to write to the backend, in order, and [`RustAnalyzerClient::receive`]
//! says what to do with each message read from it.
//!
//! A document is announced to the backend once per session, with the
//! content it had then, and stays open until the session ends: the backend
//! does not see later changes to the file on disk. That keeps the notice to
//! one per document, as the protocol expects, at the price of stale content
//! for files edited during a session.
use vstd::prelude::*;

use crate::frame::FrameError;
use crate::json::{Json, JsonValue};
use crate::lsp::{did_open_params, did_open_params_value, file_uri, file_uri_of, initialize_params, initialize_params_value};
use crate::message::{
    notification_message, notification_value, request_message, request_value, Incoming,
    IncomingValue, Reply, ReplyValue,
};

verus! {

/// Where a session stands.
#[derive(Debug, Clone, Copy, PartialEq, Eq, Structural)]
pub enum SessionState {
    Unstarted,
    Initializing,
    Ready,
    Terminated,
}

/// Why an operation of the client failed.
#[derive(Debug, Clone, PartialEq)]
pub enum ClientError {
    /// The backend executable could not be launched.
    Spawn,
    /// The backend rejected the initialization request, with its message.
    Startup(String),
    /// The session was started already.
    AlreadyStarted,
    /// The session is not ready for requests yet.
    NotReady,
    /// The byte stream from the backend cannot be read as frames.
    Framing(FrameError),
    /// The backend is gone, or the session was shut down.
    ConnectionClosed,
    /// The backend answered the request with an error, with its message.
    BackendRejected(String),
    /// A document could not be read for synchronisation.
    FileAccess,
    /// Every request identifier of the session has been used.
    IdsExhausted,
}

/// The mathematical state of a session.
pub ghost struct ClientView {
    pub state: SessionState,
    /// The identifier of the last request issued; 0 before the first.
    pub last_id: u64,
    /// The identifiers of the requests that await a response.
    pub pending: Set<u64>,
    /// The URIs of the documents that the backend has been told are open.
    pub open: Set<Seq<char>>,
}

impl ClientView {
    /// What holds of every session: only issued identifiers are pending,
    /// nothing is pending before the start or after the end, and the
    /// initialization request is the first one.
    pub open spec fn wf(self) -> bool {
        &&& forall|id: u64| #[trigger] self.pending.contains(id) ==> 1 <= id <= self.last_id
        &&& self.state == SessionState::Unstarted ==> self.last_id == 0 && self.pending
            == Set::<u64>::empty()
        &&& self.state == SessionState::Initializing ==> self.last_id == 1
        &&& self.state == SessionState::Terminated ==> self.pending == Set::<u64>::empty()
    }

    /// The session after it issues its next request.
    pub open spec fn issue(self) -> ClientView {
        ClientView {
            last_id: (self.last_id + 1) as u64,
            pending: self.pending.insert((self.last_id + 1) as u64),
            ..self
        }
    }

    /// The session after the request `id` is answered or abandoned.
    pub open spec fn resolve(self, id: u64) -> ClientView {
        ClientView { pending: self.pending.remove(id), ..self }
    }

    /// Whether the session can issue a request now.
    pub open spec fn can_send(self) -> bool {
        self.state == SessionState::Ready && self.last_id < u64::MAX
    }
}

/// What to do with a message that came from the backend.
#[derive(Debug, PartialEq)]
pub enum Delivery {
    /// Hand `reply` to the caller that awaits request `id`.
    Resolved { id: u64, reply: Reply },
    /// The session is ready; write `notification` to the backend.
    Started { notification: Json },
    /// The backend rejected the initialization; the session is over.
    StartFailed { message: String },
    /// Hand the notification to its handler, if one is registered.
    Notification { method: String, params: Json },
    /// Drop the message.
    Discarded,
}

pub ghost enum DeliveryValue {
    Resolved { id: u64, reply: ReplyValue },
    Started { notification: JsonValue },
    StartFailed { message: Seq<char> },
    Notification { method: Seq<char>, params: JsonValue },
    Discarded,
}

impl View for Delivery {
    type V = DeliveryValue;

    open spec fn view(&self) -> DeliveryValue {
        match self {
            Delivery::Resolved { id, reply } => DeliveryValue::Resolved { id: *id, reply: reply@ },
            Delivery::Started { notification } => DeliveryValue::Started {
                notification: notification@,
            },
            Delivery::StartFailed { message } => DeliveryValue::StartFailed { message: message@ },
            Delivery::Notification { method, params } => DeliveryValue::Notification {
                method: method@,
                params: params@,
            },
            Delivery::Discarded => DeliveryValue::Discarded,
        }
    }
}

/// The notification that completes the handshake.
pub open spec fn initialized_value() -> JsonValue {
    notification_value("initialized"@, JsonValue::Object(Seq::empty(), Seq::empty()))
}

/// What receiving `m` does to session `v`, and what is to be done with it.
///
/// A response to a pending request leaves the table and goes to its
/// caller; while initializing, it completes or fails the handshake.
/// Notifications go to their handlers; anything else is dropped.
pub open spec fn receive_spec(v: ClientView, m: IncomingValue) -> (ClientView, DeliveryValue) {
    match m {
        IncomingValue::Response { id, reply } => if v.pending.contains(id) {
            if v.state == SessionState::Initializing {
                match reply {
                    ReplyValue::Result(_) => (
                        ClientView { state: SessionState::Ready, ..v.resolve(id) },
                        DeliveryValue::Started { notification: initialized_value() },
                    ),
                    ReplyValue::Error(message) => (
                        ClientView {
                            state: SessionState::Terminated,
                            pending: Set::empty(),
                            ..v
                        },
                        DeliveryValue::StartFailed { message },
                    ),
                }
            } else {
                (v.resolve(id), DeliveryValue::Resolved { id, reply })
            }
        } else {
            (v, DeliveryValue::Discarded)
        },
        IncomingValue::Notification { method, params } => (
            v,
            DeliveryValue::Notification { method, params },
        ),
        IncomingValue::Unrecognized => (v, DeliveryValue::Discarded),
    }
}

/// The client side of one session with the backend.
pub struct RustAnalyzerClient {
    state: SessionState,
    last_id: u64,
    pending: Vec<u64>,
    open_documents: Vec<String>,
}

impl View for RustAnalyzerClient {
    type V = ClientView;

    closed spec fn view(&self) -> ClientView {
        ClientView {
            state: self.state,
            last_id: self.last_id,
            pending: Set::new(|id: u64| self.pending@.contains(id)),
            open: Set::new(
                |u: Seq<char>|
                    exists|i: int| 0 <= i < self.open_documents@.len() && self.open_documents@[i]@ == u,
            ),
        }
    }
}

impl RustAnalyzerClient {
    /// The client's invariant: the pending identifiers are kept in
    /// increasing order, and its view is well formed.
    pub closed spec fn inv(&self) -> bool {
        &&& forall|i: int, j: int|
            0 <= i < j < self.pending@.len() ==> self.pending@[i] < self.pending@[j]
        &&& forall|i: int|
            0 <= i < self.pending@.len() ==> 1 <= #[trigger] self.pending@[i] <= self.last_id
        &&& self.state == SessionState::Unstarted ==> self.last_id == 0 && self.pending@.len()
            == 0
        &&& self.state == SessionState::Initializing ==> self.last_id == 1
        &&& self.state == SessionState::Terminated ==> self.pending@.len() == 0
    }

    /// The view of a client that keeps its invariant is well formed.
    pub proof fn lemma_view_wf(&self)
        requires
            self.inv(),
        ensures
            self@.wf(),
    {
        if self.state == SessionState::Unstarted || self.state == SessionState::Terminated {
            assert(self@.pending =~= Set::<u64>::empty());
        }
    }

    /// A session that has not started.
    pub fn new() -> (r: Self)
        ensures
            r.inv(),
            r@.state == SessionState::Unstarted,
            r@.last_id == 0,
            r@.pending == Set::<u64>::empty(),
            r@.open == Set::<Seq<char>>::empty(),
    {
        let r = RustAnalyzerClient {
            state: SessionState::Unstarted,
            last_id: 0,
            pending: Vec::new(),
            open_documents: Vec::new(),
        };
        assert(r@.pending =~= Set::<u64>::empty());
        assert(r@.open =~= Set::<Seq<char>>::empty());
        r
    }

    /// Where the session stands.
    pub fn state(&self) -> (r: SessionState)
        ensures
            r == self@.state,
    {
        self.state
    }

    /// Whether a request can be issued now.
    pub fn can_issue(&self) -> (r: bool)
        ensures
            r == self@.can_send(),
    {
        self.state == SessionState::Ready && self.last_id < u64::MAX
    }

    /// Whether request `id` awaits a response.
    pub fn is_pending(&self, id: u64) -> (r: bool)
        ensures
            r == self@.pending.contains(id),
    {
        let mut i: usize = 0;
        while i < self.pending.len()
            invariant
                i <= self.pending@.len(),
                forall|k: int| 0 <= k < i ==> self.pending@[k] != id,
            decreases self.pending@.len() - i,
        {
            if self.pending[i] == id {
                return true;
            }
            i = i + 1;
        }
        false
    }

    /// Starts the session: the result is the initialization request, with
    /// identifier 1, for the workspace at `root_uri`. The backend process
    /// must be running.
    pub fn start(&mut self, root_uri: &str) -> (r: Result<Json, ClientError>)
        requires
            old(self).inv(),
        ensures
            final(self).inv(),
            old(self)@.state == SessionState::Unstarted ==> (r matches Ok(m) && m@ == request_value(
                1,
                "initialize"@,
                initialize_params_value(root_uri@),
            ) && final(self)@ == (ClientView {
                state: SessionState::Initializing,
                ..old(self)@.issue()
            })),
            old(self)@.state != SessionState::Unstarted ==> (r matches Err(
                ClientError::AlreadyStarted,
            ) && final(self)@ == old(self)@),
    {
        if self.state != SessionState::Unstarted {
            return Err(ClientError::AlreadyStarted);
        }
        let ghost before = self@;
        self.last_id = 1;
        self.pending.push(1);
        self.state = SessionState::Initializing;
        assert(self.pending@ =~= seq![1u64]);
        assert(self@.pending =~= before.pending.insert(1)) by {
            assert(self.pending@[0] == 1);
        }
        Ok(request_message(1, "initialize", initialize_params(root_uri)))
    }

    /// Issues a request for `method`: the result is its identifier and the
    /// message to write. Identifiers go up by one from 1 and are never
    /// reused.
    pub fn send_request(&mut self, method: &str, params: Json) -> (r: Result<(u64, Json), ClientError>)
        requires
            old(self).inv(),
        ensures
            final(self).inv(),
            old(self)@.can_send() ==> (r matches Ok((id, m)) && id == old(self)@.last_id + 1
                && !old(self)@.pending.contains(id) && m@ == request_value(id, method@, params@)
                && final(self)@ == old(self)@.issue()),
            !old(self)@.can_send() ==> final(self)@ == old(self)@ && r is Err,
            old(self)@.state == SessionState::Unstarted || old(self)@.state
                == SessionState::Initializing ==> r matches Err(ClientError::NotReady),
            old(self)@.state == SessionState::Terminated ==> r matches Err(
                ClientError::ConnectionClosed,
            ),
            old(self)@.state == SessionState::Ready && old(self)@.last_id == u64::MAX ==> r matches Err(
                ClientError::IdsExhausted,
            ),
    {
        proof {
            self.lemma_view_wf();
        }
        match self.state {
            SessionState::Unstarted | SessionState::Initializing => {
                return Err(ClientError::NotReady);
            },
            SessionState::Terminated => {
                return Err(ClientError::ConnectionClosed);
            },
            SessionState::Ready => {},
        }
        if self.last_id == u64::MAX {
            return Err(ClientError::IdsExhausted);
        }
        let ghost before = self@;
        let ghost old_p = self.pending@;
        let id = self.last_id + 1;
        self.last_id = id;
        self.pending.push(id);
        assert forall|x: u64| self.pending@.contains(x) <==> (old_p.contains(x) || x == id) by {
            if old_p.contains(x) {
                let k = choose|k: int| 0 <= k < old_p.len() && old_p[k] == x;
                assert(self.pending@[k] == x);
            }
            if x == id {
                assert(self.pending@[old_p.len() as int] == x);
            }
            if self.pending@.contains(x) {
                let k = choose|k: int| 0 <= k < self.pending@.len() && self.pending@[k] == x;
                if k < old_p.len() {
                    assert(old_p[k] == x);
                }
            }
        }
        assert forall|x: u64| #[trigger] self@.pending.contains(x) == before.pending.insert(
            id,
        ).contains(x) by {
            assert(before.pending.contains(x) == old_p.contains(x));
            assert(self@.pending.contains(x) == self.pending@.contains(x));
        }
        assert(self@.pending =~= before.pending.insert(id));
        Ok((id, request_message(id, method, params)))
    }

    /// A notification for `method`, to write as it is.
    pub fn send_notification(&self, method: &str, params: Json) -> (r: Result<Json, ClientError>)
        ensures
            self@.state == SessionState::Ready ==> (r matches Ok(m) && m@ == notification_value(
                method@,
                params@,
            )),
            self@.state == SessionState::Unstarted || self@.state == SessionState::Initializing
                ==> r matches Err(ClientError::NotReady),
            self@.state == SessionState::Terminated ==> r matches Err(ClientError::ConnectionClosed),
    {
        match self.state {
            SessionState::Ready => Ok(notification_message(method, params)),
            SessionState::Terminated => Err(ClientError::ConnectionClosed),
            _ => Err(ClientError::NotReady),
        }
    }

    /// Whether the backend has yet to be told that the file at `file_path`
    /// is open.
    pub fn needs_open(&self, file_path: &str) -> (r: bool)
        ensures
            r == !self@.open.contains(file_uri(file_path@)),
    {
        let uri = file_uri_of(file_path);
        let mut i: usize = 0;
        while i < self.open_documents.len()
            invariant
                uri@ == file_uri(file_path@),
                i <= self.open_documents@.len(),
                forall|k: int| 0 <= k < i ==> self.open_documents@[k]@ != uri@,
            decreases self.open_documents@.len() - i,
        {
            if self.open_documents[i] == uri {
                return false;
            }
            i = i + 1;
        }
        true
    }

    /// Synchronises the file at `file_path`, whose content is `content`:
    /// the first time, the result is the notice that it is open, to write
    /// before any request about it; after that, nothing.
    pub fn open_document(&mut self, file_path: &str, content: &str) -> (r: Result<Option<Json>, ClientError>)
        requires
            old(self).inv(),
        ensures
            final(self).inv(),
            old(self)@.state != SessionState::Ready ==> final(self)@ == old(self)@ && r is Err,
            old(self)@.state == SessionState::Unstarted || old(self)@.state
                == SessionState::Initializing ==> r matches Err(ClientError::NotReady),
            old(self)@.state == SessionState::Terminated ==> r matches Err(
                ClientError::ConnectionClosed,
            ),
            old(self)@.state == SessionState::Ready ==> {
                let uri = file_uri(file_path@);
                &&& final(self)@ == (ClientView { open: old(self)@.open.insert(uri), ..old(self)@ })
                &&& old(self)@.open.contains(uri) ==> (r matches Ok(None))
                &&& !old(self)@.open.contains(uri) ==> (r matches Ok(Some(m)) && m@
                    == notification_value(
                    "textDocument/didOpen"@,
                    did_open_params_value(uri, content@),
                ))
            },
    {
        match self.state {
            SessionState::Unstarted | SessionState::Initializing => {
                return Err(ClientError::NotReady);
            },
            SessionState::Terminated => {
                return Err(ClientError::ConnectionClosed);
            },
            SessionState::Ready => {},
        }
        let ghost before = self@;
        if !self.needs_open(file_path) {
            assert(before.open.insert(file_uri(file_path@)) =~= before.open);
            return Ok(None);
        }
        let uri = file_uri_of(file_path);
        let params = did_open_params(uri.as_str(), content);
        let note = notification_message("textDocument/didOpen", params);
        let ghost old_docs = self.open_documents@;
        self.open_documents.push(uri);
        assert(self@.open =~= before.open.insert(file_uri(file_path@))) by {
            assert forall|u: Seq<char>| self@.open.contains(u) <==> before.open.insert(
                file_uri(file_path@),
            ).contains(u) by {
                if before.open.contains(u) {
                    let i = choose|i: int|
                        0 <= i < old_docs.len() && old_docs[i]@ == u;
                    assert(self.open_documents@[i]@ == u);
                }
                if u == file_uri(file_path@) {
                    assert(self.open_documents@[old_docs.len() as int]@ == u);
                }
                if self@.open.contains(u) {
                    let i = choose|i: int|
                        0 <= i < self.open_documents@.len() && self.open_documents@[i]@ == u;
                    if i < old_docs.len() {
                        assert(old_docs[i]@ == u);
                    }
                }
            }
        }
        Ok(Some(note))
    }

    /// Takes request `id` out of the pending table.
    fn remove_pending(&mut self, id: u64)
        requires
            old(self).inv(),
        ensures
            final(self).inv(),
            final(self)@ == old(self)@.resolve(id),
    {
        let ghost before = self@;
        let ghost old_pending = self.pending@;
        let mut i: usize = 0;
        while i < self.pending.len() && self.pending[i] != id
            invariant
                self.pending@ == old_pending,
                i <= old_pending.len(),
                forall|k: int| 0 <= k < i ==> old_pending[k] != id,
            decreases old_pending.len() - i,
        {
            i = i + 1;
        }
        if i == self.pending.len() {
            assert(before.pending.remove(id) =~= before.pending);
            return;
        }
        self.pending.remove(i);
        let ghost p = self.pending@;
        assert forall|k: int| 0 <= k < p.len() implies #[trigger] p[k] == (if k < i {
            old_pending[k]
        } else {
            old_pending[k + 1]
        }) by {}
        assert forall|x: u64| p.contains(x) <==> before.pending.remove(id).contains(x) by {
            if old_pending.contains(x) && x != id {
                let k = choose|k: int| 0 <= k < old_pending.len() && old_pending[k] == x;
                if k < i {
                    assert(p[k] == x);
                } else {
                    assert(k != i);
                    assert(p[k - 1] == x);
                }
            }
            if p.contains(x) {
                let k = choose|k: int| 0 <= k < p.len() && p[k] == x;
                if k < i {
                    assert(old_pending[k] == x);
                } else {
                    assert(old_pending[k + 1] == x);
                    assert(old_pending[i as int] < old_pending[k + 1]);
                }
            }
        }
        assert(self@.pending =~= before.pending.remove(id));
        assert forall|a: int, b: int| 0 <= a < b < p.len() implies p[a] < p[b] by {
            assert(p[a] == (if a < i { old_pending[a] } else { old_pending[a + 1] }));
            assert(p[b] == (if b < i { old_pending[b] } else { old_pending[b + 1] }));
        }
        assert forall|k: int| 0 <= k < p.len() implies 1 <= #[trigger] p[k] <= self.last_id by {
            assert(p[k] == (if k < i { old_pending[k] } else { old_pending[k + 1] }));
        }
    }

    /// Abandons the wait for request `id`: a response that comes later is
    /// dropped.
    pub fn cancel(&mut self, id: u64)
        requires
            old(self).inv(),
        ensures
            final(self).inv(),
            final(self)@ == old(self)@.resolve(id),
    {
        self.remove_pending(id);
    }

    /// Takes in a message from the backend, as [`receive_spec`] says.
    pub fn receive(&mut self, msg: Incoming) -> (r: Delivery)
        requires
            old(self).inv(),
        ensures
            final(self).inv(),
            (final(self)@, r@) == receive_spec(old(self)@, msg@),
    {
        match msg {
            Incoming::Response { id, reply } => {
                if !self.is_pending(id) {
                    return Delivery::Discarded;
                }
                if self.state == SessionState::Initializing {
                    match reply {
                        Reply::Result(_) => {
                            self.remove_pending(id);
                            self.state = SessionState::Ready;
                            let empty = Json::Object(Vec::new());
                            assert(empty@->Object_0 =~= Seq::<Seq<char>>::empty());
                            assert(empty@->Object_1 =~= Seq::<JsonValue>::empty());
                            let notification = notification_message("initialized", empty);
                            Delivery::Started { notification }
                        },
                        Reply::Error(message) => {
                            self.pending = Vec::new();
                            self.state = SessionState::Terminated;
                            assert(self@.pending =~= Set::<u64>::empty());
                            Delivery::StartFailed { message }
                        },
                    }
                } else {
                    self.remove_pending(id);
                    Delivery::Resolved { id, reply }
                }
            },
            Incoming::Notification { method, params } => Delivery::Notification { method, params },
            Incoming::Unrecognized => Delivery::Discarded,
        }
    }

    /// Ends the session, because it was shut down or the backend is gone:
    /// the result is every request that still awaited a response, whose
    /// callers are to get [`ClientError::ConnectionClosed`]. Nothing can be
    /// sent afterwards.
    pub fn terminate(&mut self) -> (r: Vec<u64>)
        requires
            old(self).inv(),
        ensures
            final(self).inv(),
            final(self)@ == (ClientView {
                state: SessionState::Terminated,
                pending: Set::<u64>::empty(),
                ..old(self)@
            }),
            r@.no_duplicates(),
            forall|id: u64| r@.contains(id) <==> old(self)@.pending.contains(id),
    {
        let mut r: Vec<u64> = Vec::new();
        std::mem::swap(&mut r, &mut self.pending);
        self.state = SessionState::Terminated;
        assert(self@.pending =~= Set::<u64>::empty());
        assert(r@.no_duplicates()) by {
            assert forall|i: int, j: int| 0 <= i < r@.len() && 0 <= j < r@.len() && i != j implies r@[i]
                != r@[j] by {
                if i < j {
                    assert(r@[i] < r@[j]);
                } else {
                    assert(r@[j] < r@[i]);
                }
            }
        }
        r
    }
}

/// The session after it issues `n` requests in a row.
pub open spec fn issue_n(v: ClientView, n: nat) -> ClientView
    decreases n,
{
    if n == 0 {
        v
    } else {
        issue_n(v, (n - 1) as nat).issue()
    }
}

/// Requests issued in a row get the identifiers that follow the last one
/// issued, one each, none of which was pending: no identifier is reused
/// while its request awaits a response.
pub proof fn lemma_issued_ids_are_fresh(v: ClientView, n: nat)
    requires
        v.wf(),
        v.last_id + n <= u64::MAX,
    ensures
        issue_n(v, n).last_id == v.last_id + n,
        forall|id: u64| v.last_id < id <= v.last_id + n ==> !#[trigger] v.pending.contains(id),
        forall|id: u64|
            #[trigger] issue_n(v, n).pending.contains(id) <==> v.pending.contains(id) || (v.last_id
                < id <= v.last_id + n),
    decreases n,
{
    if n > 0 {
        lemma_issued_ids_are_fresh(v, (n - 1) as nat);
        let w = issue_n(v, (n - 1) as nat);
        assert forall|id: u64| #[trigger] issue_n(v, n).pending.contains(id) <==> v.pending.contains(
            id,
        ) || (v.last_id < id <= v.last_id + n) by {
            assert(issue_n(v, n).pending == w.pending.insert((w.last_id + 1) as u64));
        }
    }
}

/// A response to a pending request of a ready session goes to the caller
/// that issued the request with that identifier, with the reply as it
/// came, and only that request leaves the table.
pub proof fn lemma_response_reaches_its_caller(v: ClientView, id: u64, reply: ReplyValue)
    requires
        v.state == SessionState::Ready,
        v.pending.contains(id),
    ensures
        receive_spec(v, IncomingValue::Response { id, reply }) == (
            v.resolve(id),
            DeliveryValue::Resolved { id, reply },
        ),
{
}

/// A response whose identifier is not pending reaches no caller and
/// changes nothing.
pub proof fn lemma_unmatched_response_is_dropped(v: ClientView, id: u64, reply: ReplyValue)
    requires
        !v.pending.contains(id),
    ensures
        receive_spec(v, IncomingValue::Response { id, reply }) == (v, DeliveryValue::Discarded),
{
}

/// Once a session is over, no response reaches anyone: nothing is
/// pending, and every response is dropped.
pub proof fn lemma_terminated_session_drops_responses(v: ClientView, id: u64, reply: ReplyValue)
    requires
        v.wf(),
        v.state == SessionState::Terminated,
    ensures
        v.pending == Set::<u64>::empty(),
        receive_spec(v, IncomingValue::Response { id, reply }) == (v, DeliveryValue::Discarded),
{
}

/// What receiving the responses `responses` (identifier and reply), one
/// after another, does to session `v`, and what each one delivers.
pub open spec fn receive_all(v: ClientView, responses: Seq<(u64, ReplyValue)>) -> (
    ClientView,
    Seq<DeliveryValue>,
)
    decreases responses.len(),
{
    if responses.len() == 0 {
        (v, Seq::empty())
    } else {
        let (w, d) = receive_spec(
            v,
            IncomingValue::Response { id: responses[0].0, reply: responses[0].1 },
        );
        let (z, ds) = receive_all(w, responses.drop_first());
        (z, seq![d] + ds)
    }
}

/// Responses to any number of pending requests of a ready session, each to
/// a different request and in any order, each reach the caller that issued
/// the request with their identifier, with their reply; exactly those
/// requests leave the table.
pub proof fn lemma_responses_reach_their_callers(
    v: ClientView,
    responses: Seq<(u64, ReplyValue)>,
)
    requires
        v.state == SessionState::Ready,
        forall|i: int| 0 <= i < responses.len() ==> v.pending.contains(#[trigger] responses[i].0),
        forall|i: int, j: int|
            0 <= i < j < responses.len() ==> responses[i].0 != responses[j].0,
    ensures
        receive_all(v, responses).1.len() == responses.len(),
        forall|i: int|
            0 <= i < responses.len() ==> #[trigger] receive_all(v, responses).1[i]
                == (DeliveryValue::Resolved { id: responses[i].0, reply: responses[i].1 }),
        receive_all(v, responses).0.state == SessionState::Ready,
        forall|id: u64|
            #[trigger] receive_all(v, responses).0.pending.contains(id) <==> (v.pending.contains(id)
                && forall|i: int| 0 <= i < responses.len() ==> responses[i].0 != id),
    decreases responses.len(),
{
    if responses.len() > 0 {
        let first = responses[0];
        let rest = responses.drop_first();
        let w = v.resolve(first.0);
        assert forall|i: int| 0 <= i < rest.len() implies w.pending.contains(#[trigger] rest[i].0) by {
            assert(rest[i] == responses[i + 1]);
        }
        assert forall|i: int, j: int| 0 <= i < j < rest.len() implies rest[i].0 != rest[j].0 by {
            assert(rest[i] == responses[i + 1]);
            assert(rest[j] == responses[j + 1]);
        }
        lemma_responses_reach_their_callers(w, rest);
        let (z, ds) = receive_all(w, rest);
        assert(receive_all(v, responses) == (
            z,
            seq![DeliveryValue::Resolved { id: first.0, reply: first.1 }] + ds,
        ));
        assert forall|i: int| 0 <= i < responses.len() implies #[trigger] receive_all(v, responses).1[i]
            == (DeliveryValue::Resolved { id: responses[i].0, reply: responses[i].1 }) by {
            if i > 0 {
                assert(rest[i - 1] == responses[i]);
            }
        }
        assert forall|id: u64| #[trigger] z.pending.contains(id) <==> (v.pending.contains(id)
            && forall|i: int| 0 <= i < responses.len() ==> responses[i].0 != id) by {
            if z.pending.contains(id) {
                assert forall|i: int| 0 <= i < responses.len() implies responses[i].0 != id by {
                    if i > 0 {
                        assert(rest[i - 1] == responses[i]);
                    }
                }
            }
            if v.pending.contains(id) && forall|i: int| 0 <= i < responses.len() ==> responses[i].0 != id {
                assert(responses[0].0 != id);
                assert forall|i: int| 0 <= i < rest.len() implies rest[i].0 != id by {
                    assert(rest[i] == responses[i + 1]);
                }
            }
        }
    }
}

/// A ready session that issues `n` requests in a row and then gets the
/// responses to them, each to a different one of those requests and in any
/// order, delivers each response to the caller of the request with its
/// identifier; none of the new identifiers was pending before.
pub proof fn lemma_issued_requests_answered_in_any_order(
    v: ClientView,
    n: nat,
    responses: Seq<(u64, ReplyValue)>,
)
    requires
        v.wf(),
        v.state == SessionState::Ready,
        v.last_id + n <= u64::MAX,
        forall|i: int|
            0 <= i < responses.len() ==> v.last_id < #[trigger] responses[i].0 <= v.last_id + n,
        forall|i: int, j: int|
            0 <= i < j < responses.len() ==> responses[i].0 != responses[j].0,
    ensures
        forall|i: int| 0 <= i < responses.len() ==> !v.pending.contains(#[trigger] responses[i].0),
        receive_all(issue_n(v, n), responses).1.len() == responses.len(),
        forall|i: int|
            0 <= i < responses.len() ==> #[trigger] receive_all(issue_n(v, n), responses).1[i]
                == (DeliveryValue::Resolved { id: responses[i].0, reply: responses[i].1 }),
{
    lemma_issued_ids_are_fresh(v, n);
    lemma_issue_n_keeps_state(v, n);
    assert forall|i: int| 0 <= i < responses.len() implies issue_n(v, n).pending.contains(
        #[trigger] responses[i].0,
    ) by {}
    lemma_responses_reach_their_callers(issue_n(v, n), responses);
}

/// Issuing requests does not change where the session stands.
proof fn lemma_issue_n_keeps_state(v: ClientView, n: nat)
    ensures
        issue_n(v, n).state == v.state,
    decreases n,
{
    if n > 0 {
        lemma_issue_n_keeps_state(v, (n - 1) as nat);
    }
}

} // verus!
