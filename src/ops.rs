//! The operations that callers use: each checks the session, synchronises
//! the document it is about, builds its request, and later shapes the
//! backend's reply.
use vstd::prelude::*;

use crate::actions::{requested_kind, requested_kind_of, Refactoring};
use crate::client::{receive_spec, ClientError, ClientView, DeliveryValue, RustAnalyzerClient, SessionState};
use crate::json::{field, Json, JsonValue};
use crate::lsp::{
    code_action_params, code_action_params_value, did_open_params_value,
    range_code_action_params, range_code_action_params_value, file_uri, file_uri_of,
    formatting_params, formatting_params_value, position_params, position_params_value,
    references_params, references_params_value, rename_params, rename_params_value,
    workspace_symbol_params, workspace_symbol_params_value,
};
use crate::message::{notification_value, request_value, Reply, ReplyValue};

verus! {

/// The values of a sequence of documents.
pub open spec fn views(s: Seq<Json>) -> Seq<JsonValue> {
    Seq::new(s.len(), |i: int| s[i]@)
}

/// A request on its way: its identifier, and the messages to write to the
/// backend, in this order.
#[derive(Debug, PartialEq)]
pub struct Call {
    pub id: u64,
    pub outbound: Vec<Json>,
}

/// The mathematical outcome of an operation that issues a request.
pub ghost enum CallValue {
    Sent { id: u64, outbound: Seq<JsonValue> },
    NotReady,
    Closed,
    IdsExhausted,
    FileAccess,
    Other,
}

pub open spec fn call_view(r: Result<Call, ClientError>) -> CallValue {
    match r {
        Ok(c) => CallValue::Sent { id: c.id, outbound: views(c.outbound@) },
        Err(ClientError::NotReady) => CallValue::NotReady,
        Err(ClientError::ConnectionClosed) => CallValue::Closed,
        Err(ClientError::IdsExhausted) => CallValue::IdsExhausted,
        Err(ClientError::FileAccess) => CallValue::FileAccess,
        Err(_) => CallValue::Other,
    }
}

pub open spec fn text_view(content: Option<&str>) -> Option<Seq<char>> {
    match content {
        Some(s) => Some(s@),
        None => None,
    }
}

/// The parameters of the code-action request for refactoring `r` over a
/// range: limited to the refactoring's kind where it has one.
pub open spec fn refactoring_params_value(
    r: Refactoring,
    uri: Seq<char>,
    start_line: u32,
    start_character: u32,
    end_line: u32,
    end_character: u32,
) -> JsonValue {
    match requested_kind(r) {
        Some(kind) => code_action_params_value(
            uri,
            start_line,
            start_character,
            end_line,
            end_character,
            kind,
        ),
        None => range_code_action_params_value(
            uri,
            start_line,
            start_character,
            end_line,
            end_character,
        ),
    }
}

/// What issuing a request that needs no document does to session `v`.
pub open spec fn plain_call(v: ClientView, method: Seq<char>, params: JsonValue) -> (
    ClientView,
    CallValue,
) {
    if v.state == SessionState::Unstarted || v.state == SessionState::Initializing {
        (v, CallValue::NotReady)
    } else if v.state == SessionState::Terminated {
        (v, CallValue::Closed)
    } else if v.last_id == u64::MAX {
        (v, CallValue::IdsExhausted)
    } else {
        let id = (v.last_id + 1) as u64;
        (v.issue(), CallValue::Sent { id, outbound: seq![request_value(id, method, params)] })
    }
}

/// What issuing a request about the file at `path` does to session `v`;
/// `content` is the file's content if it could be read.
///
/// The first time the file is the subject of a request, the notice that it
/// is open, with its whole content, goes before the request; a file that
/// must be opened and could not be read fails the call.
pub open spec fn document_call(
    v: ClientView,
    path: Seq<char>,
    content: Option<Seq<char>>,
    method: Seq<char>,
    params: JsonValue,
) -> (ClientView, CallValue) {
    let uri = file_uri(path);
    if !v.can_send() || v.open.contains(uri) {
        plain_call(v, method, params)
    } else {
        match content {
            None => (v, CallValue::FileAccess),
            Some(t) => {
                let id = (v.last_id + 1) as u64;
                (
                    ClientView { open: v.open.insert(uri), ..v.issue() },
                    CallValue::Sent {
                        id,
                        outbound: seq![
                            notification_value("textDocument/didOpen"@, did_open_params_value(uri, t)),
                            request_value(id, method, params),
                        ],
                    },
                )
            },
        }
    }
}

impl RustAnalyzerClient {
    fn plain_request(&mut self, method: &str, params: Json) -> (r: Result<Call, ClientError>)
        requires
            old(self).inv(),
        ensures
            final(self).inv(),
            (final(self)@, call_view(r)) == plain_call(old(self)@, method@, params@),
    {
        proof {
            self.lemma_view_wf();
        }
        let ghost p = params@;
        match self.send_request(method, params) {
            Ok((id, m)) => {
                let mut outbound: Vec<Json> = Vec::new();
                outbound.push(m);
                assert(views(outbound@) =~= seq![request_value(id, method@, p)]);
                Ok(Call { id, outbound })
            },
            Err(e) => Err(e),
        }
    }

    fn document_request(
        &mut self,
        file_path: &str,
        content: Option<&str>,
        method: &str,
        params: Json,
    ) -> (r: Result<Call, ClientError>)
        requires
            old(self).inv(),
        ensures
            final(self).inv(),
            (final(self)@, call_view(r)) == document_call(
                old(self)@,
                file_path@,
                text_view(content),
                method@,
                params@,
            ),
    {
        proof {
            self.lemma_view_wf();
        }
        let ghost p = params@;
        let ready = self.state() == SessionState::Ready;
        if !ready || !self.can_issue() || !self.needs_open(file_path) {
            return self.plain_request(method, params);
        }
        let content = match content {
            Some(c) => c,
            None => {
                return Err(ClientError::FileAccess);
            },
        };
        let note = match self.open_document(file_path, content) {
            Ok(Some(n)) => n,
            _ => {
                return Err(ClientError::FileAccess);
            },
        };
        match self.send_request(method, params) {
            Ok((id, m)) => {
                let mut outbound: Vec<Json> = Vec::new();
                outbound.push(note);
                outbound.push(m);
                let ghost uri = file_uri(file_path@);
                assert(views(outbound@) =~= seq![
                    notification_value("textDocument/didOpen"@, did_open_params_value(uri, content@)),
                    request_value(id, method@, p),
                ]);
                Ok(Call { id, outbound })
            },
            Err(e) => Err(e),
        }
    }

    /// Asks where the symbol at a position of the file at `file_path` is
    /// defined; `content` is the file's content, needed the first time the
    /// file is the subject of a request.
    pub fn find_definition(
        &mut self,
        file_path: &str,
        line: u32,
        character: u32,
        content: Option<&str>,
    ) -> (r: Result<Call, ClientError>)
        requires
            old(self).inv(),
        ensures
            final(self).inv(),
            (final(self)@, call_view(r)) == document_call(
                old(self)@,
                file_path@,
                text_view(content),
                "textDocument/definition"@,
                position_params_value(file_uri(file_path@), line, character),
            ),
    {
        let uri = file_uri_of(file_path);
        let params = position_params(uri.as_str(), line, character);
        self.document_request(file_path, content, "textDocument/definition", params)
    }

    /// Asks for the references to the symbol at a position, its
    /// declaration included.
    pub fn find_references(
        &mut self,
        file_path: &str,
        line: u32,
        character: u32,
        content: Option<&str>,
    ) -> (r: Result<Call, ClientError>)
        requires
            old(self).inv(),
        ensures
            final(self).inv(),
            (final(self)@, call_view(r)) == document_call(
                old(self)@,
                file_path@,
                text_view(content),
                "textDocument/references"@,
                references_params_value(file_uri(file_path@), line, character),
            ),
    {
        let uri = file_uri_of(file_path);
        let params = references_params(uri.as_str(), line, character);
        self.document_request(file_path, content, "textDocument/references", params)
    }

    /// Asks for the edit that renames the symbol at a position to
    /// `new_name`.
    pub fn rename_symbol(
        &mut self,
        file_path: &str,
        line: u32,
        character: u32,
        new_name: &str,
        content: Option<&str>,
    ) -> (r: Result<Call, ClientError>)
        requires
            old(self).inv(),
        ensures
            final(self).inv(),
            (final(self)@, call_view(r)) == document_call(
                old(self)@,
                file_path@,
                text_view(content),
                "textDocument/rename"@,
                rename_params_value(file_uri(file_path@), line, character, new_name@),
            ),
    {
        let uri = file_uri_of(file_path);
        let params = rename_params(uri.as_str(), line, character, new_name);
        self.document_request(file_path, content, "textDocument/rename", params)
    }

    /// Asks for the edits that format the whole file.
    pub fn format_code(&mut self, file_path: &str, content: Option<&str>) -> (r: Result<
        Call,
        ClientError,
    >)
        requires
            old(self).inv(),
        ensures
            final(self).inv(),
            (final(self)@, call_view(r)) == document_call(
                old(self)@,
                file_path@,
                text_view(content),
                "textDocument/formatting"@,
                formatting_params_value(file_uri(file_path@)),
            ),
    {
        let uri = file_uri_of(file_path);
        let params = formatting_params(uri.as_str());
        self.document_request(file_path, content, "textDocument/formatting", params)
    }

    /// Asks for the code actions of kind `kind` over a range of the file.
    pub fn code_actions(
        &mut self,
        file_path: &str,
        start_line: u32,
        start_character: u32,
        end_line: u32,
        end_character: u32,
        kind: &str,
        content: Option<&str>,
    ) -> (r: Result<Call, ClientError>)
        requires
            old(self).inv(),
        ensures
            final(self).inv(),
            (final(self)@, call_view(r)) == document_call(
                old(self)@,
                file_path@,
                text_view(content),
                "textDocument/codeAction"@,
                code_action_params_value(
                    file_uri(file_path@),
                    start_line,
                    start_character,
                    end_line,
                    end_character,
                    kind@,
                ),
            ),
    {
        let uri = file_uri_of(file_path);
        let params = code_action_params(
            uri.as_str(),
            start_line,
            start_character,
            end_line,
            end_character,
            kind,
        );
        self.document_request(file_path, content, "textDocument/codeAction", params)
    }

    /// Asks for all the code actions over a range of the file.
    pub fn range_code_actions(
        &mut self,
        file_path: &str,
        start_line: u32,
        start_character: u32,
        end_line: u32,
        end_character: u32,
        content: Option<&str>,
    ) -> (c: Result<Call, ClientError>)
        requires
            old(self).inv(),
        ensures
            final(self).inv(),
            (final(self)@, call_view(c)) == document_call(
                old(self)@,
                file_path@,
                text_view(content),
                "textDocument/codeAction"@,
                range_code_action_params_value(
                    file_uri(file_path@),
                    start_line,
                    start_character,
                    end_line,
                    end_character,
                ),
            ),
    {
        let uri = file_uri_of(file_path);
        let params = range_code_action_params(
            uri.as_str(),
            start_line,
            start_character,
            end_line,
            end_character,
        );
        self.document_request(file_path, content, "textDocument/codeAction", params)
    }

    /// Asks for the code actions that carry out refactoring `r` over a
    /// range of the file.
    pub fn refactoring_actions(
        &mut self,
        r: Refactoring,
        file_path: &str,
        start_line: u32,
        start_character: u32,
        end_line: u32,
        end_character: u32,
        content: Option<&str>,
    ) -> (c: Result<Call, ClientError>)
        requires
            old(self).inv(),
        ensures
            final(self).inv(),
            (final(self)@, call_view(c)) == document_call(
                old(self)@,
                file_path@,
                text_view(content),
                "textDocument/codeAction"@,
                refactoring_params_value(
                    r,
                    file_uri(file_path@),
                    start_line,
                    start_character,
                    end_line,
                    end_character,
                ),
            ),
    {
        match requested_kind_of(r) {
            Some(kind) => self.code_actions(
                file_path,
                start_line,
                start_character,
                end_line,
                end_character,
                kind,
                content,
            ),
            None => self.range_code_actions(
                file_path,
                start_line,
                start_character,
                end_line,
                end_character,
                content,
            ),
        }
    }

    /// Asks how the code between two positions can be extracted into a
    /// function: all the code actions over that range.
    pub fn extract_function(
        &mut self,
        file_path: &str,
        start_line: u32,
        start_character: u32,
        end_line: u32,
        end_character: u32,
        content: Option<&str>,
    ) -> (c: Result<Call, ClientError>)
        requires
            old(self).inv(),
        ensures
            final(self).inv(),
            (final(self)@, call_view(c)) == document_call(
                old(self)@,
                file_path@,
                text_view(content),
                "textDocument/codeAction"@,
                range_code_action_params_value(
                    file_uri(file_path@),
                    start_line,
                    start_character,
                    end_line,
                    end_character,
                ),
            ),
    {
        self.refactoring_actions(
            Refactoring::ExtractFunction,
            file_path,
            start_line,
            start_character,
            end_line,
            end_character,
            content,
        )
    }

    /// Asks how the function called at a position can be inlined.
    pub fn inline_function(
        &mut self,
        file_path: &str,
        line: u32,
        character: u32,
        content: Option<&str>,
    ) -> (c: Result<Call, ClientError>)
        requires
            old(self).inv(),
        ensures
            final(self).inv(),
            (final(self)@, call_view(c)) == document_call(
                old(self)@,
                file_path@,
                text_view(content),
                "textDocument/codeAction"@,
                code_action_params_value(
                    file_uri(file_path@),
                    line,
                    character,
                    line,
                    character,
                    "refactor.inline"@,
                ),
            ),
    {
        self.refactoring_actions(
            Refactoring::InlineFunction,
            file_path,
            line,
            character,
            line,
            character,
            content,
        )
    }

    /// Asks how the signature of the function at a position can be
    /// rewritten.
    pub fn change_signature(
        &mut self,
        file_path: &str,
        line: u32,
        character: u32,
        content: Option<&str>,
    ) -> (c: Result<Call, ClientError>)
        requires
            old(self).inv(),
        ensures
            final(self).inv(),
            (final(self)@, call_view(c)) == document_call(
                old(self)@,
                file_path@,
                text_view(content),
                "textDocument/codeAction"@,
                code_action_params_value(
                    file_uri(file_path@),
                    line,
                    character,
                    line,
                    character,
                    "refactor.rewrite"@,
                ),
            ),
    {
        self.refactoring_actions(
            Refactoring::ChangeSignature,
            file_path,
            line,
            character,
            line,
            character,
            content,
        )
    }

    /// Asks how the imports of the file can be organized.
    pub fn organize_imports(&mut self, file_path: &str, content: Option<&str>) -> (c: Result<
        Call,
        ClientError,
    >)
        requires
            old(self).inv(),
        ensures
            final(self).inv(),
            (final(self)@, call_view(c)) == document_call(
                old(self)@,
                file_path@,
                text_view(content),
                "textDocument/codeAction"@,
                code_action_params_value(
                    file_uri(file_path@),
                    0,
                    0,
                    0,
                    0,
                    "source.organizeImports"@,
                ),
            ),
    {
        self.refactoring_actions(Refactoring::OrganizeImports, file_path, 0, 0, 0, 0, content)
    }

    /// Asks the backend to shut down; the `exit` notification follows once
    /// it has answered.
    pub fn shutdown(&mut self) -> (c: Result<Call, ClientError>)
        requires
            old(self).inv(),
        ensures
            final(self).inv(),
            (final(self)@, call_view(c)) == plain_call(old(self)@, "shutdown"@, JsonValue::Null),
    {
        let params = Json::Null;
        assert(params@ == JsonValue::Null);
        self.plain_request("shutdown", params)
    }

    /// Searches the workspace for symbols that match `query`.
    pub fn workspace_symbols(&mut self, query: &str) -> (r: Result<Call, ClientError>)
        requires
            old(self).inv(),
        ensures
            final(self).inv(),
            (final(self)@, call_view(r)) == plain_call(
                old(self)@,
                "workspace/symbol"@,
                workspace_symbol_params_value(query@),
            ),
    {
        let params = workspace_symbol_params(query);
        self.plain_request("workspace/symbol", params)
    }
}

/// What a lookup found.
#[derive(Debug, PartialEq)]
pub enum Lookup {
    /// The backend answered null: nothing there.
    NotFound,
    /// The backend answered an empty list.
    Empty,
    /// The locations or symbols found, at least one.
    Found(Vec<Json>),
}

pub ghost enum LookupValue {
    NotFound,
    Empty,
    Found(Seq<JsonValue>),
}

impl View for Lookup {
    type V = LookupValue;

    open spec fn view(&self) -> LookupValue {
        match self {
            Lookup::NotFound => LookupValue::NotFound,
            Lookup::Empty => LookupValue::Empty,
            Lookup::Found(items) => LookupValue::Found(views(items@)),
        }
    }
}

/// What the result `v` of a lookup says: null is "not found", an array is
/// its items (or empty), and any other value is the one item found.
pub open spec fn lookup_spec(v: JsonValue) -> LookupValue {
    match v {
        JsonValue::Null => LookupValue::NotFound,
        JsonValue::Array(items) => if items.len() == 0 {
            LookupValue::Empty
        } else {
            LookupValue::Found(items)
        },
        _ => LookupValue::Found(seq![v]),
    }
}

/// Shapes the reply to a definition, reference or symbol request: the
/// backend's error message is kept as it is.
pub fn lookup_result(reply: Reply) -> (r: Result<Lookup, ClientError>)
    ensures
        match reply@ {
            ReplyValue::Error(m) => r matches Err(ClientError::BackendRejected(e)) && e@ == m,
            ReplyValue::Result(v) => r matches Ok(l) && l@ == lookup_spec(v),
        },
{
    match reply {
        Reply::Error(m) => Err(ClientError::BackendRejected(m)),
        Reply::Result(v) => {
            let ghost g = v@;
            match v {
                Json::Null => Ok(Lookup::NotFound),
                Json::Array(items) => {
                    if items.len() == 0 {
                        Ok(Lookup::Empty)
                    } else {
                        let r = Lookup::Found(items);
                        assert(views(items@) =~= g->Array_0);
                        Ok(r)
                    }
                },
                other => {
                    let mut items: Vec<Json> = Vec::new();
                    items.push(other);
                    assert(views(items@) =~= seq![g]);
                    Ok(Lookup::Found(items))
                },
            }
        },
    }
}

/// What a rename would do.
#[derive(Debug, PartialEq)]
pub enum RenameOutcome {
    /// The symbol at that position cannot be renamed.
    Refused,
    /// The workspace edit, and the number of files it changes when it
    /// lists them.
    Edit { changed_files: Option<usize>, edit: Json },
}

/// Shapes the reply to a rename request.
pub fn rename_result(reply: Reply) -> (r: Result<RenameOutcome, ClientError>)
    ensures
        match reply@ {
            ReplyValue::Error(m) => r matches Err(ClientError::BackendRejected(e)) && e@ == m,
            ReplyValue::Result(JsonValue::Null) => r matches Ok(RenameOutcome::Refused),
            ReplyValue::Result(v) => r matches Ok(RenameOutcome::Edit { changed_files, edit })
                && edit@ == v && match field(v, "changes"@) {
                Some(JsonValue::Object(keys, _)) => changed_files == Some(keys.len() as usize),
                _ => changed_files is None,
            },
        },
{
    match reply {
        Reply::Error(m) => Err(ClientError::BackendRejected(m)),
        Reply::Result(v) => {
            if let Json::Null = v {
                return Ok(RenameOutcome::Refused);
            }
            let changed_files = match v.get("changes") {
                Some(Json::Object(files)) => Some(files.len()),
                _ => None,
            };
            Ok(RenameOutcome::Edit { changed_files, edit: v })
        },
    }
}

/// Before the handshake completes, every operation fails at once with
/// `NotReady` and leaves the session as it was.
pub proof fn lemma_calls_before_ready_fail(
    v: ClientView,
    path: Seq<char>,
    content: Option<Seq<char>>,
    method: Seq<char>,
    params: JsonValue,
)
    requires
        v.state == SessionState::Unstarted || v.state == SessionState::Initializing,
    ensures
        document_call(v, path, content, method, params) == (v, CallValue::NotReady),
        plain_call(v, method, params) == (v, CallValue::NotReady),
{
}

/// Once the session is over, every operation fails at once with
/// `ConnectionClosed` and leaves the session as it was.
pub proof fn lemma_calls_after_end_fail(
    v: ClientView,
    path: Seq<char>,
    content: Option<Seq<char>>,
    method: Seq<char>,
    params: JsonValue,
)
    requires
        v.state == SessionState::Terminated,
    ensures
        document_call(v, path, content, method, params) == (v, CallValue::Closed),
        plain_call(v, method, params) == (v, CallValue::Closed),
{
}

/// One call of a batch: the file's content as it was read, the method and
/// its parameters.
pub type DocumentRequest = (Option<Seq<char>>, Seq<char>, JsonValue);

/// How many of the calls `reqs`, made one after another from session `v`
/// about the file at `path`, send the notice that the file is open.
pub open spec fn open_notices(v: ClientView, path: Seq<char>, reqs: Seq<DocumentRequest>) -> nat
    decreases reqs.len(),
{
    if reqs.len() == 0 {
        0
    } else {
        let (w, c) = document_call(v, path, reqs[0].0, reqs[0].1, reqs[0].2);
        let here: nat = match c {
            CallValue::Sent { id, outbound } => if outbound.len() == 2 {
                1
            } else {
                0
            },
            _ => 0,
        };
        here + open_notices(w, path, reqs.drop_first())
    }
}

/// However many calls about one file come in, however they are ordered, the
/// backend is told at most once that the file is open, and not at all if
/// it was told before.
pub proof fn lemma_document_opened_once(v: ClientView, path: Seq<char>, reqs: Seq<DocumentRequest>)
    ensures
        open_notices(v, path, reqs) <= 1,
        v.open.contains(file_uri(path)) ==> open_notices(v, path, reqs) == 0,
    decreases reqs.len(),
{
    if reqs.len() > 0 {
        let (w, c) = document_call(v, path, reqs[0].0, reqs[0].1, reqs[0].2);
        lemma_document_opened_once(w, path, reqs.drop_first());
        let uri = file_uri(path);
        if v.open.contains(uri) {
            assert(w.open.contains(uri));
        }
        if c is Sent && c->outbound.len() == 2 {
            assert(w.open.contains(uri));
        }
    }
}

/// A definition lookup about a file never opened before sends, in this
/// order, the notice that the file is open with its whole content, then
/// the definition request for that file's URI at the given line and
/// character; a null answer, an empty list and a non-empty list of
/// locations then come out as three different outcomes.
pub proof fn lemma_definition_on_new_file(
    v: ClientView,
    path: Seq<char>,
    content: Seq<char>,
    line: u32,
    character: u32,
    locations: Seq<JsonValue>,
)
    requires
        v.can_send(),
        !v.open.contains(file_uri(path)),
        locations.len() > 0,
    ensures
        ({
            let uri = file_uri(path);
            let id = (v.last_id + 1) as u64;
            let params = position_params_value(uri, line, character);
            &&& document_call(v, path, Some(content), "textDocument/definition"@, params) == (
                ClientView { open: v.open.insert(uri), ..v.issue() },
                CallValue::Sent {
                    id,
                    outbound: seq![
                        notification_value("textDocument/didOpen"@, did_open_params_value(uri, content)),
                        request_value(id, "textDocument/definition"@, params),
                    ],
                },
            )
            &&& field(params, "textDocument"@) == Some(crate::lsp::document_id(uri))
            &&& field(params, "position"@) == Some(crate::lsp::position_value(line, character))
            &&& field(did_open_params_value(uri, content), "textDocument"@).unwrap() == crate::lsp::obj4(
                "uri"@,
                JsonValue::Str(uri),
                "languageId"@,
                JsonValue::Str("rust"@),
                "version"@,
                JsonValue::Num(1),
                "text"@,
                JsonValue::Str(content),
            )
        }),
        lookup_spec(JsonValue::Null) == LookupValue::NotFound,
        lookup_spec(JsonValue::Array(Seq::empty())) == LookupValue::Empty,
        lookup_spec(JsonValue::Array(locations)) == LookupValue::Found(locations),
{
    reveal_strlit("textDocument");
    reveal_strlit("position");
    let uri = file_uri(path);
    let params = position_params_value(uri, line, character);
    let keys = seq!["textDocument"@, "position"@];
    let values = seq![crate::lsp::document_id(uri), crate::lsp::position_value(line, character)];
    assert("textDocument"@.len() == 12);
    assert("position"@.len() == 8);
    assert(keys[0] == "textDocument"@);
    assert(keys[0] != "position"@);
    assert(crate::json::member_from(keys, values, "position"@, 1) == Some(values[1]));
    assert(field(params, "position"@) == Some(crate::lsp::position_value(line, character)));
}

/// Two renames at the same position with different new names, sent one
/// after the other, get different identifiers; when the backend answers
/// the second first, each answer still goes to its own caller, and the
/// pending table ends as it began.
pub proof fn lemma_renames_answered_out_of_order(
    v: ClientView,
    path: Seq<char>,
    content: Option<Seq<char>>,
    line: u32,
    character: u32,
    first_name: Seq<char>,
    second_name: Seq<char>,
    first_reply: ReplyValue,
    second_reply: ReplyValue,
)
    requires
        v.wf(),
        v.state == SessionState::Ready,
        v.last_id + 2 <= u64::MAX,
        content is Some || v.open.contains(file_uri(path)),
    ensures
        ({
            let uri = file_uri(path);
            let method = "textDocument/rename"@;
            let (v1, c1) = document_call(
                v,
                path,
                content,
                method,
                rename_params_value(uri, line, character, first_name),
            );
            let (v2, c2) = document_call(
                v1,
                path,
                content,
                method,
                rename_params_value(uri, line, character, second_name),
            );
            let id1 = (v.last_id + 1) as u64;
            let id2 = (v.last_id + 2) as u64;
            let (v3, d2) = receive_spec(
                v2,
                crate::message::IncomingValue::Response { id: id2, reply: second_reply },
            );
            let (v4, d1) = receive_spec(
                v3,
                crate::message::IncomingValue::Response { id: id1, reply: first_reply },
            );
            &&& c1 is Sent && c1->id == id1
            &&& c2 is Sent && c2->id == id2
            &&& id1 != id2
            &&& d2 == DeliveryValue::Resolved { id: id2, reply: second_reply }
            &&& d1 == DeliveryValue::Resolved { id: id1, reply: first_reply }
            &&& v4.pending == v.pending
        }),
{
    let uri = file_uri(path);
    let method = "textDocument/rename"@;
    let (v1, c1) = document_call(
        v,
        path,
        content,
        method,
        rename_params_value(uri, line, character, first_name),
    );
    let (v2, c2) = document_call(
        v1,
        path,
        content,
        method,
        rename_params_value(uri, line, character, second_name),
    );
    let id1 = (v.last_id + 1) as u64;
    let id2 = (v.last_id + 2) as u64;
    assert(!v.pending.contains(id1));
    assert(!v.pending.contains(id2));
    assert(v1.pending == v.pending.insert(id1));
    assert(v2.pending == v1.pending.insert(id2));
    let v3 = v2.resolve(id2);
    assert(v3.pending.remove(id1) =~= v.pending);
}

} // verus!
