//! Diagnostics, which the backend pushes for each document as
//! notifications: the latest list per document, and the lifetime and
//! borrowing problems among them.
use vstd::prelude::*;

use crate::actions::{lower_of, topic_of, topic_spec, DiagnosticTopic};
use crate::json::{field, member_from, Json, JsonValue};
use crate::text::text_eq;

verus! {

/// The latest diagnostics that the backend published, by document URI.
pub struct DiagnosticsStore {
    uris: Vec<String>,
    lists: Vec<Json>,
}

/// The mathematical content of a store: URIs and their lists, in the order
/// in which each URI was first published.
pub ghost struct DiagnosticsView {
    pub uris: Seq<Seq<char>>,
    pub lists: Seq<JsonValue>,
}

impl DiagnosticsView {
    /// The latest list published for `uri`.
    pub open spec fn latest(self, uri: Seq<char>) -> Option<JsonValue> {
        member_from(self.uris, self.lists, uri, 0)
    }
}

impl View for DiagnosticsStore {
    type V = DiagnosticsView;

    closed spec fn view(&self) -> DiagnosticsView {
        DiagnosticsView {
            uris: Seq::new(self.uris@.len(), |i: int| self.uris@[i]@),
            lists: Seq::new(self.lists@.len(), |i: int| self.lists@[i]@),
        }
    }
}

/// Past index `i`, replacing the value at `i` changes nothing found.
proof fn lemma_member_update_after(
    keys: Seq<Seq<char>>,
    values: Seq<JsonValue>,
    i: int,
    v: JsonValue,
    k: Seq<char>,
    j: int,
)
    requires
        keys.len() == values.len(),
        0 <= i < j,
    ensures
        member_from(keys, values.update(i, v), k, j) == member_from(keys, values, k, j),
    decreases keys.len() - j,
{
    if j < keys.len() {
        assert(values.update(i, v)[j] == values[j]);
        lemma_member_update_after(keys, values, i, v, k, j + 1);
    }
}

/// Replacing the value at the first occurrence of a key changes what that
/// key finds and nothing else.
proof fn lemma_member_update(
    keys: Seq<Seq<char>>,
    values: Seq<JsonValue>,
    i: int,
    v: JsonValue,
    k: Seq<char>,
    j: int,
)
    requires
        keys.len() == values.len(),
        0 <= j <= i < keys.len(),
        forall|m: int| j <= m < i ==> keys[m] != keys[i],
    ensures
        member_from(keys, values.update(i, v), k, j) == if k == keys[i] {
            Some(v)
        } else {
            member_from(keys, values, k, j)
        },
    decreases i - j,
{
    if j < i {
        assert(values.update(i, v)[j] == values[j]);
        lemma_member_update(keys, values, i, v, k, j + 1);
    } else {
        lemma_member_update_after(keys, values, i, v, k, j + 1);
    }
}

/// Appending a member changes only what its key finds, and only if the key
/// was absent.
proof fn lemma_member_push(
    keys: Seq<Seq<char>>,
    values: Seq<JsonValue>,
    u: Seq<char>,
    v: JsonValue,
    k: Seq<char>,
    j: int,
)
    requires
        keys.len() == values.len(),
        0 <= j <= keys.len(),
    ensures
        member_from(keys.push(u), values.push(v), k, j) == match member_from(keys, values, k, j) {
            Some(x) => Some(x),
            None => if k == u {
                Some(v)
            } else {
                None
            },
        },
    decreases keys.len() - j,
{
    if j < keys.len() {
        assert(keys.push(u)[j] == keys[j]);
        assert(values.push(v)[j] == values[j]);
        lemma_member_push(keys, values, u, v, k, j + 1);
    } else {
        assert(keys.push(u)[j] == u);
        assert(values.push(v)[j] == v);
        assert(member_from(keys.push(u), values.push(v), k, j + 1) is None);
    }
}

impl DiagnosticsStore {
    pub closed spec fn inv(&self) -> bool {
        self.uris@.len() == self.lists@.len()
    }

    pub fn new() -> (r: DiagnosticsStore)
        ensures
            r.inv(),
            forall|u: Seq<char>| r@.latest(u) is None,
    {
        DiagnosticsStore { uris: Vec::new(), lists: Vec::new() }
    }

    /// The latest list published for `uri`.
    pub fn latest(&self, uri: &str) -> (r: Option<&Json>)
        requires
            self.inv(),
        ensures
            match self@.latest(uri@) {
                None => r is None,
                Some(v) => r matches Some(x) && x@ == v,
            },
    {
        let mut i: usize = 0;
        while i < self.uris.len()
            invariant
                self.inv(),
                i <= self.uris@.len(),
                self@.latest(uri@) == member_from(self@.uris, self@.lists, uri@, i as int),
            decreases self.uris@.len() - i,
        {
            if text_eq(self.uris[i].as_str(), uri) {
                return Some(&self.lists[i]);
            }
            i = i + 1;
        }
        None
    }

    /// Records `list` as the latest for `uri`.
    pub fn record(&mut self, uri: String, list: Json)
        requires
            old(self).inv(),
        ensures
            final(self).inv(),
            forall|u: Seq<char>|
                #[trigger] final(self)@.latest(u) == if u == uri@ {
                    Some(list@)
                } else {
                    old(self)@.latest(u)
                },
    {
        let ghost before = self@;
        let ghost l = list@;
        let mut i: usize = 0;
        while i < self.uris.len()
            invariant
                self.inv(),
                self@ == before,
                before == old(self)@,
                l == list@,
                i <= self.uris@.len(),
                forall|m: int| 0 <= m < i ==> before.uris[m] != uri@,
            decreases self.uris@.len() - i,
        {
            if self.uris[i] == uri {
                let ghost old_lists = self.lists@;
                let ghost lg = list;
                self.lists.set(i, list);
                proof {
                    assert(self.lists@ == old_lists.update(i as int, lg));
                    assert(self@.uris == before.uris);
                    assert(self@.lists.len() == before.lists.len());
                    assert forall|m: int| 0 <= m < self@.lists.len() implies #[trigger] self@.lists[m]
                        == before.lists.update(i as int, l)[m] by {
                        assert(self@.lists[m] == self.lists@[m]@);
                        assert(before.lists[m] == old_lists[m]@);
                        if m != i {
                            assert(self.lists@[m] == old_lists[m]);
                        } else {
                            assert(self.lists@[m] == lg);
                            assert(lg@ == l);
                        }
                    }
                    assert(self@.lists =~= before.lists.update(i as int, l));
                    assert forall|u: Seq<char>| #[trigger] self@.latest(u) == if u == uri@ {
                        Some(l)
                    } else {
                        before.latest(u)
                    } by {
                        assert(before.uris[i as int] == uri@);
                        lemma_member_update(before.uris, before.lists, i as int, l, u, 0);
                    }
                }
                return;
            }
            i = i + 1;
        }
        proof {
            lemma_member_skip(before.uris, before.lists, uri@, i as int);
        }
        self.uris.push(uri);
        self.lists.push(list);
        proof {
            assert(self@.uris =~= before.uris.push(uri@));
            assert(self@.lists =~= before.lists.push(l));
            assert forall|u: Seq<char>| #[trigger] self@.latest(u) == if u == uri@ {
                Some(l)
            } else {
                before.latest(u)
            } by {
                lemma_member_push(before.uris, before.lists, uri@, l, u, 0);
            }
        }
    }

    /// Takes in a notification from the backend: a list of diagnostics for
    /// a document is recorded as its latest, and the result says so.
    pub fn take_notification(&mut self, method: &str, params: &Json) -> (r: bool)
        requires
            old(self).inv(),
        ensures
            final(self).inv(),
            r == (method@ == "textDocument/publishDiagnostics"@ && published(params@) is Some),
            r ==> match published(params@) {
                Some((uri, list)) => forall|u: Seq<char>|
                    #[trigger] final(self)@.latest(u) == if u == uri {
                        Some(list)
                    } else {
                        old(self)@.latest(u)
                    },
                None => false,
            },
            !r ==> final(self)@ == old(self)@,
    {
        if !text_eq(method, "textDocument/publishDiagnostics") {
            return false;
        }
        match (params.get("uri"), params.get("diagnostics")) {
            (Some(Json::Str(uri)), Some(list)) => {
                self.record(uri.clone(), list.deep_copy());
                true
            },
            _ => false,
        }
    }
}

/// Nothing before `i` matches `k`, so looking from the start finds what
/// looking from `i` does.
proof fn lemma_member_skip(keys: Seq<Seq<char>>, values: Seq<JsonValue>, k: Seq<char>, i: int)
    requires
        0 <= i <= keys.len(),
        forall|m: int| 0 <= m < i ==> keys[m] != k,
    ensures
        member_from(keys, values, k, 0) == member_from(keys, values, k, i),
    decreases i,
{
    if i > 0 {
        lemma_member_skip(keys, values, k, i - 1);
    }
}

/// The URI and the diagnostics list of a publishing notification's
/// parameters.
pub open spec fn published(params: JsonValue) -> Option<(Seq<char>, JsonValue)> {
    match (field(params, "uri"@), field(params, "diagnostics"@)) {
        (Some(JsonValue::Str(u)), Some(list)) => Some((u, list)),
        _ => None,
    }
}

/// The message of diagnostic `d`, if it has one.
pub open spec fn message_of(d: JsonValue) -> Option<Seq<char>> {
    match field(d, "message"@) {
        Some(JsonValue::Str(m)) => Some(m),
        _ => None,
    }
}

/// The messages of the diagnostics in `items` that are about `topic`, in
/// order.
pub open spec fn messages_about(items: Seq<JsonValue>, topic: DiagnosticTopic) -> Seq<Seq<char>>
    decreases items.len(),
{
    if items.len() == 0 {
        Seq::empty()
    } else {
        let rest = messages_about(items.drop_last(), topic);
        match message_of(items.last()) {
            Some(m) => if topic_spec(lower_of(m)) == topic {
                rest.push(m)
            } else {
                rest
            },
            None => rest,
        }
    }
}

/// The lifetime and the borrowing problems in a list of diagnostics.
#[derive(Debug, PartialEq)]
pub struct LifetimeReport {
    pub lifetime: Vec<String>,
    pub borrow: Vec<String>,
}

pub open spec fn texts(s: Seq<String>) -> Seq<Seq<char>> {
    Seq::new(s.len(), |i: int| s[i]@)
}

/// Sorts the messages of the diagnostics list `diagnostics` (an array; any
/// other value has none) into lifetime and borrowing problems.
pub fn lifetime_report(diagnostics: &Json) -> (r: LifetimeReport)
    ensures
        ({
            let items = match diagnostics@ {
                JsonValue::Array(items) => items,
                _ => Seq::empty(),
            };
            &&& texts(r.lifetime@) == messages_about(items, DiagnosticTopic::Lifetime)
            &&& texts(r.borrow@) == messages_about(items, DiagnosticTopic::Borrow)
        }),
{
    let mut lifetime: Vec<String> = Vec::new();
    let mut borrow: Vec<String> = Vec::new();
    match diagnostics {
        Json::Array(list) => {
            let ghost items = diagnostics@->Array_0;
            let mut i: usize = 0;
            while i < list.len()
                invariant
                    *diagnostics == Json::Array(*list),
                    items == diagnostics@->Array_0,
                    items.len() == list@.len(),
                    forall|k: int| 0 <= k < list@.len() ==> #[trigger] items[k] == list@[k]@,
                    i <= list@.len(),
                    texts(lifetime@) == messages_about(
                        items.subrange(0, i as int),
                        DiagnosticTopic::Lifetime,
                    ),
                    texts(borrow@) == messages_about(
                        items.subrange(0, i as int),
                        DiagnosticTopic::Borrow,
                    ),
                decreases list@.len() - i,
            {
                let ghost next = items.subrange(0, i + 1);
                assert(next.drop_last() =~= items.subrange(0, i as int));
                assert(next.last() == list@[i as int]@);
                if let Some(Json::Str(m)) = list[i].get("message") {
                    let topic = topic_of(m.as_str());
                    match topic {
                        DiagnosticTopic::Lifetime => {
                            let ghost before = lifetime@;
                            lifetime.push(m.clone());
                            assert(texts(lifetime@) =~= texts(before).push(m@));
                        },
                        DiagnosticTopic::Borrow => {
                            let ghost before = borrow@;
                            borrow.push(m.clone());
                            assert(texts(borrow@) =~= texts(before).push(m@));
                        },
                        DiagnosticTopic::Other => {},
                    }
                }
                i = i + 1;
            }
            assert(items.subrange(0, i as int) =~= items);
        },
        _ => {
            assert(texts(lifetime@) =~= Seq::<Seq<char>>::empty());
            assert(texts(borrow@) =~= Seq::<Seq<char>>::empty());
        },
    }
    LifetimeReport { lifetime, borrow }
}

} // verus!
