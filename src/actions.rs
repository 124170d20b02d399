//! Picking the code actions that a refactoring asked for, and sorting
//! diagnostics by what they are about.
//!
//! The backend labels each code action with a kind such as
//! `refactor.extract.function`; where a refactoring has such a kind, an
//! action that carries a kind is judged by it alone. Where the refactoring
//! has none, or the action carries none, the action's title is searched,
//! case-insensitively, for the refactoring's keywords: a heuristic that
//! misses actions titled in other words.
use vstd::prelude::*;

use crate::json::{field, Json, JsonValue};
use crate::ops::views;
use crate::text::{contains_seq, occurs_at, text_contains, text_starts_with};

verus! {

/// What `str::to_lowercase` gives for `s`.
pub uninterp spec fn lower_of(s: Seq<char>) -> Seq<char>;

/// Relies on `str::to_lowercase`: the result depends on the characters of
/// `s` alone.
#[verifier::external_body]
pub(crate) fn lowercase(s: &str) -> (r: String)
    ensures
        r@ == lower_of(s@),
{
    s.to_lowercase()
}

/// A refactoring that is offered as a code action.
#[derive(Debug, Clone, Copy, PartialEq, Eq, Structural)]
pub enum Refactoring {
    ExtractFunction,
    InlineFunction,
    ChangeSignature,
    OrganizeImports,
}

/// The code-action kind that the backend gives this refactoring, where one
/// names it.
pub open spec fn refactoring_kind(r: Refactoring) -> Option<Seq<char>> {
    match r {
        Refactoring::ExtractFunction => Some("refactor.extract"@),
        Refactoring::InlineFunction => Some("refactor.inline"@),
        Refactoring::ChangeSignature => None,
        Refactoring::OrganizeImports => Some("source.organizeImports"@),
    }
}

/// The words, in lower case, that the title of an action for this
/// refactoring holds.
pub open spec fn refactoring_keywords(r: Refactoring) -> Seq<Seq<char>> {
    match r {
        Refactoring::ExtractFunction => seq!["extract"@],
        Refactoring::InlineFunction => seq!["inline"@],
        Refactoring::ChangeSignature => seq!["signature"@, "parameter"@, "argument"@],
        Refactoring::OrganizeImports => seq!["organize"@, "sort"@, "import"@],
    }
}

/// The kind of action that the request for this refactoring is limited
/// to, if any: extraction asks for every action over the range.
pub open spec fn requested_kind(r: Refactoring) -> Option<Seq<char>> {
    match r {
        Refactoring::ExtractFunction => None,
        Refactoring::InlineFunction => Some("refactor.inline"@),
        Refactoring::ChangeSignature => Some("refactor.rewrite"@),
        Refactoring::OrganizeImports => Some("source.organizeImports"@),
    }
}

/// Whether an action with kind `kind` and lower-cased title
/// `lowered_title` is one for refactoring `r`.
pub open spec fn action_selected_spec(
    r: Refactoring,
    kind: Option<Seq<char>>,
    lowered_title: Option<Seq<char>>,
) -> bool {
    match (refactoring_kind(r), kind) {
        (Some(prefix), Some(k)) => occurs_at(k, prefix, 0),
        _ => match lowered_title {
            Some(t) => exists|i: int|
                0 <= i < refactoring_keywords(r).len() && contains_seq(
                    t,
                    #[trigger] refactoring_keywords(r)[i],
                ),
            None => false,
        },
    }
}

/// The string member `key` of `v`, if it has one.
pub open spec fn text_field(v: JsonValue, key: Seq<char>) -> Option<Seq<char>> {
    match field(v, key) {
        Some(JsonValue::Str(s)) => Some(s),
        _ => None,
    }
}

/// Whether code action `a` is one for refactoring `r`.
pub open spec fn is_selected(r: Refactoring, a: JsonValue) -> bool {
    action_selected_spec(
        r,
        text_field(a, "kind"@),
        match text_field(a, "title"@) {
            Some(t) => Some(lower_of(t)),
            None => None,
        },
    )
}

/// The kind of action that the request for `r` is limited to, if any.
pub fn requested_kind_of(r: Refactoring) -> (k: Option<&'static str>)
    ensures
        match requested_kind(r) {
            Some(s) => k matches Some(t) && t@ == s,
            None => k is None,
        },
{
    match r {
        Refactoring::ExtractFunction => None,
        Refactoring::InlineFunction => Some("refactor.inline"),
        Refactoring::ChangeSignature => Some("refactor.rewrite"),
        Refactoring::OrganizeImports => Some("source.organizeImports"),
    }
}

fn keywords_of(r: Refactoring) -> (k: Vec<&'static str>)
    ensures
        k@.len() == refactoring_keywords(r).len(),
        forall|i: int| 0 <= i < k@.len() ==> (#[trigger] k@[i])@ == refactoring_keywords(r)[i],
{
    let mut k: Vec<&'static str> = Vec::new();
    match r {
        Refactoring::ExtractFunction => {
            k.push("extract");
        },
        Refactoring::InlineFunction => {
            k.push("inline");
        },
        Refactoring::ChangeSignature => {
            k.push("signature");
            k.push("parameter");
            k.push("argument");
        },
        Refactoring::OrganizeImports => {
            k.push("organize");
            k.push("sort");
            k.push("import");
        },
    }
    k
}

/// Whether an action with kind `kind` and lower-cased title
/// `lowered_title` is one for refactoring `r`.
pub fn action_selected(r: Refactoring, kind: Option<&str>, lowered_title: Option<&str>) -> (b: bool)
    ensures
        b == action_selected_spec(
            r,
            match kind {
                Some(k) => Some(k@),
                None => None,
            },
            match lowered_title {
                Some(t) => Some(t@),
                None => None,
            },
        ),
{
    if let Some(k) = kind {
        match r {
            Refactoring::ExtractFunction => {
                return text_starts_with(k, "refactor.extract");
            },
            Refactoring::InlineFunction => {
                return text_starts_with(k, "refactor.inline");
            },
            Refactoring::OrganizeImports => {
                return text_starts_with(k, "source.organizeImports");
            },
            Refactoring::ChangeSignature => {},
        }
    }
    let t = match lowered_title {
        Some(t) => t,
        None => {
            return false;
        },
    };
    let words = keywords_of(r);
    let mut i: usize = 0;
    while i < words.len()
        invariant
            words@.len() == refactoring_keywords(r).len(),
            forall|j: int| 0 <= j < words@.len() ==> (#[trigger] words@[j])@ == refactoring_keywords(r)[j],
            i <= words@.len(),
            forall|j: int| 0 <= j < i ==> !contains_seq(t@, #[trigger] refactoring_keywords(r)[j]),
            lowered_title == Some(t),
            refactoring_kind(r) is None || kind is None,
        decreases words@.len() - i,
    {
        if text_contains(t, words[i]) {
            assert(contains_seq(t@, refactoring_keywords(r)[i as int]));
            return true;
        }
        i = i + 1;
    }
    false
}

/// Whether code action `a` is one for refactoring `r`.
pub fn action_is_selected(r: Refactoring, a: &Json) -> (b: bool)
    ensures
        b == is_selected(r, a@),
{
    let kind = match a.get("kind") {
        Some(Json::Str(k)) => Some(k.as_str()),
        _ => None,
    };
    match a.get("title") {
        Some(Json::Str(t)) => {
            let lowered = lowercase(t.as_str());
            action_selected(r, kind, Some(lowered.as_str()))
        },
        _ => action_selected(r, kind, None),
    }
}

/// The code actions that the backend offered, sorted for a refactoring.
#[derive(Debug, PartialEq)]
pub enum ActionChoice {
    /// The backend offered none.
    NoneAvailable,
    /// The offered actions for the refactoring, at least one.
    Matching(Vec<Json>),
    /// All the offered actions, none of which is for the refactoring.
    NoMatch(Vec<Json>),
    /// A result that is not a list of actions.
    Unexpected(Json),
}

pub ghost enum ActionChoiceValue {
    NoneAvailable,
    Matching(Seq<JsonValue>),
    NoMatch(Seq<JsonValue>),
    Unexpected(JsonValue),
}

impl View for ActionChoice {
    type V = ActionChoiceValue;

    open spec fn view(&self) -> ActionChoiceValue {
        match self {
            ActionChoice::NoneAvailable => ActionChoiceValue::NoneAvailable,
            ActionChoice::Matching(a) => ActionChoiceValue::Matching(views(a@)),
            ActionChoice::NoMatch(a) => ActionChoiceValue::NoMatch(views(a@)),
            ActionChoice::Unexpected(v) => ActionChoiceValue::Unexpected(v@),
        }
    }
}

/// How the result `v` of a code-action request sorts for refactoring `r`.
pub open spec fn choose_actions_spec(r: Refactoring, v: JsonValue) -> ActionChoiceValue {
    match v {
        JsonValue::Null => ActionChoiceValue::NoneAvailable,
        JsonValue::Array(items) => if items.len() == 0 {
            ActionChoiceValue::NoneAvailable
        } else {
            let picked = items.filter(|a: JsonValue| is_selected(r, a));
            if picked.len() == 0 {
                ActionChoiceValue::NoMatch(items)
            } else {
                ActionChoiceValue::Matching(picked)
            }
        },
        _ => ActionChoiceValue::Unexpected(v),
    }
}

/// Sorts the result of a code-action request for refactoring `r`.
pub fn choose_actions(r: Refactoring, result: Json) -> (c: ActionChoice)
    ensures
        c@ == choose_actions_spec(r, result@),
{
    let ghost g = result@;
    match result {
        Json::Null => ActionChoice::NoneAvailable,
        Json::Array(items) => {
            if items.len() == 0 {
                return ActionChoice::NoneAvailable;
            }
            let ghost all = g->Array_0;
            let ghost pred = |a: JsonValue| is_selected(r, a);
            let mut picked: Vec<Json> = Vec::new();
            let mut i: usize = 0;
            while i < items.len()
                invariant
                    all == views(items@),
                    i <= items@.len(),
                    pred == (|a: JsonValue| is_selected(r, a)),
                    views(picked@) == all.subrange(0, i as int).filter(pred),
                decreases items@.len() - i,
            {
                let ghost before = views(picked@);
                proof {
                    let prefix = all.subrange(0, i as int);
                    assert(all.subrange(0, i + 1) =~= prefix.push(all[i as int]));
                    prefix.lemma_filter_push(all[i as int], pred);
                    assert(all[i as int] == items@[i as int]@);
                }
                if action_is_selected(r, &items[i]) {
                    picked.push(items[i].deep_copy());
                    assert(views(picked@) =~= before.push(all[i as int]));
                } else {
                    assert(views(picked@) =~= before);
                }
                i = i + 1;
            }
            assert(all.subrange(0, i as int) =~= all);
            if picked.len() == 0 {
                assert(views(items@) =~= all);
                ActionChoice::NoMatch(items)
            } else {
                ActionChoice::Matching(picked)
            }
        },
        other => ActionChoice::Unexpected(other),
    }
}

/// What a diagnostic is about.
#[derive(Debug, Clone, Copy, PartialEq, Eq, Structural)]
pub enum DiagnosticTopic {
    Lifetime,
    Borrow,
    Other,
}

/// What a diagnostic with lower-cased message `m` is about: lifetimes if
/// it says "lifetime"; else borrowing if it says "borrow" or "move"; else
/// something other.
pub open spec fn topic_spec(m: Seq<char>) -> DiagnosticTopic {
    if contains_seq(m, "lifetime"@) {
        DiagnosticTopic::Lifetime
    } else if contains_seq(m, "borrow"@) || contains_seq(m, "move"@) {
        DiagnosticTopic::Borrow
    } else {
        DiagnosticTopic::Other
    }
}

/// What a diagnostic with lower-cased message `lowered` is about.
pub fn topic_of_lowered(lowered: &str) -> (t: DiagnosticTopic)
    ensures
        t == topic_spec(lowered@),
{
    if text_contains(lowered, "lifetime") {
        DiagnosticTopic::Lifetime
    } else if text_contains(lowered, "borrow") || text_contains(lowered, "move") {
        DiagnosticTopic::Borrow
    } else {
        DiagnosticTopic::Other
    }
}

/// What a diagnostic with message `message` is about, in any letter case.
pub fn topic_of(message: &str) -> (t: DiagnosticTopic)
    ensures
        t == topic_spec(lower_of(message@)),
{
    let lowered = lowercase(message);
    topic_of_lowered(lowered.as_str())
}

} // verus!
