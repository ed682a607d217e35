//! What language servers answer: completions, hover texts and definitions.
use vstd::prelude::*;

use super::CompletionCandidate;
use crate::encoding::opt_text;
use crate::json::{json_member, json_text, Json};

verus! {

/// What a completion says.
pub struct CandidateView {
    pub label: Seq<char>,
    pub detail: Option<Seq<char>>,
    pub replacement: Seq<char>,
}

impl View for CompletionCandidate {
    type V = CandidateView;

    open spec fn view(&self) -> CandidateView {
        CandidateView {
            label: self.label@,
            detail: opt_text(self.detail),
            replacement: self.replacement@,
        }
    }
}

/// The elements of a list.
pub open spec fn elements(value: Json) -> Option<Seq<Json>> {
    match value {
        Json::Array(items) => Some(items@),
        _ => None,
    }
}

/// The text of a member of an object.
pub open spec fn member_text(value: Json, name: Seq<char>) -> Option<Seq<char>> {
    match json_member(value, name) {
        Some(m) => json_text(m),
        None => None,
    }
}

/// The completions that an answer lists: the list itself, or its member `items`.
pub open spec fn completion_items(payload: Json) -> Seq<Json> {
    match elements(payload) {
        Some(items) => items,
        None => match json_member(payload, "items"@) {
            Some(m) => match elements(m) {
                Some(items) => items,
                None => Seq::empty(),
            },
            None => Seq::empty(),
        },
    }
}

/// A completion, if it has a label. What it inserts is its label unless it says
/// otherwise.
pub open spec fn candidate_of(item: Json) -> Option<CandidateView> {
    match member_text(item, "label"@) {
        Some(label) => Some(
            CandidateView {
                label,
                detail: member_text(item, "detail"@),
                replacement: match member_text(item, "insertText"@) {
                    Some(text) => text,
                    None => label,
                },
            },
        ),
        None => None,
    }
}

/// The completions among the first `n` entries.
pub open spec fn candidates_of(items: Seq<Json>, n: int) -> Seq<CandidateView>
    decreases n,
{
    if n <= 0 {
        Seq::empty()
    } else {
        match candidate_of(items[n - 1]) {
            Some(c) => candidates_of(items, n - 1).push(c),
            None => candidates_of(items, n - 1),
        }
    }
}

/// What several completions say.
pub open spec fn candidate_views(candidates: Seq<CompletionCandidate>) -> Seq<CandidateView> {
    candidates.map_values(|c: CompletionCandidate| c@)
}

fn text_of(value: &Json, name: &str) -> (text: Option<String>)
    ensures
        opt_text(text) == member_text(*value, name@),
{
    match value.get(name) {
        Some(m) => match m.as_str() {
            Some(text) => Some(text.to_owned()),
            None => None,
        },
        None => None,
    }
}

/// The completions that an answer lists. Entries without a label are left out.
pub fn completion_candidates(payload: &Json) -> (candidates: Vec<CompletionCandidate>)
    ensures
        candidate_views(candidates@) == candidates_of(
            completion_items(*payload),
            completion_items(*payload).len() as int,
        ),
{
    let list: Option<&Vec<Json>> = match payload {
        Json::Array(items) => Some(items),
        _ => match payload.get("items") {
            Some(Json::Array(items)) => Some(items),
            _ => None,
        },
    };
    let mut out: Vec<CompletionCandidate> = Vec::new();
    assert(candidate_views(out@) =~= Seq::empty());
    if let Some(items) = list {
        assert(items@ == completion_items(*payload));
        for i in 0..items.len()
            invariant
                candidate_views(out@) == candidates_of(items@, i as int),
        {
            let ghost before = candidate_views(out@);
            if let Some(label) = text_of(&items[i], "label") {
                let replacement = match text_of(&items[i], "insertText") {
                    Some(text) => text,
                    None => label.clone(),
                };
                let detail = text_of(&items[i], "detail");
                let candidate = CompletionCandidate { label, detail, replacement };
                let ghost view = candidate@;
                out.push(candidate);
                assert(candidate_views(out@) =~= before.push(view));
            }
        }
    }
    out
}

/// The text of a part of a hover: a text, or the member `value`.
pub open spec fn hover_part(part: Json) -> Option<Seq<char>> {
    match json_text(part) {
        Some(text) => Some(text),
        None => member_text(part, "value"@),
    }
}

/// The texts of the first `n` parts, with an empty line between them.
pub open spec fn hover_joined(parts: Seq<Json>, n: int) -> Option<Seq<char>>
    decreases n,
{
    if n <= 0 {
        None
    } else {
        match (hover_joined(parts, n - 1), hover_part(parts[n - 1])) {
            (before, None) => before,
            (None, Some(text)) => Some(text),
            (Some(before), Some(text)) => Some(before + "\n\n"@ + text),
        }
    }
}

/// The text of a hover, if there is something to show.
pub open spec fn hover_text(payload: Json) -> Option<Seq<char>> {
    match json_member(payload, "contents"@) {
        None => None,
        Some(contents) => match contents {
            Json::Text(text) => Some(text@),
            Json::Array(parts) => match hover_joined(parts@, parts@.len() as int) {
                Some(text) => if text.len() > 0 {
                    Some(text)
                } else {
                    None
                },
                None => None,
            },
            _ => hover_part(contents),
        },
    }
}

fn hover_document_part(part: &Json) -> (text: Option<String>)
    ensures
        opt_text(text) == hover_part(*part),
{
    match part.as_str() {
        Some(text) => Some(text.to_owned()),
        None => text_of(part, "value"),
    }
}

/// The text of a hover, if there is something to show.
pub fn hover_document(payload: &Json) -> (text: Option<String>)
    ensures
        opt_text(text) == hover_text(*payload),
{
    match payload.get("contents") {
        None => None,
        Some(contents) => match contents {
            Json::Text(text) => Some(text.clone()),
            Json::Array(parts) => {
                let mut joined: Option<String> = None;
                for i in 0..parts.len()
                    invariant
                        opt_text(joined) == hover_joined(parts@, i as int),
                {
                    if let Some(text) = hover_document_part(&parts[i]) {
                        joined = match joined {
                            None => Some(text),
                            Some(before) => {
                                let mut all = before;
                                all.push_str("\n\n");
                                all.push_str(text.as_str());
                                Some(all)
                            },
                        };
                    }
                }
                match joined {
                    Some(text) => if text.as_str().is_empty() {
                        None
                    } else {
                        Some(text)
                    },
                    None => None,
                }
            },
            _ => hover_document_part(contents),
        },
    }
}

/// The location of a definition: the first one of a list.
pub open spec fn definition_entry(payload: Json) -> Json {
    match elements(payload) {
        Some(items) => if items.len() > 0 {
            items[0]
        } else {
            payload
        },
        None => payload,
    }
}

/// The first member of an object that is there, of two names.
pub open spec fn either_member(value: Json, first: Seq<char>, second: Seq<char>) -> Option<Json> {
    match json_member(value, first) {
        Some(m) => Some(m),
        None => json_member(value, second),
    }
}

/// The place of a definition: its URI as it was sent, and the value of its range.
pub open spec fn definition_place(payload: Json) -> Option<(Seq<char>, Json)> {
    let target = definition_entry(payload);
    let uri = match either_member(target, "uri"@, "targetUri"@) {
        Some(m) => json_text(m),
        None => None,
    };
    let range = match either_member(target, "range"@, "targetSelectionRange"@) {
        Some(r) => Some(r),
        None => json_member(target, "targetRange"@),
    };
    match (uri, range) {
        (Some(u), Some(r)) => Some((u, r)),
        _ => None,
    }
}

/// The place of a definition: its URI as it was sent, and the value of its range.
pub fn definition_target(payload: &Json) -> (place: Option<(String, &Json)>)
    ensures
        match place {
            Some((uri, range)) => definition_place(*payload) == Some((uri@, *range)),
            None => definition_place(*payload) is None,
        },
{
    let target: &Json = match payload {
        Json::Array(items) => if items.len() > 0 {
            &items[0]
        } else {
            payload
        },
        _ => payload,
    };
    let uri: Option<&Json> = match target.get("uri") {
        Some(m) => Some(m),
        None => target.get("targetUri"),
    };
    let text: &str = match uri {
        Some(m) => match m.as_str() {
            Some(text) => text,
            None => return None,
        },
        None => return None,
    };
    let range: Option<&Json> = match target.get("range") {
        Some(r) => Some(r),
        None => match target.get("targetSelectionRange") {
            Some(r) => Some(r),
            None => target.get("targetRange"),
        },
    };
    match range {
        Some(r) => Some((text.to_owned(), r)),
        None => None,
    }
}

/// Where every entry of a list has a label, there are as many completions as entries,
/// in their order: each shows the label of its entry and its detail, if it has one, and
/// inserts the text that the entry gives, or its label where it gives none.
pub proof fn completions_say_what_is_listed(items: Seq<Json>, n: int)
    requires
        0 <= n <= items.len(),
        forall|j: int|
            0 <= j < n ==> (json_member(#[trigger] items[j], "label"@) matches Some(Json::Text(_))),
    ensures
        candidates_of(items, n).len() == n,
        forall|i: int|
            0 <= i < n ==> {
                let c = #[trigger] candidates_of(items, n)[i];
                &&& json_member(items[i], "label"@) matches Some(Json::Text(t)) && c.label == t@
                &&& json_member(items[i], "insertText"@) matches Some(Json::Text(t))
                    ==> c.replacement == t@
                &&& !(json_member(items[i], "insertText"@) matches Some(Json::Text(_)))
                    ==> c.replacement == c.label
                &&& json_member(items[i], "detail"@) matches Some(Json::Text(t)) ==> c.detail
                    == Some(t@)
                &&& !(json_member(items[i], "detail"@) matches Some(Json::Text(_))) ==> c.detail
                    is None
            },
    decreases n,
{
    if n > 0 {
        completions_say_what_is_listed(items, n - 1);
        assert(json_member(items[n - 1], "label"@) matches Some(Json::Text(_)));
    }
}

/// An entry without a label changes nothing: the completions are those of the list
/// without it.
pub proof fn entries_without_a_label_are_left_out(items: Seq<Json>, at: int, n: int)
    requires
        0 <= at < n <= items.len(),
        !(json_member(items[at], "label"@) matches Some(Json::Text(_))),
    ensures
        candidates_of(items.remove(at), n - 1) == candidates_of(items, n),
    decreases n,
{
    if at < n - 1 {
        entries_without_a_label_are_left_out(items, at, n - 1);
        assert(items.remove(at)[n - 2] == items[n - 1]);
    } else {
        lemma_candidates_of_head(items, items.remove(at), n - 1);
    }
}

proof fn lemma_candidates_of_head(a: Seq<Json>, b: Seq<Json>, n: int)
    requires
        0 <= n <= a.len(),
        n <= b.len(),
        forall|j: int| 0 <= j < n ==> #[trigger] a[j] == b[j],
    ensures
        candidates_of(a, n) == candidates_of(b, n),
    decreases n,
{
    if n > 0 {
        lemma_candidates_of_head(a, b, n - 1);
        assert(a[n - 1] == b[n - 1]);
    }
}

/// The completions are listed by the answer itself or by its member `items`.
pub proof fn completions_are_listed_in_one_of_two_ways(payload: Json, items: Vec<Json>)
    ensures
        payload == Json::Array(items) ==> completion_items(payload) == items@,
        payload is Object && json_member(payload, "items"@) == Some(Json::Array(items))
            ==> completion_items(payload) == items@,
        payload is Object && json_member(payload, "items"@) is None ==> completion_items(
            payload,
        ).len() == 0,
{
}

/// The texts of two lists of parts, joined, are the texts of both lists with an empty
/// line between them; a part alone shows its text, or that of its member `value`.
pub proof fn hover_parts_are_joined(a: Seq<Json>, b: Seq<Json>)
    ensures
        hover_joined(a + b, (a + b).len() as int) == match (
            hover_joined(a, a.len() as int),
            hover_joined(b, b.len() as int),
        ) {
            (Some(x), Some(y)) => Some(x + "\n\n"@ + y),
            (Some(x), None) => Some(x),
            (None, y) => y,
        },
        a.len() == 1 ==> (a[0] matches Json::Text(t) ==> hover_joined(a, 1) == Some(t@)),
        a.len() == 1 ==> (a[0] is Object ==> (json_member(a[0], "value"@) matches Some(
            Json::Text(t),
        ) ==> hover_joined(a, 1) == Some(t@))),
        a.len() == 1 ==> (a[0] is Null ==> hover_joined(a, 1) is None),
    decreases b.len(),
{
    reveal_with_fuel(hover_joined, 2);
    let all = a + b;
    if b.len() == 0 {
        assert(all =~= a);
    } else {
        let front = b.drop_last();
        hover_parts_are_joined(a, front);
        lemma_hover_head(b, front, front.len() as int);
        lemma_hover_head(all, a + front, (a + front).len() as int);
        assert(all.last() == b.last());
        if let (Some(x), Some(y)) = (
            hover_joined(a, a.len() as int),
            hover_joined(front, front.len() as int),
        ) {
            if let Some(t) = hover_part(b.last()) {
                assert((x + "\n\n"@ + y) + "\n\n"@ + t =~= x + "\n\n"@ + (y + "\n\n"@ + t));
            }
        }
    }
}

proof fn lemma_hover_head(a: Seq<Json>, b: Seq<Json>, n: int)
    requires
        0 <= n <= a.len(),
        n <= b.len(),
        forall|j: int| 0 <= j < n ==> #[trigger] a[j] == b[j],
    ensures
        hover_joined(a, n) == hover_joined(b, n),
    decreases n,
{
    if n > 0 {
        lemma_hover_head(a, b, n - 1);
        assert(a[n - 1] == b[n - 1]);
    }
}

/// A hover shows its contents: a text as it is, the member `value` of an object, and
/// the parts of a list joined; without contents there is nothing to show.
pub proof fn hovers_show_their_contents(payload: Json)
    ensures
        json_member(payload, "contents"@) is None ==> hover_text(payload) is None,
        json_member(payload, "contents"@) matches Some(Json::Text(t)) ==> hover_text(payload)
            == Some(t@),
        json_member(payload, "contents"@) matches Some(contents) ==> (contents is Object ==> (
        json_member(contents, "value"@) matches Some(Json::Text(t)) ==> hover_text(payload) == Some(
            t@,
        ))),
        json_member(payload, "contents"@) matches Some(Json::Array(parts)) ==> (hover_joined(
            parts@,
            parts@.len() as int,
        ) matches Some(t) ==> (t.len() > 0 ==> hover_text(payload) == Some(t))),
{
}

/// A definition is at the URI and the range that the answer names, under the names of a
/// location or, where those are missing, of a link to one, whose selection counts
/// before its whole range; of a list the first entry counts. Without a URI or a range
/// there is none.
pub proof fn definitions_are_where_the_answer_says(payload: Json, target: Json)
    requires
        payload is Object ==> target == payload,
        payload matches Json::Array(items) ==> items@.len() > 0 && target == items@[0],
        payload is Object || payload is Array,
    ensures
        json_member(target, "uri"@) matches Some(Json::Text(u)) ==> (json_member(
            target,
            "range"@,
        ) matches Some(r) ==> definition_place(payload) == Some((u@, r))),
        json_member(target, "uri"@) is None && json_member(target, "range"@) is None ==> (
        json_member(target, "targetUri"@) matches Some(Json::Text(u)) ==> (json_member(
            target,
            "targetSelectionRange"@,
        ) matches Some(r) ==> definition_place(payload) == Some((u@, r)))),
        json_member(target, "range"@) is None && json_member(target, "targetSelectionRange"@) is None
            ==> (json_member(target, "uri"@) matches Some(Json::Text(u)) ==> (json_member(
            target,
            "targetRange"@,
        ) matches Some(r) ==> definition_place(payload) == Some((u@, r)))),
        json_member(target, "uri"@) is None && json_member(target, "targetUri"@) is None
            ==> definition_place(payload) is None,
        json_member(target, "range"@) is None && json_member(target, "targetSelectionRange"@) is None
            && json_member(target, "targetRange"@) is None ==> definition_place(payload) is None,
{
}

} // verus!
