//! Lists of documents that are told apart by an identifier.
//!
//! Each document of such a list carries its identifier as a string under a
//! fixed name (`packId`, `projectId`, ...). Saving replaces the document with
//! the same identifier or adds a new one; deleting takes out every document
//! with the identifier. What holds of the two whatever the list is stated at
//! the end, as lemmas named `law_..`.

use crate::json::{items_view, Json, JsonView};
use crate::text::same_text;
use vstd::prelude::*;

verus! {

/// Whether the document carries the string `id` under the name `key`.
pub open spec fn holds_id(doc: JsonView, key: Seq<char>, id: Seq<char>) -> bool {
    doc.str_field(key) == Some(id)
}

/// Whether `at` is the place of the first document identified by `id`.
pub open spec fn is_first_with_id(
    items: Seq<JsonView>,
    key: Seq<char>,
    id: Seq<char>,
    at: int,
) -> bool {
    &&& 0 <= at < items.len()
    &&& holds_id(items[at], key, id)
    &&& forall|j: int| 0 <= j < at ==> !holds_id(#[trigger] items[j], key, id)
}

/// Whether no document in the list is identified by `id`.
pub open spec fn none_with_id(items: Seq<JsonView>, key: Seq<char>, id: Seq<char>) -> bool {
    forall|j: int| 0 <= j < items.len() ==> !holds_id(#[trigger] items[j], key, id)
}

/// The place of the first document identified by `id`.
pub open spec fn first_with_id(items: Seq<JsonView>, key: Seq<char>, id: Seq<char>) -> Option<int> {
    if exists|at: int| is_first_with_id(items, key, id, at) {
        Some(choose|at: int| is_first_with_id(items, key, id, at))
    } else {
        None
    }
}

/// The list after `doc` was saved: it takes the place of the first document
/// with its identifier, or goes to the end where there is none. A document
/// without an identifier is not saved.
pub open spec fn upserted(items: Seq<JsonView>, key: Seq<char>, doc: JsonView) -> Seq<JsonView> {
    match doc.str_field(key) {
        Some(id) => match first_with_id(items, key, id) {
            Some(at) => items.update(at, doc),
            None => items.push(doc),
        },
        None => items,
    }
}

/// The list without the documents identified by `id`, the others in order.
pub open spec fn without_id(items: Seq<JsonView>, key: Seq<char>, id: Seq<char>) -> Seq<JsonView> {
    items.filter(|doc: JsonView| !holds_id(doc, key, id))
}

/// The documents that carry the string `value` under the name `key`, in
/// order.
pub open spec fn having(items: Seq<JsonView>, key: Seq<char>, value: Seq<char>) -> Seq<JsonView> {
    items.filter(|doc: JsonView| holds_id(doc, key, value))
}

/// Whether no identifier occurs twice in the list. Documents without an
/// identifier do not count.
pub open spec fn unique_ids(items: Seq<JsonView>, key: Seq<char>) -> bool {
    forall|i: int, j: int|
        0 <= i < j < items.len() && (#[trigger] items[i]).str_field(key) is Some ==> items[i].str_field(
            key,
        ) != (#[trigger] items[j]).str_field(key)
}

/// How many documents in the list are identified by `id`.
pub open spec fn count_with_id(items: Seq<JsonView>, key: Seq<char>, id: Seq<char>) -> nat {
    having(items, key, id).len()
}

/// Whether one of the items is the string `text`.
pub open spec fn any_is_text(items: Seq<JsonView>, text: Seq<char>) -> bool {
    exists|i: int| 0 <= i < items.len() && (#[trigger] items[i]).as_str() == Some(text)
}

/// There is at most one first place.
pub proof fn lemma_first_with_id(items: Seq<JsonView>, key: Seq<char>, id: Seq<char>, at: int)
    requires
        is_first_with_id(items, key, id, at),
    ensures
        first_with_id(items, key, id) == Some(at),
{
    let chosen = choose|at: int| is_first_with_id(items, key, id, at);
    assert(is_first_with_id(items, key, id, chosen));
    if chosen < at {
        assert(!holds_id(items[chosen], key, id));
    }
    if at < chosen {
        assert(!holds_id(items[at], key, id));
    }
}

/// Where no document holds the identifier there is no first place.
pub proof fn lemma_none_with_id(items: Seq<JsonView>, key: Seq<char>, id: Seq<char>)
    requires
        none_with_id(items, key, id),
    ensures
        first_with_id(items, key, id) is None,
{
    if exists|at: int| is_first_with_id(items, key, id, at) {
        let at = choose|at: int| is_first_with_id(items, key, id, at);
        assert(!holds_id(items[at], key, id));
    }
}

/// A first place, where there is one, holds the identifier and nothing before
/// it does; where there is none, no document holds it.
pub proof fn lemma_first_with_id_is_first(items: Seq<JsonView>, key: Seq<char>, id: Seq<char>)
    ensures
        match first_with_id(items, key, id) {
            Some(at) => is_first_with_id(items, key, id, at),
            None => none_with_id(items, key, id),
        },
{
    if exists|at: int| is_first_with_id(items, key, id, at) {
    } else {
        assert forall|j: int| 0 <= j < items.len() implies !holds_id(
            #[trigger] items[j],
            key,
            id,
        ) by {
            if holds_id(items[j], key, id) {
                lemma_some_first(items, key, id, j);
            }
        }
    }
}

/// Where some document holds the identifier, one of them is the first.
proof fn lemma_some_first(items: Seq<JsonView>, key: Seq<char>, id: Seq<char>, at: int)
    requires
        0 <= at < items.len(),
        holds_id(items[at], key, id),
    ensures
        exists|first: int| is_first_with_id(items, key, id, first),
    decreases at,
{
    if exists|j: int| 0 <= j < at && holds_id(items[j], key, id) {
        let j = choose|j: int| 0 <= j < at && holds_id(items[j], key, id);
        lemma_some_first(items, key, id, j);
    } else {
        assert(is_first_with_id(items, key, id, at));
    }
}

/// One more document at the end of a list: it is kept or dropped by the
/// filter on its own, the rest is filtered as before.
pub proof fn lemma_filter_step(items: Seq<JsonView>, keep: spec_fn(JsonView) -> bool, n: int)
    requires
        0 <= n < items.len(),
    ensures
        items.take(n + 1).filter(keep) == if keep(items[n]) {
            items.take(n).filter(keep).push(items[n])
        } else {
            items.take(n).filter(keep)
        },
{
    reveal(Seq::filter);
    assert(items.take(n + 1).drop_last() =~= items.take(n));
}

/// Whether the document carries the string `id` under the name `key`.
pub fn has_id(doc: &Json, key: &str, id: &str) -> (held: bool)
    ensures
        held == holds_id(doc@, key@, id@),
{
    match doc.str_field(key) {
        Some(text) => same_text(text, id),
        None => false,
    }
}

/// Whether one of the items is the string `text`.
pub fn holds_text(items: &Vec<Json>, text: &str) -> (held: bool)
    ensures
        held == any_is_text(items_view(items@), text@),
{
    let mut i: usize = 0;
    while i < items.len()
        invariant
            i <= items.len(),
            forall|j: int| 0 <= j < i ==> (#[trigger] items_view(items@)[j]).as_str() != Some(text@),
        decreases items.len() - i,
    {
        let found = match items[i].as_str() {
            Some(item) => same_text(item, text),
            None => false,
        };
        if found {
            assert(items_view(items@)[i as int].as_str() == Some(text@));
            return true;
        }
        i = i + 1;
    }
    false
}

/// The place of the first document identified by `id`.
pub fn find_by_id(items: &Vec<Json>, key: &str, id: &str) -> (found: Option<usize>)
    ensures
        match found {
            Some(at) => first_with_id(items_view(items@), key@, id@) == Some(at as int),
            None => first_with_id(items_view(items@), key@, id@) is None,
        },
{
    let mut i: usize = 0;
    while i < items.len()
        invariant
            i <= items.len(),
            forall|j: int| 0 <= j < i ==> !holds_id(#[trigger] items_view(items@)[j], key@, id@),
        decreases items.len() - i,
    {
        if has_id(&items[i], key, id) {
            proof {
                lemma_first_with_id(items_view(items@), key@, id@, i as int);
            }
            return Some(i);
        }
        i = i + 1;
    }
    proof {
        lemma_none_with_id(items_view(items@), key@, id@);
    }
    None
}

/// Saves `doc` into the list: it replaces the first document with its
/// identifier, or is added at the end where there is none. A document without
/// an identifier is not saved, and `false` is handed back.
pub fn upsert(items: &mut Vec<Json>, key: &str, doc: Json) -> (saved: bool)
    ensures
        saved == doc@.str_field(key@) is Some,
        items_view(final(items)@) == upserted(items_view(old(items)@), key@, doc@),
{
    let place = match doc.str_field(key) {
        Some(id) => Some(find_by_id(items, key, id)),
        None => None,
    };
    match place {
        Some(Some(at)) => {
            items.set(at, doc);
            assert(items_view(items@) =~= items_view(old(items)@).update(at as int, doc@));
            true
        },
        Some(None) => {
            items.push(doc);
            assert(items_view(items@) =~= items_view(old(items)@).push(doc@));
            true
        },
        None => false,
    }
}

/// A copy of the list without the documents identified by `id`.
pub fn remove_by_id(items: &Vec<Json>, key: &str, id: &str) -> (kept: Vec<Json>)
    ensures
        items_view(kept@) == without_id(items_view(items@), key@, id@),
{
    let ghost all = items_view(items@);
    let ghost keep = |doc: JsonView| !holds_id(doc, key@, id@);
    let mut kept: Vec<Json> = Vec::new();
    let mut i: usize = 0;
    proof {
        reveal(Seq::filter);
        assert(all.take(0).filter(keep) =~= Seq::<JsonView>::empty());
        assert(items_view(kept@) =~= Seq::<JsonView>::empty());
    }
    while i < items.len()
        invariant
            i <= items.len(),
            all == items_view(items@),
            keep == |doc: JsonView| !holds_id(doc, key@, id@),
            items_view(kept@) == all.take(i as int).filter(keep),
        decreases items.len() - i,
    {
        proof {
            lemma_filter_step(all, keep, i as int);
        }
        if !has_id(&items[i], key, id) {
            let ghost before = kept@;
            kept.push(items[i].duplicate());
            assert(items_view(kept@) =~= items_view(before).push(all[i as int]));
        }
        i = i + 1;
    }
    assert(all.take(items.len() as int) =~= all);
    kept
}

/// A copy of the documents that carry the string `value` under the name
/// `key`.
pub fn select_by_field(items: &Vec<Json>, key: &str, value: &str) -> (chosen: Vec<Json>)
    ensures
        items_view(chosen@) == having(items_view(items@), key@, value@),
{
    let ghost all = items_view(items@);
    let ghost keep = |doc: JsonView| holds_id(doc, key@, value@);
    let mut chosen: Vec<Json> = Vec::new();
    let mut i: usize = 0;
    proof {
        reveal(Seq::filter);
        assert(all.take(0).filter(keep) =~= Seq::<JsonView>::empty());
        assert(items_view(chosen@) =~= Seq::<JsonView>::empty());
    }
    while i < items.len()
        invariant
            i <= items.len(),
            all == items_view(items@),
            keep == |doc: JsonView| holds_id(doc, key@, value@),
            items_view(chosen@) == all.take(i as int).filter(keep),
        decreases items.len() - i,
    {
        proof {
            lemma_filter_step(all, keep, i as int);
        }
        if has_id(&items[i], key, value) {
            let ghost before = chosen@;
            chosen.push(items[i].duplicate());
            assert(items_view(chosen@) =~= items_view(before).push(all[i as int]));
        }
        i = i + 1;
    }
    assert(all.take(items.len() as int) =~= all);
    chosen
}

/// Two lists of one length whose documents pass a filter at the same places
/// keep the same number of documents.
proof fn lemma_filter_same_places(a: Seq<JsonView>, b: Seq<JsonView>, keep: spec_fn(JsonView) -> bool)
    requires
        a.len() == b.len(),
        forall|j: int| 0 <= j < a.len() ==> keep(#[trigger] a[j]) == keep(b[j]),
    ensures
        a.filter(keep).len() == b.filter(keep).len(),
    decreases a.len(),
{
    reveal(Seq::filter);
    if a.len() > 0 {
        let ra = a.drop_last();
        let rb = b.drop_last();
        assert forall|j: int| 0 <= j < ra.len() implies keep(#[trigger] ra[j]) == keep(rb[j]) by {
            assert(ra[j] == a[j]);
            assert(rb[j] == b[j]);
        }
        lemma_filter_same_places(ra, rb, keep);
        assert(keep(a[a.len() - 1]) == keep(b[a.len() - 1]));
    }
}

/// A filter that no document passes keeps nothing; one that every document
/// passes keeps the list as it is.
proof fn lemma_filter_all_or_none(items: Seq<JsonView>, keep: spec_fn(JsonView) -> bool)
    ensures
        (forall|j: int| 0 <= j < items.len() ==> !keep(#[trigger] items[j])) ==> items.filter(keep)
            == Seq::<JsonView>::empty(),
        (forall|j: int| 0 <= j < items.len() ==> keep(#[trigger] items[j])) ==> items.filter(keep)
            == items,
    decreases items.len(),
{
    reveal(Seq::filter);
    if items.len() > 0 {
        let rest = items.drop_last();
        lemma_filter_all_or_none(rest, keep);
        if forall|j: int| 0 <= j < items.len() ==> !keep(#[trigger] items[j]) {
            assert forall|j: int| 0 <= j < rest.len() implies !keep(#[trigger] rest[j]) by {
                assert(rest[j] == items[j]);
            }
            assert(!keep(items[items.len() - 1]));
        }
        if forall|j: int| 0 <= j < items.len() ==> keep(#[trigger] items[j]) {
            assert forall|j: int| 0 <= j < rest.len() implies keep(#[trigger] rest[j]) by {
                assert(rest[j] == items[j]);
            }
            assert(keep(items[items.len() - 1]));
            assert(rest.push(items.last()) =~= items);
        }
    } else {
        assert(items.filter(keep) =~= Seq::<JsonView>::empty());
    }
}

/// Saving a document a second time changes nothing: the list is the one
/// that the first saving left.
pub proof fn law_upsert_idempotent(items: Seq<JsonView>, key: Seq<char>, doc: JsonView)
    ensures
        upserted(upserted(items, key, doc), key, doc) == upserted(items, key, doc),
{
    if doc.str_field(key) is Some {
        law_upsert_latest(items, key, doc, doc);
    }
}

/// Of two documents with one identifier that are saved one after the other,
/// the later one is what the list holds: the list is the same as if only the
/// later one had been saved.
pub proof fn law_upsert_latest(
    items: Seq<JsonView>,
    key: Seq<char>,
    earlier: JsonView,
    later: JsonView,
)
    requires
        earlier.str_field(key) is Some,
        earlier.str_field(key) == later.str_field(key),
    ensures
        upserted(upserted(items, key, earlier), key, later) == upserted(items, key, later),
{
    let id = earlier.str_field(key)->0;
    let once = upserted(items, key, earlier);
    lemma_first_with_id_is_first(items, key, id);
    match first_with_id(items, key, id) {
        Some(at) => {
            assert(once == items.update(at, earlier));
            assert(is_first_with_id(once, key, id, at)) by {
                assert forall|j: int| 0 <= j < at implies !holds_id(#[trigger] once[j], key, id) by {
                    assert(once[j] == items[j]);
                }
            }
            lemma_first_with_id(once, key, id, at);
            assert(once.update(at, later) =~= items.update(at, later));
        },
        None => {
            let at = items.len() as int;
            assert(once == items.push(earlier));
            assert(is_first_with_id(once, key, id, at)) by {
                assert forall|j: int| 0 <= j < at implies !holds_id(#[trigger] once[j], key, id) by {
                    assert(once[j] == items[j]);
                }
            }
            lemma_first_with_id(once, key, id, at);
            assert(once.update(at, later) =~= items.push(later));
        },
    }
}

/// Where at most one document held the identifier before, exactly one holds
/// it after a saving, and that one is the document saved.
pub proof fn law_upsert_one_entry(items: Seq<JsonView>, key: Seq<char>, doc: JsonView)
    requires
        doc.str_field(key) is Some,
        count_with_id(items, key, doc.str_field(key)->0) <= 1,
    ensures
        count_with_id(upserted(items, key, doc), key, doc.str_field(key)->0) == 1,
        having(upserted(items, key, doc), key, doc.str_field(key)->0) == seq![doc],
{
    let id = doc.str_field(key)->0;
    let keep = |d: JsonView| holds_id(d, key, id);
    let next = upserted(items, key, doc);
    lemma_first_with_id_is_first(items, key, id);
    match first_with_id(items, key, id) {
        Some(at) => {
            assert(next == items.update(at, doc));
            assert forall|j: int| 0 <= j < items.len() implies keep(#[trigger] items[j]) == keep(
                next[j],
            ) by {}
            lemma_filter_same_places(items, next, keep);
            items.lemma_filter_contains(keep, at);
            assert(items.filter(keep).len() >= 1);
            assert(next.filter(keep).len() == 1);
            assert(keep(next[at]));
            next.lemma_filter_contains(keep, at);
            let k = choose|k: int| 0 <= k < next.filter(keep).len() && next.filter(keep)[k] == next[at];
            assert(next.filter(keep) =~= seq![doc]);
        },
        None => {
            assert(next == items.push(doc));
            lemma_filter_all_or_none(items, keep);
            reveal(Seq::filter);
            assert(next.drop_last() =~= items);
            assert(next.filter(keep) =~= seq![doc]);
        },
    }
}

/// Deleting an identifier that no document holds leaves the list as it is.
pub proof fn law_delete_absent(items: Seq<JsonView>, key: Seq<char>, id: Seq<char>)
    requires
        none_with_id(items, key, id),
    ensures
        without_id(items, key, id) == items,
{
    lemma_filter_all_or_none(items, |doc: JsonView| !holds_id(doc, key, id));
}

/// After a deletion no document holds the identifier, so deleting it once
/// more changes nothing.
pub proof fn law_delete_idempotent(items: Seq<JsonView>, key: Seq<char>, id: Seq<char>)
    ensures
        none_with_id(without_id(items, key, id), key, id),
        without_id(without_id(items, key, id), key, id) == without_id(items, key, id),
{
    let keep = |doc: JsonView| !holds_id(doc, key, id);
    let kept = items.filter(keep);
    assert forall|j: int| 0 <= j < kept.len() implies !holds_id(#[trigger] kept[j], key, id) by {
        items.lemma_filter_pred(keep, j);
    }
    law_delete_absent(kept, key, id);
}

/// Saving keeps the identifiers apart: where no identifier occurred twice
/// before, none does after.
pub proof fn law_upsert_keeps_unique(items: Seq<JsonView>, key: Seq<char>, doc: JsonView)
    requires
        unique_ids(items, key),
    ensures
        unique_ids(upserted(items, key, doc), key),
{
    match doc.str_field(key) {
        Some(id) => {
            let next = upserted(items, key, doc);
            lemma_first_with_id_is_first(items, key, id);
            match first_with_id(items, key, id) {
                Some(at) => {
                    assert forall|i: int, j: int|
                        0 <= i < j < next.len() && (#[trigger] next[i]).str_field(key)
                            is Some implies next[i].str_field(key) != (#[trigger] next[j]).str_field(
                        key,
                    ) by {
                        if i == at {
                            assert(items[at].str_field(key) != items[j].str_field(key));
                        } else if j == at {
                            assert(items[i].str_field(key) != items[at].str_field(key));
                        } else {
                            assert(items[i].str_field(key) != items[j].str_field(key));
                        }
                    }
                },
                None => {
                    assert forall|i: int, j: int|
                        0 <= i < j < next.len() && (#[trigger] next[i]).str_field(key)
                            is Some implies next[i].str_field(key) != (#[trigger] next[j]).str_field(
                        key,
                    ) by {
                        if j == items.len() {
                            assert(!holds_id(items[i], key, id));
                        } else {
                            assert(items[i].str_field(key) != items[j].str_field(key));
                        }
                    }
                },
            }
        },
        None => {},
    }
}

/// Filtering keeps the identifiers apart.
proof fn lemma_filter_keeps_unique(
    items: Seq<JsonView>,
    key: Seq<char>,
    keep: spec_fn(JsonView) -> bool,
)
    requires
        unique_ids(items, key),
    ensures
        unique_ids(items.filter(keep), key),
    decreases items.len(),
{
    reveal(Seq::filter);
    if items.len() > 0 {
        let rest = items.drop_last();
        let last = items.last();
        assert(unique_ids(rest, key)) by {
            assert forall|i: int, j: int|
                0 <= i < j < rest.len() && (#[trigger] rest[i]).str_field(key)
                    is Some implies rest[i].str_field(key) != (#[trigger] rest[j]).str_field(key) by {
                assert(rest[i] == items[i]);
                assert(rest[j] == items[j]);
            }
        }
        lemma_filter_keeps_unique(rest, key, keep);
        if keep(last) {
            let kept = rest.filter(keep);
            let next = kept.push(last);
            assert forall|i: int, j: int|
                0 <= i < j < next.len() && (#[trigger] next[i]).str_field(key)
                    is Some implies next[i].str_field(key) != (#[trigger] next[j]).str_field(key) by {
                if j == kept.len() {
                    assert(kept.contains(kept[i]));
                    rest.lemma_filter_contains_rev(keep, kept[i]);
                    let k = choose|k: int| 0 <= k < rest.len() && rest[k] == kept[i];
                    assert(items[k] == kept[i]);
                    assert(items[k].str_field(key) != items[items.len() - 1].str_field(key));
                } else {
                    assert(kept[i].str_field(key) != kept[j].str_field(key));
                }
            }
        }
    }
}

/// Deleting keeps the identifiers apart.
pub proof fn law_delete_keeps_unique(items: Seq<JsonView>, key: Seq<char>, id: Seq<char>)
    requires
        unique_ids(items, key),
    ensures
        unique_ids(without_id(items, key, id), key),
{
    lemma_filter_keeps_unique(items, key, |doc: JsonView| !holds_id(doc, key, id));
}

} // verus!
