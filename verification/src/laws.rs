//! The engine's guarantees, stated and proved over the specification-level
//! transitions: the aggregate invariant is preserved by every operation,
//! cascading deletes are complete, repeated deletes fail, palette
//! exhaustion is final, and no operation mutates a stranger's annotation.

use vstd::prelude::*;

use crate::engine::{
    labels_without, spec_create_label, spec_create_token, spec_delete_label, spec_delete_token,
    spec_update_label, the_label_index, tokens_without, tokens_without_label, with_label,
};
use crate::error::{AnnotationError, ErrorKind};
use crate::model::{
    color_used, has_label_id, has_label_name, has_token_id, token_overlapped, AnnotationView,
    LabelView, Token,
};
use crate::palette::{color_names, first_free_from, recognized_color};

verus! {

/// Removing a label id from a well-formed label collection keeps it
/// well-formed, removes every label carrying the id, keeps every other
/// label, and invents nothing.
pub proof fn lemma_labels_without_preserves(labels: Seq<LabelView>, id: u64)
    requires
        forall|i: int| 0 <= i < labels.len() ==> (#[trigger] labels[i].id) is Some,
        forall|i: int, j: int| 0 <= i < j < labels.len() ==> labels[i].id != labels[j].id,
        forall|i: int, j: int| 0 <= i < j < labels.len() ==> labels[i].name != labels[j].name,
        forall|i: int, j: int| 0 <= i < j < labels.len() ==> labels[i].color != labels[j].color,
        forall|i: int| 0 <= i < labels.len() ==> recognized_color(#[trigger] labels[i].color),
    ensures
        labels_without(labels, id).len() <= labels.len(),
        forall|i: int|
            0 <= i < labels_without(labels, id).len()
                ==> (#[trigger] labels_without(labels, id)[i].id) is Some,
        forall|i: int, j: int|
            0 <= i < j < labels_without(labels, id).len()
                ==> labels_without(labels, id)[i].id != labels_without(labels, id)[j].id,
        forall|i: int, j: int|
            0 <= i < j < labels_without(labels, id).len()
                ==> labels_without(labels, id)[i].name != labels_without(labels, id)[j].name,
        forall|i: int, j: int|
            0 <= i < j < labels_without(labels, id).len()
                ==> labels_without(labels, id)[i].color != labels_without(labels, id)[j].color,
        forall|i: int|
            0 <= i < labels_without(labels, id).len()
                ==> recognized_color(#[trigger] labels_without(labels, id)[i].color),
        forall|i: int|
            0 <= i < labels_without(labels, id).len()
                ==> (#[trigger] labels_without(labels, id)[i].id) != Some(id),
        forall|i: int|
            0 <= i < labels_without(labels, id).len()
                ==> labels.contains(#[trigger] labels_without(labels, id)[i]),
        forall|l: LabelView|
            labels.contains(l) && l.id != Some(id) ==> labels_without(labels, id).contains(l),
    decreases labels.len(),
{
    let kept = labels_without(labels, id);
    if labels.len() == 0 {
        assert(kept =~= Seq::<LabelView>::empty());
    } else {
        let front = labels.drop_last();
        let last = labels.last();
        lemma_labels_without_preserves(front, id);
        let kept_front = labels_without(front, id);
        assert(forall|i: int|
            0 <= i < kept_front.len() ==> front.contains(#[trigger] kept_front[i]));
        assert(forall|l: LabelView| front.contains(l) ==> labels.contains(l)) by {
            assert(forall|m: int| 0 <= m < front.len() ==> front[m] == labels[m]);
        }
        if last.id != Some(id) {
            assert(kept == kept_front.push(last));
            assert(labels.contains(last)) by {
                assert(labels[labels.len() - 1] == last);
            }
            assert forall|i: int| 0 <= i < kept_front.len() implies kept_front[i].id != last.id
                && kept_front[i].name != last.name && kept_front[i].color != last.color by {
                let m = choose|m: int| 0 <= m < front.len() && front[m] == kept_front[i];
                assert(labels[m] == kept_front[i]);
                assert(labels[m].id != labels[labels.len() - 1].id);
            }
        } else {
            assert(kept == kept_front);
        }
        assert forall|l: LabelView|
            labels.contains(l) && l.id != Some(id) implies kept.contains(l) by {
            let m = choose|m: int| 0 <= m < labels.len() && labels[m] == l;
            if m < labels.len() - 1 {
                assert(front[m] == l);
                assert(front.contains(l));
                assert(kept_front.contains(l));
                let p = choose|p: int| 0 <= p < kept_front.len() && kept_front[p] == l;
                assert(kept[p] == l);
            } else {
                assert(l == last);
                assert(kept[kept.len() - 1] == last);
            }
        }
    }
}

/// Removing the tokens that reference a label keeps a well-formed token
/// collection well-formed, removes every reference to the label, keeps
/// every other token, and invents nothing.
pub proof fn lemma_tokens_without_label_preserves(tokens: Seq<Token>, id: u64)
    requires
        forall|i: int| 0 <= i < tokens.len() ==> (#[trigger] tokens[i].id) is Some,
        forall|i: int, j: int| 0 <= i < j < tokens.len() ==> tokens[i].id != tokens[j].id,
        forall|i: int, j: int|
            0 <= i < j < tokens.len()
                ==> !token_overlapped(tokens[i], tokens[j].start, tokens[j].end),
    ensures
        tokens_without_label(tokens, id).len() <= tokens.len(),
        forall|i: int|
            0 <= i < tokens_without_label(tokens, id).len()
                ==> (#[trigger] tokens_without_label(tokens, id)[i].id) is Some,
        forall|i: int, j: int|
            0 <= i < j < tokens_without_label(tokens, id).len()
                ==> tokens_without_label(tokens, id)[i].id != tokens_without_label(tokens, id)[j].id,
        forall|i: int, j: int|
            0 <= i < j < tokens_without_label(tokens, id).len() ==> !token_overlapped(
                tokens_without_label(tokens, id)[i],
                tokens_without_label(tokens, id)[j].start,
                tokens_without_label(tokens, id)[j].end,
            ),
        forall|i: int|
            0 <= i < tokens_without_label(tokens, id).len()
                ==> (#[trigger] tokens_without_label(tokens, id)[i].label) != id,
        forall|i: int|
            0 <= i < tokens_without_label(tokens, id).len()
                ==> tokens.contains(#[trigger] tokens_without_label(tokens, id)[i]),
        forall|t: Token|
            tokens.contains(t) && t.label != id ==> tokens_without_label(tokens, id).contains(t),
    decreases tokens.len(),
{
    let kept = tokens_without_label(tokens, id);
    if tokens.len() == 0 {
        assert(kept =~= Seq::<Token>::empty());
    } else {
        let front = tokens.drop_last();
        let last = tokens.last();
        lemma_tokens_without_label_preserves(front, id);
        let kept_front = tokens_without_label(front, id);
        assert(forall|m: int| 0 <= m < front.len() ==> front[m] == tokens[m]);
        if last.label != id {
            assert(kept == kept_front.push(last));
            assert(tokens.contains(last)) by {
                assert(tokens[tokens.len() - 1] == last);
            }
            assert forall|i: int| 0 <= i < kept_front.len() implies kept_front[i].id != last.id
                && !token_overlapped(kept_front[i], last.start, last.end) by {
                let m = choose|m: int| 0 <= m < front.len() && front[m] == kept_front[i];
                assert(tokens[m] == kept_front[i]);
                assert(tokens[m].id != tokens[tokens.len() - 1].id);
                assert(!token_overlapped(tokens[m], last.start, last.end));
            }
        } else {
            assert(kept == kept_front);
        }
        assert forall|t: Token| tokens.contains(t) && t.label != id implies kept.contains(t) by {
            let m = choose|m: int| 0 <= m < tokens.len() && tokens[m] == t;
            if m < tokens.len() - 1 {
                assert(front[m] == t);
                assert(front.contains(t));
                assert(kept_front.contains(t));
                let p = choose|p: int| 0 <= p < kept_front.len() && kept_front[p] == t;
                assert(kept[p] == t);
            } else {
                assert(t == last);
                assert(kept[kept.len() - 1] == last);
            }
        }
    }
}

/// Removing a token id from a well-formed token collection keeps it
/// well-formed, removes every token carrying the id, and invents nothing.
pub proof fn lemma_tokens_without_preserves(tokens: Seq<Token>, id: u64)
    requires
        forall|i: int| 0 <= i < tokens.len() ==> (#[trigger] tokens[i].id) is Some,
        forall|i: int, j: int| 0 <= i < j < tokens.len() ==> tokens[i].id != tokens[j].id,
        forall|i: int, j: int|
            0 <= i < j < tokens.len()
                ==> !token_overlapped(tokens[i], tokens[j].start, tokens[j].end),
    ensures
        tokens_without(tokens, id).len() <= tokens.len(),
        forall|i: int|
            0 <= i < tokens_without(tokens, id).len()
                ==> (#[trigger] tokens_without(tokens, id)[i].id) is Some,
        forall|i: int, j: int|
            0 <= i < j < tokens_without(tokens, id).len()
                ==> tokens_without(tokens, id)[i].id != tokens_without(tokens, id)[j].id,
        forall|i: int, j: int|
            0 <= i < j < tokens_without(tokens, id).len() ==> !token_overlapped(
                tokens_without(tokens, id)[i],
                tokens_without(tokens, id)[j].start,
                tokens_without(tokens, id)[j].end,
            ),
        forall|i: int|
            0 <= i < tokens_without(tokens, id).len()
                ==> (#[trigger] tokens_without(tokens, id)[i].id) != Some(id),
        forall|i: int|
            0 <= i < tokens_without(tokens, id).len()
                ==> tokens.contains(#[trigger] tokens_without(tokens, id)[i]),
    decreases tokens.len(),
{
    let kept = tokens_without(tokens, id);
    if tokens.len() == 0 {
        assert(kept =~= Seq::<Token>::empty());
    } else {
        let front = tokens.drop_last();
        let last = tokens.last();
        lemma_tokens_without_preserves(front, id);
        let kept_front = tokens_without(front, id);
        assert(forall|m: int| 0 <= m < front.len() ==> front[m] == tokens[m]);
        if last.id != Some(id) {
            assert(kept == kept_front.push(last));
            assert(tokens.contains(last)) by {
                assert(tokens[tokens.len() - 1] == last);
            }
            assert forall|i: int| 0 <= i < kept_front.len() implies kept_front[i].id != last.id
                && !token_overlapped(kept_front[i], last.start, last.end) by {
                let m = choose|m: int| 0 <= m < front.len() && front[m] == kept_front[i];
                assert(tokens[m] == kept_front[i]);
                assert(tokens[m].id != tokens[tokens.len() - 1].id);
                assert(!token_overlapped(tokens[m], last.start, last.end));
            }
        } else {
            assert(kept == kept_front);
        }
    }
}

/// What the palette allocator promises: an allocated color is a catalogue
/// color that no label uses yet, and exhaustion means every catalogue entry
/// from the scan position on is used.
pub proof fn lemma_first_free_properties(labels: Seq<LabelView>, k: int)
    requires
        0 <= k,
    ensures
        first_free_from(labels, k) matches Some(c) ==> recognized_color(c) && !color_used(
            labels,
            c,
        ),
        first_free_from(labels, k) is None ==> forall|j: int|
            k <= j < color_names().len() ==> color_used(labels, #[trigger] color_names()[j]),
    decreases color_names().len() - k,
{
    if k < 0 || k >= color_names().len() {
    } else {
        lemma_first_free_properties(labels, k + 1);
        if !color_used(labels, color_names()[k]) {
            assert(recognized_color(color_names()[k])) by {
                assert(color_names()[k] == color_names()[k]);
            }
        }
    }
}

/// When every catalogue color is used, the allocator finds nothing.
pub proof fn lemma_all_used_exhausts(labels: Seq<LabelView>, k: int)
    requires
        forall|j: int| 0 <= j < color_names().len() ==> color_used(labels, #[trigger] color_names()[j]),
        0 <= k,
    ensures
        first_free_from(labels, k) is None,
    decreases color_names().len() - k,
{
    if k >= color_names().len() {
    } else {
        lemma_all_used_exhausts(labels, k + 1);
    }
}

/// Creating a label preserves the aggregate invariant: with the new label
/// appended, names, colors and ids stay pairwise distinct, every color
/// stays a catalogue color, and every token still resolves.
pub proof fn lemma_create_label_preserves_wf(
    a: AnnotationView,
    caller: u64,
    name: Seq<char>,
    color: Option<Seq<char>>,
    new_id: u64,
)
    requires
        a.wf(),
        !has_label_id(a.labels, new_id),
    ensures
        spec_create_label(a, caller, name, color, new_id) matches Ok(v) ==> v.wf(),
{
    match spec_create_label(a, caller, name, color, new_id) {
        Err(_) => {},
        Ok(v) => {
        let picked = v.labels.last().color;
        match color {
            Some(c) => {
                assert(picked == c);
            },
            None => {
                lemma_first_free_properties(a.labels, 0);
                assert(recognized_color(picked) && !color_used(a.labels, picked));
            },
        }
        assert(v.labels == a.labels.push(LabelView { id: Some(new_id), name, color: picked }));
        assert(v.labels_wf()) by {
            assert(forall|i: int| 0 <= i < a.labels.len() ==> v.labels[i] == a.labels[i]);
            assert(forall|i: int| 0 <= i < a.labels.len() ==> a.labels[i].id != Some(new_id));
            assert(forall|i: int| 0 <= i < a.labels.len() ==> a.labels[i].name != name);
            assert(forall|i: int| 0 <= i < a.labels.len() ==> a.labels[i].color != picked);
        }
        assert(v.tokens_wf()) by {
            assert forall|i: int| 0 <= i < v.tokens.len() implies has_label_id(
                v.labels,
                #[trigger] v.tokens[i].label,
            ) by {
                let j = choose|j: int|
                    0 <= j < a.labels.len() && a.labels[j].id == Some(a.tokens[i].label);
                assert(v.labels[j].id == Some(v.tokens[i].label));
            }
        }
    }
    }
}

/// Updating a label preserves the aggregate invariant: the renamed or
/// recolored label stays unique among its siblings, its id is unchanged,
/// and every token still resolves.
pub proof fn lemma_update_label_preserves_wf(
    a: AnnotationView,
    caller: u64,
    label_id: u64,
    name: Option<Seq<char>>,
    color: Option<Seq<char>>,
)
    requires
        a.wf(),
    ensures
        spec_update_label(a, caller, label_id, name, color) matches Ok(v) ==> v.wf(),
{
    match spec_update_label(a, caller, label_id, name, color) {
        Err(_) => {},
        Ok(v) => {
        let idx = the_label_index(a.labels, label_id);
        assert(0 <= idx < a.labels.len() && a.labels[idx].id == Some(label_id));
        let updated = v.labels[idx];
        assert(updated.id == a.labels[idx].id);
        assert(forall|i: int|
            0 <= i < a.labels.len() && i != idx ==> v.labels[i] == a.labels[i]);
        assert(v.labels_wf()) by {
            match name {
                Some(n) => {
                    assert(updated.name == n);
                    assert(forall|i: int|
                        0 <= i < a.labels.len() && i != idx ==> a.labels[i].name != n);
                },
                None => {
                    assert(updated.name == a.labels[idx].name);
                },
            }
            match color {
                Some(c) => {
                    assert(updated.color == c);
                    assert(forall|i: int|
                        0 <= i < a.labels.len() && i != idx ==> a.labels[i].color != c);
                },
                None => {
                    assert(updated.color == a.labels[idx].color);
                },
            }
        }
        assert(v.tokens_wf()) by {
            assert forall|i: int| 0 <= i < v.tokens.len() implies has_label_id(
                v.labels,
                #[trigger] v.tokens[i].label,
            ) by {
                let j = choose|j: int|
                    0 <= j < a.labels.len() && a.labels[j].id == Some(a.tokens[i].label);
                assert(v.labels[j].id == Some(v.tokens[i].label));
            }
        }
    }
    }
}

/// Deleting a label preserves the aggregate invariant: the cascade removes
/// the label and every token referencing it, and what stays is unchanged,
/// pairwise distinct, and resolvable.
pub proof fn lemma_delete_label_preserves_wf(a: AnnotationView, caller: u64, label_id: u64)
    requires
        a.wf(),
    ensures
        spec_delete_label(a, caller, label_id) matches Ok(v) ==> v.wf(),
{
    match spec_delete_label(a, caller, label_id) {
        Err(_) => {},
        Ok(v) => {
        lemma_labels_without_preserves(a.labels, label_id);
        lemma_tokens_without_label_preserves(a.tokens, label_id);
        assert(v.labels == labels_without(a.labels, label_id));
        assert(v.tokens == tokens_without_label(a.tokens, label_id));
        assert(v.labels_wf());
        assert(v.tokens_wf()) by {
            let kept = tokens_without_label(a.tokens, label_id);
            assert(forall|i: int| 0 <= i < kept.len() ==> (#[trigger] kept[i].id) is Some);
            assert(forall|i: int, j: int| 0 <= i < j < kept.len() ==> kept[i].id != kept[j].id);
            assert(forall|i: int, j: int|
                0 <= i < j < kept.len() ==> !token_overlapped(kept[i], kept[j].start, kept[j].end));
            assert forall|i: int|
                0 <= i < v.tokens.len() implies 0 <= #[trigger] v.tokens[i].start
                < v.tokens[i].end < v.content.len() by {
                assert(a.tokens.contains(v.tokens[i]));
                let m = choose|m: int| 0 <= m < a.tokens.len() && a.tokens[m] == v.tokens[i];
                assert(0 <= a.tokens[m].start < a.tokens[m].end < a.content.len());
            }
            assert forall|i: int| 0 <= i < v.tokens.len() implies has_label_id(
                v.labels,
                #[trigger] v.tokens[i].label,
            ) by {
                assert(a.tokens.contains(v.tokens[i]));
                let m = choose|m: int| 0 <= m < a.tokens.len() && a.tokens[m] == v.tokens[i];
                assert(has_label_id(a.labels, a.tokens[m].label));
                let j = choose|j: int|
                    0 <= j < a.labels.len() && a.labels[j].id == Some(a.tokens[m].label);
                assert(a.labels.contains(a.labels[j]));
                assert(v.tokens[i].label != label_id);
                assert(a.labels[j].id != Some(label_id));
                assert(v.labels.contains(a.labels[j]));
                let p = choose|p: int| 0 <= p < v.labels.len() && v.labels[p] == a.labels[j];
                assert(v.labels[p].id == Some(v.tokens[i].label));
            }
        }
    }
    }
}

/// Creating a token preserves the aggregate invariant: the admitted span
/// lies inside the content, references a present label, and overlaps no
/// span admitted before it.
pub proof fn lemma_create_token_preserves_wf(
    a: AnnotationView,
    caller: u64,
    body: crate::model::CreateTokenBody,
    new_id: u64,
)
    requires
        a.wf(),
        !has_token_id(a.tokens, new_id),
    ensures
        spec_create_token(a, caller, body, new_id) matches Ok(v) ==> v.wf(),
{
    match spec_create_token(a, caller, body, new_id) {
        Err(_) => {},
        Ok(v) => {
        let fresh = Token { id: Some(new_id), start: body.start, end: body.end, label: body.label };
        assert(v.tokens == a.tokens.push(fresh));
        assert(v.labels_wf());
        assert(v.tokens_wf()) by {
            assert(forall|i: int| 0 <= i < a.tokens.len() ==> v.tokens[i] == a.tokens[i]);
            assert(forall|i: int| 0 <= i < a.tokens.len() ==> a.tokens[i].id != Some(new_id));
            assert(forall|i: int|
                0 <= i < a.tokens.len() ==> !token_overlapped(a.tokens[i], body.start, body.end));
        }
    }
    }
}

/// Deleting a token preserves the aggregate invariant.
pub proof fn lemma_delete_token_preserves_wf(a: AnnotationView, caller: u64, token_id: u64)
    requires
        a.wf(),
    ensures
        spec_delete_token(a, caller, token_id) matches Ok(v) ==> v.wf(),
{
    match spec_delete_token(a, caller, token_id) {
        Err(_) => {},
        Ok(v) => {
        lemma_tokens_without_preserves(a.tokens, token_id);
        assert(v.labels_wf());
        assert(v.tokens_wf()) by {
            assert forall|i: int|
                0 <= i < v.tokens.len() implies 0 <= #[trigger] v.tokens[i].start
                < v.tokens[i].end < v.content.len() && has_label_id(
                v.labels,
                v.tokens[i].label,
            ) by {
                assert(a.tokens.contains(v.tokens[i]));
                let m = choose|m: int| 0 <= m < a.tokens.len() && a.tokens[m] == v.tokens[i];
                assert(0 <= a.tokens[m].start < a.tokens[m].end < a.content.len());
                assert(has_label_id(a.labels, a.tokens[m].label));
            }
        }
    }
    }
}

/// Deleting the same label twice never succeeds twice: once the cascade
/// has removed it, a second deletion is rejected with `LabelNotFound`.
pub proof fn lemma_delete_label_idempotent(a: AnnotationView, caller: u64, label_id: u64)
    requires
        a.wf(),
    ensures
        spec_delete_label(a, caller, label_id) matches Ok(v) ==> spec_delete_label(
            v,
            caller,
            label_id,
        ) == Err::<AnnotationView, AnnotationError>(AnnotationError::LabelNotFound),
{
    match spec_delete_label(a, caller, label_id) {
        Err(_) => {},
        Ok(v) => {
        lemma_labels_without_preserves(a.labels, label_id);
        assert(!has_label_id(v.labels, label_id));
        assert(v.user_id == caller);
    }
    }
}

/// Creating a label with an explicit, valid, unused color yields an
/// aggregate in which exactly the appended label carries that color, with
/// every prior label untouched; fetching the stored aggregate afterwards
/// returns it unchanged.
pub proof fn lemma_create_label_round_trip(
    a: AnnotationView,
    caller: u64,
    name: Seq<char>,
    color: Seq<char>,
    new_id: u64,
)
    requires
        a.wf(),
        !has_label_id(a.labels, new_id),
        a.user_id == caller,
        recognized_color(color),
        !color_used(a.labels, color),
        !has_label_name(a.labels, name),
    ensures
        spec_create_label(a, caller, name, Some(color), new_id) matches Ok(v) && {
            &&& v.labels.len() == a.labels.len() + 1
            &&& v.labels.last() == (LabelView { id: Some(new_id), name, color })
            &&& forall|i: int| 0 <= i < a.labels.len() ==> v.labels[i] == a.labels[i]
            &&& forall|i: int| 0 <= i < v.labels.len() - 1 ==> v.labels[i].color != color
            &&& v.tokens == a.tokens
            &&& v.content == a.content
        },
{
    assert(spec_create_label(a, caller, name, Some(color), new_id) == Ok::<
        AnnotationView,
        AnnotationError,
    >(with_label(a, name, color, new_id)));
}

/// Deleting a label cascades: afterwards neither the label nor any token
/// referencing it is present, while every other label and token survives.
pub proof fn lemma_delete_label_cascades(a: AnnotationView, caller: u64, label_id: u64)
    requires
        a.wf(),
    ensures
        spec_delete_label(a, caller, label_id) matches Ok(v) ==> {
            &&& !has_label_id(v.labels, label_id)
            &&& forall|i: int| 0 <= i < v.tokens.len() ==> (#[trigger] v.tokens[i].label) != label_id
            &&& forall|l: LabelView|
                a.labels.contains(l) && l.id != Some(label_id) ==> v.labels.contains(l)
            &&& forall|t: Token|
                a.tokens.contains(t) && t.label != label_id ==> v.tokens.contains(t)
        },
{
    match spec_delete_label(a, caller, label_id) {
        Err(_) => {},
        Ok(v) => {
        lemma_labels_without_preserves(a.labels, label_id);
        lemma_tokens_without_label_preserves(a.tokens, label_id);
    }
    }
}

/// Once every catalogue color is used, label creation is over: with no
/// explicit color the palette is exhausted, and any explicit color is
/// rejected as a conflict, being either unrecognized or already taken.
pub proof fn lemma_palette_exhaustion(
    a: AnnotationView,
    caller: u64,
    name: Seq<char>,
    color: Seq<char>,
    new_id: u64,
)
    requires
        a.user_id == caller,
        forall|j: int|
            0 <= j < color_names().len() ==> color_used(a.labels, #[trigger] color_names()[j]),
    ensures
        spec_create_label(a, caller, name, None, new_id) == Err::<AnnotationView, AnnotationError>(
            AnnotationError::PaletteExhausted,
        ),
        spec_create_label(a, caller, name, Some(color), new_id) matches Err(e)
            && e.spec_kind() == ErrorKind::Conflict,
{
    lemma_all_used_exhausts(a.labels, 0);
    if recognized_color(color) {
        let k = choose|k: int| 0 <= k < color_names().len() && color_names()[k] == color;
        assert(color_used(a.labels, color_names()[k]));
    }
}

/// No operation mutates a stranger's annotation: every mutating transition
/// invoked by a caller who is not the owner is rejected as `NotOwner`,
/// whatever the rest of the request.
pub proof fn lemma_ownership_required(
    a: AnnotationView,
    caller: u64,
    name: Seq<char>,
    color: Option<Seq<char>>,
    body: crate::model::CreateTokenBody,
    label_id: u64,
    token_id: u64,
    new_id: u64,
)
    requires
        caller != a.user_id,
    ensures
        spec_create_label(a, caller, name, color, new_id) == Err::<
            AnnotationView,
            AnnotationError,
        >(AnnotationError::NotOwner),
        spec_update_label(a, caller, label_id, Some(name), color) == Err::<
            AnnotationView,
            AnnotationError,
        >(AnnotationError::NotOwner),
        spec_delete_label(a, caller, label_id) == Err::<AnnotationView, AnnotationError>(
            AnnotationError::NotOwner,
        ),
        spec_create_token(a, caller, body, new_id) == Err::<AnnotationView, AnnotationError>(
            AnnotationError::NotOwner,
        ),
        spec_delete_token(a, caller, token_id) == Err::<AnnotationView, AnnotationError>(
            AnnotationError::NotOwner,
        ),
{
}

} // verus!
