//! The annotation mutation engine.
//!
//! Every operation receives the caller's resolved identity and, except for
//! creation and listing, the annotation as the document store delivered it
//! (`None` when the id resolved to nothing). Each operation is a total
//! function from that state and the request to either the updated aggregate
//! or a typed rejection that leaves the state untouched; the caller issues
//! the one atomic store mutation that realizes an accepted result.
//!
//! Each operation's contract equates its outcome with a specification-level
//! transition function over [`AnnotationView`], so the decision rules are
//! pinned exactly: who may mutate, which names and colors are admissible,
//! where a token span may lie, and what a cascade removes.

use vstd::pervasive::VecAdditionalExecFns;
use vstd::prelude::*;
use vstd::string::StrSliceExecFns;

use crate::common::DefaultResponse;
use crate::error::AnnotationError;
use crate::interval;
use crate::model::{
    color_used, has_label_id, has_label_name, has_token_id, overlaps, AnnotationView,
    CreateLabelBody, CreateTextAnnotationBody, CreateTokenBody, Label, LabelView, TextAnnotation,
    Token, UpdateLabelBody,
};
use crate::palette::{
    first_free_color, get_next_valid_color, is_color_used, is_valid_color, recognized_color,
};
use vstd::string::StringExecFns;

verus! {

/// The image of an engine outcome: the updated aggregate is abstracted to
/// its view, a rejection is kept as it is.
pub open spec fn result_view(r: Result<TextAnnotation, AnnotationError>) -> Result<
    AnnotationView,
    AnnotationError,
> {
    match r {
        Ok(a) => Ok(a@),
        Err(e) => Err(e),
    }
}

/// The image of an optional request string.
pub open spec fn option_view(o: Option<String>) -> Option<Seq<char>> {
    match o {
        Some(s) => Some(s@),
        None => None,
    }
}

/// The aggregate a creation request builds: empty labels and tokens, owned
/// by the caller, under the store-assigned id.
pub open spec fn spec_create(caller: u64, content: Seq<char>, new_id: u64) -> AnnotationView {
    AnnotationView {
        id: Some(new_id),
        content,
        user_id: caller,
        labels: Seq::empty(),
        tokens: Seq::empty(),
    }
}

/// `a` with the label `(new_id, name, color)` appended.
pub open spec fn with_label(
    a: AnnotationView,
    name: Seq<char>,
    color: Seq<char>,
    new_id: u64,
) -> AnnotationView {
    AnnotationView { labels: a.labels.push(LabelView { id: Some(new_id), name, color }), ..a }
}

/// The label-creation transition. The caller must own the aggregate. An
/// explicit color must name a free catalogue entry; with no explicit color
/// the first free catalogue entry is allocated, and its exhaustion is
/// rejected. The new name must not collide with any existing label's name.
pub open spec fn spec_create_label(
    a: AnnotationView,
    caller: u64,
    name: Seq<char>,
    color: Option<Seq<char>>,
    new_id: u64,
) -> Result<AnnotationView, AnnotationError> {
    if a.user_id != caller {
        Err(AnnotationError::NotOwner)
    } else {
        match color {
            Some(c) => if !recognized_color(c) {
                Err(AnnotationError::InvalidColor)
            } else if color_used(a.labels, c) {
                Err(AnnotationError::ColorInUse)
            } else if has_label_name(a.labels, name) {
                Err(AnnotationError::NameInUse)
            } else {
                Ok(with_label(a, name, c, new_id))
            },
            None => match first_free_color(a.labels) {
                None => Err(AnnotationError::PaletteExhausted),
                Some(c) => if has_label_name(a.labels, name) {
                    Err(AnnotationError::NameInUse)
                } else {
                    Ok(with_label(a, name, c, new_id))
                },
            },
        }
    }
}

/// The position of the label carrying `id`; meaningful only while `id` is
/// present and label ids are unique, as well-formedness guarantees.
pub open spec fn the_label_index(labels: Seq<LabelView>, id: u64) -> int {
    choose|i: int| 0 <= i < labels.len() && labels[i].id == Some(id)
}

/// True iff a label other than the one at `except` is named `name`.
pub open spec fn other_label_named(labels: Seq<LabelView>, except: int, name: Seq<char>) -> bool {
    exists|i: int| 0 <= i < labels.len() && i != except && labels[i].name == name
}

/// True iff a label other than the one at `except` carries `color`.
pub open spec fn other_label_colored(labels: Seq<LabelView>, except: int, color: Seq<char>) -> bool {
    exists|i: int| 0 <= i < labels.len() && i != except && labels[i].color == color
}

/// The labels of `labels` not carrying the id `id`, in order.
pub open spec fn labels_without(labels: Seq<LabelView>, id: u64) -> Seq<LabelView>
    decreases labels.len(),
{
    if labels.len() == 0 {
        Seq::empty()
    } else {
        let rest = labels_without(labels.drop_last(), id);
        if labels.last().id != Some(id) {
            rest.push(labels.last())
        } else {
            rest
        }
    }
}

/// The tokens of `tokens` whose label reference is not `id`, in order.
pub open spec fn tokens_without_label(tokens: Seq<Token>, id: u64) -> Seq<Token>
    decreases tokens.len(),
{
    if tokens.len() == 0 {
        Seq::empty()
    } else {
        let rest = tokens_without_label(tokens.drop_last(), id);
        if tokens.last().label != id {
            rest.push(tokens.last())
        } else {
            rest
        }
    }
}

/// The tokens of `tokens` not carrying the id `id`, in order.
pub open spec fn tokens_without(tokens: Seq<Token>, id: u64) -> Seq<Token>
    decreases tokens.len(),
{
    if tokens.len() == 0 {
        Seq::empty()
    } else {
        let rest = tokens_without(tokens.drop_last(), id);
        if tokens.last().id != Some(id) {
            rest.push(tokens.last())
        } else {
            rest
        }
    }
}

/// The label-update transition. The caller must own the aggregate and the
/// label must exist. A given name must not collide with another label's
/// name; a given color must name a catalogue entry not carried by another
/// label. Absent fields are left untouched.
pub open spec fn spec_update_label(
    a: AnnotationView,
    caller: u64,
    label_id: u64,
    name: Option<Seq<char>>,
    color: Option<Seq<char>>,
) -> Result<AnnotationView, AnnotationError>
    recommends
        a.wf(),
{
    if a.user_id != caller {
        Err(AnnotationError::NotOwner)
    } else if !has_label_id(a.labels, label_id) {
        Err(AnnotationError::LabelNotFound)
    } else {
        let idx = the_label_index(a.labels, label_id);
        let target = a.labels[idx];
        if name matches Some(n) && other_label_named(a.labels, idx, n) {
            Err(AnnotationError::NameInUse)
        } else {
            let renamed = (LabelView {
                name: match name {
                    Some(n) => n,
                    None => target.name,
                },
                ..target
            });
            match color {
                None => Ok(AnnotationView { labels: a.labels.update(idx, renamed), ..a }),
                Some(c) => if !recognized_color(c) {
                    Err(AnnotationError::InvalidColor)
                } else if other_label_colored(a.labels, idx, c) {
                    Err(AnnotationError::ColorInUse)
                } else {
                    Ok(
                        AnnotationView {
                            labels: a.labels.update(idx, (LabelView { color: c, ..renamed })),
                            ..a
                        },
                    )
                },
            }
        }
    }
}

/// The label-deletion transition: the caller must own the aggregate and the
/// label must exist; the label is removed together with every token that
/// references it, as one cascade.
pub open spec fn spec_delete_label(a: AnnotationView, caller: u64, label_id: u64) -> Result<
    AnnotationView,
    AnnotationError,
> {
    if a.user_id != caller {
        Err(AnnotationError::NotOwner)
    } else if !has_label_id(a.labels, label_id) {
        Err(AnnotationError::LabelNotFound)
    } else {
        Ok(
            AnnotationView {
                labels: labels_without(a.labels, label_id),
                tokens: tokens_without_label(a.tokens, label_id),
                ..a
            },
        )
    }
}

/// The token-creation transition. The caller must own the aggregate and
/// the referenced label must exist. The span must satisfy `0 <= start <
/// end < len(content)`, each violation rejected with its own reason, and
/// must not overlap any existing token under the inclusive-endpoint rule.
pub open spec fn spec_create_token(
    a: AnnotationView,
    caller: u64,
    body: CreateTokenBody,
    new_id: u64,
) -> Result<AnnotationView, AnnotationError> {
    if a.user_id != caller {
        Err(AnnotationError::NotOwner)
    } else if !has_label_id(a.labels, body.label) {
        Err(AnnotationError::LabelNotFound)
    } else if body.end <= body.start {
        Err(AnnotationError::SpanEmpty)
    } else if body.start < 0 {
        Err(AnnotationError::SpanStartNegative)
    } else if body.end >= a.content.len() {
        Err(AnnotationError::SpanEndOutOfBounds)
    } else if overlaps(a.tokens, body.start, body.end) {
        Err(AnnotationError::SpanOverlap)
    } else {
        Ok(
            AnnotationView {
                tokens: a.tokens.push(
                    Token { id: Some(new_id), start: body.start, end: body.end, label: body.label },
                ),
                ..a
            },
        )
    }
}

/// The token-deletion transition: the caller must own the aggregate and the
/// token must exist; the token alone is removed.
pub open spec fn spec_delete_token(a: AnnotationView, caller: u64, token_id: u64) -> Result<
    AnnotationView,
    AnnotationError,
> {
    if a.user_id != caller {
        Err(AnnotationError::NotOwner)
    } else if !has_token_id(a.tokens, token_id) {
        Err(AnnotationError::TokenNotFound)
    } else {
        Ok(AnnotationView { tokens: tokens_without(a.tokens, token_id), ..a })
    }
}

/// The annotations of `views` owned by `caller`, in store order.
pub open spec fn owned_by(views: Seq<AnnotationView>, caller: u64) -> Seq<AnnotationView>
    decreases views.len(),
{
    if views.len() == 0 {
        Seq::empty()
    } else {
        let rest = owned_by(views.drop_last(), caller);
        if views.last().user_id == caller {
            rest.push(views.last())
        } else {
            rest
        }
    }
}

/// Up to `count` entries of `owned`, skipping the first `skip`.
pub open spec fn page_window(owned: Seq<AnnotationView>, skip: int, count: int) -> Seq<
    AnnotationView,
> {
    if skip >= owned.len() {
        Seq::empty()
    } else if skip + count <= owned.len() {
        owned.subrange(skip, skip + count)
    } else {
        owned.subrange(skip, owned.len() as int)
    }
}

/// The listing transition: rejects a non-positive page or count, and
/// otherwise returns up to `count` of the caller's annotations, in store
/// order, skipping `count * (page - 1)`; `page` is 1-indexed.
pub open spec fn spec_get_page(
    all: Seq<AnnotationView>,
    caller: u64,
    page: i64,
    count: i64,
) -> Result<Seq<AnnotationView>, AnnotationError> {
    if page < 1 || count < 1 {
        Err(AnnotationError::InvalidPage)
    } else {
        Ok(page_window(owned_by(all, caller), count * (page - 1), count as int))
    }
}

/// Unfolds [`owned_by`] over an appended annotation.
pub proof fn lemma_owned_by_push(views: Seq<AnnotationView>, x: AnnotationView, caller: u64)
    ensures
        owned_by(views.push(x), caller) == if x.user_id == caller {
            owned_by(views, caller).push(x)
        } else {
            owned_by(views, caller)
        },
{
    assert(views.push(x).drop_last() =~= views);
}

/// Unfolds [`labels_without`] over an appended label.
pub proof fn lemma_labels_without_push(labels: Seq<LabelView>, x: LabelView, id: u64)
    ensures
        labels_without(labels.push(x), id) == if x.id != Some(id) {
            labels_without(labels, id).push(x)
        } else {
            labels_without(labels, id)
        },
{
    assert(labels.push(x).drop_last() =~= labels);
}

/// Unfolds [`tokens_without_label`] over an appended token.
pub proof fn lemma_tokens_without_label_push(tokens: Seq<Token>, x: Token, id: u64)
    ensures
        tokens_without_label(tokens.push(x), id) == if x.label != id {
            tokens_without_label(tokens, id).push(x)
        } else {
            tokens_without_label(tokens, id)
        },
{
    assert(tokens.push(x).drop_last() =~= tokens);
}

/// Unfolds [`tokens_without`] over an appended token.
pub proof fn lemma_tokens_without_push(tokens: Seq<Token>, x: Token, id: u64)
    ensures
        tokens_without(tokens.push(x), id) == if x.id != Some(id) {
            tokens_without(tokens, id).push(x)
        } else {
            tokens_without(tokens, id)
        },
{
    assert(tokens.push(x).drop_last() =~= tokens);
}

/// True iff some label of `labels` is named `name`.
fn label_name_exists(labels: &Vec<Label>, name: &String) -> (found: bool)
    ensures
        found == has_label_name(labels.deep_view(), name@),
{
    let mut i: usize = 0;
    while i < labels.len()
        invariant
            i <= labels.len(),
            forall|j: int| 0 <= j < i ==> labels.deep_view()[j].name != name@,
        decreases labels.len() - i,
    {
        if labels[i].name == *name {
            assert(labels.deep_view()[i as int].name == name@);
            return true;
        }
        i += 1;
    }
    false
}

/// The position of the first label of `labels` carrying the id `id`, if
/// any.
fn find_label_index(labels: &Vec<Label>, id: u64) -> (position: Option<usize>)
    ensures
        match position {
            Some(i) => i < labels@.len() && labels.deep_view()[i as int].id == Some(id),
            None => !has_label_id(labels.deep_view(), id),
        },
{
    let mut i: usize = 0;
    while i < labels.len()
        invariant
            i <= labels.len(),
            forall|j: int| 0 <= j < i ==> labels.deep_view()[j].id != Some(id),
        decreases labels.len() - i,
    {
        let matched = match labels[i].id {
            Some(x) => x == id,
            None => false,
        };
        if matched {
            assert(labels.deep_view()[i as int].id == Some(id));
            return Some(i);
        }
        i += 1;
    }
    None
}

/// True iff a label of `labels` at a position other than `except` is named
/// `name`.
fn other_label_name_exists(labels: &Vec<Label>, except: usize, name: &String) -> (found: bool)
    ensures
        found == other_label_named(labels.deep_view(), except as int, name@),
{
    let mut i: usize = 0;
    while i < labels.len()
        invariant
            i <= labels.len(),
            forall|j: int| 0 <= j < i && j != except ==> labels.deep_view()[j].name != name@,
        decreases labels.len() - i,
    {
        if i != except && labels[i].name == *name {
            assert(labels.deep_view()[i as int].name == name@);
            return true;
        }
        i += 1;
    }
    false
}

/// True iff a label of `labels` at a position other than `except` carries
/// the color `color`.
fn other_label_color_exists(labels: &Vec<Label>, except: usize, color: &String) -> (found: bool)
    ensures
        found == other_label_colored(labels.deep_view(), except as int, color@),
{
    let mut i: usize = 0;
    while i < labels.len()
        invariant
            i <= labels.len(),
            forall|j: int| 0 <= j < i && j != except ==> labels.deep_view()[j].color != color@,
        decreases labels.len() - i,
    {
        if i != except && labels[i].color == *color {
            assert(labels.deep_view()[i as int].color == color@);
            return true;
        }
        i += 1;
    }
    false
}

/// True iff some token of `tokens` carries the id `id`.
fn token_id_exists(tokens: &Vec<Token>, id: u64) -> (found: bool)
    ensures
        found == has_token_id(tokens@, id),
{
    let mut i: usize = 0;
    while i < tokens.len()
        invariant
            i <= tokens.len(),
            forall|j: int| 0 <= j < i ==> tokens@[j].id != Some(id),
        decreases tokens.len() - i,
    {
        let matched = match tokens[i].id {
            Some(x) => x == id,
            None => false,
        };
        if matched {
            return true;
        }
        i += 1;
    }
    false
}

/// The labels of `labels` not carrying the id `id`, in order.
fn keep_labels_without(labels: Vec<Label>, id: u64) -> (kept: Vec<Label>)
    ensures
        kept.deep_view() == labels_without(labels.deep_view(), id),
{
    let ghost all = labels.deep_view();
    let ghost all_exec = labels@;
    let mut kept: Vec<Label> = Vec::new();
    proof {
        assert(labels@ =~= all_exec.subrange(0, all_exec.len() as int));
    }
    let mut rest = labels;
    let ghost mut k: int = 0;
    while rest.len() > 0
        invariant
            0 <= k,
            k + rest@.len() == all_exec.len(),
            all.len() == all_exec.len(),
            forall|i: int|
                0 <= i < all_exec.len() ==> all[i] == (#[trigger] all_exec[i]).deep_view(),
            rest@ == all_exec.subrange(k, all_exec.len() as int),
            kept.deep_view() == labels_without(all.take(k), id),
        decreases rest@.len(),
    {
        let ghost kept_before = kept.deep_view();
        let ghost rest_before = rest@;
        let l = rest.remove(0);
        proof {
            rest_before.remove_ensures(0);
            assert(rest@ =~= all_exec.subrange(k + 1, all_exec.len() as int));
            assert(l == all_exec[k]);
            assert(l.deep_view() == all[k]);
            assert(all.take(k + 1) =~= all.take(k).push(all[k]));
            lemma_labels_without_push(all.take(k), all[k], id);
        }
        let matched = match l.id {
            Some(x) => x == id,
            None => false,
        };
        if !matched {
            kept.push(l);
            proof {
                assert(kept.deep_view() =~= kept_before.push(l@));
            }
        }
        proof {
            k = k + 1;
        }
    }
    proof {
        assert(all.take(k) =~= all);
    }
    kept
}

/// The tokens of `tokens` whose label reference is not `id`, in order.
fn keep_tokens_without_label(tokens: &Vec<Token>, id: u64) -> (kept: Vec<Token>)
    ensures
        kept@ == tokens_without_label(tokens@, id),
{
    let mut kept: Vec<Token> = Vec::new();
    let mut i: usize = 0;
    while i < tokens.len()
        invariant
            i <= tokens.len(),
            kept@ == tokens_without_label(tokens@.take(i as int), id),
        decreases tokens.len() - i,
    {
        let t = tokens[i];
        proof {
            assert(tokens@.take(i + 1) =~= tokens@.take(i as int).push(tokens@[i as int]));
            lemma_tokens_without_label_push(tokens@.take(i as int), tokens@[i as int], id);
        }
        if t.label != id {
            kept.push(t);
        }
        i += 1;
    }
    proof {
        assert(tokens@.take(tokens@.len() as int) =~= tokens@);
    }
    kept
}

/// The tokens of `tokens` not carrying the id `id`, in order.
fn keep_tokens_without(tokens: &Vec<Token>, id: u64) -> (kept: Vec<Token>)
    ensures
        kept@ == tokens_without(tokens@, id),
{
    let mut kept: Vec<Token> = Vec::new();
    let mut i: usize = 0;
    while i < tokens.len()
        invariant
            i <= tokens.len(),
            kept@ == tokens_without(tokens@.take(i as int), id),
        decreases tokens.len() - i,
    {
        let t = tokens[i];
        proof {
            assert(tokens@.take(i + 1) =~= tokens@.take(i as int).push(tokens@[i as int]));
            lemma_tokens_without_push(tokens@.take(i as int), tokens@[i as int], id);
        }
        let matched = match t.id {
            Some(x) => x == id,
            None => false,
        };
        if !matched {
            kept.push(t);
        }
        i += 1;
    }
    proof {
        assert(tokens@.take(tokens@.len() as int) =~= tokens@);
    }
    kept
}

/// Exposes create/get/delete/list for annotations and create/update/delete
/// for their labels and tokens, enforcing ownership, uniqueness, palette,
/// and interval invariants.
pub struct TextAnnotationController {}

impl TextAnnotationController {
    /// Builds the annotation a creation request persists: the caller's
    /// content, no labels, no tokens, owned by the caller.
    pub fn create(caller: u64, body: CreateTextAnnotationBody, new_id: u64) -> (created:
        TextAnnotation)
        ensures
            created@ == spec_create(caller, body.content@, new_id),
            created@.wf(),
    {
        let created = TextAnnotation {
            id: Some(new_id),
            content: body.content,
            user_id: caller,
            labels: Vec::new(),
            tokens: Vec::new(),
        };
        proof {
            assert(created@ =~= spec_create(caller, body.content@, new_id));
        }
        created
    }

    /// Interprets the outcome of the atomic conditional update that
    /// realizes an accepted decision: the store handing back no document
    /// means the re-asserted precondition no longer held when the write
    /// landed, and that refusal is authoritative — never assumed success.
    pub fn confirm_mutation(after: Option<TextAnnotation>) -> (result: Result<
        TextAnnotation,
        AnnotationError,
    >)
        ensures
            match after {
                None => result == Err::<TextAnnotation, AnnotationError>(
                    AnnotationError::StoreFailure,
                ),
                Some(a) => result == Ok::<TextAnnotation, AnnotationError>(a),
            },
    {
        match after {
            None => Err(AnnotationError::StoreFailure),
            Some(a) => Ok(a),
        }
    }

    /// Resolves a fetched annotation: the document as stored, or
    /// `AnnotationNotFound` when the id resolved to nothing. Ownership is
    /// deliberately not enforced on reads.
    pub fn get(found: Option<TextAnnotation>) -> (result: Result<TextAnnotation, AnnotationError>)
        ensures
            match found {
                None => result == Err::<TextAnnotation, AnnotationError>(
                    AnnotationError::AnnotationNotFound,
                ),
                Some(a) => result == Ok::<TextAnnotation, AnnotationError>(a),
            },
    {
        match found {
            None => Err(AnnotationError::AnnotationNotFound),
            Some(a) => Ok(a),
        }
    }

    /// Decides a whole-annotation deletion: the aggregate must exist and be
    /// owned by the caller; an accepted decision acknowledges the removal
    /// the caller then performs atomically.
    pub fn delete(found: Option<TextAnnotation>, caller: u64) -> (result: Result<
        DefaultResponse,
        AnnotationError,
    >)
        ensures
            match found {
                None => result == Err::<DefaultResponse, AnnotationError>(
                    AnnotationError::AnnotationNotFound,
                ),
                Some(a) => {
                    if a.user_id != caller {
                        result == Err::<DefaultResponse, AnnotationError>(AnnotationError::NotOwner)
                    } else {
                        result matches Ok(ack) && ack.message@
                            == "Text Annotation deleted successfully"@
                    }
                },
            },
    {
        match found {
            None => Err(AnnotationError::AnnotationNotFound),
            Some(a) => {
                if a.user_id != caller {
                    Err(AnnotationError::NotOwner)
                } else {
                    Ok(DefaultResponse {
                        message: String::from_str("Text Annotation deleted successfully"),
                    })
                }
            },
        }
    }

    /// Selects the requested page of the caller's annotations from the
    /// store-ordered listing, per [`spec_get_page`].
    pub fn get_page(annotations: Vec<TextAnnotation>, caller: u64, page: i64, count: i64) -> (result:
        Result<Vec<TextAnnotation>, AnnotationError>)
        ensures
            match result {
                Ok(items) => spec_get_page(annotations.deep_view(), caller, page, count)
                    == Ok::<Seq<AnnotationView>, AnnotationError>(items.deep_view()),
                Err(e) => spec_get_page(annotations.deep_view(), caller, page, count) == Err::<
                    Seq<AnnotationView>,
                    AnnotationError,
                >(e),
            },
    {
        if page < 1 || count < 1 {
            return Err(AnnotationError::InvalidPage);
        }
        proof {
            assert((count as u128) * ((page - 1) as u128) <= (u64::MAX as u128) * (u64::MAX
                as u128)) by (nonlinear_arith)
                requires
                    0 <= count <= u64::MAX,
                    0 <= page - 1 <= u64::MAX,
            ;
        }
        let skip: u128 = (count as u128) * ((page - 1) as u128);
        let limit: u128 = count as u128;
        let ghost all = annotations.deep_view();
        let ghost all_exec = annotations@;
        let mut out: Vec<TextAnnotation> = Vec::new();
        let mut seen: u128 = 0;
        proof {
            assert(annotations@ =~= all_exec.subrange(0, all_exec.len() as int));
        }
        let mut rest = annotations;
        let total: usize = rest.len();
        let ghost mut k: int = 0;
        while rest.len() > 0
            invariant
                0 <= k,
                all_exec.len() == total,
                k + rest@.len() == all_exec.len(),
                all.len() == all_exec.len(),
                forall|i: int|
                    0 <= i < all_exec.len() ==> all[i] == (#[trigger] all_exec[i]).deep_view(),
                rest@ == all_exec.subrange(k, all_exec.len() as int),
                1 <= count,
                1 <= page,
                skip == (count as int) * ((page - 1) as int),
                limit == count as int,
                seen <= k,
                seen == owned_by(all.take(k), caller).len(),
                out@.len() == out.deep_view().len(),
                out.deep_view() == page_window(owned_by(all.take(k), caller), skip as int, limit as int),
            decreases rest@.len(),
        {
            let ghost out_before = out.deep_view();
            let ghost owned_before = owned_by(all.take(k), caller);
            let ghost rest_before = rest@;
            let a = rest.remove(0);
            proof {
                rest_before.remove_ensures(0);
                assert(rest@ =~= all_exec.subrange(k + 1, all_exec.len() as int));
                assert(a == all_exec[k]);
                assert(a.deep_view() == all[k]);
                assert(all.take(k + 1) =~= all.take(k).push(all[k]));
                lemma_owned_by_push(all.take(k), all[k], caller);
            }
            if a.user_id == caller {
                let ghost owned_now = owned_by(all.take(k + 1), caller);
                proof {
                    assert(owned_now == owned_before.push(all[k]));
                }
                if seen >= skip && (out.len() as u128) < limit {
                    out.push(a);
                    proof {
                        assert(out.deep_view() =~= out_before.push(all[k]));
                        assert(page_window(owned_now, skip as int, limit as int) =~= out_before.push(
                            all[k],
                        ));
                    }
                } else {
                    proof {
                        if seen < skip {
                            assert(page_window(owned_now, skip as int, limit as int) =~= out_before);
                        } else {
                            assert(out_before.len() == limit);
                            assert(page_window(owned_now, skip as int, limit as int) =~= out_before);
                        }
                    }
                }
                seen = seen + 1;
            }
            proof {
                k = k + 1;
            }
        }
        proof {
            assert(all.take(k) =~= all);
        }
        Ok(out)
    }

    /// Appends a freshly identified label to the annotation, enforcing the
    /// palette and uniqueness rules of [`spec_create_label`].
    pub fn create_label(
        found: Option<TextAnnotation>,
        caller: u64,
        body: CreateLabelBody,
        new_id: u64,
    ) -> (result: Result<TextAnnotation, AnnotationError>)
        requires
            found matches Some(a) ==> a@.wf() && !has_label_id(a@.labels, new_id),
        ensures
            match found {
                None => result == Err::<TextAnnotation, AnnotationError>(
                    AnnotationError::AnnotationNotFound,
                ),
                Some(a) => result_view(result) == spec_create_label(
                    a@,
                    caller,
                    body.name@,
                    option_view(body.color),
                    new_id,
                ),
            },
            result matches Ok(updated) ==> updated@.wf(),
    {
        proof {
            if let Some(a) = &found {
                crate::laws::lemma_create_label_preserves_wf(
                    a@,
                    caller,
                    body.name@,
                    option_view(body.color),
                    new_id,
                );
            }
        }
        let annotation = match found {
            None => {
                return Err(AnnotationError::AnnotationNotFound);
            },
            Some(a) => a,
        };
        if annotation.user_id != caller {
            return Err(AnnotationError::NotOwner);
        }
        let color: String = match body.color {
            Some(c) => {
                if !is_valid_color(c.clone()) {
                    return Err(AnnotationError::InvalidColor);
                }
                if is_color_used(c.clone(), &annotation.labels) {
                    return Err(AnnotationError::ColorInUse);
                }
                c
            },
            None => match get_next_valid_color(&annotation.labels) {
                Ok(c) => c,
                Err(_) => {
                    return Err(AnnotationError::PaletteExhausted);
                },
            },
        };
        if label_name_exists(&annotation.labels, &body.name) {
            return Err(AnnotationError::NameInUse);
        }
        let ghost previous = annotation@;
        let ghost picked = color@;
        let mut annotation = annotation;
        annotation.labels.push(Label { id: Some(new_id), name: body.name, color });
        proof {
            assert(annotation@ =~= with_label(previous, body.name@, picked, new_id));
        }
        Ok(annotation)
    }

    /// Updates the named label's provided fields, enforcing the uniqueness
    /// and palette rules of [`spec_update_label`]; absent fields are left
    /// untouched.
    pub fn update_label(
        found: Option<TextAnnotation>,
        caller: u64,
        label_id: u64,
        body: UpdateLabelBody,
    ) -> (result: Result<TextAnnotation, AnnotationError>)
        requires
            found matches Some(a) ==> a@.wf(),
        ensures
            match found {
                None => result == Err::<TextAnnotation, AnnotationError>(
                    AnnotationError::AnnotationNotFound,
                ),
                Some(a) => result_view(result) == spec_update_label(
                    a@,
                    caller,
                    label_id,
                    option_view(body.name),
                    option_view(body.color),
                ),
            },
            result matches Ok(updated) ==> updated@.wf(),
    {
        proof {
            if let Some(a) = &found {
                crate::laws::lemma_update_label_preserves_wf(
                    a@,
                    caller,
                    label_id,
                    option_view(body.name),
                    option_view(body.color),
                );
            }
        }
        let annotation = match found {
            None => {
                return Err(AnnotationError::AnnotationNotFound);
            },
            Some(a) => a,
        };
        if annotation.user_id != caller {
            return Err(AnnotationError::NotOwner);
        }
        let idx = match find_label_index(&annotation.labels, label_id) {
            None => {
                return Err(AnnotationError::LabelNotFound);
            },
            Some(i) => i,
        };
        proof {
            let labels = annotation@.labels;
            assert(labels[idx as int].id == Some(label_id));
            let chosen = the_label_index(labels, label_id);
            assert(0 <= chosen < labels.len() && labels[chosen].id == Some(label_id));
            if chosen < idx as int {
                assert(labels[chosen].id != labels[idx as int].id);
            } else if (idx as int) < chosen {
                assert(labels[idx as int].id != labels[chosen].id);
            }
            assert(chosen == idx as int);
        }
        if let Some(n) = &body.name {
            if other_label_name_exists(&annotation.labels, idx, n) {
                return Err(AnnotationError::NameInUse);
            }
        }
        let new_color: String = match body.color {
            Some(c) => {
                if !is_valid_color(c.clone()) {
                    return Err(AnnotationError::InvalidColor);
                }
                if other_label_color_exists(&annotation.labels, idx, &c) {
                    return Err(AnnotationError::ColorInUse);
                }
                c
            },
            None => annotation.labels[idx].color.clone(),
        };
        let new_name: String = match body.name {
            Some(n) => n,
            None => annotation.labels[idx].name.clone(),
        };
        let ghost previous = annotation@;
        let mut annotation = annotation;
        annotation.labels.set(
            idx,
            Label { id: Some(label_id), name: new_name, color: new_color },
        );
        proof {
            let updated_label = LabelView { id: Some(label_id), name: new_name@, color: new_color@ };
            assert(annotation@ =~= (AnnotationView {
                labels: previous.labels.update(idx as int, updated_label),
                ..previous
            }));
        }
        Ok(annotation)
    }

    /// Removes the named label and, in the same cascade, every token that
    /// references it, per [`spec_delete_label`].
    pub fn delete_label(found: Option<TextAnnotation>, caller: u64, label_id: u64) -> (result:
        Result<TextAnnotation, AnnotationError>)
        requires
            found matches Some(a) ==> a@.wf(),
        ensures
            match found {
                None => result == Err::<TextAnnotation, AnnotationError>(
                    AnnotationError::AnnotationNotFound,
                ),
                Some(a) => result_view(result) == spec_delete_label(a@, caller, label_id),
            },
            result matches Ok(updated) ==> updated@.wf(),
    {
        proof {
            if let Some(a) = &found {
                crate::laws::lemma_delete_label_preserves_wf(a@, caller, label_id);
            }
        }
        let annotation = match found {
            None => {
                return Err(AnnotationError::AnnotationNotFound);
            },
            Some(a) => a,
        };
        if annotation.user_id != caller {
            return Err(AnnotationError::NotOwner);
        }
        let idx = match find_label_index(&annotation.labels, label_id) {
            None => {
                return Err(AnnotationError::LabelNotFound);
            },
            Some(i) => i,
        };
        let ghost previous = annotation@;
        proof {
            assert(previous.labels[idx as int].id == Some(label_id));
        }
        let TextAnnotation { id, content, user_id, tokens, labels } = annotation;
        let labels = keep_labels_without(labels, label_id);
        let tokens = keep_tokens_without_label(&tokens, label_id);
        let updated = TextAnnotation { id, content, user_id, tokens, labels };
        proof {
            assert(updated@ =~= (AnnotationView {
                labels: labels_without(previous.labels, label_id),
                tokens: tokens_without_label(previous.tokens, label_id),
                ..previous
            }));
        }
        Ok(updated)
    }

    /// Appends a freshly identified token after the span and overlap checks
    /// of [`spec_create_token`].
    pub fn create_token(
        found: Option<TextAnnotation>,
        caller: u64,
        body: CreateTokenBody,
        new_id: u64,
    ) -> (result: Result<TextAnnotation, AnnotationError>)
        requires
            found matches Some(a) ==> a@.wf() && !has_token_id(a@.tokens, new_id),
        ensures
            match found {
                None => result == Err::<TextAnnotation, AnnotationError>(
                    AnnotationError::AnnotationNotFound,
                ),
                Some(a) => result_view(result) == spec_create_token(a@, caller, body, new_id),
            },
            result matches Ok(updated) ==> updated@.wf(),
    {
        proof {
            if let Some(a) = &found {
                crate::laws::lemma_create_token_preserves_wf(a@, caller, body, new_id);
            }
        }
        let annotation = match found {
            None => {
                return Err(AnnotationError::AnnotationNotFound);
            },
            Some(a) => a,
        };
        if annotation.user_id != caller {
            return Err(AnnotationError::NotOwner);
        }
        match find_label_index(&annotation.labels, body.label) {
            None => {
                return Err(AnnotationError::LabelNotFound);
            },
            Some(i) => {
                proof {
                    assert(annotation@.labels[i as int].id == Some(body.label));
                }
            },
        };
        let start = body.start;
        let end = body.end;
        if end <= start {
            return Err(AnnotationError::SpanEmpty);
        }
        if start < 0 {
            return Err(AnnotationError::SpanStartNegative);
        }
        let content_chars = annotation.content.as_str().unicode_len();
        if end as u64 >= content_chars as u64 {
            return Err(AnnotationError::SpanEndOutOfBounds);
        }
        assert(end < annotation@.content.len());
        if interval::overlaps(&annotation.tokens, start, end) {
            return Err(AnnotationError::SpanOverlap);
        }
        let ghost previous = annotation@;
        let mut annotation = annotation;
        annotation.tokens.push(Token { id: Some(new_id), start, end, label: body.label });
        proof {
            assert(annotation@ =~= (AnnotationView {
                tokens: previous.tokens.push(
                    Token { id: Some(new_id), start, end, label: body.label },
                ),
                ..previous
            }));
        }
        Ok(annotation)
    }

    /// Removes the named token, per [`spec_delete_token`].
    pub fn delete_token(found: Option<TextAnnotation>, caller: u64, token_id: u64) -> (result:
        Result<TextAnnotation, AnnotationError>)
        requires
            found matches Some(a) ==> a@.wf(),
        ensures
            match found {
                None => result == Err::<TextAnnotation, AnnotationError>(
                    AnnotationError::AnnotationNotFound,
                ),
                Some(a) => result_view(result) == spec_delete_token(a@, caller, token_id),
            },
            result matches Ok(updated) ==> updated@.wf(),
    {
        proof {
            if let Some(a) = &found {
                crate::laws::lemma_delete_token_preserves_wf(a@, caller, token_id);
            }
        }
        let annotation = match found {
            None => {
                return Err(AnnotationError::AnnotationNotFound);
            },
            Some(a) => a,
        };
        if annotation.user_id != caller {
            return Err(AnnotationError::NotOwner);
        }
        if !token_id_exists(&annotation.tokens, token_id) {
            return Err(AnnotationError::TokenNotFound);
        }
        let ghost previous = annotation@;
        let TextAnnotation { id, content, user_id, tokens, labels } = annotation;
        let tokens = keep_tokens_without(&tokens, token_id);
        let updated = TextAnnotation { id, content, user_id, tokens, labels };
        proof {
            assert(updated@ =~= (AnnotationView {
                tokens: tokens_without(previous.tokens, token_id),
                ..previous
            }));
        }
        Ok(updated)
    }
}

} // verus!
