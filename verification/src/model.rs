//! The annotation aggregate and its well-formedness invariant.
//!
//! A [`TextAnnotation`] owns its labels and tokens exclusively: they have no
//! identity outside their parent. Identifiers are opaque unsigned integers
//! assigned by the document store; a freshly built entity carries `None`
//! until persisted. The invariant [`AnnotationView::wf`] is what the
//! mutation engine establishes on creation and preserves across every
//! admissible mutation.

use vstd::prelude::*;

use crate::palette::recognized_color;

verus! {

/// A named, colored category usable by tokens within one annotation.
#[derive(Debug, Clone)]
pub struct Label {
    pub id: Option<u64>,
    pub name: String,
    pub color: String,
}

/// A character-offset span `[start, end]` of the annotation text, tagged
/// with the label whose id is `label`.
#[derive(Debug, Clone, Copy, PartialEq, Eq, Structural)]
pub struct Token {
    pub id: Option<u64>,
    pub start: i64,
    pub end: i64,
    pub label: u64,
}

/// The aggregate document: text content, owner reference, and the embedded
/// labels and tokens.
#[derive(Debug, Clone)]
pub struct TextAnnotation {
    pub id: Option<u64>,
    pub content: String,
    pub user_id: u64,
    pub tokens: Vec<Token>,
    pub labels: Vec<Label>,
}

/// The mathematical image of a [`Label`]: strings become character
/// sequences.
#[verifier::ext_equal]
pub struct LabelView {
    pub id: Option<u64>,
    pub name: Seq<char>,
    pub color: Seq<char>,
}

impl View for Label {
    type V = LabelView;

    open spec fn view(&self) -> LabelView {
        LabelView { id: self.id, name: self.name@, color: self.color@ }
    }
}

impl DeepView for Label {
    type V = LabelView;

    open spec fn deep_view(&self) -> LabelView {
        self.view()
    }
}

/// The mathematical image of a [`TextAnnotation`]: the state that the
/// mutation engine's contracts are stated over.
#[verifier::ext_equal]
pub struct AnnotationView {
    pub id: Option<u64>,
    pub content: Seq<char>,
    pub user_id: u64,
    pub labels: Seq<LabelView>,
    pub tokens: Seq<Token>,
}

impl View for TextAnnotation {
    type V = AnnotationView;

    open spec fn view(&self) -> AnnotationView {
        AnnotationView {
            id: self.id,
            content: self.content@,
            user_id: self.user_id,
            labels: self.labels.deep_view(),
            tokens: self.tokens@,
        }
    }
}

impl DeepView for TextAnnotation {
    type V = AnnotationView;

    open spec fn deep_view(&self) -> AnnotationView {
        self.view()
    }
}

/// True iff some label of `labels` carries the id `id`.
pub open spec fn has_label_id(labels: Seq<LabelView>, id: u64) -> bool {
    exists|i: int| 0 <= i < labels.len() && labels[i].id == Some(id)
}

/// True iff some label of `labels` is named `name`.
pub open spec fn has_label_name(labels: Seq<LabelView>, name: Seq<char>) -> bool {
    exists|i: int| 0 <= i < labels.len() && labels[i].name == name
}

/// True iff some label of `labels` carries the color `color`.
pub open spec fn color_used(labels: Seq<LabelView>, color: Seq<char>) -> bool {
    exists|i: int| 0 <= i < labels.len() && labels[i].color == color
}

/// True iff some token of `tokens` carries the id `id`.
pub open spec fn has_token_id(tokens: Seq<Token>, id: u64) -> bool {
    exists|i: int| 0 <= i < tokens.len() && tokens[i].id == Some(id)
}

/// True iff the candidate span `[start, end]` overlaps the existing token
/// `t`, under the inclusive-endpoint rule: an endpoint of `t` lying anywhere
/// in `[start, end]`, boundaries included, counts as overlap.
pub open spec fn token_overlapped(t: Token, start: i64, end: i64) -> bool {
    (start <= t.start <= end) || (start <= t.end <= end)
}

/// True iff the candidate span `[start, end]` overlaps some token of
/// `tokens`.
pub open spec fn overlaps(tokens: Seq<Token>, start: i64, end: i64) -> bool {
    exists|i: int| 0 <= i < tokens.len() && token_overlapped(tokens[i], start, end)
}

impl AnnotationView {
    /// Well-formedness of the embedded labels: ids are assigned and unique,
    /// no two labels share a name, no two share a color, and every color is
    /// drawn from the palette catalogue.
    pub open spec fn labels_wf(self) -> bool {
        &&& forall|i: int| 0 <= i < self.labels.len() ==> (#[trigger] self.labels[i].id) is Some
        &&& forall|i: int, j: int|
            0 <= i < j < self.labels.len() ==> self.labels[i].id != self.labels[j].id
        &&& forall|i: int, j: int|
            0 <= i < j < self.labels.len() ==> self.labels[i].name != self.labels[j].name
        &&& forall|i: int, j: int|
            0 <= i < j < self.labels.len() ==> self.labels[i].color != self.labels[j].color
        &&& forall|i: int|
            0 <= i < self.labels.len() ==> recognized_color(#[trigger] self.labels[i].color)
    }

    /// Well-formedness of the embedded tokens: ids are assigned and unique,
    /// every span lies strictly inside the content, every label reference
    /// resolves, and no token's endpoints fall inside the span of a token
    /// placed after it (each span was admitted against all spans already
    /// present).
    pub open spec fn tokens_wf(self) -> bool {
        &&& forall|i: int| 0 <= i < self.tokens.len() ==> (#[trigger] self.tokens[i].id) is Some
        &&& forall|i: int, j: int|
            0 <= i < j < self.tokens.len() ==> self.tokens[i].id != self.tokens[j].id
        &&& forall|i: int|
            0 <= i < self.tokens.len()
                ==> 0 <= #[trigger] self.tokens[i].start < self.tokens[i].end < self.content.len()
        &&& forall|i: int|
            0 <= i < self.tokens.len() ==> has_label_id(self.labels, #[trigger] self.tokens[i].label)
        &&& forall|i: int, j: int|
            0 <= i < j < self.tokens.len()
                ==> !token_overlapped(self.tokens[i], self.tokens[j].start, self.tokens[j].end)
    }

    /// The aggregate invariant: holds of every annotation the engine
    /// creates, and is preserved by every admissible mutation.
    pub open spec fn wf(self) -> bool {
        self.labels_wf() && self.tokens_wf()
    }
}

/// Body of a request to create an annotation.
#[derive(Debug, Clone)]
pub struct CreateTextAnnotationBody {
    pub content: String,
}

/// Body of a request to create a label; when `color` is absent the engine
/// allocates the first free catalogue color.
#[derive(Debug, Clone)]
pub struct CreateLabelBody {
    pub name: String,
    pub color: Option<String>,
}

/// Body of a request to update a label; absent fields are left untouched.
#[derive(Debug, Clone)]
pub struct UpdateLabelBody {
    pub name: Option<String>,
    pub color: Option<String>,
}

/// Body of a request to create a token spanning `[start, end]` tagged with
/// the label whose id is `label`.
#[derive(Debug, Clone, Copy, PartialEq, Eq, Structural)]
pub struct CreateTokenBody {
    pub start: i64,
    pub end: i64,
    pub label: u64,
}

} // verus!
