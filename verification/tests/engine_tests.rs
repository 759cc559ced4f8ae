use annotator::engine::TextAnnotationController;
use annotator::error::{AnnotationError, ErrorKind};
use annotator::model::{
    CreateLabelBody, CreateTextAnnotationBody, CreateTokenBody, TextAnnotation, UpdateLabelBody,
};

fn fresh_annotation(owner: u64, content: &str) -> TextAnnotation {
    TextAnnotationController::create(
        owner,
        CreateTextAnnotationBody { content: content.to_string() },
        1,
    )
}

fn with_label(owner: u64, content: &str, color: &str, label_id: u64) -> TextAnnotation {
    let annotation = fresh_annotation(owner, content);
    TextAnnotationController::create_label(
        Some(annotation),
        owner,
        CreateLabelBody { name: "person".to_string(), color: Some(color.to_string()) },
        label_id,
    )
    .unwrap()
}

#[test]
fn create_builds_empty_aggregate() {
    let annotation = fresh_annotation(7, "hello world");
    assert_eq!(annotation.id, Some(1));
    assert_eq!(annotation.user_id, 7);
    assert_eq!(annotation.content, "hello world");
    assert!(annotation.labels.is_empty());
    assert!(annotation.tokens.is_empty());
}

#[test]
fn get_returns_stored_annotation() {
    let annotation = fresh_annotation(7, "hello world");
    let fetched = TextAnnotationController::get(Some(annotation)).unwrap();
    assert_eq!(fetched.content, "hello world");
}

#[test]
fn get_reports_missing_annotation() {
    assert_eq!(
        TextAnnotationController::get(None).unwrap_err(),
        AnnotationError::AnnotationNotFound
    );
}

#[test]
fn get_does_not_enforce_ownership() {
    let annotation = fresh_annotation(7, "hello world");
    // A different caller may read; only mutation is owner-scoped.
    assert!(TextAnnotationController::get(Some(annotation)).is_ok());
}

#[test]
fn delete_acknowledges_for_owner() {
    let annotation = fresh_annotation(7, "hello world");
    let ack = TextAnnotationController::delete(Some(annotation), 7).unwrap();
    assert_eq!(ack.message, "Text Annotation deleted successfully");
}

#[test]
fn delete_rejects_stranger() {
    let annotation = fresh_annotation(7, "hello world");
    assert_eq!(
        TextAnnotationController::delete(Some(annotation), 8).unwrap_err(),
        AnnotationError::NotOwner
    );
}

#[test]
fn round_trip_explicit_color() {
    let annotation = with_label(7, "hello world", "red", 2);
    let fetched = TextAnnotationController::get(Some(annotation)).unwrap();
    assert_eq!(fetched.labels.len(), 1);
    assert_eq!(fetched.labels[0].name, "person");
    assert_eq!(fetched.labels[0].color, "red");
    assert_eq!(fetched.labels[0].id, Some(2));
    assert_eq!(
        fetched.labels.iter().filter(|l| l.color == "red").count(),
        1
    );
}

#[test]
fn create_label_allocates_first_free_color() {
    let annotation = fresh_annotation(7, "hello world");
    let annotation = TextAnnotationController::create_label(
        Some(annotation),
        7,
        CreateLabelBody { name: "first".to_string(), color: None },
        2,
    )
    .unwrap();
    assert_eq!(annotation.labels[0].color, "dark_blue");
    let annotation = TextAnnotationController::create_label(
        Some(annotation),
        7,
        CreateLabelBody { name: "second".to_string(), color: None },
        3,
    )
    .unwrap();
    assert_eq!(annotation.labels[1].color, "blue");
}

#[test]
fn create_label_rejects_duplicate_name() {
    let annotation = with_label(7, "hello world", "red", 2);
    let err = TextAnnotationController::create_label(
        Some(annotation),
        7,
        CreateLabelBody { name: "person".to_string(), color: Some("blue".to_string()) },
        3,
    )
    .unwrap_err();
    assert_eq!(err, AnnotationError::NameInUse);
    assert_eq!(err.kind(), ErrorKind::Conflict);
}

#[test]
fn create_label_rejects_taken_color() {
    let annotation = with_label(7, "hello world", "red", 2);
    let err = TextAnnotationController::create_label(
        Some(annotation),
        7,
        CreateLabelBody { name: "other".to_string(), color: Some("red".to_string()) },
        3,
    )
    .unwrap_err();
    assert_eq!(err, AnnotationError::ColorInUse);
}

#[test]
fn create_label_rejects_unknown_color() {
    let annotation = fresh_annotation(7, "hello world");
    let err = TextAnnotationController::create_label(
        Some(annotation),
        7,
        CreateLabelBody { name: "person".to_string(), color: Some("mauve".to_string()) },
        2,
    )
    .unwrap_err();
    assert_eq!(err, AnnotationError::InvalidColor);
    assert_eq!(err.kind(), ErrorKind::Conflict);
}

#[test]
fn palette_exhaustion_is_final() {
    let mut annotation = fresh_annotation(7, "hello world");
    for i in 0..20u64 {
        annotation = TextAnnotationController::create_label(
            Some(annotation),
            7,
            CreateLabelBody { name: format!("label{}", i), color: None },
            2 + i,
        )
        .unwrap();
    }
    assert_eq!(annotation.labels.len(), 20);
    let err = TextAnnotationController::create_label(
        Some(annotation.clone()),
        7,
        CreateLabelBody { name: "extra".to_string(), color: None },
        50,
    )
    .unwrap_err();
    assert_eq!(err, AnnotationError::PaletteExhausted);
    assert_eq!(err.kind(), ErrorKind::Forbidden);
    // Any explicit color is a conflict too: every catalogue entry is taken.
    let err = TextAnnotationController::create_label(
        Some(annotation.clone()),
        7,
        CreateLabelBody { name: "extra".to_string(), color: Some("red".to_string()) },
        50,
    )
    .unwrap_err();
    assert_eq!(err, AnnotationError::ColorInUse);
    let err = TextAnnotationController::create_label(
        Some(annotation),
        7,
        CreateLabelBody { name: "extra".to_string(), color: Some("mauve".to_string()) },
        50,
    )
    .unwrap_err();
    assert_eq!(err, AnnotationError::InvalidColor);
}

#[test]
fn update_label_renames_only_given_fields() {
    let annotation = with_label(7, "hello world", "red", 2);
    let updated = TextAnnotationController::update_label(
        Some(annotation),
        7,
        2,
        UpdateLabelBody { name: Some("place".to_string()), color: None },
    )
    .unwrap();
    assert_eq!(updated.labels[0].name, "place");
    assert_eq!(updated.labels[0].color, "red");
}

#[test]
fn update_label_recolors() {
    let annotation = with_label(7, "hello world", "red", 2);
    let updated = TextAnnotationController::update_label(
        Some(annotation),
        7,
        2,
        UpdateLabelBody { name: None, color: Some("cyan".to_string()) },
    )
    .unwrap();
    assert_eq!(updated.labels[0].name, "person");
    assert_eq!(updated.labels[0].color, "cyan");
}

#[test]
fn update_label_rejects_name_of_sibling() {
    let annotation = with_label(7, "hello world", "red", 2);
    let annotation = TextAnnotationController::create_label(
        Some(annotation),
        7,
        CreateLabelBody { name: "place".to_string(), color: Some("blue".to_string()) },
        3,
    )
    .unwrap();
    let err = TextAnnotationController::update_label(
        Some(annotation),
        7,
        3,
        UpdateLabelBody { name: Some("person".to_string()), color: None },
    )
    .unwrap_err();
    assert_eq!(err, AnnotationError::NameInUse);
}

#[test]
fn update_label_accepts_own_name() {
    let annotation = with_label(7, "hello world", "red", 2);
    let updated = TextAnnotationController::update_label(
        Some(annotation),
        7,
        2,
        UpdateLabelBody { name: Some("person".to_string()), color: None },
    )
    .unwrap();
    assert_eq!(updated.labels[0].name, "person");
}

#[test]
fn update_label_rejects_color_of_sibling() {
    let annotation = with_label(7, "hello world", "red", 2);
    let annotation = TextAnnotationController::create_label(
        Some(annotation),
        7,
        CreateLabelBody { name: "place".to_string(), color: Some("blue".to_string()) },
        3,
    )
    .unwrap();
    let err = TextAnnotationController::update_label(
        Some(annotation),
        7,
        3,
        UpdateLabelBody { name: None, color: Some("red".to_string()) },
    )
    .unwrap_err();
    assert_eq!(err, AnnotationError::ColorInUse);
}

#[test]
fn update_label_rejects_missing_label() {
    let annotation = fresh_annotation(7, "hello world");
    let err = TextAnnotationController::update_label(
        Some(annotation),
        7,
        9,
        UpdateLabelBody { name: Some("place".to_string()), color: None },
    )
    .unwrap_err();
    assert_eq!(err, AnnotationError::LabelNotFound);
}

#[test]
fn delete_label_twice_reports_not_found() {
    let annotation = with_label(7, "hello world", "red", 2);
    let after_first = TextAnnotationController::delete_label(Some(annotation), 7, 2).unwrap();
    assert!(after_first.labels.is_empty());
    let err = TextAnnotationController::delete_label(Some(after_first), 7, 2).unwrap_err();
    assert_eq!(err, AnnotationError::LabelNotFound);
}

#[test]
fn delete_label_cascades_to_tokens() {
    let annotation = with_label(7, "hello world", "red", 2);
    let annotation = TextAnnotationController::create_label(
        Some(annotation),
        7,
        CreateLabelBody { name: "place".to_string(), color: Some("blue".to_string()) },
        3,
    )
    .unwrap();
    let annotation = TextAnnotationController::create_token(
        Some(annotation),
        7,
        CreateTokenBody { start: 0, end: 2, label: 2 },
        4,
    )
    .unwrap();
    let annotation = TextAnnotationController::create_token(
        Some(annotation),
        7,
        CreateTokenBody { start: 6, end: 9, label: 3 },
        5,
    )
    .unwrap();
    let after = TextAnnotationController::delete_label(Some(annotation), 7, 2).unwrap();
    assert_eq!(after.labels.len(), 1);
    assert_eq!(after.labels[0].id, Some(3));
    assert_eq!(after.tokens.len(), 1);
    assert_eq!(after.tokens[0].id, Some(5));
    assert!(after.tokens.iter().all(|t| t.label != 2));
}

#[test]
fn create_token_boundary_checks() {
    let annotation = with_label(7, "hello world", "red", 2);
    // end == start
    let err = TextAnnotationController::create_token(
        Some(annotation.clone()),
        7,
        CreateTokenBody { start: 5, end: 5, label: 2 },
        4,
    )
    .unwrap_err();
    assert_eq!(err, AnnotationError::SpanEmpty);
    // negative start
    let err = TextAnnotationController::create_token(
        Some(annotation.clone()),
        7,
        CreateTokenBody { start: -1, end: 3, label: 2 },
        4,
    )
    .unwrap_err();
    assert_eq!(err, AnnotationError::SpanStartNegative);
    // end at the content length ("hello world" has 11 characters)
    let err = TextAnnotationController::create_token(
        Some(annotation),
        7,
        CreateTokenBody { start: 0, end: 11, label: 2 },
        4,
    )
    .unwrap_err();
    assert_eq!(err, AnnotationError::SpanEndOutOfBounds);
}

#[test]
fn create_token_inclusive_overlap_rule() {
    let annotation = with_label(7, "hello world", "red", 2);
    let annotation = TextAnnotationController::create_token(
        Some(annotation),
        7,
        CreateTokenBody { start: 2, end: 5, label: 2 },
        4,
    )
    .unwrap();
    // Touching at a shared boundary counts as overlap.
    let err = TextAnnotationController::create_token(
        Some(annotation.clone()),
        7,
        CreateTokenBody { start: 5, end: 8, label: 2 },
        5,
    )
    .unwrap_err();
    assert_eq!(err, AnnotationError::SpanOverlap);
    assert_eq!(err.kind(), ErrorKind::Conflict);
    // One position of clearance is accepted.
    let after = TextAnnotationController::create_token(
        Some(annotation),
        7,
        CreateTokenBody { start: 6, end: 8, label: 2 },
        5,
    )
    .unwrap();
    assert_eq!(after.tokens.len(), 2);
}

#[test]
fn overlap_rule_checks_existing_endpoints_only() {
    // The inclusive-endpoint rule asks whether an existing token's
    // endpoints fall inside the candidate span. A candidate lying strictly
    // inside an existing span is therefore admitted.
    let annotation = with_label(7, "hello world again", "red", 2);
    let annotation = TextAnnotationController::create_token(
        Some(annotation),
        7,
        CreateTokenBody { start: 1, end: 10, label: 2 },
        4,
    )
    .unwrap();
    let after = TextAnnotationController::create_token(
        Some(annotation.clone()),
        7,
        CreateTokenBody { start: 3, end: 5, label: 2 },
        5,
    )
    .unwrap();
    assert_eq!(after.tokens.len(), 2);
    // A candidate that straddles an existing endpoint is rejected.
    let err = TextAnnotationController::create_token(
        Some(annotation),
        7,
        CreateTokenBody { start: 0, end: 1, label: 2 },
        5,
    )
    .unwrap_err();
    assert_eq!(err, AnnotationError::SpanOverlap);
}

#[test]
fn interval_index_reports_overlaps() {
    let tokens = vec![annotator::model::Token { id: Some(1), start: 2, end: 5, label: 9 }];
    assert!(annotator::interval::overlaps(&tokens, 0, 2));
    assert!(annotator::interval::overlaps(&tokens, 5, 8));
    assert!(annotator::interval::overlaps(&tokens, 0, 10));
    assert!(!annotator::interval::overlaps(&tokens, 6, 8));
    assert!(!annotator::interval::overlaps(&tokens, 0, 1));
    assert!(!annotator::interval::overlaps(&tokens, 3, 4));
    assert!(!annotator::interval::overlaps(&Vec::new(), 0, 10));
}

#[test]
fn create_token_requires_existing_label() {
    let annotation = fresh_annotation(7, "hello world");
    let err = TextAnnotationController::create_token(
        Some(annotation),
        7,
        CreateTokenBody { start: 0, end: 2, label: 9 },
        4,
    )
    .unwrap_err();
    assert_eq!(err, AnnotationError::LabelNotFound);
}

#[test]
fn delete_token_removes_only_the_named_token() {
    let annotation = with_label(7, "hello world", "red", 2);
    let annotation = TextAnnotationController::create_token(
        Some(annotation),
        7,
        CreateTokenBody { start: 0, end: 2, label: 2 },
        4,
    )
    .unwrap();
    let annotation = TextAnnotationController::create_token(
        Some(annotation),
        7,
        CreateTokenBody { start: 6, end: 9, label: 2 },
        5,
    )
    .unwrap();
    let after = TextAnnotationController::delete_token(Some(annotation), 7, 4).unwrap();
    assert_eq!(after.tokens.len(), 1);
    assert_eq!(after.tokens[0].id, Some(5));
    let err = TextAnnotationController::delete_token(Some(after), 7, 4).unwrap_err();
    assert_eq!(err, AnnotationError::TokenNotFound);
}

#[test]
fn every_mutation_rejects_stranger() {
    let annotation = with_label(7, "hello world", "red", 2);
    assert_eq!(
        TextAnnotationController::create_label(
            Some(annotation.clone()),
            8,
            CreateLabelBody { name: "x".to_string(), color: None },
            9,
        )
        .unwrap_err(),
        AnnotationError::NotOwner
    );
    assert_eq!(
        TextAnnotationController::update_label(
            Some(annotation.clone()),
            8,
            2,
            UpdateLabelBody { name: Some("x".to_string()), color: None },
        )
        .unwrap_err(),
        AnnotationError::NotOwner
    );
    assert_eq!(
        TextAnnotationController::delete_label(Some(annotation.clone()), 8, 2).unwrap_err(),
        AnnotationError::NotOwner
    );
    assert_eq!(
        TextAnnotationController::create_token(
            Some(annotation.clone()),
            8,
            CreateTokenBody { start: 0, end: 2, label: 2 },
            9,
        )
        .unwrap_err(),
        AnnotationError::NotOwner
    );
    assert_eq!(
        TextAnnotationController::delete_token(Some(annotation.clone()), 8, 2).unwrap_err(),
        AnnotationError::NotOwner
    );
    assert_eq!(
        TextAnnotationController::delete(Some(annotation), 8).unwrap_err(),
        AnnotationError::NotOwner
    );
    assert_eq!(AnnotationError::NotOwner.kind(), ErrorKind::Unauthorized);
}

#[test]
fn every_mutation_reports_missing_annotation() {
    assert_eq!(
        TextAnnotationController::create_label(
            None,
            7,
            CreateLabelBody { name: "x".to_string(), color: None },
            9,
        )
        .unwrap_err(),
        AnnotationError::AnnotationNotFound
    );
    assert_eq!(
        TextAnnotationController::delete_label(None, 7, 2).unwrap_err(),
        AnnotationError::AnnotationNotFound
    );
    assert_eq!(
        TextAnnotationController::create_token(
            None,
            7,
            CreateTokenBody { start: 0, end: 2, label: 2 },
            9,
        )
        .unwrap_err(),
        AnnotationError::AnnotationNotFound
    );
    assert_eq!(
        TextAnnotationController::delete_token(None, 7, 2).unwrap_err(),
        AnnotationError::AnnotationNotFound
    );
}

#[test]
fn get_page_windows_owned_annotations() {
    let mut all = Vec::new();
    for i in 0..5u64 {
        let mut a = fresh_annotation(7, "hello world");
        a.id = Some(10 + i);
        all.push(a);
    }
    let mut stranger = fresh_annotation(8, "hello world");
    stranger.id = Some(99);
    all.insert(2, stranger);
    let page1 = TextAnnotationController::get_page(all.clone(), 7, 1, 2).unwrap();
    assert_eq!(page1.iter().map(|a| a.id.unwrap()).collect::<Vec<_>>(), vec![10, 11]);
    let page2 = TextAnnotationController::get_page(all.clone(), 7, 2, 2).unwrap();
    assert_eq!(page2.iter().map(|a| a.id.unwrap()).collect::<Vec<_>>(), vec![12, 13]);
    let page3 = TextAnnotationController::get_page(all.clone(), 7, 3, 2).unwrap();
    assert_eq!(page3.iter().map(|a| a.id.unwrap()).collect::<Vec<_>>(), vec![14]);
    let page4 = TextAnnotationController::get_page(all.clone(), 7, 4, 2).unwrap();
    assert!(page4.is_empty());
    let strangers = TextAnnotationController::get_page(all, 8, 1, 10).unwrap();
    assert_eq!(strangers.iter().map(|a| a.id.unwrap()).collect::<Vec<_>>(), vec![99]);
}

#[test]
fn no_op_atomic_update_is_authoritative_failure() {
    let annotation = fresh_annotation(7, "hello world");
    assert_eq!(
        TextAnnotationController::confirm_mutation(Some(annotation.clone()))
            .unwrap()
            .content,
        "hello world"
    );
    let err = TextAnnotationController::confirm_mutation(None).unwrap_err();
    assert_eq!(err, AnnotationError::StoreFailure);
    assert_eq!(err.kind(), ErrorKind::Internal);
}

#[test]
fn get_page_rejects_non_positive_page_or_count() {
    let err = TextAnnotationController::get_page(Vec::new(), 7, 0, 5).unwrap_err();
    assert_eq!(err, AnnotationError::InvalidPage);
    assert_eq!(err.kind(), ErrorKind::BadRequest);
    let err = TextAnnotationController::get_page(Vec::new(), 7, 1, 0).unwrap_err();
    assert_eq!(err, AnnotationError::InvalidPage);
}
