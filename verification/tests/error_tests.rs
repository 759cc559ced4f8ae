use annotator::common::{CommonController, Message};
use annotator::error::{AnnotationError, ApiError, ErrorKind, RequestError};

#[test]
fn kinds_map_to_status_codes_and_reasons() {
    assert_eq!(ErrorKind::NotFound.code(), 404);
    assert_eq!(ErrorKind::Unauthorized.code(), 401);
    assert_eq!(ErrorKind::Forbidden.code(), 403);
    assert_eq!(ErrorKind::Conflict.code(), 409);
    assert_eq!(ErrorKind::BadRequest.code(), 400);
    assert_eq!(ErrorKind::Internal.code(), 500);
    assert_eq!(ErrorKind::NotFound.reason(), "Not Found");
    assert_eq!(ErrorKind::Internal.reason(), "Internal Server Error");
}

#[test]
fn engine_errors_fall_in_their_categories() {
    assert_eq!(AnnotationError::AnnotationNotFound.kind(), ErrorKind::NotFound);
    assert_eq!(AnnotationError::LabelNotFound.kind(), ErrorKind::NotFound);
    assert_eq!(AnnotationError::TokenNotFound.kind(), ErrorKind::NotFound);
    assert_eq!(AnnotationError::NotOwner.kind(), ErrorKind::Unauthorized);
    assert_eq!(AnnotationError::PaletteExhausted.kind(), ErrorKind::Forbidden);
    assert_eq!(AnnotationError::InvalidColor.kind(), ErrorKind::Conflict);
    assert_eq!(AnnotationError::ColorInUse.kind(), ErrorKind::Conflict);
    assert_eq!(AnnotationError::NameInUse.kind(), ErrorKind::Conflict);
    assert_eq!(AnnotationError::SpanEmpty.kind(), ErrorKind::BadRequest);
    assert_eq!(AnnotationError::SpanStartNegative.kind(), ErrorKind::BadRequest);
    assert_eq!(AnnotationError::SpanEndOutOfBounds.kind(), ErrorKind::BadRequest);
    assert_eq!(AnnotationError::SpanOverlap.kind(), ErrorKind::Conflict);
    assert_eq!(AnnotationError::InvalidPage.kind(), ErrorKind::BadRequest);
    assert_eq!(AnnotationError::StoreFailure.kind(), ErrorKind::Internal);
}

#[test]
fn request_error_carries_the_wire_shape() {
    let err = RequestError::new(ErrorKind::Conflict, Some("Label color is already used".to_string()));
    assert_eq!(err.error.code, 409);
    assert_eq!(err.error.reason, "Conflict");
    assert_eq!(err.error.description.unwrap(), "Label color is already used");
    let bare = RequestError::new(ErrorKind::NotFound, None);
    assert_eq!(bare.error.code, 404);
    assert!(bare.error.description.is_none());
}

#[test]
fn api_error_setters_replace_fields() {
    let err = ApiError::new(422)
        .set_msg("failed to validate body")
        .set_error("boom")
        .set_validation(vec!["\"email\": value is not an email".to_string()]);
    assert_eq!(err.status, 422);
    assert_eq!(err.msg, "failed to validate body");
    assert_eq!(err.error, "boom");
    assert_eq!(err.validation.len(), 1);
}

#[test]
fn messages_carry_status_and_text() {
    let message = Message::new();
    assert_eq!(message.status, 200);
    assert_eq!(message.status_info, "OK");
    assert_eq!(message.msg, "");
    let message = message.set_msg("annotation deleted successfully");
    assert_eq!(message.msg, "annotation deleted successfully");
    let message = message.set_status(404, "Not Found".to_string());
    assert_eq!(message.status, 404);
    assert_eq!(message.status_info, "Not Found");
}

#[test]
fn public_data_serves_the_catalogue() {
    let data = CommonController::get_data().unwrap();
    assert_eq!(data.colors.len(), 20);
    assert_eq!(data.colors[0].name, "dark_blue");
    assert_eq!(data.colors[0].value, "#00008B");
}
