use anon_bot::headers::{ApiSecretToken, StatusCode};

#[test]
fn request_without_header_has_no_token() {
    assert_eq!(ApiSecretToken::from_request_parts(None), Ok(None));
}

#[test]
fn header_that_is_not_text_is_a_bad_request() {
    assert_eq!(ApiSecretToken::from_request_parts(Some(None)), Err(StatusCode::BadRequest));
}

#[test]
fn header_text_is_the_token() {
    let token = ApiSecretToken::from_request_parts(Some(Some("s3cret".to_string())));
    assert_eq!(token, Ok(Some(ApiSecretToken("s3cret".to_string()))));
    assert_eq!(token.unwrap().unwrap().as_str(), "s3cret");
}

#[test]
fn status_codes_have_their_numbers() {
    assert_eq!(StatusCode::Success.as_u16(), 200);
    assert_eq!(StatusCode::BadRequest.as_u16(), 400);
    assert_eq!(StatusCode::InternalServerError.as_u16(), 500);
}
