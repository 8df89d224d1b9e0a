use shortener::error::ServiceError;

fn text(s: &str) -> String {
    s.to_string()
}

#[test]
fn message_of_each_failure() {
    assert_eq!(
        ServiceError::FailedToParse(text("ht tp://x")).to_string(),
        "Failed to parse url: ht tp://x."
    );
    assert_eq!(ServiceError::NotFound(text("zzzzzz")).to_string(), "Not found: zzzzzz.");
    assert_eq!(
        ServiceError::CannotShorten(text("https://example.com/a")).to_string(),
        "Failed to shorten: https://example.com/a."
    );
    assert_eq!(
        ServiceError::DbError(text("connection reset")).to_string(),
        "Oops! Something went wrong: connection reset"
    );
    assert_eq!(ServiceError::RetryFailed.to_string(), "Fail to retry.");
    assert_eq!(
        ServiceError::Unknown.to_string(),
        "Oops! Something went wrong. Please try again later."
    );
}

#[test]
fn message_of_a_failure_with_empty_text() {
    assert_eq!(ServiceError::NotFound(String::new()).to_string(), "Not found: .");
    assert_eq!(ServiceError::DbError(String::new()).to_string(), "Oops! Something went wrong: ");
}

#[test]
fn status_of_each_failure() {
    assert_eq!(ServiceError::FailedToParse(text("u")).status(), 500);
    assert_eq!(ServiceError::NotFound(text("c")).status(), 404);
    assert_eq!(ServiceError::CannotShorten(text("u")).status(), 422);
    assert_eq!(ServiceError::DbError(text("m")).status(), 500);
    assert_eq!(ServiceError::RetryFailed.status(), 503);
    assert_eq!(ServiceError::Unknown.status(), 500);
}

#[test]
fn response_shows_the_message_of_a_parse_failure() {
    let reply = ServiceError::FailedToParse(text("a\nb")).into_response();
    assert_eq!(reply, (500, text("Failed to parse url: a\nb.")));
}

#[test]
fn response_shows_the_message_of_a_missing_code() {
    let reply = ServiceError::NotFound(text("zzzzzz")).into_response();
    assert_eq!(reply, (404, text("Not found: zzzzzz.")));
}

#[test]
fn response_shows_the_message_of_a_refused_url() {
    let reply = ServiceError::CannotShorten(text("https://example.com/a")).into_response();
    assert_eq!(reply, (422, text("Failed to shorten: https://example.com/a.")));
}

#[test]
fn response_hides_what_the_store_said() {
    let reply = ServiceError::DbError(text("relation \"record\" does not exist")).into_response();
    assert_eq!(reply, (500, text("Oops! Something went wrong.")));
}

#[test]
fn response_to_an_exhausted_retry_invites_another_request() {
    let reply = ServiceError::RetryFailed.into_response();
    assert_eq!(reply, (503, text("Please try again.")));
}

#[test]
fn response_shows_the_message_of_an_unknown_failure() {
    let reply = ServiceError::Unknown.into_response();
    assert_eq!(reply, (500, text("Oops! Something went wrong. Please try again later.")));
}
