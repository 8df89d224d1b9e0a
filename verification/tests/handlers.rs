use shortener::error::ServiceError;
use shortener::handler::{
    redirect, redirect_reply, shorten, shorten_reply, Redirect, ShortenReq, ShortenRes, CREATED,
    PERMANENT_REDIRECT,
};
use shortener::srv::{Attempt, ShortenService, ShortenSrv};
use shortener::store::Table;

fn service() -> ShortenSrv {
    ShortenSrv::new(Table::new())
}

fn service_with(url: &str, code: &str) -> ShortenSrv {
    let mut srv = service();
    srv.attempt(Attempt::First, url, code);
    srv
}

fn count_of(srv: &ShortenSrv, code: &str) -> Option<i32> {
    srv.table().select(code).map(|row| row.count)
}

#[test]
fn status_numbers() {
    assert_eq!(CREATED, 201);
    assert_eq!(PERMANENT_REDIRECT, 308);
}

#[test]
fn shorten_reply_builds_the_short_url() {
    let reply = shorten_reply(
        "https://example.com/a".to_string(),
        Ok("Ab3dE9".to_string()),
        "127.0.0.1:9876",
    );
    assert_eq!(reply, Ok((201, ShortenRes { url: "http://127.0.0.1:9876/Ab3dE9".to_string() })));
}

#[test]
fn shorten_reply_names_the_url_whatever_failed() {
    let url = "https://example.com/a".to_string();
    assert_eq!(
        shorten_reply(url.clone(), Err(ServiceError::RetryFailed), "127.0.0.1:9876"),
        Err(ServiceError::CannotShorten(url.clone()))
    );
    assert_eq!(
        shorten_reply(url.clone(), Err(ServiceError::DbError("down".to_string())), "127.0.0.1:9876"),
        Err(ServiceError::CannotShorten(url.clone()))
    );
    assert_eq!(
        shorten_reply(url.clone(), Err(ServiceError::Unknown), "127.0.0.1:9876"),
        Err(ServiceError::CannotShorten(url))
    );
}

#[test]
fn shorten_stores_the_url_and_answers_created() {
    let mut srv = service();
    let data = ShortenReq { url: "https://example.com/a".to_string() };
    let (status, body) = shorten(&mut srv, data, "short.example").unwrap();
    assert_eq!(status, 201);
    let code = body.url.strip_prefix("http://short.example/").unwrap().to_string();
    assert_eq!(code.chars().count(), 6);
    assert_eq!(srv.get_url(&code), Ok("https://example.com/a".to_string()));
}

#[test]
fn shorten_of_a_stored_url_answers_with_its_code() {
    let mut srv = service_with("https://example.com/a", "Ab3dE9");
    let data = ShortenReq { url: "https://example.com/a".to_string() };
    let reply = shorten(&mut srv, data, "short.example");
    assert_eq!(reply, Ok((201, ShortenRes { url: "http://short.example/Ab3dE9".to_string() })));
}

#[test]
fn redirect_sends_to_the_stored_url_and_counts_the_visit() {
    let mut srv = service_with("https://example.com/a", "Ab3dE9");
    let reply = redirect(&mut srv, "Ab3dE9".to_string());
    assert_eq!(
        reply,
        Ok(Redirect { status: 308, location: "https://example.com/a".to_string() })
    );
    assert_eq!(count_of(&srv, "Ab3dE9"), Some(1));
    redirect(&mut srv, "Ab3dE9".to_string()).unwrap();
    assert_eq!(count_of(&srv, "Ab3dE9"), Some(2));
}

#[test]
fn redirect_from_an_unknown_code_is_not_found() {
    let mut srv = service_with("https://example.com/a", "Ab3dE9");
    let reply = redirect(&mut srv, "zzzzzz".to_string());
    assert_eq!(reply, Err(ServiceError::NotFound("zzzzzz".to_string())));
    assert_eq!(count_of(&srv, "Ab3dE9"), Some(0));
    assert_eq!(count_of(&srv, "zzzzzz"), None);
}

#[test]
fn redirect_to_a_url_that_no_header_can_hold_fails_and_counts_nothing() {
    let mut srv = service_with("https://example.com/\nSet-Cookie: x", "Ab3dE9");
    let reply = redirect(&mut srv, "Ab3dE9".to_string());
    assert_eq!(
        reply,
        Err(ServiceError::FailedToParse("https://example.com/\nSet-Cookie: x".to_string()))
    );
    assert_eq!(count_of(&srv, "Ab3dE9"), Some(0));
}

#[test]
fn redirect_reply_of_a_failed_lookup_names_the_code() {
    assert_eq!(
        redirect_reply("zzzzzz", Err(ServiceError::NotFound("other".to_string()))),
        Err(ServiceError::NotFound("zzzzzz".to_string()))
    );
    assert_eq!(
        redirect_reply("zzzzzz", Err(ServiceError::Unknown)),
        Err(ServiceError::NotFound("zzzzzz".to_string()))
    );
    assert_eq!(
        redirect_reply("zzzzzz", Err(ServiceError::DbError("down".to_string()))),
        Err(ServiceError::NotFound("zzzzzz".to_string()))
    );
}

fn accepted(url: &str) -> bool {
    match redirect_reply("Ab3dE9", Ok(url.to_string())) {
        Ok(to) => {
            assert_eq!(to, Redirect { status: 308, location: url.to_string() });
            true
        }
        Err(e) => {
            assert_eq!(e, ServiceError::FailedToParse(url.to_string()));
            false
        }
    }
}

#[test]
fn redirect_reply_accepts_what_a_header_can_hold() {
    assert!(accepted("https://example.com/a"));
    assert!(accepted(""));
    assert!(accepted("not a url at all"));
    assert!(accepted("tab\tinside"));
    assert!(accepted(" ~"));
    assert!(accepted("https://example.com/\u{e9}t\u{e9}"));
    assert!(accepted("https://\u{4f8b}\u{3048}.jp/\u{1f600}"));
    assert!(accepted("\u{80}"));
}

#[test]
fn redirect_reply_refuses_control_characters() {
    assert!(!accepted("https://example.com/\n"));
    assert!(!accepted("\r"));
    assert!(!accepted("a\u{0}b"));
    assert!(!accepted("a\u{1f}b"));
    assert!(!accepted("a\u{7f}b"));
    assert!(!accepted("\u{8}"));
    assert!(!accepted("\u{a}"));
}
