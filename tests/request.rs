use b_ledger::request::{parse_request, Request};

#[test]
fn balance_query_takes_id_up_to_version() {
    let r = parse_request("GET /balance/alice HTTP/1.1\r\nHost: localhost\r\n\r\n");
    assert_eq!(r, Request::Balance("alice".to_string()));
}

#[test]
fn balance_query_without_version_takes_rest() {
    assert_eq!(parse_request("GET /balance/bob"), Request::Balance("bob".to_string()));
    assert_eq!(parse_request("GET /balance/"), Request::Balance(String::new()));
}

#[test]
fn balance_query_with_non_ascii_id() {
    assert_eq!(parse_request("GET /balance/élan HTTP/1.1"), Request::Balance("élan".to_string()));
}

#[test]
fn create_account_takes_body() {
    let r = parse_request("POST /account/ HTTP/1.1\r\nContent-Type: application/json\r\n\r\n{\"id\":\"A\",\"balance\":5}");
    assert_eq!(r, Request::CreateAccount("{\"id\":\"A\",\"balance\":5}".to_string()));
}

#[test]
fn transfer_takes_body_after_first_separator() {
    let r = parse_request("POST /transfer/ HTTP/1.1\r\n\r\n{}\r\n\r\nx");
    assert_eq!(r, Request::Transfer("{}\r\n\r\nx".to_string()));
}

#[test]
fn request_without_body_has_empty_body() {
    assert_eq!(parse_request("POST /transfer/ HTTP/1.1"), Request::Transfer(String::new()));
}

#[test]
fn other_requests_are_unknown() {
    assert_eq!(parse_request("GET /history HTTP/1.1\r\n\r\n"), Request::Unknown);
    assert_eq!(parse_request(""), Request::Unknown);
    assert_eq!(parse_request("POST /account"), Request::Unknown);
}
