use ant_gateway::fetch::fetch_content_body;
use ant_gateway::fetch::fetch_outcome_text;
use ant_gateway::fetch::fetch_page;
use ant_gateway::fetch::invalid_address_text;
use ant_gateway::fetch::FetchOutcome;

#[test]
fn outcome_text_for_retrieved_content_is_decoded() {
    let text = fetch_outcome_text(FetchOutcome::Content(b"hello there".to_vec()));
    assert_eq!(text, "hello there");
    let text = fetch_outcome_text(FetchOutcome::Content(vec![0x68, 0xff, 0x21]));
    assert_eq!(text, "h\u{fffd}!");
}

#[test]
fn outcome_text_for_failures_is_exact() {
    assert_eq!(
        fetch_outcome_text(FetchOutcome::NoPeers),
        "Testing connect to Autonomi..<br/>ERROR: failed to get peers"
    );
    assert_eq!(
        fetch_outcome_text(FetchOutcome::NotConnected),
        "Testing /awf..<br/>ERROR: failed to connect"
    );
    assert_eq!(
        fetch_outcome_text(FetchOutcome::GetFailed(String::from("no such chunk"))),
        "Failed to get file from network<br/>ERROR: no such chunk"
    );
}

#[test]
fn invalid_address_text_names_the_address() {
    assert_eq!(
        invalid_address_text("not-an-address"),
        "ERROR: invalid xor name not-an-address<br/>ERROR: failed to fetch content from network"
    );
}

#[test]
fn fetch_page_frames_address_and_content() {
    let page = fetch_page("abcd", "some content");
    assert_eq!(
        page,
        "<!DOCTYPE html><head></head><body>test /awf/&lt;DATAMAP-ADDRESS&gt;:\
         <br/>xor: abcd<br/><br/>some content<body>"
    );
}

#[test]
fn fetch_content_body_rejects_a_bad_address() {
    let body = fetch_content_body("xyz", None);
    assert!(body.contains("ERROR: invalid xor name xyz"));
    assert!(body.starts_with("<!DOCTYPE html>"));
}

#[test]
fn fetch_content_body_renders_the_outcome_for_a_good_address() {
    let addr = "ab".repeat(32);
    let body = fetch_content_body(&addr, Some(FetchOutcome::Content(b"found it".to_vec())));
    assert!(body.contains("found it"));
    assert!(body.contains(&addr));
    assert!(!body.contains("ERROR"));

    let body = fetch_content_body(&addr, Some(FetchOutcome::NotConnected));
    assert!(body.contains("ERROR: failed to connect"));
}
