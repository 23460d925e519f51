//! Rendering of the content-fetch route's response.
//!
//! The gateway attempts one fetch, renders any failure as HTML text, and
//! performs no retry.  The network work itself is outside the library: a
//! caller parses the address with the codec, attempts the fetch only when
//! parsing succeeded, and hands the outcome back here to be rendered.

use vstd::prelude::*;
use vstd::string::*;
use crate::addr::spec_parse;
use crate::addr::str_to_xor_name;
use crate::text::spec_utf8_lossy;
use crate::text::string_from_utf8_lossy;

verus! {

/// What the network client's single fetch attempt came to.
#[derive(Clone, Debug)]
pub enum FetchOutcome {
    /// The content at the address, as raw bytes.
    Content(Vec<u8>),
    /// The bootstrap peers could not be obtained.
    NoPeers,
    /// A connection to the network could not be established.
    NotConnected,
    /// The network returned an error for the address; its message.
    GetFailed(String),
}

/// The text rendered for one fetch attempt's outcome: retrieved bytes are
/// decoded lossily, each failure gets its fixed message.
pub open spec fn spec_fetch_outcome_text(o: FetchOutcome) -> Seq<char> {
    match o {
        FetchOutcome::Content(b) => spec_utf8_lossy(b@),
        FetchOutcome::NoPeers => "Testing connect to Autonomi..<br/>ERROR: failed to get peers"@,
        FetchOutcome::NotConnected => "Testing /awf..<br/>ERROR: failed to connect"@,
        FetchOutcome::GetFailed(e) => "Failed to get file from network<br/>ERROR: "@ + e@,
    }
}

/// The text rendered for an address the codec rejected.
pub open spec fn spec_invalid_address_text(addr: Seq<char>) -> Seq<char> {
    "ERROR: invalid xor name "@ + addr + "<br/>ERROR: failed to fetch content from network"@
}

/// The HTML page that frames the fetch route's response around `content`.
pub open spec fn spec_fetch_page(addr: Seq<char>, content: Seq<char>) -> Seq<char> {
    "<!DOCTYPE html><head></head><body>test /awf/&lt;DATAMAP-ADDRESS&gt;:<br/>xor: "@ + addr
        + "<br/><br/>"@ + content + "<body>"@
}

/// Renders one fetch attempt's outcome as text.
pub fn fetch_outcome_text(outcome: FetchOutcome) -> (r: String)
    ensures
        r@ == spec_fetch_outcome_text(outcome),
{
    match outcome {
        FetchOutcome::Content(b) => string_from_utf8_lossy(b.as_slice()),
        FetchOutcome::NoPeers => String::from_str(
            "Testing connect to Autonomi..<br/>ERROR: failed to get peers",
        ),
        FetchOutcome::NotConnected => String::from_str(
            "Testing /awf..<br/>ERROR: failed to connect",
        ),
        FetchOutcome::GetFailed(e) => {
            let mut s = String::from_str("Failed to get file from network<br/>ERROR: ");
            s.append(e.as_str());
            s
        },
    }
}

/// Renders the rejection of an address the codec refused.
pub fn invalid_address_text(datamap_address: &str) -> (r: String)
    ensures
        r@ == spec_invalid_address_text(datamap_address@),
{
    let mut s = String::from_str("ERROR: invalid xor name ");
    s.append(datamap_address);
    s.append("<br/>ERROR: failed to fetch content from network");
    s
}

/// Builds the HTML page that frames the fetch route's response.
pub fn fetch_page(datamap_address: &str, content: &str) -> (r: String)
    ensures
        r@ == spec_fetch_page(datamap_address@, content@),
{
    let mut s = String::from_str(
        "<!DOCTYPE html><head></head><body>test /awf/&lt;DATAMAP-ADDRESS&gt;:<br/>xor: ",
    );
    s.append(datamap_address);
    s.append("<br/><br/>");
    s.append(content);
    s.append("<body>");
    s
}

/// The whole body of the content-fetch route, for one attempt: an address
/// the codec rejects is answered with the invalid-address page whatever
/// `outcome` holds, and a parsed address with the page for the attempt's
/// outcome.
pub fn fetch_content_body(datamap_address: &str, outcome: Option<FetchOutcome>) -> (r: String)
    ensures
        spec_parse(datamap_address@) matches Err(_) ==> r@ == spec_fetch_page(
            datamap_address@,
            spec_invalid_address_text(datamap_address@),
        ),
        spec_parse(datamap_address@) matches Ok(_) ==> (outcome matches Some(o) ==> r@
            == spec_fetch_page(datamap_address@, spec_fetch_outcome_text(o))),
{
    let parsed = str_to_xor_name(datamap_address);
    match (parsed, outcome) {
        (Ok(_), Some(o)) => {
            let content = fetch_outcome_text(o);
            fetch_page(datamap_address, content.as_str())
        },
        _ => {
            let content = invalid_address_text(datamap_address);
            fetch_page(datamap_address, content.as_str())
        },
    }
}

} // verus!
