//! The start of the OAuth authorization-code flow: the challenge, the CSRF
//! state and the URI that the user opens.

use vstd::prelude::*;
use crate::strings::{is_ascii_alphanumeric, str_equal};

verus! {

/// The networks whose authorization flow can be run.
#[derive(Debug, Clone, Copy, PartialEq, Eq, Structural)]
pub enum AuthSubcommand {
    Twitter,
    Mastodon,
}

/// A failure of the authorization flow.
#[derive(Debug, Clone, Copy, PartialEq, Eq, Structural)]
pub enum Error {
    ListenerError,
}

/// A text in `application/x-www-form-urlencoded` form, as the URL library
/// serializes it.
pub uninterp spec fn form_encoded_of(s: Seq<char>) -> Seq<char>;

/// Relies on `url::form_urlencoded::byte_serialize`: of the UTF-8 bytes of the
/// text, ASCII letters, digits and `*-._` are kept, a space becomes `+`, and
/// every other byte is percent-encoded.
#[verifier::external_body]
fn form_encode(s: &str) -> (r: String)
    ensures
        r@ == form_encoded_of(s@),
        (forall|i: int| 0 <= i < s@.len() ==> is_ascii_alphanumeric(#[trigger] s@[i])) ==> r@ == s@,
{
    url::form_urlencoded::byte_serialize(s.as_bytes()).collect::<String>()
}

/// The bytes in standard base64, as the base64 library encodes them.
pub uninterp spec fn base64_of(b: Seq<u8>) -> Seq<char>;

/// Relies on `base64::encode`: the bytes in standard base64, with padding.
#[verifier::external_body]
fn base64_encode(b: &Vec<u8>) -> (r: String)
    ensures
        r@ == base64_of(b@),
{
    base64::encode(b)
}

/// One `name=value` pair of a query.
pub open spec fn query_pair(name: Seq<char>, value: Seq<char>) -> Seq<char> {
    form_encoded_of(name) + "="@ + form_encoded_of(value)
}

fn append_pair(query: &mut String, first: bool, name: &str, value: &str)
    ensures
        final(query)@ == old(query)@ + (if first {
            Seq::<char>::empty()
        } else {
            "&"@
        }) + query_pair(name@, value@),
{
    let ghost before = query@;
    if !first {
        query.append("&");
    } else {
        assert(before + Seq::<char>::empty() =~= before);
    }
    let n = form_encode(name);
    query.append(n.as_str());
    query.append("=");
    let v = form_encode(value);
    query.append(v.as_str());
    assert(final(query)@ =~= before + (if first {
        Seq::<char>::empty()
    } else {
        "&"@
    }) + query_pair(name@, value@));
}

/// The URI that starts the authorization flow for a client, with PKCE in
/// plain mode and the local listener as redirect target.
pub open spec fn authorize_uri(client_id: Seq<char>, csrf_state: Seq<char>, challenge: Seq<char>) -> Seq<char> {
    "https://twitter.com/i/oauth2/authorize?"@ + query_pair("response_type"@, "code"@) + "&"@ + query_pair(
        "client_id"@,
        client_id,
    ) + "&"@ + query_pair("redirect_uri"@, "http://127.0.0.1:6009"@) + "&"@ + query_pair(
        "scope"@,
        "tweet.read tweet.write users.read offline.access"@,
    ) + "&"@ + query_pair("state"@, csrf_state) + "&"@ + query_pair("code_challenge"@, challenge) + "&"@
        + query_pair("code_challenge_method"@, "plain"@)
}

/// Builds the URI that starts the authorization flow.
pub fn construct_uri(client_id: &str, csrf_state: &str, challenge: &str) -> (r: String)
    ensures
        r@ == authorize_uri(client_id@, csrf_state@, challenge@),
{
    let mut query = String::new();
    append_pair(&mut query, true, "response_type", "code");
    append_pair(&mut query, false, "client_id", client_id);
    append_pair(&mut query, false, "redirect_uri", "http://127.0.0.1:6009");
    append_pair(&mut query, false, "scope", "tweet.read tweet.write users.read offline.access");
    append_pair(&mut query, false, "state", csrf_state);
    append_pair(&mut query, false, "code_challenge", challenge);
    append_pair(&mut query, false, "code_challenge_method", "plain");
    let mut r = String::from_str("https://twitter.com/i/oauth2/authorize?");
    r.append(query.as_str());
    assert(r@ =~= authorize_uri(client_id@, csrf_state@, challenge@));
    r
}

/// Checks the state that came back with the authorization code against the
/// CSRF state that the flow started with.
pub fn check_state(received: &str, expected: &str) -> (r: Result<(), Error>)
    ensures
        r is Ok <==> received@ == expected@,
{
    if str_equal(received, expected) {
        Ok(())
    } else {
        Err(Error::ListenerError)
    }
}

/// What the flow starts from: the encoded challenge and CSRF state, and the
/// URI for the user to open.
#[derive(Debug)]
pub struct FlowStart {
    pub challenge: String,
    pub csrf_state: String,
    pub uri: String,
}

/// Starts the flow from random challenge and state bytes.
pub fn start_flow(client_id: &str, challenge_bytes: &Vec<u8>, csrf_bytes: &Vec<u8>) -> (r: FlowStart)
    ensures
        r.challenge@ == base64_of(challenge_bytes@),
        r.csrf_state@ == base64_of(csrf_bytes@),
        r.uri@ == authorize_uri(client_id@, r.csrf_state@, r.challenge@),
{
    let challenge = base64_encode(challenge_bytes);
    let csrf_state = base64_encode(csrf_bytes);
    let uri = construct_uri(client_id, csrf_state.as_str(), challenge.as_str());
    FlowStart { challenge, csrf_state, uri }
}

} // verus!
