//! The CONNECT request that opens a tunnel.

use vstd::prelude::*;
use vstd::string::*;
use vstd::utf8::*;

verus! {

/// The standard-alphabet, padded base64 text of `bytes`.
///
/// The encoding itself is the work of the `base64` crate; this name stands for
/// what it returns.
pub uninterp spec fn base64_standard(bytes: Seq<u8>) -> Seq<char>;

/// Encodes `bytes` with `base64::Engine::encode` on the engine
/// `base64::prelude::BASE64_STANDARD`.
///
/// Trusted: the text returned is a function of the bytes alone, named
/// [`base64_standard`]. The encoder panics where the length of its output,
/// four characters for every three bytes or part of three, cannot be
/// computed or allocated; within the bound required here it can.
#[verifier::external_body]
fn encode_standard(bytes: &[u8]) -> (text: String)
    requires
        bytes@.len() <= usize::MAX / 4,
    ensures
        text@ == base64_standard(bytes@),
{
    base64::Engine::encode(&base64::prelude::BASE64_STANDARD, bytes)
}

/// First line of the request: the method, the destination as given, and the
/// protocol version, which is always HTTP/1.0.
pub open spec fn request_line(destination: Seq<char>) -> Seq<char> {
    "CONNECT "@ + destination + " HTTP/1.0\r\n"@
}

/// The header line that presents an already encoded Basic credential.
pub open spec fn authorization_line(token: Seq<char>) -> Seq<char> {
    "Proxy-Authorization: Basic "@ + token + "\r\n"@
}

/// The whole request head: request line, the authorization line if there is a
/// token, and the empty line that ends the head. There is no body.
pub open spec fn request_head(destination: Seq<char>, token: Option<Seq<char>>) -> Seq<char> {
    request_line(destination) + match token {
        Some(t) => authorization_line(t),
        None => Seq::<char>::empty(),
    } + "\r\n"@
}

/// The Basic token of a plain-text credential: base64 of its UTF-8 bytes.
pub open spec fn basic_token(credential: Seq<char>) -> Seq<char> {
    base64_standard(encode_utf8(credential))
}

/// A credential that can be encoded on this machine: its UTF-8 bytes take at
/// most a quarter of the address space, so that its token fits as well.
pub open spec fn encodable(credential: Seq<char>) -> bool {
    encode_utf8(credential).len() <= usize::MAX / 4
}

/// Whether `credential` can be encoded on this machine.
pub fn is_encodable(credential: &str) -> (fits: bool)
    ensures
        fits == encodable(credential@),
{
    credential.as_bytes().len() <= usize::MAX / 4
}

/// Encodes a plain-text credential (`user:password`, or a bare user name) as a
/// Basic token.
pub fn encode_credential(credential: &str) -> (token: String)
    requires
        encodable(credential@),
    ensures
        token@ == basic_token(credential@),
{
    encode_standard(credential.as_bytes())
}

/// The header line that presents `token`, which is already encoded.
pub fn authorization_header(token: &str) -> (line: String)
    ensures
        line@ == authorization_line(token@),
{
    let mut line = String::from_str("Proxy-Authorization: Basic ");
    line.append(token);
    line.append("\r\n");
    line
}

/// Builds the request head for `destination` from a token that is already
/// encoded.
pub fn request_with_token(destination: &str, token: Option<&str>) -> (request: String)
    ensures
        request@ == request_head(
            destination@,
            match token {
                Some(t) => Some(t@),
                None => None,
            },
        ),
{
    let mut request = String::from_str("CONNECT ");
    request.append(destination);
    request.append(" HTTP/1.0\r\n");
    if let Some(t) = token {
        let line = authorization_header(t);
        request.append(line.as_str());
    }
    request.append("\r\n");
    request
}

/// Builds the request head for `destination`, with a `Proxy-Authorization`
/// line exactly when a credential is supplied.
pub fn connect_request(destination: &str, credential: Option<&str>) -> (request: String)
    requires
        credential matches Some(c) ==> encodable(c@),
    ensures
        request@ == request_head(
            destination@,
            match credential {
                Some(c) => Some(basic_token(c@)),
                None => None,
            },
        ),
{
    match credential {
        Some(c) => {
            let token = encode_credential(c);
            request_with_token(destination, Some(token.as_str()))
        },
        None => request_with_token(destination, None),
    }
}

/// The request, written out: with a token its head is the request line, the
/// authorization line and the empty line; without one it is the request line
/// and the empty line, and no trace of a header.
pub proof fn lemma_request_layout(destination: Seq<char>, token: Seq<char>)
    ensures
        request_head(destination, Some(token)) == "CONNECT "@ + destination + " HTTP/1.0\r\n"@
            + "Proxy-Authorization: Basic "@ + token + "\r\n"@ + "\r\n"@,
        request_head(destination, None) == "CONNECT "@ + destination + " HTTP/1.0\r\n\r\n"@,
{
    reveal_strlit(" HTTP/1.0\r\n");
    reveal_strlit("\r\n");
    reveal_strlit(" HTTP/1.0\r\n\r\n");
}

} // verus!
