//! The reply to the monitor: a status line, the content type, a blank
//! line, and the body.

use vstd::prelude::*;
use vstd::string::StringSliceAdditionalSpecFns;

verus! {

/// `heapless::String`, carried as a value that only the functions below
/// look into.
#[verifier::external_type_specification]
#[verifier::external_body]
pub struct ExFixedString<const N: usize>(heapless::String<N>);

/// What precedes the body of every reply.
pub const RESPONSE_HEAD: &'static str =
    "HTTP/1.0 200 OK\r\nContent-Type: application/json\r\n\r\n";

/// The most bytes a reply can have, head and body together.
pub const RESPONSE_CAPACITY: usize = 3000;

/// The bytes that a fixed-capacity string holds.
pub uninterp spec fn text_bytes(text: heapless::String<RESPONSE_CAPACITY>) -> Seq<u8>;

/// `heapless::String::new`: the string starts out empty.
#[verifier::external_body]
fn text_new() -> (text: heapless::String<RESPONSE_CAPACITY>)
    ensures
        text_bytes(text) == Seq::<u8>::empty(),
{
    heapless::String::new()
}

/// `heapless::String::push_str`: where the bytes of `part` fit into what is
/// left of the capacity they are appended, and else the string is left as
/// it was and the call fails.
#[verifier::external_body]
fn text_push_str(text: &mut heapless::String<RESPONSE_CAPACITY>, part: &str) -> (pushed: Result<
    (),
    (),
>)
    ensures
        pushed.is_ok() <==> text_bytes(*old(text)).len() + part.spec_bytes().len()
            <= RESPONSE_CAPACITY,
        pushed.is_ok() ==> text_bytes(*final(text)) == text_bytes(*old(text)) + part.spec_bytes(),
        pushed.is_err() ==> text_bytes(*final(text)) == text_bytes(*old(text)),
{
    text.push_str(part)
}

/// `heapless::String::as_str`: the string as a slice of the same bytes.
#[verifier::external_body]
fn text_as_str(text: &heapless::String<RESPONSE_CAPACITY>) -> (slice: &str)
    ensures
        slice.spec_bytes() == text_bytes(*text),
{
    text.as_str()
}

/// The bytes of the reply that carries `body`.
pub open spec fn response_bytes(body: Seq<u8>) -> Seq<u8> {
    RESPONSE_HEAD.spec_bytes() + body
}

/// The head is 51 bytes long, so a body fits exactly where it has no more
/// than `RESPONSE_CAPACITY - 51` bytes.
pub proof fn lemma_head_len()
    ensures
        RESPONSE_HEAD.spec_bytes().len() == 51,
        forall|body: Seq<u8>| #[trigger] response_bytes(body).len() == 51 + body.len(),
{
    reveal_strlit("HTTP/1.0 200 OK\r\nContent-Type: application/json\r\n\r\n");
    assert(RESPONSE_HEAD@.len() == 51);
    assert(vstd::utf8::is_ascii_chars(RESPONSE_HEAD@));
    vstd::utf8::is_ascii_chars_encode_utf8(RESPONSE_HEAD@);
}

/// Why no reply could be made.
#[derive(Clone, Copy, Debug, PartialEq, Eq, Structural)]
pub enum ResponseError {
    /// Head and body together are longer than `RESPONSE_CAPACITY`.
    TooLong,
}

/// A complete reply, ready to be written out.
pub struct Response {
    text: heapless::String<RESPONSE_CAPACITY>,
}

impl View for Response {
    type V = Seq<u8>;

    closed spec fn view(&self) -> Seq<u8> {
        text_bytes(self.text)
    }
}

impl Response {
    /// The reply that carries `body`. It is refused exactly where head and
    /// body together do not fit into `RESPONSE_CAPACITY` bytes.
    pub fn build(body: &str) -> (reply: Result<Response, ResponseError>)
        ensures
            match reply {
                Ok(response) => response@ == response_bytes(body.spec_bytes())
                    && response_bytes(body.spec_bytes()).len() <= RESPONSE_CAPACITY,
                Err(e) => e == ResponseError::TooLong && response_bytes(body.spec_bytes()).len()
                    > RESPONSE_CAPACITY,
            },
    {
        let mut text = text_new();
        if text_push_str(&mut text, RESPONSE_HEAD).is_err() {
            return Err(ResponseError::TooLong);
        }
        if text_push_str(&mut text, body).is_err() {
            return Err(ResponseError::TooLong);
        }
        assert(text_bytes(text) =~= response_bytes(body.spec_bytes()));
        Ok(Response { text })
    }

    /// The bytes to write out.
    pub fn as_bytes(&self) -> (bytes: &[u8])
        ensures
            bytes@ == self@,
    {
        text_as_str(&self.text).as_bytes()
    }

    /// The number of bytes to write out.
    pub fn len(&self) -> (len: usize)
        ensures
            len == self@.len(),
    {
        self.as_bytes().len()
    }
}

} // verus!
