use vstd::prelude::*;
use vstd::string::StringExecFns;

verus! {

/// Why a page fetch failed: the stored URL does not parse, the transport
/// could not reach the upstream, or the upstream answered with a
/// non-success status.
#[derive(Clone, Copy, Debug, PartialEq, Eq, Structural)]
pub enum FetchError {
    MalformedUrl,
    Transport,
    HttpStatus,
}

/// Whether a string parses as a URI. A function of the string alone.
pub uninterp spec fn is_valid_uri(url: Seq<char>) -> bool;

/// Relies on `hyper::Uri`'s `FromStr` impl: parsing returns `Ok` exactly on
/// strings in URI syntax, and depends on the string alone.
#[verifier::external_body]
fn parse_uri_ok(url: &str) -> (r: bool)
    ensures
        r == is_valid_uri(url@),
{
    url.parse::<hyper::Uri>().is_ok()
}

/// Checks the stored quote-page URL before any fetch is attempted; a
/// string that does not parse as a URI is a data error, not an upstream
/// one.
pub fn validate_url(url: &str) -> (r: Result<(), FetchError>)
    ensures
        r is Ok <==> is_valid_uri(url@),
        !is_valid_uri(url@) ==> r == Err::<(), FetchError>(FetchError::MalformedUrl),
{
    if parse_uri_ok(url) {
        Ok(())
    } else {
        Err(FetchError::MalformedUrl)
    }
}

/// What one body chunk decodes to as UTF-8 text; `None` when the bytes are
/// not valid UTF-8. A function of the bytes alone.
pub uninterp spec fn utf8_decode(bytes: Seq<u8>) -> Option<Seq<char>>;

/// Relies on `std::str::from_utf8`: it returns `Ok` exactly on valid UTF-8
/// input, and the decoded text is a function of the bytes alone.
#[verifier::external_body]
fn convert_to_str(chunk: &Vec<u8>) -> (r: Option<String>)
    ensures
        match r {
            Some(s) => utf8_decode(chunk@) == Some(s@),
            None => utf8_decode(chunk@) is None,
        },
{
    match std::str::from_utf8(chunk.as_slice()) {
        Ok(s) => Some(s.to_owned()),
        Err(_) => None,
    }
}

/// The text one chunk contributes to the body: its decoding, or nothing
/// when it is not valid UTF-8 (such a chunk is skipped, not fatal).
pub open spec fn decoded_chunk(bytes: Seq<u8>) -> Seq<char> {
    match utf8_decode(bytes) {
        Some(t) => t,
        None => Seq::empty(),
    }
}

/// The whole body text: the decodable chunks concatenated in arrival
/// order.
pub open spec fn body_spec(chunks: Seq<Seq<u8>>) -> Seq<char>
    decreases chunks.len(),
{
    if chunks.len() == 0 {
        Seq::empty()
    } else {
        body_spec(chunks.drop_last()) + decoded_chunk(chunks.last())
    }
}

/// The model of a sequence of body chunks, element by element.
pub open spec fn chunks_view(chunks: Seq<Vec<u8>>) -> Seq<Seq<u8>> {
    chunks.map_values(|c: Vec<u8>| c@)
}

/// Whether an HTTP status code indicates success.
pub open spec fn status_success(status: u16) -> bool {
    200 <= status < 300
}

/// Assembles a fetched response into the page body. A non-success status
/// fails the whole fetch at once; on success the body is the concatenation
/// of the UTF-8 decodings of the chunks, a chunk that does not decode being
/// dropped rather than aborting the read.
pub fn body_from_response(status: u16, chunks: &Vec<Vec<u8>>) -> (r: Result<String, FetchError>)
    ensures
        status_success(status) ==> r is Ok && r->Ok_0@ == body_spec(chunks_view(chunks@)),
        !status_success(status) ==> r == Err::<String, FetchError>(FetchError::HttpStatus),
{
    if !(200 <= status && status < 300) {
        return Err(FetchError::HttpStatus);
    }
    let mut body = String::new();
    let mut i: usize = 0;
    while i < chunks.len()
        invariant
            i <= chunks.len(),
            body@ == body_spec(chunks_view(chunks@.take(i as int))),
        decreases chunks.len() - i,
    {
        proof {
            assert(chunks_view(chunks@.take(i as int + 1)).drop_last() =~= chunks_view(
                chunks@.take(i as int),
            ));
            assert(chunks_view(chunks@.take(i as int + 1)).last() == chunks@[i as int]@);
        }
        match convert_to_str(&chunks[i]) {
            Some(s) => {
                body.append(s.as_str());
            },
            None => {
                proof {
                    assert(body@ + Seq::<char>::empty() =~= body@);
                }
            },
        }
        i = i + 1;
    }
    proof {
        assert(chunks@.take(chunks.len() as int) =~= chunks@);
    }
    Ok(body)
}

} // verus!
