use vstd::prelude::*;
use percent_encoding::percent_decode_str;

verus! {

/// What `percent_decode_str(input).decode_utf8_lossy()` gives for `input`:
/// every `%` followed by two hexadecimal digits becomes the byte they
/// spell, and the bytes are then read as UTF-8, a replacement character
/// standing for each invalid sequence.
pub uninterp spec fn percent_decoded(input: Seq<char>) -> Seq<char>;

/// Calls `percent_encoding::percent_decode_str` and then `decode_utf8_lossy`
/// on its result. The contract names the result `percent_decoded(input)` and
/// states one fact of its source: a string without `%` decodes to itself,
/// since each byte other than `%` is passed on unchanged and valid UTF-8
/// reads back as the same text.
#[verifier::external_body]
fn decode_percent_lossy(input: &str) -> (r: String)
    ensures
        r@ == percent_decoded(input@),
        !input@.contains('%') ==> r@ == input@,
{
    percent_decode_str(input).decode_utf8_lossy().into_owned()
}

/// The path parameters of an image request.
pub struct Params {
    pub spec: String,
    pub url: String,
}

/// The HTTP status `400 Bad Request`.
pub const BAD_REQUEST: u16 = 400;

/// The reply to an image request: `"ok"` when the spec parses, else
/// `400 Bad Request`; the url is percent-decoded on the way, and the
/// decoded url is handed back too.
pub fn generate(params: &Params, spec_parses: bool) -> (r: (String, Result<String, u16>))
    ensures
        r.0@ == percent_decoded(params.url@),
        match r.1 {
            Ok(s) => spec_parses && s@ == "ok"@,
            Err(code) => !spec_parses && code == BAD_REQUEST,
        },
{
    let url = decode_percent_lossy(params.url.as_str());
    if !spec_parses {
        return (url, Err(BAD_REQUEST));
    }
    (url, Ok(String::from_str("ok")))
}

} // verus!
