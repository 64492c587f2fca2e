use vstd::prelude::*;
use crate::ownership::byte_len;
use vstd::string::StringSliceAdditionalSpecFns;
use vstd::utf8::encode_utf8;

verus! {

/// The longer of two strings by length in bytes; `y` when they are as long.
pub fn longest_word<'a>(x: &'a String, y: &'a String) -> (r: &'a String)
    ensures
        r == (if byte_len(x@) > byte_len(y@) { x } else { y }),
{
    let xs = x.as_str();
    let ys = y.as_str();
    proof {
        assert(xs.spec_bytes() == encode_utf8(x@));
        assert(ys.spec_bytes() == encode_utf8(y@));
    }
    if xs.len() > ys.len() {
        x
    } else {
        y
    }
}

/// The same choice as [`longest_word`], written with the lifetime that lets
/// it compile.
pub fn longest_word_fail_compile<'a>(x: &'a String, y: &'a String) -> (r: &'a String)
    ensures
        r == (if byte_len(x@) > byte_len(y@) { x } else { y }),
{
    longest_word(x, y)
}

/// Why a file could not be opened.
#[derive(Debug, Clone, Copy, PartialEq, Eq, Structural)]
pub enum OpenFailure {
    /// No file is at the path.
    NotFound,
    /// Any other reason.
    Other,
}

/// What is done when a file could not be opened.
#[derive(Debug, Clone, Copy, PartialEq, Eq, Structural)]
pub enum OpenRecovery {
    /// Create the file.
    Create,
    /// Give up with the error.
    Fail,
}

/// A missing file is created; any other failure to open is fatal.
pub fn recover_open(f: OpenFailure) -> (r: OpenRecovery)
    ensures
        r == (if f == OpenFailure::NotFound {
            OpenRecovery::Create
        } else {
            OpenRecovery::Fail
        }),
{
    match f {
        OpenFailure::NotFound => OpenRecovery::Create,
        OpenFailure::Other => OpenRecovery::Fail,
    }
}

} // verus!
