//! Sources: how a name selects the way its bytes are read, and how the bytes
//! that were read become the content that is split into lines.

use flate2::read::GzDecoder;
use std::io::Read;
use vstd::prelude::*;

verus! {

/// How the bytes of a source are obtained and treated.
#[derive(Clone, Copy, Debug, PartialEq, Eq, Structural)]
pub enum SourceKind {
    /// Standard input, read as it is.
    Stdin,
    /// A file holding one gzip member.
    Gzip,
    /// A file read as it is.
    Plain,
}

/// The name that stands for standard input.
pub open spec fn is_stdin_name(name: Seq<char>) -> bool {
    name == "-"@
}

/// Whether a name ends in `.gz`.
pub open spec fn has_gzip_suffix(name: Seq<char>) -> bool {
    name.len() >= 3 && name.subrange(name.len() - 3, name.len() as int) == ".gz"@
}

/// The kind of the source that a name selects.
pub open spec fn kind_of(name: Seq<char>) -> SourceKind {
    if is_stdin_name(name) {
        SourceKind::Stdin
    } else if has_gzip_suffix(name) {
        SourceKind::Gzip
    } else {
        SourceKind::Plain
    }
}

/// Classifies a source by its name.
pub fn source_kind(name: &str) -> (kind: SourceKind)
    ensures
        kind == kind_of(name@),
{
    proof {
        reveal_strlit("-");
        reveal_strlit(".gz");
    }
    let n: usize = name.unicode_len();
    if n == 1 && name.get_char(0) == '-' {
        assert(name@ =~= "-"@);
        SourceKind::Stdin
    } else if n >= 3 && name.get_char(n - 3) == '.' && name.get_char(n - 2) == 'g'
        && name.get_char(n - 1) == 'z' {
        assert(name@.subrange(name@.len() - 3, name@.len() as int) =~= ".gz"@);
        SourceKind::Gzip
    } else {
        assert(!has_gzip_suffix(name@)) by {
            if name@.len() >= 3 {
                let tail = name@.subrange(name@.len() - 3, name@.len() as int);
                assert(tail[0] == name@[name@.len() - 3]);
                assert(tail[1] == name@[name@.len() - 2]);
                assert(tail[2] == name@[name@.len() - 1]);
            }
        }
        SourceKind::Plain
    }
}

/// What decoding a byte string as one gzip member gives: the inflated bytes,
/// or the text of the decoder's error.
pub uninterp spec fn gunzipped(raw: Seq<u8>) -> Result<Seq<u8>, Seq<char>>;

/// The mathematical value of a content-or-error result.
pub open spec fn content_view(r: Result<Vec<u8>, String>) -> Result<Seq<u8>, Seq<char>> {
    match r {
        Ok(bytes) => Ok(bytes@),
        Err(message) => Err(message@),
    }
}

/// Runs `flate2::read::GzDecoder` over `raw` to the end of its first member.
///
/// Trusted: the decoder reads from memory only, so what it returns is a
/// function of `raw`; that function is `gunzipped`. On failure the result
/// carries the text that the decoder's `std::io::Error` displays.
#[verifier::external_body]
fn gunzip(raw: &[u8]) -> (r: Result<Vec<u8>, String>)
    ensures
        content_view(r) == gunzipped(raw@),
{
    let mut content: Vec<u8> = Vec::new();
    match GzDecoder::new(raw).read_to_end(&mut content) {
        Ok(_) => Ok(content),
        Err(error) => Err(error.to_string()),
    }
}

/// The content of a source, given its name and the bytes read from it: the
/// bytes themselves, or for a gzip source what they inflate to.
pub open spec fn opened(name: Seq<char>, raw: Seq<u8>) -> Result<Seq<u8>, Seq<char>> {
    if kind_of(name) == SourceKind::Gzip {
        gunzipped(raw)
    } else {
        Ok(raw)
    }
}

/// Turns the bytes read from a source into its content. A gzip source that
/// does not inflate yields the decoder's message instead.
pub fn open(name: &str, raw: Vec<u8>) -> (r: Result<Vec<u8>, String>)
    ensures
        content_view(r) == opened(name@, raw@),
{
    match source_kind(name) {
        SourceKind::Gzip => gunzip(raw.as_slice()),
        _ => Ok(raw),
    }
}

} // verus!
