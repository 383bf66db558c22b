//! Lines: how the content of a source is cut into lines, and how the bytes of
//! a line become text.

use vstd::prelude::*;
use vstd::slice::{slice_subrange, slice_to_vec};
use vstd::utf8::{decode_utf8, valid_utf8};

verus! {

/// The line feed byte, which ends a line.
pub const LF: u8 = 10;

/// The carriage return byte, dropped where it stands before a line feed.
pub const CR: u8 = 13;

/// The index of the first line feed in `bytes`, or their length if there is
/// none.
pub open spec fn first_newline(bytes: Seq<u8>) -> int
    decreases bytes.len(),
{
    if bytes.len() == 0 || bytes[0] == LF {
        0
    } else {
        1 + first_newline(bytes.skip(1))
    }
}

/// A line without the carriage return that stood before its line feed.
pub open spec fn strip_cr(line: Seq<u8>) -> Seq<u8> {
    if line.len() > 0 && line.last() == CR {
        line.drop_last()
    } else {
        line
    }
}

/// The lines of a content: each run of bytes up to a line feed, without the
/// line feed and without a carriage return before it, and what follows the
/// last line feed if anything does.
pub open spec fn lines_of(content: Seq<u8>) -> Seq<Seq<u8>>
    decreases content.len(),
{
    let n = first_newline(content);
    if content.len() == 0 {
        seq![]
    } else if 0 <= n < content.len() {
        seq![strip_cr(content.take(n))] + lines_of(content.skip(n + 1))
    } else {
        seq![content]
    }
}

/// `first_newline` is the one index that has a line feed, or the end, with no
/// line feed before it.
pub proof fn lemma_first_newline(bytes: Seq<u8>, n: int)
    requires
        0 <= n <= bytes.len(),
        forall|k: int| 0 <= k < n ==> bytes[k] != LF,
        n < bytes.len() ==> bytes[n] == LF,
    ensures
        first_newline(bytes) == n,
    decreases n,
{
    if n > 0 {
        let rest = bytes.skip(1);
        assert forall|k: int| 0 <= k < n - 1 implies rest[k] != LF by {
            assert(rest[k] == bytes[k + 1]);
        }
        lemma_first_newline(rest, n - 1);
    }
}

/// Where `first_newline` points: inside the bytes or at their end, at a line
/// feed if inside, with no line feed before it.
pub proof fn lemma_first_newline_is_first(bytes: Seq<u8>)
    ensures
        0 <= first_newline(bytes) <= bytes.len(),
        first_newline(bytes) < bytes.len() ==> bytes[first_newline(bytes)] == LF,
        forall|k: int| 0 <= k < first_newline(bytes) ==> bytes[k] != LF,
    decreases bytes.len(),
{
    if bytes.len() > 0 && bytes[0] != LF {
        let rest = bytes.skip(1);
        lemma_first_newline_is_first(rest);
        assert forall|k: int| 0 <= k < first_newline(bytes) implies bytes[k] != LF by {
            if k > 0 {
                assert(bytes[k] == rest[k - 1]);
            }
        }
    }
}

/// No line holds a line feed.
pub proof fn law_lines_hold_no_line_feed(content: Seq<u8>, i: int, k: int)
    requires
        0 <= i < lines_of(content).len(),
        0 <= k < lines_of(content)[i].len(),
    ensures
        lines_of(content)[i][k] != LF,
    decreases content.len(),
{
    let n = first_newline(content);
    lemma_first_newline_is_first(content);
    if n < content.len() {
        if i == 0 {
            assert(strip_cr(content.take(n))[k] == content[k]);
        } else {
            law_lines_hold_no_line_feed(content.skip(n + 1), i - 1, k);
        }
    }
}

/// The byte strings that a vector of byte vectors holds.
pub open spec fn byte_lines(lines: Seq<Vec<u8>>) -> Seq<Seq<u8>> {
    Seq::new(lines.len(), |i: int| lines[i]@)
}

/// Cuts a content into its lines.
pub fn split_lines(content: &Vec<u8>) -> (lines: Vec<Vec<u8>>)
    ensures
        byte_lines(lines@) == lines_of(content@),
{
    let mut lines: Vec<Vec<u8>> = Vec::new();
    let mut start: usize = 0;
    let mut i: usize = 0;
    assert(content@.skip(0) =~= content@);
    assert(byte_lines(lines@) =~= Seq::<Seq<u8>>::empty());
    while i < content.len()
        invariant
            start <= i <= content.len(),
            forall|k: int| start <= k < i ==> content@[k] != LF,
            lines_of(content@) == byte_lines(lines@) + lines_of(content@.skip(start as int)),
        decreases content.len() - i,
    {
        if content[i] == LF {
            let end: usize = if i > start && content[i - 1] == CR {
                i - 1
            } else {
                i
            };
            let line = slice_to_vec(slice_subrange(content.as_slice(), start, end));
            proof {
                let rest = content@.skip(start as int);
                lemma_first_newline(rest, i - start);
                assert(rest.skip(i - start + 1) =~= content@.skip(i + 1));
                assert(strip_cr(rest.take(i - start)) =~= line@);
                assert(byte_lines(lines@).push(line@) + lines_of(content@.skip(i + 1))
                    =~= byte_lines(lines@) + lines_of(rest));
            }
            let ghost before = byte_lines(lines@);
            lines.push(line);
            assert(byte_lines(lines@) =~= before.push(line@));
            start = i + 1;
        }
        i += 1;
    }
    if start < content.len() {
        let line = slice_to_vec(slice_subrange(content.as_slice(), start, content.len()));
        proof {
            let rest = content@.skip(start as int);
            lemma_first_newline(rest, rest.len() as int);
            assert(rest =~= line@);
            assert(lines_of(rest) =~= seq![line@]);
        }
        let ghost before = byte_lines(lines@);
        lines.push(line);
        assert(byte_lines(lines@) =~= before.push(line@));
        assert(before.push(line@) =~= before + seq![line@]);
    } else {
        assert(lines_of(content@.skip(start as int)) =~= Seq::<Seq<u8>>::empty());
        assert(byte_lines(lines@) + Seq::<Seq<u8>>::empty() =~= byte_lines(lines@));
    }
    lines
}

/// The error of `core::str::from_utf8`, carried and never looked into.
#[verifier::external_type_specification]
#[verifier::external_body]
pub struct ExUtf8Error(core::str::Utf8Error);

/// `core::str::from_utf8` succeeds exactly on well-formed UTF-8, and then
/// gives the text that the bytes encode.
pub assume_specification[ core::str::from_utf8 ](v: &[u8]) -> (r: Result<&str, core::str::Utf8Error>)
    ensures
        r is Ok <==> valid_utf8(v@),
        r matches Ok(text) ==> text@ == decode_utf8(v@),
;

/// What `String::from_utf8_lossy` makes of a byte string: its text with each
/// ill-formed part replaced by U+FFFD.
pub uninterp spec fn lossy_text(bytes: Seq<u8>) -> Seq<char>;

/// Calls `String::from_utf8_lossy`.
///
/// Trusted: the result is a function of the bytes, named `lossy_text`.
#[verifier::external_body]
fn text_lossy(bytes: &[u8]) -> (text: String)
    ensures
        text@ == lossy_text(bytes@),
{
    String::from_utf8_lossy(bytes).into_owned()
}

/// One line of a source, as text.
#[derive(Debug)]
pub struct Line {
    /// The text of the line; where its bytes are no UTF-8, a readable
    /// rendering of them.
    pub text: String,
    /// Whether the bytes of the line are UTF-8, so that `text` is the line.
    pub decodable: bool,
}

/// The mathematical value of a `Line`.
pub struct LineView {
    pub text: Seq<char>,
    pub decodable: bool,
}

impl LineView {
    /// Whether the line can be a message at all: it is text, and not empty.
    pub open spec fn is_candidate(self) -> bool {
        self.decodable && self.text.len() > 0
    }
}

impl View for Line {
    type V = LineView;

    open spec fn view(&self) -> LineView {
        LineView { text: self.text@, decodable: self.decodable }
    }
}

/// The line that a byte string stands for.
pub open spec fn line_of(bytes: Seq<u8>) -> LineView {
    if valid_utf8(bytes) {
        LineView { text: decode_utf8(bytes), decodable: true }
    } else {
        LineView { text: lossy_text(bytes), decodable: false }
    }
}

/// Turns the bytes of a line into text.
pub fn read_line(bytes: &Vec<u8>) -> (line: Line)
    ensures
        line@ == line_of(bytes@),
{
    match core::str::from_utf8(bytes.as_slice()) {
        Ok(text) => Line { text: String::from_str(text), decodable: true },
        Err(_) => Line { text: text_lossy(bytes.as_slice()), decodable: false },
    }
}

/// The lines that a vector of lines holds.
pub open spec fn text_lines(lines: Seq<Line>) -> Seq<LineView> {
    Seq::new(lines.len(), |i: int| lines[i]@)
}

/// The lines of a content, as text.
pub open spec fn text_lines_of(content: Seq<u8>) -> Seq<LineView> {
    lines_of(content).map_values(|bytes: Seq<u8>| line_of(bytes))
}

/// Cuts a content into lines of text.
pub fn read_lines(content: &Vec<u8>) -> (lines: Vec<Line>)
    ensures
        text_lines(lines@) == text_lines_of(content@),
{
    let raw = split_lines(content);
    let mut lines: Vec<Line> = Vec::new();
    let mut i: usize = 0;
    while i < raw.len()
        invariant
            i <= raw.len(),
            lines.len() == i,
            byte_lines(raw@) == lines_of(content@),
            forall|k: int| 0 <= k < i ==> (#[trigger] lines[k])@ == line_of(raw[k]@),
        decreases raw.len() - i,
    {
        lines.push(read_line(&raw[i]));
        i += 1;
    }
    assert(text_lines(lines@) =~= text_lines_of(content@)) by {
        assert forall|k: int| 0 <= k < lines.len() implies text_lines(lines@)[k]
            == text_lines_of(content@)[k] by {
            assert(byte_lines(raw@)[k] == raw[k]@);
        }
    }
    lines
}

} // verus!
