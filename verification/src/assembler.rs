//! The assembler: MIPS assembly source to a program image.
use vstd::prelude::*;

pub mod parser;

use crate::instruction::{decode_spec, encode, encode_spec, lemma_encoded_word_roundtrip};
use crate::text::{chars_of, split_on, string_from_range, trim, trim_range};
use parser::{parse_chars, parse_line_spec, ParseError, ParseErrorView, Parsed, ParsedView};

verus! {

pub const TEXT_START: u32 = 0x0040_0000;
pub const DATA_START: u32 = 0x1000_0000;

/// An assembled program: machine words for the text segment and bytes for the data segment.
pub struct Image {
    pub text: Vec<u32>,
    pub text_start: u32,
    pub data: Vec<u8>,
    pub data_start: u32,
    pub entry: u32,
}

impl Image {
    /// An empty image with the conventional segment addresses and the entry at the text start.
    pub fn new() -> (img: Self)
        ensures
            img.text@ == Seq::<u32>::empty(),
            img.data@ == Seq::<u8>::empty(),
            img.text_start == TEXT_START,
            img.data_start == DATA_START,
            img.entry == TEXT_START,
    {
        Image {
            text: Vec::new(),
            text_start: TEXT_START,
            data: Vec::new(),
            data_start: DATA_START,
            entry: TEXT_START,
        }
    }
}

/// A line that did not assemble: its number (from 1), its trimmed text, and why.
#[derive(Debug)]
pub struct LineError {
    pub line_num: usize,
    pub line: String,
    pub error: ParseError,
}

pub open spec fn line_errors_view(errors: Seq<LineError>) -> Seq<(int, Seq<char>, ParseErrorView)> {
    Seq::new(errors.len(), |i: int| (errors[i].line_num as int, errors[i].line@, errors[i].error@))
}

/// The outcome for one trimmed line that is neither blank nor a comment: its machine word, or
/// the error. No line can define a label, so a branch or jump names an undefined one.
pub open spec fn assemble_line_spec(t: Seq<char>) -> Result<u32, ParseErrorView> {
    match parse_line_spec(t) {
        Err(e) => Err(e),
        Ok(ParsedView::Ready(inst)) => Ok(encode_spec(inst)),
        Ok(ParsedView::Branch { label, .. }) => Err(ParseErrorView::UndefinedLabel { label }),
        Ok(ParsedView::Jump { label }) => Err(ParseErrorView::UndefinedLabel { label }),
    }
}

/// The words assembled from `lines`, and the errors met (line number, trimmed line, error).
/// Blank lines and lines starting with `#` are skipped.
pub open spec fn assemble_lines(lines: Seq<Seq<char>>) -> (Seq<u32>, Seq<(int, Seq<char>, ParseErrorView)>)
    decreases lines.len(),
{
    if lines.len() == 0 {
        (Seq::empty(), Seq::empty())
    } else {
        let prev = assemble_lines(lines.drop_last());
        let t = trim(lines.last());
        if t.len() == 0 || t[0] == '#' {
            prev
        } else {
            match assemble_line_spec(t) {
                Ok(w) => (prev.0.push(w), prev.1),
                Err(e) => (prev.0, prev.1.push((lines.len() as int, t, e))),
            }
        }
    }
}

/// The outcome of assembling a whole source text, line by line.
pub open spec fn assemble_spec(src: Seq<char>) -> (Seq<u32>, Seq<(int, Seq<char>, ParseErrorView)>) {
    assemble_lines(split_on(src, '\n'))
}

fn assemble_line(
    a: &[char],
    lo: usize,
    hi: usize,
    line_num: usize,
    img: &mut Image,
    errors: &mut Vec<LineError>,
)
    requires
        lo <= hi <= a@.len(),
    ensures
        ({
            let t = trim(a@.subrange(lo as int, hi as int));
            if t.len() == 0 || t[0] == '#' {
                final(img).text@ == old(img).text@ && line_errors_view(final(errors)@)
                    == line_errors_view(old(errors)@)
            } else {
                match assemble_line_spec(t) {
                    Ok(w) => final(img).text@ == old(img).text@.push(w) && line_errors_view(
                        final(errors)@,
                    ) == line_errors_view(old(errors)@),
                    Err(e) => final(img).text@ == old(img).text@ && line_errors_view(
                        final(errors)@,
                    ) == line_errors_view(old(errors)@).push((line_num as int, t, e)),
                }
            }
        }),
        final(img).data@ == old(img).data@,
        final(img).text_start == old(img).text_start,
        final(img).data_start == old(img).data_start,
        final(img).entry == old(img).entry,
{
    let (l, h) = trim_range(a, lo, hi);
    if h == l || a[l] == '#' {
        return ;
    }
    let ghost t = a@.subrange(l as int, h as int);
    let ghost before = line_errors_view(errors@);
    let outcome = match parse_chars(a, l, h) {
        Ok(Parsed::Ready(inst)) => {
            proof {
                parser::lemma_parsed_encodable(t);
            }
            Ok(encode(&inst))
        },
        Ok(Parsed::Branch { label, .. }) => Err(ParseError::UndefinedLabel { label }),
        Ok(Parsed::Jump { label }) => Err(ParseError::UndefinedLabel { label }),
        Err(e) => Err(e),
    };
    match outcome {
        Ok(w) => {
            img.text.push(w);
        },
        Err(error) => {
            let line = string_from_range(a, l, h);
            errors.push(LineError { line_num, line, error });
            assert(line_errors_view(errors@) =~= before.push((line_num as int, t, errors@.last().error@)));
        },
    }
}

/// Assemble a source text. Every line is tried; if any fails, all failures are returned.
/// (The length bound only keeps line numbers within `usize`.)
pub fn assemble_source(src: &str) -> (r: Result<Image, Vec<LineError>>)
    requires
        src@.len() < usize::MAX,
    ensures
        match r {
            Ok(img) => {
                &&& assemble_spec(src@).1.len() == 0
                &&& img.text@ == assemble_spec(src@).0
                &&& img.data@ == Seq::<u8>::empty()
                &&& img.text_start == TEXT_START
                &&& img.data_start == DATA_START
                &&& img.entry == TEXT_START
            },
            Err(errors) => {
                &&& assemble_spec(src@).1.len() > 0
                &&& line_errors_view(errors@) == assemble_spec(src@).1
            },
        },
{
    let chars = chars_of(src);
    let a = chars.as_slice();
    let n = chars.len();
    let mut img = Image::new();
    let mut errors: Vec<LineError> = Vec::new();
    let ghost mut lines: Seq<Seq<char>> = Seq::empty();
    let mut start: usize = 0;
    let mut k: usize = 0;
    let mut count: usize = 0;
    assert(a@.subrange(0, 0) =~= Seq::<char>::empty());
    assert(split_on(Seq::<char>::empty(), '\n') =~= lines.push(Seq::<char>::empty()));
    assert(line_errors_view(errors@) =~= Seq::empty());
    while k < n
        invariant
            n == a@.len(),
            n < usize::MAX,
            a@ == src@,
            start <= k <= n,
            split_on(a@.subrange(0, k as int), '\n') == lines.push(
                a@.subrange(start as int, k as int),
            ),
            img.text@ == assemble_lines(lines).0,
            line_errors_view(errors@) == assemble_lines(lines).1,
            img.data@ == Seq::<u8>::empty(),
            img.text_start == TEXT_START,
            img.data_start == DATA_START,
            img.entry == TEXT_START,
            count == lines.len(),
            count <= k,
        decreases n - k,
    {
        let ghost prefix = a@.subrange(0, k + 1);
        assert(prefix.drop_last() =~= a@.subrange(0, k as int));
        if a[k] == '\n' {
            let ghost line = a@.subrange(start as int, k as int);
            assemble_line(a, start, k, count + 1, &mut img, &mut errors);
            proof {
                assert(lines.push(line).drop_last() =~= lines);
                lines = lines.push(line);
            }
            start = k + 1;
            count = count + 1;
            assert(a@.subrange(start as int, k + 1) =~= Seq::<char>::empty());
        } else {
            assert(a@.subrange(start as int, k + 1) =~= a@.subrange(start as int, k as int).push(
                a@[k as int],
            ));
        }
        k = k + 1;
    }
    let ghost line = a@.subrange(start as int, n as int);
    assemble_line(a, start, n, count + 1, &mut img, &mut errors);
    proof {
        assert(a@.subrange(0, n as int) =~= src@);
        assert(lines.push(line).drop_last() =~= lines);
        lines = lines.push(line);
    }
    if errors.len() > 0 {
        Err(errors)
    } else {
        Ok(img)
    }
}

/// Every word the assembler emits decodes, and encoding the decoded instruction gives the
/// very same word back.
pub proof fn lemma_assembled_words_roundtrip(lines: Seq<Seq<char>>)
    ensures
        forall|i: int|
            0 <= i < assemble_lines(lines).0.len() ==> {
                let w = #[trigger] assemble_lines(lines).0[i];
                &&& decode_spec(w) is Some
                &&& encode_spec(decode_spec(w)->0) == w
            },
    decreases lines.len(),
{
    if lines.len() > 0 {
        lemma_assembled_words_roundtrip(lines.drop_last());
        let t = trim(lines.last());
        parser::lemma_parsed_encodable(t);
        if let Ok(ParsedView::Ready(inst)) = parse_line_spec(t) {
            lemma_encoded_word_roundtrip(inst);
        }
    }
}

/// The same for a whole source text.
pub proof fn lemma_assembled_program_roundtrip(src: Seq<char>)
    ensures
        forall|i: int|
            0 <= i < assemble_spec(src).0.len() ==> {
                let w = #[trigger] assemble_spec(src).0[i];
                &&& decode_spec(w) is Some
                &&& encode_spec(decode_spec(w)->0) == w
            },
{
    lemma_assembled_words_roundtrip(split_on(src, '\n'));
}

} // verus!
