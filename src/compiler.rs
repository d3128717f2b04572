use vstd::prelude::*;
use crate::chunk::Chunk;
use crate::scanner::{is_ascii_bytes, lexes_from, lemma_scan_progress, result_view, Result, Scanner};
use crate::token::{TokenType, TokenTypeView, TokenView};
use crate::value::Value;

verus! {

/// Whether the front end accepts `source`: ASCII text, shorter than
/// `usize::MAX` bytes, that scans to its end without a lexical error.
pub open spec fn compiles(source: Seq<u8>) -> bool {
    &&& is_ascii_bytes(source)
    &&& source.len() < usize::MAX
    &&& lexes_from(source, 0, 1)
}

/// Whether every byte of `source` is ASCII.
pub fn is_ascii_source(source: &[u8]) -> (r: bool)
    ensures
        r == is_ascii_bytes(source@),
{
    let mut i: usize = 0;
    while i < source.len()
        invariant
            i <= source@.len(),
            forall|k: int| 0 <= k < i ==> #[trigger] source@[k] < 128,
        decreases source@.len() - i,
    {
        if source[i] >= 128 {
            return false;
        }
        i = i + 1;
    }
    true
}

/// The front-end pass: checks that `source` is ASCII text and lexes to its
/// end, stopping at the first lexical error. Code generation is not part of
/// this library, so this pass emits nothing.
pub fn compile(source: &[u8]) -> (r: bool)
    ensures
        r == compiles(source@),
{
    if source.len() == usize::MAX || !is_ascii_source(source) {
        return false;
    }
    let ghost src = source@;
    let mut scanner = Scanner::new(source);
    loop
        invariant
            scanner.wf(),
            scanner.source() == src,
            src == source@,
            is_ascii_bytes(src),
            src.len() < usize::MAX,
            lexes_from(src, scanner.current(), scanner.line()) == lexes_from(src, 0, 1),
        decreases src.len() - scanner.current(),
    {
        let ghost pos = scanner.current();
        let ghost line = scanner.line();
        proof {
            scanner.lemma_wf_bounds();
            lemma_scan_progress(src, pos, line);
        }
        match scanner.scan_token() {
            Err(_) => return false,
            Ok(t) => {
                if let TokenType::Eof = t.token_type() {
                    return true;
                }
            },
        }
    }
}

/// The parser's state: the scanner it reads from, the chunk it fills, and the
/// last two scan results.
pub struct Parser<'a> {
    scanner: Scanner<'a>,
    chunk: Chunk,
    previous: Result,
    current: Result,
}

impl<'a> Parser<'a> {
    pub closed spec fn scanner(&self) -> Scanner<'a> {
        self.scanner
    }

    pub closed spec fn chunk(&self) -> Chunk {
        self.chunk
    }

    pub closed spec fn previous(&self) -> std::result::Result<TokenView, crate::scanner::Error> {
        result_view(self.previous)
    }

    pub closed spec fn current(&self) -> std::result::Result<TokenView, crate::scanner::Error> {
        result_view(self.current)
    }

    /// A parser whose current (and previous) token is the first one `scanner`
    /// yields, with an empty chunk.
    pub fn new(scanner: Scanner<'a>) -> (r: Parser<'a>)
        requires
            scanner.wf(),
        ensures
            r.scanner().wf(),
            r.scanner().source() == scanner.source(),
            (r.current(), r.scanner().current(), r.scanner().line()) == crate::scanner::scan(
                scanner.source(),
                scanner.current(),
                scanner.line(),
            ),
            r.previous() == r.current(),
            r.chunk().wf(),
            r.chunk().code() == Seq::<u8>::empty(),
            r.chunk().constants() == Seq::<Value>::empty(),
    {
        let mut scanner = scanner;
        let current = scanner.scan_token();
        let previous = match &current {
            Ok(t) => Ok(t.duplicate()),
            Err(e) => Err(*e),
        };
        Parser { scanner, chunk: Chunk::new(), previous, current }
    }
}

} // verus!
