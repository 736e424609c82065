use vstd::prelude::*;

use vstd::string::StrSliceExecFns;
use vstd::string::StringSliceAdditionalSpecFns;

use crate::token::Length;
use crate::token::Token;
use crate::token::lemma_token_at_placed;
use crate::token::parse_token;
use crate::token::scan_from;
use crate::token::token_models;

verus! {

/// The mathematical value of a [`Cursor`]: the scanned text as a byte
/// sequence together with the current byte offset into it.
pub struct CursorModel {
    pub text: Seq<u8>,
    pub position: int,
}

/// Owns the input text as bytes and a single monotonically increasing byte
/// offset. Spans are always measured in bytes, never in characters, so that
/// they stay consistent with slicing.
pub struct Cursor {
    input: Vec<u8>,
    input_len: usize,
    pos: usize,
}

impl View for Cursor {
    type V = CursorModel;

    closed spec fn view(&self) -> CursorModel {
        CursorModel { text: self.input@, position: self.pos as int }
    }
}

impl Cursor {
    /// The cursor's invariant: the recorded length is the text's byte length
    /// and the offset never lies past the end of the text.
    pub closed spec fn wf(&self) -> bool {
        self.input_len == self.input@.len() && self.pos <= self.input_len
    }

    /// A byte sequence held by a vector is never longer than `usize::MAX`.
    pub proof fn lemma_len_bound(&self)
        requires
            self.wf(),
        ensures
            self@.text.len() <= usize::MAX,
    {
    }

    /// Records the text as its UTF-8 bytes and its byte length, and starts
    /// at offset zero.
    pub fn new(input: &str) -> (cursor: Cursor)
        ensures
            cursor.wf(),
            cursor@.text == input.spec_bytes(),
            cursor@.position == 0,
    {
        let bytes = input.as_bytes_vec();
        let input_len = bytes.len();
        Cursor { input: bytes, input_len, pos: 0 }
    }

    /// Drives the full scan: while the offset lies inside the text, lets the
    /// dispatch routine recognise the next token, advances by the token's
    /// length, and appends the token. Because every dispatch result is at
    /// least one byte long, the loop terminates with the offset exactly at
    /// the end of the text.
    pub fn read(&mut self) -> (tokens: Vec<Token>)
        requires
            old(self).wf(),
        ensures
            final(self).wf(),
            final(self)@.text == old(self)@.text,
            final(self)@.position == old(self)@.text.len(),
            token_models(tokens@) == scan_from(old(self)@.text, old(self)@.position),
            forall|i: int| 0 <= i < tokens@.len() ==> (#[trigger] tokens@[i]).len_wf(),
    {
        let ghost text0 = self@.text;
        let ghost p0 = self@.position;
        let mut tokens: Vec<Token> = Vec::new();
        while self.pos < self.input_len
            invariant
                self.wf(),
                self@.text == text0,
                scan_from(text0, p0) == token_models(tokens@) + scan_from(
                    text0,
                    self@.position,
                ),
                forall|i: int| 0 <= i < tokens@.len() ==> (#[trigger] tokens@[i]).len_wf(),
            decreases self@.text.len() - self@.position,
        {
            let token = parse_token(self);
            proof {
                lemma_token_at_placed(self@.text, self@.position);
            }
            let len = token.length();
            let ghost pos_before = self@.position;
            let ghost tokens_before = tokens@;
            self.advance(len);
            tokens.push(token);
            proof {
                assert(scan_from(text0, pos_before) == seq![token@] + scan_from(
                    text0,
                    self@.position,
                ));
                assert(token_models(tokens@) =~= token_models(tokens_before).push(token@));
                assert(token_models(tokens@) + scan_from(text0, self@.position)
                    =~= token_models(tokens_before) + scan_from(text0, pos_before));
            }
        }
        proof {
            assert(token_models(tokens@) =~= token_models(tokens@) + scan_from(
                text0,
                self@.position,
            ));
        }
        tokens
    }

    /// Returns the current byte offset; a read-only probe with no side effect.
    pub fn position(&self) -> (p: usize)
        ensures
            p == self@.position,
    {
        self.pos
    }

    /// The byte length of the input text.
    pub(crate) fn byte_length(&self) -> (n: usize)
        requires
            self.wf(),
        ensures
            n == self@.text.len(),
    {
        self.input_len
    }

    /// The single byte at offset `i`.
    pub(crate) fn byte_at(&self, i: usize) -> (b: u8)
        requires
            self.wf(),
            i < self@.text.len(),
        ensures
            b == self@.text[i as int],
    {
        self.input[i]
    }

    /// Moves the offset forward by exactly `len` bytes. The caller guarantees
    /// that `len` is the length of the token just recognised at the current
    /// offset; bounds validation lives in the read loop's termination
    /// condition.
    pub fn advance(&mut self, len: usize)
        requires
            old(self).wf(),
            old(self)@.position + len <= old(self)@.text.len(),
        ensures
            final(self).wf(),
            final(self)@.text == old(self)@.text,
            final(self)@.position == old(self)@.position + len,
    {
        self.pos += len;
    }

    /// Copies the bytes of `text[start..end]`. Out-of-range or inverted
    /// bounds yield an empty result rather than a failure: the dispatch
    /// routine legitimately probes one byte past the end of the text to test
    /// for end of input.
    pub fn extract_substring(&self, start: usize, end: usize) -> (r: Vec<u8>)
        requires
            self.wf(),
        ensures
            r@ == extract_spec(self@.text, start as int, end as int),
    {
        if start > self.input_len || end > self.input_len || start > end {
            return Vec::new();
        }
        let mut r: Vec<u8> = Vec::new();
        let mut i: usize = start;
        while i < end
            invariant
                start <= i <= end <= self.input@.len(),
                r@ == self.input@.subrange(start as int, i as int),
            decreases end - i,
        {
            r.push(self.input[i]);
            proof {
                assert(r@ =~= self.input@.subrange(start as int, i + 1));
            }
            i += 1;
        }
        r
    }
}

/// What [`Cursor::extract_substring`] returns: the byte range `[start, end)`
/// of `t`, or the empty sequence when the bounds fall outside the text or
/// cross each other.
pub open spec fn extract_spec(t: Seq<u8>, start: int, end: int) -> Seq<u8> {
    if start > t.len() || end > t.len() || start > end {
        Seq::empty()
    } else {
        t.subrange(start, end)
    }
}

} // verus!
