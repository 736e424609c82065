use vstd::prelude::*;

use crate::token::TokenModel;
use crate::token::lemma_token_at_placed;
use crate::token::scan_from;
use crate::token::token_at;
use crate::token::token_model_at;
use crate::token::token_model_len;

verus! {

/// A token sequence tiles `t` from offset `p` to the end of the text: each
/// token is placed exactly where the previous one stopped -- no gaps, no
/// overlaps, order preserved -- and the last one stops at the end.
pub open spec fn covers(t: Seq<u8>, ts: Seq<TokenModel>, p: int) -> bool
    decreases ts.len(),
{
    if ts.len() == 0 {
        p == t.len()
    } else {
        token_model_at(t, ts[0], p) && covers(t, ts.skip(1), p + token_model_len(ts[0]))
    }
}

/// The span a positioned token carries; absent for the fallback variant,
/// which carries its bytes directly.
pub open spec fn token_model_span(tm: TokenModel) -> Option<(usize, usize)> {
    match tm {
        TokenModel::Keyword(k) => match k {
            crate::token::Keyword::Function(a, b) => Some((a, b)),
            crate::token::Keyword::Struct(a, b) => Some((a, b)),
            crate::token::Keyword::Let(a, b) => Some((a, b)),
        },
        TokenModel::Operator(o) => match o {
            crate::token::Operator::Assign(a, b) => Some((a, b)),
            crate::token::Operator::Equality(a, b) => Some((a, b)),
            crate::token::Operator::Unequality(a, b) => Some((a, b)),
            crate::token::Operator::And(a, b) => Some((a, b)),
            crate::token::Operator::Or(a, b) => Some((a, b)),
            crate::token::Operator::Add(a, b) => Some((a, b)),
            crate::token::Operator::Subtract(a, b) => Some((a, b)),
        },
        TokenModel::Scope(s) => match s {
            crate::token::Scope::ParenthesisOpen(a, b) => Some((a, b)),
            crate::token::Scope::ParenthesisClose(a, b) => Some((a, b)),
            crate::token::Scope::SquareBracketOpen(a, b) => Some((a, b)),
            crate::token::Scope::SquareBracketClose(a, b) => Some((a, b)),
            crate::token::Scope::BraceOpen(a, b) => Some((a, b)),
            crate::token::Scope::BraceClose(a, b) => Some((a, b)),
            crate::token::Scope::ChevronOpen(a, b) => Some((a, b)),
            crate::token::Scope::ChevronClose(a, b) => Some((a, b)),
        },
        TokenModel::Unknown(_) => None,
        TokenModel::Whitespace(a, b) => Some((a, b)),
    }
}

/// The bytes of `t` that a token stands for: the bytes of its span, or, for
/// the fallback variant, the bytes it carries.
pub open spec fn token_model_bytes(t: Seq<u8>, tm: TokenModel) -> Seq<u8> {
    match tm {
        TokenModel::Unknown(v) => v,
        _ => match token_model_span(tm) {
            Some(span) => t.subrange(span.0 as int, span.1 as int),
            None => Seq::empty(),
        },
    }
}

/// The concatenation of the bytes that the tokens of a sequence stand for.
pub open spec fn concat_bytes(t: Seq<u8>, ts: Seq<TokenModel>) -> Seq<u8>
    decreases ts.len(),
{
    if ts.len() == 0 {
        Seq::empty()
    } else {
        token_model_bytes(t, ts[0]) + concat_bytes(t, ts.skip(1))
    }
}

/// A scan started at any in-range offset tiles the rest of the text.
pub proof fn lemma_scan_covers(t: Seq<u8>, p: int)
    requires
        0 <= p <= t.len(),
        t.len() <= usize::MAX,
    ensures
        covers(t, scan_from(t, p), p),
    decreases t.len() - p,
{
    if p < t.len() {
        lemma_token_at_placed(t, p);
        let l = token_model_len(token_at(t, p));
        lemma_scan_covers(t, p + l);
        assert((seq![token_at(t, p)] + scan_from(t, p + l)).skip(1) =~= scan_from(t, p + l));
    }
}

/// Tiling token sequences reconstruct the tiled part of the text exactly.
pub proof fn lemma_covers_concat(t: Seq<u8>, ts: Seq<TokenModel>, p: int)
    requires
        0 <= p <= t.len(),
        covers(t, ts, p),
    ensures
        concat_bytes(t, ts) == t.subrange(p, t.len() as int),
    decreases ts.len(),
{
    if ts.len() == 0 {
        assert(concat_bytes(t, ts) =~= t.subrange(p, t.len() as int));
    } else {
        let l = token_model_len(ts[0]);
        lemma_covers_concat(t, ts.skip(1), p + l);
        assert(token_model_bytes(t, ts[0]) == t.subrange(p, p + l));
        assert(t.subrange(p, t.len() as int) =~= t.subrange(p, p + l) + t.subrange(
            p + l,
            t.len() as int,
        ));
    }
}

/// Coverage: for any input text, the token sequence of a full scan tiles the
/// whole input -- contiguous spans, no gaps, no overlaps, order preserved --
/// and concatenating the bytes those tokens stand for reconstructs the input
/// exactly.
pub proof fn lemma_scan_reconstructs(t: Seq<u8>)
    requires
        t.len() <= usize::MAX,
    ensures
        covers(t, scan_from(t, 0), 0),
        concat_bytes(t, scan_from(t, 0)) == t,
{
    lemma_scan_covers(t, 0);
    lemma_covers_concat(t, scan_from(t, 0), 0);
    assert(t.subrange(0, t.len() as int) =~= t);
}

/// Termination and progress: every token of a scan is at least one byte
/// long, so a scan of `n` bytes performs at most `n` dispatch attempts.
pub proof fn lemma_scan_progress(t: Seq<u8>, p: int)
    requires
        0 <= p <= t.len(),
        t.len() <= usize::MAX,
    ensures
        forall|i: int|
            0 <= i < scan_from(t, p).len() ==> token_model_len(scan_from(t, p)[i]) >= 1,
    decreases t.len() - p,
{
    if p < t.len() {
        lemma_token_at_placed(t, p);
        let l = token_model_len(token_at(t, p));
        lemma_scan_progress(t, p + l);
        assert forall|i: int|
            0 <= i < scan_from(t, p).len() implies token_model_len(scan_from(t, p)[i]) >= 1 by {
            if i > 0 {
                assert(scan_from(t, p)[i] == scan_from(t, p + l)[i - 1]);
            }
        }
    }
}

/// Idempotence of re-scan: the scan is a pure function of the input text, so
/// two scans of the same input yield identical token sequences; no hidden
/// mutable state can affect the result.
pub proof fn lemma_rescan_identical(t: Seq<u8>, first: Seq<TokenModel>, second: Seq<TokenModel>)
    requires
        first == scan_from(t, 0),
        second == scan_from(t, 0),
    ensures
        first == second,
{
}

} // verus!
