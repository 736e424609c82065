use vstd::prelude::*;

use crate::cursor::Cursor;

verus! {

// ========================== Token data model ==========================

/// Everything a scan produces knows the byte length of the span it covers;
/// the read loop advances the cursor by exactly this much.
pub trait Length {
    /// The span is well formed: its start does not lie past its end.
    spec fn len_wf(&self) -> bool;

    /// The byte length of the construct, as a mathematical integer.
    spec fn spec_length(&self) -> int;

    fn length(&self) -> (n: usize)
        requires
            self.len_wf(),
        ensures
            n == self.spec_length(),
    ;
}

#[derive(Debug, Clone, PartialEq, Eq)]
pub enum Token {
    /// Will contain all of "function", "struct", "let"
    Keyword(Keyword),
    /// Will contain all of +, =, ==, !=
    Operator(Operator),
    /// Will contain all of {}, (), []
    Scope(Scope),
    /// Any leftover bytes (for now)
    Unknown(Vec<u8>),
    /// Whitespace.
    Whitespace(usize, usize),
}

#[derive(Debug, Clone, PartialEq, Eq)]
pub enum Keyword {
    Function(usize, usize),
    Struct(usize, usize),
    /// There is only one way to write let, so we shouldn't need to have two
    /// positions.
    Let(usize, usize),
}

#[derive(Debug, Clone, PartialEq, Eq)]
pub enum Operator {
    /// =
    Assign(usize, usize),
    /// ==
    Equality(usize, usize),
    /// !=
    Unequality(usize, usize),
    /// &&
    And(usize, usize),
    /// ||
    Or(usize, usize),
    /// +
    Add(usize, usize),
    /// -
    Subtract(usize, usize),
}

#[derive(Debug, Clone, PartialEq, Eq)]
pub enum Scope {
    /// (
    ParenthesisOpen(usize, usize),
    /// )
    ParenthesisClose(usize, usize),
    /// [
    SquareBracketOpen(usize, usize),
    /// ]
    SquareBracketClose(usize, usize),
    /// {
    BraceOpen(usize, usize),
    /// }
    BraceClose(usize, usize),
    /// <
    ChevronOpen(usize, usize),
    /// >
    ChevronClose(usize, usize),
}

/// The mathematical value of a [`Token`]: identical in shape, except that the
/// fallback variant carries the matched bytes as a sequence.
pub enum TokenModel {
    Keyword(Keyword),
    Operator(Operator),
    Scope(Scope),
    Unknown(Seq<u8>),
    Whitespace(usize, usize),
}

impl View for Token {
    type V = TokenModel;

    open spec fn view(&self) -> TokenModel {
        match self {
            Token::Keyword(k) => TokenModel::Keyword(*k),
            Token::Operator(o) => TokenModel::Operator(*o),
            Token::Scope(s) => TokenModel::Scope(*s),
            Token::Unknown(v) => TokenModel::Unknown(v@),
            Token::Whitespace(a, b) => TokenModel::Whitespace(*a, *b),
        }
    }
}

/// The byte length of a token, read off its model.
pub open spec fn token_model_len(tm: TokenModel) -> int {
    match tm {
        TokenModel::Keyword(k) => k.spec_length(),
        TokenModel::Operator(o) => o.spec_length(),
        TokenModel::Scope(_) => 1,
        TokenModel::Unknown(v) => v.len() as int,
        TokenModel::Whitespace(a, b) => b - a,
    }
}

/// Well-formedness of a token's span, read off its model.
pub open spec fn token_model_wf(tm: TokenModel) -> bool {
    match tm {
        TokenModel::Keyword(k) => k.len_wf(),
        TokenModel::Operator(o) => o.len_wf(),
        TokenModel::Scope(_) => true,
        TokenModel::Unknown(_) => true,
        TokenModel::Whitespace(a, b) => a <= b,
    }
}

impl Length for Token {
    open spec fn len_wf(&self) -> bool {
        token_model_wf(self@)
    }

    open spec fn spec_length(&self) -> int {
        token_model_len(self@)
    }

    fn length(&self) -> (n: usize) {
        match self {
            Token::Keyword(keyword) => keyword.length(),
            Token::Operator(operator) => operator.length(),
            Token::Scope(_) => 1,
            Token::Unknown(bytes) => bytes.len(),
            Token::Whitespace(start, end) => *end - *start,
        }
    }
}

impl Length for Keyword {
    open spec fn len_wf(&self) -> bool {
        match self {
            Keyword::Function(a, b) => *a <= *b,
            Keyword::Struct(a, b) => *a <= *b,
            Keyword::Let(a, b) => *a <= *b,
        }
    }

    open spec fn spec_length(&self) -> int {
        match self {
            Keyword::Function(a, b) => *b - *a,
            Keyword::Struct(a, b) => *b - *a,
            Keyword::Let(a, b) => *b - *a,
        }
    }

    fn length(&self) -> (n: usize) {
        match self {
            Keyword::Function(a, b) => *b - *a,
            Keyword::Struct(a, b) => *b - *a,
            Keyword::Let(a, b) => *b - *a,
        }
    }
}

impl Length for Operator {
    open spec fn len_wf(&self) -> bool {
        match self {
            Operator::Assign(a, b) => *a <= *b,
            Operator::Equality(a, b) => *a <= *b,
            Operator::Unequality(a, b) => *a <= *b,
            Operator::And(a, b) => *a <= *b,
            Operator::Or(a, b) => *a <= *b,
            Operator::Add(a, b) => *a <= *b,
            Operator::Subtract(a, b) => *a <= *b,
        }
    }

    open spec fn spec_length(&self) -> int {
        match self {
            Operator::Assign(a, b) => *b - *a,
            Operator::Equality(a, b) => *b - *a,
            Operator::Unequality(a, b) => *b - *a,
            Operator::And(a, b) => *b - *a,
            Operator::Or(a, b) => *b - *a,
            Operator::Add(a, b) => *b - *a,
            Operator::Subtract(a, b) => *b - *a,
        }
    }

    fn length(&self) -> (n: usize) {
        match self {
            Operator::Assign(a, b) => *b - *a,
            Operator::Equality(a, b) => *b - *a,
            Operator::Unequality(a, b) => *b - *a,
            Operator::And(a, b) => *b - *a,
            Operator::Or(a, b) => *b - *a,
            Operator::Add(a, b) => *b - *a,
            Operator::Subtract(a, b) => *b - *a,
        }
    }
}

// ======================= Token constructors =======================

impl Scope {
    pub fn to_scope_parenthesis(start: usize, end: usize) -> (t: Token)
        ensures
            t == Token::Scope(Scope::ParenthesisOpen(start, end)),
    {
        Token::Scope(Scope::ParenthesisOpen(start, end))
    }

    pub fn to_scope_closed_parenthesis(start: usize, end: usize) -> (t: Token)
        ensures
            t == Token::Scope(Scope::ParenthesisClose(start, end)),
    {
        Token::Scope(Scope::ParenthesisClose(start, end))
    }

    pub fn to_square_bracket_open(start: usize, end: usize) -> (t: Token)
        ensures
            t == Token::Scope(Scope::SquareBracketOpen(start, end)),
    {
        Token::Scope(Scope::SquareBracketOpen(start, end))
    }

    pub fn to_square_bracket_closed(start: usize, end: usize) -> (t: Token)
        ensures
            t == Token::Scope(Scope::SquareBracketClose(start, end)),
    {
        Token::Scope(Scope::SquareBracketClose(start, end))
    }

    pub fn to_brace_open(start: usize, end: usize) -> (t: Token)
        ensures
            t == Token::Scope(Scope::BraceOpen(start, end)),
    {
        Token::Scope(Scope::BraceOpen(start, end))
    }

    pub fn to_brace_closed(start: usize, end: usize) -> (t: Token)
        ensures
            t == Token::Scope(Scope::BraceClose(start, end)),
    {
        Token::Scope(Scope::BraceClose(start, end))
    }

    pub fn to_chevron_open(start: usize, end: usize) -> (t: Token)
        ensures
            t == Token::Scope(Scope::ChevronOpen(start, end)),
    {
        Token::Scope(Scope::ChevronOpen(start, end))
    }

    pub fn to_chevron_closed(start: usize, end: usize) -> (t: Token)
        ensures
            t == Token::Scope(Scope::ChevronClose(start, end)),
    {
        Token::Scope(Scope::ChevronClose(start, end))
    }
}

impl Operator {
    pub fn to_operator_assign(start: usize, end: usize) -> (t: Token)
        ensures
            t == Token::Operator(Operator::Assign(start, end)),
    {
        Token::Operator(Operator::Assign(start, end))
    }

    pub fn to_operator_equality(start: usize, end: usize) -> (t: Token)
        ensures
            t == Token::Operator(Operator::Equality(start, end)),
    {
        Token::Operator(Operator::Equality(start, end))
    }

    pub fn to_operator_unequality(start: usize, end: usize) -> (t: Token)
        ensures
            t == Token::Operator(Operator::Unequality(start, end)),
    {
        Token::Operator(Operator::Unequality(start, end))
    }

    pub fn to_operator_and(start: usize, end: usize) -> (t: Token)
        ensures
            t == Token::Operator(Operator::And(start, end)),
    {
        Token::Operator(Operator::And(start, end))
    }

    pub fn to_operator_or(start: usize, end: usize) -> (t: Token)
        ensures
            t == Token::Operator(Operator::Or(start, end)),
    {
        Token::Operator(Operator::Or(start, end))
    }

    pub fn to_operator_add(start: usize, end: usize) -> (t: Token)
        ensures
            t == Token::Operator(Operator::Add(start, end)),
    {
        Token::Operator(Operator::Add(start, end))
    }

    pub fn to_operator_sub(start: usize, end: usize) -> (t: Token)
        ensures
            t == Token::Operator(Operator::Subtract(start, end)),
    {
        Token::Operator(Operator::Subtract(start, end))
    }
}

impl Keyword {
    pub fn to_keyword_function(start: usize, end: usize) -> (t: Token)
        ensures
            t == Token::Keyword(Keyword::Function(start, end)),
    {
        Token::Keyword(Keyword::Function(start, end))
    }

    pub fn to_keyword_struct(start: usize, end: usize) -> (t: Token)
        ensures
            t == Token::Keyword(Keyword::Struct(start, end)),
    {
        Token::Keyword(Keyword::Struct(start, end))
    }

    pub fn to_keyword_let(start: usize, end: usize) -> (t: Token)
        ensures
            t == Token::Keyword(Keyword::Let(start, end)),
    {
        Token::Keyword(Keyword::Let(start, end))
    }
}

pub fn to_whitespace(start: usize, end: usize) -> (t: Token)
    ensures
        t == Token::Whitespace(start, end),
{
    Token::Whitespace(start, end)
}

// ========================== Match tables ==========================
//
// The candidate literals, as byte strings. The dispatch routine tries the
// four table groups in priority order -- whitespace, then operators, then
// keywords, then scope characters -- and within a group, in the group's
// declared literal order. Every comparison is an exact-length equality per
// candidate, never a greedy prefix scan.

/// " "
pub const LIT_SPACE: [u8; 1] = [32];

/// "="
pub const LIT_ASSIGN: [u8; 1] = [61];

/// "=="
pub const LIT_EQUALITY: [u8; 2] = [61, 61];

/// "!="
pub const LIT_UNEQUALITY: [u8; 2] = [33, 61];

/// "&&"
pub const LIT_AND: [u8; 2] = [38, 38];

/// "||"
pub const LIT_OR: [u8; 2] = [124, 124];

/// "+"
pub const LIT_ADD: [u8; 1] = [43];

/// "-"
pub const LIT_SUBTRACT: [u8; 1] = [45];

/// "function"
pub const LIT_FUNCTION: [u8; 8] = [102, 117, 110, 99, 116, 105, 111, 110];

/// "fn"
pub const LIT_FN: [u8; 2] = [102, 110];

/// "fun"
pub const LIT_FUN: [u8; 3] = [102, 117, 110];

/// "struct"
pub const LIT_STRUCT: [u8; 6] = [115, 116, 114, 117, 99, 116];

/// "st"
pub const LIT_ST: [u8; 2] = [115, 116];

/// "let"
pub const LIT_LET: [u8; 3] = [108, 101, 116];

/// "("
pub const LIT_PARENTHESIS_OPEN: [u8; 1] = [40];

/// ")"
pub const LIT_PARENTHESIS_CLOSE: [u8; 1] = [41];

/// "["
pub const LIT_SQUARE_BRACKET_OPEN: [u8; 1] = [91];

/// "]"
pub const LIT_SQUARE_BRACKET_CLOSE: [u8; 1] = [93];

/// "{"
pub const LIT_BRACE_OPEN: [u8; 1] = [123];

/// "}"
pub const LIT_BRACE_CLOSE: [u8; 1] = [125];

/// "<"
pub const LIT_CHEVRON_OPEN: [u8; 1] = [60];

/// ">"
pub const LIT_CHEVRON_CLOSE: [u8; 1] = [62];

// ===================== Dispatch, specification =====================

/// The literal `lit` stands byte for byte at offset `p` of `t`.
pub open spec fn matches_lit(t: Seq<u8>, p: int, lit: Seq<u8>) -> bool {
    0 <= p && p + lit.len() <= t.len() && t.subrange(p, p + lit.len()) == lit
}

/// The boundary rule of the keyword tables: the single character immediately
/// following the matched literal is either absent (end of input) or the
/// whitespace character. It stops a keyword literal such as "fn" from
/// matching inside a longer identifier such as "fname".
pub open spec fn boundary_ok(t: Seq<u8>, q: int) -> bool {
    q == t.len() || (0 <= q < t.len() && t[q] == 32)
}

/// A keyword candidate is accepted only when the literal matches and the
/// boundary rule holds just after it.
pub open spec fn keyword_match(t: Seq<u8>, p: int, lit: Seq<u8>) -> bool {
    matches_lit(t, p, lit) && boundary_ok(t, p + lit.len())
}

/// Where the fallback scan that starts at `p` stops: the first position at
/// or after `p` that is the end of the input or holds the whitespace byte.
/// An unknown span therefore never swallows trailing whitespace.
pub open spec fn unknown_end(t: Seq<u8>, p: int) -> int
    recommends
        0 <= p <= t.len(),
    decreases t.len() - p,
{
    if p < 0 || p >= t.len() {
        t.len() as int
    } else if t[p] == 32 {
        p
    } else {
        unknown_end(t, p + 1)
    }
}

/// The whitespace table: the single literal " ", accepted unconditionally.
pub open spec fn group_whitespace(t: Seq<u8>, p: int) -> Option<TokenModel> {
    if matches_lit(t, p, LIT_SPACE@) {
        Some(TokenModel::Whitespace(p as usize, (p + 1) as usize))
    } else {
        None
    }
}

/// The operator table, in declared order, each literal accepted
/// unconditionally.
pub open spec fn group_operator(t: Seq<u8>, p: int) -> Option<TokenModel> {
    if matches_lit(t, p, LIT_ASSIGN@) {
        Some(TokenModel::Operator(Operator::Assign(p as usize, (p + 1) as usize)))
    } else if matches_lit(t, p, LIT_EQUALITY@) {
        Some(TokenModel::Operator(Operator::Equality(p as usize, (p + 2) as usize)))
    } else if matches_lit(t, p, LIT_UNEQUALITY@) {
        Some(TokenModel::Operator(Operator::Unequality(p as usize, (p + 2) as usize)))
    } else if matches_lit(t, p, LIT_AND@) {
        Some(TokenModel::Operator(Operator::And(p as usize, (p + 2) as usize)))
    } else if matches_lit(t, p, LIT_OR@) {
        Some(TokenModel::Operator(Operator::Or(p as usize, (p + 2) as usize)))
    } else if matches_lit(t, p, LIT_ADD@) {
        Some(TokenModel::Operator(Operator::Add(p as usize, (p + 1) as usize)))
    } else if matches_lit(t, p, LIT_SUBTRACT@) {
        Some(TokenModel::Operator(Operator::Subtract(p as usize, (p + 1) as usize)))
    } else {
        None
    }
}

/// The keyword tables, in declared order within each family, every candidate
/// guarded by the boundary rule.
pub open spec fn group_keyword(t: Seq<u8>, p: int) -> Option<TokenModel> {
    if keyword_match(t, p, LIT_FUNCTION@) {
        Some(TokenModel::Keyword(Keyword::Function(p as usize, (p + 8) as usize)))
    } else if keyword_match(t, p, LIT_FN@) {
        Some(TokenModel::Keyword(Keyword::Function(p as usize, (p + 2) as usize)))
    } else if keyword_match(t, p, LIT_FUN@) {
        Some(TokenModel::Keyword(Keyword::Function(p as usize, (p + 3) as usize)))
    } else if keyword_match(t, p, LIT_STRUCT@) {
        Some(TokenModel::Keyword(Keyword::Struct(p as usize, (p + 6) as usize)))
    } else if keyword_match(t, p, LIT_ST@) {
        Some(TokenModel::Keyword(Keyword::Struct(p as usize, (p + 2) as usize)))
    } else if keyword_match(t, p, LIT_LET@) {
        Some(TokenModel::Keyword(Keyword::Let(p as usize, (p + 3) as usize)))
    } else {
        None
    }
}

/// The scope table: single punctuation characters, accepted unconditionally.
pub open spec fn group_scope(t: Seq<u8>, p: int) -> Option<TokenModel> {
    if matches_lit(t, p, LIT_PARENTHESIS_OPEN@) {
        Some(TokenModel::Scope(Scope::ParenthesisOpen(p as usize, (p + 1) as usize)))
    } else if matches_lit(t, p, LIT_PARENTHESIS_CLOSE@) {
        Some(TokenModel::Scope(Scope::ParenthesisClose(p as usize, (p + 1) as usize)))
    } else if matches_lit(t, p, LIT_SQUARE_BRACKET_OPEN@) {
        Some(TokenModel::Scope(Scope::SquareBracketOpen(p as usize, (p + 1) as usize)))
    } else if matches_lit(t, p, LIT_SQUARE_BRACKET_CLOSE@) {
        Some(TokenModel::Scope(Scope::SquareBracketClose(p as usize, (p + 1) as usize)))
    } else if matches_lit(t, p, LIT_BRACE_OPEN@) {
        Some(TokenModel::Scope(Scope::BraceOpen(p as usize, (p + 1) as usize)))
    } else if matches_lit(t, p, LIT_BRACE_CLOSE@) {
        Some(TokenModel::Scope(Scope::BraceClose(p as usize, (p + 1) as usize)))
    } else if matches_lit(t, p, LIT_CHEVRON_OPEN@) {
        Some(TokenModel::Scope(Scope::ChevronOpen(p as usize, (p + 1) as usize)))
    } else if matches_lit(t, p, LIT_CHEVRON_CLOSE@) {
        Some(TokenModel::Scope(Scope::ChevronClose(p as usize, (p + 1) as usize)))
    } else {
        None
    }
}

/// The token that the dispatch routine recognises at offset `p` of `t`: the
/// first match over the four table groups in priority order, and otherwise
/// the unknown fallback, which spans from `p` to the end of input or the
/// next whitespace byte, whichever comes first.
pub open spec fn token_at(t: Seq<u8>, p: int) -> TokenModel
    recommends
        0 <= p < t.len(),
{
    match group_whitespace(t, p) {
        Some(tm) => tm,
        None => match group_operator(t, p) {
            Some(tm) => tm,
            None => match group_keyword(t, p) {
                Some(tm) => tm,
                None => match group_scope(t, p) {
                    Some(tm) => tm,
                    None => TokenModel::Unknown(t.subrange(p, unknown_end(t, p))),
                },
            },
        },
    }
}

/// The full scan of `t` from offset `p` on: the token at `p`, then the scan
/// of what follows it. The step is clamped so that the recursion is visibly
/// bounded; `lemma_token_at_placed` shows the clamp never takes effect.
pub open spec fn scan_from(t: Seq<u8>, p: int) -> Seq<TokenModel>
    decreases t.len() - p,
{
    if p < 0 || p >= t.len() {
        Seq::empty()
    } else {
        let tm = token_at(t, p);
        let raw = token_model_len(tm);
        let step = if raw < 1 {
            1
        } else if raw > t.len() - p {
            t.len() - p
        } else {
            raw
        };
        seq![tm] + scan_from(t, p + step)
    }
}

/// The models of a token sequence.
pub open spec fn token_models(ts: Seq<Token>) -> Seq<TokenModel> {
    ts.map_values(|t: Token| t@)
}

// ===================== Facts about the dispatch =====================

/// A one-byte literal stands at `p` exactly when the byte at `p` is it.
proof fn lemma_matches_single(t: Seq<u8>, p: int, lit: Seq<u8>)
    requires
        lit.len() == 1,
    ensures
        matches_lit(t, p, lit) <==> (0 <= p < t.len() && t[p] == lit[0]),
{
    if 0 <= p < t.len() && t[p] == lit[0] {
        assert(t.subrange(p, p + 1) =~= lit);
    }
    if matches_lit(t, p, lit) {
        assert(t.subrange(p, p + 1)[0] == t[p]);
    }
}

/// Bounds and character content of the fallback scan's stopping point.
pub proof fn lemma_unknown_end(t: Seq<u8>, p: int)
    requires
        0 <= p <= t.len(),
    ensures
        p <= unknown_end(t, p) <= t.len(),
        forall|j: int| p <= j < unknown_end(t, p) ==> t[j] != 32,
        unknown_end(t, p) < t.len() ==> t[unknown_end(t, p)] == 32,
    decreases t.len() - p,
{
    if p < t.len() && t[p] != 32 {
        lemma_unknown_end(t, p + 1);
    }
}

/// The fallback scan's stopping point is the only position that closes a
/// whitespace-free run starting at `p`.
pub proof fn lemma_unknown_end_is(t: Seq<u8>, p: int, k: int)
    requires
        0 <= p <= k <= t.len(),
        forall|j: int| p <= j < k ==> t[j] != 32,
        k == t.len() || t[k] == 32,
    ensures
        unknown_end(t, p) == k,
    decreases k - p,
{
    if p < k {
        assert(t[p] != 32);
        lemma_unknown_end_is(t, p + 1, k);
    }
}

/// Placement of a token model at offset `p`: its span starts exactly at `p`,
/// is at least one byte long, and ends within the text; the fallback variant
/// carries exactly the bytes of its span.
pub open spec fn span_at(t: Seq<u8>, a: usize, b: usize, p: int) -> bool {
    a == p && p < b <= t.len()
}

pub open spec fn token_model_at(t: Seq<u8>, tm: TokenModel, p: int) -> bool {
    match tm {
        TokenModel::Keyword(k) => match k {
            Keyword::Function(a, b) => span_at(t, a, b, p),
            Keyword::Struct(a, b) => span_at(t, a, b, p),
            Keyword::Let(a, b) => span_at(t, a, b, p),
        },
        TokenModel::Operator(o) => match o {
            Operator::Assign(a, b) => span_at(t, a, b, p),
            Operator::Equality(a, b) => span_at(t, a, b, p),
            Operator::Unequality(a, b) => span_at(t, a, b, p),
            Operator::And(a, b) => span_at(t, a, b, p),
            Operator::Or(a, b) => span_at(t, a, b, p),
            Operator::Add(a, b) => span_at(t, a, b, p),
            Operator::Subtract(a, b) => span_at(t, a, b, p),
        },
        TokenModel::Scope(s) => match s {
            Scope::ParenthesisOpen(a, b) => span_at(t, a, b, p) && b == a + 1,
            Scope::ParenthesisClose(a, b) => span_at(t, a, b, p) && b == a + 1,
            Scope::SquareBracketOpen(a, b) => span_at(t, a, b, p) && b == a + 1,
            Scope::SquareBracketClose(a, b) => span_at(t, a, b, p) && b == a + 1,
            Scope::BraceOpen(a, b) => span_at(t, a, b, p) && b == a + 1,
            Scope::BraceClose(a, b) => span_at(t, a, b, p) && b == a + 1,
            Scope::ChevronOpen(a, b) => span_at(t, a, b, p) && b == a + 1,
            Scope::ChevronClose(a, b) => span_at(t, a, b, p) && b == a + 1,
        },
        TokenModel::Unknown(v) => 1 <= v.len() && p + v.len() <= t.len() && v == t.subrange(
            p,
            p + v.len(),
        ),
        TokenModel::Whitespace(a, b) => span_at(t, a, b, p),
    }
}

/// The dispatch routine always recognises a well-placed construct: the token
/// at any in-range offset starts there, makes at least one byte of progress,
/// and stays within the text.
pub proof fn lemma_token_at_placed(t: Seq<u8>, p: int)
    requires
        0 <= p < t.len(),
        t.len() <= usize::MAX,
    ensures
        token_model_at(t, token_at(t, p), p),
        token_model_wf(token_at(t, p)),
        1 <= token_model_len(token_at(t, p)) <= t.len() - p,
{
    lemma_unknown_end(t, p);
    if group_whitespace(t, p) is None && group_operator(t, p) is None && group_keyword(t, p)
        is None && group_scope(t, p) is None {
        lemma_matches_single(t, p, LIT_SPACE@);
        assert(LIT_SPACE@[0] == 32);
        assert(t[p] != 32);
        assert(unknown_end(t, p) != p);
    }
}

// ====================== Dispatch, executable ======================

/// Compares `lit` byte for byte against the text at offset `p`.
fn lit_matches<const N: usize>(cursor: &Cursor, p: usize, lit: &[u8; N]) -> (b: bool)
    requires
        cursor.wf(),
    ensures
        b == matches_lit(cursor@.text, p as int, lit@),
{
    let n = cursor.byte_length();
    if p > n {
        return false;
    }
    if N > n - p {
        return false;
    }
    let mut i: usize = 0;
    while i < N
        invariant
            cursor.wf(),
            0 <= i <= N,
            p + N <= cursor@.text.len(),
            cursor@.text.len() <= usize::MAX,
            forall|j: int| 0 <= j < i ==> cursor@.text[p + j] == lit@[j],
        decreases N - i,
    {
        if cursor.byte_at(p + i) != lit[i] {
            assert(cursor@.text.subrange(p as int, p + N as int)[i as int] != lit@[i as int]);
            return false;
        }
        i += 1;
    }
    proof {
        assert(cursor@.text.subrange(p as int, p + N as int) =~= lit@);
    }
    true
}

/// Applies the boundary rule at offset `q`, just past a matched keyword
/// literal: probes the single byte there, accepting end of input or the
/// whitespace character.
fn boundary_here(cursor: &Cursor, q: usize) -> (b: bool)
    requires
        cursor.wf(),
        q <= cursor@.text.len(),
    ensures
        b == boundary_ok(cursor@.text, q as int),
{
    let n = cursor.byte_length();
    if q == n {
        true
    } else {
        cursor.byte_at(q) == 32
    }
}

/// A keyword candidate: the literal itself, then the boundary rule.
fn keyword_lit_matches<const N: usize>(cursor: &Cursor, p: usize, lit: &[u8; N]) -> (b: bool)
    requires
        cursor.wf(),
    ensures
        b == keyword_match(cursor@.text, p as int, lit@),
{
    proof {
        cursor.lemma_len_bound();
    }
    if lit_matches(cursor, p, lit) {
        boundary_here(cursor, p + N)
    } else {
        false
    }
}

/// Tries the whitespace table at offset `p`.
fn match_whitespace(cursor: &Cursor, p: usize) -> (r: Option<Token>)
    requires
        cursor.wf(),
    ensures
        match r {
            Some(tok) => tok.len_wf() && Some(tok@) == group_whitespace(
                cursor@.text,
                p as int,
            ),
            None => group_whitespace(cursor@.text, p as int) is None,
        },
{
    proof {
        cursor.lemma_len_bound();
    }
    if lit_matches(cursor, p, &LIT_SPACE) {
        Some(to_whitespace(p, p + 1))
    } else {
        None
    }
}

/// Tries the operator table at offset `p`, in declared order.
fn match_operator(cursor: &Cursor, p: usize) -> (r: Option<Token>)
    requires
        cursor.wf(),
    ensures
        match r {
            Some(tok) => tok.len_wf() && Some(tok@) == group_operator(cursor@.text, p as int),
            None => group_operator(cursor@.text, p as int) is None,
        },
{
    proof {
        cursor.lemma_len_bound();
    }
    if lit_matches(cursor, p, &LIT_ASSIGN) {
        Some(Operator::to_operator_assign(p, p + 1))
    } else if lit_matches(cursor, p, &LIT_EQUALITY) {
        Some(Operator::to_operator_equality(p, p + 2))
    } else if lit_matches(cursor, p, &LIT_UNEQUALITY) {
        Some(Operator::to_operator_unequality(p, p + 2))
    } else if lit_matches(cursor, p, &LIT_AND) {
        Some(Operator::to_operator_and(p, p + 2))
    } else if lit_matches(cursor, p, &LIT_OR) {
        Some(Operator::to_operator_or(p, p + 2))
    } else if lit_matches(cursor, p, &LIT_ADD) {
        Some(Operator::to_operator_add(p, p + 1))
    } else if lit_matches(cursor, p, &LIT_SUBTRACT) {
        Some(Operator::to_operator_sub(p, p + 1))
    } else {
        None
    }
}

/// Tries the keyword tables at offset `p`, in declared order within each
/// family.
fn match_keyword(cursor: &Cursor, p: usize) -> (r: Option<Token>)
    requires
        cursor.wf(),
    ensures
        match r {
            Some(tok) => tok.len_wf() && Some(tok@) == group_keyword(cursor@.text, p as int),
            None => group_keyword(cursor@.text, p as int) is None,
        },
{
    proof {
        cursor.lemma_len_bound();
    }
    if keyword_lit_matches(cursor, p, &LIT_FUNCTION) {
        Some(Keyword::to_keyword_function(p, p + 8))
    } else if keyword_lit_matches(cursor, p, &LIT_FN) {
        Some(Keyword::to_keyword_function(p, p + 2))
    } else if keyword_lit_matches(cursor, p, &LIT_FUN) {
        Some(Keyword::to_keyword_function(p, p + 3))
    } else if keyword_lit_matches(cursor, p, &LIT_STRUCT) {
        Some(Keyword::to_keyword_struct(p, p + 6))
    } else if keyword_lit_matches(cursor, p, &LIT_ST) {
        Some(Keyword::to_keyword_struct(p, p + 2))
    } else if keyword_lit_matches(cursor, p, &LIT_LET) {
        Some(Keyword::to_keyword_let(p, p + 3))
    } else {
        None
    }
}

/// Tries the scope table at offset `p`, in declared order.
fn match_scope(cursor: &Cursor, p: usize) -> (r: Option<Token>)
    requires
        cursor.wf(),
    ensures
        match r {
            Some(tok) => tok.len_wf() && Some(tok@) == group_scope(cursor@.text, p as int),
            None => group_scope(cursor@.text, p as int) is None,
        },
{
    proof {
        cursor.lemma_len_bound();
    }
    if lit_matches(cursor, p, &LIT_PARENTHESIS_OPEN) {
        Some(Scope::to_scope_parenthesis(p, p + 1))
    } else if lit_matches(cursor, p, &LIT_PARENTHESIS_CLOSE) {
        Some(Scope::to_scope_closed_parenthesis(p, p + 1))
    } else if lit_matches(cursor, p, &LIT_SQUARE_BRACKET_OPEN) {
        Some(Scope::to_square_bracket_open(p, p + 1))
    } else if lit_matches(cursor, p, &LIT_SQUARE_BRACKET_CLOSE) {
        Some(Scope::to_square_bracket_closed(p, p + 1))
    } else if lit_matches(cursor, p, &LIT_BRACE_OPEN) {
        Some(Scope::to_brace_open(p, p + 1))
    } else if lit_matches(cursor, p, &LIT_BRACE_CLOSE) {
        Some(Scope::to_brace_closed(p, p + 1))
    } else if lit_matches(cursor, p, &LIT_CHEVRON_OPEN) {
        Some(Scope::to_chevron_open(p, p + 1))
    } else if lit_matches(cursor, p, &LIT_CHEVRON_CLOSE) {
        Some(Scope::to_chevron_closed(p, p + 1))
    } else {
        None
    }
}

/// The dispatch routine: given a cursor positioned inside the text, returns
/// exactly one token describing the construct starting there, without
/// mutating the cursor. It has no failure outcome -- worst case, an unknown
/// token of at least one byte.
pub fn parse_token(cursor: &Cursor) -> (t: Token)
    requires
        cursor.wf(),
        cursor@.position < cursor@.text.len(),
    ensures
        t@ == token_at(cursor@.text, cursor@.position),
        t.len_wf(),
{
    let p = cursor.position();
    match match_whitespace(cursor, p) {
        Some(tok) => { return tok; },
        None => {},
    }
    match match_operator(cursor, p) {
        Some(tok) => { return tok; },
        None => {},
    }
    match match_keyword(cursor, p) {
        Some(tok) => { return tok; },
        None => {},
    }
    match match_scope(cursor, p) {
        Some(tok) => { return tok; },
        None => {},
    }
    // No table matched: extend the candidate window one byte at a time until
    // it hits the end of input or the next byte is the whitespace literal.
    let n = cursor.byte_length();
    let mut k: usize = p;
    while k < n
        invariant
            cursor.wf(),
            n == cursor@.text.len(),
            p <= k <= n,
            forall|j: int| p <= j < k ==> cursor@.text[j] != 32,
        ensures
            k == n || (k < n && cursor@.text[k as int] == 32),
        decreases n - k,
    {
        if cursor.byte_at(k) == 32 {
            break;
        }
        k += 1;
    }
    proof {
        lemma_unknown_end_is(cursor@.text, p as int, k as int);
    }
    let bytes = cursor.extract_substring(p, k);
    Token::Unknown(bytes)
}

} // verus!
