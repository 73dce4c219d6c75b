use vstd::prelude::*;

use crate::span::Span;

verus! {

/// A scan failure: the text ended while a literal was still open, or a
/// character matched no rule; either carries the offset at fault.
#[derive(Debug, PartialEq)]
pub enum LexError {
    UnexpectedEndOfInput(usize),
    UnexpectedChar(char, usize),
}

/// The model of a scan failure, with the offset as a plain integer.
pub enum LexErrV {
    Eof(int),
    Chr(char, int),
}

impl View for LexError {
    type V = LexErrV;

    open spec fn view(&self) -> LexErrV {
        match self {
            LexError::UnexpectedEndOfInput(p) => LexErrV::Eof(*p as int),
            LexError::UnexpectedChar(c, p) => LexErrV::Chr(*c, *p as int),
        }
    }
}

/// One JSON token: punctuation, a string without its quotes, an integer, a
/// float kept as its literal text, a boolean, or `null`; each carries the
/// half-open span of offsets it was scanned from.
#[derive(Debug, PartialEq)]
pub enum Token {
    LeftBrace(Span),
    RightBrace(Span),
    LeftBracket(Span),
    RightBracket(Span),
    Colon(Span),
    Comma(Span),
    Str(String, Span),
    Int(i64, Span),
    Float(String, Span),
    Bool(bool, Span),
    Null(Span),
}

/// The model of a JSON token, spans as plain integer pairs.
pub enum TokenM {
    LeftBrace(int, int),
    RightBrace(int, int),
    LeftBracket(int, int),
    RightBracket(int, int),
    Colon(int, int),
    Comma(int, int),
    Str(Seq<char>, int, int),
    Int(i64, int, int),
    Float(Seq<char>, int, int),
    Bool(bool, int, int),
    Null(int, int),
}

impl View for Token {
    type V = TokenM;

    open spec fn view(&self) -> TokenM {
        match self {
            Token::LeftBrace(sp) => TokenM::LeftBrace(sp.start as int, sp.end as int),
            Token::RightBrace(sp) => TokenM::RightBrace(sp.start as int, sp.end as int),
            Token::LeftBracket(sp) => TokenM::LeftBracket(sp.start as int, sp.end as int),
            Token::RightBracket(sp) => TokenM::RightBracket(sp.start as int, sp.end as int),
            Token::Colon(sp) => TokenM::Colon(sp.start as int, sp.end as int),
            Token::Comma(sp) => TokenM::Comma(sp.start as int, sp.end as int),
            Token::Str(s, sp) => TokenM::Str(s@, sp.start as int, sp.end as int),
            Token::Int(v, sp) => TokenM::Int(*v, sp.start as int, sp.end as int),
            Token::Float(s, sp) => TokenM::Float(s@, sp.start as int, sp.end as int),
            Token::Bool(b, sp) => TokenM::Bool(*b, sp.start as int, sp.end as int),
            Token::Null(sp) => TokenM::Null(sp.start as int, sp.end as int),
        }
    }
}

/// The first offset a token's span covers.
pub open spec fn tm_start(t: TokenM) -> int {
    match t {
        TokenM::LeftBrace(a, _) => a,
        TokenM::RightBrace(a, _) => a,
        TokenM::LeftBracket(a, _) => a,
        TokenM::RightBracket(a, _) => a,
        TokenM::Colon(a, _) => a,
        TokenM::Comma(a, _) => a,
        TokenM::Str(_, a, _) => a,
        TokenM::Int(_, a, _) => a,
        TokenM::Float(_, a, _) => a,
        TokenM::Bool(_, a, _) => a,
        TokenM::Null(a, _) => a,
    }
}

/// The offset just past a token's span.
pub open spec fn tm_end(t: TokenM) -> int {
    match t {
        TokenM::LeftBrace(_, b) => b,
        TokenM::RightBrace(_, b) => b,
        TokenM::LeftBracket(_, b) => b,
        TokenM::RightBracket(_, b) => b,
        TokenM::Colon(_, b) => b,
        TokenM::Comma(_, b) => b,
        TokenM::Str(_, _, b) => b,
        TokenM::Int(_, _, b) => b,
        TokenM::Float(_, _, b) => b,
        TokenM::Bool(_, _, b) => b,
        TokenM::Null(_, b) => b,
    }
}

impl Token {
    /// The source span of this token.
    pub fn span(&self) -> (sp: &Span)
        ensures
            sp.start as int == tm_start(self@),
            sp.end as int == tm_end(self@),
    {
        match self {
            Token::LeftBrace(sp) => sp,
            Token::RightBrace(sp) => sp,
            Token::LeftBracket(sp) => sp,
            Token::RightBracket(sp) => sp,
            Token::Colon(sp) => sp,
            Token::Comma(sp) => sp,
            Token::Str(_, sp) => sp,
            Token::Int(_, sp) => sp,
            Token::Float(_, sp) => sp,
            Token::Bool(_, sp) => sp,
            Token::Null(sp) => sp,
        }
    }
}

impl Clone for Token {
    /// A clone equals the original.
    fn clone(&self) -> (res: Self)
        ensures
            res == self,
    {
        match self {
            Token::LeftBrace(sp) => Token::LeftBrace(*sp),
            Token::RightBrace(sp) => Token::RightBrace(*sp),
            Token::LeftBracket(sp) => Token::LeftBracket(*sp),
            Token::RightBracket(sp) => Token::RightBracket(*sp),
            Token::Colon(sp) => Token::Colon(*sp),
            Token::Comma(sp) => Token::Comma(*sp),
            Token::Str(s, sp) => Token::Str(s.clone(), *sp),
            Token::Int(v, sp) => Token::Int(*v, *sp),
            Token::Float(s, sp) => Token::Float(s.clone(), *sp),
            Token::Bool(b, sp) => Token::Bool(*b, *sp),
            Token::Null(sp) => Token::Null(*sp),
        }
    }
}

/// The views of a token sequence, element by element.
pub open spec fn token_views(ts: Seq<Token>) -> Seq<TokenM> {
    Seq::new(ts.len(), |i: int| ts[i]@)
}

/// An ASCII decimal digit.
pub open spec fn is_digit(c: char) -> bool {
    48 <= c as u32 <= 57
}

/// An ASCII whitespace character: space, tab, line feed, form feed or
/// carriage return.
pub open spec fn is_ws(c: char) -> bool {
    c as u32 == 32 || c as u32 == 9 || c as u32 == 10 || c as u32 == 13 || c as u32 == 12
}

/// The numeric value of a digit sequence read in base ten.
pub open spec fn sp_digits_val(s: Seq<char>) -> int
    decreases s.len(),
{
    if s.len() == 0 {
        0
    } else {
        sp_digits_val(s.drop_last()) * 10 + (s.last() as u32 - 48)
    }
}

/// The offset of the closing quote at or after `i`, where one exists.
pub open spec fn sp_close_quote(s: Seq<char>, i: int) -> Option<int>
    decreases s.len() - i,
{
    if i >= s.len() {
        None
    } else if s[i] == '"' {
        Some(i)
    } else {
        sp_close_quote(s, i + 1)
    }
}

/// The first offset at or after `i` holding neither a digit nor a dot.
pub open spec fn sp_num_end(s: Seq<char>, i: int) -> int
    decreases s.len() - i,
{
    if i < s.len() && (is_digit(s[i]) || s[i] == '.') {
        sp_num_end(s, i + 1)
    } else {
        i
    }
}

/// How many dots a character sequence holds.
pub open spec fn sp_dots(s: Seq<char>) -> int
    decreases s.len(),
{
    if s.len() == 0 {
        0
    } else {
        sp_dots(s.drop_last()) + if s.last() == '.' {
            1int
        } else {
            0int
        }
    }
}

/// The first offset in `[i, end)` holding a dot; `end` where none does.
pub open spec fn sp_find_dot(s: Seq<char>, i: int, end: int) -> int
    decreases end - i,
{
    if i >= end {
        end
    } else if s[i] == '.' {
        i
    } else {
        sp_find_dot(s, i + 1, end)
    }
}

/// Prepends a token to a scan result, passing a failure through.
pub open spec fn sp_cons(t: TokenM, r: Result<Seq<TokenM>, LexErrV>) -> Result<
    Seq<TokenM>,
    LexErrV,
> {
    match r {
        Ok(ts) => Ok(seq![t] + ts),
        Err(e) => Err(e),
    }
}

/// Scans the text from offset `i` with `depth` braces still open.  Mirrors
/// one left-to-right pass: structural characters map to one token each, a
/// string runs to its closing quote, a number runs over digits and dots and
/// must end in a comma, which stays to be scanned as its own token,
/// `true`, `false` and `null` are matched letter for letter, whitespace is
/// skipped, and any other character fails.  Text that ends with a brace
/// still open fails with the end-of-input error.
pub open spec fn sp_lex_from(s: Seq<char>, i: int, depth: int) -> Result<Seq<TokenM>, LexErrV>
    decreases s.len() - i,
{
    if i >= s.len() {
        if depth > 0 {
            Err(LexErrV::Eof(s.len() as int))
        } else {
            Ok(Seq::empty())
        }
    } else {
        let c = s[i];
        if c == '{' {
            sp_cons(TokenM::LeftBrace(i, i + 1), sp_lex_from(s, i + 1, depth + 1))
        } else if c == '}' {
            sp_cons(
                TokenM::RightBrace(i, i + 1),
                sp_lex_from(
                    s,
                    i + 1,
                    if depth > 0 {
                        depth - 1
                    } else {
                        0
                    },
                ),
            )
        } else if c == '[' {
            sp_cons(TokenM::LeftBracket(i, i + 1), sp_lex_from(s, i + 1, depth))
        } else if c == ']' {
            sp_cons(TokenM::RightBracket(i, i + 1), sp_lex_from(s, i + 1, depth))
        } else if c == ':' {
            sp_cons(TokenM::Colon(i, i + 1), sp_lex_from(s, i + 1, depth))
        } else if c == ',' {
            sp_cons(TokenM::Comma(i, i + 1), sp_lex_from(s, i + 1, depth))
        } else if c == '"' {
            match sp_close_quote(s, i + 1) {
                None => Err(LexErrV::Eof(s.len() as int)),
                Some(j) => if i <= j && j < s.len() {
                    sp_cons(
                        TokenM::Str(s.subrange(i + 1, j), i, j + 1),
                        sp_lex_from(s, j + 1, depth),
                    )
                } else {
                    // the closing quote stands at or after the opening one;
                    // this alternative is unreachable and only makes the
                    // recursion measure evident
                    Err(LexErrV::Chr(c, i))
                },
            }
        } else if is_digit(c) {
            let j = sp_num_end(s, i);
            if j >= s.len() {
                Err(LexErrV::Eof(s.len() as int))
            } else if s[j] != ',' {
                Err(LexErrV::Chr(s[j], j))
            } else if j <= i {
                // a number always covers its first digit; this alternative
                // is unreachable and only makes the recursion measure evident
                Err(LexErrV::Chr(c, i))
            } else {
                let text = s.subrange(i, j);
                let dots = sp_dots(text);
                if dots == 0 {
                    if sp_digits_val(text) > i64::MAX {
                        Err(LexErrV::Chr(c, i))
                    } else {
                        sp_cons(TokenM::Int(sp_digits_val(text) as i64, i, j), sp_lex_from(s, j, depth))
                    }
                } else if dots == 1 {
                    sp_cons(TokenM::Float(text, i, j), sp_lex_from(s, j, depth))
                } else {
                    Err(LexErrV::Chr('.', sp_find_dot(s, sp_find_dot(s, i, j) + 1, j)))
                }
            }
        } else if c == 't' {
            if s.len() - i < 4 {
                Err(LexErrV::Eof(s.len() as int))
            } else if s[i + 1] != 'r' {
                Err(LexErrV::Chr(s[i + 1], i + 1))
            } else if s[i + 2] != 'u' {
                Err(LexErrV::Chr(s[i + 2], i + 2))
            } else if s[i + 3] != 'e' {
                Err(LexErrV::Chr(s[i + 3], i + 3))
            } else {
                sp_cons(TokenM::Bool(true, i, i + 4), sp_lex_from(s, i + 4, depth))
            }
        } else if c == 'f' {
            if s.len() - i < 5 {
                Err(LexErrV::Eof(s.len() as int))
            } else if s[i + 1] != 'a' {
                Err(LexErrV::Chr(s[i + 1], i + 1))
            } else if s[i + 2] != 'l' {
                Err(LexErrV::Chr(s[i + 2], i + 2))
            } else if s[i + 3] != 's' {
                Err(LexErrV::Chr(s[i + 3], i + 3))
            } else if s[i + 4] != 'e' {
                Err(LexErrV::Chr(s[i + 4], i + 4))
            } else {
                sp_cons(TokenM::Bool(false, i, i + 5), sp_lex_from(s, i + 5, depth))
            }
        } else if c == 'n' {
            if s.len() - i < 4 {
                Err(LexErrV::Eof(s.len() as int))
            } else if s[i + 1] != 'u' {
                Err(LexErrV::Chr(s[i + 1], i + 1))
            } else if s[i + 2] != 'l' {
                Err(LexErrV::Chr(s[i + 2], i + 2))
            } else if s[i + 3] != 'l' {
                Err(LexErrV::Chr(s[i + 3], i + 3))
            } else {
                sp_cons(TokenM::Null(i, i + 4), sp_lex_from(s, i + 4, depth))
            }
        } else if is_ws(c) {
            sp_lex_from(s, i + 1, depth)
        } else {
            Err(LexErrV::Chr(c, i))
        }
    }
}

/// Scans a whole text: it must not be empty, must begin with `{`, and is
/// then read in one pass from the start.
pub open spec fn sp_lex(s: Seq<char>) -> Result<Seq<TokenM>, LexErrV> {
    if s.len() == 0 {
        Err(LexErrV::Eof(0))
    } else if s[0] != '{' {
        Err(LexErrV::Chr(s[0], 0))
    } else {
        sp_lex_from(s, 0, 0)
    }
}

/// Scanning for digits never moves the offset back.
proof fn lemma_num_end_ge(s: Seq<char>, i: int)
    ensures
        sp_num_end(s, i) >= i,
    decreases s.len() - i,
{
    if i < s.len() && (is_digit(s[i]) || s[i] == '.') {
        lemma_num_end_ge(s, i + 1);
    }
}

/// Scanning for digits never leaves the text.
proof fn lemma_num_end_le(s: Seq<char>, i: int)
    requires
        0 <= i <= s.len(),
    ensures
        sp_num_end(s, i) <= s.len(),
    decreases s.len() - i,
{
    if i < s.len() && (is_digit(s[i]) || s[i] == '.') {
        lemma_num_end_le(s, i + 1);
    }
}

/// Every character the digit scan covered is a digit or a dot.
proof fn lemma_num_end_chars(s: Seq<char>, i: int)
    requires
        0 <= i,
    ensures
        forall|k: int| i <= k < sp_num_end(s, i) ==> is_digit(#[trigger] s[k]) || s[k] == '.',
    decreases s.len() - i,
{
    if i < s.len() && (is_digit(s[i]) || s[i] == '.') {
        lemma_num_end_chars(s, i + 1);
    }
}

/// A sequence without dots has none anywhere.
proof fn lemma_dots_zero(s: Seq<char>)
    requires
        sp_dots(s) == 0,
    ensures
        forall|k: int| 0 <= k < s.len() ==> #[trigger] s[k] != '.',
    decreases s.len(),
{
    if s.len() > 0 {
        lemma_dots_nonneg(s.drop_last());
        lemma_dots_zero(s.drop_last());
        assert forall|k: int| 0 <= k < s.len() implies #[trigger] s[k] != '.' by {
            if k < s.len() - 1 {
                assert(s.drop_last()[k] == s[k]);
            }
        }
    }
}

/// A dot count is never negative.
proof fn lemma_dots_nonneg(s: Seq<char>)
    ensures
        sp_dots(s) >= 0,
    decreases s.len(),
{
    if s.len() > 0 {
        lemma_dots_nonneg(s.drop_last());
    }
}

/// The value of a digit sequence is never negative.
proof fn lemma_digits_val_nonneg(s: Seq<char>)
    requires
        forall|k: int| 0 <= k < s.len() ==> is_digit(#[trigger] s[k]),
    ensures
        sp_digits_val(s) >= 0,
    decreases s.len(),
{
    if s.len() > 0 {
        assert forall|k: int| 0 <= k < s.drop_last().len() implies is_digit(
            #[trigger] s.drop_last()[k],
        ) by {
            assert(s.drop_last()[k] == s[k]);
        }
        lemma_digits_val_nonneg(s.drop_last());
    }
}

/// A digit sequence is worth at least any of its prefixes.
proof fn lemma_digits_prefix_le(s: Seq<char>, k: int)
    requires
        forall|j: int| 0 <= j < s.len() ==> is_digit(#[trigger] s[j]),
        0 <= k <= s.len(),
    ensures
        sp_digits_val(s.take(k)) <= sp_digits_val(s),
    decreases s.len() - k,
{
    if k < s.len() {
        lemma_digits_prefix_le(s, k + 1);
        assert(s.take(k + 1).drop_last() =~= s.take(k));
        assert(forall|j: int| 0 <= j < s.take(k).len() ==> is_digit(#[trigger] s.take(k)[j]));
        lemma_digits_val_nonneg(s.take(k));
        assert(sp_digits_val(s.take(k + 1)) == sp_digits_val(s.take(k)) * 10 + (s[k] as u32 - 48));
    } else {
        assert(s.take(k) =~= s);
    }
}

/// Converts the text to its characters, one by one.
fn str_to_chars(s: &str) -> (v: Vec<char>)
    ensures
        v@ == s@,
{
    let n = s.unicode_len();
    let mut v: Vec<char> = Vec::new();
    let mut k: usize = 0;
    while k < n
        invariant
            n == s@.len(),
            k <= n,
            v@ == s@.take(k as int),
        decreases n - k,
    {
        let c = s.get_char(k);
        v.push(c);
        proof {
            assert(v@ =~= s@.take(k + 1));
        }
        k = k + 1;
    }
    proof {
        assert(s@.take(n as int) =~= s@);
    }
    v
}

/// Finds the closing quote at or after `i`.
fn find_quote(chars: &Vec<char>, i: usize) -> (r: Option<usize>)
    requires
        i <= chars@.len(),
    ensures
        match r {
            Some(j) => sp_close_quote(chars@, i as int) == Some(j as int) && i <= j
                < chars@.len(),
            None => sp_close_quote(chars@, i as int) is None,
        },
    decreases chars@.len() - i,
{
    if i == chars.len() {
        None
    } else if chars[i] == '"' {
        Some(i)
    } else {
        find_quote(chars, i + 1)
    }
}

/// Finds the first offset at or after `i` holding neither a digit nor a dot.
fn num_end(chars: &Vec<char>, i: usize) -> (r: usize)
    requires
        i <= chars@.len(),
    ensures
        r as int == sp_num_end(chars@, i as int),
        i <= r <= chars@.len(),
    decreases chars@.len() - i,
{
    if i < chars.len() {
        let c = chars[i];
        let cv = c as u32;
        if (48 <= cv && cv <= 57) || c == '.' {
            num_end(chars, i + 1)
        } else {
            i
        }
    } else {
        i
    }
}

/// Counts the dots in `[a, b)`.
fn count_dots(chars: &Vec<char>, a: usize, b: usize) -> (r: usize)
    requires
        a <= b <= chars@.len(),
    ensures
        r as int == sp_dots(chars@.subrange(a as int, b as int)),
        r <= b - a,
    decreases b - a,
{
    if a == b {
        proof {
            assert(chars@.subrange(a as int, b as int) =~= Seq::<char>::empty());
        }
        0
    } else {
        let r = count_dots(chars, a, b - 1);
        let ghost sub = chars@.subrange(a as int, b as int);
        proof {
            assert(sub.drop_last() =~= chars@.subrange(a as int, b - 1));
            lemma_dots_nonneg(sub.drop_last());
        }
        if chars[b - 1] == '.' {
            r + 1
        } else {
            r
        }
    }
}

/// Finds the first dot in `[i, end)`; `end` where none stands.
fn find_dot(chars: &Vec<char>, i: usize, end: usize) -> (r: usize)
    requires
        i <= end <= chars@.len() || (i == end + 1 && end <= chars@.len()),
    ensures
        r as int == sp_find_dot(chars@, i as int, end as int),
        r <= end || r as int == i,
    decreases end - i,
{
    if i >= end {
        proof {
            assert(sp_find_dot(chars@, i as int, end as int) == end);
        }
        end
    } else if chars[i] == '.' {
        i
    } else {
        find_dot(chars, i + 1, end)
    }
}

/// Reads the value of the digits in `[a, b)` in base ten; `None` where the
/// value does not fit a 64-bit signed integer.
fn digits_value(chars: &Vec<char>, a: usize, b: usize) -> (r: Option<i64>)
    requires
        a <= b <= chars@.len(),
        forall|k: int| a <= k < b ==> is_digit(#[trigger] chars@[k]),
    ensures
        match r {
            Some(v) => v as int == sp_digits_val(chars@.subrange(a as int, b as int))
                && sp_digits_val(chars@.subrange(a as int, b as int)) <= i64::MAX,
            None => sp_digits_val(chars@.subrange(a as int, b as int)) > i64::MAX,
        },
{
    let ghost sub = chars@.subrange(a as int, b as int);
    proof {
        assert(forall|j: int| 0 <= j < sub.len() ==> is_digit(#[trigger] sub[j]));
    }
    let mut v: i64 = 0;
    let mut k: usize = a;
    while k < b
        invariant
            a <= k <= b <= chars@.len(),
            sub == chars@.subrange(a as int, b as int),
            forall|j: int| 0 <= j < sub.len() ==> is_digit(#[trigger] sub[j]),
            v as int == sp_digits_val(sub.take(k - a)),
            0 <= v,
        decreases b - k,
    {
        proof {
            assert(sub[k - a] == chars@[k as int]);
            assert(is_digit(sub[k - a]));
            assert(sub.take(k - a + 1).drop_last() =~= sub.take(k - a));
            assert(sub.take(k - a + 1).last() == sub[k - a]);
        }
        let d = (chars[k] as u32) - 48;
        if v > 922337203685477580 || (v == 922337203685477580 && d > 7) {
            proof {
                assert(sp_digits_val(sub.take(k - a + 1)) > i64::MAX);
                lemma_digits_prefix_le(sub, k - a + 1);
            }
            return None;
        }
        v = v * 10 + (d as i64);
        k = k + 1;
    }
    proof {
        assert(sub.take(b - a) =~= sub);
    }
    Some(v)
}

/// Scans the text from offset `i` onward with `depth` braces still open,
/// producing the remaining tokens in source order.
#[verifier::rlimit(100)]
fn lex_from(input: &str, chars: &Vec<char>, i: usize, depth: usize) -> (r: Result<
    Vec<Token>,
    LexError,
>)
    requires
        chars@ == input@,
        i <= chars@.len(),
        depth <= i,
    ensures
        match r {
            Ok(ts) => sp_lex_from(chars@, i as int, depth as int) == Ok::<_, LexErrV>(
                token_views(ts@),
            ),
            Err(e) => sp_lex_from(chars@, i as int, depth as int) == Err::<Seq<TokenM>, _>(e@),
        },
    decreases chars@.len() - i,
{
    let ghost m = chars@;
    if i == chars.len() {
        if depth > 0 {
            return Err(LexError::UnexpectedEndOfInput(chars.len()));
        }
        let ts: Vec<Token> = Vec::new();
        proof {
            assert(token_views(ts@) =~= Seq::<TokenM>::empty());
        }
        return Ok(ts);
    }
    let c = chars[i];
    if c == '{' {
        match lex_from(input, chars, i + 1, depth + 1) {
            Err(e) => Err(e),
            Ok(mut ts) => {
                let ghost rest0 = ts@;
                ts.insert(0, Token::LeftBrace(Span::new(i, i + 1)));
                proof {
                    assert(token_views(ts@) =~= seq![TokenM::LeftBrace(i as int, i + 1)]
                        + token_views(rest0));
                }
                Ok(ts)
            },
        }
    } else if c == '}' {
        let nd: usize = if depth > 0 {
            depth - 1
        } else {
            0
        };
        match lex_from(input, chars, i + 1, nd) {
            Err(e) => Err(e),
            Ok(mut ts) => {
                let ghost rest0 = ts@;
                ts.insert(0, Token::RightBrace(Span::new(i, i + 1)));
                proof {
                    assert(token_views(ts@) =~= seq![TokenM::RightBrace(i as int, i + 1)]
                        + token_views(rest0));
                }
                Ok(ts)
            },
        }
    } else if c == '[' {
        match lex_from(input, chars, i + 1, depth) {
            Err(e) => Err(e),
            Ok(mut ts) => {
                let ghost rest0 = ts@;
                ts.insert(0, Token::LeftBracket(Span::new(i, i + 1)));
                proof {
                    assert(token_views(ts@) =~= seq![TokenM::LeftBracket(i as int, i + 1)]
                        + token_views(rest0));
                }
                Ok(ts)
            },
        }
    } else if c == ']' {
        match lex_from(input, chars, i + 1, depth) {
            Err(e) => Err(e),
            Ok(mut ts) => {
                let ghost rest0 = ts@;
                ts.insert(0, Token::RightBracket(Span::new(i, i + 1)));
                proof {
                    assert(token_views(ts@) =~= seq![TokenM::RightBracket(i as int, i + 1)]
                        + token_views(rest0));
                }
                Ok(ts)
            },
        }
    } else if c == ':' {
        match lex_from(input, chars, i + 1, depth) {
            Err(e) => Err(e),
            Ok(mut ts) => {
                let ghost rest0 = ts@;
                ts.insert(0, Token::Colon(Span::new(i, i + 1)));
                proof {
                    assert(token_views(ts@) =~= seq![TokenM::Colon(i as int, i + 1)]
                        + token_views(rest0));
                }
                Ok(ts)
            },
        }
    } else if c == ',' {
        match lex_from(input, chars, i + 1, depth) {
            Err(e) => Err(e),
            Ok(mut ts) => {
                let ghost rest0 = ts@;
                ts.insert(0, Token::Comma(Span::new(i, i + 1)));
                proof {
                    assert(token_views(ts@) =~= seq![TokenM::Comma(i as int, i + 1)]
                        + token_views(rest0));
                }
                Ok(ts)
            },
        }
    } else if c == '"' {
        match find_quote(chars, i + 1) {
            None => Err(LexError::UnexpectedEndOfInput(chars.len())),
            Some(j) => {
                let content = input.substring_char(i + 1, j).to_owned();
                match lex_from(input, chars, j + 1, depth) {
                    Err(e) => Err(e),
                    Ok(mut ts) => {
                        let ghost rest0 = ts@;
                        ts.insert(0, Token::Str(content, Span::new(i, j + 1)));
                        proof {
                            assert(token_views(ts@) =~= seq![
                                TokenM::Str(m.subrange(i + 1, j as int), i as int, j + 1),
                            ] + token_views(rest0));
                        }
                        Ok(ts)
                    },
                }
            },
        }
    } else {
        let cv = c as u32;
        if 48 <= cv && cv <= 57 {
            let j = num_end(chars, i);
            proof {
                assert(sp_num_end(m, i as int) == sp_num_end(m, i + 1));
                lemma_num_end_ge(m, i + 1);
            }
            if j == chars.len() {
                return Err(LexError::UnexpectedEndOfInput(chars.len()));
            }
            if chars[j] != ',' {
                return Err(LexError::UnexpectedChar(chars[j], j));
            }
            let dots = count_dots(chars, i, j);
            let ghost text = m.subrange(i as int, j as int);
            if dots == 0 {
                proof {
                    lemma_num_end_chars(m, i as int);
                    lemma_dots_zero(text);
                    assert forall|k: int| i <= k < j implies is_digit(#[trigger] m[k]) by {
                        assert(text[k - i] == m[k]);
                        assert(text[k - i] != '.');
                    }
                }
                match digits_value(chars, i, j) {
                    None => Err(LexError::UnexpectedChar(c, i)),
                    Some(v) => {
                        match lex_from(input, chars, j, depth) {
                            Err(e) => Err(e),
                            Ok(mut ts) => {
                                let ghost rest0 = ts@;
                                ts.insert(0, Token::Int(v, Span::new(i, j)));
                                proof {
                                    assert(v as int == sp_digits_val(text));
                                    assert(v == sp_digits_val(text) as i64);
                                    assert(token_views(ts@) =~= seq![
                                        TokenM::Int(v, i as int, j as int),
                                    ] + token_views(rest0));
                                }
                                Ok(ts)
                            },
                        }
                    },
                }
            } else if dots == 1 {
                let content = input.substring_char(i, j).to_owned();
                match lex_from(input, chars, j, depth) {
                    Err(e) => Err(e),
                    Ok(mut ts) => {
                        let ghost rest0 = ts@;
                        ts.insert(0, Token::Float(content, Span::new(i, j)));
                        proof {
                            assert(token_views(ts@) =~= seq![
                                TokenM::Float(text, i as int, j as int),
                            ] + token_views(rest0));
                        }
                        Ok(ts)
                    },
                }
            } else {
                let d1 = find_dot(chars, i, j);
                let d2: usize = if d1 >= j {
                    j
                } else {
                    find_dot(chars, d1 + 1, j)
                };
                proof {
                    if d1 >= j {
                        assert(sp_find_dot(m, d1 + 1, j as int) == j);
                    }
                }
                Err(LexError::UnexpectedChar('.', d2))
            }
        } else if c == 't' {
            if chars.len() - i < 4 {
                Err(LexError::UnexpectedEndOfInput(chars.len()))
            } else if chars[i + 1] != 'r' {
                Err(LexError::UnexpectedChar(chars[i + 1], i + 1))
            } else if chars[i + 2] != 'u' {
                Err(LexError::UnexpectedChar(chars[i + 2], i + 2))
            } else if chars[i + 3] != 'e' {
                Err(LexError::UnexpectedChar(chars[i + 3], i + 3))
            } else {
                match lex_from(input, chars, i + 4, depth) {
                    Err(e) => Err(e),
                    Ok(mut ts) => {
                        let ghost rest0 = ts@;
                        ts.insert(0, Token::Bool(true, Span::new(i, i + 4)));
                        proof {
                            assert(token_views(ts@) =~= seq![TokenM::Bool(true, i as int, i + 4)]
                                + token_views(rest0));
                        }
                        Ok(ts)
                    },
                }
            }
        } else if c == 'f' {
            if chars.len() - i < 5 {
                Err(LexError::UnexpectedEndOfInput(chars.len()))
            } else if chars[i + 1] != 'a' {
                Err(LexError::UnexpectedChar(chars[i + 1], i + 1))
            } else if chars[i + 2] != 'l' {
                Err(LexError::UnexpectedChar(chars[i + 2], i + 2))
            } else if chars[i + 3] != 's' {
                Err(LexError::UnexpectedChar(chars[i + 3], i + 3))
            } else if chars[i + 4] != 'e' {
                Err(LexError::UnexpectedChar(chars[i + 4], i + 4))
            } else {
                match lex_from(input, chars, i + 5, depth) {
                    Err(e) => Err(e),
                    Ok(mut ts) => {
                        let ghost rest0 = ts@;
                        ts.insert(0, Token::Bool(false, Span::new(i, i + 5)));
                        proof {
                            assert(token_views(ts@) =~= seq![TokenM::Bool(false, i as int, i + 5)]
                                + token_views(rest0));
                        }
                        Ok(ts)
                    },
                }
            }
        } else if c == 'n' {
            if chars.len() - i < 4 {
                Err(LexError::UnexpectedEndOfInput(chars.len()))
            } else if chars[i + 1] != 'u' {
                Err(LexError::UnexpectedChar(chars[i + 1], i + 1))
            } else if chars[i + 2] != 'l' {
                Err(LexError::UnexpectedChar(chars[i + 2], i + 2))
            } else if chars[i + 3] != 'l' {
                Err(LexError::UnexpectedChar(chars[i + 3], i + 3))
            } else {
                match lex_from(input, chars, i + 4, depth) {
                    Err(e) => Err(e),
                    Ok(mut ts) => {
                        let ghost rest0 = ts@;
                        ts.insert(0, Token::Null(Span::new(i, i + 4)));
                        proof {
                            assert(token_views(ts@) =~= seq![TokenM::Null(i as int, i + 4)]
                                + token_views(rest0));
                        }
                        Ok(ts)
                    },
                }
            }
        } else if cv == 32 || cv == 9 || cv == 10 || cv == 13 || cv == 12 {
            lex_from(input, chars, i + 1, depth)
        } else {
            Err(LexError::UnexpectedChar(c, i))
        }
    }
}

/// Spans of scanned tokens stay within the text, are never empty, and are
/// non-overlapping and monotonically increasing in production order.
#[verifier::rlimit(100)]
pub proof fn lemma_lex_spans(s: Seq<char>, i: int, depth: int)
    requires
        0 <= i <= s.len(),
    ensures
        match sp_lex_from(s, i, depth) {
            Ok(ts) => (forall|k: int|
                0 <= k < ts.len() ==> i <= tm_start(#[trigger] ts[k]) && tm_start(ts[k]) < tm_end(
                    ts[k],
                ) && tm_end(ts[k]) <= s.len()) && (forall|k: int|
                0 <= k < ts.len() - 1 ==> tm_end(#[trigger] ts[k]) <= tm_start(ts[k + 1])),
            Err(_) => true,
        },
    decreases s.len() - i,
{
    if i >= s.len() {
    } else {
        let c = s[i];
        if c == '{' || c == '}' || c == '[' || c == ']' || c == ':' || c == ',' {
            let nd: int = if c == '{' {
                depth + 1
            } else if c == '}' {
                if depth > 0 {
                    depth - 1
                } else {
                    0
                }
            } else {
                depth
            };
            lemma_lex_spans(s, i + 1, nd);
        } else if c == '"' {
            match sp_close_quote(s, i + 1) {
                None => {},
                Some(j) => {
                    lemma_close_quote_range(s, i + 1);
                    if i <= j && j < s.len() {
                        lemma_lex_spans(s, j + 1, depth);
                    }
                },
            }
        } else if is_digit(c) {
            let j = sp_num_end(s, i);
            lemma_num_end_ge(s, i + 1);
            lemma_num_end_le(s, i);
            assert(sp_num_end(s, i) == sp_num_end(s, i + 1));
            if j < s.len() && s[j] == ',' && j > i {
                lemma_lex_spans(s, j, depth);
            }
        } else if c == 't' || c == 'n' {
            if s.len() - i >= 4 {
                lemma_lex_spans(s, i + 4, depth);
            }
        } else if c == 'f' {
            if s.len() - i >= 5 {
                lemma_lex_spans(s, i + 5, depth);
            }
        } else if is_ws(c) {
            lemma_lex_spans(s, i + 1, depth);
        }
    }
}

/// The spans of a scanned text's tokens stay within the text, are never
/// empty, and are non-overlapping and monotonically increasing in
/// production order.
pub proof fn lemma_lex_spans_monotone(s: Seq<char>)
    ensures
        match sp_lex(s) {
            Ok(ts) => (forall|k: int|
                0 <= k < ts.len() ==> 0 <= tm_start(#[trigger] ts[k]) && tm_start(ts[k]) < tm_end(
                    ts[k],
                ) && tm_end(ts[k]) <= s.len()) && (forall|k: int|
                0 <= k < ts.len() - 1 ==> tm_end(#[trigger] ts[k]) <= tm_start(ts[k + 1])),
            Err(_) => true,
        },
{
    if s.len() > 0 && s[0] == '{' {
        lemma_lex_spans(s, 0, 0);
    }
}

/// A found closing quote stands inside the text, at or after the search
/// start.
proof fn lemma_close_quote_range(s: Seq<char>, i: int)
    ensures
        match sp_close_quote(s, i) {
            Some(j) => i <= j < s.len(),
            None => true,
        },
    decreases s.len() - i,
{
    if i < s.len() && s[i] != '"' {
        lemma_close_quote_range(s, i + 1);
    }
}

/// The scanner's output: the tokens of one JSON text in source order, with
/// a cursor for reading them off one by one.
pub struct Lexer {
    vec: Vec<Token>,
    pos: usize,
}

impl Lexer {
    /// The models of the scanned tokens.
    pub closed spec fn tokens(&self) -> Seq<TokenM> {
        token_views(self.vec@)
    }

    /// How many tokens were already read off.
    pub closed spec fn position(&self) -> int {
        self.pos as int
    }

    /// The cursor never stands beyond the end of the tokens.
    pub closed spec fn lexer_wf(&self) -> bool {
        self.pos <= self.vec@.len()
    }

    /// Scans a whole JSON text into tokens.  The text must not be empty and
    /// must begin with `{`; every brace must close before the text ends.
    /// On success the tokens stand in source order behind a fresh cursor.
    pub fn new(input: &str) -> (r: Result<Lexer, LexError>)
        ensures
            match r {
                Ok(lx) => sp_lex(input@) == Ok::<_, LexErrV>(lx.tokens()) && lx.position() == 0
                    && lx.lexer_wf(),
                Err(e) => sp_lex(input@) == Err::<Seq<TokenM>, _>(e@),
            },
    {
        let chars = str_to_chars(input);
        if chars.len() == 0 {
            return Err(LexError::UnexpectedEndOfInput(0));
        }
        if chars[0] != '{' {
            return Err(LexError::UnexpectedChar(chars[0], 0));
        }
        match lex_from(input, &chars, 0, 0) {
            Err(e) => Err(e),
            Ok(ts) => Ok(Lexer { vec: ts, pos: 0 }),
        }
    }

    /// The token `peek` places ahead of the cursor, without moving; `None`
    /// where that place is past the end.
    pub fn peek(&self, peek: usize) -> (r: Option<&Token>)
        requires
            self.lexer_wf(),
        ensures
            match r {
                Some(t) => self.position() + peek < self.tokens().len() && t@ == self.tokens()[
                    self.position() + peek
                ],
                None => self.position() + peek >= self.tokens().len(),
            },
    {
        if peek < self.vec.len() - self.pos {
            Some(&self.vec[self.pos + peek])
        } else {
            None
        }
    }

    /// Reads off the token under the cursor and moves one place forward;
    /// `None` at the end.
    pub fn next(&mut self) -> (r: Option<Token>)
        requires
            old(self).lexer_wf(),
        ensures
            final(self).lexer_wf(),
            final(self).tokens() == old(self).tokens(),
            match r {
                Some(t) => old(self).position() < old(self).tokens().len() && t@ == old(
                    self,
                ).tokens()[old(self).position()] && final(self).position() == old(self).position()
                    + 1,
                None => old(self).position() >= old(self).tokens().len() && final(self).position()
                    == old(self).position(),
            },
    {
        if self.pos < self.vec.len() {
            let t = self.vec[self.pos].clone();
            self.pos = self.pos + 1;
            Some(t)
        } else {
            None
        }
    }
}

} // verus!
