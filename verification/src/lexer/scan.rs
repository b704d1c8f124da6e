//! The scanner: turns ASCII source text into tokens, one per call of `next`.
use vstd::prelude::*;

use crate::lexer::{
    char_is_alnum, char_is_alpha, char_is_digit, char_is_ws, is_alnum, is_alpha, is_digit, is_ws,
    spec_keyword_type, Token, TokenType,
};

verus! {

/// Number of line breaks in `src` from index `i` on.
pub open spec fn newlines_from(src: Seq<char>, i: int) -> int
    decreases src.len() - i,
{
    if 0 <= i < src.len() {
        (if src[i] == '\n' { 1int } else { 0int }) + newlines_from(src, i + 1)
    } else {
        0
    }
}

pub proof fn lemma_newlines_nonneg(src: Seq<char>, i: int)
    ensures
        newlines_from(src, i) >= 0,
    decreases src.len() - i,
{
    if 0 <= i < src.len() {
        lemma_newlines_nonneg(src, i + 1);
    }
}

/// Whether `source` can be scanned: ASCII text with fewer line breaks than
/// the line counter can count.
pub fn scannable(source: &str) -> (r: bool)
    ensures
        r == (vstd::string::is_ascii(source) && source@.len() < usize::MAX && newlines_from(
            source@,
            0,
        ) <= 65535),
{
    if !source.is_ascii() {
        return false;
    }
    let n = source.unicode_len();
    let mut i = n;
    let mut count: usize = 0;
    while i > 0
        invariant
            i <= n,
            n == source@.len(),
            count == newlines_from(source@, i as int),
            count <= 65535,
        decreases i,
    {
        proof {
            lemma_newlines_nonneg(source@, i as int);
        }
        if source.get_char(i - 1) == '\n' {
            if count == 65535 {
                proof {
                    lemma_newlines_below(source@, 0, i - 1);
                }
                return false;
            }
            count += 1;
        }
        i -= 1;
    }
    n < usize::MAX
}

/// Counting from an earlier index counts at least as many line breaks.
pub proof fn lemma_newlines_below(src: Seq<char>, i: int, j: int)
    requires
        0 <= i <= j,
    ensures
        newlines_from(src, i) >= newlines_from(src, j),
    decreases j - i,
{
    lemma_newlines_nonneg(src, j);
    if i < j {
        lemma_newlines_below(src, i + 1, j);
        lemma_newlines_nonneg(src, i + 1);
    }
}

/// The scanner's cursor after skipping blanks from `(pos, rel, line)`:
/// a line break restarts the column count and advances the line.
pub open spec fn spec_skip(src: Seq<char>, pos: int, rel: int, line: int) -> (int, int, int)
    decreases src.len() - pos,
{
    if 0 <= pos < src.len() && is_ws(src[pos]) {
        if src[pos] == '\n' {
            spec_skip(src, pos + 1, 1, line + 1)
        } else {
            spec_skip(src, pos + 1, rel + 1, line)
        }
    } else {
        (pos, rel, line)
    }
}

/// Scanning the rest of a number from `i`, with `dots` dots seen so far:
/// `(succeeded, saw a dot, end)`. A second dot is an error, reported at
/// its own index.
pub open spec fn spec_number(src: Seq<char>, i: int, dots: int) -> (bool, bool, int)
    decreases src.len() - i,
{
    if 0 <= i < src.len() {
        let c = src[i];
        let d = if c == '.' { dots + 1 } else { dots };
        if d > 1 {
            (false, true, i)
        } else if !is_digit(c) && c != '.' {
            (true, d > 0, i)
        } else {
            spec_number(src, i + 1, d)
        }
    } else {
        (true, dots > 0, i)
    }
}

/// End of the identifier characters (letters, digits, `_`) starting at `i`.
pub open spec fn spec_ident_end(src: Seq<char>, i: int) -> int
    decreases src.len() - i,
{
    if 0 <= i < src.len() && (is_alnum(src[i]) || src[i] == '_') {
        spec_ident_end(src, i + 1)
    } else {
        i
    }
}

/// Scanning a string body from `i`: `(closed, end)`, `end` just past the
/// closing quote, or the end of the text when there is none.
pub open spec fn spec_string(src: Seq<char>, i: int) -> (bool, int)
    decreases src.len() - i,
{
    if 0 <= i < src.len() {
        if src[i] == '"' {
            (true, i + 1)
        } else {
            spec_string(src, i + 1)
        }
    } else {
        (false, i)
    }
}

/// A one- or two-character operator: `c` was read, `i` is the next index.
pub open spec fn spec_pair(
    src: Seq<char>,
    i: int,
    second: char,
    two: TokenType,
    one: Option<TokenType>,
) -> (Option<TokenType>, int) {
    if 0 <= i < src.len() && src[i] == second {
        (Some(two), i + 1)
    } else {
        (one, i)
    }
}

/// The symbol token that starts with `c`; `i` is the index after `c`.
pub open spec fn spec_symbol(src: Seq<char>, i: int, c: char) -> (Option<TokenType>, int) {
    if c == '+' {
        (Some(TokenType::OpPlus), i)
    } else if c == '-' {
        (Some(TokenType::OpMinus), i)
    } else if c == '*' {
        (Some(TokenType::OpStar), i)
    } else if c == '%' {
        (Some(TokenType::OpPercent), i)
    } else if c == ';' {
        (Some(TokenType::Semicolon), i)
    } else if c == ',' {
        (Some(TokenType::Comma), i)
    } else if c == '(' {
        (Some(TokenType::Lparen), i)
    } else if c == ')' {
        (Some(TokenType::Rparen), i)
    } else if c == '{' {
        (Some(TokenType::Lbrace), i)
    } else if c == '}' {
        (Some(TokenType::Rbrace), i)
    } else if c == '[' {
        (Some(TokenType::Lbracket), i)
    } else if c == ']' {
        (Some(TokenType::Rbracket), i)
    } else if c == '=' {
        spec_pair(src, i, '=', TokenType::OpEqualEqual, Some(TokenType::OpEqual))
    } else if c == '&' {
        spec_pair(src, i, '&', TokenType::OpLogAnd, Some(TokenType::OpAmp))
    } else if c == '!' {
        spec_pair(src, i, '=', TokenType::OpNotEqual, Some(TokenType::OpExclaim))
    } else if c == '<' {
        spec_pair(src, i, '=', TokenType::OpLessEqual, Some(TokenType::OpLess))
    } else if c == '>' {
        spec_pair(src, i, '=', TokenType::OpGreaterEqual, Some(TokenType::OpGreater))
    } else if c == '/' {
        spec_pair(src, i, '/', TokenType::SlashSlash, Some(TokenType::OpSlash))
    } else if c == '|' {
        spec_pair(src, i, '|', TokenType::OpLogOr, None)
    } else {
        (None, i)
    }
}

/// One scanning step from the cursor `(pos, rel, line)`: the token type
/// found (`EndOfFile` once only blanks are left, none on a lexical error),
/// the cursor where the token starts, and the cursor after the step.
pub open spec fn spec_next(src: Seq<char>, pos: int, rel: int, line: int) -> (
    Option<TokenType>,
    (int, int, int),
    (int, int, int),
) {
    let s1 = spec_skip(src, pos, rel, line);
    let p = s1.0;
    let r = s1.1;
    let l = s1.2;
    if p >= src.len() {
        (Some(TokenType::EndOfFile), s1, s1)
    } else {
        let c = src[p];
        if is_digit(c) {
            let n = spec_number(src, p + 1, 0);
            (
                if n.0 {
                    Some(
                        if n.1 {
                            TokenType::FloatLiteral
                        } else {
                            TokenType::IntegerLiteral
                        },
                    )
                } else {
                    None
                },
                s1,
                (n.2, r + (n.2 - p), l),
            )
        } else if is_alpha(c) {
            let e = spec_ident_end(src, p + 1);
            (Some(spec_keyword_type(src.subrange(p, e))), s1, (e, r + (e - p), l))
        } else if c == '"' {
            let st = spec_string(src, p + 1);
            (if st.0 { Some(TokenType::StringLiteral) } else { None }, s1, (st.1, r + (st.1 - p), l))
        } else {
            let sy = spec_symbol(src, p + 1, c);
            (sy.0, s1, (sy.1, r + (sy.1 - p), l))
        }
    }
}

pub proof fn lemma_skip_mono(src: Seq<char>, pos: int, rel: int, line: int)
    requires
        0 <= pos <= src.len(),
    ensures
        pos <= spec_skip(src, pos, rel, line).0 <= src.len(),
    decreases src.len() - pos,
{
    if 0 <= pos < src.len() && is_ws(src[pos]) {
        if src[pos] == '\n' {
            lemma_skip_mono(src, pos + 1, 1, line + 1);
        } else {
            lemma_skip_mono(src, pos + 1, rel + 1, line);
        }
    }
}

pub proof fn lemma_number_mono(src: Seq<char>, i: int, dots: int)
    requires
        0 <= i <= src.len(),
    ensures
        i <= spec_number(src, i, dots).2 <= src.len(),
    decreases src.len() - i,
{
    if 0 <= i < src.len() {
        let c = src[i];
        let d = if c == '.' { dots + 1 } else { dots };
        if d <= 1 && !(!is_digit(c) && c != '.') {
            lemma_number_mono(src, i + 1, d);
        }
    }
}

pub proof fn lemma_ident_mono(src: Seq<char>, i: int)
    requires
        0 <= i <= src.len(),
    ensures
        i <= spec_ident_end(src, i) <= src.len(),
    decreases src.len() - i,
{
    if 0 <= i < src.len() && (is_alnum(src[i]) || src[i] == '_') {
        lemma_ident_mono(src, i + 1);
    }
}

pub proof fn lemma_string_mono(src: Seq<char>, i: int)
    requires
        0 <= i <= src.len(),
    ensures
        i <= spec_string(src, i).1 <= src.len(),
    decreases src.len() - i,
{
    if 0 <= i < src.len() && src[i] != '"' {
        lemma_string_mono(src, i + 1);
    }
}

/// Every character of `src` in `[a, b)` is a blank.
pub open spec fn blank_run(src: Seq<char>, a: int, b: int) -> bool {
    forall|i: int| a <= i < b ==> is_ws(#[trigger] src[i])
}

/// The source ranges `[start, end)` of the tokens that scanning from the
/// cursor `(pos, rel, line)` yields, up to the end-of-file token or the
/// first lexical error, whichever comes first.
pub open spec fn spec_token_ranges(src: Seq<char>, pos: int, rel: int, line: int) -> Seq<
    (int, int),
>
    decreases src.len() - pos,
{
    let (t, s1, s2) = spec_next(src, pos, rel, line);
    if t.is_some() && t != Some(TokenType::EndOfFile) && pos < s2.0 <= src.len() {
        seq![(s1.0, s2.0)].add(spec_token_ranges(src, s2.0, s2.1, s2.2))
    } else {
        Seq::empty()
    }
}

/// Whether scanning from the cursor `(pos, rel, line)` reaches the
/// end-of-file token rather than a lexical error.
pub open spec fn spec_scan_ends(src: Seq<char>, pos: int, rel: int, line: int) -> bool
    decreases src.len() - pos,
{
    let (t, s1, s2) = spec_next(src, pos, rel, line);
    if t.is_some() && t != Some(TokenType::EndOfFile) && pos < s2.0 <= src.len() {
        spec_scan_ends(src, s2.0, s2.1, s2.2)
    } else {
        t == Some(TokenType::EndOfFile)
    }
}

/// Where the blanks before the `k`-th range of `r` start: at `from` for the
/// first, else at the end of the range before it.
pub open spec fn gap_start(from: int, r: Seq<(int, int)>, k: int) -> int {
    if k == 0 {
        from
    } else {
        r[k - 1].1
    }
}

proof fn lemma_skip_blanks(src: Seq<char>, pos: int, rel: int, line: int)
    requires
        0 <= pos <= src.len(),
    ensures
        blank_run(src, pos, spec_skip(src, pos, rel, line).0),
        spec_skip(src, pos, rel, line).0 < src.len() ==> !is_ws(
            src[spec_skip(src, pos, rel, line).0],
        ),
    decreases src.len() - pos,
{
    lemma_skip_mono(src, pos, rel, line);
    if 0 <= pos < src.len() && is_ws(src[pos]) {
        if src[pos] == '\n' {
            lemma_skip_blanks(src, pos + 1, 1, line + 1);
        } else {
            lemma_skip_blanks(src, pos + 1, rel + 1, line);
        }
    }
}

/// One scanning step skips only blanks, and then either stands at the end
/// of the text, where it gives the end-of-file token and moves no further,
/// or reads at least one character.
pub proof fn lemma_next_step(src: Seq<char>, pos: int, rel: int, line: int)
    requires
        0 <= pos <= src.len(),
    ensures
        ({
            let (t, s1, s2) = spec_next(src, pos, rel, line);
            &&& pos <= s1.0 <= s2.0 <= src.len()
            &&& blank_run(src, pos, s1.0)
            &&& (t == Some(TokenType::EndOfFile)) == (s1.0 == src.len())
            &&& t == Some(TokenType::EndOfFile) ==> s2 == s1
            &&& s1.0 < src.len() ==> s1.0 < s2.0
        }),
{
    lemma_skip_mono(src, pos, rel, line);
    lemma_skip_blanks(src, pos, rel, line);
    let p = spec_skip(src, pos, rel, line).0;
    if p < src.len() {
        lemma_number_mono(src, p + 1, 0);
        lemma_ident_mono(src, p + 1);
        lemma_string_mono(src, p + 1);
    }
}

/// The tokens and the blanks between them cover the text in order: each
/// token's lexeme is a nonempty range of the text, only blanks lie between
/// one token and the next (and before the first), and once the scan
/// reaches the end-of-file token only blanks follow the last token.
pub proof fn lemma_tokens_cover_text(src: Seq<char>, pos: int, rel: int, line: int)
    requires
        0 <= pos <= src.len(),
    ensures
        ({
            let r = spec_token_ranges(src, pos, rel, line);
            &&& forall|k: int| 0 <= k < r.len() ==> gap_start(pos, r, k) <= #[trigger] r[k].0 < r[k].1 <= src.len()
            &&& forall|k: int| 0 <= k < r.len() ==> blank_run(src, gap_start(pos, r, k), #[trigger] r[k].0)
            &&& spec_scan_ends(src, pos, rel, line) ==> blank_run(
                src,
                gap_start(pos, r, r.len() as int),
                src.len() as int,
            )
        }),
    decreases src.len() - pos,
{
    lemma_next_step(src, pos, rel, line);
    let (t, s1, s2) = spec_next(src, pos, rel, line);
    let r = spec_token_ranges(src, pos, rel, line);
    if t.is_some() && t != Some(TokenType::EndOfFile) && pos < s2.0 <= src.len() {
        lemma_tokens_cover_text(src, s2.0, s2.1, s2.2);
        let rest = spec_token_ranges(src, s2.0, s2.1, s2.2);
        assert(r == seq![(s1.0, s2.0)].add(rest));
        assert forall|k: int| 0 <= k < r.len() implies gap_start(pos, r, k) <= r[k].0 < r[k].1
            <= src.len() && blank_run(src, gap_start(pos, r, k), r[k].0) by {
            if k > 0 {
                assert(r[k] == rest[k - 1]);
                assert(gap_start(pos, r, k) == gap_start(s2.0, rest, k - 1));
            }
        }
        assert(gap_start(pos, r, r.len() as int) == gap_start(s2.0, rest, rest.len() as int));
    }
}

/// Index where the line that holds index `i` starts.
pub open spec fn line_start(src: Seq<char>, i: int) -> int
    decreases i,
{
    if i <= 0 {
        0
    } else if src[i - 1] == '\n' {
        i
    } else {
        line_start(src, i - 1)
    }
}

/// Number of line breaks before index `i`.
pub open spec fn lines_before(src: Seq<char>, i: int) -> int
    decreases i,
{
    if i <= 0 {
        0
    } else {
        lines_before(src, i - 1) + if src[i - 1] == '\n' {
            1int
        } else {
            0int
        }
    }
}

/// Whether the cursor `(pos, rel, line)` gives the true place of index
/// `pos`: its line counted from 0 and its column counted from 1.
pub open spec fn in_sync(src: Seq<char>, pos: int, rel: int, line: int) -> bool {
    rel == pos - line_start(src, pos) + 1 && line == lines_before(src, pos)
}

/// Whether no line break lies in `[a, b)`.
pub open spec fn no_break(src: Seq<char>, a: int, b: int) -> bool {
    forall|j: int| a <= j < b ==> #[trigger] src[j] != '\n'
}

proof fn lemma_skip_sync(src: Seq<char>, pos: int, rel: int, line: int)
    requires
        0 <= pos <= src.len(),
        in_sync(src, pos, rel, line),
    ensures
        ({
            let s = spec_skip(src, pos, rel, line);
            in_sync(src, s.0, s.1, s.2)
        }),
    decreases src.len() - pos,
{
    if 0 <= pos < src.len() && is_ws(src[pos]) {
        if src[pos] == '\n' {
            lemma_skip_sync(src, pos + 1, 1, line + 1);
        } else {
            lemma_skip_sync(src, pos + 1, rel + 1, line);
        }
    }
}

proof fn lemma_run_sync(src: Seq<char>, a: int, b: int, rel: int, line: int)
    requires
        0 <= a <= b <= src.len(),
        no_break(src, a, b),
        in_sync(src, a, rel, line),
    ensures
        in_sync(src, b, rel + (b - a), line),
    decreases b - a,
{
    if a < b {
        lemma_run_sync(src, a, b - 1, rel, line);
        assert(src[b - 1] != '\n');
    }
}

proof fn lemma_number_no_break(src: Seq<char>, i: int, dots: int)
    requires
        0 <= i <= src.len(),
    ensures
        no_break(src, i, spec_number(src, i, dots).2),
    decreases src.len() - i,
{
    if 0 <= i < src.len() {
        let c = src[i];
        let d = if c == '.' { dots + 1 } else { dots };
        if d <= 1 && !(!is_digit(c) && c != '.') {
            lemma_number_no_break(src, i + 1, d);
        }
    }
}

proof fn lemma_ident_no_break(src: Seq<char>, i: int)
    requires
        0 <= i <= src.len(),
    ensures
        no_break(src, i, spec_ident_end(src, i)),
    decreases src.len() - i,
{
    if 0 <= i < src.len() && (is_alnum(src[i]) || src[i] == '_') {
        lemma_ident_no_break(src, i + 1);
    }
}

/// Lines and columns: from a cursor that gives the true place of its index
/// (as the cursor of a new scanner does), a scanning step reports each
/// token at the line and column of its first character, and leaves the
/// cursor true again unless what it read holds a line break, which only a
/// string literal can.
pub proof fn lemma_next_positions(src: Seq<char>, pos: int, rel: int, line: int)
    requires
        0 <= pos <= src.len(),
        in_sync(src, pos, rel, line),
    ensures
        in_sync(src, 0, 1, 0),
        ({
            let (t, s1, s2) = spec_next(src, pos, rel, line);
            &&& in_sync(src, s1.0, s1.1, s1.2)
            &&& no_break(src, s1.0, s2.0) ==> in_sync(src, s2.0, s2.1, s2.2)
            &&& (s1.0 < src.len() && src[s1.0] != '"') ==> no_break(src, s1.0, s2.0)
        }),
{
    lemma_next_step(src, pos, rel, line);
    lemma_skip_sync(src, pos, rel, line);
    let (t, s1, s2) = spec_next(src, pos, rel, line);
    let p = s1.0;
    if p < src.len() {
        lemma_number_mono(src, p + 1, 0);
        lemma_ident_mono(src, p + 1);
        lemma_string_mono(src, p + 1);
        lemma_number_no_break(src, p + 1, 0);
        lemma_ident_no_break(src, p + 1);
        lemma_skip_blanks(src, pos, rel, line);
        assert(src[p] != '\n');
        if no_break(src, s1.0, s2.0) {
            lemma_run_sync(src, s1.0, s2.0, s1.1, s1.2);
        }
    }
}

/// Whether the character after index `p` is `d`.
pub open spec fn followed_by(src: Seq<char>, p: int, d: char) -> bool {
    p + 1 < src.len() && src[p + 1] == d
}

/// Operators and punctuation: the token a scanning step gives at a symbol
/// character is fixed by that character, and by the next one where the two
/// form a two-character operator (`==`, `!=`, `<=`, `>=`, `&&`, `||`,
/// `//`); the token starts at the symbol and its lexeme is those one or two
/// characters. A lone `|` is a lexical error.
pub proof fn lemma_symbol_tokens(src: Seq<char>, pos: int, rel: int, line: int)
    requires
        0 <= pos <= src.len(),
    ensures
        ({
            let (t, s1, s2) = spec_next(src, pos, rel, line);
            let p = s1.0;
            let one = |tt: TokenType| t == Some(tt) && s2.0 == p + 1;
            let two = |tt: TokenType| t == Some(tt) && s2.0 == p + 2;
            p < src.len() ==> {
                &&& src[p] == '+' ==> one(TokenType::OpPlus)
                &&& src[p] == '-' ==> one(TokenType::OpMinus)
                &&& src[p] == '*' ==> one(TokenType::OpStar)
                &&& src[p] == '%' ==> one(TokenType::OpPercent)
                &&& src[p] == ';' ==> one(TokenType::Semicolon)
                &&& src[p] == ',' ==> one(TokenType::Comma)
                &&& src[p] == '(' ==> one(TokenType::Lparen)
                &&& src[p] == ')' ==> one(TokenType::Rparen)
                &&& src[p] == '{' ==> one(TokenType::Lbrace)
                &&& src[p] == '}' ==> one(TokenType::Rbrace)
                &&& src[p] == '[' ==> one(TokenType::Lbracket)
                &&& src[p] == ']' ==> one(TokenType::Rbracket)
                &&& src[p] == '/' ==> if followed_by(src, p, '/') {
                    two(TokenType::SlashSlash)
                } else {
                    one(TokenType::OpSlash)
                }
                &&& src[p] == '=' ==> if followed_by(src, p, '=') {
                    two(TokenType::OpEqualEqual)
                } else {
                    one(TokenType::OpEqual)
                }
                &&& src[p] == '!' ==> if followed_by(src, p, '=') {
                    two(TokenType::OpNotEqual)
                } else {
                    one(TokenType::OpExclaim)
                }
                &&& src[p] == '<' ==> if followed_by(src, p, '=') {
                    two(TokenType::OpLessEqual)
                } else {
                    one(TokenType::OpLess)
                }
                &&& src[p] == '>' ==> if followed_by(src, p, '=') {
                    two(TokenType::OpGreaterEqual)
                } else {
                    one(TokenType::OpGreater)
                }
                &&& src[p] == '&' ==> if followed_by(src, p, '&') {
                    two(TokenType::OpLogAnd)
                } else {
                    one(TokenType::OpAmp)
                }
                &&& src[p] == '|' ==> if followed_by(src, p, '|') {
                    two(TokenType::OpLogOr)
                } else {
                    t is None
                }
            }
        }),
{
    lemma_skip_mono(src, pos, rel, line);
}

/// Whether a `.` lies in `[a, b)`.
pub open spec fn has_dot(src: Seq<char>, a: int, b: int) -> bool {
    exists|j: int| a <= j < b && #[trigger] src[j] == '.'
}

/// Whether every character in `[a, b)` is a digit or a `.`.
pub open spec fn digits_and_dots(src: Seq<char>, a: int, b: int) -> bool {
    forall|j: int| a <= j < b ==> is_digit(#[trigger] src[j]) || src[j] == '.'
}

/// Whether no two characters in `[a, b)` are both `.`.
pub open spec fn at_most_one_dot(src: Seq<char>, a: int, b: int) -> bool {
    forall|j: int, m: int| a <= j < m < b ==> !(#[trigger] src[j] == '.' && #[trigger] src[m] == '.')
}

proof fn lemma_number_run(src: Seq<char>, i: int, dots: int)
    requires
        0 <= i <= src.len(),
        dots == 0 || dots == 1,
    ensures
        ({
            let (ok, saw, e) = spec_number(src, i, dots);
            &&& i <= e <= src.len()
            &&& digits_and_dots(src, i, e)
            &&& ok ==> (e == src.len() || !(is_digit(src[e]) || src[e] == '.'))
            &&& ok ==> saw == (dots == 1 || has_dot(src, i, e))
            &&& ok ==> at_most_one_dot(src, i, e)
            &&& ok && dots == 1 ==> !has_dot(src, i, e)
            &&& !ok ==> e < src.len() && src[e] == '.' && (dots == 1 || has_dot(src, i, e))
        }),
    decreases src.len() - i,
{
    if 0 <= i < src.len() {
        let c = src[i];
        let d = if c == '.' { dots + 1 } else { dots };
        if d > 1 {
        } else if !is_digit(c) && c != '.' {
        } else {
            lemma_number_run(src, i + 1, d);
            let (ok, saw, e) = spec_number(src, i + 1, d);
            if c == '.' {
                assert(src[i] == '.');
                if !ok {
                    assert(has_dot(src, i, e));
                }
                if ok {
                    assert(has_dot(src, i, e));
                    assert forall|j: int, m: int| i <= j < m < e implies !(#[trigger] src[j] == '.'
                        && #[trigger] src[m] == '.') by {
                        if j == i {
                            assert(!has_dot(src, i + 1, e));
                            assert(!(src[m] == '.'));
                        }
                    }
                }
            } else {
                if ok {
                    assert(has_dot(src, i + 1, e) ==> has_dot(src, i, e));
                    assert(has_dot(src, i, e) ==> has_dot(src, i + 1, e));
                }
                if !ok && dots == 0 {
                    assert(has_dot(src, i, e));
                }
            }
        }
    }
}

/// Numbers: a scanning step at a digit reads the longest run of digits and
/// dots from it. With at most one dot in the run the token is that run, a
/// `FloatLiteral` when it holds the dot and an `IntegerLiteral` when it is
/// all digits; a run with a second dot is a lexical error, found at that
/// dot.
pub proof fn lemma_number_tokens(src: Seq<char>, pos: int, rel: int, line: int)
    requires
        0 <= pos <= src.len(),
    ensures
        ({
            let (t, s1, s2) = spec_next(src, pos, rel, line);
            let p = s1.0;
            let e = s2.0;
            p < src.len() && is_digit(src[p]) ==> {
                &&& p < e <= src.len()
                &&& digits_and_dots(src, p, e)
                &&& t is Some ==> {
                    &&& e == src.len() || !(is_digit(src[e]) || src[e] == '.')
                    &&& at_most_one_dot(src, p, e)
                    &&& t == Some(
                        if has_dot(src, p, e) {
                            TokenType::FloatLiteral
                        } else {
                            TokenType::IntegerLiteral
                        },
                    )
                }
                &&& t is None ==> e < src.len() && src[e] == '.' && has_dot(src, p, e)
            }
        }),
{
    lemma_skip_mono(src, pos, rel, line);
    let p = spec_skip(src, pos, rel, line).0;
    if p < src.len() && is_digit(src[p]) {
        lemma_number_run(src, p + 1, 0);
        let (ok, saw, e) = spec_number(src, p + 1, 0);
        assert(has_dot(src, p, e) == has_dot(src, p + 1, e)) by {
            if has_dot(src, p, e) {
                let j = choose|j: int| p <= j < e && #[trigger] src[j] == '.';
                assert(j != p);
            }
            if has_dot(src, p + 1, e) {
                let j = choose|j: int| p + 1 <= j < e && #[trigger] src[j] == '.';
                assert(p <= j < e);
            }
        }
        assert forall|j: int, m: int| p <= j < m < e && ok implies !(#[trigger] src[j] == '.'
            && #[trigger] src[m] == '.') by {
            if j == p {
                assert(src[p] != '.');
            }
        }
    }
}

/// Words: a scanning step at a letter reads the longest run of letters,
/// digits and `_` from it. The reserved words `int`, `char`, `float`,
/// `void`, `bool`, `struct`, `if`, `else`, `while`, `for`, `return`,
/// `break`, `continue`, `true` and `false` give their keyword tokens; any
/// other word (`string` among them) is an `Identifier`.
pub proof fn lemma_word_tokens(src: Seq<char>, pos: int, rel: int, line: int)
    requires
        0 <= pos <= src.len(),
    ensures
        ({
            let (t, s1, s2) = spec_next(src, pos, rel, line);
            let p = s1.0;
            let e = s2.0;
            let w = src.subrange(p, e);
            p < src.len() && is_alpha(src[p]) ==> {
                &&& p < e <= src.len()
                &&& forall|j: int| p <= j < e ==> is_alnum(#[trigger] src[j]) || src[j] == '_'
                &&& e == src.len() || !(is_alnum(src[e]) || src[e] == '_')
                &&& w == seq!['i', 'n', 't'] ==> t == Some(TokenType::KwInt)
                &&& w == seq!['c', 'h', 'a', 'r'] ==> t == Some(TokenType::KwChar)
                &&& w == seq!['f', 'l', 'o', 'a', 't'] ==> t == Some(TokenType::KwFloat)
                &&& w == seq!['v', 'o', 'i', 'd'] ==> t == Some(TokenType::KwVoid)
                &&& w == seq!['b', 'o', 'o', 'l'] ==> t == Some(TokenType::KwBool)
                &&& w == seq!['s', 't', 'r', 'u', 'c', 't'] ==> t == Some(TokenType::KwStruct)
                &&& w == seq!['i', 'f'] ==> t == Some(TokenType::KwIf)
                &&& w == seq!['e', 'l', 's', 'e'] ==> t == Some(TokenType::KwElse)
                &&& w == seq!['w', 'h', 'i', 'l', 'e'] ==> t == Some(TokenType::KwWhile)
                &&& w == seq!['f', 'o', 'r'] ==> t == Some(TokenType::KwFor)
                &&& w == seq!['r', 'e', 't', 'u', 'r', 'n'] ==> t == Some(TokenType::KwReturn)
                &&& w == seq!['b', 'r', 'e', 'a', 'k'] ==> t == Some(TokenType::KwBreak)
                &&& w == seq!['c', 'o', 'n', 't', 'i', 'n', 'u', 'e'] ==> t == Some(
                    TokenType::KwContinue,
                )
                &&& w == seq!['t', 'r', 'u', 'e'] ==> t == Some(TokenType::KwTrue)
                &&& w == seq!['f', 'a', 'l', 's', 'e'] ==> t == Some(TokenType::KwFalse)
                &&& w != seq!['i', 'n', 't'] && w != seq!['c', 'h', 'a', 'r'] && w != seq![
                    'f',
                    'l',
                    'o',
                    'a',
                    't',
                ] && w != seq!['v', 'o', 'i', 'd'] && w != seq!['b', 'o', 'o', 'l'] && w != seq![
                    's',
                    't',
                    'r',
                    'u',
                    'c',
                    't',
                ] && w != seq!['i', 'f'] && w != seq!['e', 'l', 's', 'e'] && w != seq![
                    'w',
                    'h',
                    'i',
                    'l',
                    'e',
                ] && w != seq!['f', 'o', 'r'] && w != seq!['r', 'e', 't', 'u', 'r', 'n'] && w
                    != seq!['b', 'r', 'e', 'a', 'k'] && w != seq![
                    'c',
                    'o',
                    'n',
                    't',
                    'i',
                    'n',
                    'u',
                    'e',
                ] && w != seq!['t', 'r', 'u', 'e'] && w != seq!['f', 'a', 'l', 's', 'e'] ==> t
                    == Some(TokenType::Identifier)
            }
        }),
{
    lemma_skip_mono(src, pos, rel, line);
    let p = spec_skip(src, pos, rel, line).0;
    if p < src.len() && is_alpha(src[p]) {
        lemma_ident_run(src, p + 1);
    }
}

proof fn lemma_ident_run(src: Seq<char>, i: int)
    requires
        0 <= i <= src.len(),
    ensures
        ({
            let e = spec_ident_end(src, i);
            &&& i <= e <= src.len()
            &&& forall|j: int| i <= j < e ==> is_alnum(#[trigger] src[j]) || src[j] == '_'
            &&& e == src.len() || !(is_alnum(src[e]) || src[e] == '_')
        }),
    decreases src.len() - i,
{
    if 0 <= i < src.len() && (is_alnum(src[i]) || src[i] == '_') {
        lemma_ident_run(src, i + 1);
    }
}

/// Strings: a scanning step at `"` reads up to and with the next `"`, and
/// the token is that quoted text; with no closing `"` it is a lexical
/// error that reads to the end of the text.
pub proof fn lemma_string_tokens(src: Seq<char>, pos: int, rel: int, line: int)
    requires
        0 <= pos <= src.len(),
    ensures
        ({
            let (t, s1, s2) = spec_next(src, pos, rel, line);
            let p = s1.0;
            let e = s2.0;
            p < src.len() && src[p] == '"' ==> {
                &&& forall|j: int| p < j < e - 1 ==> #[trigger] src[j] != '"'
                &&& t is Some ==> t == Some(TokenType::StringLiteral) && p + 2 <= e <= src.len()
                    && src[e - 1] == '"'
                &&& t is None ==> e == src.len() && forall|j: int| p < j < e ==> #[trigger] src[j]
                    != '"'
            }
        }),
{
    lemma_skip_mono(src, pos, rel, line);
    let p = spec_skip(src, pos, rel, line).0;
    if p < src.len() && src[p] == '"' {
        lemma_string_run(src, p + 1);
    }
}

proof fn lemma_string_run(src: Seq<char>, i: int)
    requires
        0 <= i <= src.len(),
    ensures
        ({
            let (closed, e) = spec_string(src, i);
            &&& closed ==> i + 1 <= e <= src.len() && src[e - 1] == '"' && forall|j: int|
                i <= j < e - 1 ==> #[trigger] src[j] != '"'
            &&& !closed ==> e == src.len() && forall|j: int| i <= j < e ==> #[trigger] src[j] != '"'
        }),
    decreases src.len() - i,
{
    if 0 <= i < src.len() && src[i] != '"' {
        lemma_string_run(src, i + 1);
    }
}

/// Scans ASCII source text into tokens.
pub struct Scanner<'a> {
    source: &'a str,
    len: usize,
    pos: usize,
    rel_pos: usize,
    line: u16,
    ended: bool,
}

impl<'a> Scanner<'a> {
    /// The text being scanned.
    pub closed spec fn text(&self) -> Seq<char> {
        self.source@
    }

    /// The cursor: index of the next character, its column, its line.
    pub closed spec fn cursor(&self) -> (int, int, int) {
        (self.pos as int, self.rel_pos as int, self.line as int)
    }

    /// Whether the end-of-file token has been handed out.
    pub closed spec fn finished(&self) -> bool {
        self.ended
    }

    pub closed spec fn wf(&self) -> bool {
        &&& vstd::string::is_ascii(self.source)
        &&& self.len == self.source@.len()
        &&& self.len < usize::MAX
        &&& self.pos <= self.len
        &&& self.rel_pos <= self.pos + 1
        &&& self.line + newlines_from(self.source@, self.pos as int) <= 65535
        &&& self.ended ==> self.pos == self.len
    }

    /// Starts scanning `source` at line 0, column 1.
    pub fn new(source: &'a str) -> (r: Self)
        requires
            vstd::string::is_ascii(source),
            source@.len() < usize::MAX,
            newlines_from(source@, 0) <= 65535,
        ensures
            r.wf(),
            r.text() == source@,
            r.cursor() == (0int, 1int, 0int),
            !r.finished(),
    {
        let len = source.unicode_len();
        Self { source, len, pos: 0, rel_pos: 1, line: 0, ended: false }
    }

    proof fn lemma_step(&self)
        requires
            self.wf(),
            self.pos < self.len,
        ensures
            newlines_from(self.source@, self.pos + 1) >= 0,
            newlines_from(self.source@, self.pos + 1) <= newlines_from(self.source@, self.pos as int),
            self.source@[self.pos as int] == '\n' ==> newlines_from(self.source@, self.pos + 1) + 1
                == newlines_from(self.source@, self.pos as int),
    {
        lemma_newlines_nonneg(self.source@, self.pos + 1);
    }

    /// Consumes the character under the cursor.
    fn next_char(&mut self) -> (r: char)
        requires
            old(self).wf(),
            old(self).pos < old(self).len,
        ensures
            final(self).wf(),
            final(self).text() == old(self).text(),
            final(self).source == old(self).source,
            final(self).len == old(self).len,
            final(self).ended == old(self).ended,
            final(self).pos == old(self).pos + 1,
            final(self).rel_pos == old(self).rel_pos + 1,
            final(self).line == old(self).line,
            r == old(self).source@[old(self).pos as int],
    {
        proof {
            self.lemma_step();
        }
        self.pos += 1;
        self.rel_pos += 1;
        self.source.get_char(self.pos - 1)
    }

    /// The character under the cursor, if any.
    fn peek(&self) -> (r: Option<char>)
        requires
            self.wf(),
        ensures
            self.pos < self.len ==> r == Some(self.source@[self.pos as int]),
            self.pos >= self.len ==> r.is_none(),
    {
        if self.pos < self.len {
            Some(self.source.get_char(self.pos))
        } else {
            None
        }
    }

    fn next_line(&mut self)
        requires
            old(self).wf(),
            old(self).pos < old(self).len,
            old(self).source@[old(self).pos as int] == '\n',
        ensures
            final(self).source == old(self).source,
            final(self).len == old(self).len,
            final(self).ended == old(self).ended,
            final(self).pos == old(self).pos,
            final(self).rel_pos == 0,
            final(self).line == old(self).line + 1,
            final(self).line + newlines_from(final(self).source@, final(self).pos + 1) <= 65535,
    {
        proof {
            self.lemma_step();
        }
        self.line += 1;
        self.rel_pos = 0;
    }

    fn skip_whitespaces(&mut self)
        requires
            old(self).wf(),
        ensures
            final(self).wf(),
            final(self).source == old(self).source,
            final(self).len == old(self).len,
            final(self).ended == old(self).ended,
            final(self).cursor() == spec_skip(
                old(self).text(),
                old(self).pos as int,
                old(self).rel_pos as int,
                old(self).line as int,
            ),
    {
        let ghost target = spec_skip(
            self.source@,
            self.pos as int,
            self.rel_pos as int,
            self.line as int,
        );
        while self.pos < self.len
            invariant_except_break
                self.wf(),
                self.source == old(self).source,
                self.len == old(self).len,
                self.ended == old(self).ended,
                spec_skip(self.source@, self.pos as int, self.rel_pos as int, self.line as int)
                    == target,
            ensures
                self.wf(),
                self.source == old(self).source,
                self.len == old(self).len,
                self.ended == old(self).ended,
                self.cursor() == target,
            decreases self.len - self.pos,
        {
            let c = self.source.get_char(self.pos);
            if c == '\n' {
                self.next_line();
                self.pos += 1;
                self.rel_pos += 1;
            } else if char_is_ws(c) {
                self.next_char();
            } else {
                break ;
            }
        }
    }

    fn make_token(&self, token_type: TokenType, start: usize, rel_pos: usize) -> (r: Token<'a>)
        requires
            self.wf(),
            start <= self.pos,
        ensures
            r.pos == rel_pos,
            r.line == self.line,
            r.token_type == token_type,
            r.lexeme@ == self.source@.subrange(start as int, self.pos as int),
    {
        let lexeme = self.source.substring_ascii(start, self.pos);
        Token { pos: rel_pos, line: self.line, token_type, lexeme }
    }

    fn scan_number(&mut self) -> (r: Option<TokenType>)
        requires
            old(self).wf(),
        ensures
            final(self).wf(),
            final(self).source == old(self).source,
            final(self).len == old(self).len,
            final(self).ended == old(self).ended,
            ({
                let n = spec_number(old(self).source@, old(self).pos as int, 0);
                &&& final(self).pos == n.2
                &&& final(self).rel_pos == old(self).rel_pos + (n.2 - old(self).pos)
                &&& final(self).line == old(self).line
                &&& r == (if n.0 {
                    Some(
                        if n.1 {
                            TokenType::FloatLiteral
                        } else {
                            TokenType::IntegerLiteral
                        },
                    )
                } else {
                    None
                })
            }),
    {
        let ghost n = spec_number(self.source@, self.pos as int, 0);
        let mut dot: usize = 0;
        let mut toktype = TokenType::IntegerLiteral;
        let mut res: Option<TokenType> = Some(toktype);
        while self.pos < self.len
            invariant_except_break
                self.wf(),
                self.source == old(self).source,
                self.len == old(self).len,
                self.ended == old(self).ended,
                self.line == old(self).line,
                old(self).pos <= self.pos,
                self.rel_pos == old(self).rel_pos + (self.pos - old(self).pos),
                dot <= 1,
                toktype == (if dot > 0 {
                    TokenType::FloatLiteral
                } else {
                    TokenType::IntegerLiteral
                }),
                res == Some(toktype),
                spec_number(self.source@, self.pos as int, dot as int) == n,
            ensures
                self.wf(),
                self.source == old(self).source,
                self.len == old(self).len,
                self.ended == old(self).ended,
                self.line == old(self).line,
                self.pos == n.2,
                self.rel_pos == old(self).rel_pos + (self.pos - old(self).pos),
                res == (if n.0 {
                    Some(
                        if n.1 {
                            TokenType::FloatLiteral
                        } else {
                            TokenType::IntegerLiteral
                        },
                    )
                } else {
                    None
                }),
            decreases self.len - self.pos,
        {
            let c = self.source.get_char(self.pos);
            if c == '.' {
                dot += 1;
                toktype = TokenType::FloatLiteral;
            }
            if dot > 1 {
                res = None;
                break ;
            }
            if !char_is_digit(c) && c != '.' {
                res = Some(toktype);
                break ;
            }
            self.next_char();
            res = Some(toktype);
        }
        res
    }

    fn word_is(&self, start: usize, end: usize, kw: &str) -> (r: bool)
        requires
            self.wf(),
            start <= end <= self.len,
        ensures
            r == (self.source@.subrange(start as int, end as int) =~= kw@),
    {
        let n = kw.unicode_len();
        if end - start != n {
            return false;
        }
        let mut i: usize = 0;
        while i < n
            invariant
                self.wf(),
                start <= end <= self.len,
                end - start == n,
                n == kw@.len(),
                i <= n,
                forall|j: int| 0 <= j < i ==> self.source@[start + j] == kw@[j],
            decreases n - i,
        {
            if self.source.get_char(start + i) != kw.get_char(i) {
                assert(self.source@.subrange(start as int, end as int)[i as int] != kw@[i as int]);
                return false;
            }
            i += 1;
        }
        true
    }

    fn keyword_type(&self, start: usize, end: usize) -> (r: TokenType)
        requires
            self.wf(),
            start <= end <= self.len,
        ensures
            r == spec_keyword_type(self.source@.subrange(start as int, end as int)),
    {
        proof {
            reveal_strlit("int");
            reveal_strlit("char");
            reveal_strlit("float");
            reveal_strlit("void");
            reveal_strlit("bool");
            reveal_strlit("struct");
            reveal_strlit("if");
            reveal_strlit("else");
            reveal_strlit("while");
            reveal_strlit("for");
            reveal_strlit("return");
            reveal_strlit("break");
            reveal_strlit("continue");
            reveal_strlit("true");
            reveal_strlit("false");
        }
        let ghost w = self.source@.subrange(start as int, end as int);
        assert("int"@ =~= seq!['i', 'n', 't']);
        assert("char"@ =~= seq!['c', 'h', 'a', 'r']);
        assert("float"@ =~= seq!['f', 'l', 'o', 'a', 't']);
        assert("void"@ =~= seq!['v', 'o', 'i', 'd']);
        assert("bool"@ =~= seq!['b', 'o', 'o', 'l']);
        assert("struct"@ =~= seq!['s', 't', 'r', 'u', 'c', 't']);
        assert("if"@ =~= seq!['i', 'f']);
        assert("else"@ =~= seq!['e', 'l', 's', 'e']);
        assert("while"@ =~= seq!['w', 'h', 'i', 'l', 'e']);
        assert("for"@ =~= seq!['f', 'o', 'r']);
        assert("return"@ =~= seq!['r', 'e', 't', 'u', 'r', 'n']);
        assert("break"@ =~= seq!['b', 'r', 'e', 'a', 'k']);
        assert("continue"@ =~= seq!['c', 'o', 'n', 't', 'i', 'n', 'u', 'e']);
        assert("true"@ =~= seq!['t', 'r', 'u', 'e']);
        assert("false"@ =~= seq!['f', 'a', 'l', 's', 'e']);
        if self.word_is(start, end, "int") {
            TokenType::KwInt
        } else if self.word_is(start, end, "char") {
            TokenType::KwChar
        } else if self.word_is(start, end, "float") {
            TokenType::KwFloat
        } else if self.word_is(start, end, "void") {
            TokenType::KwVoid
        } else if self.word_is(start, end, "bool") {
            TokenType::KwBool
        } else if self.word_is(start, end, "struct") {
            TokenType::KwStruct
        } else if self.word_is(start, end, "if") {
            TokenType::KwIf
        } else if self.word_is(start, end, "else") {
            TokenType::KwElse
        } else if self.word_is(start, end, "while") {
            TokenType::KwWhile
        } else if self.word_is(start, end, "for") {
            TokenType::KwFor
        } else if self.word_is(start, end, "return") {
            TokenType::KwReturn
        } else if self.word_is(start, end, "break") {
            TokenType::KwBreak
        } else if self.word_is(start, end, "continue") {
            TokenType::KwContinue
        } else if self.word_is(start, end, "true") {
            TokenType::KwTrue
        } else if self.word_is(start, end, "false") {
            TokenType::KwFalse
        } else {
            TokenType::Identifier
        }
    }

    fn scan_identifier(&mut self, start: usize) -> (r: Option<TokenType>)
        requires
            old(self).wf(),
            start <= old(self).pos,
        ensures
            final(self).wf(),
            final(self).source == old(self).source,
            final(self).len == old(self).len,
            final(self).ended == old(self).ended,
            final(self).pos == spec_ident_end(old(self).source@, old(self).pos as int),
            final(self).rel_pos == old(self).rel_pos + (final(self).pos - old(self).pos),
            final(self).line == old(self).line,
            r == Some(
                spec_keyword_type(old(self).source@.subrange(start as int, final(self).pos as int)),
            ),
    {
        let ghost e = spec_ident_end(self.source@, self.pos as int);
        while self.pos < self.len
            invariant_except_break
                self.wf(),
                self.source == old(self).source,
                self.len == old(self).len,
                self.ended == old(self).ended,
                self.line == old(self).line,
                start <= old(self).pos <= self.pos,
                self.rel_pos == old(self).rel_pos + (self.pos - old(self).pos),
                spec_ident_end(self.source@, self.pos as int) == e,
            ensures
                self.wf(),
                self.source == old(self).source,
                self.len == old(self).len,
                self.ended == old(self).ended,
                self.line == old(self).line,
                start <= old(self).pos <= self.pos,
                self.rel_pos == old(self).rel_pos + (self.pos - old(self).pos),
                self.pos == e,
            decreases self.len - self.pos,
        {
            let c = self.source.get_char(self.pos);
            if !char_is_alnum(c) && c != '_' {
                break ;
            }
            self.next_char();
        }
        Some(self.keyword_type(start, self.pos))
    }

    fn scan_string(&mut self) -> (r: Option<TokenType>)
        requires
            old(self).wf(),
        ensures
            final(self).wf(),
            final(self).source == old(self).source,
            final(self).len == old(self).len,
            final(self).ended == old(self).ended,
            ({
                let st = spec_string(old(self).source@, old(self).pos as int);
                &&& final(self).pos == st.1
                &&& final(self).rel_pos == old(self).rel_pos + (st.1 - old(self).pos)
                &&& final(self).line == old(self).line
                &&& r == (if st.0 { Some(TokenType::StringLiteral) } else { None })
            }),
    {
        let ghost st = spec_string(self.source@, self.pos as int);
        let mut res: Option<TokenType> = None;
        while self.pos < self.len
            invariant_except_break
                self.wf(),
                self.source == old(self).source,
                self.len == old(self).len,
                self.ended == old(self).ended,
                self.line == old(self).line,
                old(self).pos <= self.pos,
                self.rel_pos == old(self).rel_pos + (self.pos - old(self).pos),
                spec_string(self.source@, self.pos as int) == st,
                res.is_none(),
            ensures
                self.wf(),
                self.source == old(self).source,
                self.len == old(self).len,
                self.ended == old(self).ended,
                self.line == old(self).line,
                self.pos == st.1,
                self.rel_pos == old(self).rel_pos + (self.pos - old(self).pos),
                res == (if st.0 { Some(TokenType::StringLiteral) } else { None }),
            decreases self.len - self.pos,
        {
            let c = self.next_char();
            if c == '"' {
                res = Some(TokenType::StringLiteral);
                break ;
            }
        }
        res
    }

    fn match_and_move(&mut self, desired_type: TokenType, c: char) -> (r: Option<TokenType>)
        requires
            old(self).wf(),
        ensures
            final(self).wf(),
            final(self).source == old(self).source,
            final(self).len == old(self).len,
            final(self).ended == old(self).ended,
            final(self).line == old(self).line,
            ({
                let p = spec_pair(old(self).source@, old(self).pos as int, c, desired_type, None);
                &&& r == p.0
                &&& final(self).pos == p.1
                &&& final(self).rel_pos == old(self).rel_pos + (p.1 - old(self).pos)
            }),
    {
        match self.peek() {
            Some(d) => {
                if d == c {
                    self.next_char();
                    Some(desired_type)
                } else {
                    None
                }
            },
            None => None,
        }
    }

    /// `match_and_move`, falling back to the one-character operator.
    fn match_or(&mut self, desired_type: TokenType, c: char, single: TokenType) -> (r: Option<
        TokenType,
    >)
        requires
            old(self).wf(),
        ensures
            final(self).wf(),
            final(self).source == old(self).source,
            final(self).len == old(self).len,
            final(self).ended == old(self).ended,
            final(self).line == old(self).line,
            ({
                let p = spec_pair(
                    old(self).source@,
                    old(self).pos as int,
                    c,
                    desired_type,
                    Some(single),
                );
                &&& r == p.0
                &&& final(self).pos == p.1
                &&& final(self).rel_pos == old(self).rel_pos + (p.1 - old(self).pos)
            }),
    {
        match self.match_and_move(desired_type, c) {
            Some(t) => Some(t),
            None => Some(single),
        }
    }

    fn scan_symbol(&mut self, c: char) -> (r: Option<TokenType>)
        requires
            old(self).wf(),
        ensures
            final(self).wf(),
            final(self).source == old(self).source,
            final(self).len == old(self).len,
            final(self).ended == old(self).ended,
            final(self).line == old(self).line,
            ({
                let sy = spec_symbol(old(self).source@, old(self).pos as int, c);
                &&& r == sy.0
                &&& final(self).pos == sy.1
                &&& final(self).rel_pos == old(self).rel_pos + (sy.1 - old(self).pos)
            }),
    {
        match c {
            '+' => Some(TokenType::OpPlus),
            '-' => Some(TokenType::OpMinus),
            '*' => Some(TokenType::OpStar),
            '%' => Some(TokenType::OpPercent),
            ';' => Some(TokenType::Semicolon),
            ',' => Some(TokenType::Comma),
            '(' => Some(TokenType::Lparen),
            ')' => Some(TokenType::Rparen),
            '{' => Some(TokenType::Lbrace),
            '}' => Some(TokenType::Rbrace),
            '[' => Some(TokenType::Lbracket),
            ']' => Some(TokenType::Rbracket),
            '=' => self.match_or(TokenType::OpEqualEqual, '=', TokenType::OpEqual),
            '&' => self.match_or(TokenType::OpLogAnd, '&', TokenType::OpAmp),
            '!' => self.match_or(TokenType::OpNotEqual, '=', TokenType::OpExclaim),
            '<' => self.match_or(TokenType::OpLessEqual, '=', TokenType::OpLess),
            '>' => self.match_or(TokenType::OpGreaterEqual, '=', TokenType::OpGreater),
            '/' => self.match_or(TokenType::SlashSlash, '/', TokenType::OpSlash),
            '|' => self.match_and_move(TokenType::OpLogOr, '|'),
            _ => None,
        }
    }

    /// Scans the next token. Once only blanks are left it hands out one
    /// `EndOfFile` token (with an empty lexeme at the end of the text), and
    /// `None` after that. A lexical error (an unknown symbol, a second dot in
    /// a number, an unclosed string) also gives `None`, with the cursor moved
    /// past what was read.
    pub fn next(&mut self) -> (r: Option<Token<'a>>)
        requires
            old(self).wf(),
        ensures
            final(self).wf(),
            final(self).text() == old(self).text(),
            ({
                let (t, s1, s2) = spec_next(
                    old(self).text(),
                    old(self).cursor().0,
                    old(self).cursor().1,
                    old(self).cursor().2,
                );
                &&& final(self).cursor() == s2
                &&& final(self).finished() == (old(self).finished() || t == Some(
                    TokenType::EndOfFile,
                ))
                &&& r.is_some() == (t.is_some() && !old(self).finished())
                &&& (r matches Some(tok) ==> {
                    &&& tok.token_type == t->0
                    &&& tok.pos == s1.1
                    &&& tok.line == s1.2
                    &&& tok.lexeme@ == old(self).text().subrange(s1.0, s2.0)
                })
            }),
            old(self).cursor().0 <= final(self).cursor().0,
            r matches Some(tok) && tok.token_type != TokenType::EndOfFile ==> old(self).cursor().0
                < final(self).cursor().0,
    {
        self.skip_whitespaces();
        if self.pos == self.len {
            if self.ended {
                return None;
            }
            self.ended = true;
            let rel_pos = self.rel_pos;
            return Some(self.make_token(TokenType::EndOfFile, self.pos, rel_pos));
        }
        let start = self.pos;
        let rel_pos = self.rel_pos;
        proof {
            lemma_skip_mono(old(self).source@, old(self).pos as int, old(self).rel_pos as int, old(self).line as int);
        }
        let c = self.next_char();
        proof {
            lemma_number_mono(self.source@, self.pos as int, 0);
            lemma_ident_mono(self.source@, self.pos as int);
            lemma_string_mono(self.source@, self.pos as int);
        }
        if char_is_digit(c) {
            let token_type = self.scan_number();
            return match token_type {
                Some(t) => Some(self.make_token(t, start, rel_pos)),
                None => None,
            };
        }
        if char_is_alpha(c) {
            let token_type = self.scan_identifier(start);
            return match token_type {
                Some(t) => Some(self.make_token(t, start, rel_pos)),
                None => None,
            };
        }
        if c == '"' {
            let token_type = self.scan_string();
            return match token_type {
                Some(t) => Some(self.make_token(t, start, rel_pos)),
                None => None,
            };
        }
        let token_type = self.scan_symbol(c);
        match token_type {
            Some(t) => Some(self.make_token(t, start, rel_pos)),
            None => None,
        }
    }
}

} // verus!
