use vstd::prelude::*;
use vstd::string::StrSliceExecFns;
use crate::token::{Object, Token, TokenType};

verus! {

/// What a token is, stripped of its executable representation.
pub struct Lexed {
    pub kind: TokenType,
    pub lexeme: Seq<char>,
    pub line: nat,
}

/// What scanning a suffix of the source produces: the tokens, the lines of
/// the unrecognized characters, and the line reached at the end.
pub struct LexOutcome {
    pub tokens: Seq<Lexed>,
    pub errors: Seq<nat>,
    pub line: nat,
}

/// Space, carriage return and tab: skipped without effect.
pub open spec fn is_blank(c: char) -> bool {
    c == ' ' || c == '\r' || c == '\t'
}

/// The kind of a character that always forms a token on its own.
pub open spec fn single_kind(c: char) -> Option<TokenType> {
    if c == '(' {
        Some(TokenType::LEFT_PAREN)
    } else if c == ')' {
        Some(TokenType::RIGHT_PAREN)
    } else if c == '{' {
        Some(TokenType::LEFT_BRACE)
    } else if c == '}' {
        Some(TokenType::RIGHT_BRACE)
    } else if c == ',' {
        Some(TokenType::COMMA)
    } else if c == '.' {
        Some(TokenType::DOT)
    } else if c == '-' {
        Some(TokenType::MINUS)
    } else if c == '+' {
        Some(TokenType::PLUS)
    } else if c == ';' {
        Some(TokenType::SEMICOLON)
    } else if c == '*' {
        Some(TokenType::STAR)
    } else {
        None
    }
}

pub open spec fn is_punct(c: char) -> bool {
    single_kind(c) is Some
}

/// A character that may start a two-character operator ending in `=`.
pub open spec fn is_comparison_start(c: char) -> bool {
    c == '!' || c == '=' || c == '<' || c == '>'
}

/// The kinds of `c` alone and of `c` followed by `=`.
pub open spec fn comparison_kind(c: char, with_equal: bool) -> TokenType {
    if c == '!' {
        if with_equal { TokenType::BANG_EQUAL } else { TokenType::BANG }
    } else if c == '=' {
        if with_equal { TokenType::EQUAL_EQUAL } else { TokenType::EQUAL }
    } else if c == '<' {
        if with_equal { TokenType::LESS_EQUAL } else { TokenType::LESS }
    } else {
        if with_equal { TokenType::GREATER_EQUAL } else { TokenType::GREATER }
    }
}

/// A character the scanner has no rule for.
pub open spec fn is_unrecognized(c: char) -> bool {
    !(is_punct(c) || is_comparison_start(c) || c == '/' || c == '\n' || is_blank(c))
}

/// Whether the character after position `i` is `c`.
pub open spec fn followed_by(s: Seq<char>, i: int, c: char) -> bool {
    i + 1 < s.len() && s[i + 1] == c
}

/// The position of the first newline at or after `j`, or the end of the source.
pub open spec fn comment_end(s: Seq<char>, j: int) -> int
    decreases s.len() - j,
{
    if j < s.len() && s[j] != '\n' {
        comment_end(s, j + 1)
    } else {
        j
    }
}

/// Where the scan continues after the lexical unit that starts at `i`.
pub open spec fn step_end(s: Seq<char>, i: int) -> int {
    if is_comparison_start(s[i]) && followed_by(s, i, '=') {
        i + 2
    } else if s[i] == '/' && followed_by(s, i, '/') {
        comment_end(s, i + 2)
    } else {
        i + 1
    }
}

/// The kind of token the unit at `i` yields, if it yields one.
pub open spec fn step_kind(s: Seq<char>, i: int) -> Option<TokenType> {
    let c = s[i];
    if is_punct(c) {
        single_kind(c)
    } else if is_comparison_start(c) {
        Some(comparison_kind(c, followed_by(s, i, '=')))
    } else if c == '/' {
        if followed_by(s, i, '/') {
            None
        } else {
            Some(TokenType::SLASH)
        }
    } else {
        None
    }
}

/// The token the unit at `i`, begun on line `line`, adds: none or one,
/// whose lexeme is the whole unit.
pub open spec fn step_tokens(s: Seq<char>, i: int, line: nat) -> Seq<Lexed> {
    match step_kind(s, i) {
        Some(k) => seq![Lexed { kind: k, lexeme: s.subrange(i, step_end(s, i)), line }],
        None => seq![],
    }
}

/// The error the unit at `i`, begun on line `line`, records: one for an
/// unrecognized character, none otherwise.
pub open spec fn step_errors(s: Seq<char>, i: int, line: nat) -> Seq<nat> {
    if is_unrecognized(s[i]) {
        seq![line]
    } else {
        seq![]
    }
}

/// The line after the unit at `i`: one more after a newline.
pub open spec fn step_line(s: Seq<char>, i: int, line: nat) -> nat {
    if s[i] == '\n' {
        line + 1
    } else {
        line
    }
}

pub proof fn lemma_comment_end_bounds(s: Seq<char>, j: int)
    ensures
        j <= comment_end(s, j),
        j <= s.len() ==> comment_end(s, j) <= s.len(),
    decreases s.len() - j,
{
    if j < s.len() && s[j] != '\n' {
        lemma_comment_end_bounds(s, j + 1);
    }
}

/// Scanning the source `s` from position `i`, on line `line`.
pub open spec fn lex(s: Seq<char>, i: int, line: nat) -> LexOutcome
    decreases s.len() - i,
{
    if i < 0 || i >= s.len() {
        LexOutcome { tokens: seq![], errors: seq![], line }
    } else {
        let next = step_end(s, i);
        proof {
            lemma_comment_end_bounds(s, i + 2);
        }
        let rest = lex(s, next, step_line(s, i, line));
        LexOutcome {
            tokens: match step_kind(s, i) {
                Some(k) => seq![Lexed { kind: k, lexeme: s.subrange(i, next), line }] + rest.tokens,
                None => rest.tokens,
            },
            errors: if is_unrecognized(s[i]) {
                seq![line] + rest.errors
            } else {
                rest.errors
            },
            line: rest.line,
        }
    }
}

/// The end-of-input token on line `line`.
pub open spec fn eof_at(line: nat) -> Lexed {
    Lexed { kind: TokenType::EOF, lexeme: seq![], line }
}

/// The whole token sequence for the source `s`, end-of-input token included.
pub open spec fn scanned(s: Seq<char>) -> Seq<Lexed> {
    lex(s, 0, 1).tokens.push(eof_at(lex(s, 0, 1).line))
}

/// The lines of the unrecognized characters of `s`, in order.
pub open spec fn scan_errors(s: Seq<char>) -> Seq<nat> {
    lex(s, 0, 1).errors
}

pub open spec fn lexed(t: Token) -> Lexed {
    Lexed { kind: t.type_, lexeme: t.lexeme@, line: t.line as nat }
}

pub open spec fn lexed_all(ts: Seq<Token>) -> Seq<Lexed> {
    ts.map_values(|t: Token| lexed(t))
}

pub open spec fn no_literals(ts: Seq<Token>) -> bool {
    forall|k: int| 0 <= k < ts.len() ==> (#[trigger] ts[k]).literal is None
}


/// A source made only of single-character punctuation scans to exactly those
/// characters' kinds, in order, each on line 1, followed by the end-of-input token.
pub proof fn lemma_punctuation_only(s: Seq<char>)
    requires
        forall|k: int| 0 <= k < s.len() ==> is_punct(#[trigger] s[k]),
    ensures
        scanned(s).len() == s.len() + 1,
        forall|k: int| 0 <= k < s.len() ==> (#[trigger] scanned(s)[k]).kind == single_kind(s[k])->0
            && scanned(s)[k].line == 1,
        scanned(s).last() == eof_at(1),
{
    lemma_punctuation_from(s, 0, 1);
}

proof fn lemma_punctuation_from(s: Seq<char>, i: int, line: nat)
    requires
        0 <= i <= s.len(),
        forall|k: int| i <= k < s.len() ==> is_punct(#[trigger] s[k]),
    ensures
        lex(s, i, line).tokens.len() == s.len() - i,
        forall|k: int| 0 <= k < s.len() - i ==> (#[trigger] lex(s, i, line).tokens[k]).kind
            == single_kind(s[i + k])->0 && lex(s, i, line).tokens[k].line == line,
        lex(s, i, line).line == line,
    decreases s.len() - i,
{
    if i < s.len() {
        lemma_punctuation_from(s, i + 1, line);
        let rest = lex(s, i + 1, line);
        assert forall|k: int| 0 <= k < s.len() - i implies (#[trigger] lex(s, i, line).tokens[k]).kind
            == single_kind(s[i + k])->0 && lex(s, i, line).tokens[k].line == line by {
            if k > 0 {
                assert(lex(s, i, line).tokens[k] == rest.tokens[k - 1]);
            }
        }
    }
}

/// A comparison character followed by `=` always yields the two-character
/// token, whose lexeme is both characters; scanning resumes after them.
pub proof fn lemma_two_char_preferred(s: Seq<char>, i: int, line: nat)
    requires
        0 <= i,
        is_comparison_start(s[i]),
        followed_by(s, i, '='),
    ensures
        lex(s, i, line).tokens == seq![
            Lexed { kind: comparison_kind(s[i], true), lexeme: s.subrange(i, i + 2), line },
        ] + lex(s, i + 2, line).tokens,
{
}

/// A comparison character not followed by `=` yields its one-character token.
pub proof fn lemma_one_char_comparison(s: Seq<char>, i: int, line: nat)
    requires
        0 <= i < s.len(),
        is_comparison_start(s[i]),
        !followed_by(s, i, '='),
    ensures
        lex(s, i, line).tokens == seq![
            Lexed { kind: comparison_kind(s[i], false), lexeme: s.subrange(i, i + 1), line },
        ] + lex(s, i + 1, line).tokens,
{
}

/// A line comment yields nothing: the scan goes on at the newline that ends
/// it (or at the end of the source), on the same line.
pub proof fn lemma_comment_elided(s: Seq<char>, i: int, line: nat)
    requires
        0 <= i,
        s[i] == '/',
        followed_by(s, i, '/'),
    ensures
        lex(s, i, line) == lex(s, comment_end(s, i + 2), line),
        comment_end(s, i + 2) == s.len() || s[comment_end(s, i + 2)] == '\n',
        forall|k: int| i + 2 <= k < comment_end(s, i + 2) ==> #[trigger] s[k] != '\n',
{
    lemma_comment_end_shape(s, i + 2);
}

proof fn lemma_comment_end_shape(s: Seq<char>, j: int)
    requires
        0 <= j <= s.len(),
    ensures
        j <= comment_end(s, j) <= s.len(),
        comment_end(s, j) == s.len() || s[comment_end(s, j)] == '\n',
        forall|k: int| j <= k < comment_end(s, j) ==> #[trigger] s[k] != '\n',
    decreases s.len() - j,
{
    if j < s.len() && s[j] != '\n' {
        lemma_comment_end_shape(s, j + 1);
    }
}

/// A newline yields no token and moves the scan to the next line.
pub proof fn lemma_newline(s: Seq<char>, i: int, line: nat)
    requires
        0 <= i < s.len(),
        s[i] == '\n',
    ensures
        lex(s, i, line) == lex(s, i + 1, line + 1),
{
}

/// A blank yields no token and leaves the line as it is.
pub proof fn lemma_blank_skipped(s: Seq<char>, i: int, line: nat)
    requires
        0 <= i < s.len(),
        is_blank(s[i]),
    ensures
        lex(s, i, line) == lex(s, i + 1, line),
{
}

/// No lexeme holds a blank or a newline.
pub proof fn lemma_lexemes_without_blanks(s: Seq<char>, i: int, line: nat)
    requires
        0 <= i,
    ensures
        forall|k: int, m: int|
            0 <= k < lex(s, i, line).tokens.len() && 0 <= m < lex(s, i, line).tokens[k].lexeme.len()
                ==> !is_blank(#[trigger] lex(s, i, line).tokens[k].lexeme[m])
                && lex(s, i, line).tokens[k].lexeme[m] != '\n',
    decreases s.len() - i,
{
    if i < s.len() {
        lemma_comment_end_bounds(s, i + 2);
        let next = step_end(s, i);
        let rest = lex(s, next, step_line(s, i, line));
        lemma_lexemes_without_blanks(s, next, step_line(s, i, line));
        let toks = lex(s, i, line).tokens;
        assert forall|k: int, m: int| 0 <= k < toks.len() && 0 <= m < toks[k].lexeme.len()
            implies !is_blank(#[trigger] toks[k].lexeme[m]) && toks[k].lexeme[m] != '\n' by {
            if step_kind(s, i) is Some {
                if k > 0 {
                    assert(toks[k] == rest.tokens[k - 1]);
                } else {
                    assert(toks[0].lexeme[m] == s[i + m]);
                }
            } else {
                assert(toks[k] == rest.tokens[k]);
            }
        }
    }
}

/// No token before the end of input is an end-of-input token, and the
/// lines of the tokens never decrease, starting no earlier than `line` and
/// ending no later than the line reached.
pub proof fn lemma_tokens_in_order(s: Seq<char>, i: int, line: nat)
    requires
        0 <= i,
    ensures
        forall|k: int| 0 <= k < lex(s, i, line).tokens.len()
            ==> (#[trigger] lex(s, i, line).tokens[k]).kind != TokenType::EOF
            && line <= lex(s, i, line).tokens[k].line <= lex(s, i, line).line,
        forall|k: int, m: int| 0 <= k <= m < lex(s, i, line).tokens.len()
            ==> (#[trigger] lex(s, i, line).tokens[k]).line <= (#[trigger] lex(s, i, line).tokens[m]).line,
        line <= lex(s, i, line).line,
    decreases s.len() - i,
{
    if i < s.len() {
        lemma_comment_end_bounds(s, i + 2);
        let next = step_end(s, i);
        let rest = lex(s, next, step_line(s, i, line));
        lemma_tokens_in_order(s, next, step_line(s, i, line));
        let toks = lex(s, i, line).tokens;
        if step_kind(s, i) is Some {
            assert forall|k: int| 0 < k < toks.len() implies #[trigger] toks[k] == rest.tokens[k - 1] by {}
        }
    }
}

/// The end-of-input token comes last, with an empty lexeme, on the line the
/// scan reached, and is the only one; an empty source yields it alone, on line 1.
pub proof fn lemma_eof_last(s: Seq<char>)
    ensures
        scanned(s).last() == eof_at(lex(s, 0, 1).line),
        scanned(s).last().lexeme.len() == 0,
        forall|k: int| 0 <= k < scanned(s).len() - 1 ==> (#[trigger] scanned(s)[k]).kind != TokenType::EOF,
        scanned(Seq::<char>::empty()) == seq![eof_at(1)],
{
    lemma_tokens_in_order(s, 0, 1);
    assert forall|k: int| 0 <= k < scanned(s).len() - 1 implies (#[trigger] scanned(s)[k]).kind != TokenType::EOF by {
        assert(scanned(s)[k] == lex(s, 0, 1).tokens[k]);
    }
    assert(scanned(Seq::<char>::empty()) =~= seq![eof_at(1)]);
}

/// An unrecognized character yields no token and stops nothing: it is
/// recorded with its line, and the scan goes on after it.
pub proof fn lemma_unrecognized_recorded(s: Seq<char>, i: int, line: nat)
    requires
        0 <= i < s.len(),
        is_unrecognized(s[i]),
    ensures
        lex(s, i, line).tokens == lex(s, i + 1, line).tokens,
        lex(s, i, line).errors == seq![line] + lex(s, i + 1, line).errors,
        lex(s, i, line).line == lex(s, i + 1, line).line,
{
}

/// Whether the scan of `s` from `i` reaches position `j` between two units.
pub open spec fn boundary_from(s: Seq<char>, i: int, j: int) -> bool
    decreases s.len() - i,
{
    if i == j {
        true
    } else if 0 <= i < j && i < s.len() {
        proof {
            lemma_comment_end_bounds(s, i + 2);
        }
        boundary_from(s, step_end(s, i), j)
    } else {
        false
    }
}

proof fn lemma_comment_end_walk(t: Seq<char>, k: int, m: int)
    requires
        k <= m <= t.len(),
        forall|q: int| k <= q < m ==> #[trigger] t[q] != '\n',
    ensures
        comment_end(t, k) == comment_end(t, m),
    decreases m - k,
{
    if k < m {
        lemma_comment_end_walk(t, k + 1, m);
    }
}

proof fn lemma_same_at(s: Seq<char>, i: int, t: Seq<char>, k: int, m: int)
    requires
        0 <= i <= s.len(),
        0 <= k <= t.len(),
        s.len() - i == t.len() - k,
        s.subrange(i, s.len() as int) == t.subrange(k, t.len() as int),
        0 <= m < s.len() - i,
    ensures
        s[i + m] == t[k + m],
{
    assert(s[i + m] == s.subrange(i, s.len() as int)[m]);
    assert(t[k + m] == t.subrange(k, t.len() as int)[m]);
}

/// The scan from a position depends only on the characters from there on.
proof fn lemma_lex_shift(s: Seq<char>, i: int, t: Seq<char>, k: int, line: nat)
    requires
        0 <= i <= s.len(),
        0 <= k <= t.len(),
        s.len() - i == t.len() - k,
        s.subrange(i, s.len() as int) == t.subrange(k, t.len() as int),
    ensures
        lex(s, i, line) == lex(t, k, line),
    decreases s.len() - i,
{
    if i < s.len() {
        lemma_same_at(s, i, t, k, 0);
        assert(followed_by(s, i, '=') == followed_by(t, k, '=')) by {
            if i + 1 < s.len() {
                lemma_same_at(s, i, t, k, 1);
            }
        }
        assert(followed_by(s, i, '/') == followed_by(t, k, '/')) by {
            if i + 1 < s.len() {
                lemma_same_at(s, i, t, k, 1);
            }
        }
        if s[i] == '/' && followed_by(s, i, '/') {
            let e = comment_end(s, i + 2);
            lemma_comment_end_shape(s, i + 2);
            assert forall|q: int| k + 2 <= q < k + (e - i) implies #[trigger] t[q] != '\n' by {
                lemma_same_at(s, i, t, k, q - k);
            }
            lemma_comment_end_walk(t, k + 2, k + (e - i));
            if e < s.len() {
                lemma_same_at(s, i, t, k, e - i);
            }
        }
        let next = step_end(s, i);
        lemma_comment_end_bounds(s, i + 2);
        assert(step_end(t, k) == k + (next - i));
        assert(s.subrange(next, s.len() as int) =~= t.subrange(k + (next - i), t.len() as int)) by {
            assert forall|m: int| 0 <= m < s.len() - next implies #[trigger] s.subrange(next, s.len() as int)[m]
                == t.subrange(k + (next - i), t.len() as int)[m] by {
                lemma_same_at(s, i, t, k, (next - i) + m);
            }
        }
        lemma_lex_shift(s, next, t, k + (next - i), step_line(s, i, line));
        assert(s.subrange(i, next) =~= t.subrange(k, k + (next - i))) by {
            assert forall|m: int| 0 <= m < next - i implies #[trigger] s.subrange(i, next)[m]
                == t.subrange(k, k + (next - i))[m] by {
                lemma_same_at(s, i, t, k, m);
            }
        }
    }
}

proof fn lemma_boundary_before(s: Seq<char>, i: int, j: int)
    requires
        boundary_from(s, i, j),
    ensures
        i <= j,
{
}

proof fn lemma_insert_from(s: Seq<char>, t: Seq<char>, c: char, i: int, j: int, line: nat)
    requires
        is_blank(c),
        0 <= i <= j <= s.len(),
        t.len() == s.len() + 1,
        forall|m: int| 0 <= m < j ==> t[m] == s[m],
        t[j] == c,
        forall|m: int| j <= m < s.len() ==> t[m + 1] == s[m],
        boundary_from(s, i, j),
    ensures
        lex(t, i, line) == lex(s, i, line),
    decreases s.len() - i,
{
    assert(s.subrange(j, s.len() as int) =~= t.subrange(j + 1, t.len() as int)) by {
        assert forall|m: int| 0 <= m < s.len() - j implies #[trigger] s.subrange(j, s.len() as int)[m]
            == t.subrange(j + 1, t.len() as int)[m] by {
            assert(t[(j + m) + 1] == s[j + m]);
        }
    }
    lemma_lex_shift(s, j, t, j + 1, line);
    if i == j {
        assert(lex(t, j, line) == lex(t, j + 1, line));
    } else {
        lemma_comment_end_bounds(s, i + 2);
        let next = step_end(s, i);
        lemma_boundary_before(s, next, j);
        assert(t[i] == s[i]);
        if i + 1 < j {
            assert(t[i + 1] == s[i + 1]);
        }
        if s[i] == '/' && followed_by(s, i, '/') {
            let e = comment_end(s, i + 2);
            lemma_comment_end_shape(s, i + 2);
            assert(t[i + 1] == s[i + 1]);
            if e < j {
                assert forall|q: int| i + 2 <= q < e implies #[trigger] t[q] != '\n' by {
                    assert(t[q] == s[q]);
                }
                lemma_comment_end_walk(t, i + 2, e);
                assert(t[e] == s[e]);
                lemma_insert_from(s, t, c, next, j, step_line(s, i, line));
                assert(s.subrange(i, next) =~= t.subrange(i, next)) by {
                    assert forall|m: int| 0 <= m < next - i implies #[trigger] s.subrange(i, next)[m]
                        == t.subrange(i, next)[m] by {
                        assert(t[i + m] == s[i + m]);
                    }
                }
            } else {
                assert(e == j);
                assert forall|q: int| i + 2 <= q < j + 1 implies #[trigger] t[q] != '\n' by {
                    if q < j {
                        assert(t[q] == s[q]);
                    }
                }
                lemma_comment_end_walk(t, i + 2, j + 1);
                if j < s.len() {
                    assert(t[j + 1] == s[j]);
                }
                assert(comment_end(t, i + 2) == j + 1);
                assert(lex(t, i, line) == lex(t, j + 1, line));
                assert(lex(s, i, line) == lex(s, j, line));
            }
        } else {
            assert(step_end(t, i) == next);
            assert(step_kind(t, i) == step_kind(s, i));
            lemma_insert_from(s, t, c, next, j, step_line(s, i, line));
            assert(s.subrange(i, next) =~= t.subrange(i, next)) by {
                assert forall|m: int| 0 <= m < next - i implies #[trigger] s.subrange(i, next)[m]
                    == t.subrange(i, next)[m] by {
                    assert(t[i + m] == s[i + m]);
                }
            }
        }
    }
}

/// A blank inserted between two lexical units changes nothing: the same
/// tokens, lexemes and lines, and the same errors.
pub proof fn lemma_blank_inserted(s: Seq<char>, j: int, c: char)
    requires
        is_blank(c),
        0 <= j <= s.len(),
        boundary_from(s, 0, j),
    ensures
        lex(s.insert(j, c), 0, 1) == lex(s, 0, 1),
        scanned(s.insert(j, c)) == scanned(s),
        scan_errors(s.insert(j, c)) == scan_errors(s),
{
    let t = s.insert(j, c);
    assert forall|m: int| j <= m < s.len() implies t[m + 1] == s[m] by {}
    lemma_insert_from(s, t, c, 0, j, 1);
}

/// A one-shot scanner over a single source text.
pub struct Scanner {
    source: String,
    length: usize,
    tokens: Vec<Token>,
    errors: Vec<usize>,
    start: usize,
    current: usize,
    line: usize,
}

impl Scanner {
    /// The source text, as characters.
    pub closed spec fn text(&self) -> Seq<char> {
        self.source@
    }

    /// Nothing has been scanned yet.
    pub closed spec fn is_fresh(&self) -> bool {
        &&& self.wf()
        &&& self.current == 0
        &&& self.line == 1
        &&& self.tokens@.len() == 0
        &&& self.errors@.len() == 0
    }

    /// The lines of the unrecognized characters met so far.
    pub closed spec fn error_lines(&self) -> Seq<nat> {
        self.errors@.map_values(|l: usize| l as nat)
    }

    /// The cursor lies within the source, and the line count cannot outgrow
    /// the characters consumed.
    pub closed spec fn wf(&self) -> bool {
        &&& self.length == self.source@.len()
        &&& self.length < usize::MAX
        &&& self.start <= self.current <= self.length
        &&& 1 <= self.line <= self.current + 1
    }

    /// What has been scanned so far, followed by what is left, is the scan
    /// of the whole source.
    closed spec fn on_track(&self) -> bool {
        let s = self.source@;
        let rest = lex(s, self.current as int, self.line as nat);
        &&& lexed_all(self.tokens@) + rest.tokens == lex(s, 0, 1).tokens
        &&& self.error_lines() + rest.errors == lex(s, 0, 1).errors
        &&& rest.line == lex(s, 0, 1).line
        &&& no_literals(self.tokens@)
    }

    /// A scanner positioned at the start of `source`, on line 1. The bound
    /// on the length keeps the line count within `usize`; a `String` never
    /// reaches it, as its length in bytes stays below `isize::MAX`.
    pub fn new(source: String) -> (r: Scanner)
        requires
            source@.len() < usize::MAX,
        ensures
            r.text() == source@,
            r.is_fresh(),
    {
        let length = source.as_str().unicode_len();
        Scanner { source, length, tokens: Vec::new(), errors: Vec::new(), start: 0, current: 0, line: 1 }
    }

    /// Scans the whole source and hands over the tokens, ending with the
    /// end-of-input token. Unrecognized characters are recorded, with their
    /// lines, in `errors`, and the scan goes on past them.
    pub fn scan_tokens(&mut self) -> (r: Vec<Token>)
        requires
            old(self).is_fresh(),
        ensures
            final(self).text() == old(self).text(),
            lexed_all(r@) == scanned(old(self).text()),
            no_literals(r@),
            final(self).error_lines() == scan_errors(old(self).text()),
    {
        let ghost s = self.source@;
        proof {
            assert(lexed_all(self.tokens@) + lex(s, 0, 1).tokens =~= lex(s, 0, 1).tokens);
            assert(self.error_lines() + lex(s, 0, 1).errors =~= lex(s, 0, 1).errors);
        }
        while !self.is_at_end()
            invariant
                self.wf(),
                self.source@ == s,
                self.on_track(),
            decreases self.length - self.current,
        {
            self.start = self.current;
            self.scan_token();
        }
        let ghost before = self.tokens@;
        let eof = Token::new(TokenType::EOF, String::new(), None, self.line);
        self.tokens.push(eof);
        let mut out: Vec<Token> = Vec::new();
        std::mem::swap(&mut out, &mut self.tokens);
        proof {
            let done = lex(s, self.current as int, self.line as nat);
            assert(self.error_lines() + done.errors =~= self.error_lines());
            assert(out@ == before.push(eof));
            assert(lexed_all(out@) =~= lexed_all(before).push(lexed(eof)));
            assert(lexed_all(before) + done.tokens =~= lexed_all(before));
        }
        out
    }

    /// Scans the lexical unit that starts at `start`: a token, a comment,
    /// a newline, a blank, or an unrecognized character.
    fn scan_token(&mut self)
        requires
            old(self).wf(),
            old(self).start == old(self).current < old(self).length,
            old(self).on_track(),
        ensures
            final(self).wf(),
            final(self).source@ == old(self).source@,
            final(self).on_track(),
            final(self).start == old(self).start,
            old(self).current < final(self).current,
            final(self).current == step_end(old(self).source@, old(self).current as int),
            final(self).line as nat == step_line(old(self).source@, old(self).current as int, old(self).line as nat),
            final(self).tokens@.subrange(0, old(self).tokens@.len() as int) == old(self).tokens@,
            lexed_all(final(self).tokens@) == lexed_all(old(self).tokens@)
                + step_tokens(old(self).source@, old(self).current as int, old(self).line as nat),
            final(self).error_lines() == old(self).error_lines()
                + step_errors(old(self).source@, old(self).current as int, old(self).line as nat),
    {
        let ghost s = self.source@;
        let ghost i = self.current as int;
        let ghost line0 = self.line as nat;
        let ghost toks0 = self.tokens@;
        let ghost errs0 = self.error_lines();
        proof {
            lemma_comment_end_bounds(s, i + 2);
        }
        let ch = self.advance();
        let kind: Option<TokenType>;
        let mut unrecognized = false;
        if ch == '(' {
            kind = Some(TokenType::LEFT_PAREN);
        } else if ch == ')' {
            kind = Some(TokenType::RIGHT_PAREN);
        } else if ch == '{' {
            kind = Some(TokenType::LEFT_BRACE);
        } else if ch == '}' {
            kind = Some(TokenType::RIGHT_BRACE);
        } else if ch == ',' {
            kind = Some(TokenType::COMMA);
        } else if ch == '.' {
            kind = Some(TokenType::DOT);
        } else if ch == '-' {
            kind = Some(TokenType::MINUS);
        } else if ch == '+' {
            kind = Some(TokenType::PLUS);
        } else if ch == ';' {
            kind = Some(TokenType::SEMICOLON);
        } else if ch == '*' {
            kind = Some(TokenType::STAR);
        } else if ch == '!' {
            kind = Some(if self.match_('=') { TokenType::BANG_EQUAL } else { TokenType::BANG });
        } else if ch == '=' {
            kind = Some(if self.match_('=') { TokenType::EQUAL_EQUAL } else { TokenType::EQUAL });
        } else if ch == '<' {
            kind = Some(if self.match_('=') { TokenType::LESS_EQUAL } else { TokenType::LESS });
        } else if ch == '>' {
            kind = Some(if self.match_('=') { TokenType::GREATER_EQUAL } else { TokenType::GREATER });
        } else if ch == '/' {
            if self.match_('/') {
                while self.peek() != '\n' && !self.is_at_end()
                    invariant
                        self.wf(),
                        self.source@ == s,
                        self.line == line0,
                        self.start == i,
                        self.tokens@ == toks0,
                        self.error_lines() == errs0,
                        i + 2 <= self.current,
                        comment_end(s, self.current as int) == comment_end(s, i + 2),
                    decreases self.length - self.current,
                {
                    self.advance();
                }
                kind = None;
            } else {
                kind = Some(TokenType::SLASH);
            }
        } else if ch == '\n' {
            self.line = self.line + 1;
            kind = None;
        } else if ch == ' ' || ch == '\r' || ch == '\t' {
            kind = None;
        } else {
            unrecognized = true;
            kind = None;
        }
        assert(self.current == step_end(s, i));
        assert(kind == step_kind(s, i));
        match kind {
            Some(k) => self.add_token(k),
            None => {},
        }
        if unrecognized {
            self.errors.push(self.line);
        }
        proof {
            let rest = lex(s, self.current as int, self.line as nat);
            let here = lex(s, i, line0);
            assert(lexed_all(self.tokens@) + rest.tokens =~= lexed_all(toks0) + here.tokens);
            assert(self.error_lines() + rest.errors =~= errs0 + here.errors);
            assert(lexed_all(self.tokens@) =~= lexed_all(toks0) + step_tokens(s, i, line0));
            assert(self.error_lines() =~= errs0 + step_errors(s, i, line0));
            assert(self.tokens@.subrange(0, toks0.len() as int) =~= toks0);
            assert forall|k: int| 0 <= k < self.tokens@.len() implies (#[trigger] self.tokens@[k]).literal is None by {
                if k < toks0.len() && self.tokens@.len() > toks0.len() {
                    assert(self.tokens@[k] == self.tokens@.drop_last()[k]);
                }
            }
        }
    }

    /// Consumes and returns the character at the cursor.
    fn advance(&mut self) -> (r: char)
        requires
            old(self).wf(),
            old(self).current < old(self).length,
        ensures
            *final(self) == (Scanner { current: (old(self).current + 1) as usize, ..*old(self) }),
            r == old(self).source@[old(self).current as int],
    {
        let ch = self.source.as_str().get_char(self.current);
        self.current = self.current + 1;
        ch
    }

    /// Consumes the character at the cursor if it is `ch`.
    fn match_(&mut self, ch: char) -> (r: bool)
        requires
            old(self).wf(),
        ensures
            r == (old(self).current < old(self).length && old(self).source@[old(self).current as int] == ch),
            *final(self) == (Scanner { current: if r { (old(self).current + 1) as usize } else { old(self).current }, ..*old(self) }),
    {
        if self.is_at_end() {
            return false;
        }
        if self.source.as_str().get_char(self.current) != ch {
            return false;
        }
        self.current = self.current + 1;
        true
    }

    /// The character at the cursor, or `'\0'` at the end.
    fn peek(&self) -> (r: char)
        requires
            self.wf(),
        ensures
            self.current < self.length ==> r == self.source@[self.current as int],
            self.current >= self.length ==> r == '\0',
    {
        if self.is_at_end() {
            '\0'
        } else {
            self.source.as_str().get_char(self.current)
        }
    }

    fn add_token(&mut self, type_: TokenType)
        requires
            old(self).wf(),
        ensures
            *final(self) == (Scanner {
                tokens: final(self).tokens,
                ..*old(self)
            }),
            final(self).tokens@.len() == old(self).tokens@.len() + 1,
            final(self).tokens@.drop_last() == old(self).tokens@,
            lexed(final(self).tokens@.last()) == (Lexed {
                kind: type_,
                lexeme: old(self).source@.subrange(old(self).start as int, old(self).current as int),
                line: old(self).line as nat,
            }),
            final(self).tokens@.last().literal is None,
    {
        self.add_token_(type_, None)
    }

    /// Appends a token whose lexeme runs from `start` to the cursor.
    fn add_token_(&mut self, type_: TokenType, literal: Option<Object>)
        requires
            old(self).wf(),
        ensures
            *final(self) == (Scanner {
                tokens: final(self).tokens,
                ..*old(self)
            }),
            final(self).tokens@ == old(self).tokens@.push(final(self).tokens@.last()),
            lexed(final(self).tokens@.last()) == (Lexed {
                kind: type_,
                lexeme: old(self).source@.subrange(old(self).start as int, old(self).current as int),
                line: old(self).line as nat,
            }),
            final(self).tokens@.last().literal == literal,
    {
        let text = self.source.as_str().substring_char(self.start, self.current).to_owned();
        let token = Token::new(type_, text, literal, self.line);
        self.tokens.push(token);
    }

    /// The lines of the unrecognized characters met so far, in order.
    pub fn errors(&self) -> (r: &Vec<usize>)
        ensures
            r@.map_values(|l: usize| l as nat) == self.error_lines(),
    {
        &self.errors
    }

    fn is_at_end(&self) -> (r: bool)
        requires
            self.wf(),
        ensures
            r == (self.current >= self.length),
    {
        self.current >= self.length
    }
}

} // verus!
