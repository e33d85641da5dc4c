use vstd::prelude::*;
use vstd::string::*;
use crate::css::{digit_value, hex_digit};
use crate::rsx::RsxError;
use crate::text::str_eq;

verus! {

// ---------------------------------------------------------------------------
// Characters
// ---------------------------------------------------------------------------

/// Whitespace between tokens (Rust's `Pattern_White_Space`).
pub open spec fn is_space(c: char) -> bool {
    ||| ('\u{9}' <= c && c <= '\u{d}')
    ||| c == ' '
    ||| c == '\u{85}'
    ||| c == '\u{200e}'
    ||| c == '\u{200f}'
    ||| c == '\u{2028}'
    ||| c == '\u{2029}'
}

/// Whether `c` has the Unicode property `XID_Start`.
pub uninterp spec fn xid_start(c: char) -> bool;

/// Whether `c` has the Unicode property `XID_Continue`.
pub uninterp spec fn xid_continue(c: char) -> bool;

/// `unicode_ident::is_xid_start`: whether `c` has the Unicode property `XID_Start`. The
/// contract names the answer; the Unicode tables it reads are not restated. The lexer asks
/// it only of characters beyond ASCII, whose identifier characters the spec lists itself.
#[verifier::external_body]
fn unicode_xid_start(c: char) -> (res: bool)
    ensures
        res == xid_start(c),
{
    unicode_ident::is_xid_start(c)
}

/// `unicode_ident::is_xid_continue`: whether `c` has the Unicode property `XID_Continue`.
/// The contract names the answer; the Unicode tables it reads are not restated. The lexer
/// asks it only of characters beyond ASCII.
#[verifier::external_body]
fn unicode_xid_continue(c: char) -> (res: bool)
    ensures
        res == xid_continue(c),
{
    unicode_ident::is_xid_continue(c)
}

pub open spec fn is_ascii_letter(c: char) -> bool {
    ('A' <= c && c <= 'Z') || ('a' <= c && c <= 'z')
}

/// A character that can begin an identifier: `_` or an `XID_Start` character, which among
/// ASCII characters are the letters.
pub open spec fn is_ident_start(c: char) -> bool {
    if c <= '\u{7f}' {
        is_ascii_letter(c) || c == '_'
    } else {
        xid_start(c)
    }
}

/// A character that can continue an identifier: an `XID_Continue` character, which among
/// ASCII characters are the letters, the digits and `_`.
pub open spec fn is_ident_continue(c: char) -> bool {
    if c <= '\u{7f}' {
        is_ascii_letter(c) || ('0' <= c && c <= '9') || c == '_'
    } else {
        xid_continue(c)
    }
}

/// The character `s[i]`, if `i` is a position of `s`.
pub open spec fn at(s: Seq<char>, i: int) -> Option<char> {
    if 0 <= i < s.len() {
        Some(s[i])
    } else {
        None
    }
}

// ---------------------------------------------------------------------------
// Whitespace and comments
// ---------------------------------------------------------------------------

/// The position of the first line break at or after `j` (the end when there is none).
pub open spec fn line_end(s: Seq<char>, j: int) -> int
    decreases s.len() - j,
{
    if 0 <= j < s.len() && s[j] != '\n' {
        line_end(s, j + 1)
    } else {
        j
    }
}

/// The end of a block comment whose text goes on at `j`, inside `depth` further nested
/// comments: the position after its closing `*/`.
pub open spec fn block_comment_end(s: Seq<char>, j: int, depth: nat) -> Option<int>
    decreases s.len() - j,
{
    if j < 0 || j + 1 >= s.len() {
        None
    } else if s[j] == '*' && s[j + 1] == '/' {
        if depth == 0 {
            Some(j + 2)
        } else {
            block_comment_end(s, j + 2, (depth - 1) as nat)
        }
    } else if s[j] == '/' && s[j + 1] == '*' {
        block_comment_end(s, j + 2, depth + 1)
    } else {
        block_comment_end(s, j + 1, depth)
    }
}

/// A line comment that is no doc comment (`///` or `//!`) starts at `i`.
pub open spec fn plain_line_comment(s: Seq<char>, i: int) -> bool {
    &&& at(s, i) == Some('/')
    &&& at(s, i + 1) == Some('/')
    &&& at(s, i + 2) != Some('!')
    &&& !(at(s, i + 2) == Some('/') && at(s, i + 3) != Some('/'))
}

/// A block comment that is no doc comment (`/**` or `/*!`) starts at `i`.
pub open spec fn plain_block_comment(s: Seq<char>, i: int) -> bool {
    &&& at(s, i) == Some('/')
    &&& at(s, i + 1) == Some('*')
    &&& at(s, i + 2) != Some('!')
    &&& !(at(s, i + 2) == Some('*') && at(s, i + 3) != Some('*') && at(s, i + 3) != Some('/'))
}

/// The first position at or after `i` that holds neither whitespace nor a comment. A doc
/// comment is no gap: in Rust it is an attribute, which markup does not allow.
pub open spec fn skip_ws(s: Seq<char>, i: int) -> int
    decreases s.len() - i,
{
    if 0 <= i < s.len() {
        if is_space(s[i]) {
            skip_ws(s, i + 1)
        } else if plain_line_comment(s, i) {
            let e = line_end(s, i + 2);
            if i < e <= s.len() {
                skip_ws(s, e)
            } else {
                i
            }
        } else if plain_block_comment(s, i) {
            match block_comment_end(s, i + 2, 0) {
                Some(e) => if i < e <= s.len() {
                    skip_ws(s, e)
                } else {
                    i
                },
                None => i,
            }
        } else {
            i
        }
    } else {
        i
    }
}

/// A `/` token at `i`: a slash that starts no comment.
pub open spec fn is_slash(s: Seq<char>, i: int) -> bool {
    at(s, i) == Some('/') && at(s, i + 1) != Some('/') && at(s, i + 1) != Some('*')
}

// ---------------------------------------------------------------------------
// Identifiers
// ---------------------------------------------------------------------------

/// The end of the run of identifier characters that starts at `i`.
pub open spec fn ident_end(s: Seq<char>, i: int) -> int
    decreases s.len() - i,
{
    if 0 <= i < s.len() && is_ident_continue(s[i]) {
        ident_end(s, i + 1)
    } else {
        i
    }
}

/// Words that are no identifiers: Rust's keywords, and `_`.
pub open spec fn is_keyword(w: Seq<char>) -> bool {
    ||| w == "_"@ || w == "abstract"@ || w == "as"@ || w == "async"@ || w == "await"@
    ||| w == "become"@ || w == "box"@ || w == "break"@ || w == "const"@ || w == "continue"@
    ||| w == "crate"@ || w == "do"@ || w == "dyn"@ || w == "else"@ || w == "enum"@
    ||| w == "extern"@ || w == "false"@ || w == "final"@ || w == "fn"@ || w == "for"@
    ||| w == "if"@ || w == "impl"@ || w == "in"@ || w == "let"@ || w == "loop"@
    ||| w == "macro"@ || w == "match"@ || w == "mod"@ || w == "move"@ || w == "mut"@
    ||| w == "override"@ || w == "priv"@ || w == "pub"@ || w == "ref"@ || w == "return"@
    ||| w == "Self"@ || w == "self"@ || w == "static"@ || w == "struct"@ || w == "super"@
    ||| w == "trait"@ || w == "true"@ || w == "try"@ || w == "type"@ || w == "typeof"@
    ||| w == "unsafe"@ || w == "unsized"@ || w == "use"@ || w == "virtual"@ || w == "where"@
    ||| w == "while"@ || w == "yield"@
}

/// Words that cannot follow `r#`.
pub open spec fn not_raw(w: Seq<char>) -> bool {
    w == "_"@ || w == "crate"@ || w == "self"@ || w == "super"@ || w == "Self"@
}

/// An identifier at `i` and the position after it. A raw identifier `r#word` keeps its
/// `r#`; a plain one may not be a keyword.
pub open spec fn parse_ident(s: Seq<char>, i: int) -> Result<(Seq<char>, int), RsxError> {
    if at(s, i) == Some('r') && at(s, i + 1) == Some('#') {
        if 0 <= i + 2 < s.len() && is_ident_start(s[i + 2]) {
            let e = ident_end(s, i + 3);
            if not_raw(s.subrange(i + 2, e)) {
                Err(RsxError::Syntax)
            } else {
                Ok((s.subrange(i, e), e))
            }
        } else {
            Err(RsxError::Syntax)
        }
    } else if 0 <= i < s.len() && is_ident_start(s[i]) {
        let e = ident_end(s, i + 1);
        let w = s.subrange(i, e);
        if is_keyword(w) {
            Err(RsxError::Syntax)
        } else {
            Ok((w, e))
        }
    } else {
        Err(RsxError::Syntax)
    }
}

// ---------------------------------------------------------------------------
// String literals
// ---------------------------------------------------------------------------

/// The character a one-letter escape `\c` stands for.
pub open spec fn escape_char(c: char) -> Option<char> {
    if c == 'n' {
        Some('\n')
    } else if c == 'r' {
        Some('\r')
    } else if c == 't' {
        Some('\t')
    } else if c == '\\' {
        Some('\\')
    } else if c == '0' {
        Some('\0')
    } else if c == '\'' {
        Some('\'')
    } else if c == '"' {
        Some('"')
    } else {
        None
    }
}

/// A Unicode scalar value: at most `0x10FFFF` and no surrogate.
pub open spec fn valid_scalar(v: nat) -> bool {
    v <= 0x10FFFF && !(0xD800 <= v && v <= 0xDFFF)
}

/// The digits of a `\u{...}` escape from `j`, `v` being the value of the `n` digits so far:
/// the value and the position after the closing brace. Underscores may follow a digit;
/// there are one to six digits.
pub open spec fn unicode_digits(s: Seq<char>, j: int, v: nat, n: nat) -> Option<(nat, int)>
    decreases s.len() - j,
{
    if j < 0 || j >= s.len() {
        None
    } else if s[j] == '}' {
        if n == 0 {
            None
        } else {
            Some((v, j + 1))
        }
    } else if s[j] == '_' {
        if n == 0 {
            None
        } else {
            unicode_digits(s, j + 1, v, n)
        }
    } else {
        match hex_digit(s[j]) {
            Some(d) => if n >= 6 {
                None
            } else {
                unicode_digits(s, j + 1, (v * 16 + d) as nat, n + 1)
            },
            None => None,
        }
    }
}

/// The escape whose letter is at `k` (just after a backslash): the character it stands
/// for and the position after it. `\xHH` reaches `0x7F` at most; `\u{...}` must name a
/// Unicode scalar value.
pub open spec fn escape_at(s: Seq<char>, k: int) -> Option<(char, int)> {
    match at(s, k) {
        None => None,
        Some(c) => if c == 'x' {
            match (at(s, k + 1), at(s, k + 2)) {
                (Some(a), Some(b)) => match (hex_digit(a), hex_digit(b)) {
                    (Some(x), Some(y)) => if x <= 7 {
                        Some((((x * 16 + y) as u32) as char, k + 3))
                    } else {
                        None
                    },
                    _ => None,
                },
                _ => None,
            }
        } else if c == 'u' {
            if at(s, k + 1) == Some('{') {
                match unicode_digits(s, k + 2, 0, 0) {
                    Some((v, e)) => if valid_scalar(v) {
                        Some(((v as u32) as char, e))
                    } else {
                        None
                    },
                    None => None,
                }
            } else {
                None
            }
        } else {
            match escape_char(c) {
                Some(e) => Some((e, k + 1)),
                None => None,
            }
        }
    }
}

/// The first position at or after `j` that holds no space, tab, line break or carriage
/// return (what a line continuation `\` skips).
pub open spec fn ascii_ws_end(s: Seq<char>, j: int) -> int
    decreases s.len() - j,
{
    if 0 <= j < s.len() && (s[j] == ' ' || s[j] == '\t' || s[j] == '\n' || s[j] == '\r') {
        ascii_ws_end(s, j + 1)
    } else {
        j
    }
}

/// The rest of a string literal from `j` (after the opening quote), its value so far being
/// `acc`: its value and the position after the closing quote.
pub open spec fn string_body(s: Seq<char>, j: int, acc: Seq<char>) -> Result<(Seq<char>, int), RsxError>
    decreases s.len() - j,
{
    if j < 0 || j >= s.len() {
        Err(RsxError::Syntax)
    } else if s[j] == '"' {
        Ok((acc, j + 1))
    } else if s[j] == '\r' {
        Err(RsxError::Syntax)
    } else if s[j] == '\\' {
        if at(s, j + 1) == Some('\n') {
            let e = ascii_ws_end(s, j + 2);
            if j < e <= s.len() {
                string_body(s, e, acc)
            } else {
                Err(RsxError::Syntax)
            }
        } else {
            match escape_at(s, j + 1) {
                Some((c, e)) => if j < e <= s.len() {
                    string_body(s, e, acc.push(c))
                } else {
                    Err(RsxError::Syntax)
                },
                None => Err(RsxError::Syntax),
            }
        }
    } else {
        string_body(s, j + 1, acc.push(s[j]))
    }
}

/// The first position at or after `j` that holds no `#`.
pub open spec fn hash_end(s: Seq<char>, j: int) -> int
    decreases s.len() - j,
{
    if 0 <= j < s.len() && s[j] == '#' {
        hash_end(s, j + 1)
    } else {
        j
    }
}

/// A raw string literal `r#..."...`"#...` starts at `i`.
pub open spec fn raw_string_start(s: Seq<char>, i: int) -> bool {
    at(s, i) == Some('r') && at(s, hash_end(s, i + 1)) == Some('"')
}

/// A string literal, plain or raw, starts at `i`.
pub open spec fn string_start(s: Seq<char>, i: int) -> bool {
    at(s, i) == Some('"') || raw_string_start(s, i)
}

/// The closing quote of a raw string with `n` hashes, searched from `j`.
pub open spec fn raw_close(s: Seq<char>, j: int, n: int) -> Option<int>
    decreases s.len() - j,
{
    if j < 0 || j >= s.len() {
        None
    } else if s[j] == '\r' {
        None
    } else if s[j] == '"' && hash_end(s, j + 1) - (j + 1) >= n {
        Some(j)
    } else {
        raw_close(s, j + 1, n)
    }
}

/// A raw string literal at `i`: its text and the position after it (at most 255 hashes).
pub open spec fn parse_raw_string(s: Seq<char>, i: int) -> Result<(Seq<char>, int), RsxError> {
    let h = hash_end(s, i + 1);
    let n = h - (i + 1);
    if n > 255 {
        Err(RsxError::Syntax)
    } else {
        match raw_close(s, h + 1, n) {
            Some(k) => Ok((s.subrange(h + 1, k), k + 1 + n)),
            None => Err(RsxError::Syntax),
        }
    }
}

/// The end of the suffix that may follow a literal at `e`.
pub open spec fn suffix_end(s: Seq<char>, e: int) -> int {
    if 0 <= e < s.len() && is_ident_start(s[e]) {
        ident_end(s, e + 1)
    } else {
        e
    }
}

/// A string literal at `i`, plain or raw, with an optional suffix: its value and the
/// position after it.
pub open spec fn parse_string(s: Seq<char>, i: int) -> Result<(Seq<char>, int), RsxError> {
    if at(s, i) == Some('"') {
        match string_body(s, i + 1, Seq::empty()) {
            Ok((v, e)) => Ok((v, suffix_end(s, e))),
            Err(err) => Err(err),
        }
    } else if raw_string_start(s, i) {
        match parse_raw_string(s, i) {
            Ok((v, e)) => Ok((v, suffix_end(s, e))),
            Err(err) => Err(err),
        }
    } else {
        Err(RsxError::Syntax)
    }
}

// ---------------------------------------------------------------------------
// Braced expressions
// ---------------------------------------------------------------------------

/// The end of a quoted literal inside an expression from `j` (after the opening quote):
/// a backslash takes the next character with it.
pub open spec fn quoted_end(s: Seq<char>, j: int) -> Option<int>
    decreases s.len() - j,
{
    if j < 0 || j >= s.len() {
        None
    } else if s[j] == '"' {
        Some(j + 1)
    } else if s[j] == '\\' {
        if j + 1 < s.len() {
            quoted_end(s, j + 2)
        } else {
            None
        }
    } else {
        quoted_end(s, j + 1)
    }
}

/// The first `'` at or after `j` on the same line.
pub open spec fn quote_on_line(s: Seq<char>, j: int) -> Option<int>
    decreases s.len() - j,
{
    if j < 0 || j >= s.len() || s[j] == '\n' {
        None
    } else if s[j] == '\'' {
        Some(j)
    } else {
        quote_on_line(s, j + 1)
    }
}

/// Where a `'` at `j` leads: past a character literal, or past the quote of a lifetime or
/// label.
pub open spec fn tick_end(s: Seq<char>, j: int) -> Option<int> {
    if at(s, j + 1) == Some('\\') {
        match quote_on_line(s, j + 3) {
            Some(k) => Some(k + 1),
            None => None,
        }
    } else if at(s, j + 2) == Some('\'') && at(s, j + 1) != Some('\n') {
        Some(j + 3)
    } else if 0 <= j + 1 < s.len() && is_ident_start(s[j + 1]) {
        Some(j + 1)
    } else {
        None
    }
}

/// No identifier character comes just before `j`.
pub open spec fn token_boundary(s: Seq<char>, j: int) -> bool {
    j <= 0 || j > s.len() || !is_ident_continue(s[j - 1])
}

/// A raw string literal starts at `j` inside an expression: `r` begins a token, or
/// follows a `b` or `c` that begins one.
pub open spec fn raw_in_block(s: Seq<char>, j: int) -> bool {
    &&& raw_string_start(s, j)
    &&& (token_boundary(s, j) || ((s[j - 1] == 'b' || s[j - 1] == 'c') && token_boundary(s, j - 1)))
}

/// The closing delimiter that matches an opening one.
pub open spec fn closes(open: char, close: char) -> bool {
    (open == '(' && close == ')') || (open == '[' && close == ']') || (open == '{' && close == '}')
}

/// Scans a braced expression from `j`, `stack` holding the delimiters opened inside it:
/// the position after the brace that closes it. Literals and comments are skipped whole;
/// delimiters must match.
pub open spec fn block_scan(s: Seq<char>, j: int, stack: Seq<char>) -> Option<int>
    decreases s.len() - j,
{
    if j < 0 || j >= s.len() {
        None
    } else {
        let c = s[j];
        if c == '"' {
            match quoted_end(s, j + 1) {
                Some(e) => if j < e <= s.len() {
                    block_scan(s, e, stack)
                } else {
                    None
                },
                None => None,
            }
        } else if raw_in_block(s, j) {
            let h = hash_end(s, j + 1);
            match raw_close(s, h + 1, h - (j + 1)) {
                Some(k) => {
                    let e = k + 1 + (h - (j + 1));
                    if j < e <= s.len() {
                        block_scan(s, e, stack)
                    } else {
                        None
                    }
                },
                None => None,
            }
        } else if c == '\'' {
            match tick_end(s, j) {
                Some(e) => if j < e <= s.len() {
                    block_scan(s, e, stack)
                } else {
                    None
                },
                None => None,
            }
        } else if c == '/' && at(s, j + 1) == Some('/') {
            let e = line_end(s, j + 2);
            if j < e <= s.len() {
                block_scan(s, e, stack)
            } else {
                None
            }
        } else if c == '/' && at(s, j + 1) == Some('*') {
            match block_comment_end(s, j + 2, 0) {
                Some(e) => if j < e <= s.len() {
                    block_scan(s, e, stack)
                } else {
                    None
                },
                None => None,
            }
        } else if c == '(' || c == '[' || c == '{' {
            block_scan(s, j + 1, stack.push(c))
        } else if c == ')' || c == ']' || c == '}' {
            if stack.len() == 0 {
                if c == '}' {
                    Some(j + 1)
                } else {
                    None
                }
            } else if closes(stack.last(), c) {
                block_scan(s, j + 1, stack.drop_last())
            } else {
                None
            }
        } else {
            block_scan(s, j + 1, stack)
        }
    }
}

/// Whether a text is one Rust expression, as syn reads it.
pub uninterp spec fn rust_expr(text: Seq<char>) -> bool;

/// The verdict a list gives for an expression's text: the first entry listed under the
/// text counts; a text that is not listed is no expression.
pub open spec fn given_verdict(vs: Seq<(Seq<char>, bool)>, t: Seq<char>) -> bool
    decreases vs.len(),
{
    if vs.len() == 0 {
        false
    } else if vs[0].0 == t {
        vs[0].1
    } else {
        given_verdict(vs.drop_first(), t)
    }
}

/// Whether the text of a braced expression is accepted: as syn reads it when no verdicts
/// are given, else as the given verdicts say.
pub open spec fn judge(j: Option<Seq<(Seq<char>, bool)>>, t: Seq<char>) -> bool {
    match j {
        None => rust_expr(t),
        Some(vs) => given_verdict(vs, t),
    }
}

pub open spec fn verdicts_view(v: Seq<(String, bool)>) -> Seq<(Seq<char>, bool)> {
    v.map_values(|p: (String, bool)| (p.0@, p.1))
}

pub open spec fn opt_verdicts(v: Option<&Vec<(String, bool)>>) -> Option<Seq<(Seq<char>, bool)>> {
    match v {
        None => None,
        Some(x) => Some(verdicts_view(x@)),
    }
}

/// The end of `s.subrange(a, e)` once trailing whitespace is dropped.
pub open spec fn last_non_space(s: Seq<char>, e: int, a: int) -> int
    decreases e - a,
{
    if a < e && e <= s.len() && is_space(s[e - 1]) {
        last_non_space(s, e - 1, a)
    } else {
        e
    }
}

/// A braced expression at `i`: its source text (without the braces, and without the
/// whitespace and comments that lead it and the whitespace that ends it) and the position
/// after it. An expression cannot be empty, and its text must be judged a Rust expression
/// (see `judge`).
pub open spec fn parse_block(s: Seq<char>, i: int, j: Option<Seq<(Seq<char>, bool)>>) -> Result<(Seq<char>, int), RsxError> {
    if at(s, i) == Some('{') {
        match block_scan(s, i + 1, Seq::empty()) {
            Some(e) => if i + 2 <= e <= s.len() {
                let inner = s.subrange(i + 1, e - 1);
                let a = skip_ws(inner, 0);
                if a >= inner.len() {
                    Err(RsxError::Syntax)
                } else {
                    let text = inner.subrange(a, last_non_space(inner, inner.len() as int, a));
                    if judge(j, text) {
                        Ok((text, e))
                    } else {
                        Err(RsxError::Expression)
                    }
                }
            } else {
                Err(RsxError::Syntax)
            },
            None => Err(RsxError::Syntax),
        }
    } else {
        Err(RsxError::Syntax)
    }
}

// ---------------------------------------------------------------------------
// Reading
// ---------------------------------------------------------------------------

pub(crate) fn char_at(s: &Vec<char>, i: usize) -> (res: Option<char>)
    ensures
        res == at(s@, i as int),
{
    if i < s.len() {
        Some(s[i])
    } else {
        None
    }
}

/// The character `off` places after `i`.
fn char_after(s: &Vec<char>, i: usize, off: usize) -> (res: Option<char>)
    ensures
        res == at(s@, i + off),
{
    if i < s.len() && off < s.len() - i {
        Some(s[i + off])
    } else {
        None
    }
}

pub(crate) fn space(c: char) -> (res: bool)
    ensures
        res == is_space(c),
{
    ('\u{9}' <= c && c <= '\u{d}') || c == ' ' || c == '\u{85}' || c == '\u{200e}' || c == '\u{200f}'
        || c == '\u{2028}' || c == '\u{2029}'
}

fn ident_start(c: char) -> (res: bool)
    ensures
        res == is_ident_start(c),
{
    if c <= '\u{7f}' {
        ('A' <= c && c <= 'Z') || ('a' <= c && c <= 'z') || c == '_'
    } else {
        unicode_xid_start(c)
    }
}

fn ident_continue(c: char) -> (res: bool)
    ensures
        res == is_ident_continue(c),
{
    if c <= '\u{7f}' {
        ('A' <= c && c <= 'Z') || ('a' <= c && c <= 'z') || ('0' <= c && c <= '9') || c == '_'
    } else {
        unicode_xid_continue(c)
    }
}

fn find_line_end(s: &Vec<char>, j: usize) -> (res: usize)
    requires
        j <= s@.len(),
    ensures
        res as int == line_end(s@, j as int),
        j <= res <= s@.len(),
{
    let mut k = j;
    while k < s.len() && s[k] != '\n'
        invariant
            j <= k <= s@.len(),
            line_end(s@, j as int) == line_end(s@, k as int),
        decreases s@.len() - k,
    {
        k = k + 1;
    }
    k
}

fn find_block_comment_end(s: &Vec<char>, j: usize) -> (res: Option<usize>)
    requires
        j <= s@.len(),
    ensures
        match res {
            Some(e) => block_comment_end(s@, j as int, 0) == Some(e as int) && j + 2 <= e <= s@.len(),
            None => block_comment_end(s@, j as int, 0) == None::<int>,
        },
{
    let mut k = j;
    let mut depth: usize = 0;
    while k < s.len() && k + 1 < s.len()
        invariant
            j <= k <= s@.len(),
            depth <= k,
            block_comment_end(s@, j as int, 0) == block_comment_end(s@, k as int, depth as nat),
        decreases s@.len() - k,
    {
        if s[k] == '*' && s[k + 1] == '/' {
            if depth == 0 {
                return Some(k + 2);
            }
            depth = depth - 1;
            k = k + 2;
        } else if s[k] == '/' && s[k + 1] == '*' {
            depth = depth + 1;
            k = k + 2;
        } else {
            k = k + 1;
        }
    }
    None
}

fn plain_line_at(s: &Vec<char>, i: usize) -> (res: bool)
    ensures
        res == plain_line_comment(s@, i as int),
{
    char_after(s, i, 0) == Some('/') && char_after(s, i, 1) == Some('/') && char_after(s, i, 2) != Some('!')
        && !(char_after(s, i, 2) == Some('/') && char_after(s, i, 3) != Some('/'))
}

fn plain_block_at(s: &Vec<char>, i: usize) -> (res: bool)
    ensures
        res == plain_block_comment(s@, i as int),
{
    char_after(s, i, 0) == Some('/') && char_after(s, i, 1) == Some('*') && char_after(s, i, 2) != Some('!')
        && !(char_after(s, i, 2) == Some('*') && char_after(s, i, 3) != Some('*') && char_after(s, i, 3)
        != Some('/'))
}

pub(crate) fn skip_spaces(s: &Vec<char>, i: usize) -> (res: usize)
    requires
        i <= s@.len(),
    ensures
        res as int == skip_ws(s@, i as int),
        i <= res <= s@.len(),
{
    let mut k = i;
    loop
        invariant
            i <= k <= s@.len(),
            skip_ws(s@, i as int) == skip_ws(s@, k as int),
        decreases s@.len() - k,
    {
        if k >= s.len() {
            return k;
        }
        if space(s[k]) {
            k = k + 1;
        } else if plain_line_at(s, k) {
            let e = find_line_end(s, k + 2);
            if k < e {
                k = e;
            } else {
                return k;
            }
        } else if plain_block_at(s, k) {
            match find_block_comment_end(s, k + 2) {
                Some(e) => if k < e {
                    k = e;
                } else {
                    return k;
                },
                None => return k,
            }
        } else {
            return k;
        }
    }
}

pub(crate) fn slash_at(s: &Vec<char>, i: usize) -> (res: bool)
    ensures
        res == is_slash(s@, i as int),
{
    char_after(s, i, 0) == Some('/') && char_after(s, i, 1) != Some('/') && char_after(s, i, 1) != Some('*')
}

/// The characters `s[a..e]` as a string.
pub(crate) fn slice_string(s: &Vec<char>, a: usize, e: usize) -> (res: String)
    requires
        a <= e <= s@.len(),
    ensures
        res@ == s@.subrange(a as int, e as int),
{
    let mut out = String::new();
    let mut k = a;
    while k < e
        invariant
            a <= k <= e <= s@.len(),
            out@ == s@.subrange(a as int, k as int),
        decreases e - k,
    {
        out.push(s[k]);
        assert(out@ =~= s@.subrange(a as int, k + 1));
        k = k + 1;
    }
    out
}

fn ident_stop(s: &Vec<char>, i: usize) -> (res: usize)
    requires
        i <= s@.len(),
    ensures
        res as int == ident_end(s@, i as int),
        i <= res <= s@.len(),
{
    let mut e = i;
    while e < s.len() && ident_continue(s[e])
        invariant
            i <= e <= s@.len(),
            ident_end(s@, i as int) == ident_end(s@, e as int),
        decreases s@.len() - e,
    {
        e = e + 1;
    }
    e
}

fn keyword(w: &str) -> (res: bool)
    ensures
        res == is_keyword(w@),
{
    str_eq(w, "_") || str_eq(w, "abstract") || str_eq(w, "as") || str_eq(w, "async") || str_eq(w, "await")
    || str_eq(w, "become") || str_eq(w, "box") || str_eq(w, "break") || str_eq(w, "const") || str_eq(w, "continue")
    || str_eq(w, "crate") || str_eq(w, "do") || str_eq(w, "dyn") || str_eq(w, "else") || str_eq(w, "enum")
    || str_eq(w, "extern") || str_eq(w, "false") || str_eq(w, "final") || str_eq(w, "fn") || str_eq(w, "for")
    || str_eq(w, "if") || str_eq(w, "impl") || str_eq(w, "in") || str_eq(w, "let") || str_eq(w, "loop")
    || str_eq(w, "macro") || str_eq(w, "match") || str_eq(w, "mod") || str_eq(w, "move") || str_eq(w, "mut")
    || str_eq(w, "override") || str_eq(w, "priv") || str_eq(w, "pub") || str_eq(w, "ref") || str_eq(w, "return")
    || str_eq(w, "Self") || str_eq(w, "self") || str_eq(w, "static") || str_eq(w, "struct") || str_eq(w, "super")
    || str_eq(w, "trait") || str_eq(w, "true") || str_eq(w, "try") || str_eq(w, "type") || str_eq(w, "typeof")
    || str_eq(w, "unsafe") || str_eq(w, "unsized") || str_eq(w, "use") || str_eq(w, "virtual") || str_eq(w, "where")
    || str_eq(w, "while") || str_eq(w, "yield")
}

fn raw_forbidden(w: &str) -> (res: bool)
    ensures
        res == not_raw(w@),
{
    str_eq(w, "_") || str_eq(w, "crate") || str_eq(w, "self") || str_eq(w, "super") || str_eq(w, "Self")
}

pub(crate) fn read_ident(s: &Vec<char>, i: usize) -> (res: Result<(String, usize), RsxError>)
    requires
        i <= s@.len(),
    ensures
        match res {
            Ok((w, e)) => parse_ident(s@, i as int) == Ok::<(Seq<char>, int), RsxError>((w@, e as int)) && i < e <= s@.len(),
            Err(err) => parse_ident(s@, i as int) == Err::<(Seq<char>, int), RsxError>(err),
        },
{
    let len = s.len();
    if char_after(s, i, 0) == Some('r') && char_after(s, i, 1) == Some('#') {
        if i + 2 < s.len() && ident_start(s[i + 2]) {
            let e = ident_stop(s, i + 3);
            let w = slice_string(s, i + 2, e);
            if raw_forbidden(w.as_str()) {
                Err(RsxError::Syntax)
            } else {
                Ok((slice_string(s, i, e), e))
            }
        } else {
            Err(RsxError::Syntax)
        }
    } else if i < s.len() && ident_start(s[i]) {
        let e = ident_stop(s, i + 1);
        let w = slice_string(s, i, e);
        if keyword(w.as_str()) {
            Err(RsxError::Syntax)
        } else {
            Ok((w, e))
        }
    } else {
        Err(RsxError::Syntax)
    }
}

fn hash_stop(s: &Vec<char>, j: usize) -> (res: usize)
    requires
        j <= s@.len(),
    ensures
        res as int == hash_end(s@, j as int),
        j <= res <= s@.len(),
{
    let mut k = j;
    while k < s.len() && s[k] == '#'
        invariant
            j <= k <= s@.len(),
            hash_end(s@, j as int) == hash_end(s@, k as int),
        decreases s@.len() - k,
    {
        k = k + 1;
    }
    k
}

fn raw_start_at(s: &Vec<char>, i: usize) -> (res: bool)
    ensures
        res == raw_string_start(s@, i as int),
{
    let len = s.len();
    if char_at(s, i) == Some('r') {
        let h = hash_stop(s, i + 1);
        char_at(s, h) == Some('"')
    } else {
        false
    }
}

pub(crate) fn string_start_at(s: &Vec<char>, i: usize) -> (res: bool)
    ensures
        res == string_start(s@, i as int),
{
    char_at(s, i) == Some('"') || raw_start_at(s, i)
}

fn find_raw_close(s: &Vec<char>, j: usize, n: usize) -> (res: Option<usize>)
    requires
        j <= s@.len(),
    ensures
        match res {
            Some(k) => raw_close(s@, j as int, n as int) == Some(k as int) && j <= k && k + 1 + n <= s@.len(),
            None => raw_close(s@, j as int, n as int) == None::<int>,
        },
{
    let mut k = j;
    while k < s.len()
        invariant
            j <= k <= s@.len(),
            raw_close(s@, j as int, n as int) == raw_close(s@, k as int, n as int),
        decreases s@.len() - k,
    {
        if s[k] == '\r' {
            return None;
        }
        if s[k] == '"' {
            let h = hash_stop(s, k + 1);
            if h - (k + 1) >= n {
                return Some(k);
            }
        }
        k = k + 1;
    }
    None
}

fn read_raw_string(s: &Vec<char>, i: usize) -> (res: Result<(String, usize), RsxError>)
    requires
        i <= s@.len(),
        raw_string_start(s@, i as int),
    ensures
        match res {
            Ok((v, e)) => parse_raw_string(s@, i as int) == Ok::<(Seq<char>, int), RsxError>((v@, e as int)) && i < e <= s@.len(),
            Err(err) => parse_raw_string(s@, i as int) == Err::<(Seq<char>, int), RsxError>(err),
        },
{
    let len = s.len();
    let h = hash_stop(s, i + 1);
    let n = h - (i + 1);
    if n > 255 {
        return Err(RsxError::Syntax);
    }
    match find_raw_close(s, h + 1, n) {
        Some(k) => Ok((slice_string(s, h + 1, k), k + 1 + n)),
        None => Err(RsxError::Syntax),
    }
}

fn suffix_stop(s: &Vec<char>, e: usize) -> (res: usize)
    requires
        e <= s@.len(),
    ensures
        res as int == suffix_end(s@, e as int),
        e <= res <= s@.len(),
{
    if e < s.len() && ident_start(s[e]) {
        ident_stop(s, e + 1)
    } else {
        e
    }
}

fn ascii_ws_stop(s: &Vec<char>, j: usize) -> (res: usize)
    requires
        j <= s@.len(),
    ensures
        res as int == ascii_ws_end(s@, j as int),
        j <= res <= s@.len(),
{
    let mut k = j;
    while k < s.len() && (s[k] == ' ' || s[k] == '\t' || s[k] == '\n' || s[k] == '\r')
        invariant
            j <= k <= s@.len(),
            ascii_ws_end(s@, j as int) == ascii_ws_end(s@, k as int),
        decreases s@.len() - k,
    {
        k = k + 1;
    }
    k
}

pub open spec fn pow16(n: nat) -> nat
    decreases n,
{
    if n == 0 {
        1
    } else {
        16 * pow16((n - 1) as nat)
    }
}

fn read_unicode_digits(s: &Vec<char>, j: usize) -> (res: Option<(u64, usize)>)
    requires
        j <= s@.len(),
    ensures
        match res {
            Some((v, e)) => unicode_digits(s@, j as int, 0, 0) == Some((v as nat, e as int)) && j < e <= s@.len(),
            None => unicode_digits(s@, j as int, 0, 0) == None::<(nat, int)>,
        },
{
    let mut k = j;
    let mut v: u64 = 0;
    let mut n: u64 = 0;
    assert(pow16(6) == 16777216) by {
        reveal_with_fuel(pow16, 7);
    }
    while k < s.len()
        invariant
            j <= k <= s@.len(),
            n <= 6,
            v < pow16(n as nat),
            pow16(n as nat) <= 16777216,
            pow16(6) == 16777216,
            unicode_digits(s@, j as int, 0, 0) == unicode_digits(s@, k as int, v as nat, n as nat),
        decreases s@.len() - k,
    {
        let c = s[k];
        if c == '}' {
            if n == 0 {
                return None;
            }
            return Some((v, k + 1));
        } else if c == '_' {
            if n == 0 {
                return None;
            }
            k = k + 1;
        } else {
            match digit_value(c) {
                Some(d) => {
                    if n >= 6 {
                        return None;
                    }
                    assert(pow16((n + 1) as nat) == 16 * pow16(n as nat));
                    assert(pow16((n + 1) as nat) <= 16777216) by {
                        reveal_with_fuel(pow16, 7);
                        if n == 0 {} else if n == 1 {} else if n == 2 {} else if n == 3 {} else if n == 4 {} else {}
                    }
                    v = v * 16 + d as u64;
                    n = n + 1;
                    k = k + 1;
                },
                None => return None,
            }
        }
    }
    None
}

fn escape(c: char) -> (res: Option<char>)
    ensures
        res == escape_char(c),
{
    if c == 'n' {
        Some('\n')
    } else if c == 'r' {
        Some('\r')
    } else if c == 't' {
        Some('\t')
    } else if c == '\\' {
        Some('\\')
    } else if c == '0' {
        Some('\0')
    } else if c == '\'' {
        Some('\'')
    } else if c == '"' {
        Some('"')
    } else {
        None
    }
}

fn read_escape(s: &Vec<char>, k: usize) -> (res: Option<(char, usize)>)
    requires
        k <= s@.len(),
    ensures
        match res {
            Some((c, e)) => escape_at(s@, k as int) == Some((c, e as int)) && k < e <= s@.len(),
            None => escape_at(s@, k as int) == None::<(char, int)>,
        },
{
    let len = s.len();
    if k >= s.len() {
        return None;
    }
    let c = s[k];
    if c == 'x' {
        match (char_after(s, k, 1), char_after(s, k, 2)) {
            (Some(a), Some(b)) => match (digit_value(a), digit_value(b)) {
                (Some(x), Some(y)) => if x <= 7 {
                    match core::char::from_u32((x as u32) * 16 + (y as u32)) {
                        Some(ch) => Some((ch, k + 3)),
                        None => None,
                    }
                } else {
                    None
                },
                _ => None,
            },
            _ => None,
        }
    } else if c == 'u' {
        if char_after(s, k, 1) == Some('{') {
            match read_unicode_digits(s, k + 2) {
                Some((v, e)) => if v <= 0x10FFFF && !(0xD800 <= v && v <= 0xDFFF) {
                    match core::char::from_u32(v as u32) {
                        Some(ch) => Some((ch, e)),
                        None => None,
                    }
                } else {
                    None
                },
                None => None,
            }
        } else {
            None
        }
    } else {
        match escape(c) {
            Some(e) => Some((e, k + 1)),
            None => None,
        }
    }
}

pub(crate) fn read_string(s: &Vec<char>, i: usize) -> (res: Result<(String, usize), RsxError>)
    requires
        i <= s@.len(),
        string_start(s@, i as int),
    ensures
        match res {
            Ok((v, e)) => parse_string(s@, i as int) == Ok::<(Seq<char>, int), RsxError>((v@, e as int)) && i < e <= s@.len(),
            Err(err) => parse_string(s@, i as int) == Err::<(Seq<char>, int), RsxError>(err),
        },
{
    let len = s.len();
    if char_at(s, i) != Some('"') {
        return match read_raw_string(s, i) {
            Ok((v, e)) => Ok((v, suffix_stop(s, e))),
            Err(err) => Err(err),
        };
    }
    let mut acc = String::new();
    let mut j = i + 1;
    assert(acc@ == Seq::<char>::empty());
    while j < s.len()
        invariant
            i < j <= s@.len(),
            len == s@.len(),
            at(s@, i as int) == Some('"'),
            string_body(s@, i + 1, Seq::empty()) == string_body(s@, j as int, acc@),
        decreases s@.len() - j,
    {
        let c = s[j];
        if c == '"' {
            return Ok((acc, suffix_stop(s, j + 1)));
        } else if c == '\r' {
            return Err(RsxError::Syntax);
        } else if c == '\\' {
            if char_after(s, j, 1) == Some('\n') {
                let e = ascii_ws_stop(s, j + 2);
                j = e;
            } else {
                match read_escape(s, j + 1) {
                    Some((ch, e)) => {
                        acc.push(ch);
                        j = e;
                    },
                    None => return Err(RsxError::Syntax),
                }
            }
        } else {
            acc.push(c);
            j = j + 1;
        }
    }
    Err(RsxError::Syntax)
}

fn find_quoted_end(s: &Vec<char>, j: usize) -> (res: Option<usize>)
    requires
        j <= s@.len(),
    ensures
        match res {
            Some(e) => quoted_end(s@, j as int) == Some(e as int) && j < e <= s@.len(),
            None => quoted_end(s@, j as int) == None::<int>,
        },
{
    let mut k = j;
    while k < s.len()
        invariant
            j <= k <= s@.len(),
            quoted_end(s@, j as int) == quoted_end(s@, k as int),
        decreases s@.len() - k,
    {
        if s[k] == '"' {
            return Some(k + 1);
        } else if s[k] == '\\' {
            if k + 1 < s.len() {
                k = k + 2;
            } else {
                return None;
            }
        } else {
            k = k + 1;
        }
    }
    None
}

fn find_quote_on_line(s: &Vec<char>, j: usize) -> (res: Option<usize>)
    ensures
        match res {
            Some(k) => quote_on_line(s@, j as int) == Some(k as int) && j <= k < s@.len(),
            None => quote_on_line(s@, j as int) == None::<int>,
        },
{
    let mut k = j;
    while k < s.len()
        invariant
            j <= k,
            quote_on_line(s@, j as int) == quote_on_line(s@, k as int),
        decreases s@.len() - k,
    {
        if s[k] == '\n' {
            return None;
        } else if s[k] == '\'' {
            return Some(k);
        }
        k = k + 1;
    }
    None
}

fn find_tick_end(s: &Vec<char>, j: usize) -> (res: Option<usize>)
    requires
        j < s@.len(),
    ensures
        match res {
            Some(e) => tick_end(s@, j as int) == Some(e as int) && j < e <= s@.len(),
            None => tick_end(s@, j as int) == None::<int>,
        },
{
    let len = s.len();
    if char_after(s, j, 1) == Some('\\') {
        if j + 2 < s.len() {
            match find_quote_on_line(s, j + 3) {
                Some(k) => Some(k + 1),
                None => None,
            }
        } else {
            None
        }
    } else if char_after(s, j, 2) == Some('\'') && char_after(s, j, 1) != Some('\n') {
        Some(j + 3)
    } else if j + 1 < s.len() && ident_start(s[j + 1]) {
        Some(j + 1)
    } else {
        None
    }
}

fn token_boundary_at(s: &Vec<char>, j: usize) -> (res: bool)
    ensures
        res == token_boundary(s@, j as int),
{
    j == 0 || j > s.len() || !ident_continue(s[j - 1])
}

fn raw_in_block_at(s: &Vec<char>, j: usize) -> (res: bool)
    requires
        j < s@.len(),
    ensures
        res == raw_in_block(s@, j as int),
{
    raw_start_at(s, j) && (token_boundary_at(s, j) || ((s[j - 1] == 'b' || s[j - 1] == 'c') && token_boundary_at(
        s,
        j - 1,
    )))
}

fn scan_block(s: &Vec<char>, j: usize) -> (res: Option<usize>)
    requires
        j <= s@.len(),
    ensures
        match res {
            Some(e) => block_scan(s@, j as int, Seq::empty()) == Some(e as int) && j < e <= s@.len(),
            None => block_scan(s@, j as int, Seq::empty()) == None::<int>,
        },
{
    let len = s.len();
    let mut k = j;
    let mut stack: Vec<char> = Vec::new();
    loop
        invariant
            j <= k <= s@.len(),
            len == s@.len(),
            block_scan(s@, j as int, Seq::empty()) == block_scan(s@, k as int, stack@),
        decreases s@.len() - k,
    {
        if k >= s.len() {
            return None;
        }
        let c = s[k];
        if c == '"' {
            match find_quoted_end(s, k + 1) {
                Some(e) => k = e,
                None => return None,
            }
        } else if raw_in_block_at(s, k) {
            let h = hash_stop(s, k + 1);
            match find_raw_close(s, h + 1, h - (k + 1)) {
                Some(q) => k = q + 1 + (h - (k + 1)),
                None => return None,
            }
        } else if c == '\'' {
            match find_tick_end(s, k) {
                Some(e) => k = e,
                None => return None,
            }
        } else if c == '/' && char_after(s, k, 1) == Some('/') {
            k = find_line_end(s, k + 2);
        } else if c == '/' && char_after(s, k, 1) == Some('*') {
            match find_block_comment_end(s, k + 2) {
                Some(e) => k = e,
                None => return None,
            }
        } else if c == '(' || c == '[' || c == '{' {
            stack.push(c);
            k = k + 1;
        } else if c == ')' || c == ']' || c == '}' {
            if stack.len() == 0 {
                if c == '}' {
                    return Some(k + 1);
                } else {
                    return None;
                }
            }
            let top = stack[stack.len() - 1];
            if (top == '(' && c == ')') || (top == '[' && c == ']') || (top == '{' && c == '}') {
                let ghost before = stack@;
                stack.pop();
                assert(stack@ =~= before.drop_last());
                k = k + 1;
            } else {
                return None;
            }
        } else {
            k = k + 1;
        }
    }
}

fn trailing_space_start(s: &Vec<char>, a: usize) -> (res: usize)
    requires
        a <= s@.len(),
    ensures
        res as int == last_non_space(s@, s@.len() as int, a as int),
        a <= res <= s@.len(),
{
    let mut e = s.len();
    while a < e && space(s[e - 1])
        invariant
            a <= e <= s@.len(),
            last_non_space(s@, s@.len() as int, a as int) == last_non_space(s@, e as int, a as int),
        decreases e - a,
    {
        e = e - 1;
    }
    e
}

/// `syn::parse_str::<syn::Expr>`: whether the whole text parses as one Rust expression.
/// The contract names the answer; syn's expression grammar is not restated.
#[verifier::external_body]
fn syn_parses_expr(text: &str) -> (res: bool)
    ensures
        res == rust_expr(text@),
{
    syn::parse_str::<syn::Expr>(text).is_ok()
}

fn judge_expr(text: &str, verdicts: Option<&Vec<(String, bool)>>) -> (res: bool)
    ensures
        res == judge(opt_verdicts(verdicts), text@),
{
    match verdicts {
        None => syn_parses_expr(text),
        Some(_) => {
            let vs = verdicts.unwrap();
            let ghost v = verdicts_view(vs@);
            assert(judge(opt_verdicts(verdicts), text@) == given_verdict(v, text@));
            let n = vs.len();
            let mut k: usize = 0;
            assert(v.skip(0) =~= v);
            while k < n
                invariant
                    n == vs@.len(),
                    v == verdicts_view(vs@),
                    judge(opt_verdicts(verdicts), text@) == given_verdict(v, text@),
                    k <= n,
                    given_verdict(v, text@) == given_verdict(v.skip(k as int), text@),
                decreases n - k,
            {
                assert(v.skip(k as int)[0] == v[k as int]);
                assert(v.skip(k as int).drop_first() =~= v.skip(k + 1));
                if str_eq(vs[k].0.as_str(), text) {
                    assert(v[k as int] == (vs@[k as int].0@, vs@[k as int].1));
                    assert(given_verdict(v.skip(k as int), text@) == vs@[k as int].1);
                    return vs[k].1;
                }
                k = k + 1;
            }
            assert(v.skip(n as int) =~= Seq::empty());
            assert(given_verdict(v.skip(n as int), text@) == false);
            false
        },
    }
}

pub(crate) fn read_block(s: &Vec<char>, i: usize, verdicts: Option<&Vec<(String, bool)>>) -> (res: Result<(String, usize), RsxError>)
    requires
        i <= s@.len(),
        at(s@, i as int) == Some('{'),
    ensures
        match res {
            Ok((v, e)) => parse_block(s@, i as int, opt_verdicts(verdicts)) == Ok::<(Seq<char>, int), RsxError>((v@, e as int)) && i < e <= s@.len(),
            Err(err) => parse_block(s@, i as int, opt_verdicts(verdicts)) == Err::<(Seq<char>, int), RsxError>(err),
        },
{
    let len = s.len();
    match scan_block(s, i + 1) {
        Some(e) => {
            if e < i + 2 {
                return Err(RsxError::Syntax);
            }
            let mut inner: Vec<char> = Vec::new();
            let mut k = i + 1;
            while k < e - 1
                invariant
                    i + 1 <= k <= e - 1,
                    e <= s@.len(),
                    inner@ == s@.subrange(i + 1, k as int),
                decreases e - 1 - k,
            {
                inner.push(s[k]);
                assert(inner@ =~= s@.subrange(i + 1, k + 1));
                k = k + 1;
            }
            let a = skip_spaces(&inner, 0);
            if a >= inner.len() {
                Err(RsxError::Syntax)
            } else {
                let b = trailing_space_start(&inner, a);
                let text = slice_string(&inner, a, b);
                if judge_expr(text.as_str(), verdicts) {
                    Ok((text, e))
                } else {
                    Err(RsxError::Expression)
                }
            }
        },
        None => Err(RsxError::Syntax),
    }
}

} // verus!

verus! {

/// Text that stands for itself inside a string literal: no quote, backslash or carriage
/// return.
pub open spec fn plain_text(a: Seq<char>) -> bool {
    forall|k: int| 0 <= k < a.len() ==> a[k] != '"' && a[k] != '\\' && a[k] != '\r'
}

proof fn lemma_plain_run(s: Seq<char>, j: int, n: int, acc: Seq<char>)
    requires
        0 <= j,
        0 <= n,
        j + n <= s.len(),
        forall|k: int| j <= k < j + n ==> s[k] != '"' && s[k] != '\\' && s[k] != '\r',
    ensures
        string_body(s, j, acc) == string_body(s, j + n, acc + s.subrange(j, j + n)),
    decreases n,
{
    if n > 0 {
        lemma_plain_run(s, j + 1, n - 1, acc.push(s[j]));
        assert(acc.push(s[j]) + s.subrange(j + 1, j + n) =~= acc + s.subrange(j, j + n));
    } else {
        assert(acc + s.subrange(j, j) =~= acc);
    }
}

proof fn lemma_escaped_literal(a: Seq<char>, c: char, d: char)
    requires
        plain_text(a),
        c != 'x',
        c != 'u',
        c != '\n',
        escape_char(c) == Some(d),
    ensures
        parse_string(seq!['"'] + a + seq!['\\', c, '"'], 0) == Ok::<(Seq<char>, int), RsxError>((a.push(d), (a.len() + 4) as int)),
{
    let s = seq!['"'] + a + seq!['\\', c, '"'];
    let p: int = a.len() as int + 1;
    assert(s.len() == p + 3);
    assert(s.subrange(1, p) =~= a);
    assert(forall|k: int| 1 <= k < p ==> s[k] == a[k - 1]);
    lemma_plain_run(s, 1, a.len() as int, Seq::empty());
    assert(Seq::<char>::empty() + a =~= a);
    assert(s[p] == '\\' && s[p + 1] == c && s[p + 2] == '"');
    assert(escape_at(s, p + 1) == Some((d, p + 2)));
    assert(string_body(s, p + 2, a.push(d)) == Ok::<(Seq<char>, int), RsxError>((a.push(d), p + 3)));
    assert(string_body(s, p, a) == string_body(s, p + 2, a.push(d)));
    assert(string_body(s, 1, Seq::empty()) == string_body(s, p, a));
    assert(suffix_end(s, p + 3) == p + 3);
}

/// In a string literal, text without quotes, backslashes or carriage returns stands for
/// itself, and each one-letter escape stands for the character Rust gives it: `\n` line
/// feed (U+000A), `\r` carriage return (U+000D), `\t` tab (U+0009), `\\` backslash
/// (U+005C), `\0` NUL (U+0000), `\'` apostrophe (U+0027) and `\"` quotation mark (U+0022).
pub proof fn law_string_literal_values(a: Seq<char>)
    requires
        plain_text(a),
    ensures
        parse_string(seq!['"'] + a + seq!['"'], 0) == Ok::<(Seq<char>, int), RsxError>((a, (a.len() + 2) as int)),
        parse_string(seq!['"'] + a + seq!['\\', 'n', '"'], 0) == Ok::<(Seq<char>, int), RsxError>((a.push('\u{a}'), (a.len() + 4) as int)),
        parse_string(seq!['"'] + a + seq!['\\', 'r', '"'], 0) == Ok::<(Seq<char>, int), RsxError>((a.push('\u{d}'), (a.len() + 4) as int)),
        parse_string(seq!['"'] + a + seq!['\\', 't', '"'], 0) == Ok::<(Seq<char>, int), RsxError>((a.push('\u{9}'), (a.len() + 4) as int)),
        parse_string(seq!['"'] + a + seq!['\\', '\\', '"'], 0) == Ok::<(Seq<char>, int), RsxError>((a.push('\u{5c}'), (a.len() + 4) as int)),
        parse_string(seq!['"'] + a + seq!['\\', '0', '"'], 0) == Ok::<(Seq<char>, int), RsxError>((a.push('\u{0}'), (a.len() + 4) as int)),
        parse_string(seq!['"'] + a + seq!['\\', '\'', '"'], 0) == Ok::<(Seq<char>, int), RsxError>((a.push('\u{27}'), (a.len() + 4) as int)),
        parse_string(seq!['"'] + a + seq!['\\', '"', '"'], 0) == Ok::<(Seq<char>, int), RsxError>((a.push('\u{22}'), (a.len() + 4) as int)),
{
    let s = seq!['"'] + a + seq!['"'];
    assert(s.subrange(1, a.len() as int + 1) =~= a);
    assert(forall|k: int| 1 <= k < a.len() + 1 ==> s[k] == a[k - 1]);
    lemma_plain_run(s, 1, a.len() as int, Seq::empty());
    assert(Seq::<char>::empty() + a =~= a);
    lemma_escaped_literal(a, 'n', '\u{a}');
    lemma_escaped_literal(a, 'r', '\u{d}');
    lemma_escaped_literal(a, 't', '\u{9}');
    lemma_escaped_literal(a, '\\', '\u{5c}');
    lemma_escaped_literal(a, '0', '\u{0}');
    lemma_escaped_literal(a, '\'', '\u{27}');
    lemma_escaped_literal(a, '"', '\u{22}');
}

} // verus!
