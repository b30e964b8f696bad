//! Tokenizer for the JavaScript subset that PAC scripts use.

use crate::errors::NetworkError;
use crate::text::{chars_of, is_digit, is_ws, is_ws_exec, push_char, string_of};
use vstd::prelude::*;

verus! {

#[derive(Debug, Clone, Copy, PartialEq, Eq, Structural)]
pub enum TokKind {
    Ident,
    Str,
    Num,
    LParen,
    RParen,
    LBrace,
    RBrace,
    Semi,
    Comma,
    Assign,
    EqEq,
    NotEq,
    Not,
    AndAnd,
    OrOr,
    Plus,
    Lt,
    Gt,
    Le,
    Ge,
    Eof,
}

/// A token: its kind, and for identifiers, string literals and number
/// literals its text (the name, the unescaped contents, the literal as
/// written); empty for the others.
#[derive(Debug, Clone)]
pub struct Tok {
    pub kind: TokKind,
    pub text: String,
}

impl Tok {
    pub open spec fn view(self) -> (TokKind, Seq<char>) {
        (self.kind, self.text@)
    }
}

/// `char::is_alphabetic` (the Unicode `Alphabetic` property).
pub uninterp spec fn char_alphabetic(c: char) -> bool;

/// `char::is_alphanumeric` (`Alphabetic` or `Numeric`).
pub uninterp spec fn char_alphanumeric(c: char) -> bool;

/// Whether `c` is an ASCII letter.
pub open spec fn ascii_letter(c: char) -> bool {
    ('a' <= c <= 'z') || ('A' <= c <= 'Z')
}

/// Whether `c` is alphabetic: on ASCII exactly the letters.
pub open spec fn alphabetic(c: char) -> bool {
    if (c as u32) < 128 {
        ascii_letter(c)
    } else {
        char_alphabetic(c)
    }
}

/// Whether `c` is alphanumeric: on ASCII exactly the letters and digits.
pub open spec fn alphanumeric(c: char) -> bool {
    if (c as u32) < 128 {
        ascii_letter(c) || ('0' <= c <= '9')
    } else {
        char_alphanumeric(c)
    }
}

/// `char::is_alphabetic`. Of the ASCII characters, exactly the letters
/// have the Unicode `Alphabetic` property.
#[verifier::external_body]
fn is_alphabetic(c: char) -> (r: bool)
    ensures
        r == char_alphabetic(c),
        (c as u32) < 128 ==> (r <==> ascii_letter(c)),
{
    c.is_alphabetic()
}

/// `char::is_alphanumeric`; as documented, every alphabetic character is
/// alphanumeric. Of the ASCII characters, exactly the letters and the
/// digits `0`-`9` are `Alphabetic` or `Numeric`.
#[verifier::external_body]
fn is_alphanumeric(c: char) -> (r: bool)
    ensures
        r == char_alphanumeric(c),
        char_alphabetic(c) ==> r,
        (c as u32) < 128 ==> (r <==> (ascii_letter(c) || ('0' <= c <= '9'))),
{
    c.is_alphanumeric()
}

// ---- Specification -----------------------------------------------------------

/// What the tokenizer does at one position.
pub enum LexStep {
    /// Nothing to emit (whitespace, a comment); continue at the index.
    Skip(int),
    /// Emit a token and continue at the index.
    Emit(TokKind, Seq<char>, int),
    /// The script is rejected with this message.
    Fail(Seq<char>),
}

/// End of a `//` comment: the next newline (not consumed) or the end.
pub open spec fn line_end(cs: Seq<char>, k: int) -> int
    decreases cs.len() - k,
{
    if 0 <= k < cs.len() && cs[k] != '\n' {
        line_end(cs, k + 1)
    } else {
        k
    }
}

/// Where scanning resumes after a `/*` comment whose body starts at `k`:
/// just past the first `*/`, or the end of the script.
pub open spec fn block_end(cs: Seq<char>, k: int) -> int
    decreases cs.len() - k,
{
    if 0 <= k && k + 1 < cs.len() && !(cs[k] == '*' && cs[k + 1] == '/') {
        block_end(cs, k + 1)
    } else if k + 2 < cs.len() {
        k + 2
    } else {
        cs.len() as int
    }
}

/// The character that the escape `\c` stands for.
pub open spec fn unescape(c: char) -> char {
    if c == 'n' {
        '\n'
    } else if c == 't' {
        '\t'
    } else {
        c
    }
}

/// The contents of a string literal whose body starts at `k` and which is
/// closed by `quote`, and the index just past the closing quote; `None`
/// when the script ends first.
pub open spec fn string_body(cs: Seq<char>, k: int, quote: char) -> Option<(Seq<char>, int)>
    decreases cs.len() - k,
{
    if k < 0 || k >= cs.len() {
        None
    } else if cs[k] == quote {
        Some((seq![], k + 1))
    } else if cs[k] == '\\' && k + 1 < cs.len() {
        match string_body(cs, k + 2, quote) {
            Some((s, j)) => Some((seq![unescape(cs[k + 1])] + s, j)),
            None => None,
        }
    } else {
        match string_body(cs, k + 1, quote) {
            Some((s, j)) => Some((seq![cs[k]] + s, j)),
            None => None,
        }
    }
}

pub open spec fn is_number_char(c: char) -> bool {
    is_digit(c) || c == '.'
}

pub open spec fn is_ident_char(c: char) -> bool {
    alphanumeric(c) || c == '_' || c == '$'
}

/// End of the run of number-literal characters starting at `k`.
pub open spec fn number_end(cs: Seq<char>, k: int) -> int
    decreases cs.len() - k,
{
    if 0 <= k < cs.len() && is_number_char(cs[k]) {
        number_end(cs, k + 1)
    } else {
        k
    }
}

/// End of the run of identifier characters starting at `k`.
pub open spec fn ident_end(cs: Seq<char>, k: int) -> int
    decreases cs.len() - k,
{
    if 0 <= k < cs.len() && is_ident_char(cs[k]) {
        ident_end(cs, k + 1)
    } else {
        k
    }
}

/// Number of `'.'` in `s`.
pub open spec fn dots(s: Seq<char>) -> nat
    decreases s.len(),
{
    if s.len() == 0 {
        0
    } else {
        dots(s.drop_last()) + if s.last() == '.' {
            1nat
        } else {
            0nat
        }
    }
}

/// A run of digits and dots starting with a digit is a valid number
/// literal exactly when it holds at most one dot.
pub open spec fn valid_number(s: Seq<char>) -> bool {
    dots(s) <= 1
}

pub open spec fn next_is(cs: Seq<char>, i: int, c: char) -> bool {
    cs.len() - i > 1 && cs[i + 1] == c
}

pub open spec fn single(c: char) -> Option<TokKind> {
    if c == '(' {
        Some(TokKind::LParen)
    } else if c == ')' {
        Some(TokKind::RParen)
    } else if c == '{' {
        Some(TokKind::LBrace)
    } else if c == '}' {
        Some(TokKind::RBrace)
    } else if c == ';' {
        Some(TokKind::Semi)
    } else if c == ',' {
        Some(TokKind::Comma)
    } else if c == '+' {
        Some(TokKind::Plus)
    } else {
        None
    }
}

/// The operators that may be followed by `=` (or by themselves):
/// `!`/`!=`, `=`/`==`, `<`/`<=`, `>`/`>=`, `&&`, `||`.
pub open spec fn operator(cs: Seq<char>, i: int) -> Option<(TokKind, int)> {
    let c = cs[i];
    if c == '!' {
        if next_is(cs, i, '=') {
            Some((TokKind::NotEq, i + 2))
        } else {
            Some((TokKind::Not, i + 1))
        }
    } else if c == '=' {
        if next_is(cs, i, '=') {
            Some((TokKind::EqEq, i + 2))
        } else {
            Some((TokKind::Assign, i + 1))
        }
    } else if c == '&' && next_is(cs, i, '&') {
        Some((TokKind::AndAnd, i + 2))
    } else if c == '|' && next_is(cs, i, '|') {
        Some((TokKind::OrOr, i + 2))
    } else if c == '<' {
        if next_is(cs, i, '=') {
            Some((TokKind::Le, i + 2))
        } else {
            Some((TokKind::Lt, i + 1))
        }
    } else if c == '>' {
        if next_is(cs, i, '=') {
            Some((TokKind::Ge, i + 2))
        } else {
            Some((TokKind::Gt, i + 1))
        }
    } else {
        None
    }
}

pub open spec fn unexpected_char_msg(c: char) -> Seq<char> {
    "unexpected character '"@ + seq![c] + "' in PAC script"@
}

pub open spec fn bad_number_msg(text: Seq<char>) -> Seq<char> {
    "bad number literal '"@ + text + "'"@
}

pub open spec fn unterminated_msg() -> Seq<char> {
    "unterminated string in PAC script"@
}

/// The tokenizer's action at position `i` of `cs`.
pub open spec fn lex_step(cs: Seq<char>, i: int) -> LexStep {
    let c = cs[i];
    if is_ws(c) {
        LexStep::Skip(i + 1)
    } else if c == '/' && next_is(cs, i, '/') {
        LexStep::Skip(line_end(cs, i))
    } else if c == '/' && next_is(cs, i, '*') {
        LexStep::Skip(block_end(cs, i + 2))
    } else if single(c) is Some {
        LexStep::Emit(single(c)->0, seq![], i + 1)
    } else if operator(cs, i) is Some {
        match operator(cs, i) {
            Some((k, j)) => LexStep::Emit(k, seq![], j),
            None => LexStep::Skip(i + 1),
        }
    } else if c == '"' || c == '\'' {
        match string_body(cs, i + 1, c) {
            Some((s, j)) => LexStep::Emit(TokKind::Str, s, j),
            None => LexStep::Fail(unterminated_msg()),
        }
    } else if is_digit(c) {
        let text = cs.subrange(i, number_end(cs, i));
        if valid_number(text) {
            LexStep::Emit(TokKind::Num, text, number_end(cs, i))
        } else {
            LexStep::Fail(bad_number_msg(text))
        }
    } else if alphabetic(c) || c == '_' || c == '$' {
        LexStep::Emit(TokKind::Ident, cs.subrange(i, ident_end(cs, i)), ident_end(cs, i))
    } else {
        LexStep::Fail(unexpected_char_msg(c))
    }
}

/// Prepends `p` to a successful result.
pub open spec fn prefixed(
    p: Seq<(TokKind, Seq<char>)>,
    r: Result<Seq<(TokKind, Seq<char>)>, Seq<char>>,
) -> Result<Seq<(TokKind, Seq<char>)>, Seq<char>> {
    match r {
        Ok(s) => Ok(p + s),
        Err(m) => Err(m),
    }
}

/// The tokens of `cs` from position `i` on, ending with `Eof`, or the
/// message of the first error.
pub open spec fn lex(cs: Seq<char>, i: int) -> Result<Seq<(TokKind, Seq<char>)>, Seq<char>>
    decreases cs.len() - i,
{
    if i < 0 || i >= cs.len() {
        Ok(seq![(TokKind::Eof, seq![])])
    } else {
        match lex_step(cs, i) {
            LexStep::Skip(j) => if i < j <= cs.len() {
                lex(cs, j)
            } else {
                Err(seq![])
            },
            LexStep::Emit(k, t, j) => if i < j <= cs.len() {
                prefixed(seq![(k, t)], lex(cs, j))
            } else {
                Err(seq![])
            },
            LexStep::Fail(m) => Err(m),
        }
    }
}

pub open spec fn tok_views(v: Seq<Tok>) -> Seq<(TokKind, Seq<char>)> {
    v.map_values(|t: Tok| t.view())
}

// ---- Implementation ------------------------------------------------------------

enum Step {
    Skip(usize),
    Emit(TokKind, String, usize),
    Fail(String),
}

spec fn step_matches(s: Step, l: LexStep) -> bool {
    match (s, l) {
        (Step::Skip(a), LexStep::Skip(b)) => a == b,
        (Step::Emit(k, t, a), LexStep::Emit(k2, t2, b)) => k == k2 && t@ == t2 && a == b,
        (Step::Fail(m), LexStep::Fail(m2)) => m@ == m2,
        _ => false,
    }
}

fn scan_line_end(cs: &Vec<char>, i: usize) -> (j: usize)
    requires
        i < cs.len(),
        cs@[i as int] != '\n',
    ensures
        j == line_end(cs@, i as int),
        i < j <= cs.len(),
{
    let mut k = i;
    while k < cs.len() && cs[k] != '\n'
        invariant
            i <= k <= cs.len(),
            line_end(cs@, i as int) == line_end(cs@, k as int),
            k == i ==> cs@[i as int] != '\n',
        decreases cs.len() - k,
    {
        k += 1;
    }
    k
}

fn scan_block_end(cs: &Vec<char>, start: usize) -> (j: usize)
    requires
        start <= cs.len(),
    ensures
        j == block_end(cs@, start as int),
        start <= j <= cs.len(),
{
    let mut k = start;
    while k < cs.len() && cs.len() - k > 1 && !(cs[k] == '*' && cs[k + 1] == '/')
        invariant
            start <= k <= cs.len(),
            block_end(cs@, start as int) == block_end(cs@, k as int),
        decreases cs.len() - k,
    {
        k += 1;
    }
    if k < cs.len() && cs.len() - k > 2 {
        k + 2
    } else {
        cs.len()
    }
}

proof fn lemma_string_body_bounds(cs: Seq<char>, k: int, quote: char)
    requires
        0 <= k,
    ensures
        string_body(cs, k, quote) matches Some((s, j)) ==> k < j <= cs.len(),
    decreases cs.len() - k,
{
    if k < cs.len() && cs[k] != quote {
        if cs[k] == '\\' && k + 1 < cs.len() {
            lemma_string_body_bounds(cs, k + 2, quote);
        } else {
            lemma_string_body_bounds(cs, k + 1, quote);
        }
    }
}

spec fn string_prefixed(p: Seq<char>, r: Option<(Seq<char>, int)>) -> Option<(Seq<char>, int)> {
    match r {
        Some((s, j)) => Some((p + s, j)),
        None => None,
    }
}

/// Scans a string literal whose body starts at `start`.
fn scan_string(cs: &Vec<char>, start: usize, quote: char) -> (r: Option<(String, usize)>)
    requires
        start <= cs.len(),
    ensures
        match (r, string_body(cs@, start as int, quote)) {
            (Some((s, j)), Some((s2, j2))) => s@ == s2 && j == j2,
            (None, None) => true,
            _ => false,
        },
{
    let mut s = String::new();
    let mut k = start;
    while k < cs.len() && cs[k] != quote
        invariant
            start <= k <= cs.len(),
            string_body(cs@, start as int, quote) == string_prefixed(
                s@,
                string_body(cs@, k as int, quote),
            ),
        decreases cs.len() - k,
    {
        let ghost old_s = s@;
        if cs[k] == '\\' && k + 1 < cs.len() {
            let e = if cs[k + 1] == 'n' {
                '\n'
            } else if cs[k + 1] == 't' {
                '\t'
            } else {
                cs[k + 1]
            };
            push_char(&mut s, e);
            k += 2;
            proof {
                assert(forall|x: Seq<char>| (seq![e] + x) =~= seq![e] + x);
                assert forall|x: Seq<char>| #[trigger] (old_s + (seq![e] + x)) == s@ + x by {
                    assert(old_s + (seq![e] + x) =~= s@ + x);
                }
            }
        } else {
            let c = cs[k];
            push_char(&mut s, c);
            k += 1;
            proof {
                assert forall|x: Seq<char>| #[trigger] (old_s + (seq![c] + x)) == s@ + x by {
                    assert(old_s + (seq![c] + x) =~= s@ + x);
                }
            }
        }
    }
    if k >= cs.len() {
        return None;
    }
    assert(s@ + seq![] =~= s@);
    Some((s, k + 1))
}

fn scan_number_end(cs: &Vec<char>, i: usize) -> (j: usize)
    requires
        i < cs.len(),
        is_digit(cs@[i as int]),
    ensures
        j == number_end(cs@, i as int),
        i < j <= cs.len(),
{
    let mut k = i;
    while k < cs.len() && (('0' <= cs[k] && cs[k] <= '9') || cs[k] == '.')
        invariant
            i <= k <= cs.len(),
            number_end(cs@, i as int) == number_end(cs@, k as int),
            k == i ==> is_digit(cs@[i as int]),
        decreases cs.len() - k,
    {
        k += 1;
    }
    k
}

fn scan_ident_end(cs: &Vec<char>, i: usize) -> (j: usize)
    requires
        i < cs.len(),
        alphabetic(cs@[i as int]) || cs@[i as int] == '_' || cs@[i as int] == '$',
    ensures
        j == ident_end(cs@, i as int),
        i < j <= cs.len(),
{
    let mut k = i;
    while k < cs.len() && (is_alphanumeric(cs[k]) || cs[k] == '_' || cs[k] == '$')
        invariant
            i <= k <= cs.len(),
            ident_end(cs@, i as int) == ident_end(cs@, k as int),
            k == i ==> (alphabetic(cs@[i as int]) || cs@[i as int] == '_' || cs@[i as int] == '$'),
        decreases cs.len() - k,
    {
        k += 1;
    }
    k
}

fn count_dots(cs: &Vec<char>, lo: usize, hi: usize) -> (n: usize)
    requires
        lo <= hi <= cs.len(),
    ensures
        n == dots(cs@.subrange(lo as int, hi as int)),
{
    let mut n: usize = 0;
    let mut k = lo;
    while k < hi
        invariant
            lo <= k <= hi <= cs.len(),
            n == dots(cs@.subrange(lo as int, k as int)),
            n <= k - lo,
        decreases hi - k,
    {
        assert(cs@.subrange(lo as int, k + 1).drop_last() =~= cs@.subrange(lo as int, k as int));
        if cs[k] == '.' {
            n += 1;
        }
        k += 1;
    }
    n
}

fn str_of(s: &str) -> (r: String)
    ensures
        r@ == s@,
{
    String::from_str(s)
}

fn next_is_exec(cs: &Vec<char>, i: usize, c: char) -> (r: bool)
    requires
        i < cs.len(),
    ensures
        r == next_is(cs@, i as int, c),
{
    cs.len() - i > 1 && cs[i + 1] == c
}

/// One step of the tokenizer at `i`.
fn step(cs: &Vec<char>, i: usize) -> (s: Step)
    requires
        i < cs.len(),
    ensures
        step_matches(s, lex_step(cs@, i as int)),
        s matches Step::Skip(j) ==> i < j <= cs.len(),
        s matches Step::Emit(_, _, j) ==> i < j <= cs.len(),
{
    let c = cs[i];
    proof {
        reveal_strlit("unterminated string in PAC script");
    }
    if is_ws_exec(c) {
        return Step::Skip(i + 1);
    }
    if c == '/' && next_is_exec(cs, i, '/') {
        let j = scan_line_end(cs, i);
        return Step::Skip(j);
    }
    if c == '/' && next_is_exec(cs, i, '*') {
        let j = scan_block_end(cs, i + 2);
        return Step::Skip(j);
    }
    let one = if c == '(' {
        Some(TokKind::LParen)
    } else if c == ')' {
        Some(TokKind::RParen)
    } else if c == '{' {
        Some(TokKind::LBrace)
    } else if c == '}' {
        Some(TokKind::RBrace)
    } else if c == ';' {
        Some(TokKind::Semi)
    } else if c == ',' {
        Some(TokKind::Comma)
    } else if c == '+' {
        Some(TokKind::Plus)
    } else {
        None
    };
    if let Some(k) = one {
        return Step::Emit(k, String::new(), i + 1);
    }
    let eq_next = next_is_exec(cs, i, '=');
    let op = if c == '!' {
        if eq_next {
            Some((TokKind::NotEq, i + 2))
        } else {
            Some((TokKind::Not, i + 1))
        }
    } else if c == '=' {
        if eq_next {
            Some((TokKind::EqEq, i + 2))
        } else {
            Some((TokKind::Assign, i + 1))
        }
    } else if c == '&' && next_is_exec(cs, i, '&') {
        Some((TokKind::AndAnd, i + 2))
    } else if c == '|' && next_is_exec(cs, i, '|') {
        Some((TokKind::OrOr, i + 2))
    } else if c == '<' {
        if eq_next {
            Some((TokKind::Le, i + 2))
        } else {
            Some((TokKind::Lt, i + 1))
        }
    } else if c == '>' {
        if eq_next {
            Some((TokKind::Ge, i + 2))
        } else {
            Some((TokKind::Gt, i + 1))
        }
    } else {
        None
    };
    if let Some((k, j)) = op {
        return Step::Emit(k, String::new(), j);
    }
    if c == '"' || c == '\'' {
        proof {
            lemma_string_body_bounds(cs@, i + 1, c);
        }
        return match scan_string(cs, i + 1, c) {
            Some((s, j)) => Step::Emit(TokKind::Str, s, j),
            None => Step::Fail(str_of("unterminated string in PAC script")),
        };
    }
    if '0' <= c && c <= '9' {
        let j = scan_number_end(cs, i);
        let text = string_of(cs, i, j);
        if count_dots(cs, i, j) <= 1 {
            return Step::Emit(TokKind::Num, text, j);
        } else {
            let mut m = str_of("bad number literal '");
            m.append(text.as_str());
            push_char(&mut m, '\'');
            proof {
                reveal_strlit("bad number literal '");
                reveal_strlit("'");
                assert(m@ =~= bad_number_msg(cs@.subrange(i as int, j as int)));
            }
            return Step::Fail(m);
        }
    }
    if is_alphabetic(c) || c == '_' || c == '$' {
        let j = scan_ident_end(cs, i);
        let text = string_of(cs, i, j);
        return Step::Emit(TokKind::Ident, text, j);
    }
    let mut m = str_of("unexpected character '");
    push_char(&mut m, c);
    m.append("' in PAC script");
    proof {
        reveal_strlit("unexpected character '");
        reveal_strlit("' in PAC script");
        assert(m@ =~= unexpected_char_msg(c));
    }
    Step::Fail(m)
}

/// Splits a PAC script into tokens, ending with `Eof`.
pub fn tokenize(src: &str) -> (r: Result<Vec<Tok>, NetworkError>)
    ensures
        match r {
            Ok(v) => lex(src@, 0) == Ok::<Seq<(TokKind, Seq<char>)>, Seq<char>>(tok_views(v@)),
            Err(e) => e matches NetworkError::Parse(m) && lex(src@, 0) == Err::<
                Seq<(TokKind, Seq<char>)>,
                Seq<char>,
            >(m@),
        },
{
    let cs = chars_of(src);
    let mut toks: Vec<Tok> = Vec::new();
    let mut i: usize = 0;
    while i < cs.len()
        invariant
            i <= cs.len(),
            cs@ == src@,
            lex(cs@, 0) == prefixed(tok_views(toks@), lex(cs@, i as int)),
        decreases cs.len() - i,
    {
        match step(&cs, i) {
            Step::Skip(j) => {
                i = j;
            },
            Step::Emit(kind, text, j) => {
                let ghost before = tok_views(toks@);
                let ghost t = (kind, text@);
                toks.push(Tok { kind, text });
                proof {
                    assert(tok_views(toks@) =~= before + seq![t]);
                    match lex(cs@, j as int) {
                        Ok(rest) => {
                            assert(before + (seq![t] + rest) =~= before + seq![t] + rest);
                        },
                        Err(_) => {},
                    }
                }
                i = j;
            },
            Step::Fail(m) => {
                return Err(NetworkError::Parse(m));
            },
        }
    }
    let ghost before = tok_views(toks@);
    toks.push(Tok { kind: TokKind::Eof, text: String::new() });
    proof {
        assert(tok_views(toks@) =~= before + seq![(TokKind::Eof, seq![])]);
    }
    Ok(toks)
}

} // verus!
