//! Turns specification text into a sequence of tokens: identifiers, integer
//! literals, string literals (with `\"` and `\\` escapes) and single-character
//! punctuation. Whitespace separates tokens and is otherwise ignored.

use vstd::prelude::*;
use vstd::string::*;

use crate::strutil::{
    all_digits, digits_val, is_digit, is_digit_char, is_space, is_space_char,
};

verus! {

/// What a token holds.
#[derive(Debug)]
pub enum TokKind {
    IdentTok(String),
    IntTok(u64),
    StrTok(String),
    PunctTok(char),
}

/// One token, with the character position where it starts.
#[derive(Debug)]
pub struct Token {
    pub pos: usize,
    pub kind: TokKind,
}

/// The mathematical form of `TokKind`.
pub enum SpecTokKind {
    IdentK(Seq<char>),
    IntK(u64),
    StrK(Seq<char>),
    PunctK(char),
}

/// The mathematical form of `Token`.
pub struct SpecTok {
    pub pos: int,
    pub kind: SpecTokKind,
}

impl View for TokKind {
    type V = SpecTokKind;

    open spec fn view(&self) -> SpecTokKind {
        match self {
            TokKind::IdentTok(s) => SpecTokKind::IdentK(s@),
            TokKind::IntTok(v) => SpecTokKind::IntK(*v),
            TokKind::StrTok(s) => SpecTokKind::StrK(s@),
            TokKind::PunctTok(c) => SpecTokKind::PunctK(*c),
        }
    }
}

impl View for Token {
    type V = SpecTok;

    open spec fn view(&self) -> SpecTok {
        SpecTok { pos: self.pos as int, kind: self.kind@ }
    }
}

/// The view of a token sequence.
pub open spec fn toks_view(ts: Seq<Token>) -> Seq<SpecTok> {
    ts.map_values(|t: Token| t@)
}

/// Why lexing failed, and where.
#[derive(Debug, Clone, Copy, PartialEq, Eq, Structural)]
pub enum LexErrKind {
    UnterminatedString,
    BadEscape,
    IntTooLarge,
}

#[derive(Debug, Clone, Copy, PartialEq, Eq, Structural)]
pub struct LexError {
    pub pos: usize,
    pub kind: LexErrKind,
}

/// Whether `c` may start an identifier.
pub open spec fn is_ident_start(c: char) -> bool {
    (97 <= c as int && c as int <= 122) || (65 <= c as int && c as int <= 90) || c == '_'
}

pub fn is_ident_start_char(c: char) -> (r: bool)
    ensures
        r == is_ident_start(c),
{
    let u = c as u32;
    (97 <= u && u <= 122) || (65 <= u && u <= 90) || c == '_'
}

/// Whether `c` may continue an identifier.
pub open spec fn is_ident_char(c: char) -> bool {
    is_ident_start(c) || is_digit(c)
}

pub fn is_ident_char_exec(c: char) -> (r: bool)
    ensures
        r == is_ident_char(c),
{
    is_ident_start_char(c) || is_digit_char(c)
}

/// How many identifier characters run on from position `i`.
pub open spec fn ident_run_len(s: Seq<char>, i: int) -> nat
    decreases s.len() - i when 0 <= i <= s.len()
{
    if i >= s.len() || !is_ident_char(s[i]) {
        0
    } else {
        1 + ident_run_len(s, i + 1)
    }
}

/// How many digits run on from position `i`.
pub open spec fn digit_run_len(s: Seq<char>, i: int) -> nat
    decreases s.len() - i when 0 <= i <= s.len()
{
    if i >= s.len() || !is_digit(s[i]) {
        0
    } else {
        1 + digit_run_len(s, i + 1)
    }
}

/// Reads a string-literal body starting just after the opening quote.
/// Yields the content and the position after the closing quote.
pub open spec fn scan_str(s: Seq<char>, i: int) -> Result<(Seq<char>, int), LexError>
    decreases s.len() - i when 0 <= i <= s.len()
{
    if i >= s.len() {
        Err(LexError { pos: i as usize, kind: LexErrKind::UnterminatedString })
    } else if s[i] == '"' {
        Ok((Seq::empty(), i + 1))
    } else if s[i] == '\\' {
        if i + 1 >= s.len() {
            Err(LexError { pos: i as usize, kind: LexErrKind::BadEscape })
        } else if s[i + 1] == '"' || s[i + 1] == '\\' {
            scan_join(seq![s[i + 1]], scan_str(s, i + 2))
        } else {
            Err(LexError { pos: i as usize, kind: LexErrKind::BadEscape })
        }
    } else {
        scan_join(seq![s[i]], scan_str(s, i + 1))
    }
}

/// Prepends already-read content to the rest of a string-literal scan.
pub open spec fn scan_join(
    pre: Seq<char>,
    rest: Result<(Seq<char>, int), LexError>,
) -> Result<(Seq<char>, int), LexError> {
    match rest {
        Ok((c, e)) => Ok((pre + c, e)),
        Err(e) => Err(e),
    }
}

/// The tokens of `s` from position `i` on.
pub open spec fn spec_lex_from(s: Seq<char>, i: int) -> Result<Seq<SpecTok>, LexError>
    decreases s.len() - i, 0int when 0 <= i <= s.len()
{
    if i >= s.len() {
        Ok(Seq::empty())
    } else if is_space(s[i]) {
        spec_lex_from(s, i + 1)
    } else if is_ident_start(s[i]) {
        let j = i + 1 + ident_run_len(s, i + 1);
        let tok = SpecTok { pos: i, kind: SpecTokKind::IdentK(s.subrange(i, j)) };
        lex_cons(tok, spec_lex_from_clipped(s, j))
    } else if is_digit(s[i]) {
        let j = i + 1 + digit_run_len(s, i + 1);
        let v = digits_val(s.subrange(i, j));
        if v > u64::MAX {
            Err(LexError { pos: i as usize, kind: LexErrKind::IntTooLarge })
        } else {
            let tok = SpecTok { pos: i, kind: SpecTokKind::IntK(v as u64) };
            lex_cons(tok, spec_lex_from_clipped(s, j))
        }
    } else if s[i] == '"' {
        match scan_str(s, i + 1) {
            Ok((content, end)) => {
                let tok = SpecTok { pos: i, kind: SpecTokKind::StrK(content) };
                // a scan that succeeds passed the closing quote, so `end`
                // is at least `i + 2`; the clamp never applies
                let j = if end < i + 2 {
                    i + 2
                } else {
                    end
                };
                lex_cons(tok, spec_lex_from_clipped(s, j))
            },
            Err(e) => Err(e),
        }
    } else {
        let tok = SpecTok { pos: i, kind: SpecTokKind::PunctK(s[i]) };
        lex_cons(tok, spec_lex_from(s, i + 1))
    }
}

/// Continues lexing at `j`, clipped into range so that the recursion is
/// well-founded; scans never leave the text, so the clip never applies.
pub open spec fn spec_lex_from_clipped(s: Seq<char>, j: int) -> Result<Seq<SpecTok>, LexError>
    decreases (if j <= s.len() { s.len() - j } else { 0 }), 1int when 0 <= j
{
    if j <= s.len() {
        spec_lex_from(s, j)
    } else {
        Ok(Seq::empty())
    }
}

/// Prepends a token to the rest of a lex.
pub open spec fn lex_cons(
    t: SpecTok,
    rest: Result<Seq<SpecTok>, LexError>,
) -> Result<Seq<SpecTok>, LexError> {
    match rest {
        Ok(ts) => Ok(seq![t] + ts),
        Err(e) => Err(e),
    }
}

/// Appends already-read tokens before the rest of a lex.
pub open spec fn lex_join(
    pre: Seq<SpecTok>,
    rest: Result<Seq<SpecTok>, LexError>,
) -> Result<Seq<SpecTok>, LexError> {
    match rest {
        Ok(ts) => Ok(pre + ts),
        Err(e) => Err(e),
    }
}

/// The tokens of the whole text.
pub open spec fn spec_lex(s: Seq<char>) -> Result<Seq<SpecTok>, LexError> {
    spec_lex_from(s, 0)
}

proof fn lemma_ident_run_le(s: Seq<char>, i: int)
    requires
        0 <= i <= s.len(),
    ensures
        ident_run_len(s, i) <= s.len() - i,
    decreases s.len() - i,
{
    if i < s.len() && is_ident_char(s[i]) {
        lemma_ident_run_le(s, i + 1);
    }
}

proof fn lemma_digit_run_le(s: Seq<char>, i: int)
    requires
        0 <= i <= s.len(),
    ensures
        digit_run_len(s, i) <= s.len() - i,
    decreases s.len() - i,
{
    if i < s.len() && is_digit(s[i]) {
        lemma_digit_run_le(s, i + 1);
    }
}

/// Reads the identifier run starting at `i`, whose first character is already
/// known to start an identifier. Yields the position after the run.
fn scan_ident_end(s: &str, i: usize) -> (j: usize)
    requires
        i < s@.len(),
        is_ident_char(s@[i as int]),
    ensures
        j == i + 1 + ident_run_len(s@, i + 1),
        i < j <= s@.len(),
{
    let n = s.unicode_len();
    let mut j: usize = i + 1;
    while j < n && is_ident_char_exec(s.get_char(j))
        invariant
            i + 1 <= j <= n,
            n == s@.len(),
            ident_run_len(s@, i + 1) == j - i - 1 + ident_run_len(s@, j as int),
        decreases n - j,
    {
        j = j + 1;
    }
    proof {
        lemma_ident_run_le(s@, j as int);
    }
    j
}

/// Reads the digit run starting at `i`, whose first character is already
/// known to be a digit. Yields the position after the run.
fn scan_digit_end(s: &str, i: usize) -> (j: usize)
    requires
        i < s@.len(),
        is_digit(s@[i as int]),
    ensures
        j == i + 1 + digit_run_len(s@, i + 1),
        i < j <= s@.len(),
        all_digits(s@.subrange(i as int, j as int)),
        j < s@.len() ==> !is_digit(s@[j as int]),
{
    let n = s.unicode_len();
    let mut j: usize = i + 1;
    while j < n && is_digit_char(s.get_char(j))
        invariant
            i + 1 <= j <= n,
            n == s@.len(),
            i < n,
            is_digit(s@[i as int]),
            digit_run_len(s@, i + 1) == j - i - 1 + digit_run_len(s@, j as int),
            forall|k: int| i <= k < j ==> is_digit(#[trigger] s@[k]),
        decreases n - j,
    {
        j = j + 1;
    }
    proof {
        lemma_digit_run_le(s@, j as int);
        assert forall|k: int| 0 <= k < j - i implies is_digit(
            #[trigger] s@.subrange(i as int, j as int)[k],
        ) by {
            assert(s@.subrange(i as int, j as int)[k] == s@[i + k]);
        }
    }
    j
}

/// Reads a string-literal body starting just after the opening quote,
/// processing `\"` and `\\` escapes.
fn scan_string(s: &str, start: usize) -> (r: Result<(String, usize), LexError>)
    requires
        start <= s@.len(),
    ensures
        match r {
            Ok((content, end)) => scan_str(s@, start as int) == Ok::<_, LexError>(
                (content@, end as int),
            ) && start < end <= s@.len(),
            Err(e) => scan_str(s@, start as int) == Err::<(Seq<char>, int), _>(e),
        },
{
    let n = s.unicode_len();
    let mut content = String::new();
    let mut j: usize = start;
    while j < n
        invariant
            start <= j <= n,
            n == s@.len(),
            scan_str(s@, start as int) == scan_join(content@, scan_str(s@, j as int)),
        decreases n - j,
    {
        let c = s.get_char(j);
        if c == '"' {
            return Ok((content, j + 1));
        } else if c == '\\' {
            if j + 1 >= n {
                return Err(LexError { pos: j, kind: LexErrKind::BadEscape });
            }
            let e = s.get_char(j + 1);
            if e == '"' || e == '\\' {
                let ghost old_content = content@;
                content.append(s.substring_char(j + 1, j + 2));
                proof {
                    assert(s@.subrange(j + 1, j + 2) =~= seq![s@[j + 1]]);
                    assert(content@ =~= old_content + seq![s@[j + 1]]);
                    assert(scan_str(s@, start as int) == scan_join(
                        content@,
                        scan_str(s@, j + 2),
                    )) by {
                        assert(scan_str(s@, j as int) == scan_join(
                            seq![s@[j + 1]],
                            scan_str(s@, j + 2),
                        ));
                        match scan_str(s@, j + 2) {
                            Ok((cc, ee)) => {
                                assert(old_content + (seq![s@[j + 1]] + cc) =~= (old_content
                                    + seq![s@[j + 1]]) + cc);
                            },
                            Err(_) => {},
                        }
                    }
                }
                j = j + 2;
            } else {
                return Err(LexError { pos: j, kind: LexErrKind::BadEscape });
            }
        } else {
            let ghost old_content = content@;
            content.append(s.substring_char(j, j + 1));
            proof {
                assert(s@.subrange(j as int, j + 1) =~= seq![s@[j as int]]);
                assert(content@ =~= old_content + seq![s@[j as int]]);
                assert(scan_str(s@, start as int) == scan_join(content@, scan_str(s@, j + 1)))
                    by {
                    assert(scan_str(s@, j as int) == scan_join(
                        seq![s@[j as int]],
                        scan_str(s@, j + 1),
                    ));
                    match scan_str(s@, j + 1) {
                        Ok((cc, ee)) => {
                            assert(old_content + (seq![s@[j as int]] + cc) =~= (old_content
                                + seq![s@[j as int]]) + cc);
                        },
                        Err(_) => {},
                    }
                }
            }
            j = j + 1;
        }
    }
    Err(LexError { pos: n, kind: LexErrKind::UnterminatedString })
}

/// Reads the digit run starting at `i` as a `u64` value.
fn digits_to_u64(s: &str, i: usize, j: usize) -> (r: Option<u64>)
    requires
        i < j <= s@.len(),
        all_digits(s@.subrange(i as int, j as int)),
    ensures
        ({
            let body = s@.subrange(i as int, j as int);
            if digits_val(body) <= u64::MAX {
                r == Some(digits_val(body) as u64)
            } else {
                r is None
            }
        }),
{
    let ghost body = s@.subrange(i as int, j as int);
    let mut acc: u64 = 0;
    let mut k: usize = i;
    while k < j
        invariant
            i <= k <= j <= s@.len(),
            body == s@.subrange(i as int, j as int),
            all_digits(body),
            acc as nat == digits_val(body.subrange(0, k - i)),
        decreases j - k,
    {
        let c = s.get_char(k);
        proof {
            assert(body[k - i] == s@[k as int]);
        }
        let d: u64 = (c as u32 - 48) as u64;
        let next = match acc.checked_mul(10) {
            Some(m) => m.checked_add(d),
            None => None,
        };
        proof {
            crate::strutil::lemma_digits_val_step(body, k - i);
        }
        match next {
            Some(v) => {
                acc = v;
            },
            None => {
                proof {
                    crate::strutil::lemma_digits_val_grows(body, k + 1 - i, body.len() as int);
                    assert(body.subrange(0, body.len() as int) =~= body);
                }
                return None;
            },
        }
        k = k + 1;
    }
    proof {
        assert(body.subrange(0, body.len() as int) =~= body);
    }
    Some(acc)
}

/// Turns the whole text into tokens.
pub fn lex(src: &str) -> (r: Result<Vec<Token>, LexError>)
    ensures
        match r {
            Ok(v) => spec_lex(src@) == Ok::<_, LexError>(toks_view(v@)),
            Err(e) => spec_lex(src@) == Err::<Seq<SpecTok>, _>(e),
        },
{
    let n = src.unicode_len();
    let mut out: Vec<Token> = Vec::new();
    let mut i: usize = 0;
    while i < n
        invariant
            0 <= i <= n,
            n == src@.len(),
            spec_lex(src@) == lex_join(toks_view(out@), spec_lex_from(src@, i as int)),
        decreases n - i,
    {
        let ghost pre = toks_view(out@);
        let c = src.get_char(i);
        if is_space_char(c) {
            i = i + 1;
        } else if is_ident_start_char(c) {
            let j = scan_ident_end(src, i);
            let name = src.substring_char(i, j).to_owned();
            let tok = Token { pos: i, kind: TokKind::IdentTok(name) };
            proof {
                lemma_lex_shift(pre, tok@, src@, i as int, j as int);
            }
            out.push(tok);
            proof {
                assert(toks_view(out@) =~= pre.push(tok@));
                assert(pre.push(tok@) =~= pre + seq![tok@]);
            }
            i = j;
        } else if is_digit_char(c) {
            let j = scan_digit_end(src, i);
            match digits_to_u64(src, i, j) {
                Some(v) => {
                    let tok = Token { pos: i, kind: TokKind::IntTok(v) };
                    proof {
                        lemma_lex_shift(pre, tok@, src@, i as int, j as int);
                    }
                    out.push(tok);
                    proof {
                        assert(toks_view(out@) =~= pre.push(tok@));
                        assert(pre.push(tok@) =~= pre + seq![tok@]);
                    }
                    i = j;
                },
                None => {
                    return Err(LexError { pos: i, kind: LexErrKind::IntTooLarge });
                },
            }
        } else if c == '"' {
            match scan_string(src, i + 1) {
                Ok((content, end)) => {
                    let tok = Token { pos: i, kind: TokKind::StrTok(content) };
                    proof {
                        lemma_lex_shift(pre, tok@, src@, i as int, end as int);
                    }
                    out.push(tok);
                    proof {
                        assert(toks_view(out@) =~= pre.push(tok@));
                        assert(pre.push(tok@) =~= pre + seq![tok@]);
                    }
                    i = end;
                },
                Err(e) => {
                    return Err(e);
                },
            }
        } else {
            let tok = Token { pos: i, kind: TokKind::PunctTok(c) };
            proof {
                lemma_lex_shift(pre, tok@, src@, i as int, i + 1);
            }
            out.push(tok);
            proof {
                assert(toks_view(out@) =~= pre.push(tok@));
                assert(pre.push(tok@) =~= pre + seq![tok@]);
            }
            i = i + 1;
        }
    }
    proof {
        match spec_lex_from(src@, n as int) {
            Ok(ts) => {
                assert(toks_view(out@) + ts =~= toks_view(out@));
            },
            Err(_) => {},
        }
    }
    Ok(out)
}

/// Re-bases the main lex invariant across one emitted token: if the lex from
/// `i` is the token `t` followed by the lex from `j`, the already-emitted
/// prefix absorbs `t`.
proof fn lemma_lex_shift(pre: Seq<SpecTok>, t: SpecTok, s: Seq<char>, i: int, j: int)
    requires
        0 <= i,
        0 <= j <= s.len(),
        spec_lex_from(s, i) == lex_cons(t, spec_lex_from_clipped(s, j)),
    ensures
        lex_join(pre, spec_lex_from(s, i)) == lex_join(pre + seq![t], spec_lex_from(s, j)),
{
    match spec_lex_from(s, j) {
        Ok(ts) => {
            assert(pre + (seq![t] + ts) =~= (pre + seq![t]) + ts);
        },
        Err(_) => {},
    }
}

} // verus!
