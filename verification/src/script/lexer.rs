//! Lexical analysis for the rule language.
//!
//! The lexer takes the longest token at each position; keywords win over
//! identifiers of the same length. Whitespace and `//` line comments are
//! skipped. Spans are byte offsets into the UTF-8 source.
use vstd::prelude::*;
use vstd::utf8::*;

use crate::script::error::ScriptError;
use crate::script::strings::{
    chars_of, digits_value, is_digit, push_decimal, push_str, spec_decimal, string_from_range,
};
use crate::script::utf8_len::{
    byte_offset, char_utf8_width, lemma_byte_offset_bound, lemma_byte_offset_step,
};

verus! {

/// Byte offset span in source code.
#[derive(Debug, Clone, Copy, PartialEq, Eq, Structural)]
pub struct Span {
    pub start: usize,
    pub end: usize,
}

/// A value paired with its source location.
pub type Spanned<T> = (T, Span);

/// A decimal numeral exactly as written: the digits before the point and
/// the digits after it (empty for a whole number).
#[derive(Debug, Clone, PartialEq)]
pub struct Decimal {
    pub whole: String,
    pub frac: String,
}

/// The mathematical content of a [`Decimal`].
pub struct SpecDecimal {
    pub whole: Seq<char>,
    pub frac: Seq<char>,
}

impl View for Decimal {
    type V = SpecDecimal;

    open spec fn view(&self) -> SpecDecimal {
        SpecDecimal { whole: self.whole@, frac: self.frac@ }
    }
}

/// Tokens produced by the rule lexer.
#[derive(Debug, Clone, PartialEq)]
pub enum Token {
    Rule,
    When,
    Then,
    For,
    And,
    Or,
    Alert,
    Kill,
    Log,
    Severity,
    Info,
    Warning,
    Critical,
    Process,
    Gte,
    Lte,
    Eq,
    Neq,
    Gt,
    Lt,
    LBrace,
    RBrace,
    Dot,
    /// `90%`: the digits before the percent sign.
    Percent(Decimal),
    /// `30s`, `5m`, `2h`, in seconds.
    Duration(u64),
    /// `0.9`.
    Float(Decimal),
    /// `100`.
    Integer(i64),
    /// `"text"`, without the quotes.
    StringLit(String),
    /// A name that is not a keyword.
    Ident(String),
}

/// The mathematical content of a [`Token`].
pub enum SpecToken {
    Rule,
    When,
    Then,
    For,
    And,
    Or,
    Alert,
    Kill,
    Log,
    Severity,
    Info,
    Warning,
    Critical,
    Process,
    Gte,
    Lte,
    Eq,
    Neq,
    Gt,
    Lt,
    LBrace,
    RBrace,
    Dot,
    Percent(SpecDecimal),
    Duration(u64),
    Float(SpecDecimal),
    Integer(i64),
    StringLit(Seq<char>),
    Ident(Seq<char>),
}

impl View for Token {
    type V = SpecToken;

    open spec fn view(&self) -> SpecToken {
        match self {
            Token::Rule => SpecToken::Rule,
            Token::When => SpecToken::When,
            Token::Then => SpecToken::Then,
            Token::For => SpecToken::For,
            Token::And => SpecToken::And,
            Token::Or => SpecToken::Or,
            Token::Alert => SpecToken::Alert,
            Token::Kill => SpecToken::Kill,
            Token::Log => SpecToken::Log,
            Token::Severity => SpecToken::Severity,
            Token::Info => SpecToken::Info,
            Token::Warning => SpecToken::Warning,
            Token::Critical => SpecToken::Critical,
            Token::Process => SpecToken::Process,
            Token::Gte => SpecToken::Gte,
            Token::Lte => SpecToken::Lte,
            Token::Eq => SpecToken::Eq,
            Token::Neq => SpecToken::Neq,
            Token::Gt => SpecToken::Gt,
            Token::Lt => SpecToken::Lt,
            Token::LBrace => SpecToken::LBrace,
            Token::RBrace => SpecToken::RBrace,
            Token::Dot => SpecToken::Dot,
            Token::Percent(d) => SpecToken::Percent(d@),
            Token::Duration(n) => SpecToken::Duration(*n),
            Token::Float(d) => SpecToken::Float(d@),
            Token::Integer(n) => SpecToken::Integer(*n),
            Token::StringLit(s) => SpecToken::StringLit(s@),
            Token::Ident(s) => SpecToken::Ident(s@),
        }
    }
}

/// The view of a token stream.
pub open spec fn view_tokens(v: Seq<Spanned<Token>>) -> Seq<(SpecToken, Span)> {
    v.map_values(|p: Spanned<Token>| (p.0@, p.1))
}

// ── Character classes ──────────────────────────────────────────────

/// Characters skipped between tokens.
pub open spec fn is_space(c: char) -> bool {
    c == ' ' || c == '\t' || c == '\n' || c == '\r'
}

/// Characters that may start an identifier.
pub open spec fn is_ident_start(c: char) -> bool {
    ('a' <= c && c <= 'z') || ('A' <= c && c <= 'Z') || c == '_'
}

/// Characters that may continue an identifier.
pub open spec fn is_ident_char(c: char) -> bool {
    is_ident_start(c) || is_digit(c)
}

/// End of the run of whitespace starting at `i`.
pub open spec fn space_end(s: Seq<char>, i: int) -> int
    decreases s.len() - i,
{
    if i < 0 || i >= s.len() || !is_space(s[i]) { i } else { space_end(s, i + 1) }
}

/// End of the run of digits starting at `i`.
pub open spec fn digits_end(s: Seq<char>, i: int) -> int
    decreases s.len() - i,
{
    if i < 0 || i >= s.len() || !is_digit(s[i]) { i } else { digits_end(s, i + 1) }
}

/// End of the run of identifier characters starting at `i`.
pub open spec fn ident_end(s: Seq<char>, i: int) -> int
    decreases s.len() - i,
{
    if i < 0 || i >= s.len() || !is_ident_char(s[i]) { i } else { ident_end(s, i + 1) }
}

/// Position of the first newline at or after `i` (or the end of the text).
pub open spec fn line_end(s: Seq<char>, i: int) -> int
    decreases s.len() - i,
{
    if i < 0 || i >= s.len() || s[i] == '\n' { i } else { line_end(s, i + 1) }
}

/// Position of the first `"` at or after `i` (or the end of the text).
pub open spec fn quote_end(s: Seq<char>, i: int) -> int
    decreases s.len() - i,
{
    if i < 0 || i >= s.len() || s[i] == '"' { i } else { quote_end(s, i + 1) }
}

/// Seconds per unit of a duration suffix; zero for any other character.
pub open spec fn duration_unit(c: char) -> nat {
    if c == 's' { 1 } else if c == 'm' { 60 } else if c == 'h' { 3600 } else { 0 }
}

/// The token for a word: the keyword it spells, or an identifier.
pub open spec fn word_token(w: Seq<char>) -> SpecToken {
    if w == "rule"@ { SpecToken::Rule }
    else if w == "when"@ { SpecToken::When }
    else if w == "then"@ { SpecToken::Then }
    else if w == "for"@ { SpecToken::For }
    else if w == "and"@ { SpecToken::And }
    else if w == "or"@ { SpecToken::Or }
    else if w == "alert"@ { SpecToken::Alert }
    else if w == "kill"@ { SpecToken::Kill }
    else if w == "log"@ { SpecToken::Log }
    else if w == "severity"@ { SpecToken::Severity }
    else if w == "info"@ { SpecToken::Info }
    else if w == "warning"@ { SpecToken::Warning }
    else if w == "critical"@ { SpecToken::Critical }
    else if w == "process"@ { SpecToken::Process }
    else { SpecToken::Ident(w) }
}

/// One step of the lexer at position `i`.
pub enum LexStep {
    /// Skip to the given position.
    Skip(int),
    /// Produce a token ending at the given position.
    Emit(SpecToken, int),
    /// No token starts here.
    Fail,
}

/// The longest numeric token starting at `i`, which holds a digit.
pub open spec fn number_step(s: Seq<char>, i: int) -> LexStep {
    let j = digits_end(s, i);
    let digits = s.subrange(i, j);
    let v = digits_value(digits);
    if j < s.len() && s[j] == '%' {
        LexStep::Emit(SpecToken::Percent(SpecDecimal { whole: digits, frac: Seq::empty() }), j + 1)
    } else if j < s.len() && duration_unit(s[j]) > 0 {
        if v * duration_unit(s[j]) <= u64::MAX {
            LexStep::Emit(SpecToken::Duration((v * duration_unit(s[j])) as u64), j + 1)
        } else {
            LexStep::Fail
        }
    } else if j + 1 < s.len() && s[j] == '.' && is_digit(s[j + 1]) {
        let k = digits_end(s, j + 1);
        LexStep::Emit(
            SpecToken::Float(SpecDecimal { whole: digits, frac: s.subrange(j + 1, k) }),
            k,
        )
    } else if v <= i64::MAX {
        LexStep::Emit(SpecToken::Integer(v as i64), j)
    } else {
        LexStep::Fail
    }
}

/// A token of one or two characters chosen by `c` and the character after it.
pub open spec fn symbol_step(s: Seq<char>, i: int) -> LexStep {
    let c = s[i];
    let next_is_eq = i + 1 < s.len() && s[i + 1] == '=';
    if c == '>' {
        if next_is_eq { LexStep::Emit(SpecToken::Gte, i + 2) } else { LexStep::Emit(SpecToken::Gt, i + 1) }
    } else if c == '<' {
        if next_is_eq { LexStep::Emit(SpecToken::Lte, i + 2) } else { LexStep::Emit(SpecToken::Lt, i + 1) }
    } else if c == '=' {
        if next_is_eq { LexStep::Emit(SpecToken::Eq, i + 2) } else { LexStep::Fail }
    } else if c == '!' {
        if next_is_eq { LexStep::Emit(SpecToken::Neq, i + 2) } else { LexStep::Fail }
    } else if c == '{' {
        LexStep::Emit(SpecToken::LBrace, i + 1)
    } else if c == '}' {
        LexStep::Emit(SpecToken::RBrace, i + 1)
    } else if c == '.' {
        LexStep::Emit(SpecToken::Dot, i + 1)
    } else {
        LexStep::Fail
    }
}

/// What the lexer does at position `i` (with `0 <= i < s.len()`).
pub open spec fn lex_step(s: Seq<char>, i: int) -> LexStep {
    let c = s[i];
    if is_space(c) {
        LexStep::Skip(space_end(s, i))
    } else if c == '/' {
        if i + 1 < s.len() && s[i + 1] == '/' { LexStep::Skip(line_end(s, i)) } else { LexStep::Fail }
    } else if is_digit(c) {
        number_step(s, i)
    } else if is_ident_start(c) {
        let j = ident_end(s, i);
        LexStep::Emit(word_token(s.subrange(i, j)), j)
    } else if c == '"' {
        let k = quote_end(s, i + 1);
        if k < s.len() { LexStep::Emit(SpecToken::StringLit(s.subrange(i + 1, k)), k + 1) } else { LexStep::Fail }
    } else {
        symbol_step(s, i)
    }
}

/// The span between two character positions, in bytes.
pub open spec fn byte_span(s: Seq<char>, i: int, j: int) -> Span {
    Span { start: byte_offset(s, i) as usize, end: byte_offset(s, j) as usize }
}

/// The tokens of `s` from position `i` on, or the byte offset where lexing fails.
pub open spec fn lex_from(s: Seq<char>, i: int) -> Result<Seq<(SpecToken, Span)>, nat>
    decreases s.len() - i,
{
    if i < 0 || i >= s.len() {
        Ok(Seq::empty())
    } else {
        match lex_step(s, i) {
            LexStep::Skip(e) => if i < e <= s.len() { lex_from(s, e) } else { Err(byte_offset(s, i)) },
            LexStep::Emit(t, e) => if i < e <= s.len() {
                match lex_from(s, e) {
                    Ok(rest) => Ok(seq![(t, byte_span(s, i, e))] + rest),
                    Err(o) => Err(o),
                }
            } else {
                Err(byte_offset(s, i))
            },
            LexStep::Fail => Err(byte_offset(s, i)),
        }
    }
}

/// The tokens of a whole source text, or the byte offset of the first text that starts no token.
pub open spec fn spec_tokenize(s: Seq<char>) -> Result<Seq<(SpecToken, Span)>, nat> {
    lex_from(s, 0)
}

/// The message of a lexing error at byte offset `off`.
pub open spec fn lex_error_message(off: nat) -> Seq<char> {
    "unexpected token at offset "@ + spec_decimal(off)
}

/// `prefix` followed by the outcome `r`.
pub open spec fn prepend_tokens(
    prefix: Seq<(SpecToken, Span)>,
    r: Result<Seq<(SpecToken, Span)>, nat>,
) -> Result<Seq<(SpecToken, Span)>, nat> {
    match r {
        Ok(rest) => Ok(prefix + rest),
        Err(o) => Err(o),
    }
}

/// Byte offsets grow strictly with the character position.
proof fn lemma_byte_offset_increases(s: Seq<char>, i: int, j: int)
    requires
        0 <= i < j <= s.len(),
    ensures
        byte_offset(s, i) < byte_offset(s, j),
    decreases j - i,
{
    lemma_byte_offset_step(s, j - 1);
    if i < j - 1 {
        lemma_byte_offset_increases(s, i, j - 1);
    }
}

/// The tokens lexed from position `i` on have spans that start at or after
/// `i`'s byte offset, are not empty, end within the text, and come in
/// order without overlapping.
proof fn lemma_lex_spans(s: Seq<char>, i: int)
    requires
        0 <= i,
        encode_utf8(s).len() <= usize::MAX,
    ensures
        lex_from(s, i) matches Ok(toks) ==> {
            &&& forall|k: int|
                0 <= k < toks.len() ==> byte_offset(s, i) <= (#[trigger] toks[k]).1.start < toks[k].1.end
                    <= encode_utf8(s).len()
            &&& forall|k: int, l: int| 0 <= k < l < toks.len() ==> (#[trigger] toks[k]).1.end <= (#[trigger] toks[l]).1.start
        },
    decreases s.len() - i,
{
    if i < s.len() {
        match lex_step(s, i) {
            LexStep::Skip(e) => {
                if i < e <= s.len() {
                    lemma_lex_spans(s, e);
                    lemma_byte_offset_increases(s, i, e);
                }
            },
            LexStep::Emit(t, e) => {
                if i < e <= s.len() {
                    lemma_lex_spans(s, e);
                    lemma_byte_offset_increases(s, i, e);
                    lemma_byte_offset_bound(s, e);
                    match lex_from(s, e) {
                        Ok(rest) => {
                            let toks = seq![(t, byte_span(s, i, e))] + rest;
                            assert forall|k: int|
                                0 <= k < toks.len() implies byte_offset(s, i) <= (#[trigger] toks[k]).1.start
                                < toks[k].1.end <= encode_utf8(s).len() by {
                                if k > 0 {
                                    assert(toks[k] == rest[k - 1]);
                                }
                            }
                            assert forall|k: int, l: int|
                                0 <= k < l < toks.len() implies (#[trigger] toks[k]).1.end <= (
                                #[trigger] toks[l]).1.start by {
                                assert(toks[l] == rest[l - 1]);
                                if k > 0 {
                                    assert(toks[k] == rest[k - 1]);
                                }
                            }
                        },
                        Err(_) => {},
                    }
                }
            },
            LexStep::Fail => {},
        }
    }
}

/// Token spans are byte ranges of the source: each is non-empty and lies
/// within the text, and they come in source order without overlapping.
pub proof fn lemma_token_spans_ordered(s: Seq<char>)
    requires
        encode_utf8(s).len() <= usize::MAX,
    ensures
        spec_tokenize(s) matches Ok(toks) ==> {
            &&& forall|k: int|
                0 <= k < toks.len() ==> (#[trigger] toks[k]).1.start < toks[k].1.end <= encode_utf8(s).len()
            &&& forall|k: int, l: int| 0 <= k < l < toks.len() ==> (#[trigger] toks[k]).1.end <= (#[trigger] toks[l]).1.start
        },
{
    lemma_lex_spans(s, 0);
}

/// The characters the rule language allows between tokens.
pub open spec fn is_blank(c: char) -> bool {
    c == ' ' || c == '\t' || c == '\n' || c == '\r'
}

proof fn lemma_space_end_bounds(s: Seq<char>, i: int)
    requires
        0 <= i <= s.len(),
    ensures
        i <= space_end(s, i) <= s.len(),
        i < s.len() && !is_space(s[i]) ==> space_end(s, i) == i,
    decreases s.len() - i,
{
    if i < s.len() && is_space(s[i]) {
        lemma_space_end_bounds(s, i + 1);
    }
}

/// A blank (space, tab, newline or carriage return) between tokens is
/// skipped: lexing from it gives the same tokens, with the same spans, or
/// the same failure, as lexing from the character after it.
pub proof fn lemma_blank_skipped(s: Seq<char>, i: int)
    requires
        0 <= i < s.len(),
        is_blank(s[i]),
    ensures
        lex_from(s, i) == lex_from(s, i + 1),
{
    lemma_space_end_bounds(s, i + 1);
    assert(space_end(s, i) == space_end(s, i + 1));
    if i + 1 < s.len() && is_space(s[i + 1]) {
        assert(lex_step(s, i + 1) == LexStep::Skip(space_end(s, i + 1)));
    }
}

/// A text made only of blanks holds no token.
pub proof fn lemma_blank_text_has_no_tokens(s: Seq<char>)
    requires
        forall|k: int| 0 <= k < s.len() ==> is_blank(#[trigger] s[k]),
    ensures
        spec_tokenize(s) == Ok::<Seq<(SpecToken, Span)>, nat>(Seq::empty()),
{
    lemma_blank_suffix_empty(s, s.len() as int);
}

proof fn lemma_blank_suffix_empty(s: Seq<char>, n: int)
    requires
        0 <= n <= s.len(),
        forall|k: int| 0 <= k < s.len() ==> is_blank(#[trigger] s[k]),
    ensures
        lex_from(s, s.len() - n) == Ok::<Seq<(SpecToken, Span)>, nat>(Seq::empty()),
    decreases n,
{
    if n > 0 {
        lemma_blank_suffix_empty(s, n - 1);
        lemma_blank_skipped(s, s.len() - n);
    }
}

// ── Executable lexer ───────────────────────────────────────────────

fn is_space_char(c: char) -> (b: bool)
    ensures
        b == is_space(c),
{
    c == ' ' || c == '\t' || c == '\n' || c == '\r'
}

fn is_digit_char(c: char) -> (b: bool)
    ensures
        b == is_digit(c),
{
    '0' <= c && c <= '9'
}

fn is_ident_start_char(c: char) -> (b: bool)
    ensures
        b == is_ident_start(c),
{
    ('a' <= c && c <= 'z') || ('A' <= c && c <= 'Z') || c == '_'
}

fn is_ident_char_exec(c: char) -> (b: bool)
    ensures
        b == is_ident_char(c),
{
    is_ident_start_char(c) || is_digit_char(c)
}

fn scan_spaces(chars: &Vec<char>, i: usize) -> (j: usize)
    requires
        i <= chars.len(),
    ensures
        j as int == space_end(chars@, i as int),
        i <= j <= chars.len(),
        j < chars.len() ==> !(is_space(chars@[j as int])),
{
    let mut j = i;
    while j < chars.len() && is_space_char(chars[j])
        invariant
            i <= j <= chars.len(),
            space_end(chars@, i as int) == space_end(chars@, j as int),
        decreases chars.len() - j,
    {
        j = j + 1;
    }
    j
}

fn scan_digits(chars: &Vec<char>, i: usize) -> (j: usize)
    requires
        i <= chars.len(),
    ensures
        j as int == digits_end(chars@, i as int),
        i <= j <= chars.len(),
        j < chars.len() ==> !(is_digit(chars@[j as int])),
        forall|k: int| i <= k < j ==> is_digit(#[trigger] chars@[k]),
{
    let mut j = i;
    while j < chars.len() && is_digit_char(chars[j])
        invariant
            i <= j <= chars.len(),
            digits_end(chars@, i as int) == digits_end(chars@, j as int),
            forall|k: int| i <= k < j ==> is_digit(#[trigger] chars@[k]),
        decreases chars.len() - j,
    {
        j = j + 1;
    }
    j
}

fn scan_ident(chars: &Vec<char>, i: usize) -> (j: usize)
    requires
        i <= chars.len(),
    ensures
        j as int == ident_end(chars@, i as int),
        i <= j <= chars.len(),
        j < chars.len() ==> !(is_ident_char(chars@[j as int])),
{
    let mut j = i;
    while j < chars.len() && is_ident_char_exec(chars[j])
        invariant
            i <= j <= chars.len(),
            ident_end(chars@, i as int) == ident_end(chars@, j as int),
        decreases chars.len() - j,
    {
        j = j + 1;
    }
    j
}

fn scan_line(chars: &Vec<char>, i: usize) -> (j: usize)
    requires
        i <= chars.len(),
    ensures
        j as int == line_end(chars@, i as int),
        i <= j <= chars.len(),
        j < chars.len() ==> !(chars@[j as int] != '\n'),
{
    let mut j = i;
    while j < chars.len() && chars[j] != '\n'
        invariant
            i <= j <= chars.len(),
            line_end(chars@, i as int) == line_end(chars@, j as int),
        decreases chars.len() - j,
    {
        j = j + 1;
    }
    j
}

fn scan_quote(chars: &Vec<char>, i: usize) -> (j: usize)
    requires
        i <= chars.len(),
    ensures
        j as int == quote_end(chars@, i as int),
        i <= j <= chars.len(),
        j < chars.len() ==> !(chars@[j as int] != '"'),
{
    let mut j = i;
    while j < chars.len() && chars[j] != '"'
        invariant
            i <= j <= chars.len(),
            quote_end(chars@, i as int) == quote_end(chars@, j as int),
        decreases chars.len() - j,
    {
        j = j + 1;
    }
    j
}

/// Whether `chars[start..end]` spells `word`.
pub fn word_eq(chars: &Vec<char>, start: usize, end: usize, word: &str) -> (b: bool)
    requires
        start <= end <= chars.len(),
    ensures
        b == (chars@.subrange(start as int, end as int) == word@),
{
    let w = chars_of(word);
    if end - start != w.len() {
        return false;
    }
    let mut k: usize = 0;
    while k < w.len()
        invariant
            start <= end <= chars.len(),
            end - start == w.len(),
            w@ == word@,
            k <= w.len(),
            forall|m: int| 0 <= m < k ==> chars@[start + m] == w@[m],
        decreases w.len() - k,
    {
        if chars[start + k] != w[k] {
            assert(chars@.subrange(start as int, end as int)[k as int] != word@[k as int]);
            return false;
        }
        k = k + 1;
    }
    assert(chars@.subrange(start as int, end as int) =~= word@);
    true
}

fn word_token_exec(chars: &Vec<char>, start: usize, end: usize) -> (t: Token)
    requires
        start <= end <= chars.len(),
    ensures
        t@ == word_token(chars@.subrange(start as int, end as int)),
{
    if word_eq(chars, start, end, "rule") { Token::Rule }
    else if word_eq(chars, start, end, "when") { Token::When }
    else if word_eq(chars, start, end, "then") { Token::Then }
    else if word_eq(chars, start, end, "for") { Token::For }
    else if word_eq(chars, start, end, "and") { Token::And }
    else if word_eq(chars, start, end, "or") { Token::Or }
    else if word_eq(chars, start, end, "alert") { Token::Alert }
    else if word_eq(chars, start, end, "kill") { Token::Kill }
    else if word_eq(chars, start, end, "log") { Token::Log }
    else if word_eq(chars, start, end, "severity") { Token::Severity }
    else if word_eq(chars, start, end, "info") { Token::Info }
    else if word_eq(chars, start, end, "warning") { Token::Warning }
    else if word_eq(chars, start, end, "critical") { Token::Critical }
    else if word_eq(chars, start, end, "process") { Token::Process }
    else { Token::Ident(string_from_range(chars, start, end)) }
}

/// The value of `chars[start..end]` as a decimal number, or `None` when it exceeds `u64::MAX`.
fn digits_u64(chars: &Vec<char>, start: usize, end: usize) -> (r: Option<u64>)
    requires
        start <= end <= chars.len(),
        forall|k: int| start <= k < end ==> is_digit(#[trigger] chars@[k]),
    ensures
        r matches Some(v) ==> v as nat == digits_value(chars@.subrange(start as int, end as int)),
        r is None ==> digits_value(chars@.subrange(start as int, end as int)) > u64::MAX,
{
    let mut v: u64 = 0;
    let mut big = false;
    let mut k = start;
    assert(chars@.subrange(start as int, start as int) =~= Seq::<char>::empty());
    while k < end
        invariant
            start <= k <= end <= chars.len(),
            forall|m: int| start <= m < end ==> is_digit(#[trigger] chars@[m]),
            !big ==> v as nat == digits_value(chars@.subrange(start as int, k as int)),
            big ==> digits_value(chars@.subrange(start as int, k as int)) > u64::MAX,
        decreases end - k,
    {
        let c = chars[k];
        let ghost prev = chars@.subrange(start as int, k as int);
        assert(chars@.subrange(start as int, k + 1 as int).drop_last() =~= prev);
        assert(chars@.subrange(start as int, k + 1 as int).last() == c);
        assert(is_digit(chars@[k as int]));
        let d = (c as u32 - '0' as u32) as u64;
        if !big {
            if v > (u64::MAX - d) / 10 {
                big = true;
            } else {
                v = v * 10 + d;
            }
        }
        k = k + 1;
    }
    if big { None } else { Some(v) }
}

/// One executable lexer step.
enum Step {
    Skip(usize),
    Emit(Token, usize),
    Fail,
}

spec fn step_matches(st: Step, ls: LexStep) -> bool {
    match (st, ls) {
        (Step::Skip(e), LexStep::Skip(f)) => e as int == f,
        (Step::Emit(t, e), LexStep::Emit(u, f)) => t@ == u && e as int == f,
        (Step::Fail, LexStep::Fail) => true,
        _ => false,
    }
}

fn number_exec(chars: &Vec<char>, i: usize) -> (st: Step)
    requires
        i < chars.len(),
        is_digit(chars@[i as int]),
    ensures
        step_matches(st, number_step(chars@, i as int)),
        st matches Step::Emit(_, e) ==> i < e <= chars.len(),
{
    let ghost s = chars@;
    let n = chars.len();
    let j = scan_digits(chars, i);
    let digits = digits_u64(chars, i, j);
    if j < n && chars[j] == '%' {
        let whole = string_from_range(chars, i, j);
        let frac = String::new();
        Step::Emit(Token::Percent(Decimal { whole, frac }), j + 1)
    } else if j < n && (chars[j] == 's' || chars[j] == 'm' || chars[j] == 'h') {
        let unit: u64 = if chars[j] == 's' { 1 } else if chars[j] == 'm' { 60 } else { 3600 };
        assert(unit == duration_unit(s[j as int]));
        match digits {
            Some(v) => {
                if v <= u64::MAX / unit {
                    proof {
                        assert(v * unit <= u64::MAX) by (nonlinear_arith)
                            requires v <= u64::MAX / unit, unit > 0;
                    }
                    Step::Emit(Token::Duration(v * unit), j + 1)
                } else {
                    proof {
                        assert(v * unit > u64::MAX) by (nonlinear_arith)
                            requires v > u64::MAX / unit, unit > 0;
                    }
                    Step::Fail
                }
            },
            None => {
                proof {
                    let dv = digits_value(s.subrange(i as int, j as int));
                    assert(dv * unit >= dv) by (nonlinear_arith)
                        requires unit >= 1;
                }
                Step::Fail
            },
        }
    } else if j < n && j + 1 < n && chars[j] == '.' && is_digit_char(chars[j + 1]) {
        let k = scan_digits(chars, j + 1);
        let whole = string_from_range(chars, i, j);
        let frac = string_from_range(chars, j + 1, k);
        Step::Emit(Token::Float(Decimal { whole, frac }), k)
    } else {
        match digits {
            Some(v) => {
                if v <= i64::MAX as u64 {
                    Step::Emit(Token::Integer(v as i64), j)
                } else {
                    Step::Fail
                }
            },
            None => Step::Fail,
        }
    }
}

fn symbol_exec(chars: &Vec<char>, i: usize) -> (st: Step)
    requires
        i < chars.len(),
    ensures
        step_matches(st, symbol_step(chars@, i as int)),
        st matches Step::Emit(_, e) ==> i < e <= chars.len(),
{
    let c = chars[i];
    let next_is_eq = i + 1 < chars.len() && chars[i + 1] == '=';
    if c == '>' {
        if next_is_eq { Step::Emit(Token::Gte, i + 2) } else { Step::Emit(Token::Gt, i + 1) }
    } else if c == '<' {
        if next_is_eq { Step::Emit(Token::Lte, i + 2) } else { Step::Emit(Token::Lt, i + 1) }
    } else if c == '=' {
        if next_is_eq { Step::Emit(Token::Eq, i + 2) } else { Step::Fail }
    } else if c == '!' {
        if next_is_eq { Step::Emit(Token::Neq, i + 2) } else { Step::Fail }
    } else if c == '{' {
        Step::Emit(Token::LBrace, i + 1)
    } else if c == '}' {
        Step::Emit(Token::RBrace, i + 1)
    } else if c == '.' {
        Step::Emit(Token::Dot, i + 1)
    } else {
        Step::Fail
    }
}

fn step_exec(chars: &Vec<char>, i: usize) -> (st: Step)
    requires
        i < chars.len(),
    ensures
        step_matches(st, lex_step(chars@, i as int)),
        st matches Step::Emit(_, e) ==> i < e <= chars.len(),
        st matches Step::Skip(e) ==> i < e <= chars.len(),
{
    let c = chars[i];
    if is_space_char(c) {
        Step::Skip(scan_spaces(chars, i))
    } else if c == '/' {
        if i + 1 < chars.len() && chars[i + 1] == '/' {
            Step::Skip(scan_line(chars, i))
        } else {
            Step::Fail
        }
    } else if is_digit_char(c) {
        number_exec(chars, i)
    } else if is_ident_start_char(c) {
        let j = scan_ident(chars, i);
        Step::Emit(word_token_exec(chars, i, j), j)
    } else if c == '"' {
        let k = scan_quote(chars, i + 1);
        if k < chars.len() {
            Step::Emit(Token::StringLit(string_from_range(chars, i + 1, k)), k + 1)
        } else {
            Step::Fail
        }
    } else {
        symbol_exec(chars, i)
    }
}

/// Advances a byte offset from character position `i` to `e`.
fn advance_bytes(chars: &Vec<char>, i: usize, e: usize, b: usize) -> (r: usize)
    requires
        i <= e <= chars.len(),
        b as nat == byte_offset(chars@, i as int),
        encode_utf8(chars@).len() <= usize::MAX,
    ensures
        r as nat == byte_offset(chars@, e as int),
{
    let mut k = i;
    let mut r = b;
    while k < e
        invariant
            i <= k <= e <= chars.len(),
            r as nat == byte_offset(chars@, k as int),
            encode_utf8(chars@).len() <= usize::MAX,
        decreases e - k,
    {
        proof {
            lemma_byte_offset_step(chars@, k as int);
            lemma_byte_offset_bound(chars@, k + 1);
        }
        r = r + char_utf8_width(chars[k]);
        k = k + 1;
    }
    r
}

/// Tokenize source into a sequence of spanned tokens.
///
/// Fails with the byte offset of the first text that starts no token.
pub fn tokenize(source: &str) -> (res: Result<Vec<Spanned<Token>>, ScriptError>)
    requires
        encode_utf8(source@).len() <= usize::MAX,
    ensures
        match spec_tokenize(source@) {
            Ok(toks) => res matches Ok(v) && view_tokens(v@) == toks,
            Err(off) => res matches Err(ScriptError::Lex(m)) && m@ == lex_error_message(off),
        },
{
    let chars = chars_of(source);
    let ghost s = chars@;
    let n = chars.len();
    let mut tokens: Vec<Spanned<Token>> = Vec::new();
    let mut i: usize = 0;
    let mut b: usize = 0;
    assert(s.subrange(0, 0) =~= Seq::<char>::empty());
    assert(view_tokens(tokens@) =~= Seq::<(SpecToken, Span)>::empty());
    assert(prepend_tokens(view_tokens(tokens@), lex_from(s, 0)) =~= lex_from(s, 0)) by {
        match lex_from(s, 0) {
            Ok(r) => { assert(Seq::<(SpecToken, Span)>::empty() + r =~= r); },
            Err(_) => {},
        }
    }
    while i < n
        invariant
            chars@ == s,
            s == source@,
            n == s.len(),
            i <= n,
            b as nat == byte_offset(s, i as int),
            encode_utf8(s).len() <= usize::MAX,
            lex_from(s, 0) == prepend_tokens(view_tokens(tokens@), lex_from(s, i as int)),
        decreases n - i,
    {
        let st = step_exec(&chars, i);
        match st {
            Step::Skip(e) => {
                b = advance_bytes(&chars, i, e, b);
                i = e;
            },
            Step::Emit(t, e) => {
                let e_bytes = advance_bytes(&chars, i, e, b);
                proof {
                    lemma_byte_offset_bound(s, e as int);
                }
                let ghost old_toks = tokens@;
                let span = Span { start: b, end: e_bytes };
                tokens.push((t, span));
                proof {
                    assert(view_tokens(tokens@) =~= view_tokens(old_toks).push((t@, span)));
                    assert(span == byte_span(s, i as int, e as int));
                    match lex_from(s, e as int) {
                        Ok(r) => {
                            assert(view_tokens(old_toks) + (seq![(t@, span)] + r)
                                =~= view_tokens(tokens@) + r);
                        },
                        Err(_) => {},
                    }
                }
                b = e_bytes;
                i = e;
            },
            Step::Fail => {
                let mut m = String::new();
                push_str(&mut m, "unexpected token at offset ");
                push_decimal(&mut m, b as u64);
                return Err(ScriptError::Lex(m));
            },
        }
    }
    proof {
        assert(view_tokens(tokens@) + Seq::<(SpecToken, Span)>::empty() =~= view_tokens(tokens@));
    }
    Ok(tokens)
}

} // verus!
