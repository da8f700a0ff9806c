//! Recursive descent parser: token stream to syntax tree.
//!
//! Grammar (precedence low to high): or, and, not, comparison.
//! Error recovery: after a failed rule, skip tokens until the next `rule`
//! keyword. Every error is recorded; the result is `Ok` only when there
//! were none.
use vstd::prelude::*;

use crate::script::ast::{
    actions_view, cmp_op_text, rules_view, Action, CmpOp, Condition, Expr, Literal, Rule, RuleFile, Severity, SpecAction,
    SpecCondition, SpecExpr, SpecLiteral, SpecRule,
};
use crate::script::lexer::{lex_from, spec_tokenize, view_tokens, Decimal, Span, SpecDecimal, SpecToken, Spanned, Token};
use crate::script::strings::{
    chars_of, copy_string, push_signed_decimal, push_decimal, push_str, spec_decimal,
    spec_signed_decimal, string_is,
};

verus! {

/// A parse error with location and message.
#[derive(Debug, Clone)]
pub struct ParseError {
    pub message: String,
    pub span: Span,
}

/// View of a [`ParseError`].
pub struct SpecParseError {
    pub message: Seq<char>,
    pub span: Span,
}

impl View for ParseError {
    type V = SpecParseError;

    open spec fn view(&self) -> SpecParseError {
        SpecParseError { message: self.message@, span: self.span }
    }
}

/// The view of a list of parse errors.
pub open spec fn errors_view(v: Seq<ParseError>) -> Seq<SpecParseError> {
    v.map_values(|e: ParseError| e@)
}

/// The printed form of a parse error: `parse error at <start>..<end>: <message>`.
pub open spec fn parse_error_text(e: SpecParseError) -> Seq<char> {
    "parse error at "@ + spec_decimal(e.span.start as nat) + ".."@ + spec_decimal(
        e.span.end as nat,
    ) + ": "@ + e.message
}

impl ParseError {
    /// The printed form of the error.
    pub fn to_string(&self) -> (s: String)
        ensures
            s@ == parse_error_text(self@),
    {
        let mut s = String::new();
        push_str(&mut s, "parse error at ");
        push_decimal(&mut s, self.span.start as u64);
        push_str(&mut s, "..");
        push_decimal(&mut s, self.span.end as u64);
        push_str(&mut s, ": ");
        push_str(&mut s, self.message.as_str());
        s
    }
}

// ── The grammar as a function on token sequences ───────────────────

/// Token views.
pub type Toks = Seq<(SpecToken, Span)>;

/// Parser state: the next token position and the errors recorded so far.
pub struct PState {
    pub pos: int,
    pub errs: Seq<SpecParseError>,
}

/// The token at `pos`, if any.
pub open spec fn peek(t: Toks, pos: int) -> Option<SpecToken> {
    if 0 <= pos < t.len() { Some(t[pos].0) } else { None }
}

/// Byte offset just past the last token.
pub open spec fn eof_offset(t: Toks) -> usize {
    if t.len() > 0 { t.last().1.end } else { 0 }
}

/// The span reported for an error at `pos`: the token's span, or an empty span at the end.
pub open spec fn cur_span(t: Toks, pos: int) -> Span {
    if 0 <= pos < t.len() { t[pos].1 } else { Span { start: eof_offset(t), end: eof_offset(t) } }
}

/// `w` without leading zeros, keeping at least one digit.
pub open spec fn strip_leading_zeros(w: Seq<char>) -> Seq<char>
    decreases w.len(),
{
    if w.len() > 1 && w[0] == '0' { strip_leading_zeros(w.drop_first()) } else { w }
}

/// `f` without trailing zeros.
pub open spec fn strip_trailing_zeros(f: Seq<char>) -> Seq<char>
    decreases f.len(),
{
    if f.len() > 0 && f.last() == '0' { strip_trailing_zeros(f.drop_last()) } else { f }
}

/// Shortest printed form of a decimal numeral: no leading zeros, no
/// trailing fractional zeros, no point when the fraction is zero.
pub open spec fn fmt_decimal(d: SpecDecimal) -> Seq<char> {
    let w = strip_leading_zeros(d.whole);
    let f = strip_trailing_zeros(d.frac);
    if f.len() == 0 { w } else { w + "."@ + f }
}

/// How a token is named in error messages.
pub open spec fn fmt_token(t: SpecToken) -> Seq<char> {
    match t {
        SpecToken::Rule => "'rule'"@,
        SpecToken::When => "'when'"@,
        SpecToken::Then => "'then'"@,
        SpecToken::For => "'for'"@,
        SpecToken::And => "'and'"@,
        SpecToken::Or => "'or'"@,
        SpecToken::Alert => "'alert'"@,
        SpecToken::Kill => "'kill'"@,
        SpecToken::Log => "'log'"@,
        SpecToken::Severity => "'severity'"@,
        SpecToken::Info => "'info'"@,
        SpecToken::Warning => "'warning'"@,
        SpecToken::Critical => "'critical'"@,
        SpecToken::Process => "'process'"@,
        SpecToken::Gte => "'>='"@,
        SpecToken::Lte => "'<='"@,
        SpecToken::Eq => "'=='"@,
        SpecToken::Neq => "'!='"@,
        SpecToken::Gt => "'>'"@,
        SpecToken::Lt => "'<'"@,
        SpecToken::LBrace => "'{'"@,
        SpecToken::RBrace => "'}'"@,
        SpecToken::Dot => "'.'"@,
        SpecToken::Percent(d) => fmt_decimal(d) + "%"@,
        SpecToken::Duration(n) => spec_decimal(n as nat) + "s"@,
        SpecToken::Float(d) => fmt_decimal(d),
        SpecToken::Integer(n) => spec_signed_decimal(n as int),
        SpecToken::StringLit(s) => "\""@ + s + "\""@,
        SpecToken::Ident(s) => "identifier '"@ + s + "'"@,
    }
}

/// The token at `pos` as named in error messages.
pub open spec fn found(t: Toks, pos: int) -> Seq<char> {
    match peek(t, pos) {
        Some(tok) => fmt_token(tok),
        None => "end of input"@,
    }
}

/// Records an error at the current position.
pub open spec fn with_error(t: Toks, st: PState, message: Seq<char>) -> PState {
    PState {
        pos: st.pos,
        errs: st.errs.push(SpecParseError { message, span: cur_span(t, st.pos) }),
    }
}

/// Moves past the current token.
pub open spec fn adv(st: PState) -> PState {
    PState { pos: st.pos + 1, errs: st.errs }
}

/// Outcome of a grammar step: the value or failure, and the new state.
pub type Out<T> = (Result<T, ()>, PState);

/// `expected` must be the current token.
pub open spec fn p_expect(t: Toks, st: PState, expected: SpecToken) -> Out<Span> {
    if peek(t, st.pos) == Some(expected) {
        (Ok(t[st.pos].1), adv(st))
    } else {
        (Err(()), with_error(t, st, "expected "@ + fmt_token(expected) + ", found "@ + found(t, st.pos)))
    }
}

/// The field name after `object.`.
pub open spec fn p_field(t: Toks, st: PState, object: Seq<char>) -> Out<SpecExpr> {
    match peek(t, st.pos) {
        Some(SpecToken::Ident(f)) => (Ok(SpecExpr::FieldAccess { object, field: f }), adv(st)),
        _ => (Err(()), with_error(t, st, "expected field name after '.', found "@ + found(t, st.pos))),
    }
}

/// `expr := process . ident | ident . ident | literal`.
pub open spec fn p_expr(t: Toks, st: PState) -> Out<SpecExpr> {
    match peek(t, st.pos) {
        Some(SpecToken::Process) => {
            let (r, st2) = p_expect(t, adv(st), SpecToken::Dot);
            match r {
                Ok(_) => p_field(t, st2, "process"@),
                Err(_) => (Err(()), st2),
            }
        },
        Some(SpecToken::Ident(o)) => {
            let st1 = adv(st);
            if peek(t, st1.pos) == Some(SpecToken::Dot) {
                p_field(t, adv(st1), o)
            } else {
                (Err(()), with_error(t, st1, "expected '.' after identifier '"@ + o + "'"@))
            }
        },
        Some(SpecToken::Integer(n)) => (Ok(SpecExpr::Literal(SpecLiteral::Int(n))), adv(st)),
        Some(SpecToken::Float(d)) => (Ok(SpecExpr::Literal(SpecLiteral::Float(d))), adv(st)),
        Some(SpecToken::Percent(d)) => (Ok(SpecExpr::Literal(SpecLiteral::Percent(d))), adv(st)),
        Some(SpecToken::Duration(n)) => (Ok(SpecExpr::Literal(SpecLiteral::Duration(n))), adv(st)),
        Some(SpecToken::StringLit(s)) => (Ok(SpecExpr::Literal(SpecLiteral::Str(s))), adv(st)),
        _ => (Err(()), with_error(t, st, "expected expression, found "@ + found(t, st.pos))),
    }
}

/// A comparison operator.
pub open spec fn p_cmp_op(t: Toks, st: PState) -> Out<CmpOp> {
    match peek(t, st.pos) {
        Some(SpecToken::Gt) => (Ok(CmpOp::Gt), adv(st)),
        Some(SpecToken::Lt) => (Ok(CmpOp::Lt), adv(st)),
        Some(SpecToken::Gte) => (Ok(CmpOp::Gte), adv(st)),
        Some(SpecToken::Lte) => (Ok(CmpOp::Lte), adv(st)),
        Some(SpecToken::Eq) => (Ok(CmpOp::Eq), adv(st)),
        Some(SpecToken::Neq) => (Ok(CmpOp::Neq), adv(st)),
        _ => (Err(()), with_error(t, st, "expected comparison operator, found "@ + found(t, st.pos))),
    }
}

/// `comparison := expr op expr`.
pub open spec fn p_comparison(t: Toks, st: PState) -> Out<SpecCondition> {
    let (l, st1) = p_expr(t, st);
    match l {
        Err(_) => (Err(()), st1),
        Ok(left) => {
            let (o, st2) = p_cmp_op(t, st1);
            match o {
                Err(_) => (Err(()), st2),
                Ok(op) => {
                    let (r, st3) = p_expr(t, st2);
                    match r {
                        Err(_) => (Err(()), st3),
                        Ok(right) => (Ok(SpecCondition::Comparison { left, op, right }), st3),
                    }
                },
            }
        },
    }
}

/// Whether the current token is the identifier `not`.
pub open spec fn at_not(t: Toks, pos: int) -> bool {
    match peek(t, pos) {
        Some(SpecToken::Ident(s)) => s == "not"@,
        _ => false,
    }
}

/// `not := "not" not | comparison`.
pub open spec fn p_not(t: Toks, st: PState) -> Out<SpecCondition>
    decreases t.len() - st.pos,
{
    if at_not(t, st.pos) {
        let (r, st2) = p_not(t, adv(st));
        match r {
            Ok(c) => (Ok(SpecCondition::Not(Box::new(c))), st2),
            Err(_) => (Err(()), st2),
        }
    } else {
        p_comparison(t, st)
    }
}

/// The `and`-chain after its first operand `left`.
pub open spec fn p_and_rest(t: Toks, st: PState, left: SpecCondition) -> Out<SpecCondition>
    decreases t.len() - st.pos,
{
    if peek(t, st.pos) == Some(SpecToken::And) {
        let (r, st2) = p_not(t, adv(st));
        match r {
            Err(_) => (Err(()), st2),
            Ok(right) => if st.pos < st2.pos <= t.len() {
                p_and_rest(t, st2, SpecCondition::And(Box::new(left), Box::new(right)))
            } else {
                (Err(()), st2)
            },
        }
    } else {
        (Ok(left), st)
    }
}

/// `and := not ("and" not)*`, left-associative.
pub open spec fn p_and(t: Toks, st: PState) -> Out<SpecCondition> {
    let (r, st1) = p_not(t, st);
    match r {
        Err(_) => (Err(()), st1),
        Ok(left) => p_and_rest(t, st1, left),
    }
}

/// The `or`-chain after its first operand `left`.
pub open spec fn p_or_rest(t: Toks, st: PState, left: SpecCondition) -> Out<SpecCondition>
    decreases t.len() - st.pos,
{
    if peek(t, st.pos) == Some(SpecToken::Or) {
        let (r, st2) = p_and(t, adv(st));
        match r {
            Err(_) => (Err(()), st2),
            Ok(right) => if st.pos < st2.pos <= t.len() {
                p_or_rest(t, st2, SpecCondition::Or(Box::new(left), Box::new(right)))
            } else {
                (Err(()), st2)
            },
        }
    } else {
        (Ok(left), st)
    }
}

/// `or := and ("or" and)*`, left-associative.
pub open spec fn p_or(t: Toks, st: PState) -> Out<SpecCondition> {
    let (r, st1) = p_and(t, st);
    match r {
        Err(_) => (Err(()), st1),
        Ok(left) => p_or_rest(t, st1, left),
    }
}

/// `condition := or ("for" duration)?`.
pub open spec fn p_condition(t: Toks, st: PState) -> Out<SpecCondition> {
    let (r, st1) = p_or(t, st);
    match r {
        Err(_) => (Err(()), st1),
        Ok(cond) => if peek(t, st1.pos) == Some(SpecToken::For) {
            let st2 = adv(st1);
            match peek(t, st2.pos) {
                Some(SpecToken::Duration(secs)) => (
                    Ok(SpecCondition::Duration { condition: Box::new(cond), seconds: secs }),
                    adv(st2),
                ),
                _ => (Err(()), with_error(t, st2, "expected duration after 'for', found "@ + found(t, st2.pos))),
            }
        } else {
            (Ok(cond), st1)
        },
    }
}

/// A string literal, described as `context` in the error message.
pub open spec fn p_string(t: Toks, st: PState, context: Seq<char>) -> Out<Seq<char>> {
    match peek(t, st.pos) {
        Some(SpecToken::StringLit(s)) => (Ok(s), adv(st)),
        _ => (Err(()), with_error(t, st, "expected string for "@ + context + ", found "@ + found(t, st.pos))),
    }
}

/// `severity := info | warning | critical`.
pub open spec fn p_severity(t: Toks, st: PState) -> Out<Severity> {
    match peek(t, st.pos) {
        Some(SpecToken::Info) => (Ok(Severity::Info), adv(st)),
        Some(SpecToken::Warning) => (Ok(Severity::Warning), adv(st)),
        Some(SpecToken::Critical) => (Ok(Severity::Critical), adv(st)),
        _ => (Err(()), with_error(t, st, "expected severity (info, warning, critical), found "@ + found(t, st.pos))),
    }
}

/// `action := alert string severity sev | kill | log string`.
pub open spec fn p_action(t: Toks, st: PState) -> Out<SpecAction> {
    match peek(t, st.pos) {
        Some(SpecToken::Alert) => {
            let (m, st2) = p_string(t, adv(st), "alert message"@);
            match m {
                Err(_) => (Err(()), st2),
                Ok(message) => {
                    let (k, st3) = p_expect(t, st2, SpecToken::Severity);
                    match k {
                        Err(_) => (Err(()), st3),
                        Ok(_) => {
                            let (s, st4) = p_severity(t, st3);
                            match s {
                                Err(_) => (Err(()), st4),
                                Ok(severity) => (Ok(SpecAction::Alert { message, severity }), st4),
                            }
                        },
                    }
                },
            }
        },
        Some(SpecToken::Kill) => (Ok(SpecAction::Kill), adv(st)),
        Some(SpecToken::Log) => {
            let (m, st2) = p_string(t, adv(st), "log message"@);
            match m {
                Err(_) => (Err(()), st2),
                Ok(message) => (Ok(SpecAction::Log { message }), st2),
            }
        },
        _ => (Err(()), with_error(t, st, "expected action, found "@ + found(t, st.pos))),
    }
}

/// Whether the current token starts an action.
pub open spec fn at_action(t: Toks, pos: int) -> bool {
    match peek(t, pos) {
        Some(SpecToken::Alert) | Some(SpecToken::Kill) | Some(SpecToken::Log) => true,
        _ => false,
    }
}

/// Actions after `acc`, for as long as the next token starts one.
pub open spec fn p_actions(t: Toks, st: PState, acc: Seq<SpecAction>) -> Out<Seq<SpecAction>>
    decreases t.len() - st.pos,
{
    if at_action(t, st.pos) {
        let (r, st2) = p_action(t, st);
        match r {
            Err(_) => (Err(()), st2),
            Ok(a) => if st.pos < st2.pos <= t.len() {
                p_actions(t, st2, acc.push(a))
            } else {
                (Err(()), st2)
            },
        }
    } else {
        (Ok(acc), st)
    }
}

/// The message when `then` is followed by no action.
pub open spec fn no_action_message() -> Seq<char> {
    "expected at least one action after 'then'"@
}

/// The end of a rule once its actions were parsed with outcome `acts`.
pub open spec fn p_rule_tail(
    t: Toks,
    acts: Out<Seq<SpecAction>>,
    name: Seq<char>,
    condition: SpecCondition,
    start: Span,
) -> Out<SpecRule> {
    let (a, st7) = acts;
    match a {
        Err(_) => (Err(()), st7),
        Ok(actions) => if actions.len() == 0 {
            (Err(()), with_error(t, st7, no_action_message()))
        } else {
            let (r8, st8) = p_expect(t, st7, SpecToken::RBrace);
            match r8 {
                Err(_) => (Err(()), st8),
                Ok(end) => (
                    Ok(SpecRule {
                        name,
                        condition,
                        actions,
                        span: Span { start: start.start, end: end.end },
                    }),
                    st8,
                ),
            }
        },
    }
}

/// The part of a rule after its name: `{ when cond then actions }`.
pub open spec fn p_rule_body(t: Toks, st: PState, name: Seq<char>, start: Span) -> Out<SpecRule> {
    let (r3, st3) = p_expect(t, st, SpecToken::LBrace);
    let (r4, st4) = p_expect(t, st3, SpecToken::When);
    let (c, st5) = p_condition(t, st4);
    if r3 is Err {
        (Err(()), st3)
    } else if r4 is Err {
        (Err(()), st4)
    } else {
        match c {
            Err(_) => (Err(()), st5),
            Ok(condition) => {
                let (r6, st6) = p_expect(t, st5, SpecToken::Then);
                if r6 is Err {
                    (Err(()), st6)
                } else {
                    p_rule_tail(t, p_actions(t, st6, Seq::empty()), name, condition, start)
                }
            },
        }
    }
}

/// `rule := "rule" ident { when cond then action+ }`.
pub open spec fn p_rule(t: Toks, st: PState) -> Out<SpecRule> {
    let (r1, st1) = p_expect(t, st, SpecToken::Rule);
    match r1 {
        Err(_) => (Err(()), st1),
        Ok(start) => match peek(t, st1.pos) {
            Some(SpecToken::Ident(name)) => p_rule_body(t, adv(st1), name, start),
            _ => (Err(()), with_error(t, st1, "expected rule name, found "@ + found(t, st1.pos))),
        },
    }
}

/// The first position at or after `pos` holding `rule` (or the end).
pub open spec fn recover(t: Toks, pos: int) -> int
    decreases t.len() - pos,
{
    if 0 <= pos < t.len() && !(t[pos].0 is Rule) { recover(t, pos + 1) } else { pos }
}

/// Rules after `acc` until the tokens run out, recovering after each failed rule.
pub open spec fn p_rules(t: Toks, st: PState, acc: Seq<SpecRule>) -> (Seq<SpecRule>, PState)
    decreases t.len() - st.pos,
{
    if 0 <= st.pos < t.len() {
        let (r, st1) = p_rule(t, st);
        let st2 = match r {
            Ok(_) => st1,
            Err(_) => PState { pos: recover(t, st1.pos), errs: st1.errs },
        };
        let acc2 = match r {
            Ok(rule) => acc.push(rule),
            Err(_) => acc,
        };
        if st.pos < st2.pos <= t.len() { p_rules(t, st2, acc2) } else { (acc2, st2) }
    } else {
        (acc, st)
    }
}

/// The rules of a token stream, or every error met while parsing it.
pub open spec fn spec_parse(t: Toks) -> Result<Seq<SpecRule>, Seq<SpecParseError>> {
    let (rules, st) = p_rules(t, PState { pos: 0, errs: Seq::empty() }, Seq::empty());
    if st.errs.len() == 0 { Ok(rules) } else { Err(st.errs) }
}


// ── Progress of the grammar functions ──────────────────────────────

/// The position a grammar step leaves the parser at stays within the tokens and never moves back.
pub open spec fn moves_forward(t: Toks, st: PState, st2: PState) -> bool {
    st.pos <= st2.pos <= t.len()
}

proof fn lemma_expect(t: Toks, st: PState, e: SpecToken)
    requires 0 <= st.pos <= t.len(),
    ensures
        moves_forward(t, st, p_expect(t, st, e).1),
        p_expect(t, st, e).0 is Ok ==> p_expect(t, st, e).1.pos == st.pos + 1,
        p_expect(t, st, e).0 is Err ==> p_expect(t, st, e).1.pos == st.pos,
{
}

proof fn lemma_expr(t: Toks, st: PState)
    requires 0 <= st.pos <= t.len(),
    ensures moves_forward(t, st, p_expr(t, st).1),
{
    match peek(t, st.pos) {
        Some(SpecToken::Process) => { lemma_expect(t, adv(st), SpecToken::Dot); },
        _ => {},
    }
}

proof fn lemma_comparison(t: Toks, st: PState)
    requires 0 <= st.pos <= t.len(),
    ensures moves_forward(t, st, p_comparison(t, st).1),
{
    lemma_expr(t, st);
    let st1 = p_expr(t, st).1;
    let st2 = p_cmp_op(t, st1).1;
    lemma_expr(t, st2);
}

proof fn lemma_not(t: Toks, st: PState)
    requires 0 <= st.pos <= t.len(),
    ensures moves_forward(t, st, p_not(t, st).1),
    decreases t.len() - st.pos,
{
    if at_not(t, st.pos) {
        lemma_not(t, adv(st));
    } else {
        lemma_comparison(t, st);
    }
}

proof fn lemma_and_rest(t: Toks, st: PState, left: SpecCondition)
    requires 0 <= st.pos <= t.len(),
    ensures moves_forward(t, st, p_and_rest(t, st, left).1),
    decreases t.len() - st.pos,
{
    if peek(t, st.pos) == Some(SpecToken::And) {
        lemma_not(t, adv(st));
        let (r, st2) = p_not(t, adv(st));
        if let Ok(right) = r {
            lemma_and_rest(t, st2, SpecCondition::And(Box::new(left), Box::new(right)));
        }
    }
}

proof fn lemma_and(t: Toks, st: PState)
    requires 0 <= st.pos <= t.len(),
    ensures moves_forward(t, st, p_and(t, st).1),
{
    lemma_not(t, st);
    let (r, st1) = p_not(t, st);
    if let Ok(left) = r {
        lemma_and_rest(t, st1, left);
    }
}

proof fn lemma_or_rest(t: Toks, st: PState, left: SpecCondition)
    requires 0 <= st.pos <= t.len(),
    ensures moves_forward(t, st, p_or_rest(t, st, left).1),
    decreases t.len() - st.pos,
{
    if peek(t, st.pos) == Some(SpecToken::Or) {
        lemma_and(t, adv(st));
        let (r, st2) = p_and(t, adv(st));
        if let Ok(right) = r {
            lemma_or_rest(t, st2, SpecCondition::Or(Box::new(left), Box::new(right)));
        }
    }
}

proof fn lemma_or(t: Toks, st: PState)
    requires 0 <= st.pos <= t.len(),
    ensures moves_forward(t, st, p_or(t, st).1),
{
    lemma_and(t, st);
    let (r, st1) = p_and(t, st);
    if let Ok(left) = r {
        lemma_or_rest(t, st1, left);
    }
}

proof fn lemma_condition(t: Toks, st: PState)
    requires 0 <= st.pos <= t.len(),
    ensures moves_forward(t, st, p_condition(t, st).1),
{
    lemma_or(t, st);
}

proof fn lemma_action(t: Toks, st: PState)
    requires 0 <= st.pos <= t.len(),
    ensures
        moves_forward(t, st, p_action(t, st).1),
        p_action(t, st).0 is Ok ==> p_action(t, st).1.pos > st.pos,
{
    match peek(t, st.pos) {
        Some(SpecToken::Alert) => {
            let (m, st2) = p_string(t, adv(st), "alert message"@);
            lemma_expect(t, st2, SpecToken::Severity);
        },
        _ => {},
    }
}

proof fn lemma_actions(t: Toks, st: PState, acc: Seq<SpecAction>)
    requires 0 <= st.pos <= t.len(),
    ensures moves_forward(t, st, p_actions(t, st, acc).1),
    decreases t.len() - st.pos,
{
    if at_action(t, st.pos) {
        lemma_action(t, st);
        let (r, st2) = p_action(t, st);
        if let Ok(a) = r {
            if st.pos < st2.pos <= t.len() {
                lemma_actions(t, st2, acc.push(a));
            }
        }
    }
}

proof fn lemma_rule(t: Toks, st: PState)
    requires 0 <= st.pos <= t.len(),
    ensures
        moves_forward(t, st, p_rule(t, st).1),
        p_rule(t, st).1.pos == st.pos ==> !(peek(t, st.pos) matches Some(SpecToken::Rule)),
{
    lemma_expect(t, st, SpecToken::Rule);
    let (r1, st1) = p_expect(t, st, SpecToken::Rule);
    if let Ok(start) = r1 {
        if let Some(SpecToken::Ident(name)) = peek(t, st1.pos) {
            let b = adv(st1);
            lemma_expect(t, b, SpecToken::LBrace);
            let st3 = p_expect(t, b, SpecToken::LBrace).1;
            lemma_expect(t, st3, SpecToken::When);
            let st4 = p_expect(t, st3, SpecToken::When).1;
            lemma_condition(t, st4);
            let st5 = p_condition(t, st4).1;
            lemma_expect(t, st5, SpecToken::Then);
            let st6 = p_expect(t, st5, SpecToken::Then).1;
            lemma_actions(t, st6, Seq::empty());
            let st7 = p_actions(t, st6, Seq::empty()).1;
            lemma_expect(t, st7, SpecToken::RBrace);
        }
    }
}

proof fn lemma_recover(t: Toks, pos: int)
    requires 0 <= pos <= t.len(),
    ensures
        pos <= recover(t, pos) <= t.len(),
        pos < t.len() && !(t[pos].0 is Rule) ==> pos < recover(t, pos),
    decreases t.len() - pos,
{
    if 0 <= pos < t.len() && !(t[pos].0 is Rule) {
        lemma_recover(t, pos + 1);
    }
}

/// One round of the rule loop moves strictly forward.
proof fn lemma_rules_progress(t: Toks, st: PState)
    requires 0 <= st.pos < t.len(),
    ensures ({
        let (r, st1) = p_rule(t, st);
        let p2 = match r { Ok(_) => st1.pos, Err(_) => recover(t, st1.pos) };
        st.pos < p2 <= t.len()
    }),
{
    lemma_rule(t, st);
    let (r, st1) = p_rule(t, st);
    lemma_recover(t, st1.pos);
    if st1.pos == st.pos {
        assert(!(t[st.pos].0 is Rule));
        if r is Ok {
            // a rule is only produced after its first token was consumed
            assert(p_expect(t, st, SpecToken::Rule).0 is Err);
        }
    }
}


/// A rule the grammar accepts has at least one action.
proof fn lemma_rule_has_action(t: Toks, st: PState)
    ensures
        p_rule(t, st).0 matches Ok(r) ==> r.actions.len() > 0,
{
}

/// Every rule collected while parsing has at least one action.
proof fn lemma_rules_have_actions(t: Toks, st: PState, acc: Seq<SpecRule>)
    requires
        forall|i: int| 0 <= i < acc.len() ==> (#[trigger] acc[i]).actions.len() > 0,
    ensures
        forall|i: int| 0 <= i < p_rules(t, st, acc).0.len() ==> (#[trigger] p_rules(t, st, acc).0[i]).actions.len()
            > 0,
    decreases t.len() - st.pos,
{
    if 0 <= st.pos < t.len() {
        let (r, st1) = p_rule(t, st);
        lemma_rule_has_action(t, st);
        let st2 = match r {
            Ok(_) => st1,
            Err(_) => PState { pos: recover(t, st1.pos), errs: st1.errs },
        };
        let acc2 = match r {
            Ok(rule) => acc.push(rule),
            Err(_) => acc,
        };
        assert forall|i: int| 0 <= i < acc2.len() implies (#[trigger] acc2[i]).actions.len() > 0 by {
            if i < acc.len() {
                assert(acc2[i] == acc[i]);
            }
        }
        if st.pos < st2.pos <= t.len() {
            lemma_rules_have_actions(t, st2, acc2);
        }
    }
}

/// Every rule of a successfully parsed file has at least one action.
pub proof fn lemma_parsed_rules_have_actions(t: Toks)
    ensures
        spec_parse(t) matches Ok(rules) ==> forall|i: int| 0 <= i < rules.len() ==> (#[trigger] rules[i]).actions.len() > 0,
{
    lemma_rules_have_actions(t, PState { pos: 0, errs: Seq::empty() }, Seq::empty());
}

/// A parse fails exactly when errors were recorded, and then with at
/// least one error; it never hands back rules together with errors.
pub proof fn lemma_parse_fails_iff_errors(t: Toks)
    ensures
        spec_parse(t) is Ok <==> p_rules(t, PState { pos: 0, errs: Seq::empty() }, Seq::empty()).1.errs.len() == 0,
        spec_parse(t) matches Err(errs) ==> errs.len() > 0
            && errs == p_rules(t, PState { pos: 0, errs: Seq::empty() }, Seq::empty()).1.errs,
{
}

/// `r` spans from the start of a `rule` token to the end of a later `}` token.
pub open spec fn spans_rule_to_brace(t: Toks, r: SpecRule) -> bool {
    exists|a: int, b: int|
        #![trigger t[a], t[b]]
        0 <= a < b < t.len() && t[a].0 is Rule && t[b].0 is RBrace && r.span == (Span {
            start: t[a].1.start,
            end: t[b].1.end,
        })
}

/// A rule parsed at `st` spans from its `rule` token to the `}` just
/// before where parsing stops.
proof fn lemma_rule_span(t: Toks, st: PState)
    requires
        0 <= st.pos <= t.len(),
    ensures
        p_rule(t, st).0 matches Ok(r) ==> {
            let e = p_rule(t, st).1.pos - 1;
            &&& st.pos < e < t.len()
            &&& t[st.pos].0 is Rule
            &&& t[e].0 is RBrace
            &&& r.span == (Span { start: t[st.pos].1.start, end: t[e].1.end })
        },
{
    lemma_expect(t, st, SpecToken::Rule);
    let (r1, st1) = p_expect(t, st, SpecToken::Rule);
    if let Ok(start) = r1 {
        if let Some(SpecToken::Ident(name)) = peek(t, st1.pos) {
            let b = adv(st1);
            lemma_expect(t, b, SpecToken::LBrace);
            let st3 = p_expect(t, b, SpecToken::LBrace).1;
            lemma_expect(t, st3, SpecToken::When);
            let st4 = p_expect(t, st3, SpecToken::When).1;
            lemma_condition(t, st4);
            let st5 = p_condition(t, st4).1;
            lemma_expect(t, st5, SpecToken::Then);
            let st6 = p_expect(t, st5, SpecToken::Then).1;
            lemma_actions(t, st6, Seq::empty());
            let st7 = p_actions(t, st6, Seq::empty()).1;
            lemma_expect(t, st7, SpecToken::RBrace);
        }
    }
}

/// Every rule collected while parsing spans from a `rule` token to a `}` token.
proof fn lemma_rules_spans(t: Toks, st: PState, acc: Seq<SpecRule>)
    requires
        0 <= st.pos <= t.len(),
        forall|i: int| 0 <= i < acc.len() ==> spans_rule_to_brace(t, #[trigger] acc[i]),
    ensures
        forall|i: int|
            0 <= i < p_rules(t, st, acc).0.len() ==> spans_rule_to_brace(t, #[trigger] p_rules(t, st, acc).0[i]),
    decreases t.len() - st.pos,
{
    if 0 <= st.pos < t.len() {
        let (r, st1) = p_rule(t, st);
        lemma_rule_span(t, st);
        lemma_rule(t, st);
        let st2 = match r {
            Ok(_) => st1,
            Err(_) => PState { pos: recover(t, st1.pos), errs: st1.errs },
        };
        let acc2 = match r {
            Ok(rule) => acc.push(rule),
            Err(_) => acc,
        };
        if let Ok(rule) = r {
            let e = st1.pos - 1;
            assert(spans_rule_to_brace(t, rule)) by {
                assert(0 <= st.pos < e < t.len() && t[st.pos].0 is Rule && t[e].0 is RBrace);
            }
        }
        assert forall|i: int| 0 <= i < acc2.len() implies spans_rule_to_brace(t, #[trigger] acc2[i]) by {
            if i < acc.len() {
                assert(acc2[i] == acc[i]);
            }
        }
        if st.pos < st2.pos <= t.len() {
            lemma_rules_spans(t, st2, acc2);
            assert(p_rules(t, st, acc) == p_rules(t, st2, acc2));
        } else {
            assert(p_rules(t, st, acc) == (acc2, st2));
        }
    } else {
        assert(p_rules(t, st, acc) == (acc, st));
    }
}

/// Every rule of a successfully parsed file spans from the start of its
/// `rule` token to the end of a later `}` token.
pub proof fn lemma_parsed_rule_spans(t: Toks)
    ensures
        spec_parse(t) matches Ok(rules) ==> forall|i: int|
            0 <= i < rules.len() ==> spans_rule_to_brace(t, #[trigger] rules[i]),
{
    lemma_rules_spans(t, PState { pos: 0, errs: Seq::empty() }, Seq::empty());
}

/// A comparison operator is the one its token spells: the token read,
/// as error messages name it, is the operator's written form in quotes
/// (`'<='` gives `<=`). A failed read consumes nothing.
pub proof fn lemma_cmp_op_spelled_by_token(t: Toks, st: PState)
    ensures
        p_cmp_op(t, st).0 matches Ok(op) ==> peek(t, st.pos) matches Some(tok) && fmt_token(tok) == "'"@
            + cmp_op_text(op) + "'"@ && p_cmp_op(t, st).1.pos == st.pos + 1,
        p_cmp_op(t, st).0 is Err ==> p_cmp_op(t, st).1.pos == st.pos,
{
    reveal_strlit("'");
    reveal_strlit("'>'");
    reveal_strlit("'<'");
    reveal_strlit("'>='");
    reveal_strlit("'<='");
    reveal_strlit("'=='");
    reveal_strlit("'!='");
    reveal_strlit(">");
    reveal_strlit("<");
    reveal_strlit(">=");
    reveal_strlit("<=");
    reveal_strlit("==");
    reveal_strlit("!=");
    match peek(t, st.pos) {
        Some(SpecToken::Gt) => assert("'"@ + ">"@ + "'"@ =~= "'>'"@),
        Some(SpecToken::Lt) => assert("'"@ + "<"@ + "'"@ =~= "'<'"@),
        Some(SpecToken::Gte) => assert("'"@ + ">="@ + "'"@ =~= "'>='"@),
        Some(SpecToken::Lte) => assert("'"@ + "<="@ + "'"@ =~= "'<='"@),
        Some(SpecToken::Eq) => assert("'"@ + "=="@ + "'"@ =~= "'=='"@),
        Some(SpecToken::Neq) => assert("'"@ + "!="@ + "'"@ =~= "'!='"@),
        _ => {},
    }
}

/// Every comparison operator reads back as itself: its written form lexes
/// to one token, and that token parses as the same operator.
pub proof fn lemma_cmp_op_round_trip(op: CmpOp)
    ensures
        spec_tokenize(cmp_op_text(op)) matches Ok(toks) && toks.len() == 1 && p_cmp_op(
            toks,
            PState { pos: 0, errs: Seq::empty() },
        ).0 == Ok::<CmpOp, ()>(op),
{
    reveal_strlit(">");
    reveal_strlit("<");
    reveal_strlit(">=");
    reveal_strlit("<=");
    reveal_strlit("==");
    reveal_strlit("!=");
    let s = cmp_op_text(op);
    let n: int = s.len() + 0int;
    assert(lex_from(s, n) == Ok::<Seq<(SpecToken, Span)>, nat>(Seq::empty()));
    let r = lex_from(s, 0);
    match r {
        Ok(toks) => {
            assert(toks =~= seq![toks[0]]);
        },
        Err(_) => {},
    }
}

// ── Executable parser ──────────────────────────────────────────────

/// A copy of a decimal numeral.
fn copy_decimal(d: &Decimal) -> (r: Decimal)
    ensures
        r@ == d@,
{
    Decimal { whole: copy_string(&d.whole), frac: copy_string(&d.frac) }
}

/// A copy of a token.
pub fn copy_token(t: &Token) -> (r: Token)
    ensures
        r@ == t@,
{
    match t {
        Token::Rule => Token::Rule,
        Token::When => Token::When,
        Token::Then => Token::Then,
        Token::For => Token::For,
        Token::And => Token::And,
        Token::Or => Token::Or,
        Token::Alert => Token::Alert,
        Token::Kill => Token::Kill,
        Token::Log => Token::Log,
        Token::Severity => Token::Severity,
        Token::Info => Token::Info,
        Token::Warning => Token::Warning,
        Token::Critical => Token::Critical,
        Token::Process => Token::Process,
        Token::Gte => Token::Gte,
        Token::Lte => Token::Lte,
        Token::Eq => Token::Eq,
        Token::Neq => Token::Neq,
        Token::Gt => Token::Gt,
        Token::Lt => Token::Lt,
        Token::LBrace => Token::LBrace,
        Token::RBrace => Token::RBrace,
        Token::Dot => Token::Dot,
        Token::Percent(d) => Token::Percent(copy_decimal(d)),
        Token::Duration(n) => Token::Duration(*n),
        Token::Float(d) => Token::Float(copy_decimal(d)),
        Token::Integer(n) => Token::Integer(*n),
        Token::StringLit(x) => Token::StringLit(copy_string(x)),
        Token::Ident(x) => Token::Ident(copy_string(x)),
    }
}

fn decimal_eq(a: &Decimal, b: &Decimal) -> (r: bool)
    ensures
        r == (a@ == b@),
{
    a.whole == b.whole && a.frac == b.frac
}

/// Whether two tokens are equal.
pub fn token_eq(a: &Token, b: &Token) -> (r: bool)
    ensures
        r == (a@ == b@),
{
    match (a, b) {
        (Token::Rule, Token::Rule) => true,
        (Token::When, Token::When) => true,
        (Token::Then, Token::Then) => true,
        (Token::For, Token::For) => true,
        (Token::And, Token::And) => true,
        (Token::Or, Token::Or) => true,
        (Token::Alert, Token::Alert) => true,
        (Token::Kill, Token::Kill) => true,
        (Token::Log, Token::Log) => true,
        (Token::Severity, Token::Severity) => true,
        (Token::Info, Token::Info) => true,
        (Token::Warning, Token::Warning) => true,
        (Token::Critical, Token::Critical) => true,
        (Token::Process, Token::Process) => true,
        (Token::Gte, Token::Gte) => true,
        (Token::Lte, Token::Lte) => true,
        (Token::Eq, Token::Eq) => true,
        (Token::Neq, Token::Neq) => true,
        (Token::Gt, Token::Gt) => true,
        (Token::Lt, Token::Lt) => true,
        (Token::LBrace, Token::LBrace) => true,
        (Token::RBrace, Token::RBrace) => true,
        (Token::Dot, Token::Dot) => true,
        (Token::Percent(x), Token::Percent(y)) => decimal_eq(x, y),
        (Token::Duration(x), Token::Duration(y)) => *x == *y,
        (Token::Float(x), Token::Float(y)) => decimal_eq(x, y),
        (Token::Integer(x), Token::Integer(y)) => *x == *y,
        (Token::StringLit(x), Token::StringLit(y)) => *x == *y,
        (Token::Ident(x), Token::Ident(y)) => *x == *y,
        _ => false,
    }
}

/// Appends `d` without leading zeros of its whole part and trailing zeros of its fraction.
fn push_fmt_decimal(out: &mut String, d: &Decimal)
    ensures
        final(out)@ == old(out)@ + fmt_decimal(d@),
{
    let w = chars_of(d.whole.as_str());
    let f = chars_of(d.frac.as_str());
    let mut k: usize = 0;
    assert(w@.subrange(0, w.len() as int) =~= w@);
    assert(f@.subrange(0, f.len() as int) =~= f@);
    while k + 1 < w.len() && w[k] == '0'
        invariant
            w@ == d.whole@,
            k < w.len() || w.len() == 0,
            k <= w.len(),
            strip_leading_zeros(w@) == strip_leading_zeros(w@.subrange(k as int, w.len() as int)),
        decreases w.len() - k,
    {
        let ghost cur = w@.subrange(k as int, w.len() as int);
        assert(cur.drop_first() =~= w@.subrange(k + 1, w.len() as int));
        k = k + 1;
    }
    let mut e: usize = f.len();
    while e > 0 && f[e - 1] == '0'
        invariant
            f@ == d.frac@,
            e <= f.len(),
            strip_trailing_zeros(f@) == strip_trailing_zeros(f@.subrange(0, e as int)),
        decreases e,
    {
        let ghost cur = f@.subrange(0, e as int);
        assert(cur.drop_last() =~= f@.subrange(0, e - 1));
        e = e - 1;
    }
    let ghost ws = w@.subrange(k as int, w.len() as int);
    let ghost fs = f@.subrange(0, e as int);
    assert(strip_leading_zeros(ws) == ws);
    assert(strip_trailing_zeros(fs) == fs);
    let mut i = k;
    let ghost base = old(out)@;
    while i < w.len()
        invariant
            k <= i <= w.len(),
            w@ == d.whole@,
            out@ == base + w@.subrange(k as int, i as int),
        decreases w.len() - i,
    {
        out.push(w[i]);
        i = i + 1;
        assert(out@ =~= base + w@.subrange(k as int, i as int));
    }
    assert(w@.subrange(k as int, w.len() as int) == ws);
    if e > 0 {
        out.push('.');
        let ghost mid = out@;
        let mut j: usize = 0;
        while j < e
            invariant
                j <= e <= f.len(),
                f@ == d.frac@,
                out@ == mid + f@.subrange(0, j as int),
            decreases e - j,
        {
            out.push(f[j]);
            j = j + 1;
            assert(out@ =~= mid + f@.subrange(0, j as int));
        }
        proof {
            reveal_strlit(".");
        }
        assert(out@ =~= base + fmt_decimal(d@));
    } else {
        assert(fs =~= Seq::<char>::empty());
        assert(out@ =~= base + fmt_decimal(d@));
    }
}

/// Appends how `t` is named in error messages.
fn push_fmt_token(out: &mut String, t: &Token)
    ensures
        final(out)@ == old(out)@ + fmt_token(t@),
{
    match t {
        Token::Rule => push_str(out, "'rule'"),
        Token::When => push_str(out, "'when'"),
        Token::Then => push_str(out, "'then'"),
        Token::For => push_str(out, "'for'"),
        Token::And => push_str(out, "'and'"),
        Token::Or => push_str(out, "'or'"),
        Token::Alert => push_str(out, "'alert'"),
        Token::Kill => push_str(out, "'kill'"),
        Token::Log => push_str(out, "'log'"),
        Token::Severity => push_str(out, "'severity'"),
        Token::Info => push_str(out, "'info'"),
        Token::Warning => push_str(out, "'warning'"),
        Token::Critical => push_str(out, "'critical'"),
        Token::Process => push_str(out, "'process'"),
        Token::Gte => push_str(out, "'>='"),
        Token::Lte => push_str(out, "'<='"),
        Token::Eq => push_str(out, "'=='"),
        Token::Neq => push_str(out, "'!='"),
        Token::Gt => push_str(out, "'>'"),
        Token::Lt => push_str(out, "'<'"),
        Token::LBrace => push_str(out, "'{'"),
        Token::RBrace => push_str(out, "'}'"),
        Token::Dot => push_str(out, "'.'"),
        Token::Percent(d) => {
            push_fmt_decimal(out, d);
            push_str(out, "%");
            assert(final(out)@ =~= old(out)@ + fmt_token(t@));
        },
        Token::Duration(n) => {
            push_decimal(out, *n);
            push_str(out, "s");
            assert(final(out)@ =~= old(out)@ + fmt_token(t@));
        },
        Token::Float(d) => push_fmt_decimal(out, d),
        Token::Integer(n) => push_signed_decimal(out, *n),
        Token::StringLit(x) => {
            push_str(out, "\"");
            push_str(out, x.as_str());
            push_str(out, "\"");
            assert(final(out)@ =~= old(out)@ + fmt_token(t@));
        },
        Token::Ident(x) => {
            push_str(out, "identifier '");
            push_str(out, x.as_str());
            push_str(out, "'");
            assert(final(out)@ =~= old(out)@ + fmt_token(t@));
        },
    }
}

/// The view of a result whose value has a view.
pub open spec fn rv<A: View>(r: Result<A, ()>) -> Result<A::V, ()> {
    match r {
        Ok(a) => Ok(a@),
        Err(_) => Err(()),
    }
}

struct Parser {
    tokens: Vec<Spanned<Token>>,
    pos: usize,
    errors: Vec<ParseError>,
}

impl Parser {
    spec fn toks(&self) -> Toks {
        view_tokens(self.tokens@)
    }

    spec fn st(&self) -> PState {
        PState { pos: self.pos as int, errs: errors_view(self.errors@) }
    }

    spec fn wf(&self) -> bool {
        self.pos <= self.tokens.len()
    }

    /// `new` is `old` after a step with outcome `out`, returning `r`.
    spec fn stepped<A>(old: &Parser, new: &Parser, r: Result<A, ()>, out: Out<A>) -> bool {
        &&& new.tokens@ == old.tokens@
        &&& new.wf()
        &&& r == out.0
        &&& new.st() == out.1
    }

    fn peek_token(&self) -> (r: Option<Token>)
        requires
            self.wf(),
        ensures
            match r {
                Some(tok) => peek(self.toks(), self.pos as int) == Some(tok@),
                None => peek(self.toks(), self.pos as int) is None,
            },
    {
        if self.pos < self.tokens.len() {
            Some(copy_token(&self.tokens[self.pos].0))
        } else {
            None
        }
    }

    fn is_at(&self, expected: &Token) -> (b: bool)
        requires
            self.wf(),
        ensures
            b == (peek(self.toks(), self.pos as int) == Some(expected@)),
    {
        self.pos < self.tokens.len() && token_eq(&self.tokens[self.pos].0, expected)
    }

    fn current_span(&self) -> (sp: Span)
        requires
            self.wf(),
        ensures
            sp == cur_span(self.toks(), self.pos as int),
    {
        if self.pos < self.tokens.len() {
            self.tokens[self.pos].1
        } else {
            let end = if self.tokens.len() > 0 { self.tokens[self.tokens.len() - 1].1.end } else { 0 };
            Span { start: end, end }
        }
    }

    fn advance(&mut self)
        requires
            old(self).wf(),
            old(self).pos < old(self).tokens.len(),
        ensures
            final(self).tokens@ == old(self).tokens@,
            final(self).wf(),
            final(self).st() == adv(old(self).st()),
    {
        self.pos = self.pos + 1;
    }

    fn error(&mut self, message: String)
        requires
            old(self).wf(),
        ensures
            final(self).tokens@ == old(self).tokens@,
            final(self).wf(),
            final(self).st() == with_error(old(self).toks(), old(self).st(), message@),
    {
        let span = self.current_span();
        let ghost prev = self.errors@;
        self.errors.push(ParseError { message, span });
        assert(errors_view(self.errors@) =~= errors_view(prev).push(
            SpecParseError { message: message@, span },
        ));
    }

    fn push_found(&self, out: &mut String)
        requires
            self.wf(),
        ensures
            final(out)@ == old(out)@ + found(self.toks(), self.pos as int),
    {
        if self.pos < self.tokens.len() {
            push_fmt_token(out, &self.tokens[self.pos].0);
        } else {
            push_str(out, "end of input");
        }
    }

    /// Records `prefix` followed by the current token's name as an error.
    fn error_found(&mut self, prefix: &str)
        requires
            old(self).wf(),
        ensures
            final(self).tokens@ == old(self).tokens@,
            final(self).wf(),
            final(self).st() == with_error(
                old(self).toks(),
                old(self).st(),
                prefix@ + found(old(self).toks(), old(self).pos as int),
            ),
    {
        let mut m = String::new();
        push_str(&mut m, prefix);
        self.push_found(&mut m);
        assert(m@ =~= prefix@ + found(self.toks(), self.pos as int));
        self.error(m);
    }

    fn expect(&mut self, expected: &Token) -> (r: Result<Span, ()>)
        requires
            old(self).wf(),
        ensures
            Self::stepped(old(self), final(self), r, p_expect(old(self).toks(), old(self).st(), expected@)),
    {
        if self.is_at(expected) {
            let sp = self.tokens[self.pos].1;
            self.advance();
            Ok(sp)
        } else {
            let mut m = String::new();
            push_str(&mut m, "expected ");
            push_fmt_token(&mut m, expected);
            push_str(&mut m, ", found ");
            self.push_found(&mut m);
            assert(m@ =~= "expected "@ + fmt_token(expected@) + ", found "@ + found(self.toks(), self.pos as int));
            self.error(m);
            Err(())
        }
    }

    fn parse_field(&mut self, object: String) -> (r: Result<Expr, ()>)
        requires
            old(self).wf(),
        ensures
            Self::stepped(old(self), final(self), rv(r), p_field(old(self).toks(), old(self).st(), object@)),
    {
        match self.peek_token() {
            Some(Token::Ident(field)) => {
                self.advance();
                Ok(Expr::FieldAccess { object, field })
            },
            _ => {
                self.error_found("expected field name after '.', found ");
                Err(())
            },
        }
    }

    fn parse_expr(&mut self) -> (r: Result<Expr, ()>)
        requires
            old(self).wf(),
        ensures
            Self::stepped(old(self), final(self), rv(r), p_expr(old(self).toks(), old(self).st())),
    {
        match self.peek_token() {
            Some(Token::Process) => {
                self.advance();
                match self.expect(&Token::Dot) {
                    Ok(_) => {
                        let object = "process".to_owned();
                        self.parse_field(object)
                    },
                    Err(()) => Err(()),
                }
            },
            Some(Token::Ident(object)) => {
                self.advance();
                if self.is_at(&Token::Dot) {
                    self.advance();
                    self.parse_field(object)
                } else {
                    let mut m = String::new();
                    push_str(&mut m, "expected '.' after identifier '");
                    push_str(&mut m, object.as_str());
                    push_str(&mut m, "'");
                    self.error(m);
                    Err(())
                }
            },
            Some(Token::Integer(n)) => {
                self.advance();
                Ok(Expr::Literal(Literal::Int(n)))
            },
            Some(Token::Float(d)) => {
                self.advance();
                Ok(Expr::Literal(Literal::Float(d)))
            },
            Some(Token::Percent(d)) => {
                self.advance();
                Ok(Expr::Literal(Literal::Percent(d)))
            },
            Some(Token::Duration(n)) => {
                self.advance();
                Ok(Expr::Literal(Literal::Duration(n)))
            },
            Some(Token::StringLit(x)) => {
                self.advance();
                Ok(Expr::Literal(Literal::Str(x)))
            },
            _ => {
                self.error_found("expected expression, found ");
                Err(())
            },
        }
    }

    fn parse_cmp_op(&mut self) -> (r: Result<CmpOp, ()>)
        requires
            old(self).wf(),
        ensures
            Self::stepped(old(self), final(self), r, p_cmp_op(old(self).toks(), old(self).st())),
    {
        let op = match self.peek_token() {
            Some(Token::Gt) => CmpOp::Gt,
            Some(Token::Lt) => CmpOp::Lt,
            Some(Token::Gte) => CmpOp::Gte,
            Some(Token::Lte) => CmpOp::Lte,
            Some(Token::Eq) => CmpOp::Eq,
            Some(Token::Neq) => CmpOp::Neq,
            _ => {
                self.error_found("expected comparison operator, found ");
                return Err(());
            },
        };
        self.advance();
        Ok(op)
    }

    fn parse_comparison(&mut self) -> (r: Result<Condition, ()>)
        requires
            old(self).wf(),
        ensures
            Self::stepped(old(self), final(self), rv(r), p_comparison(old(self).toks(), old(self).st())),
    {
        let left = match self.parse_expr() {
            Ok(e) => e,
            Err(()) => return Err(()),
        };
        let op = match self.parse_cmp_op() {
            Ok(o) => o,
            Err(()) => return Err(()),
        };
        let right = match self.parse_expr() {
            Ok(e) => e,
            Err(()) => return Err(()),
        };
        Ok(Condition::Comparison { left, op, right })
    }

    fn at_not_exec(&self) -> (b: bool)
        requires
            self.wf(),
        ensures
            b == at_not(self.toks(), self.pos as int),
    {
        match self.peek_token() {
            Some(Token::Ident(x)) => string_is(&x, "not"),
            _ => false,
        }
    }

    fn parse_not(&mut self) -> (r: Result<Condition, ()>)
        requires
            old(self).wf(),
        ensures
            Self::stepped(old(self), final(self), rv(r), p_not(old(self).toks(), old(self).st())),
        decreases old(self).tokens.len() - old(self).pos,
    {
        if self.at_not_exec() {
            self.advance();
            match self.parse_not() {
                Ok(c) => Ok(Condition::Not(Box::new(c))),
                Err(()) => Err(()),
            }
        } else {
            self.parse_comparison()
        }
    }


    fn parse_and(&mut self) -> (r: Result<Condition, ()>)
        requires
            old(self).wf(),
        ensures
            Self::stepped(old(self), final(self), rv(r), p_and(old(self).toks(), old(self).st())),
    {
        let ghost t = self.toks();
        let ghost st0 = self.st();
        let ghost tokens0 = self.tokens@;
        let mut left = match self.parse_not() {
            Ok(c) => c,
            Err(()) => return Err(()),
        };
        while self.is_at(&Token::And)
            invariant
                self.wf(),
                self.tokens@ == tokens0,
                self.toks() == t,
                tokens0 == old(self).tokens@,
                t == old(self).toks(),
                st0 == old(self).st(),
                p_and(t, st0) == p_and_rest(t, self.st(), left@),
            decreases self.tokens.len() - self.pos,
        {
            let ghost before = self.st();
            let ghost old_left = left@;
            self.advance();
            proof {
                lemma_not(t, self.st());
            }
            let right = match self.parse_not() {
                Ok(c) => c,
                Err(()) => {
                    assert(p_and_rest(t, before, old_left) == (Err::<SpecCondition, ()>(()), self.st()));
                    return Err(());
                },
            };
            left = Condition::And(Box::new(left), Box::new(right));
        }
        Ok(left)
    }

    fn parse_or(&mut self) -> (r: Result<Condition, ()>)
        requires
            old(self).wf(),
        ensures
            Self::stepped(old(self), final(self), rv(r), p_or(old(self).toks(), old(self).st())),
    {
        let ghost t = self.toks();
        let ghost st0 = self.st();
        let ghost tokens0 = self.tokens@;
        let mut left = match self.parse_and() {
            Ok(c) => c,
            Err(()) => return Err(()),
        };
        while self.is_at(&Token::Or)
            invariant
                self.wf(),
                self.tokens@ == tokens0,
                self.toks() == t,
                tokens0 == old(self).tokens@,
                t == old(self).toks(),
                st0 == old(self).st(),
                p_or(t, st0) == p_or_rest(t, self.st(), left@),
            decreases self.tokens.len() - self.pos,
        {
            let ghost before = self.st();
            let ghost old_left = left@;
            self.advance();
            proof {
                lemma_and(t, self.st());
            }
            let right = match self.parse_and() {
                Ok(c) => c,
                Err(()) => {
                    assert(p_or_rest(t, before, old_left) == (Err::<SpecCondition, ()>(()), self.st()));
                    return Err(());
                },
            };
            left = Condition::Or(Box::new(left), Box::new(right));
        }
        Ok(left)
    }

    fn parse_condition(&mut self) -> (r: Result<Condition, ()>)
        requires
            old(self).wf(),
        ensures
            Self::stepped(old(self), final(self), rv(r), p_condition(old(self).toks(), old(self).st())),
    {
        let cond = match self.parse_or() {
            Ok(c) => c,
            Err(()) => return Err(()),
        };
        if self.is_at(&Token::For) {
            self.advance();
            match self.peek_token() {
                Some(Token::Duration(secs)) => {
                    self.advance();
                    Ok(Condition::Duration { condition: Box::new(cond), seconds: secs })
                },
                _ => {
                    self.error_found("expected duration after 'for', found ");
                    Err(())
                },
            }
        } else {
            Ok(cond)
        }
    }

    fn expect_string(&mut self, context: &str) -> (r: Result<String, ()>)
        requires
            old(self).wf(),
        ensures
            Self::stepped(old(self), final(self), rv(r), p_string(old(self).toks(), old(self).st(), context@)),
    {
        match self.peek_token() {
            Some(Token::StringLit(x)) => {
                self.advance();
                Ok(x)
            },
            _ => {
                let mut m = String::new();
                push_str(&mut m, "expected string for ");
                push_str(&mut m, context);
                push_str(&mut m, ", found ");
                self.push_found(&mut m);
                assert(m@ =~= "expected string for "@ + context@ + ", found "@ + found(self.toks(), self.pos as int));
                self.error(m);
                Err(())
            },
        }
    }

    fn parse_severity(&mut self) -> (r: Result<Severity, ()>)
        requires
            old(self).wf(),
        ensures
            Self::stepped(old(self), final(self), r, p_severity(old(self).toks(), old(self).st())),
    {
        let sev = match self.peek_token() {
            Some(Token::Info) => Severity::Info,
            Some(Token::Warning) => Severity::Warning,
            Some(Token::Critical) => Severity::Critical,
            _ => {
                self.error_found("expected severity (info, warning, critical), found ");
                return Err(());
            },
        };
        self.advance();
        Ok(sev)
    }

    fn parse_action(&mut self) -> (r: Result<Action, ()>)
        requires
            old(self).wf(),
        ensures
            Self::stepped(old(self), final(self), rv(r), p_action(old(self).toks(), old(self).st())),
    {
        match self.peek_token() {
            Some(Token::Alert) => {
                self.advance();
                let message = match self.expect_string("alert message") {
                    Ok(m) => m,
                    Err(()) => return Err(()),
                };
                match self.expect(&Token::Severity) {
                    Ok(_) => {},
                    Err(()) => return Err(()),
                }
                let severity = match self.parse_severity() {
                    Ok(s) => s,
                    Err(()) => return Err(()),
                };
                Ok(Action::Alert { message, severity })
            },
            Some(Token::Kill) => {
                self.advance();
                Ok(Action::Kill)
            },
            Some(Token::Log) => {
                self.advance();
                let message = match self.expect_string("log message") {
                    Ok(m) => m,
                    Err(()) => return Err(()),
                };
                Ok(Action::Log { message })
            },
            _ => {
                self.error_found("expected action, found ");
                Err(())
            },
        }
    }

    fn at_action_exec(&self) -> (b: bool)
        requires
            self.wf(),
        ensures
            b == at_action(self.toks(), self.pos as int),
    {
        match self.peek_token() {
            Some(Token::Alert) | Some(Token::Kill) | Some(Token::Log) => true,
            _ => false,
        }
    }


    fn parse_rule_body(&mut self, name: String, start: Span) -> (r: Result<Rule, ()>)
        requires
            old(self).wf(),
        ensures
            Self::stepped(old(self), final(self), rv(r), p_rule_body(old(self).toks(), old(self).st(), name@, start)),
    {
        let ghost t = self.toks();
        let ghost tokens0 = self.tokens@;
        match self.expect(&Token::LBrace) {
            Ok(_) => {},
            Err(()) => return Err(()),
        }
        match self.expect(&Token::When) {
            Ok(_) => {},
            Err(()) => return Err(()),
        }
        let condition = match self.parse_condition() {
            Ok(c) => c,
            Err(()) => return Err(()),
        };
        match self.expect(&Token::Then) {
            Ok(_) => {},
            Err(()) => return Err(()),
        }
        let ghost st6 = self.st();
        let ghost goal = p_rule_body(old(self).toks(), old(self).st(), name@, start);
        assert(goal == p_rule_tail(t, p_actions(t, st6, Seq::empty()), name@, condition@, start));
        let mut actions: Vec<Action> = Vec::new();
        assert(actions_view(actions@) =~= Seq::<SpecAction>::empty());
        while self.at_action_exec()
            invariant
                self.wf(),
                self.tokens@ == tokens0,
                self.toks() == t,
                p_actions(t, st6, Seq::empty()) == p_actions(t, self.st(), actions_view(actions@)),
                goal == p_rule_tail(t, p_actions(t, st6, Seq::empty()), name@, condition@, start),
                goal == p_rule_body(old(self).toks(), old(self).st(), name@, start),
                tokens0 == old(self).tokens@,
            decreases self.tokens.len() - self.pos,
        {
            let ghost before = self.st();
            let ghost acc = actions_view(actions@);
            proof {
                lemma_action(t, before);
            }
            let a = match self.parse_action() {
                Ok(a) => a,
                Err(()) => {
                    assert(p_actions(t, before, acc) == (Err::<Seq<SpecAction>, ()>(()), self.st()));
                    return Err(());
                },
            };
            actions.push(a);
            assert(actions_view(actions@) =~= acc.push(a@));
        }
        if actions.len() == 0 {
            self.error("expected at least one action after 'then'".to_owned());
            return Err(());
        }
        let end = match self.expect(&Token::RBrace) {
            Ok(e) => e,
            Err(()) => return Err(()),
        };
        Ok(Rule { name, condition, actions, span: Span { start: start.start, end: end.end } })
    }

    fn parse_rule(&mut self) -> (r: Result<Rule, ()>)
        requires
            old(self).wf(),
        ensures
            Self::stepped(old(self), final(self), rv(r), p_rule(old(self).toks(), old(self).st())),
    {
        let start = match self.expect(&Token::Rule) {
            Ok(sp) => sp,
            Err(()) => return Err(()),
        };
        match self.peek_token() {
            Some(Token::Ident(name)) => {
                self.advance();
                self.parse_rule_body(name, start)
            },
            _ => {
                self.error_found("expected rule name, found ");
                Err(())
            },
        }
    }

    fn recover_to_rule(&mut self)
        requires
            old(self).wf(),
        ensures
            final(self).tokens@ == old(self).tokens@,
            final(self).wf(),
            final(self).st() == (PState { pos: recover(old(self).toks(), old(self).pos as int), errs: old(self).st().errs }),
    {
        let ghost t = self.toks();
        let ghost p0 = self.pos as int;
        while self.pos < self.tokens.len() && !self.is_at(&Token::Rule)
            invariant
                self.wf(),
                self.tokens@ == old(self).tokens@,
                self.errors@ == old(self).errors@,
                t == old(self).toks(),
                p0 == old(self).pos,
                recover(t, p0) == recover(t, self.pos as int),
            decreases self.tokens.len() - self.pos,
        {
            self.pos = self.pos + 1;
        }
    }

    fn parse_rule_file(&mut self) -> (rules: Vec<Rule>)
        requires
            old(self).wf(),
        ensures
            final(self).tokens@ == old(self).tokens@,
            final(self).wf(),
            (rules_view(rules@), final(self).st()) == p_rules(old(self).toks(), old(self).st(), Seq::empty()),
    {
        let ghost t = self.toks();
        let ghost st0 = self.st();
        let mut rules: Vec<Rule> = Vec::new();
        assert(rules_view(rules@) =~= Seq::<SpecRule>::empty());
        while self.pos < self.tokens.len()
            invariant
                self.wf(),
                self.tokens@ == old(self).tokens@,
                t == old(self).toks(),
                st0 == old(self).st(),
                self.toks() == t,
                p_rules(t, st0, Seq::empty()) == p_rules(t, self.st(), rules_view(rules@)),
            decreases self.tokens.len() - self.pos,
        {
            let ghost before = self.st();
            let ghost acc = rules_view(rules@);
            proof {
                lemma_rules_progress(t, before);
            }
            match self.parse_rule() {
                Ok(rule) => {
                    rules.push(rule);
                    assert(rules_view(rules@) =~= acc.push(rule@));
                },
                Err(()) => {
                    self.recover_to_rule();
                },
            }
        }
        rules
    }
}

/// Parse a token stream into a rule file.
///
/// Collects errors and recovers rule by rule. Returns `Err` exactly when at
/// least one error was met, with every error in the order met.
pub fn parse(tokens: Vec<Spanned<Token>>) -> (r: Result<RuleFile, Vec<ParseError>>)
    ensures
        match spec_parse(view_tokens(tokens@)) {
            Ok(rules) => r matches Ok(f) && rules_view(f.rules@) == rules,
            Err(errs) => r matches Err(e) && errors_view(e@) == errs,
        },
{
    let mut parser = Parser { tokens, pos: 0, errors: Vec::new() };
    assert(errors_view(parser.errors@) =~= Seq::<SpecParseError>::empty());
    let rules = parser.parse_rule_file();
    if parser.errors.len() == 0 {
        Ok(RuleFile { rules })
    } else {
        Err(parser.errors)
    }
}


} // verus!
