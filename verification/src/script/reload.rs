//! The rule pipeline: source text through lexer, parser and type checker,
//! and the active rule set that a reload replaces only on success.
use vstd::prelude::*;
use vstd::utf8::*;

use crate::script::ast::{rules_view, Rule, SpecCondition, SpecRule};
use crate::script::error::ScriptError;
use crate::script::lexer::{lex_error_message, spec_tokenize, tokenize};
use crate::script::parser::{errors_view, parse, parse_error_text, spec_parse, ParseError, SpecParseError};
use crate::script::runtime::{CompiledRuleSet, TimerKey};
use crate::script::strings::{chars_of, copy_string, push_str};
use crate::script::types::{spec_check, type_errors_view, TypeChecker};
use crate::script::utf8_len::{byte_offset, char_utf8_width, char_width, lemma_byte_offset_bound, lemma_byte_offset_step};

verus! {

/// Line and column (both from 1) reached by reading `s` from character `i`,
/// at byte `b`, line `line` and column `col`, up to the first character
/// that starts at or after byte `off`.
pub open spec fn locate(s: Seq<char>, i: int, b: int, off: int, line: nat, col: nat) -> (nat, nat)
    decreases s.len() - i,
{
    if i < 0 || i >= s.len() || b >= off {
        (line, col)
    } else if s[i] == '\n' {
        locate(s, i + 1, b + char_width(s[i]), off, line + 1, 1)
    } else {
        locate(s, i + 1, b + char_width(s[i]), off, line, col + 1)
    }
}

/// Line and column (both from 1) of byte offset `off` in `s`.
pub open spec fn line_col(s: Seq<char>, off: nat) -> (nat, nat) {
    locate(s, 0, 0, off as int, 1, 1)
}

/// Messages joined with `"; "` between them.
pub open spec fn join_messages(ms: Seq<Seq<char>>) -> Seq<char>
    decreases ms.len(),
{
    if ms.len() == 0 {
        Seq::empty()
    } else if ms.len() == 1 {
        ms[0]
    } else {
        join_messages(ms.drop_last()) + "; "@ + ms.last()
    }
}

/// What the pipeline makes of `s`: the checked rules, or the error it stops at.
pub enum PipelineOutcome {
    /// Every stage passed.
    Rules(Seq<SpecRule>),
    /// The lexer failed at this byte offset.
    LexError(nat),
    /// The parser failed; the first error's line and column, and every
    /// error's printed form joined with `"; "`.
    ParseError(nat, nat, Seq<char>),
    /// The type checker failed with these messages joined.
    TypeError(Seq<char>),
}

/// The outcome of tokenizing, parsing and type-checking `s`.
pub open spec fn pipeline(s: Seq<char>) -> PipelineOutcome {
    match spec_tokenize(s) {
        Err(off) => PipelineOutcome::LexError(off),
        Ok(toks) => match spec_parse(toks) {
            Err(errs) => {
                let (line, col) = line_col(s, errs[0].span.start as nat);
                PipelineOutcome::ParseError(line, col, join_messages(parse_error_texts(errs)))
            },
            Ok(rules) => if spec_check(rules).len() == 0 {
                PipelineOutcome::Rules(rules)
            } else {
                PipelineOutcome::TypeError(join_messages(spec_check(rules)))
            },
        },
    }
}

/// The printed forms of parse errors, in order.
pub open spec fn parse_error_texts(errs: Seq<SpecParseError>) -> Seq<Seq<char>> {
    errs.map_values(|e: SpecParseError| parse_error_text(e))
}

/// `e` is the error that the failed pipeline outcome `o` reports.
pub open spec fn pipeline_error(o: PipelineOutcome, e: ScriptError) -> bool {
    match o {
        PipelineOutcome::Rules(_) => false,
        PipelineOutcome::LexError(off) => e matches ScriptError::Lex(m) && m@ == lex_error_message(off),
        PipelineOutcome::ParseError(line, col, msg) => e matches ScriptError::Parse { line: l, col: c, message: m }
            && l == line && c == col && m@ == msg,
        PipelineOutcome::TypeError(msg) => e matches ScriptError::Type(m) && m@ == msg,
    }
}

/// `r` is what the pipeline outcome `o` says.
pub open spec fn pipeline_result(o: PipelineOutcome, r: Result<Vec<Rule>, ScriptError>) -> bool {
    match o {
        PipelineOutcome::Rules(rules) => r matches Ok(v) && rules_view(v@) == rules,
        _ => r matches Err(e) && pipeline_error(o, e),
    }
}

/// The top-level duration of a rule, if its condition is one.
pub open spec fn rule_duration(c: SpecCondition) -> Option<u64> {
    match c {
        SpecCondition::Duration { seconds, .. } => Some(seconds),
        _ => None,
    }
}

/// Names and top-level durations of `rules`, in order.
pub open spec fn schedule_of(rules: Seq<SpecRule>) -> Seq<(Seq<char>, Option<u64>)> {
    rules.map_values(|r: SpecRule| (r.name, rule_duration(r.condition)))
}

/// Rule files joined as they are read for a reload: each followed by a newline.
pub open spec fn joined_sources(v: Seq<Seq<char>>) -> Seq<char>
    decreases v.len(),
{
    if v.len() == 0 {
        Seq::empty()
    } else {
        joined_sources(v.drop_last()) + v.last() + "\n"@
    }
}

/// The views of a list of strings.
pub open spec fn strings_view(v: Seq<String>) -> Seq<Seq<char>> {
    v.map_values(|x: String| x@)
}

/// Every character is at least one byte.
proof fn lemma_byte_offset_at_least(s: Seq<char>, i: int)
    requires
        0 <= i <= s.len(),
    ensures
        byte_offset(s, i) >= i,
    decreases i,
{
    if i > 0 {
        lemma_byte_offset_at_least(s, i - 1);
        lemma_byte_offset_step(s, i - 1);
    }
}

/// Line and column (from 1) of byte offset `off` in the text `chars`.
fn source_position(chars: &Vec<char>, off: usize) -> (lc: (usize, usize))
    requires
        encode_utf8(chars@).len() < usize::MAX,
    ensures
        (lc.0 as nat, lc.1 as nat) == line_col(chars@, off as nat),
{
    let ghost s = chars@;
    let n = chars.len();
    let mut i: usize = 0;
    let mut b: usize = 0;
    let mut line: usize = 1;
    let mut col: usize = 1;
    while i < n && b < off
        invariant
            chars@ == s,
            n == s.len(),
            i <= n,
            b as nat == byte_offset(s, i as int),
            encode_utf8(s).len() < usize::MAX,
            1 <= line,
            1 <= col,
            line + col <= i + 2,
            line_col(s, off as nat) == locate(s, i as int, b as int, off as int, line as nat, col as nat),
        decreases n - i,
    {
        proof {
            lemma_byte_offset_step(s, i as int);
            lemma_byte_offset_bound(s, i as int + 1);
            lemma_byte_offset_at_least(s, i as int + 1);
        }
        let c = chars[i];
        let w = char_utf8_width(c);
        if c == '\n' {
            line = line + 1;
            col = 1;
        } else {
            col = col + 1;
        }
        b = b + w;
        i = i + 1;
    }
    (line, col)
}

/// Messages of the errors joined with `"; "`.
fn join_type_errors(errs: &Vec<crate::script::types::TypeError>) -> (m: String)
    ensures
        m@ == join_messages(type_errors_view(errs@)),
{
    let ghost ms = type_errors_view(errs@);
    let mut m = String::new();
    let mut i: usize = 0;
    while i < errs.len()
        invariant
            i <= errs.len(),
            ms == type_errors_view(errs@),
            m@ == join_messages(ms.take(i as int)),
        decreases errs.len() - i,
    {
        if i > 0 {
            push_str(&mut m, "; ");
        }
        push_str(&mut m, errs[i].message.as_str());
        proof {
            let t = ms.take(i as int + 1);
            assert(t.drop_last() =~= ms.take(i as int));
            assert(t.last() == errs@[i as int].message@);
            if i == 0 {
                assert(ms.take(0) =~= Seq::<Seq<char>>::empty());
            }
        }
        i = i + 1;
    }
    assert(ms.take(errs.len() as int) =~= ms);
    m
}

/// Printed forms of the parse errors joined with `"; "`.
fn join_parse_errors(errs: &Vec<ParseError>) -> (m: String)
    ensures
        m@ == join_messages(parse_error_texts(errors_view(errs@))),
{
    let ghost ms = parse_error_texts(errors_view(errs@));
    let mut m = String::new();
    let mut i: usize = 0;
    while i < errs.len()
        invariant
            i <= errs.len(),
            ms == parse_error_texts(errors_view(errs@)),
            m@ == join_messages(ms.take(i as int)),
        decreases errs.len() - i,
    {
        if i > 0 {
            push_str(&mut m, "; ");
        }
        let t = errs[i].to_string();
        push_str(&mut m, t.as_str());
        proof {
            let tk = ms.take(i as int + 1);
            assert(tk.drop_last() =~= ms.take(i as int));
            assert(tk.last() == parse_error_text(errs@[i as int]@));
            if i == 0 {
                assert(ms.take(0) =~= Seq::<Seq<char>>::empty());
            }
        }
        i = i + 1;
    }
    assert(ms.take(errs.len() as int) =~= ms);
    m
}

/// Parse rule source text through the whole pipeline: tokenize, parse, then
/// type-check.
///
/// A lexer failure is a [`ScriptError::Lex`]. Parse errors become one
/// [`ScriptError::Parse`] at the line and column (from 1) where the first
/// error's token starts, whose message joins every error's printed form
/// with `"; "`. Type errors become one
/// [`ScriptError::Type`] whose message joins every error's message with `"; "`.
pub fn parse_rules(source: &str) -> (r: Result<Vec<Rule>, ScriptError>)
    requires
        encode_utf8(source@).len() < usize::MAX,
    ensures
        pipeline_result(pipeline(source@), r),
{
    let tokens = match tokenize(source) {
        Ok(t) => t,
        Err(e) => return Err(e),
    };
    match parse(tokens) {
        Err(errs) => {
            let chars = chars_of(source);
            let first = &errs[0];
            let (line, col) = source_position(&chars, first.span.start);
            Err(ScriptError::Parse { line, col, message: join_parse_errors(&errs) })
        },
        Ok(file) => {
            let checker = TypeChecker::new();
            match checker.check(&file) {
                Ok(()) => Ok(file.rules),
                Err(errs) => Err(ScriptError::Type(join_type_errors(&errs))),
            }
        },
    }
}

/// The rule files' contents joined, each followed by a newline.
pub fn join_sources(sources: &[String]) -> (s: String)
    ensures
        s@ == joined_sources(strings_view(sources@)),
{
    let ghost v = strings_view(sources@);
    let mut s = String::new();
    let mut i: usize = 0;
    while i < sources.len()
        invariant
            i <= sources.len(),
            v == strings_view(sources@),
            s@ == joined_sources(v.take(i as int)),
        decreases sources.len() - i,
    {
        push_str(&mut s, sources[i].as_str());
        s.push('\n');
        proof {
            reveal_strlit("\n");
            let t = v.take(i as int + 1);
            assert(t.drop_last() =~= v.take(i as int));
            assert(t.last() == sources@[i as int]@);
            assert(s@ =~= joined_sources(t.drop_last()) + t.last() + "\n"@);
        }
        i = i + 1;
    }
    assert(v.take(sources.len() as int) =~= v);
    s
}

/// The active rule set, replaced by a reload only when the new sources pass
/// the whole pipeline.
pub struct ActiveRules {
    current: CompiledRuleSet,
}

impl ActiveRules {
    /// Starts with `initial` active.
    pub fn new(initial: CompiledRuleSet) -> (a: Self)
        ensures
            a.current() == initial,
    {
        ActiveRules { current: initial }
    }

    /// The active rule set.
    pub closed spec fn current(&self) -> CompiledRuleSet {
        self.current
    }

    /// The active rule set.
    pub fn rules(&self) -> (r: &CompiledRuleSet)
        ensures
            *r == self.current(),
    {
        &self.current
    }

    /// Recompiles from the rule files' contents, in order.
    ///
    /// On success the new rule set, with no running timers, becomes active.
    /// On any error the previous rule set stays active, unchanged, and the
    /// error is returned.
    pub fn reload(&mut self, sources: &[String]) -> (r: Result<(), ScriptError>)
        requires
            encode_utf8(joined_sources(strings_view(sources@))).len() < usize::MAX,
        ensures
            match pipeline(joined_sources(strings_view(sources@))) {
                PipelineOutcome::Rules(rules) => r is Ok
                    && final(self).current().wf()
                    && final(self).current().rules_spec() == schedule_of(rules)
                    && final(self).current().timers() == Map::<TimerKey, u64>::empty(),
                o => r matches Err(e) && pipeline_error(o, e) && *final(self) == *old(self),
            },
    {
        let all = join_sources(sources);
        match parse_rules(all.as_str()) {
            Ok(rules) => {
                let compiled = CompiledRuleSet::from_rules(rules.as_slice());
                proof {
                    assert(compiled.rules_spec() =~= schedule_of(rules_view(rules@)));
                }
                self.current = compiled;
                Ok(())
            },
            Err(e) => Err(e),
        }
    }
}

} // verus!
