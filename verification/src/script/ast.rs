//! Syntax tree of the rule language, with its mathematical view.
//!
//! Produced by the parser and consumed by the type checker.
use vstd::prelude::*;

use crate::script::lexer::{Decimal, Span, SpecDecimal};

verus! {

/// A parsed rule file containing one or more rules.
#[derive(Debug)]
pub struct RuleFile {
    pub rules: Vec<Rule>,
}

/// A single rule: `rule <name> { when <condition> then <actions> }`.
#[derive(Debug)]
pub struct Rule {
    pub name: String,
    pub condition: Condition,
    pub actions: Vec<Action>,
    pub span: Span,
}

/// Boolean condition tree for the `when` clause.
#[derive(Debug)]
pub enum Condition {
    /// Field comparison: `<expr> <op> <expr>`.
    Comparison { left: Expr, op: CmpOp, right: Expr },
    /// Duration guard: inner condition must hold for the given seconds.
    Duration { condition: Box<Condition>, seconds: u64 },
    /// Logical AND of two conditions.
    And(Box<Condition>, Box<Condition>),
    /// Logical OR of two conditions.
    Or(Box<Condition>, Box<Condition>),
    /// Logical NOT of a condition.
    Not(Box<Condition>),
}

/// Value expression: field access or literal.
#[derive(Debug, PartialEq)]
pub enum Expr {
    /// Field access: `process.cpu`.
    FieldAccess { object: String, field: String },
    /// Literal value.
    Literal(Literal),
}

/// Literal values in expressions. Numbers with a fraction or a percent sign
/// keep the digits as written.
#[derive(Debug, PartialEq)]
pub enum Literal {
    Int(i64),
    Float(Decimal),
    Percent(Decimal),
    Duration(u64),
    Str(String),
}

/// Comparison operators.
#[derive(Debug, Clone, Copy, PartialEq, Eq, Structural)]
pub enum CmpOp {
    Gt,
    Lt,
    Gte,
    Lte,
    Eq,
    Neq,
}

/// Alert severity levels.
#[derive(Debug, Clone, Copy, PartialEq, Eq, Structural)]
pub enum Severity {
    Info,
    Warning,
    Critical,
}

/// Action to execute when the `when` clause matches.
#[derive(Debug, PartialEq)]
pub enum Action {
    Alert { message: String, severity: Severity },
    Kill,
    Log { message: String },
}

// ── Mathematical view ──────────────────────────────────────────────

/// View of a [`Literal`].
pub enum SpecLiteral {
    Int(i64),
    Float(SpecDecimal),
    Percent(SpecDecimal),
    Duration(u64),
    Str(Seq<char>),
}

/// View of an [`Expr`].
pub enum SpecExpr {
    FieldAccess { object: Seq<char>, field: Seq<char> },
    Literal(SpecLiteral),
}

/// View of a [`Condition`].
pub enum SpecCondition {
    Comparison { left: SpecExpr, op: CmpOp, right: SpecExpr },
    Duration { condition: Box<SpecCondition>, seconds: u64 },
    And(Box<SpecCondition>, Box<SpecCondition>),
    Or(Box<SpecCondition>, Box<SpecCondition>),
    Not(Box<SpecCondition>),
}

/// View of an [`Action`].
pub enum SpecAction {
    Alert { message: Seq<char>, severity: Severity },
    Kill,
    Log { message: Seq<char> },
}

/// View of a [`Rule`].
pub struct SpecRule {
    pub name: Seq<char>,
    pub condition: SpecCondition,
    pub actions: Seq<SpecAction>,
    pub span: Span,
}

impl View for Literal {
    type V = SpecLiteral;

    open spec fn view(&self) -> SpecLiteral {
        match self {
            Literal::Int(n) => SpecLiteral::Int(*n),
            Literal::Float(d) => SpecLiteral::Float(d@),
            Literal::Percent(d) => SpecLiteral::Percent(d@),
            Literal::Duration(n) => SpecLiteral::Duration(*n),
            Literal::Str(s) => SpecLiteral::Str(s@),
        }
    }
}

impl View for Expr {
    type V = SpecExpr;

    open spec fn view(&self) -> SpecExpr {
        match self {
            Expr::FieldAccess { object, field } => SpecExpr::FieldAccess {
                object: object@,
                field: field@,
            },
            Expr::Literal(l) => SpecExpr::Literal(l@),
        }
    }
}

/// The view of a condition tree.
pub open spec fn condition_view(c: &Condition) -> SpecCondition
    decreases c,
{
    match c {
        Condition::Comparison { left, op, right } => SpecCondition::Comparison {
            left: left@,
            op: *op,
            right: right@,
        },
        Condition::Duration { condition, seconds } => SpecCondition::Duration {
            condition: Box::new(condition_view(condition)),
            seconds: *seconds,
        },
        Condition::And(a, b) => SpecCondition::And(
            Box::new(condition_view(a)),
            Box::new(condition_view(b)),
        ),
        Condition::Or(a, b) => SpecCondition::Or(
            Box::new(condition_view(a)),
            Box::new(condition_view(b)),
        ),
        Condition::Not(a) => SpecCondition::Not(Box::new(condition_view(a))),
    }
}

impl View for Condition {
    type V = SpecCondition;

    open spec fn view(&self) -> SpecCondition {
        condition_view(self)
    }
}

impl View for Action {
    type V = SpecAction;

    open spec fn view(&self) -> SpecAction {
        match self {
            Action::Alert { message, severity } => SpecAction::Alert {
                message: message@,
                severity: *severity,
            },
            Action::Kill => SpecAction::Kill,
            Action::Log { message } => SpecAction::Log { message: message@ },
        }
    }
}

/// The view of a list of actions.
pub open spec fn actions_view(v: Seq<Action>) -> Seq<SpecAction> {
    v.map_values(|a: Action| a@)
}

impl View for Rule {
    type V = SpecRule;

    open spec fn view(&self) -> SpecRule {
        SpecRule {
            name: self.name@,
            condition: self.condition@,
            actions: actions_view(self.actions@),
            span: self.span,
        }
    }
}

/// The view of a list of rules.
pub open spec fn rules_view(v: Seq<Rule>) -> Seq<SpecRule> {
    v.map_values(|r: Rule| r@)
}

/// The printed form of a comparison operator.
pub open spec fn cmp_op_text(op: CmpOp) -> Seq<char> {
    match op {
        CmpOp::Gt => ">"@,
        CmpOp::Lt => "<"@,
        CmpOp::Gte => ">="@,
        CmpOp::Lte => "<="@,
        CmpOp::Eq => "=="@,
        CmpOp::Neq => "!="@,
    }
}

impl CmpOp {
    /// The operator as it is written in rule source.
    pub fn as_str(self) -> (s: &'static str)
        ensures
            s@ == cmp_op_text(self),
    {
        match self {
            CmpOp::Gt => ">",
            CmpOp::Lt => "<",
            CmpOp::Gte => ">=",
            CmpOp::Lte => "<=",
            CmpOp::Eq => "==",
            CmpOp::Neq => "!=",
        }
    }

    /// The operator as it is written in rule source, as an owned string.
    pub fn to_string(self) -> (s: String)
        ensures
            s@ == cmp_op_text(self),
    {
        self.as_str().to_owned()
    }
}

/// Numeric encoding of a severity.
pub open spec fn severity_code(s: Severity) -> i64 {
    match s {
        Severity::Info => 0,
        Severity::Warning => 1,
        Severity::Critical => 2,
    }
}

impl Severity {
    /// Numeric encoding used in rule results: 0 info, 1 warning, 2 critical.
    pub fn as_i64(self) -> (n: i64)
        ensures
            n == severity_code(self),
    {
        match self {
            Severity::Info => 0,
            Severity::Warning => 1,
            Severity::Critical => 2,
        }
    }
}

impl Rule {
    /// The duration in seconds when the top-level condition is a duration guard.
    pub fn duration_secs(&self) -> (r: Option<u64>)
        ensures
            r == (match self.condition@ {
                SpecCondition::Duration { seconds, .. } => Some(seconds),
                _ => None,
            }),
    {
        match &self.condition {
            Condition::Duration { seconds, .. } => Some(*seconds),
            _ => None,
        }
    }

    /// The condition to evaluate: the inner condition of a top-level duration
    /// guard, or the whole condition otherwise.
    pub fn eval_condition(&self) -> (c: &Condition)
        ensures
            c@ == (match self.condition@ {
                SpecCondition::Duration { condition, .. } => *condition,
                other => other,
            }),
    {
        match &self.condition {
            Condition::Duration { condition, .. } => condition,
            _ => &self.condition,
        }
    }
}

} // verus!
