use aether::script::ast::{Action, CmpOp, Condition, Expr, Literal, Rule, RuleFile, Severity};
use aether::script::error::ScriptError;
use aether::script::lexer::{tokenize, Decimal, Span, Token};
use aether::script::parser::{parse, ParseError};
use aether::script::reload::{join_sources, parse_rules, ActiveRules};
use aether::script::runtime::{CompiledRuleSet, DurationTracker, EngineStats, RuleResult};
use aether::script::types::{AetherType, TypeChecker};

fn dec(whole: &str, frac: &str) -> Decimal {
    Decimal { whole: whole.to_string(), frac: frac.to_string() }
}

fn parse_source(source: &str) -> Result<RuleFile, Vec<ParseError>> {
    let tokens = tokenize(source).expect("lexer should succeed");
    parse(tokens)
}

#[test]
fn test_tokenize_simple_rule() {
    let source = r#"rule high_cpu {
            when process.cpu > 90%
            then alert "high cpu" severity critical
        }"#;
    let tokens = tokenize(source).expect("should tokenize");
    let kinds: Vec<Token> = tokens.iter().map(|(t, _)| t.clone()).collect();

    assert_eq!(kinds[0], Token::Rule);
    assert_eq!(kinds[1], Token::Ident("high_cpu".into()));
    assert_eq!(kinds[2], Token::LBrace);
    assert_eq!(kinds[3], Token::When);
    assert_eq!(kinds[4], Token::Process);
    assert_eq!(kinds[5], Token::Dot);
    assert_eq!(kinds[6], Token::Ident("cpu".into()));
    assert_eq!(kinds[7], Token::Gt);
    assert_eq!(kinds[8], Token::Percent(dec("90", "")));
    assert_eq!(kinds[9], Token::Then);
    assert_eq!(kinds[10], Token::Alert);
    assert_eq!(kinds[11], Token::StringLit("high cpu".into()));
    assert_eq!(kinds[12], Token::Severity);
    assert_eq!(kinds[13], Token::Critical);
    assert_eq!(kinds[14], Token::RBrace);
    assert_eq!(kinds.len(), 15);
}

#[test]
fn test_tokenize_duration_literals() {
    let tokens = tokenize("30s 5m 2h").expect("should tokenize");
    let kinds: Vec<Token> = tokens.iter().map(|(t, _)| t.clone()).collect();

    assert_eq!(kinds[0], Token::Duration(30), "30 seconds");
    assert_eq!(kinds[1], Token::Duration(300), "5 minutes in seconds");
    assert_eq!(kinds[2], Token::Duration(7200), "2 hours in seconds");
}

#[test]
fn test_tokenize_operators() {
    let tokens = tokenize("> < >= <= == !=").expect("should tokenize");
    let kinds: Vec<Token> = tokens.iter().map(|(t, _)| t.clone()).collect();

    assert_eq!(
        kinds,
        vec![Token::Gt, Token::Lt, Token::Gte, Token::Lte, Token::Eq, Token::Neq],
    );
}

#[test]
fn test_tokenize_error_on_invalid_token() {
    let result = tokenize("rule @invalid");
    assert!(result.is_err(), "@ should produce a lex error");

    let err = result.unwrap_err();
    assert!(
        err.to_string().contains("unexpected token"),
        "error message should mention unexpected token, got: {}",
        err.to_string(),
    );
}

#[test]
fn tokenize_reports_byte_offset_and_spans() {
    let err = tokenize("rule @invalid").unwrap_err();
    assert!(matches!(&err, ScriptError::Lex(m) if m == "unexpected token at offset 5"));
    let tokens = tokenize("é > 1").unwrap_err();
    assert!(matches!(&tokens, ScriptError::Lex(m) if m == "unexpected token at offset 0"));
    let tokens = tokenize("x >= 1.50").expect("should tokenize");
    assert_eq!(tokens[0].1, Span { start: 0, end: 1 });
    assert_eq!(tokens[1].1, Span { start: 2, end: 4 });
    assert_eq!(tokens[2], (Token::Float(dec("1", "50")), Span { start: 5, end: 9 }));
}

#[test]
fn tokenize_skips_comments_and_rejects_overflow() {
    let tokens = tokenize("// note\nrule").expect("should tokenize");
    assert_eq!(tokens.len(), 1);
    assert_eq!(tokens[0], (Token::Rule, Span { start: 8, end: 12 }));
    assert!(tokenize("9223372036854775807").is_ok());
    assert!(tokenize("9223372036854775808").is_err());
    assert!(tokenize("307445734561825861h").is_err());
}

#[test]
fn test_parse_simple_rule() {
    let ast = parse_source(
        r#"rule high_cpu {
                when process.cpu > 90%
                then alert "CPU too high" severity critical
            }"#,
    )
    .expect("should parse");

    assert_eq!(ast.rules.len(), 1);
    let rule = &ast.rules[0];
    assert_eq!(rule.name, "high_cpu");
    assert!(matches!(
        &rule.condition,
        Condition::Comparison {
            left: Expr::FieldAccess { object, field },
            op: CmpOp::Gt,
            right: Expr::Literal(Literal::Percent(p)),
        } if object == "process" && field == "cpu" && *p == dec("90", "")
    ));
    assert_eq!(rule.actions.len(), 1);
    assert!(matches!(
        &rule.actions[0],
        Action::Alert { message, severity: Severity::Critical }
        if message == "CPU too high"
    ));
}

#[test]
fn test_parse_compound_condition_and_or() {
    let ast = parse_source(
        r#"rule compound {
                when process.cpu > 80% and process.mem > 70% or process.threads > 100
                then alert "compound" severity warning
            }"#,
    )
    .expect("should parse");

    let rule = &ast.rules[0];
    assert!(matches!(&rule.condition, Condition::Or(_, _)));
    if let Condition::Or(left, _right) = &rule.condition {
        assert!(matches!(left.as_ref(), Condition::And(_, _)));
    }
}

#[test]
fn test_parse_duration_condition() {
    let ast = parse_source(
        r#"rule leak {
                when process.mem_growth > 5% for 60s
                then alert "memory leak" severity warning
            }"#,
    )
    .expect("should parse");

    let rule = &ast.rules[0];
    assert!(matches!(&rule.condition, Condition::Duration { seconds: 60, .. }));
    assert_eq!(rule.duration_secs(), Some(60));
}

#[test]
fn test_parse_error_recovery() {
    let source = r#"
            rule broken {
                process.cpu > 50%
                then alert "oops" severity info
            }
            rule ok {
                when process.cpu > 90%
                then alert "fine" severity critical
            }
        "#;
    let err = parse_source(source).unwrap_err();
    assert!(!err.is_empty(), "should have errors");
}

#[test]
fn parse_error_names_expected_and_found() {
    let err = parse_source("rule r { when process.cpu > 1 }").unwrap_err();
    assert_eq!(err.len(), 1);
    assert_eq!(err[0].message, "expected 'then', found '}'");
    let err = parse_source("rule r { when process.cpu > 1 then }").unwrap_err();
    assert!(err[0].message.contains("at least one action"), "got: {}", err[0].message);
    let err = parse_source("rule { }").unwrap_err();
    assert!(err[0].to_string().starts_with("parse error at 5..6: "), "got: {}", err[0].to_string());
}

#[test]
fn parse_keeps_every_action_in_order() {
    let ast = parse_source(
        r#"rule r { when not process.cpu > 1 then kill log "a" alert "b" severity info }"#,
    )
    .expect("should parse");
    let rule = &ast.rules[0];
    assert!(matches!(&rule.condition, Condition::Not(_)));
    assert_eq!(rule.actions.len(), 3);
    assert_eq!(rule.actions[0], Action::Kill);
    assert_eq!(rule.actions[1], Action::Log { message: "a".to_string() });
    assert_eq!(rule.actions[2], Action::Alert { message: "b".to_string(), severity: Severity::Info });
}

fn make_rule(name: &str, condition: Condition, actions: Vec<Action>) -> RuleFile {
    RuleFile {
        rules: vec![Rule { name: name.to_string(), condition, actions, span: Span { start: 0, end: 0 } }],
    }
}

fn cpu_gt_percent(value: Decimal) -> Condition {
    Condition::Comparison {
        left: Expr::FieldAccess { object: "process".to_string(), field: "cpu".to_string() },
        op: CmpOp::Gt,
        right: Expr::Literal(Literal::Percent(value)),
    }
}

fn alert(msg: &str) -> Action {
    Action::Alert { message: msg.to_string(), severity: Severity::Warning }
}

#[test]
fn test_valid_rule_passes_type_check() {
    let file = make_rule("high_cpu", cpu_gt_percent(dec("90", "")), vec![alert("cpu high")]);
    let checker = TypeChecker::new();
    assert!(checker.check(&file).is_ok(), "valid rule should pass");
}

#[test]
fn test_percent_vs_float_comparison_passes() {
    let condition = Condition::Comparison {
        left: Expr::FieldAccess { object: "process".to_string(), field: "cpu".to_string() },
        op: CmpOp::Gt,
        right: Expr::Literal(Literal::Float(dec("0", "9"))),
    };
    let file = make_rule("cpu_float", condition, vec![alert("cpu high")]);
    let checker = TypeChecker::new();
    assert!(checker.check(&file).is_ok(), "Percent vs Float should be compatible");
}

#[test]
fn test_percent_vs_string_comparison_fails() {
    let condition = Condition::Comparison {
        left: Expr::FieldAccess { object: "process".to_string(), field: "cpu".to_string() },
        op: CmpOp::Gt,
        right: Expr::Literal(Literal::Str("high".to_string())),
    };
    let file = make_rule("bad_compare", condition, vec![alert("oops")]);
    let checker = TypeChecker::new();
    let err = checker.check(&file).unwrap_err();
    assert_eq!(err.len(), 1);
    assert!(
        err[0].message.contains("type mismatch") || err[0].message.contains("non-numeric"),
        "should mention type mismatch or non-numeric, got: {}",
        err[0].message,
    );
}

#[test]
fn test_unknown_field_produces_error() {
    let condition = Condition::Comparison {
        left: Expr::FieldAccess { object: "process".to_string(), field: "nonexistent".to_string() },
        op: CmpOp::Gt,
        right: Expr::Literal(Literal::Int(0)),
    };
    let file = make_rule("bad_field", condition, vec![alert("oops")]);
    let checker = TypeChecker::new();
    let err = checker.check(&file).unwrap_err();
    assert_eq!(err.len(), 1);
    assert!(err[0].message.contains("unknown field"), "should mention unknown field, got: {}", err[0].message);
}

#[test]
fn test_unknown_object_produces_error() {
    let condition = Condition::Comparison {
        left: Expr::FieldAccess { object: "network".to_string(), field: "bytes".to_string() },
        op: CmpOp::Gt,
        right: Expr::Literal(Literal::Int(0)),
    };
    let file = make_rule("bad_object", condition, vec![alert("oops")]);
    let checker = TypeChecker::new();
    let err = checker.check(&file).unwrap_err();
    assert_eq!(err.len(), 1);
    assert!(err[0].message.contains("unknown object"), "should mention unknown object, got: {}", err[0].message);
}

#[test]
fn type_compatibility_is_symmetric_and_numeric() {
    let all = [
        AetherType::Percent,
        AetherType::Int,
        AetherType::Float,
        AetherType::Duration,
        AetherType::Str,
        AetherType::Bool,
    ];
    for a in all {
        assert!(a.compatible_with(a));
        for b in all {
            assert_eq!(a.compatible_with(b), b.compatible_with(a));
        }
    }
    assert!(AetherType::Percent.compatible_with(AetherType::Float));
    assert!(!AetherType::Duration.compatible_with(AetherType::Int));
    assert!(!AetherType::Str.is_numeric());
    assert_eq!(AetherType::Percent.to_string(), "Percent");
}

#[test]
fn test_ast_node_construction() {
    let rule = Rule {
        name: "high_cpu".to_string(),
        condition: Condition::Comparison {
            left: Expr::FieldAccess { object: "process".to_string(), field: "cpu".to_string() },
            op: CmpOp::Gt,
            right: Expr::Literal(Literal::Percent(dec("90", ""))),
        },
        actions: vec![Action::Alert { message: "CPU too high".to_string(), severity: Severity::Critical }],
        span: Span { start: 0, end: 100 },
    };

    assert_eq!(rule.name, "high_cpu");
    assert_eq!(rule.actions.len(), 1);
    assert!(rule.duration_secs().is_none(), "no duration wrapper");

    match &rule.condition {
        Condition::Comparison { left, op, right } => {
            assert_eq!(*left, Expr::FieldAccess { object: "process".to_string(), field: "cpu".to_string() });
            assert_eq!(*op, CmpOp::Gt);
            assert_eq!(*right, Expr::Literal(Literal::Percent(dec("90", ""))));
        }
        _ => panic!("expected Comparison condition"),
    }

    let duration_rule = Rule {
        name: "sustained".to_string(),
        condition: Condition::Duration {
            condition: Box::new(Condition::Comparison {
                left: Expr::FieldAccess { object: "process".to_string(), field: "mem_growth".to_string() },
                op: CmpOp::Gt,
                right: Expr::Literal(Literal::Percent(dec("5", ""))),
            }),
            seconds: 60,
        },
        actions: vec![Action::Alert { message: "memory leak".to_string(), severity: Severity::Warning }],
        span: Span { start: 0, end: 80 },
    };

    assert_eq!(duration_rule.duration_secs(), Some(60));
    assert!(
        matches!(duration_rule.eval_condition(), Condition::Comparison { .. }),
        "eval_condition should unwrap Duration",
    );
}

#[test]
fn test_cmpop_display() {
    assert_eq!(CmpOp::Gt.to_string(), ">");
    assert_eq!(CmpOp::Lt.to_string(), "<");
    assert_eq!(CmpOp::Gte.to_string(), ">=");
    assert_eq!(CmpOp::Lte.to_string(), "<=");
    assert_eq!(CmpOp::Eq.to_string(), "==");
    assert_eq!(CmpOp::Neq.to_string(), "!=");
}

#[test]
fn severity_codes() {
    assert_eq!(Severity::Info.as_i64(), 0);
    assert_eq!(Severity::Warning.as_i64(), 1);
    assert_eq!(Severity::Critical.as_i64(), 2);
}

const SECOND: u64 = 1_000_000_000;

fn matched(pid: u32) -> RuleResult {
    RuleResult { matched: 1, action_type: 1, target_pid: pid, severity: 1 }
}

fn unmatched(pid: u32) -> RuleResult {
    RuleResult { matched: 0, action_type: 0, target_pid: pid, severity: 0 }
}

fn rules_of(source: &str) -> Vec<Rule> {
    parse_rules(source).expect("rules should pass the pipeline")
}

#[test]
fn test_rule_fires_only_after_duration_elapsed() {
    let mut ruleset =
        CompiledRuleSet::from_rules(&rules_of("rule r { when process.cpu > 90% for 0s then kill }"));
    let actions = ruleset.evaluate(42, &[matched(42)], 0);
    assert_eq!(actions.len(), 1, "0s duration should fire immediately");

    let mut ruleset =
        CompiledRuleSet::from_rules(&rules_of("rule r { when process.cpu > 90% for 1h then kill }"));
    let actions = ruleset.evaluate(42, &[matched(42)], 5 * SECOND);
    assert!(actions.is_empty(), "rule should not fire before duration elapses");
    let actions = ruleset.evaluate(42, &[matched(42)], 6 * SECOND);
    assert!(actions.is_empty(), "rule should still not fire — duration not yet elapsed");
    let actions = ruleset.evaluate(42, &[matched(42)], 3605 * SECOND);
    assert_eq!(actions.len(), 1, "fires once the hour has passed");
}

#[test]
fn test_timer_resets_when_condition_false() {
    let mut ruleset =
        CompiledRuleSet::from_rules(&rules_of("rule r { when process.cpu > 90% for 0s then kill }"));
    let actions = ruleset.evaluate(42, &[matched(42)], 0);
    assert_eq!(actions.len(), 1, "0s duration fires immediately");
    let actions = ruleset.evaluate(42, &[unmatched(42)], SECOND);
    assert!(actions.is_empty(), "should not fire when condition is false");
    let actions = ruleset.evaluate(42, &[matched(42)], 2 * SECOND);
    assert_eq!(actions.len(), 1, "should fire again after timer reset and condition re-met");
}

#[test]
fn test_multiple_rules_tracked_independently() {
    let rules = rules_of(
        "rule rule_a { when process.cpu > 90% for 1h then alert \"a\" severity warning }
         rule rule_b { when process.cpu > 90% for 0s then alert \"b\" severity critical }",
    );
    let mut ruleset = CompiledRuleSet::from_rules(&rules);
    let actions = ruleset.evaluate(42, &[matched(42), matched(42)], 0);
    assert_eq!(actions.len(), 1, "only rule_b should fire");
    assert_eq!(actions[0].rule_name, "rule_b");
    assert_eq!(ruleset.rule_names(), vec!["rule_a".to_string(), "rule_b".to_string()]);
}

#[test]
fn reset_law_on_tracker() {
    let mut tracker = DurationTracker::new();
    assert!(!tracker.check_duration("r", 7, true, 10, 0));
    assert!(!tracker.check_duration("r", 7, false, 10, 20 * SECOND));
    assert!(!tracker.check_duration("r", 7, true, 10, 21 * SECOND));
    assert!(tracker.check_duration("r", 7, true, 10, 31 * SECOND));
    assert!(tracker.check_duration("r", 8, true, 0, 31 * SECOND));
}

#[test]
fn engine_stats_count_matches() {
    let mut stats = EngineStats::new();
    stats.record_action(&"a".to_string());
    stats.record_action(&"b".to_string());
    stats.record_action(&"a".to_string());
    stats.record_evaluations(3);
    assert_eq!(stats.actions_triggered, 3);
    assert_eq!(stats.evaluations, 3);
    assert_eq!(stats.rule_match_counts, vec![("a".to_string(), 2), ("b".to_string(), 1)]);
}

#[test]
fn pipeline_errors_carry_their_stage() {
    assert!(matches!(parse_rules("rule @"), Err(ScriptError::Lex(_))));
    let err = parse_rules("rule r {\n  when then kill }").unwrap_err();
    assert!(matches!(&err, ScriptError::Parse { line: 2, col: 8, .. }), "got: {}", err.to_string());
    let err = parse_rules("rule r { when process.nope > 1 then kill }").unwrap_err();
    assert!(matches!(&err, ScriptError::Type(m) if m.contains("unknown field")));
    assert_eq!(
        ScriptError::Parse { line: 3, col: 4, message: "x".to_string() }.to_string(),
        "parse error at 3:4: x"
    );
}

#[test]
fn test_current_rules_returns_initial_rules() {
    let compiled = CompiledRuleSet::from_rules(&rules_of("rule high_cpu { when process.cpu > 90% then kill }"));
    let active = ActiveRules::new(compiled);
    assert_eq!(active.rules().rule_names(), vec!["high_cpu".to_string()]);
}

#[test]
fn test_compilation_error_preserves_old_rules() {
    let compiled = CompiledRuleSet::from_rules(&rules_of("rule high_cpu { when process.cpu > 90% then kill }"));
    let mut active = ActiveRules::new(compiled);
    let result = active.reload(&["rule broken { when }".to_string()]);
    assert!(result.is_err(), "recompile should fail for a broken file");
    assert_eq!(active.rules().rule_names(), vec!["high_cpu".to_string()]);

    let result = active.reload(&[
        "rule a { when process.cpu > 1% then kill }".to_string(),
        "rule b { when process.cpu > 2% then kill }".to_string(),
    ]);
    assert!(result.is_ok());
    assert_eq!(active.rules().rule_names(), vec!["a".to_string(), "b".to_string()]);
}

#[test]
fn sources_join_with_newlines() {
    assert_eq!(join_sources(&["a".to_string(), "b".to_string()]), "a\nb\n");
    assert_eq!(join_sources(&[]), "");
}

use aether::model::{AgentAction, DiagSeverity};
use aether::script::bridge::{arbiter_request, parse_severity, script_finding, FindingIds, Urgency, FIRST_FINDING_ID};
use aether::tui::diagnostics::DiagTarget;
use aether::tui::findings::DiagCategory;
use aether::script::runtime::RuleAction;
use aether::tui::rules::RulesDisplayState;
use aether::web::api::RecommendedAction;

fn fired(name: &str, action: u32, pid: u32, severity: u32) -> RuleAction {
    RuleAction { rule_name: name.to_string(), action, target_pid: pid, severity }
}

#[test]
fn fired_rule_becomes_operator_request() {
    assert_eq!(
        arbiter_request(&fired("r", 2, 5, 1)),
        AgentAction::CustomScript { command: "rule:r action:2 pid:5 sev:1".to_string() }
    );
}

#[test]
fn severity_names_from_configuration() {
    assert_eq!(parse_severity("critical"), DiagSeverity::Critical);
    assert_eq!(parse_severity("warning"), DiagSeverity::Warning);
    assert_eq!(parse_severity("Critical"), DiagSeverity::Info);
}

#[test]
fn fired_rule_becomes_finding() {
    let mut ids = FindingIds::new();
    let f = script_finding(&fired("leak", 2, 77, 2), &mut ids);
    assert_eq!(f.id, 1_000_000);
    assert_eq!(f.host, "local");
    assert_eq!(f.target, DiagTarget::Process { pid: 77, name: String::new() });
    assert_eq!(f.category, DiagCategory::ScriptRule);
    assert_eq!(f.evidence_metric, "script_rule");
    assert!(!f.auto_executable);
    assert_eq!(f.severity, DiagSeverity::Critical);
    assert_eq!(f.urgency, Urgency::Immediate);
    assert_eq!(f.summary, "[script] rule 'leak' fired on pid 77");
    assert_eq!(f.evidence_context, "action=2, severity=2");
    assert_eq!(f.recommendation_reason, "triggered by .aether rule 'leak'");
    assert_eq!(
        f.recommendation,
        RecommendedAction::KillProcess { pid: 77, reason: "script rule 'leak' triggered kill".to_string() }
    );
    let g = script_finding(&fired("x", 3, 1, 0), &mut ids);
    assert_eq!(g.id, 1_000_001);
    assert_eq!(ids.next, 1_000_002);
    assert_eq!(g.severity, DiagSeverity::Info);
    assert_eq!(g.recommendation, RecommendedAction::NoAction { reason: "script rule 'x' logged event".to_string() });
}

#[test]
fn display_counts_follow_fired_rules() {
    let mut ds = RulesDisplayState::for_rules(&vec!["a".to_string(), "b".to_string()]);
    assert_eq!(ds.match_counts, vec![0, 0]);
    ds.record_action(&"b".to_string());
    ds.record_action(&"b".to_string());
    ds.record_action(&"zzz".to_string());
    assert_eq!(ds.match_counts, vec![0, 2]);
    assert_eq!(ds.total_actions, 3);
}

#[test]
fn engine_stats_record_snapshot() {
    let mut stats = EngineStats::new();
    stats.record_snapshot(&[fired("a", 1, 1, 1), fired("a", 1, 2, 1)], 2);
    assert_eq!(stats.actions_triggered, 2);
    assert_eq!(stats.evaluations, 2);
    assert_eq!(stats.rule_match_counts, vec![("a".to_string(), 2)]);
}

#[test]
fn parse_failure_reports_every_parse_error() {
    let err = parse_rules("rule a { when then kill }\nrule b { when then kill }").unwrap_err();
    match err {
        ScriptError::Parse { line, col, message } => {
            assert_eq!((line, col), (1, 15));
            let parts: Vec<&str> = message.split("; ").collect();
            assert_eq!(parts.len(), 2, "got: {message}");
            assert!(parts.iter().all(|p| p.starts_with("parse error at ")), "got: {message}");
        }
        other => panic!("unexpected {}", other.to_string()),
    }
}

#[test]
fn finding_ids_start_high_and_rise() {
    let mut ids = FindingIds::new();
    assert_eq!(ids.next, FIRST_FINDING_ID);
    assert_eq!(ids.take(), 1_000_000);
    assert_eq!(ids.take(), 1_000_001);
    let mut last = FindingIds { next: u64::MAX };
    assert_eq!(last.take(), u64::MAX);
    assert_eq!(last.next, 0);
}

#[test]
fn snapshot_step_collects_actions_per_process() {
    let mut ruleset = CompiledRuleSet::from_rules(&rules_of(
        "rule hot { when process.cpu > 90% then kill }
         rule slow { when process.cpu > 50% for 1h then log \"x\" }",
    ));
    let snapshot = vec![
        (1u32, vec![matched(1), matched(1)]),
        (2u32, vec![unmatched(2), matched(2)]),
        (3u32, vec![matched(3), unmatched(3)]),
    ];
    let actions = ruleset.collect_actions(&snapshot, 0);
    let fired: Vec<(&str, u32)> = actions.iter().map(|a| (a.rule_name.as_str(), a.target_pid)).collect();
    assert_eq!(fired, vec![("hot", 1), ("hot", 3)]);
    let later = ruleset.collect_actions(&snapshot, 3601 * SECOND);
    let fired: Vec<(&str, u32)> = later.iter().map(|a| (a.rule_name.as_str(), a.target_pid)).collect();
    assert_eq!(fired, vec![("hot", 1), ("slow", 1), ("slow", 2), ("hot", 3)]);
    assert!(ruleset.collect_actions(&[], 0).is_empty());
}
