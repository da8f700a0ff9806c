use aether::model::DiagSeverity;
use aether::tui::diagnostics::DiagTarget;
use aether::tui::findings::{
    detail_lines, detail_panel_lines, detail_title, list_lines, upsert_findings, DetailExtras, DiagCategory, Finding, MAX_FINDINGS,
};
use aether::script::bridge::Urgency;
use aether::tui::overview::{format_diag_cell, overview_header, overview_rows, ProcessRow, SortColumn};
use aether::model::ProcessState;

fn make_finding(pid: u32, category: DiagCategory, severity: DiagSeverity) -> Finding {
    Finding {
        id: pid as u64,
        target: DiagTarget::Process {
            pid,
            name: format!("proc-{pid}"),
        },
        category,
        severity,
        summary: String::new(),
    }
}

#[test]
fn test_upsert_replaces_existing_by_target_and_category() {
    let mut diags = vec![make_finding(1, DiagCategory::CpuSpike, DiagSeverity::Warning)];
    let updated = make_finding(1, DiagCategory::CpuSpike, DiagSeverity::Critical);
    upsert_findings(&mut diags, vec![updated]);

    assert_eq!(diags.len(), 1, "should replace, not append");
    assert_eq!(diags[0].severity, DiagSeverity::Critical);
}

#[test]
fn test_upsert_pushes_new_when_key_differs() {
    let mut diags = vec![make_finding(1, DiagCategory::CpuSpike, DiagSeverity::Info)];
    upsert_findings(
        &mut diags,
        vec![make_finding(2, DiagCategory::MemoryLeak, DiagSeverity::Warning)],
    );

    assert_eq!(diags.len(), 2);
}

#[test]
fn test_upsert_evicts_lowest_severity_over_capacity() {
    let mut diags: Vec<Finding> = (0..200)
        .map(|i| make_finding(i, DiagCategory::CpuSpike, DiagSeverity::Critical))
        .collect();
    upsert_findings(
        &mut diags,
        vec![make_finding(999, DiagCategory::MemoryLeak, DiagSeverity::Info)],
    );

    assert_eq!(diags.len(), 200, "should evict back to 200");
    assert!(
        diags.iter().all(|d| d.severity == DiagSeverity::Critical),
        "Info diagnostic should have been evicted"
    );
}

#[test]
fn upsert_same_target_other_category_appends() {
    let mut diags = vec![make_finding(1, DiagCategory::CpuSpike, DiagSeverity::Info)];
    upsert_findings(
        &mut diags,
        vec![make_finding(1, DiagCategory::MemoryLeak, DiagSeverity::Info)],
    );
    assert_eq!(diags.len(), 2);
    assert_eq!(diags[1].category, DiagCategory::MemoryLeak);
}

#[test]
fn upsert_keeps_position_of_replaced_finding() {
    let mut diags = vec![
        make_finding(1, DiagCategory::CpuSpike, DiagSeverity::Info),
        make_finding(2, DiagCategory::CpuSpike, DiagSeverity::Info),
        make_finding(3, DiagCategory::CpuSpike, DiagSeverity::Info),
    ];
    let mut updated = make_finding(2, DiagCategory::CpuSpike, DiagSeverity::Critical);
    updated.summary = "hot".to_string();
    upsert_findings(&mut diags, vec![updated]);
    assert_eq!(diags.len(), 3);
    assert_eq!(diags[1].summary, "hot");
    assert_eq!(diags[1].severity, DiagSeverity::Critical);
    assert_eq!(diags[0].severity, DiagSeverity::Info);
}

#[test]
fn upsert_over_capacity_orders_by_severity_and_drops_oldest_least_severe() {
    let mut diags: Vec<Finding> = (0..199)
        .map(|i| make_finding(i, DiagCategory::CpuSpike, DiagSeverity::Warning))
        .collect();
    upsert_findings(
        &mut diags,
        vec![
            make_finding(500, DiagCategory::CpuSpike, DiagSeverity::Info),
            make_finding(501, DiagCategory::CpuSpike, DiagSeverity::Critical),
            make_finding(502, DiagCategory::CpuSpike, DiagSeverity::Info),
        ],
    );
    assert_eq!(diags.len(), MAX_FINDINGS);
    // Two findings past the capacity: both Info ones leave.
    assert!(diags.iter().all(|d| d.severity != DiagSeverity::Info));
    assert_eq!(diags[0].id, 0);
    assert_eq!(diags[198].id, 198);
    assert_eq!(diags[199].id, 501);
}

#[test]
fn upsert_nothing_new_leaves_list() {
    let mut diags = vec![make_finding(7, DiagCategory::ScriptRule, DiagSeverity::Warning)];
    upsert_findings(&mut diags, Vec::new());
    assert_eq!(diags.len(), 1);
    assert_eq!(diags[0].id, 7);
}

fn make_diagnostic(pid: u32, severity: DiagSeverity, summary: &str) -> Finding {
    let mut f = make_finding(pid, DiagCategory::CpuSpike, severity);
    f.summary = summary.to_string();
    f
}

#[test]
fn test_diag_cell_empty_when_no_diagnostics() {
    let cell = format_diag_cell(42, &[]);
    assert_eq!(cell.0, "");
}

#[test]
fn test_diag_cell_shows_highest_severity() {
    let diags = vec![
        make_diagnostic(1, DiagSeverity::Info, "info msg"),
        make_diagnostic(1, DiagSeverity::Critical, "crit msg"),
        make_diagnostic(1, DiagSeverity::Warning, "warn msg"),
    ];
    let cell = format_diag_cell(1, &diags);
    let text = cell.0;
    assert!(text.contains("crit msg"), "should show critical: {text}");
}

#[test]
fn test_diag_cell_truncates_long_summary() {
    let diags = vec![make_diagnostic(1, DiagSeverity::Warning, "this is a very long summary text")];
    let cell = format_diag_cell(1, &diags);
    let text = cell.0;
    assert!(text.contains('\u{2026}'), "should contain ellipsis: {text}");
    assert!(!text.contains("summary text"), "should be truncated: {text}");
}

#[test]
fn test_diag_cell_no_match_for_different_pid() {
    let diags = vec![make_diagnostic(1, DiagSeverity::Critical, "crit")];
    let cell = format_diag_cell(99, &diags);
    assert_eq!(cell.0, "");
}

#[test]
fn diag_cell_exact_text_and_severity() {
    let diags = vec![
        make_diagnostic(1, DiagSeverity::Warning, "first"),
        make_diagnostic(2, DiagSeverity::Critical, "other pid"),
        make_diagnostic(1, DiagSeverity::Warning, "second"),
        make_diagnostic(1, DiagSeverity::Info, "third"),
    ];
    let (text, sev) = format_diag_cell(1, &diags);
    // Among equally severe findings the last one wins.
    assert_eq!(text, "\u{25a0} second");
    assert_eq!(sev, Some(DiagSeverity::Warning));

    let (text, sev) = format_diag_cell(1, &[make_diagnostic(1, DiagSeverity::Info, "0123456789abcdefXYZ")]);
    assert_eq!(text, "\u{25cf} 0123456789abcde\u{2026}");
    assert_eq!(sev, Some(DiagSeverity::Info));

    let (text, sev) = format_diag_cell(3, &diags);
    assert_eq!(text, "");
    assert_eq!(sev, None);
}

#[test]
fn findings_list_text() {
    let mut a = make_diagnostic(1, DiagSeverity::Critical, "hot cpu");
    a.target = DiagTarget::Process { pid: 1, name: "proc-123456789012".to_string() };
    let b = make_diagnostic(2, DiagSeverity::Warning, "abcdefghij");
    let c = make_diagnostic(3, DiagSeverity::Info, "x");
    let all = vec![a, b, c];
    let (lines, marks) = list_lines(&all, 0, 3, 30, 1);
    assert_eq!(marks, vec![false, true]);
    assert_eq!(
        lines,
        vec![
            "\u{25a0} 1 Critical  \u{25a0} 1 Warning  \u{25a0} 1 Info".to_string(),
            "\u{25a0} proc-1234567890\u{2026} hot cpu".to_string(),
            "\u{25cf} proc-2 abcdefg\u{2026}".to_string(),
        ]
    );
    assert!(list_lines(&all, 0, 1, 30, 0).0.is_empty());
    assert!(list_lines(&all, 0, 1, 30, 0).1.is_empty());
    assert_eq!(list_lines(&all, 5, 4, 30, 5).0.len(), 1);
    assert!(list_lines(&all, 5, 4, 30, 5).1.is_empty());
    let (tail, tail_marks) = list_lines(&all, 2, 4, 40, 2);
    assert_eq!(tail[1], "\u{25cf} proc-3 x");
    assert_eq!(tail_marks, vec![true]);
}

#[test]
fn detail_panel_text() {
    let f = make_diagnostic(5, DiagSeverity::Warning, "mem grows");
    let x = DetailExtras {
        action_text: "NoAction".to_string(),
        reason: "watch it".to_string(),
        urgency: Urgency::Soon,
        evidence: vec!["  mem: 1.0 / 2.0".to_string()],
    };
    assert_eq!(
        detail_lines(&f, &x),
        vec![
            "Target: Process: proc-5 (pid 5)",
            " Warning    CpuSpike ",
            "",
            "Evidence:",
            "  mem: 1.0 / 2.0",
            "",
            "Recommendation:",
            "  Action: NoAction",
            "  Reason: watch it",
            "  Urgency: Soon",
            "",
            "[Enter] Execute  [d] Dismiss  [m] Mute rule",
        ]
    );
    let y = DetailExtras { evidence: Vec::new(), ..x };
    assert_eq!(detail_lines(&f, &y).len(), 10);
    assert_eq!(detail_title(Some(&f), 40), " mem grows ");
    assert_eq!(detail_title(Some(&f), 8), " mem \u{2026}");
    assert_eq!(detail_title(None, 20), " Details ");
}

fn row(pid: u32, name: &str) -> ProcessRow {
    ProcessRow {
        pid,
        name: name.to_string(),
        cpu_text: "1.5%".to_string(),
        mem_bytes: 2048,
        state: ProcessState::Sleeping,
        hp_text: "90".to_string(),
    }
}

#[test]
fn overview_table_text() {
    let rows = vec![row(1, "init"), row(2, "sshd"), row(3, "bash")];
    let diags = vec![make_diagnostic(2, DiagSeverity::Critical, "hot")];
    let t = overview_rows(&rows, SortColumn::Cpu, false, 1, &diags, &[3]);
    assert_eq!(t.title, "Overview [F1] \u{2014} 3 processes");
    assert_eq!(
        t.header,
        vec!["PID", "Name", "CPU% \u{25bc}", "MEM", "State", "HP", "Diag", "Pred"]
    );
    assert_eq!(t.rows.len(), 2);
    assert_eq!(t.rows[0], vec!["2", "sshd", "1.5%", "2.0 KB", "Sleep", "90", "\u{25a0} hot", ""]);
    assert_eq!(t.rows[1][7], "\u{26a0}");
    let last = overview_rows(&rows, SortColumn::Pid, true, 99, &diags, &[]);
    assert_eq!(last.rows.len(), 1);
    assert_eq!(last.header[0], "PID \u{25b2}");
    assert!(overview_rows(&[], SortColumn::Pid, true, 0, &diags, &[]).rows.is_empty());
    assert_eq!(overview_header(SortColumn::Hp, true)[5], "HP \u{25b2}");
}

#[test]
fn detail_panel_hint_when_nothing_selected() {
    let x = DetailExtras {
        action_text: String::new(),
        reason: String::new(),
        urgency: Urgency::Informational,
        evidence: Vec::new(),
    };
    assert_eq!(detail_panel_lines(None, &x), vec!["Select a diagnostic to view details"]);
    let f = make_diagnostic(1, DiagSeverity::Info, "s");
    assert_eq!(detail_panel_lines(Some(&f), &x), detail_lines(&f, &x));
}
