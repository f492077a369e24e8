use fb_ledger::compliance::{check_result, levenshtein_distance, sanctions_hits, screening_match, SanctionedName};
use fb_ledger::models::ComplianceAlert;
use fb_ledger::pipeline::compliance_gate;
use fb_ledger::errors::FbError;

fn alert(severity: &str) -> ComplianceAlert {
    ComplianceAlert { alert_type: "SANCTIONS_MATCH".to_string(), severity: severity.to_string(), message: "m".to_string() }
}

#[test]
fn distance_counts_edits() {
    assert_eq!(levenshtein_distance("kitten", "sitting"), 3);
    assert_eq!(levenshtein_distance("flaw", "lawn"), 2);
    assert_eq!(levenshtein_distance("", "abc"), 3);
    assert_eq!(levenshtein_distance("abc", ""), 3);
}

#[test]
fn distance_ignores_case() {
    assert_eq!(levenshtein_distance("VIKTOR BOUT", "viktor bout"), 0);
    assert_eq!(levenshtein_distance("Viktor Bout", "VIKTOR BOUTT"), 1);
}

#[test]
fn distance_to_itself_is_zero_and_symmetric() {
    assert_eq!(levenshtein_distance("MAUTE GROUP", "MAUTE GROUP"), 0);
    assert_eq!(levenshtein_distance("abu sayyaf", "abu sayaf group"), levenshtein_distance("abu sayaf group", "abu sayyaf"));
}

#[test]
fn distance_lowercases_beyond_ascii() {
    assert_eq!(levenshtein_distance("ÄBC", "äbc"), 0);
}

#[test]
fn high_or_critical_alert_blocks() {
    let r = check_result(vec![alert("medium")], vec![alert("high")]);
    assert!(r.blocked);
    assert!(!r.passed);
    assert_eq!(r.alerts.len(), 2);
    assert_eq!(r.alerts[0].severity, "medium");
    let r2 = check_result(vec![alert("critical")], Vec::new());
    assert!(r2.blocked);
}

#[test]
fn other_alerts_pass() {
    let r = check_result(vec![alert("MEDIUM"), alert("HIGH")], vec![alert("low")]);
    assert!(!r.blocked);
    assert!(r.passed);
    let empty = check_result(Vec::new(), Vec::new());
    assert!(empty.passed);
}

#[test]
fn blocked_verdict_stops_transaction() {
    let r = check_result(vec![alert("high"), alert("low")], Vec::new());
    match compliance_gate(&r) {
        Err(FbError::PipelineError { stage, tx_id, reason }) => {
            assert_eq!(stage, "VALIDATE");
            assert_eq!(tx_id, "compliance");
            assert_eq!(reason, "blocked: 2 alerts");
        }
        other => panic!("unexpected {:?}", other),
    }
    assert!(compliance_gate(&check_result(Vec::new(), Vec::new())).is_ok());
}

#[test]
fn screening_flags_scores_of_three_quarters() {
    // distance 0: score 1.0
    assert!(screening_match("viktor bout", "VIKTOR BOUT"));
    // distance 1 over 4 bytes: score exactly 0.75
    assert!(screening_match("abcd", "abce"));
    // distance 1 over 3 bytes: score 0.67
    assert!(!screening_match("abc", "abd"));
    // distance 1 over 12 bytes
    assert!(screening_match("VIKTOR BOUTS", "VIKTOR BOUT"));
    assert!(!screening_match("ACME CORP", "VIKTOR BOUT"));
    // two empty names: distance 0 over the minimum span of 1
    assert!(screening_match("", ""));
}

#[test]
fn screening_span_counts_bytes() {
    // two characters in four bytes: one edit over a span of 4 matches
    assert!(screening_match("\u{e9}\u{e9}", "\u{e9}e"));
    // the same edit among two one-byte characters does not
    assert!(!screening_match("ee", "ea"));
}

#[test]
fn sanctions_hits_names_then_aliases() {
    let list = vec![
        SanctionedName { full_name: "ACME CORP".to_string(), aliases: None, risk_level: "LOW".to_string() },
        SanctionedName {
            full_name: "VIKTOR BOUT".to_string(),
            aliases: Some(vec!["Viktor Bout".to_string(), "BORIS".to_string(), "VIKTOR BUT".to_string()]),
            risk_level: "HIGH".to_string(),
        },
    ];
    let hits = sanctions_hits("viktor bout", &list);
    let seen: Vec<(usize, Option<usize>, String)> = hits.into_iter().map(|h| (h.entity, h.alias, h.severity)).collect();
    assert_eq!(
        seen,
        vec![
            (1, None, "high".to_string()),
            (1, Some(0), "high".to_string()),
            (1, Some(2), "high".to_string()),
        ]
    );
    assert!(sanctions_hits("nobody", &list).is_empty());
}
