//! Cases of a conformance corpus.

use scribium_engine::conformance::{
    parser_errors, sort_ids, ConformanceCase, ConformanceCaseMeta,
};
use scribium_engine::diagnostic::{Diagnostic, Severity};

fn diagnostic(code: &str) -> Diagnostic {
    Diagnostic {
        code: code.to_string(),
        severity: Severity::Error,
        message: format!("message of {code}"),
        primary: None,
        secondary: vec![],
        hints: vec![],
    }
}

fn case() -> ConformanceCase {
    ConformanceCase {
        meta: ConformanceCaseMeta {
            id: "call-dot-prefixed-basic".to_string(),
            feature: "dot-prefixed-call".to_string(),
            compatibility_level: "Parsed".to_string(),
            specification_source: "docs".to_string(),
            description: "A call".to_string(),
            known_divergence: None,
        },
        input: ".docname".to_string(),
        case_dir: "cases/call-dot-prefixed-basic".to_string(),
    }
}

#[test]
fn identities_are_sorted_and_kept() {
    let ids = vec!["b", "a-10", "a-2", "b", "", "\u{e9}", "z"];
    let ids: Vec<String> = ids.into_iter().map(|id| id.to_string()).collect();
    let sorted = sort_ids(&ids);
    assert_eq!(sorted, vec!["", "a-10", "a-2", "b", "b", "z", "\u{e9}"]);
    let mut expected = ids.clone();
    expected.sort();
    assert_eq!(sorted, expected);
    assert_eq!(sort_ids(&sorted), sorted);
}

#[test]
fn only_parser_errors_count() {
    let all = vec![
        diagnostic("E3001"),
        diagnostic("E2001"),
        diagnostic("E"),
        diagnostic("XE2"),
        diagnostic("E2"),
    ];
    let errors = parser_errors(&all);
    assert_eq!(errors, vec![diagnostic("E2001"), diagnostic("E2")]);
    assert_eq!(case().verify_parses(&all), Err(errors));
}

#[test]
fn a_case_with_evaluation_errors_parses() {
    assert_eq!(case().verify_parses(&vec![diagnostic("E3001")]), Ok(()));
    assert_eq!(case().verify_parses(&vec![]), Ok(()));
}

#[test]
fn a_case_reports_its_feature() {
    assert_eq!(
        case().meta.success_line(),
        "\u{2713} call-dot-prefixed-basic (dot-prefixed-call)"
    );
}
