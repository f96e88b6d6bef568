use branch_prune::pattern::{probe, Finding};
use branch_prune::protect::{
    default_safe_prefixes, is_protected_branch, settle, PatternError, Verdict,
};

#[test]
fn probe_reports_the_start_of_the_leftmost_match() {
    assert_eq!(probe("vault/", "vault/feature"), Finding::At(0));
    assert_eq!(probe("vault/", "other/vault/x"), Finding::At(6));
    assert_eq!(probe("a", "banana"), Finding::At(1));
    assert_eq!(probe("na|an", "banana"), Finding::At(1));
}

#[test]
fn probe_reports_offsets_in_bytes() {
    assert_eq!(probe("x", "\u{e9}x"), Finding::At(2));
}

#[test]
fn probe_reports_a_miss() {
    assert_eq!(probe("vault/", "vault-other"), Finding::Absent);
    assert_eq!(probe("vault/", ""), Finding::Absent);
}

#[test]
fn probe_reports_an_invalid_pattern() {
    assert_eq!(probe("(", "anything"), Finding::Invalid);
    assert_eq!(probe("[a-", ""), Finding::Invalid);
}

#[test]
fn probe_treats_the_pattern_as_a_regular_expression() {
    assert_eq!(probe("^rel-[0-9]+$", "rel-42"), Finding::At(0));
    assert_eq!(probe("^rel-[0-9]+$", "rel-x"), Finding::Absent);
    assert_eq!(probe("", "name"), Finding::At(0));
}

#[test]
fn settle_names_the_verdict_of_each_finding() {
    assert_eq!(settle(Finding::Absent), None);
    assert_eq!(settle(Finding::Invalid), Some(Verdict::Malformed));
    assert_eq!(settle(Finding::At(0)), Some(Verdict::Protected));
    assert_eq!(settle(Finding::At(1)), Some(Verdict::Unprotected));
    assert_eq!(settle(Finding::At(usize::MAX)), Some(Verdict::Unprotected));
}

#[test]
fn default_list_is_vault() {
    assert_eq!(default_safe_prefixes(), vec!["vault/"]);
}

#[test]
fn names_under_vault_are_protected() {
    let prefixes = vec!["vault/"];
    assert_eq!(is_protected_branch("vault/feature", &prefixes), Ok(true));
    assert_eq!(is_protected_branch("vault/", &prefixes), Ok(true));
    assert_eq!(is_protected_branch("vault/secret", &prefixes), Ok(true));
}

#[test]
fn names_that_only_resemble_vault_are_not_protected() {
    let prefixes = vec!["vault/"];
    assert_eq!(is_protected_branch("vault-other", &prefixes), Ok(false));
    assert_eq!(is_protected_branch("vault", &prefixes), Ok(false));
    assert_eq!(is_protected_branch("temp", &prefixes), Ok(false));
    assert_eq!(is_protected_branch("", &prefixes), Ok(false));
}

#[test]
fn a_match_further_in_does_not_protect() {
    let prefixes = vec!["vault/"];
    assert_eq!(is_protected_branch("other/vault/x", &prefixes), Ok(false));
}

#[test]
fn a_match_further_in_stops_the_search() {
    // The second pattern would match at the start, but the first one has
    // already matched further in.
    let prefixes = vec!["vault/", "other/"];
    assert_eq!(is_protected_branch("other/vault/x", &prefixes), Ok(false));
    // In the other order the same name is protected.
    let swapped = vec!["other/", "vault/"];
    assert_eq!(is_protected_branch("other/vault/x", &swapped), Ok(true));
}

#[test]
fn a_pattern_without_a_match_passes_the_question_on() {
    let prefixes = vec!["vault/", "keep/", "wip-"];
    assert_eq!(is_protected_branch("keep/this", &prefixes), Ok(true));
    assert_eq!(is_protected_branch("wip-thing", &prefixes), Ok(true));
    assert_eq!(is_protected_branch("my-wip-thing", &prefixes), Ok(false));
    assert_eq!(is_protected_branch("feature/x", &prefixes), Ok(false));
}

#[test]
fn the_empty_list_protects_nothing() {
    let prefixes: Vec<&str> = Vec::new();
    assert_eq!(is_protected_branch("vault/feature", &prefixes), Ok(false));
    assert_eq!(is_protected_branch("", &prefixes), Ok(false));
}

#[test]
fn an_invalid_pattern_is_reported_with_its_place_and_text() {
    let prefixes = vec!["("];
    assert_eq!(
        is_protected_branch("feature/x", &prefixes),
        Err(PatternError { index: 0, pattern: "(".to_string() })
    );
    let later = vec!["vault/", "[a-"];
    assert_eq!(
        is_protected_branch("feature/x", &later),
        Err(PatternError { index: 1, pattern: "[a-".to_string() })
    );
}

#[test]
fn an_invalid_pattern_behind_a_match_is_never_reached() {
    let prefixes = vec!["vault/", "("];
    assert_eq!(is_protected_branch("vault/feature", &prefixes), Ok(true));
    assert_eq!(is_protected_branch("other/vault/x", &prefixes), Ok(false));
    assert!(is_protected_branch("temp", &prefixes).is_err());
}

#[test]
fn message_names_the_invalid_pattern() {
    let error = PatternError { index: 0, pattern: "(".to_string() };
    assert_eq!(
        error.message(),
        "( cannot be used as a safety prefix because it is not valid regex"
    );
}

#[test]
fn vault_protects_exactly_the_names_that_start_with_it() {
    let prefixes = vec!["vault/"];
    let pieces = ["", "vault/", "vault", "/", "v", "x", "other/", "vault-", "Vault/", "ault/"];
    for a in pieces {
        for b in pieces {
            for c in pieces {
                let name = format!("{}{}{}", a, b, c);
                assert_eq!(
                    is_protected_branch(&name, &prefixes),
                    Ok(name.starts_with("vault/")),
                    "{:?}",
                    name
                );
            }
        }
    }
}

#[test]
fn the_first_pattern_that_matches_anywhere_decides() {
    let prefixes = vec!["b", "a", "c"];
    let letters = ["a", "b", "c", "d"];
    for x in letters {
        for y in letters {
            for z in letters {
                let name = format!("{}{}{}", x, y, z);
                let expected = match ["b", "a", "c"].iter().find(|p| name.contains(**p)) {
                    Some(p) => name.starts_with(*p),
                    None => false,
                };
                assert_eq!(is_protected_branch(&name, &prefixes), Ok(expected), "{:?}", name);
            }
        }
    }
}
