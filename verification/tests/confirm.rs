use branch_prune::confirm::{confirm, is_affirmative, white_space};

fn reference(input: &str) -> bool {
    input.trim().eq_ignore_ascii_case("y") || input == "\n"
}

#[test]
fn plain_y_approves() {
    assert!(is_affirmative("y"));
    assert!(is_affirmative("Y"));
}

#[test]
fn padded_y_approves() {
    assert!(is_affirmative(" Y\n"));
    assert!(is_affirmative("y\n"));
    assert!(is_affirmative("\t y \r\n"));
    assert!(is_affirmative("\u{3000}y\u{a0}"));
}

#[test]
fn lone_newline_approves() {
    assert!(is_affirmative("\n"));
}

#[test]
fn other_answers_decline() {
    assert!(!is_affirmative("n"));
    assert!(!is_affirmative("no"));
    assert!(!is_affirmative(""));
    assert!(!is_affirmative("yes"));
    assert!(!is_affirmative("yy"));
    assert!(!is_affirmative("y y"));
    assert!(!is_affirmative("N\n"));
}

#[test]
fn white_space_other_than_a_lone_newline_declines() {
    assert!(!is_affirmative(" "));
    assert!(!is_affirmative("\n\n"));
    assert!(!is_affirmative(" \n"));
    assert!(!is_affirmative("\r\n"));
    assert!(!is_affirmative("\t"));
}

#[test]
fn letters_that_only_look_like_y_decline() {
    assert!(!is_affirmative("\u{ff59}"));
    assert!(!is_affirmative("\u{1e8f}"));
    assert!(!is_affirmative("y\u{301}"));
}

#[test]
fn white_space_agrees_with_the_standard_library() {
    for code in 0..=0x10ffffu32 {
        if let Some(c) = char::from_u32(code) {
            assert_eq!(white_space(c), c.is_whitespace(), "U+{:04X}", code);
        }
    }
}

#[test]
fn approval_agrees_with_trim_and_case_folding() {
    let pieces = ["", " ", "\n", "\t", "y", "Y", "n", "\u{85}", "\u{2003}", "x", "\r"];
    for a in pieces {
        for b in pieces {
            for c in pieces {
                for d in pieces {
                    let input = format!("{}{}{}{}", a, b, c, d);
                    assert_eq!(is_affirmative(&input), reference(&input), "{:?}", input);
                }
            }
        }
    }
}

#[test]
fn auto_yes_confirms_whatever_the_answer() {
    assert!(confirm(true, ""));
    assert!(confirm(true, "n"));
    assert!(confirm(true, "y"));
}

#[test]
fn without_auto_yes_the_answer_decides() {
    assert!(confirm(false, "y"));
    assert!(confirm(false, " Y\n"));
    assert!(confirm(false, "\n"));
    assert!(!confirm(false, "n"));
    assert!(!confirm(false, "no"));
    assert!(!confirm(false, ""));
}
