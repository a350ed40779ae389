use assert_cli::output::PredicateFailure;
use assert_cli::Content;
use assert_cli::Output;
use assert_cli::find_subsequence;

#[test]
fn test_find_subsequence() {
    assert_eq!(find_subsequence(b"qwertyuiop", b"tyu"), Some(4));
    assert_eq!(find_subsequence(b"qwertyuiop", b"asd"), None);
}

#[test]
fn find_subsequence_empty_needle() {
    assert_eq!(find_subsequence(b"anything", b""), Some(0));
    assert_eq!(find_subsequence(b"", b""), Some(0));
    assert_eq!(find_subsequence(b"", b"x"), None);
}

#[test]
fn is_matches_itself() {
    assert!(Output::is(Content::text("42")).verify(b"42").is_ok());
    assert!(Output::isnt(Content::text("42")).verify(b"42").is_err());
}

#[test]
fn is_trims_both_sides() {
    assert!(Output::is(Content::text("42")).verify(b"  42\n").is_ok());
    assert!(Output::is(Content::text("\t42  ")).verify(b"42").is_ok());
    assert!(Output::is(Content::text("")).verify(b"\n").is_ok());
}

#[test]
fn is_rejects_different_text() {
    assert!(Output::is(Content::text("42")).verify(b"1337").is_err());
    assert!(Output::isnt(Content::text("42")).verify(b"1337").is_ok());
}

#[test]
fn is_failure_carries_nonempty_diff() {
    let failure = Output::is(Content::text("42")).verify(b"1337").unwrap_err();
    match failure {
        PredicateFailure::StrDoesntMatch(e) => {
            assert_eq!(e.expected, "42");
            assert_eq!(e.got, "1337");
            assert!(!e.diff.is_empty());
        }
        _ => panic!("expected a text mismatch"),
    }
}

#[test]
fn is_bytes_compares_exactly() {
    assert!(Output::is(Content::bytes(b"\xff\xfe")).verify(b"\xff\xfe").is_ok());
    assert!(Output::is(Content::bytes(b"\xff\xfe")).verify(b"\xff").is_err());
    // No trimming for bytes, unlike text.
    assert!(Output::is(Content::bytes(b"42")).verify(b"42\n").is_err());
    assert!(Output::isnt(Content::bytes(b"42")).verify(b"42\n").is_ok());
}

#[test]
fn contains_finds_needle_in_concatenation() {
    // Any haystack built as before + needle + after contains the needle.
    let haystack = format!("{}{}{}", "some prefix ", "the-needle", " some suffix");
    assert!(Output::contains(Content::text("the-needle"))
        .verify(haystack.as_bytes())
        .is_ok());
    assert!(Output::doesnt_contain(Content::text("the-needle"))
        .verify(haystack.as_bytes())
        .is_err());
}

#[test]
fn contains_does_not_trim() {
    assert!(Output::contains(Content::text("42")).verify(b"x42x").is_ok());
    assert!(Output::contains(Content::text(" 42 ")).verify(b"42").is_err());
}

#[test]
fn contains_bytes_subsequence() {
    assert!(Output::contains(Content::bytes(b"tyu")).verify(b"qwertyuiop").is_ok());
    assert!(Output::contains(Content::bytes(b"asd")).verify(b"qwertyuiop").is_err());
    assert!(Output::doesnt_contain(Content::bytes(b"asd"))
        .verify(b"qwertyuiop")
        .is_ok());
}

#[test]
fn polarity_is_pure_inverse() {
    let cases: &[(&str, &[u8])] = &[
        ("42", b"42"),
        ("42", b"1337"),
        ("", b""),
        ("", b"x"),
        ("ab", b"xaby"),
    ];
    for (expect, got) in cases {
        assert_ne!(
            Output::is(Content::text(expect)).verify(got).is_ok(),
            Output::isnt(Content::text(expect)).verify(got).is_ok()
        );
        assert_ne!(
            Output::contains(Content::text(expect)).verify(got).is_ok(),
            Output::doesnt_contain(Content::text(expect)).verify(got).is_ok()
        );
        assert_ne!(
            Output::is(Content::bytes(expect.as_bytes())).verify(got).is_ok(),
            Output::isnt(Content::bytes(expect.as_bytes())).verify(got).is_ok()
        );
        assert_ne!(
            Output::contains(Content::bytes(expect.as_bytes())).verify(got).is_ok(),
            Output::doesnt_contain(Content::bytes(expect.as_bytes()))
                .verify(got)
                .is_ok()
        );
    }
}

#[test]
fn regex_counts_non_overlapping_matches() {
    let two = Output::matches_count("ab", 2);
    assert!(two.verify(b"xx ab yy ab").is_ok());
    // Removing one match flips the result.
    assert!(two.verify(b"xx ab yy").is_err());
    // Adding one match flips the result.
    assert!(two.verify(b"ab ab ab").is_err());
}

#[test]
fn regex_single_match_mode() {
    let any = Output::matches("a+b");
    assert!(any.verify(b"zzaabzz").is_ok());
    assert!(any.verify(b"zzz").is_err());
}

#[test]
fn regex_mismatch_reports_counts() {
    let failure = Output::matches_count("ab", 2).verify(b"ab").unwrap_err();
    match failure {
        PredicateFailure::RegexMismatch(e) => {
            assert_eq!(e.pattern, "ab");
            assert_eq!(e.expected, Some(2));
            assert_eq!(e.observed, Some(1));
            let message = e.render();
            assert!(message.contains("expected=2"));
            assert!(message.contains("observed=1"));
        }
        _ => panic!("expected a pattern mismatch"),
    }
}

#[test]
fn regex_invalid_pattern_fails() {
    let failure = Output::matches("(").verify(b"anything").unwrap_err();
    match failure {
        PredicateFailure::RegexMismatch(e) => {
            assert_eq!(e.observed, None);
            assert!(e.render().contains("invalid pattern"));
        }
        _ => panic!("expected a pattern mismatch"),
    }
}

#[test]
fn contains_failure_renders_needle_and_haystack() {
    let failure = Output::contains(Content::text("wanted"))
        .verify(b"something else")
        .unwrap_err();
    match failure {
        PredicateFailure::StrDoesntContain(e) => {
            let message = e.render();
            assert_eq!(
                message,
                "Expected to contain needle.\nneedle=```wanted```\nhaystack=```something else```"
            );
        }
        _ => panic!("expected a missing-needle failure"),
    }
}

#[test]
fn bytes_failure_renders_decimal_lists() {
    let failure = Output::contains(Content::bytes(b"xy")).verify(b"ab").unwrap_err();
    match failure {
        PredicateFailure::BytesDoesntContain(e) => {
            let message = e.render();
            assert_eq!(
                message,
                "Expected to contain needle.\nneedle=```[120, 121]```\nhaystack=```[97, 98]```"
            );
        }
        _ => panic!("expected a missing-needle failure"),
    }
}

#[test]
fn unexpected_contains_failure_renders() {
    let failure = Output::doesnt_contain(Content::text("42")).verify(b"a42b").unwrap_err();
    match failure {
        PredicateFailure::StrContains(e) => {
            assert!(e.render().starts_with("Expected to not contain needle."));
        }
        _ => panic!("expected an unexpected-needle failure"),
    }
}

#[test]
fn unexpected_equal_failure_renders() {
    let failure = Output::isnt(Content::text("42")).verify(b"42").unwrap_err();
    match failure {
        PredicateFailure::StrMatches(e) => {
            assert_eq!(e.render(), "Expected to not match.output=```42```");
        }
        _ => panic!("expected an unexpected-match failure"),
    }
}

#[test]
fn lossy_decoding_replaces_invalid_sequences() {
    // Invalid UTF-8 in the captured bytes is replaced, not rejected, for
    // text predicates.
    assert!(Output::contains(Content::text("ab")).verify(b"a\xffb ab").is_ok());
}
