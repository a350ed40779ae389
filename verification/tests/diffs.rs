use assert_cli::diff::{diff_lines, diff_texts, render, DiffOp};

fn lines(words: &[&str]) -> Vec<String> {
    words.iter().map(|w| w.to_string()).collect()
}

#[test]
fn basic_diff() {
    let ops = diff_texts("lol", "yay");
    assert_eq!(
        render(&ops),
        "\u{1b}[31m-lol\u{1b}[0m\n\u{1b}[32m+\u{1b}[0m\u{1b}[7;32myay\u{1b}[0m \n"
    );
}

#[test]
fn multiline_diff() {
    let expected = "Lorem ipsum dolor sit amet,\nsed do eiusmod tempor incididunt\nut labore et dolore magna";
    let actual = "Lorem ipsum dolor sit amet,\nsed do eiusmod tempor **incididunt**\nut labore et dolore magna";
    let ops = diff_texts(expected, actual);
    assert_eq!(ops.len(), 4);
    assert!(matches!(&ops[0], DiffOp::Same(l) if l == "Lorem ipsum dolor sit amet,"));
    assert!(matches!(&ops[1], DiffOp::Removed(l) if l == "sed do eiusmod tempor incididunt"));
    assert!(matches!(&ops[2], DiffOp::Added(l) if l == "sed do eiusmod tempor **incididunt**"));
    assert!(matches!(&ops[3], DiffOp::Same(l) if l == "ut labore et dolore magna"));
    let report = render(&ops);
    assert!(report.starts_with(" Lorem ipsum dolor sit amet,\n"));
    // The changed word of the replacing line is highlighted; the kept words
    // are plain green.
    assert!(report.contains("\u{1b}[7;32m**incididunt**\u{1b}[0m"));
    assert!(report.contains("\u{1b}[32msed\u{1b}[0m "));
}

#[test]
fn identical_texts_render_all_same() {
    let ops = diff_texts("a\nb", "a\nb");
    assert!(ops.iter().all(|op| matches!(op, DiffOp::Same(_))));
    assert_eq!(render(&ops), " a\n b\n");
}

#[test]
fn empty_texts_are_one_empty_same_line() {
    let ops = diff_texts("", "");
    assert_eq!(ops.len(), 1);
    assert!(matches!(&ops[0], DiffOp::Same(l) if l.is_empty()));
    assert_eq!(render(&ops), " \n");
}

#[test]
fn empty_script_renders_empty() {
    let ops: Vec<DiffOp> = Vec::new();
    assert_eq!(render(&ops), "");
}

#[test]
fn unequal_lines_show_on_both_sides() {
    // Same number of lines, different content: the script holds at least
    // one removed and one added line.
    let ops = diff_lines(&lines(&["one", "two"]), &lines(&["one", "2"]));
    assert!(ops.iter().any(|op| matches!(op, DiffOp::Removed(_))));
    assert!(ops.iter().any(|op| matches!(op, DiffOp::Added(_))));
}

#[test]
fn diff_aligns_on_common_lines() {
    let ops = diff_lines(&lines(&["a", "b", "c"]), &lines(&["a", "c"]));
    assert_eq!(ops.len(), 3);
    assert!(matches!(&ops[0], DiffOp::Same(l) if l == "a"));
    assert!(matches!(&ops[1], DiffOp::Removed(l) if l == "b"));
    assert!(matches!(&ops[2], DiffOp::Same(l) if l == "c"));
}

#[test]
fn insertion_only_diff() {
    let ops = diff_lines(&lines(&["a"]), &lines(&["a", "b"]));
    assert_eq!(ops.len(), 2);
    assert!(matches!(&ops[0], DiffOp::Same(l) if l == "a"));
    assert!(matches!(&ops[1], DiffOp::Added(l) if l == "b"));
}
