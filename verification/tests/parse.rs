use assert_cli::flatten_escaped_string;
use assert_cli::ToCmd;

#[test]
fn slices() {
    assert_eq!(ToCmd::to_cmd(&["echo", "42"]), vec!["echo", "42"]);
}

#[test]
fn simple() {
    assert_eq!("echo 42".to_cmd(), vec!["echo", "42"]);
    assert_eq!(r#"echo "42""#.to_cmd(), vec!["echo", "\"42\""]);
    assert_eq!(r#"echo '42'"#.to_cmd(), vec!["echo", "\'42\'"]);
    assert_eq!(
        r#"echo '42 is the answer'"#.to_cmd(),
        vec!["echo", "\'42 is the answer\'"]
    );
}

#[test]
fn real_world() {
    assert_eq!(
        r#"cargo run --bin whatever -- --input="Lorem ipsum" -f"#.to_cmd(),
        vec![
            "cargo",
            "run",
            "--bin",
            "whatever",
            "--",
            "--input=\"Lorem ipsum\"",
            "-f"
        ]
    );
}

#[test]
fn nested_quotes() {
    assert_eq!(
        r#"echo "lorem ipsum 'dolor' sit amet""#.to_cmd(),
        vec!["echo", "\"lorem ipsum 'dolor' sit amet\""]
    );

    assert_eq!(
        r#"echo "lorem ipsum ('dolor "doloris" septetur') sit amet""#.to_cmd(),
        vec!["echo", "\"lorem ipsum ('dolor \"doloris\" septetur') sit amet\""]
    );
}

#[test]
fn flatten_unquoted() {
    assert_eq!(flatten_escaped_string("hello world"), "hello world");
}

#[test]
fn flatten_quoted() {
    assert_eq!(flatten_escaped_string(r#""hello world""#), "hello world");
}

#[test]
fn flatten_escaped() {
    assert_eq!(
        flatten_escaped_string(r#""hello world \u0042 A""#),
        "hello world B A"
    );
}
