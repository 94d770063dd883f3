use commitizen::args_filter::{allows_empty, filter, wants_bypass, wants_retry};

fn strings(items: &[&str]) -> Vec<String> {
    items.iter().map(|s| s.to_string()).collect()
}

#[test]
fn test_args_filter() {
    let args = filter(&strings(&[
        "--all",
        "-am",
        "stripped message",
        "-c",
        "123",
        "--fixup=321",
        "--message=test",
        "test",
    ]));

    assert_eq!(
        args,
        vec!["--all", "-a", "-c", "123", "--fixup=321", "test"]
    );
}

#[test]
fn filter_example_mixed_flags() {
    let args = filter(&strings(&[
        "--all",
        "-am",
        "msg",
        "-c",
        "123",
        "--fixup=321",
        "--message=test",
        "test",
    ]));
    assert_eq!(
        args,
        vec!["--all", "-a", "-c", "123", "--fixup=321", "test"]
    );
}

#[test]
fn filter_bundled_short_flag_drops_message() {
    let args = filter(&strings(&["-am", "some text", "rest"]));
    assert_eq!(args, vec!["-a", "rest"]);
}

#[test]
fn filter_short_flag_with_attached_message() {
    let args = filter(&strings(&["-amx", "next"]));
    assert_eq!(args, vec!["-a", "next"]);
}

#[test]
fn filter_bare_short_message_flag() {
    let args = filter(&strings(&["-m", "the message", "rest"]));
    assert_eq!(args, vec!["rest"]);
}

#[test]
fn filter_short_message_flag_as_last_token() {
    let args = filter(&strings(&["-m"]));
    assert_eq!(args, Vec::<String>::new());
}

#[test]
fn filter_long_message_with_value() {
    let args = filter(&strings(&["--message=hi", "x"]));
    assert_eq!(args, vec!["x"]);
}

#[test]
fn filter_long_message_separate_value() {
    let args = filter(&strings(&["--message", "boo", "x"]));
    assert_eq!(args, vec!["x"]);
}

#[test]
fn filter_keeps_similar_tokens() {
    let args = filter(&strings(&["--messages", "--amend", "-x", "m"]));
    assert_eq!(args, vec!["--messages", "--amend", "-x", "m"]);
}

#[test]
fn filter_is_noop_on_its_own_flagless_output() {
    let input = strings(&["--all", "-c", "123", "--fixup=321", "test"]);
    let once = filter(&input);
    assert_eq!(once, input);
    let twice = filter(&once);
    assert_eq!(twice, once);
}

#[test]
fn filter_empty_input() {
    let args = filter(&Vec::new());
    assert_eq!(args, Vec::<String>::new());
}

#[test]
fn bypass_detects_amend() {
    assert!(wants_bypass(&strings(&["--all", "--amend"])));
    assert!(!wants_bypass(&strings(&["--all"])));
    assert!(!wants_bypass(&Vec::new()));
}

#[test]
fn allow_empty_detection() {
    assert!(allows_empty(&strings(&["--allow-empty"])));
    assert!(!allows_empty(&strings(&["--allow-empty=x"])));
}

#[test]
fn retry_is_first_token_only() {
    assert!(wants_retry(&strings(&["--retry", "x"])));
    assert!(!wants_retry(&strings(&["x", "--retry"])));
    assert!(!wants_retry(&Vec::new()));
}
