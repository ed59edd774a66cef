use textbatch::args::{parse_args, parse_usize};

fn argv(args: &[&str]) -> Vec<String> {
    args.iter().map(|s| s.to_string()).collect()
}

#[test]
fn defaults_without_arguments() {
    let (threads, dir) = parse_args(&argv(&[]));
    assert_eq!(threads, 4);
    assert_eq!(dir, "./books");
}

#[test]
fn threads_flag_and_directory() {
    let (threads, dir) = parse_args(&argv(&["--threads", "8", "./data"]));
    assert_eq!(threads, 8);
    assert_eq!(dir, "./data");
}

#[test]
fn short_flag() {
    let (threads, dir) = parse_args(&argv(&["-t", "2"]));
    assert_eq!(threads, 2);
    assert_eq!(dir, "./books");
}

#[test]
fn unparsable_value_keeps_default() {
    let (threads, dir) = parse_args(&argv(&["--threads", "abc", "./data"]));
    assert_eq!(threads, 4);
    assert_eq!(dir, "./data");
}

#[test]
fn zero_threads_coerced_to_one() {
    let (threads, _) = parse_args(&argv(&["--threads", "0"]));
    assert_eq!(threads, 1);
}

#[test]
fn trailing_flag_without_value() {
    let (threads, dir) = parse_args(&argv(&["--threads"]));
    assert_eq!(threads, 4);
    assert_eq!(dir, "./books");
}

#[test]
fn last_positional_argument_wins() {
    let (threads, dir) = parse_args(&argv(&["./one", "./two"]));
    assert_eq!(threads, 4);
    assert_eq!(dir, "./two");
}

#[test]
fn parse_usize_accepts_plain_and_signed_decimals() {
    assert_eq!(parse_usize("17"), Some(17));
    assert_eq!(parse_usize("+3"), Some(3));
    assert_eq!(parse_usize("0"), Some(0));
    assert_eq!(parse_usize("007"), Some(7));
}

#[test]
fn parse_usize_rejects_bad_input() {
    assert_eq!(parse_usize(""), None);
    assert_eq!(parse_usize("+"), None);
    assert_eq!(parse_usize("-3"), None);
    assert_eq!(parse_usize("3a"), None);
    assert_eq!(parse_usize(" 3"), None);
    assert_eq!(parse_usize("99999999999999999999999999"), None);
}
