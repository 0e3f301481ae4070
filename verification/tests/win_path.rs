use appack::template::{detect_and_replace_win_escape, replace_all, split_whitespace_args, to_win_escaped_path};
use appack::text::u16_to_string;

#[test]
fn test_path_with_username_and_file() {
    // Test case: standard path with username and file
    let path = "/home/john_doe/documents/report.pdf";
    let expected = "\\\\tsclient\\home\\documents\\report.pdf";
    assert_eq!(to_win_escaped_path(path), expected);
}

#[test]
fn test_path_with_different_username() {
    // Test case: different username
    let path = "/home/dev-user/code/main.rs";
    let expected = "\\\\tsclient\\home\\code\\main.rs";
    assert_eq!(to_win_escaped_path(path), expected);
}

#[test]
fn test_path_with_no_trailing_file() {
    // Test case: path is just a directory after the username
    let path = "/home/alice/Projects/";
    let expected = "\\\\tsclient\\home\\Projects\\";
    assert_eq!(to_win_escaped_path(path), expected);
}

#[test]
fn test_path_is_only_root_home() {
    // Test case: path is exactly /home/{username}: there is no slash after
    // the user name, so nothing is stripped and the path stays relative.
    let path = "/home/bob";
    let expected = "\\\\tsclient\\home\\home\\bob";
    assert_eq!(to_win_escaped_path(path), expected);
}

#[test]
fn test_path_is_only_root_home_with_slash() {
    // Test case: path is exactly /home/{username}/ (stripped to empty)
    let path = "/home/bob/";
    let expected = "\\\\tsclient\\home\\";
    assert_eq!(to_win_escaped_path(path), expected);
}

#[test]
fn test_path_already_stripped() {
    // Test case: path does not start with /home/
    let path = "/tmp/data/log.txt";
    let expected = "\\\\tsclient\\home\\tmp\\data\\log.txt";
    assert_eq!(to_win_escaped_path(path), expected);
}

#[test]
fn test_relative_path() {
    // Test case: relative path
    let path = "data/input.csv";
    let expected = "\\\\tsclient\\home\\data\\input.csv";
    assert_eq!(to_win_escaped_path(path), expected);
}

#[test]
fn test_empty_path() {
    // Test case: empty path
    let path = "";
    let expected = "";
    assert_eq!(to_win_escaped_path(path), expected);
}

#[test]
fn test_path_with_leading_slash_only() {
    // Test case: just a leading slash (results in the base path)
    let path = "/";
    let expected = "\\\\tsclient\\home\\";
    assert_eq!(to_win_escaped_path(path), expected);
}

#[test]
fn test_with_space() {
    let path = "/home/dude/i have space/file.txt";
    let expected = "\\\\tsclient\\home\\i have space\\file.txt";
    assert_eq!(to_win_escaped_path(path), expected);
}

#[test]
fn test_with_space_and_single_quotes() {
    let path = "'/home/dude/i have space/file.txt'";
    let expected = "\\\\tsclient\\home\\i have space\\file.txt";
    assert_eq!(to_win_escaped_path(path), expected);
}

#[test]
fn detect_and_replace_rewrites_span() {
    let arg = "/drive:home,$TO_WIN_ESCAPED_PATH**/home/dude/my file.txt** /v:localhost";
    let expected = "/drive:home,\\\\tsclient\\home\\my$WHITESPACEfile.txt /v:localhost";
    assert_eq!(detect_and_replace_win_escape(arg), expected);
}

#[test]
fn detect_and_replace_without_span_is_identity() {
    let arg = "/v:localhost:3389 /u:user";
    assert_eq!(detect_and_replace_win_escape(arg), arg);
}

#[test]
fn detect_and_replace_unterminated_span_left_alone() {
    let arg = "before $TO_WIN_ESCAPED_PATH**/home/dude/file.txt and no end";
    assert_eq!(detect_and_replace_win_escape(arg), arg);
}

#[test]
fn detect_and_replace_two_spans() {
    let arg = "$TO_WIN_ESCAPED_PATH**/tmp/a**,$TO_WIN_ESCAPED_PATH**/tmp/b**";
    let expected = "\\\\tsclient\\home\\tmp\\a,\\\\tsclient\\home\\tmp\\b";
    assert_eq!(detect_and_replace_win_escape(arg), expected);
}

#[test]
fn replace_all_replaces_every_occurrence() {
    assert_eq!(replace_all("a$Xb$Xc", "$X", "-"), "a-b-c");
    assert_eq!(replace_all("$RDP_PORT:$RDP_PORT", "$RDP_PORT", "3389"), "3389:3389");
    assert_eq!(replace_all("nothing here", "$X", "-"), "nothing here");
}

#[test]
fn replace_all_does_not_rescan_replacements() {
    // the replacement contains the pattern and must not be replaced again
    assert_eq!(replace_all("aa", "a", "ab"), "abab");
}

#[test]
fn split_whitespace_args_splits_on_runs() {
    let words = split_whitespace_args("  qemu  -m 4G\t-display none ");
    let expected = vec!["qemu", "-m", "4G", "-display", "none"];
    assert_eq!(words, expected);
}

#[test]
fn split_whitespace_args_empty() {
    assert_eq!(split_whitespace_args(""), Vec::<String>::new());
    assert_eq!(split_whitespace_args("   "), Vec::<String>::new());
}

#[test]
fn u16_to_string_exact() {
    assert_eq!(u16_to_string(0), "0");
    assert_eq!(u16_to_string(7), "7");
    assert_eq!(u16_to_string(3389), "3389");
    assert_eq!(u16_to_string(65535), "65535");
}
