use spaceheart::prompt::display_path;
use spaceheart::prompt::format_prompt;
use spaceheart::text::first_token_str;
use spaceheart::text::has_prefix;
use spaceheart::text::rest_after_first_str;
use spaceheart::text::split_tokens;
use spaceheart::text::str_eq;
use spaceheart::text::trim_str;

#[test]
fn home_prefix_becomes_tilde() {
    assert_eq!(display_path("/home/user/work", "/home/user"), "~/work");
    assert_eq!(display_path("/home/user", "/home/user"), "~");
}

#[test]
fn path_outside_home_is_unchanged() {
    assert_eq!(display_path("/etc", "/home/user"), "/etc");
    assert_eq!(display_path("/home/use", "/home/user"), "/home/use");
}

#[test]
fn empty_home_leaves_path_unchanged() {
    assert_eq!(display_path("/anything/at/all", ""), "/anything/at/all");
}

#[test]
fn prompt_paints_directory_blue_around_glyph() {
    assert_eq!(
        format_prompt("/etc", "/home/user", "\u{276f}"),
        "\u{1b}[34m/etc\u{1b}[0m \u{276f} "
    );
    assert_eq!(
        format_prompt("/home/user/work", "/home/user", ">"),
        "\u{1b}[34m~/work\u{1b}[0m > "
    );
}

#[test]
fn trim_removes_surrounding_blanks_only() {
    assert_eq!(trim_str("  a  b\t"), "a  b");
    assert_eq!(trim_str("\r\n"), "");
    assert_eq!(trim_str("word"), "word");
}

#[test]
fn split_tokens_on_whitespace() {
    assert_eq!(
        split_tokens(" one  two\tthree "),
        vec!["one".to_string(), "two".to_string(), "three".to_string()]
    );
    assert_eq!(split_tokens("   "), Vec::<String>::new());
}

#[test]
fn first_token_and_rest() {
    assert_eq!(first_token_str("  cd /tmp/sub  "), "cd");
    assert_eq!(first_token_str(""), "");
    assert_eq!(rest_after_first_str("  cd   /tmp/sub  "), "/tmp/sub");
    assert_eq!(rest_after_first_str("cd"), "");
}

#[test]
fn prefix_and_equality_checks() {
    assert!(has_prefix("alias x=1", "alias "));
    assert!(!has_prefix("alias", "alias "));
    assert!(str_eq("same", "same"));
    assert!(!str_eq("same", "sameé"));
}
