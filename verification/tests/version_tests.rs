use mark::version::{cli_version, sanitize_version_component, short_commit_chars};

fn chars(s: &str) -> Vec<char> {
    s.chars().collect()
}

#[test]
fn version_without_channel_is_the_package_version() {
    assert_eq!(cli_version("1.2.3", None, Some("abcdef")), "1.2.3");
    assert_eq!(cli_version("1.2.3", Some("--"), Some("abcdef")), "1.2.3");
}

#[test]
fn version_carries_channel_and_short_commit() {
    assert_eq!(cli_version("1.2.3", Some("nightly"), None), "1.2.3-nightly");
    assert_eq!(
        cli_version("1.2.3", Some("beta 2"), Some("0123456789abcdef0123")),
        "1.2.3-beta-2+0123456789ab"
    );
    assert_eq!(cli_version("1.2.3", Some("main"), Some("..")), "1.2.3-main");
}

#[test]
fn components_are_sanitized_and_trimmed() {
    let s: String = sanitize_version_component(&chars("-.feat/x_y.-")).into_iter().collect();
    assert_eq!(s, "feat-x-y");
    let s: String = sanitize_version_component(&chars("é")).into_iter().collect();
    assert_eq!(s, "");
    let c: String = short_commit_chars(&chars("abc")).into_iter().collect();
    assert_eq!(c, "abc");
}
