use exegesis::matcher::{Matcher, URLMatcher};
use exegesis::pattern::{escape, Pattern};
use exegesis::website::Website;

#[test]
fn generated_re_glob() {
    let re = URLMatcher::compile_pattern("*//coucou.com").unwrap();
    assert_eq!(re.as_str(), r"^[^/]*//coucou\.com$");
}

#[test]
fn generated_re_glob_after_slash() {
    let re = URLMatcher::compile_pattern("http://coucou.com/*").unwrap();
    assert_eq!(re.as_str(), r"^http://coucou\.com(?:/[^/]*)?$");
}

#[test]
fn generated_re_superglob() {
    let re = URLMatcher::compile_pattern("http://coucou.com/foo**").unwrap();
    assert_eq!(re.as_str(), r"^http://coucou\.com/foo.*$");
}

#[test]
fn generated_re_superglob_after_slash() {
    let re = URLMatcher::compile_pattern("http://coucou.com/**").unwrap();
    assert_eq!(re.as_str(), r"^http://coucou\.com(?:/.*)?$");
}

#[test]
fn match_plain() {
    let re = URLMatcher::compile_pattern("http://foo.com").unwrap();
    assert!(re.is_match("http://foo.com"));
    assert!(!re.is_match("https://foo.com"));
    assert!(!re.is_match("http://foo.coma"));
    assert!(!re.is_match("blah/http://foo.com"));
}

#[test]
fn match_glob_protocol() {
    let re = URLMatcher::compile_pattern("*//foo.com").unwrap();
    assert!(re.is_match("http://foo.com"));
    assert!(re.is_match("https://foo.com"));
    assert!(!re.is_match("http://foo.coma"));
    assert!(!re.is_match("blah/http://foo.com"));
}

#[test]
fn match_glob_path() {
    let re = URLMatcher::compile_pattern("http://foo.com/*").unwrap();
    assert!(re.is_match("http://foo.com/"));
    assert!(re.is_match("http://foo.com"));
    assert!(re.is_match("http://foo.com/a"));
    assert!(!re.is_match("http://foo.coma"));
    assert!(!re.is_match("http://foo.com/a/b"));
}

#[test]
fn match_superglob_path() {
    let re = URLMatcher::compile_pattern("http://foo.com/**").unwrap();
    assert!(re.is_match("http://foo.com/"));
    assert!(re.is_match("http://foo.com"));
    assert!(re.is_match("http://foo.com/a"));
    assert!(re.is_match("http://foo.com/a/b/c"));
    assert!(!re.is_match("http://foo.coma"));
}

#[test]
fn generated_re_of_globs_in_a_row() {
    let re = URLMatcher::compile_pattern("/***/*").unwrap();
    assert_eq!(re.as_str(), r"^(?:/.*)?[^/]*(?:/[^/]*)?$");
    let re = URLMatcher::compile_pattern("a***").unwrap();
    assert_eq!(re.as_str(), r"^a.*[^/]*$");
}

#[test]
fn generated_re_escapes_what_is_no_glob() {
    let re = URLMatcher::compile_pattern(r"a+b\*(c)").unwrap();
    assert_eq!(re.as_str(), r"^a\+b\\[^/]*\(c\)$");
    assert!(re.is_match(r"a+b\xyz(c)"));
    assert!(!re.is_match("aab(c)"));
}

#[test]
fn generated_re_of_the_empty_glob() {
    let re = URLMatcher::compile_pattern("").unwrap();
    assert_eq!(re.as_str(), "^$");
    assert!(re.is_match(""));
    assert!(!re.is_match("a"));
}

#[test]
fn escape_puts_a_backslash_before_each_meta_character() {
    assert_eq!(escape(r"\.+*?()|[]{}^$#&-~"), r"\\\.\+\*\?\(\)\|\[\]\{\}\^\$\#\&\-\~");
    assert_eq!(escape("abc/%é!\""), "abc/%é!\"");
    assert_eq!(escape(""), "");
}

#[test]
fn pattern_that_does_not_compile_is_refused() {
    let error = Pattern::compile("(").unwrap_err();
    assert!(!error.message.is_empty());
    assert!(Pattern::compile("a(b)c").is_ok());
}

#[test]
fn pattern_finds_the_leftmost_match() {
    let pattern = Pattern::compile(r"\d+").unwrap();
    assert_eq!(pattern.find("ab 12 cd 345"), Some("12".to_string()));
    assert_eq!(pattern.find("abcd"), None);
    assert_eq!(pattern.as_str(), r"\d+");
}

#[test]
fn matcher_accepts_a_website_by_its_address() {
    let matcher = URLMatcher::new("http://foo.com/**").unwrap();
    assert_eq!(matcher.as_str(), r"^http://foo\.com(?:/.*)?$");
    assert!(matcher.matches(&Website::new("http://foo.com/a/b".to_string(), None)));
    assert!(!matcher.matches(&Website::new("http://foo.coma".to_string(), None)));
    assert!(matcher.matches_url("http://foo.com"));
}

#[test]
fn glob_too_long_to_compile_is_refused() {
    let glob = "a*".repeat(600_000);
    assert!(URLMatcher::new(&glob).is_err());
}
