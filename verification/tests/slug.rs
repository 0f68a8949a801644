use herdr_plugin_renamer::slug::{fallback_title_from_prompt, sanitize_title};
use herdr_plugin_renamer::state::{cache_contents, restore_cached_title};

#[test]
fn preserves_human_title_spaces() {
    assert_eq!(
        sanitize_title("Review Hermes Routing Research."),
        "Review Hermes Routing Research"
    );
}

#[test]
fn caps_words_and_length() {
    assert_eq!(
        sanitize_title("one two three four five six seven"),
        "one two three four five six"
    );
    assert!(sanitize_title(&"a".repeat(80)).ends_with('\u{2026}'));
}

#[test]
fn fallback_never_empty() {
    assert_eq!(fallback_title_from_prompt("!!!"), "Agent task");
}

#[test]
fn shortened_title_is_fifty_nine_characters_and_an_ellipsis() {
    let title = sanitize_title(&"a".repeat(80));
    assert_eq!(title.chars().count(), 60);
    assert_eq!(title, format!("{}\u{2026}", "a".repeat(59)));
}

#[test]
fn shortened_title_drops_trailing_space_before_ellipsis() {
    // 58 letters, a space, then more: the cut at 59 characters ends in the space.
    let raw = format!("{} bbbbbbbbbb", "a".repeat(58));
    assert_eq!(sanitize_title(&raw), format!("{}\u{2026}", "a".repeat(58)));
}

#[test]
fn takes_first_line_with_content() {
    assert_eq!(sanitize_title("\n   \n  fix the -- parser!  \nsecond line"), "fix the parser");
    assert_eq!(sanitize_title("title\r\nrest"), "title");
}

#[test]
fn trims_only_the_ends_of_words() {
    assert_eq!(sanitize_title("\"don't\" (stop) ...now..."), "don't stop now");
    assert_eq!(sanitize_title("caf\u{e9}! na\u{ef}ve"), "caf\u{e9} na\u{ef}ve");
}

#[test]
fn empty_and_blank_inputs_give_empty_titles() {
    assert_eq!(sanitize_title(""), "");
    assert_eq!(sanitize_title(" \t\n \n"), "");
    assert_eq!(sanitize_title("... --- !!!"), "");
}

#[test]
fn never_longer_than_sixty_characters() {
    for n in [0usize, 1, 59, 60, 61, 120] {
        let raw = "w".repeat(n);
        assert!(sanitize_title(&raw).chars().count() <= 60);
    }
}

#[test]
fn fallback_uses_first_line_with_content() {
    assert_eq!(
        fallback_title_from_prompt("\n\nPlease refactor the login flow.\nThanks"),
        "Please refactor the login flow"
    );
    assert_eq!(fallback_title_from_prompt(""), "Agent task");
}

#[test]
fn fallback_matches_sanitized_prompt() {
    let prompt = "  \n  Add retries; to the HTTP client!!\n more";
    assert_eq!(fallback_title_from_prompt(prompt), sanitize_title(prompt));
}

#[test]
fn stable_title_reads_back_from_cache() {
    let title = sanitize_title("Review Hermes Routing Research.");
    let contents = cache_contents(&title);
    assert_eq!(contents, "Review Hermes Routing Research\n");
    let restored = restore_cached_title(&contents, false);
    assert_eq!(restored.title.as_deref(), Some(title.as_str()));
    assert_eq!(restored.rewrite, None);
}

#[test]
fn shortened_title_does_not_read_back_unchanged() {
    let title = sanitize_title(&"a".repeat(80));
    let restored = restore_cached_title(&cache_contents(&title), false);
    assert_eq!(restored.title, Some("a".repeat(59)));
}

#[test]
fn control_characters_are_not_kept() {
    assert_eq!(sanitize_title("a\u{7}b\n"), "a b");
    assert_eq!(sanitize_title("Fix\u{0}the\u{1b}[0mbug"), "Fix the 0mbug");
    assert_eq!(sanitize_title("\u{7f}\u{9f}"), "");
    let title = sanitize_title("tab\tand\u{85}next\u{a0}line");
    assert_eq!(title, "tab and next line");
    assert!(!title.chars().any(|c| c.is_control()));
}

#[test]
fn unicode_spaces_separate_words() {
    assert_eq!(sanitize_title("one\u{3000}two\u{2009}three"), "one two three");
}
