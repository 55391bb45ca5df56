use tiger::parse::ignore::{parse_comment, IgnoreSize};
use tiger::report::error_key::ErrorKey;

#[test]
fn test_bare() {
    let result = parse_comment("tiger-ignore");
    assert!(result.is_some());
    if let Some(spec) = result {
        assert_eq!(spec.size, IgnoreSize::Line);
        assert!(spec.filter.key.is_none());
        assert!(spec.filter.text.is_none());
    }
}

#[test]
fn test_non_ignore() {
    let result = parse_comment("a random comment");
    assert!(result.is_none());
}

#[test]
fn test_bare_trailing() {
    let result = parse_comment("tiger-ignore with explanation");
    assert!(result.is_some());
    if let Some(spec) = result {
        assert_eq!(spec.size, IgnoreSize::Line);
        assert!(spec.filter.key.is_none());
        assert!(spec.filter.text.is_none());
    }
}

#[test]
fn test_block() {
    let result = parse_comment("tiger-ignore(block)");
    assert!(result.is_some());
    if let Some(spec) = result {
        assert_eq!(spec.size, IgnoreSize::Block);
        assert!(spec.filter.key.is_none());
        assert!(spec.filter.text.is_none());
    }
}

#[test]
fn test_file() {
    let result = parse_comment("tiger-ignore(file)");
    assert!(result.is_some());
    if let Some(spec) = result {
        assert_eq!(spec.size, IgnoreSize::File);
        assert!(spec.filter.key.is_none());
        assert!(spec.filter.text.is_none());
    }
}

#[test]
fn test_begin() {
    let result = parse_comment("tiger-ignore(begin)");
    assert!(result.is_some());
    if let Some(spec) = result {
        assert_eq!(spec.size, IgnoreSize::Begin);
        assert!(spec.filter.key.is_none());
        assert!(spec.filter.text.is_none());
    }
}

#[test]
fn test_end() {
    let result = parse_comment("tiger-ignore(end)");
    assert!(result.is_some());
    if let Some(spec) = result {
        assert_eq!(spec.size, IgnoreSize::End);
        assert!(spec.filter.key.is_none());
        assert!(spec.filter.text.is_none());
    }
}

#[test]
fn test_block_with_key() {
    let result = parse_comment("tiger-ignore(block, key=missing-item)");
    assert!(result.is_some());
    if let Some(spec) = result {
        assert_eq!(spec.size, IgnoreSize::Block);
        assert_eq!(spec.filter.key, Some(ErrorKey::MissingItem));
        assert!(spec.filter.text.is_none());
    }
}

#[test]
fn test_block_with_quoted_text() {
    let result = parse_comment("tiger-ignore(block, text=\"missing english\")");
    assert!(result.is_some());
    if let Some(spec) = result {
        assert_eq!(spec.size, IgnoreSize::Block);
        assert!(spec.filter.key.is_none());
        assert_eq!(spec.filter.text, Some("missing english".to_owned()));
    }
}

#[test]
fn ignore_leading_whitespace_and_spaces_inside() {
    let spec = parse_comment("  tiger-ignore ( file , key = missing-item )").unwrap();
    assert_eq!(spec.size, IgnoreSize::File);
    assert_eq!(spec.filter.key, Some(ErrorKey::MissingItem));
}

#[test]
fn ignore_later_arguments_win() {
    let spec = parse_comment("tiger-ignore(block, file, text=\"a\", text=\"b\")").unwrap();
    assert_eq!(spec.size, IgnoreSize::File);
    assert_eq!(spec.filter.text, Some("b".to_owned()));
}

#[test]
fn ignore_rejects_glued_words_and_bad_arguments() {
    assert!(parse_comment("tiger-ignored").is_none());
    assert!(parse_comment("tiger-ignore(line)").is_none());
    assert!(parse_comment("tiger-ignore(key=no-such-key)").is_none());
    assert!(parse_comment("tiger-ignore(text=\"unclosed)").is_none());
    assert!(parse_comment("tiger-ignore(block").is_none());
    assert!(parse_comment("").is_none());
}

#[test]
fn ignore_filter_matches() {
    let spec = parse_comment("tiger-ignore(key=missing-item, text=\"english\")").unwrap();
    assert!(spec.filter.matches(ErrorKey::MissingItem, "missing english localization"));
    assert!(!spec.filter.matches(ErrorKey::Validation, "missing english localization"));
    assert!(!spec.filter.matches(ErrorKey::MissingItem, "missing french localization"));
    let bare = parse_comment("tiger-ignore").unwrap();
    assert!(bare.filter.matches(ErrorKey::Validation, "anything"));
}
