use std::borrow::Cow;

use jellyfin_exporter::labels::{sanitize_codec_label, sanitize_label, MAX_LABEL_CHARS};

#[test]
fn sanitize_none_returns_unknown() {
    assert_eq!(sanitize_label(None), "unknown");
}

#[test]
fn sanitize_empty_returns_unknown() {
    assert_eq!(sanitize_label(Some("")), "unknown");
    assert_eq!(sanitize_label(Some("   ")), "unknown");
}

#[test]
fn sanitize_trims_and_collapses() {
    assert_eq!(sanitize_label(Some("  hello   world  ")), "hello world");
}

#[test]
fn sanitize_truncates_to_64_chars() {
    let long = "a".repeat(100);
    let result = sanitize_label(Some(&long));
    assert_eq!(result.chars().count(), MAX_LABEL_CHARS);
}

#[test]
fn sanitize_truncates_at_char_boundary_for_multibyte() {
    // 50 multi-byte chars (3 bytes each), then 50 ASCII chars: truncation
    // must split at character 64, never inside a code point.
    let multibyte = "あ".repeat(50);
    let mixed = format!("{multibyte}{}", "a".repeat(50));
    let result = sanitize_label(Some(&mixed));
    assert_eq!(result.chars().count(), MAX_LABEL_CHARS);
    assert!(std::str::from_utf8(result.as_bytes()).is_ok());
}

#[test]
fn sanitize_codec_label_lowercases() {
    assert_eq!(sanitize_codec_label(Some("H264")), "h264");
    assert_eq!(sanitize_codec_label(Some("HEVC")), "hevc");
}

#[test]
fn sanitize_codec_label_preserves_lowercase() {
    assert_eq!(sanitize_codec_label(Some("h264")), "h264");
}

#[test]
fn sanitize_label_borrows_clean_input() {
    let result = sanitize_label(Some("clean input"));
    assert!(matches!(result, Cow::Borrowed(_)));
}

#[test]
fn sanitize_label_owns_collapsed_input() {
    let result = sanitize_label(Some("two  spaces"));
    assert!(matches!(result, Cow::Owned(_)));
    assert_eq!(result, "two spaces");
}

#[test]
fn sanitize_replaces_single_non_ascii_space() {
    // A lone no-break space is a whitespace run of its own: it becomes one
    // ASCII space.
    let result = sanitize_label(Some(" a\u{a0}b "));
    assert!(matches!(result, Cow::Owned(_)));
    assert_eq!(result, "a b");
    assert_eq!(sanitize_label(Some("a\u{3000}b")), "a b");
    assert_eq!(sanitize_label(Some("a\tb")), "a b");
}

#[test]
fn sanitize_borrows_single_ascii_spaces() {
    assert!(matches!(sanitize_label(Some(" a b c ")), Cow::Borrowed("a b c")));
}

#[test]
fn sanitize_collapses_unicode_whitespace_on_slow_path() {
    assert_eq!(sanitize_label(Some("a\t\u{3000} b")), "a b");
}

#[test]
fn sanitize_truncation_may_end_in_space() {
    let input = format!("{} b", "a".repeat(63));
    let input = format!("{input}  c");
    let result = sanitize_label(Some(&input));
    assert_eq!(result.chars().count(), MAX_LABEL_CHARS);
    assert_eq!(result, format!("{} ", "a".repeat(63)));
}

#[test]
fn sanitize_codec_label_mixed_case_and_borrowing() {
    assert!(matches!(sanitize_codec_label(Some("aac")), Cow::Borrowed(_)));
    assert!(matches!(sanitize_codec_label(Some("Aac")), Cow::Owned(_)));
    assert_eq!(sanitize_codec_label(Some("  E-AC3 ")), "e-ac3");
    assert_eq!(sanitize_codec_label(None), "unknown");
}

#[test]
fn sanitize_result_never_longer_than_limit() {
    for n in [0usize, 1, 63, 64, 65, 200] {
        let input = "x ".repeat(n);
        let result = sanitize_label(Some(&input));
        assert!(result.chars().count() <= MAX_LABEL_CHARS);
        assert!(!result.is_empty());
    }
}

#[test]
fn codec_labels_ignore_ascii_case() {
    let a = sanitize_codec_label(Some("  HeVc   Main10 "));
    let b = sanitize_codec_label(Some("hevc main10"));
    assert_eq!(a, b);
    assert_eq!(a, "hevc main10");
}

#[test]
fn labels_never_empty_nor_longer_than_limit() {
    for input in [None, Some(""), Some(" \t\n "), Some("x"), Some(&*"ab ".repeat(40))] {
        let n = sanitize_label(input).chars().count();
        assert!((1..=64).contains(&n), "{input:?} gave {n} chars");
    }
}
