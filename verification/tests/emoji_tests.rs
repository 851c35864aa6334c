use trakt_core::emoji_str::EmojiString;

#[test]
fn test_from_str() {
    let tests = [
        ("launch nothing", "launch nothing"),
        ("launch :rocket: something", "launch \u{1F680} something"),
        ("? :unknown: emoji", "? :unknown: emoji"),
        ("::very:naughty::", "::very:naughty::"),
        (":maybe:rocket:", ":maybe\u{1F680}"),
        (":rocket::rocket:", "\u{1F680}\u{1F680}"),
    ];

    for (i, o) in tests {
        let i = EmojiString::new(i);
        assert_eq!(i.as_bytes().as_slice(), o.as_bytes());
    }
}

#[test]
fn emoji_replacement_consumes_known_shortcodes_only() {
    // A known shortcode is replaced — the call would fail if the lookup
    // handed the name back unchanged — and an unknown one is kept.
    let replaced = EmojiString::new(":rocket:");
    assert_eq!(replaced.as_bytes().as_slice(), "\u{1F680}".as_bytes());
    assert_ne!(replaced.as_bytes().as_slice(), b"rocket");
    assert_ne!(replaced.as_bytes().as_slice(), b":rocket:");

    let kept = EmojiString::new(":no_such_shortcode_here:");
    assert_eq!(kept.as_bytes().as_slice(), b":no_such_shortcode_here:");
}

#[test]
fn emoji_string_round_trip_accessors() {
    let s = EmojiString::new("plain text, no colons");
    assert_eq!(s.clone().into_bytes(), b"plain text, no colons".to_vec());
    let wrapped = EmojiString::from_replaced(b"already done".to_vec());
    assert_eq!(wrapped.as_bytes().as_slice(), b"already done");
}

#[test]
fn emoji_empty_and_single_colon() {
    assert_eq!(EmojiString::new("").as_bytes().as_slice(), b"");
    assert_eq!(EmojiString::new(":").as_bytes().as_slice(), b":");
    assert_eq!(EmojiString::new("a:b").as_bytes().as_slice(), b"a:b");
}
