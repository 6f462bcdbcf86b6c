use omnihook::markdown::{escape_every_special, escape_with_entities, find_entities, matches_fit};
use omnihook::TelegramPayloadBuilder;

#[test]
fn entities_are_found_with_byte_ranges() {
    let text = "a *b* [l](u.v)";
    let found = find_entities(text).unwrap();
    assert_eq!(found, vec![(2, 5, None, None), (6, 14, Some((7, 8)), Some((10, 13)))]);
    assert!(matches_fit(text, &found));
}

#[test]
fn escaping_with_given_entities() {
    let text = "x.y [a.b](c.d) e!";
    assert_eq!(
        escape_with_entities(text, &[(4, 14, Some((5, 8)), Some((10, 13)))]),
        "x\\.y [a\\.b](c\\.d) e\\!"
    );
    assert_eq!(escape_with_entities("k.*l.*", &[(2, 6, None, None)]), "k\\.*l.*");
    assert_eq!(escape_with_entities("a.b", &[]), "a\\.b");
}

#[test]
fn ill_fitting_entities_are_detected() {
    assert!(!matches_fit("abc", &[(1, 5, None, None)]));
    assert!(!matches_fit("abcdef", &[(3, 5, None, None), (1, 2, None, None)]));
    assert!(!matches_fit("é", &[(1, 2, None, None)]));
    assert!(matches_fit("é*x*", &[(2, 5, None, None)]));
}

#[test]
fn non_ascii_text_is_escaped() {
    assert_eq!(TelegramPayloadBuilder::escape_markdown_v2("héllo — wörld."), "héllo — wörld\\.");
    assert_eq!(TelegramPayloadBuilder::escape_markdown_v2("日本*語*!"), "日本*語*\\!");
    assert_eq!(escape_every_special("a-b"), "a\\-b");
}

#[test]
fn escaped_text_reads_as_the_text() {
    let text = "Price: 5.00 (approx) - see [notes]!";
    let escaped = escape_every_special(text);
    let mut shown = String::new();
    let mut chars = escaped.chars().peekable();
    while let Some(c) = chars.next() {
        if c == '\\' {
            if let Some(next) = chars.next() {
                shown.push(next);
                continue;
            }
        }
        shown.push(c);
    }
    assert_eq!(shown, text);
    assert_eq!(escape_every_special("plain words"), "plain words");
}
