use excel_xmlwriter::{escape_attributes, escape_data};

const ATTRIBUTE_ENTITIES: [&str; 5] = ["&amp;", "&quot;", "&lt;", "&gt;", "&#xA;"];
const DATA_ENTITIES: [&str; 3] = ["&amp;", "&lt;", "&gt;"];

/// No character of `forbidden` stands in `text`, and every `&` in `text`
/// begins one of `entities`.
fn is_safe(text: &str, forbidden: &[char], entities: &[&str]) -> bool {
    for (at, c) in text.char_indices() {
        if forbidden.contains(&c) {
            return false;
        }
        if c == '&' && !entities.iter().any(|entity| text[at..].starts_with(entity)) {
            return false;
        }
    }
    true
}

fn samples() -> Vec<&'static str> {
    vec![
        "",
        "plain",
        "&",
        "&&",
        "&amp;",
        "a < b > c",
        "\"quoted\"",
        "line\nfeed",
        "tab\tand\rreturn",
        "&<>\"\n",
        "<a href=\"x?y=1&z=2\">\n</a>",
        "caf\u{e9} \u{4e2d}\u{6587} & \u{1f600} <ok>",
        "&#xA;&quot;&lt;&gt;",
    ]
}

#[test]
fn test_escape_attributes_all_five() {
    assert_eq!(escape_attributes("&<>\"\n"), "&amp;&lt;&gt;&quot;&#xA;");
}

#[test]
fn test_escape_data_keeps_quote() {
    assert_eq!(escape_data("&<>\""), "&amp;&lt;&gt;\"");
}

#[test]
fn test_escape_attributes_each_character() {
    assert_eq!(escape_attributes("&"), "&amp;");
    assert_eq!(escape_attributes("\""), "&quot;");
    assert_eq!(escape_attributes("<"), "&lt;");
    assert_eq!(escape_attributes(">"), "&gt;");
    assert_eq!(escape_attributes("\n"), "&#xA;");
}

#[test]
fn test_escape_data_each_character() {
    assert_eq!(escape_data("&"), "&amp;");
    assert_eq!(escape_data("<"), "&lt;");
    assert_eq!(escape_data(">"), "&gt;");
    assert_eq!(escape_data("\""), "\"");
    assert_eq!(escape_data("\n"), "\n");
}

#[test]
fn test_escape_empty_text() {
    assert_eq!(escape_attributes(""), "");
    assert_eq!(escape_data(""), "");
}

#[test]
fn test_escape_plain_text_is_unchanged() {
    assert_eq!(escape_attributes("some text 123"), "some text 123");
    assert_eq!(escape_data("some text 123"), "some text 123");
}

#[test]
fn test_escape_keeps_tab_and_carriage_return() {
    assert_eq!(escape_attributes("a\tb\rc"), "a\tb\rc");
    assert_eq!(escape_data("a\tb\rc"), "a\tb\rc");
    assert_eq!(escape_attributes("\u{1}\u{7f}"), "\u{1}\u{7f}");
}

#[test]
fn test_escape_data_keeps_line_feed_and_quote() {
    assert_eq!(escape_data("say \"hi\"\nthen <go>"), "say \"hi\"\nthen &lt;go&gt;");
}

#[test]
fn test_escape_ampersand_of_an_entity_is_escaped_once() {
    assert_eq!(escape_attributes("&amp;"), "&amp;amp;");
    assert_eq!(escape_attributes("&lt;"), "&amp;lt;");
    assert_eq!(escape_data("&gt;"), "&amp;gt;");
    assert_eq!(escape_attributes("&#xA;"), "&amp;#xA;");
}

#[test]
fn test_escape_keeps_the_order_of_the_text() {
    assert_eq!(escape_attributes("a<b&c>d\"e\nf"), "a&lt;b&amp;c&gt;d&quot;e&#xA;f");
    assert_eq!(escape_data("a<b&c>d\"e\nf"), "a&lt;b&amp;c&gt;d\"e\nf");
}

#[test]
fn test_escape_text_beyond_ascii() {
    assert_eq!(escape_attributes("caf\u{e9} <\u{4e2d}\u{6587}>"), "caf\u{e9} &lt;\u{4e2d}\u{6587}&gt;");
    assert_eq!(escape_data("\u{1f600}&\u{1f600}"), "\u{1f600}&amp;\u{1f600}");
}

#[test]
fn test_escape_is_the_chain_of_replacements() {
    for text in samples() {
        let attribute = text
            .replace('&', "&amp;")
            .replace('"', "&quot;")
            .replace('<', "&lt;")
            .replace('>', "&gt;")
            .replace('\n', "&#xA;");
        assert_eq!(escape_attributes(text), attribute);
        let data = text.replace('&', "&amp;").replace('<', "&lt;").replace('>', "&gt;");
        assert_eq!(escape_data(text), data);
    }
}

#[test]
fn test_escaped_attribute_holds_no_raw_special_character() {
    for text in samples() {
        let escaped = escape_attributes(text);
        assert!(is_safe(&escaped, &['"', '<', '>', '\n'], &ATTRIBUTE_ENTITIES));
    }
    assert!(!is_safe("a&b", &['"', '<', '>', '\n'], &ATTRIBUTE_ENTITIES));
    assert!(!is_safe("a\"b", &['"', '<', '>', '\n'], &ATTRIBUTE_ENTITIES));
}

#[test]
fn test_escaped_data_holds_no_raw_markup_character() {
    for text in samples() {
        let escaped = escape_data(text);
        assert!(is_safe(&escaped, &['<', '>'], &DATA_ENTITIES));
        let kept: String = text.chars().filter(|c| *c == '"' || *c == '\n').collect();
        let left: String = escaped.chars().filter(|c| *c == '"' || *c == '\n').collect();
        assert_eq!(left, kept);
    }
    assert!(is_safe(&escape_data("\"\n"), &['<', '>'], &DATA_ENTITIES));
    assert_eq!(escape_data("\"\n"), "\"\n");
}

#[test]
fn test_escape_piece_by_piece() {
    for first in samples() {
        for second in samples() {
            let whole = format!("{}{}", first, second);
            assert_eq!(
                escape_attributes(&whole),
                format!("{}{}", escape_attributes(first), escape_attributes(second))
            );
            assert_eq!(
                escape_data(&whole),
                format!("{}{}", escape_data(first), escape_data(second))
            );
        }
    }
}

#[test]
fn test_decimal_text_needs_no_escaping() {
    for number in [0u32, 7, 42, 1234567890, u32::MAX] {
        let text = number.to_string();
        assert_eq!(escape_attributes(&text), text);
        assert_eq!(escape_data(&text), text);
    }
}
