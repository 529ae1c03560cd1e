//! The two escaping rules: one for attribute values, one for element text.
//!
//! Both rules work character by character. Attribute values have `&`, `"`,
//! `<`, `>` and the line feed replaced by an entity; element text only `&`,
//! `<` and `>`. Every other character, tabs and carriage returns included,
//! is kept.

use vstd::prelude::*;

verus! {

/// The text in which every character `c` of `s` is replaced by `f(c)`, in order.
pub open spec fn expand(s: Seq<char>, f: spec_fn(char) -> Seq<char>) -> Seq<char>
    decreases s.len(),
{
    if s.len() == 0 {
        Seq::empty()
    } else {
        expand(s.drop_last(), f) + f(s.last())
    }
}

/// What stands for the character `c` inside an attribute value.
pub open spec fn escaped_attribute_char(c: char) -> Seq<char> {
    if c == '&' {
        "&amp;"@
    } else if c == '"' {
        "&quot;"@
    } else if c == '<' {
        "&lt;"@
    } else if c == '>' {
        "&gt;"@
    } else if c == '\n' {
        "&#xA;"@
    } else {
        seq![c]
    }
}

/// What stands for the character `c` inside element text.
pub open spec fn escaped_data_char(c: char) -> Seq<char> {
    if c == '&' {
        "&amp;"@
    } else if c == '<' {
        "&lt;"@
    } else if c == '>' {
        "&gt;"@
    } else {
        seq![c]
    }
}

/// The rule for attribute values.
pub open spec fn attribute_rule() -> spec_fn(char) -> Seq<char> {
    |c: char| escaped_attribute_char(c)
}

/// The rule for element text.
pub open spec fn data_rule() -> spec_fn(char) -> Seq<char> {
    |c: char| escaped_data_char(c)
}

/// An attribute value after escaping.
pub open spec fn escaped_attribute(s: Seq<char>) -> Seq<char> {
    expand(s, attribute_rule())
}

/// Element text after escaping.
pub open spec fn escaped_data(s: Seq<char>) -> Seq<char> {
    expand(s, data_rule())
}

/// The word `word` stands in `text` at position `at`.
pub open spec fn occurs_at(text: Seq<char>, at: int, word: Seq<char>) -> bool {
    &&& 0 <= at
    &&& at + word.len() <= text.len()
    &&& text.subrange(at, at + word.len()) == word
}

/// One of the five entities of attribute values starts at position `at`.
pub open spec fn attribute_entity_at(text: Seq<char>, at: int) -> bool {
    ||| occurs_at(text, at, "&amp;"@)
    ||| occurs_at(text, at, "&quot;"@)
    ||| occurs_at(text, at, "&lt;"@)
    ||| occurs_at(text, at, "&gt;"@)
    ||| occurs_at(text, at, "&#xA;"@)
}

/// One of the three entities of element text starts at position `at`.
pub open spec fn data_entity_at(text: Seq<char>, at: int) -> bool {
    ||| occurs_at(text, at, "&amp;"@)
    ||| occurs_at(text, at, "&lt;"@)
    ||| occurs_at(text, at, "&gt;"@)
}

/// `text` can stand between the quotes of an attribute: it holds no `"`, `<`,
/// `>` or line feed, and every `&` in it begins an entity.
pub open spec fn is_attribute_safe(text: Seq<char>) -> bool {
    forall|i: int|
        #![trigger text[i]]
        0 <= i < text.len() ==> {
            &&& text[i] != '"'
            &&& text[i] != '<'
            &&& text[i] != '>'
            &&& text[i] != '\n'
            &&& text[i] == '&' ==> attribute_entity_at(text, i)
        }
}

/// `text` can stand between two tags: it holds no `<` or `>`, and every `&`
/// in it begins an entity.
pub open spec fn is_data_safe(text: Seq<char>) -> bool {
    forall|i: int|
        #![trigger text[i]]
        0 <= i < text.len() ==> {
            &&& text[i] != '<'
            &&& text[i] != '>'
            &&& text[i] == '&' ==> data_entity_at(text, i)
        }
}

/// Escapes the text of an attribute value: `&`, `"`, `<`, `>` and the line
/// feed become `&amp;`, `&quot;`, `&lt;`, `&gt;` and `&#xA;`.
pub fn escape_attributes(attribute: &str) -> (escaped: String)
    ensures
        escaped@ == escaped_attribute(attribute@),
        is_attribute_safe(escaped@),
{
    let mut escaped = String::new();
    append_escaped_attribute(&mut escaped, attribute);
    proof {
        lemma_escaped_attribute_is_safe(attribute@);
    }
    escaped
}

/// Escapes the text between two tags: `&`, `<` and `>` become `&amp;`,
/// `&lt;` and `&gt;`. Quotes and line feeds stay as they are.
pub fn escape_data(data: &str) -> (escaped: String)
    ensures
        escaped@ == escaped_data(data@),
        is_data_safe(escaped@),
{
    let mut escaped = String::new();
    append_escaped_data(&mut escaped, data);
    proof {
        lemma_escaped_data_is_safe(data@);
    }
    escaped
}

/// Appends the escaped form of an attribute value to `out`.
pub(crate) fn append_escaped_attribute(out: &mut String, attribute: &str)
    ensures
        final(out)@ == old(out)@ + escaped_attribute(attribute@),
{
    for c in it: attribute.chars()
        invariant
            it.seq() == attribute@,
            out@ == old(out)@ + escaped_attribute(attribute@.take(it.index() as int)),
    {
        assert(attribute@.take(it.index() + 1).drop_last() == attribute@.take(it.index() as int));
        if c == '&' {
            out.append("&amp;");
        } else if c == '"' {
            out.append("&quot;");
        } else if c == '<' {
            out.append("&lt;");
        } else if c == '>' {
            out.append("&gt;");
        } else if c == '\n' {
            out.append("&#xA;");
        } else {
            out.push(c);
        }
    }
    assert(attribute@.take(attribute@.len() as int) == attribute@);
}

/// Appends the escaped form of element text to `out`.
pub(crate) fn append_escaped_data(out: &mut String, data: &str)
    ensures
        final(out)@ == old(out)@ + escaped_data(data@),
{
    for c in it: data.chars()
        invariant
            it.seq() == data@,
            out@ == old(out)@ + escaped_data(data@.take(it.index() as int)),
    {
        assert(data@.take(it.index() + 1).drop_last() == data@.take(it.index() as int));
        if c == '&' {
            out.append("&amp;");
        } else if c == '<' {
            out.append("&lt;");
        } else if c == '>' {
            out.append("&gt;");
        } else {
            out.push(c);
        }
    }
    assert(data@.take(data@.len() as int) == data@);
}

/// Escaping an attribute value leaves nothing in it that could end the
/// attribute or be read as markup: no `"`, `<`, `>` or line feed is left, and
/// an `&` is left only where it begins one of the five entities.
pub proof fn lemma_escaped_attribute_is_safe(s: Seq<char>)
    ensures
        is_attribute_safe(escaped_attribute(s)),
    decreases s.len(),
{
    reveal_strlit("&amp;");
    reveal_strlit("&quot;");
    reveal_strlit("&lt;");
    reveal_strlit("&gt;");
    reveal_strlit("&#xA;");
    if s.len() > 0 {
        let head = escaped_attribute(s.drop_last());
        let tail = escaped_attribute_char(s.last());
        let text = escaped_attribute(s);
        lemma_escaped_attribute_is_safe(s.drop_last());
        assert(text == head + tail);
        assert forall|i: int| 0 <= i < text.len() implies {
            &&& text[i] != '"'
            &&& text[i] != '<'
            &&& text[i] != '>'
            &&& text[i] != '\n'
            &&& #[trigger] text[i] == '&' ==> attribute_entity_at(text, i)
        } by {
            if i < head.len() {
                assert(text[i] == head[i]);
                if head[i] == '&' {
                    lemma_occurs_in_front(head, tail, i, "&amp;"@);
                    lemma_occurs_in_front(head, tail, i, "&quot;"@);
                    lemma_occurs_in_front(head, tail, i, "&lt;"@);
                    lemma_occurs_in_front(head, tail, i, "&gt;"@);
                    lemma_occurs_in_front(head, tail, i, "&#xA;"@);
                }
            } else {
                assert(text[i] == tail[i - head.len()]);
                if text[i] == '&' {
                    assert(i == head.len());
                    assert(text.subrange(i, i + tail.len()) == tail);
                }
            }
        }
    }
}

/// Escaping element text leaves nothing in it that could be read as markup:
/// no `<` or `>` is left, and an `&` is left only where it begins one of the
/// three entities.
pub proof fn lemma_escaped_data_is_safe(s: Seq<char>)
    ensures
        is_data_safe(escaped_data(s)),
    decreases s.len(),
{
    reveal_strlit("&amp;");
    reveal_strlit("&lt;");
    reveal_strlit("&gt;");
    if s.len() > 0 {
        let head = escaped_data(s.drop_last());
        let tail = escaped_data_char(s.last());
        let text = escaped_data(s);
        lemma_escaped_data_is_safe(s.drop_last());
        assert(text == head + tail);
        assert forall|i: int| 0 <= i < text.len() implies {
            &&& text[i] != '<'
            &&& text[i] != '>'
            &&& #[trigger] text[i] == '&' ==> data_entity_at(text, i)
        } by {
            if i < head.len() {
                assert(text[i] == head[i]);
                if head[i] == '&' {
                    lemma_occurs_in_front(head, tail, i, "&amp;"@);
                    lemma_occurs_in_front(head, tail, i, "&lt;"@);
                    lemma_occurs_in_front(head, tail, i, "&gt;"@);
                }
            } else {
                assert(text[i] == tail[i - head.len()]);
                if text[i] == '&' {
                    assert(i == head.len());
                    assert(text.subrange(i, i + tail.len()) == tail);
                }
            }
        }
    }
}

/// The rule that keeps quotes and line feeds and drops every other character.
pub open spec fn quote_and_line_feed_rule() -> spec_fn(char) -> Seq<char> {
    |c: char|
        if c == '"' || c == '\n' {
            seq![c]
        } else {
            Seq::empty()
        }
}

/// The quotes and line feeds of a text, in the order in which they stand in it.
pub open spec fn quotes_and_line_feeds(text: Seq<char>) -> Seq<char> {
    expand(text, quote_and_line_feed_rule())
}

/// Escaping element text touches no quote and no line feed: those of the
/// escaped text are those of the text, one for one and in the same order.
pub proof fn lemma_escaped_data_keeps_quotes_and_line_feeds(s: Seq<char>)
    ensures
        quotes_and_line_feeds(escaped_data(s)) == quotes_and_line_feeds(s),
    decreases s.len(),
{
    reveal_strlit("&amp;");
    reveal_strlit("&lt;");
    reveal_strlit("&gt;");
    if s.len() > 0 {
        let c = s.last();
        lemma_escaped_data_keeps_quotes_and_line_feeds(s.drop_last());
        lemma_expand_concat(
            escaped_data(s.drop_last()),
            escaped_data_char(c),
            quote_and_line_feed_rule(),
        );
        if c == '&' || c == '<' || c == '>' {
            lemma_expand_dropped(escaped_data_char(c), quote_and_line_feed_rule());
        } else {
            lemma_expand_single(c, quote_and_line_feed_rule());
        }
    }
}

/// Text that holds none of the characters of a rule comes out of it
/// unchanged: for element text this includes quotes and line feeds.
pub proof fn lemma_plain_text_is_kept(s: Seq<char>)
    ensures
        !s.contains('&') && !s.contains('<') && !s.contains('>') ==> escaped_data(s) == s,
        !s.contains('&') && !s.contains('<') && !s.contains('>') && !s.contains('"')
            && !s.contains('\n') ==> escaped_attribute(s) == s,
{
    if !s.contains('&') && !s.contains('<') && !s.contains('>') {
        lemma_expand_kept(s, data_rule());
        if !s.contains('"') && !s.contains('\n') {
            lemma_expand_kept(s, attribute_rule());
        }
    }
}

/// The rule that puts `to` in the place of `from` and keeps every other character.
pub open spec fn replacing(from: char, to: Seq<char>) -> spec_fn(char) -> Seq<char> {
    |c: char|
        if c == from {
            to
        } else {
            seq![c]
        }
}

/// The text `s` with every occurrence of `from` replaced by `to`.
pub open spec fn replace_char(s: Seq<char>, from: char, to: Seq<char>) -> Seq<char> {
    expand(s, replacing(from, to))
}

/// The replacements of attribute values made one after the other over the
/// whole text, `&` first.
pub open spec fn attribute_replacements(s: Seq<char>) -> Seq<char> {
    let s = replace_char(s, '&', "&amp;"@);
    let s = replace_char(s, '"', "&quot;"@);
    let s = replace_char(s, '<', "&lt;"@);
    let s = replace_char(s, '>', "&gt;"@);
    replace_char(s, '\n', "&#xA;"@)
}

/// The replacements of element text made one after the other over the whole
/// text, `&` first.
pub open spec fn data_replacements(s: Seq<char>) -> Seq<char> {
    let s = replace_char(s, '&', "&amp;"@);
    let s = replace_char(s, '<', "&lt;"@);
    replace_char(s, '>', "&gt;"@)
}

/// An escaped attribute value is what five replacements over the whole text
/// give when they are made in this order: `&`, `"`, `<`, `>`, line feed.
pub proof fn lemma_escaped_attribute_is_replacements(s: Seq<char>)
    ensures
        escaped_attribute(s) == attribute_replacements(s),
    decreases s.len(),
{
    if s.len() == 0 {
        assert(attribute_replacements(s) == Seq::<char>::empty());
    } else {
        lemma_escaped_attribute_is_replacements(s.drop_last());
        lemma_attribute_replacements_concat(s.drop_last(), seq![s.last()]);
        lemma_attribute_replacements_single(s.last());
        assert(s.drop_last() + seq![s.last()] == s);
    }
}

/// Escaped element text is what three replacements over the whole text give
/// when they are made in this order: `&`, `<`, `>`.
pub proof fn lemma_escaped_data_is_replacements(s: Seq<char>)
    ensures
        escaped_data(s) == data_replacements(s),
    decreases s.len(),
{
    if s.len() == 0 {
        assert(data_replacements(s) == Seq::<char>::empty());
    } else {
        lemma_escaped_data_is_replacements(s.drop_last());
        lemma_data_replacements_concat(s.drop_last(), seq![s.last()]);
        lemma_data_replacements_single(s.last());
        assert(s.drop_last() + seq![s.last()] == s);
    }
}

/// Expanding a text piece by piece gives the same as expanding it whole.
pub proof fn lemma_expand_concat(a: Seq<char>, b: Seq<char>, f: spec_fn(char) -> Seq<char>)
    ensures
        expand(a + b, f) == expand(a, f) + expand(b, f),
    decreases b.len(),
{
    if b.len() == 0 {
        assert(a + b == a);
    } else {
        assert((a + b).drop_last() == a + b.drop_last());
        lemma_expand_concat(a, b.drop_last(), f);
    }
}

/// A single character expands to what the rule gives for it.
pub proof fn lemma_expand_single(c: char, f: spec_fn(char) -> Seq<char>)
    ensures
        expand(seq![c], f) == f(c),
{
    assert(seq![c].drop_last() == Seq::<char>::empty());
    assert(expand(seq![c].drop_last(), f) == Seq::<char>::empty());
}

/// A rule that keeps every character of `s` keeps `s`.
pub proof fn lemma_expand_kept(s: Seq<char>, f: spec_fn(char) -> Seq<char>)
    requires
        forall|i: int| 0 <= i < s.len() ==> f(#[trigger] s[i]) == seq![s[i]],
    ensures
        expand(s, f) == s,
    decreases s.len(),
{
    if s.len() > 0 {
        lemma_expand_kept(s.drop_last(), f);
        assert(s.drop_last().push(s.last()) == s);
    }
}

/// A rule that drops every character of `s` leaves nothing of `s`.
pub proof fn lemma_expand_dropped(s: Seq<char>, f: spec_fn(char) -> Seq<char>)
    requires
        forall|i: int| 0 <= i < s.len() ==> f(#[trigger] s[i]) == Seq::<char>::empty(),
    ensures
        expand(s, f) == Seq::<char>::empty(),
    decreases s.len(),
{
    if s.len() > 0 {
        lemma_expand_dropped(s.drop_last(), f);
    }
}

/// Replacing in a text piece by piece gives the same as replacing in it whole.
pub proof fn lemma_replace_concat(a: Seq<char>, b: Seq<char>, from: char, to: Seq<char>)
    ensures
        replace_char(a + b, from, to) == replace_char(a, from, to) + replace_char(b, from, to),
{
    lemma_expand_concat(a, b, replacing(from, to));
}

/// A text without the character `from` is not changed by replacing it.
pub proof fn lemma_replace_absent(s: Seq<char>, from: char, to: Seq<char>)
    requires
        !s.contains(from),
    ensures
        replace_char(s, from, to) == s,
{
    lemma_expand_kept(s, replacing(from, to));
}

/// The replacements of attribute values, made on one character alone, give
/// what stands for that character.
proof fn lemma_attribute_replacements_single(c: char)
    ensures
        attribute_replacements(seq![c]) == escaped_attribute_char(c),
{
    reveal_strlit("&amp;");
    reveal_strlit("&quot;");
    reveal_strlit("&lt;");
    reveal_strlit("&gt;");
    reveal_strlit("&#xA;");
    let s1 = replace_char(seq![c], '&', "&amp;"@);
    let s2 = replace_char(s1, '"', "&quot;"@);
    let s3 = replace_char(s2, '<', "&lt;"@);
    let s4 = replace_char(s3, '>', "&gt;"@);
    if c == '&' {
        lemma_expand_single(c, replacing('&', "&amp;"@));
    } else {
        lemma_replace_absent(seq![c], '&', "&amp;"@);
    }
    if c == '"' {
        lemma_expand_single(c, replacing('"', "&quot;"@));
    } else {
        lemma_replace_absent(s1, '"', "&quot;"@);
    }
    if c == '<' {
        lemma_expand_single(c, replacing('<', "&lt;"@));
    } else {
        lemma_replace_absent(s2, '<', "&lt;"@);
    }
    if c == '>' {
        lemma_expand_single(c, replacing('>', "&gt;"@));
    } else {
        lemma_replace_absent(s3, '>', "&gt;"@);
    }
    if c == '\n' {
        lemma_expand_single(c, replacing('\n', "&#xA;"@));
    } else {
        lemma_replace_absent(s4, '\n', "&#xA;"@);
    }
}

/// The replacements of element text, made on one character alone, give what
/// stands for that character.
proof fn lemma_data_replacements_single(c: char)
    ensures
        data_replacements(seq![c]) == escaped_data_char(c),
{
    reveal_strlit("&amp;");
    reveal_strlit("&lt;");
    reveal_strlit("&gt;");
    let s1 = replace_char(seq![c], '&', "&amp;"@);
    let s2 = replace_char(s1, '<', "&lt;"@);
    if c == '&' {
        lemma_expand_single(c, replacing('&', "&amp;"@));
    } else {
        lemma_replace_absent(seq![c], '&', "&amp;"@);
    }
    if c == '<' {
        lemma_expand_single(c, replacing('<', "&lt;"@));
    } else {
        lemma_replace_absent(s1, '<', "&lt;"@);
    }
    if c == '>' {
        lemma_expand_single(c, replacing('>', "&gt;"@));
    } else {
        lemma_replace_absent(s2, '>', "&gt;"@);
    }
}

/// The replacements of attribute values can be made piece by piece.
proof fn lemma_attribute_replacements_concat(a: Seq<char>, b: Seq<char>)
    ensures
        attribute_replacements(a + b) == attribute_replacements(a) + attribute_replacements(b),
{
    let a1 = replace_char(a, '&', "&amp;"@);
    let b1 = replace_char(b, '&', "&amp;"@);
    lemma_replace_concat(a, b, '&', "&amp;"@);
    let a2 = replace_char(a1, '"', "&quot;"@);
    let b2 = replace_char(b1, '"', "&quot;"@);
    lemma_replace_concat(a1, b1, '"', "&quot;"@);
    let a3 = replace_char(a2, '<', "&lt;"@);
    let b3 = replace_char(b2, '<', "&lt;"@);
    lemma_replace_concat(a2, b2, '<', "&lt;"@);
    let a4 = replace_char(a3, '>', "&gt;"@);
    let b4 = replace_char(b3, '>', "&gt;"@);
    lemma_replace_concat(a3, b3, '>', "&gt;"@);
    lemma_replace_concat(a4, b4, '\n', "&#xA;"@);
}

/// The replacements of element text can be made piece by piece.
proof fn lemma_data_replacements_concat(a: Seq<char>, b: Seq<char>)
    ensures
        data_replacements(a + b) == data_replacements(a) + data_replacements(b),
{
    let a1 = replace_char(a, '&', "&amp;"@);
    let b1 = replace_char(b, '&', "&amp;"@);
    lemma_replace_concat(a, b, '&', "&amp;"@);
    let a2 = replace_char(a1, '<', "&lt;"@);
    let b2 = replace_char(b1, '<', "&lt;"@);
    lemma_replace_concat(a1, b1, '<', "&lt;"@);
    lemma_replace_concat(a2, b2, '>', "&gt;"@);
}

/// A word that stands in a text still stands there when more text follows.
proof fn lemma_occurs_in_front(text: Seq<char>, more: Seq<char>, at: int, word: Seq<char>)
    ensures
        occurs_at(text, at, word) ==> occurs_at(text + more, at, word),
{
    if occurs_at(text, at, word) {
        assert((text + more).subrange(at, at + word.len()) == text.subrange(at, at + word.len()));
    }
}

} // verus!
