//! The text of each piece of markup, as a function of what it is made from.
//!
//! Tag and attribute names stand in the markup as they are given; attribute
//! values and element text are escaped. An attribute list is a sequence of
//! pairs of a name and a value.

use vstd::prelude::*;
use crate::decimal::decimal;
use crate::escape::{escaped_attribute, escaped_data};

verus! {

/// A list of attributes: pairs of a name and a value, in the order in which
/// they are written.
pub type Attributes = Seq<(Seq<char>, Seq<char>)>;

/// The declaration that opens a document, with the line feed that ends it.
pub open spec fn declaration_markup() -> Seq<char> {
    "<?xml version=\"1.0\" encoding=\"UTF-8\" standalone=\"yes\"?>\n"@
}

/// One attribute: a space, the name, and the escaped value between quotes.
pub open spec fn attribute_markup(name: Seq<char>, value: Seq<char>) -> Seq<char> {
    " "@ + name + "=\""@ + escaped_attribute(value) + "\""@
}

/// The attributes of a tag, one after the other in the order of the list.
pub open spec fn attributes_markup(attributes: Attributes) -> Seq<char>
    decreases attributes.len(),
{
    if attributes.len() == 0 {
        Seq::empty()
    } else {
        attributes_markup(attributes.drop_last()) + attribute_markup(
            attributes.last().0,
            attributes.last().1,
        )
    }
}

/// `<tag a="v" ...>`
pub open spec fn start_tag_markup(tag: Seq<char>, attributes: Attributes) -> Seq<char> {
    "<"@ + tag + attributes_markup(attributes) + ">"@
}

/// `</tag>`
pub open spec fn end_tag_markup(tag: Seq<char>) -> Seq<char> {
    "</"@ + tag + ">"@
}

/// `<tag a="v" .../>`
pub open spec fn empty_tag_markup(tag: Seq<char>, attributes: Attributes) -> Seq<char> {
    "<"@ + tag + attributes_markup(attributes) + "/>"@
}

/// A start tag, the escaped text, and the end tag.
pub open spec fn data_element_markup(
    tag: Seq<char>,
    data: Seq<char>,
    attributes: Attributes,
) -> Seq<char> {
    start_tag_markup(tag, attributes) + escaped_data(data) + end_tag_markup(tag)
}

/// A cell whose value is marked as an index into the table of shared
/// strings: `<c a="v" ... t="s"><v>value</v></c>`.
pub open spec fn cell_markup(value: Seq<char>, attributes: Attributes) -> Seq<char> {
    "<c"@ + attributes_markup(attributes) + " t=\"s\"><v>"@ + value + "</v></c>"@
}

/// A cell that refers to the shared string number `index`.
pub open spec fn string_element_markup(index: u32, attributes: Attributes) -> Seq<char> {
    cell_markup(decimal(index as nat), attributes)
}

/// A cell with a formula and its result:
/// `<c a="v" ...><f>formula</f><v>result</v></c>`, the formula escaped.
pub open spec fn formula_element_markup(
    formula: Seq<char>,
    result: Seq<char>,
    attributes: Attributes,
) -> Seq<char> {
    "<c"@ + attributes_markup(attributes) + "><f>"@ + escaped_data(formula) + "</f><v>"@ + result
        + "</v></c>"@
}

/// An entry of the table of shared strings: `<si><t a="v" ...>text</t></si>`,
/// the text escaped.
pub open spec fn si_element_markup(string: Seq<char>, attributes: Attributes) -> Seq<char> {
    "<si><t"@ + attributes_markup(attributes) + ">"@ + escaped_data(string) + "</t></si>"@
}

/// An entry of the table of shared strings whose content is markup already:
/// `<si>content</si>`, the content as it is.
pub open spec fn rich_si_element_markup(string: Seq<char>) -> Seq<char> {
    "<si>"@ + string + "</si>"@
}

/// The markup of two attribute lists put together is the markup of the
/// first followed by that of the second.
pub proof fn lemma_attributes_markup_concat(a: Attributes, b: Attributes)
    ensures
        attributes_markup(a + b) == attributes_markup(a) + attributes_markup(b),
    decreases b.len(),
{
    if b.len() == 0 {
        assert(a + b == a);
    } else {
        assert((a + b).drop_last() == a + b.drop_last());
        lemma_attributes_markup_concat(a, b.drop_last());
    }
}

/// Attributes are written in the order of the list and none is left out or
/// merged with another, whatever their names: the attribute at position `i`
/// stands between the markup of those before it and of those after it.
pub proof fn lemma_attribute_order_is_kept(attributes: Attributes, i: int)
    requires
        0 <= i < attributes.len(),
    ensures
        attributes_markup(attributes) == attributes_markup(attributes.take(i)) + attribute_markup(
            attributes[i].0,
            attributes[i].1,
        ) + attributes_markup(attributes.skip(i + 1)),
{
    let one = seq![attributes[i]];
    assert(attributes == attributes.take(i) + one + attributes.skip(i + 1));
    lemma_attributes_markup_concat(attributes.take(i) + one, attributes.skip(i + 1));
    lemma_attributes_markup_concat(attributes.take(i), one);
    assert(attributes_markup(one) == attribute_markup(attributes[i].0, attributes[i].1)) by {
        assert(attributes_markup(one.drop_last()) == Seq::<char>::empty());
    }
}

/// Only the declaration ends its line. It ends with a line feed; every other
/// piece of markup ends with the `>` of its last tag, so that pieces written
/// one after the other stand side by side.
pub proof fn lemma_markup_ends(
    tag: Seq<char>,
    text: Seq<char>,
    value: Seq<char>,
    index: u32,
    attributes: Attributes,
)
    ensures
        declaration_markup().last() == '\n',
        start_tag_markup(tag, attributes).last() == '>',
        end_tag_markup(tag).last() == '>',
        empty_tag_markup(tag, attributes).last() == '>',
        data_element_markup(tag, text, attributes).last() == '>',
        cell_markup(value, attributes).last() == '>',
        string_element_markup(index, attributes).last() == '>',
        formula_element_markup(text, value, attributes).last() == '>',
        si_element_markup(text, attributes).last() == '>',
        rich_si_element_markup(text).last() == '>',
{
    reveal_strlit("<?xml version=\"1.0\" encoding=\"UTF-8\" standalone=\"yes\"?>\n");
    reveal_strlit(">");
    reveal_strlit("/>");
    reveal_strlit("</v></c>");
    reveal_strlit("</t></si>");
    reveal_strlit("</si>");
}

} // verus!
