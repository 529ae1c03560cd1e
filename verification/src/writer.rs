//! The writer: one method for each piece of markup.

use vstd::prelude::*;
use vstd::utf8::encode_utf8;
use crate::decimal::append_decimal;
use crate::escape::{append_escaped_attribute, append_escaped_data};
use crate::markup::{
    attributes_markup, cell_markup, data_element_markup, declaration_markup, empty_tag_markup,
    end_tag_markup, formula_element_markup, rich_si_element_markup, si_element_markup,
    start_tag_markup, string_element_markup,
};

verus! {

/// Writes markup to a sink, piece by piece. The sink is a string that the
/// writer holds; each method appends to it and touches nothing that was
/// written before. The writer keeps no other state: it does not know which
/// tags are open.
pub struct XMLWriter {
    sink: String,
}

impl View for XMLWriter {
    type V = Seq<char>;

    /// All that the sink holds.
    closed spec fn view(&self) -> Seq<char> {
        self.sink@
    }
}

impl XMLWriter {
    /// A writer that appends to `sink`. What the sink holds already is kept.
    pub fn new(sink: String) -> (writer: XMLWriter)
        ensures
            writer@ == sink@,
    {
        XMLWriter { sink }
    }

    /// All that the sink holds.
    pub fn as_str(&self) -> (markup: &str)
        ensures
            markup@ == self@,
    {
        self.sink.as_str()
    }

    /// The bytes that the sink holds: its text in UTF-8.
    pub fn as_bytes(&self) -> (bytes: &[u8])
        ensures
            bytes@ == encode_utf8(self@),
    {
        self.sink.as_str().as_bytes()
    }

    /// Gives the sink back.
    pub fn into_string(self) -> (sink: String)
        ensures
            sink@ == self@,
    {
        self.sink
    }

    /// Writes the declaration that opens a document, and a line feed.
    pub fn xml_declaration(&mut self)
        ensures
            final(self)@ == old(self)@ + declaration_markup(),
    {
        self.sink.append("<?xml version=\"1.0\" encoding=\"UTF-8\" standalone=\"yes\"?>\n");
    }

    /// Writes a start tag with its attributes.
    pub fn xml_start_tag(&mut self, tag: &str, attributes: &Vec<(&str, &str)>)
        ensures
            final(self)@ == old(self)@ + start_tag_markup(tag@, attributes.deep_view()),
    {
        self.sink.append("<");
        self.sink.append(tag);
        append_attributes(&mut self.sink, attributes);
        self.sink.append(">");
    }

    /// Writes an end tag.
    pub fn xml_end_tag(&mut self, tag: &str)
        ensures
            final(self)@ == old(self)@ + end_tag_markup(tag@),
    {
        self.sink.append("</");
        self.sink.append(tag);
        self.sink.append(">");
    }

    /// Writes the tag of an element without content, with its attributes.
    pub fn xml_empty_tag(&mut self, tag: &str, attributes: &Vec<(&str, &str)>)
        ensures
            final(self)@ == old(self)@ + empty_tag_markup(tag@, attributes.deep_view()),
    {
        self.sink.append("<");
        self.sink.append(tag);
        append_attributes(&mut self.sink, attributes);
        self.sink.append("/>");
    }

    /// Writes an element that holds text: the start tag with its attributes,
    /// the escaped text, and the end tag.
    pub fn xml_data_element(&mut self, tag: &str, data: &str, attributes: &Vec<(&str, &str)>)
        ensures
            final(self)@ == old(self)@ + data_element_markup(tag@, data@, attributes.deep_view()),
    {
        self.xml_start_tag(tag, attributes);
        append_escaped_data(&mut self.sink, data);
        self.xml_end_tag(tag);
    }

    /// Writes a cell that refers to the shared string number `index`.
    pub fn xml_string_element(&mut self, index: u32, attributes: &Vec<(&str, &str)>)
        ensures
            final(self)@ == old(self)@ + string_element_markup(index, attributes.deep_view()),
    {
        self.sink.append("<c");
        append_attributes(&mut self.sink, attributes);
        self.sink.append(" t=\"s\"><v>");
        append_decimal(&mut self.sink, index);
        self.sink.append("</v></c>");
    }

    /// Writes a cell that holds a number. `number` is the number in decimal
    /// notation; it is written as it is given. The cell carries the same
    /// type mark as a cell that refers to a shared string.
    pub fn xml_number_element(&mut self, number: &str, attributes: &Vec<(&str, &str)>)
        ensures
            final(self)@ == old(self)@ + cell_markup(number@, attributes.deep_view()),
    {
        self.sink.append("<c");
        append_attributes(&mut self.sink, attributes);
        self.sink.append(" t=\"s\"><v>");
        self.sink.append(number);
        self.sink.append("</v></c>");
    }

    /// Writes a cell that holds a formula and its result. The formula is
    /// escaped; `result` is the result in decimal notation and is written as
    /// it is given. The cell carries no type mark.
    pub fn xml_formula_element(
        &mut self,
        formula: &str,
        result: &str,
        attributes: &Vec<(&str, &str)>,
    )
        ensures
            final(self)@ == old(self)@ + formula_element_markup(
                formula@,
                result@,
                attributes.deep_view(),
            ),
    {
        self.sink.append("<c");
        append_attributes(&mut self.sink, attributes);
        self.sink.append("><f>");
        append_escaped_data(&mut self.sink, formula);
        self.sink.append("</f><v>");
        self.sink.append(result);
        self.sink.append("</v></c>");
    }

    /// Writes an entry of the table of shared strings, its text escaped.
    pub fn xml_si_element(&mut self, string: &str, attributes: &Vec<(&str, &str)>)
        ensures
            final(self)@ == old(self)@ + si_element_markup(string@, attributes.deep_view()),
    {
        self.sink.append("<si><t");
        append_attributes(&mut self.sink, attributes);
        self.sink.append(">");
        append_escaped_data(&mut self.sink, string);
        self.sink.append("</t></si>");
    }

    /// Writes an entry of the table of shared strings whose content is
    /// markup already. The content is written as it is given.
    pub fn xml_rich_si_element(&mut self, string: &str)
        ensures
            final(self)@ == old(self)@ + rich_si_element_markup(string@),
    {
        self.sink.append("<si>");
        self.sink.append(string);
        self.sink.append("</si>");
    }
}

/// Appends the markup of an attribute list to `out`.
fn append_attributes(out: &mut String, attributes: &Vec<(&str, &str)>)
    ensures
        final(out)@ == old(out)@ + attributes_markup(attributes.deep_view()),
{
    let ghost list = attributes.deep_view();
    let mut i: usize = 0;
    while i < attributes.len()
        invariant
            i <= attributes.len(),
            list == attributes.deep_view(),
            out@ == old(out)@ + attributes_markup(list.take(i as int)),
        decreases attributes.len() - i,
    {
        let (name, value) = attributes[i];
        assert(list.take(i + 1).drop_last() == list.take(i as int));
        assert(list.take(i + 1).last() == (name@, value@));
        out.append(" ");
        out.append(name);
        out.append("=\"");
        append_escaped_attribute(out, value);
        out.append("\"");
        i += 1;
    }
    assert(list.take(i as int) == list);
}

} // verus!
