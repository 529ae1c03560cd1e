use excel_xmlwriter::XMLWriter;

#[test]
fn test_xml_declaration() {
    let expected = "<?xml version=\"1.0\" encoding=\"UTF-8\" standalone=\"yes\"?>\n";

    let mut writer = XMLWriter::new(String::new());

    writer.xml_declaration();

    let got = writer.into_string();
    assert_eq!(got, expected);
}

#[test]
fn test_xml_start_tag() {
    let expected = "<foo>";
    let attributes = vec![];

    let mut writer = XMLWriter::new(String::new());

    writer.xml_start_tag("foo", &attributes);

    let got = writer.into_string();
    assert_eq!(got, expected);
}

#[test]
fn test_xml_start_tag_with_attributes() {
    let expected = r#"<foo span="8" baz="7">"#;
    let attributes = vec![("span", "8"), ("baz", "7")];

    let mut writer = XMLWriter::new(String::new());

    writer.xml_start_tag("foo", &attributes);

    let got = writer.into_string();
    assert_eq!(got, expected);
}

#[test]
fn test_xml_end_tag() {
    let expected = "</foo>";

    let mut writer = XMLWriter::new(String::new());

    writer.xml_end_tag("foo");

    let got = writer.into_string();
    assert_eq!(got, expected);
}

#[test]
fn test_xml_empty_tag() {
    let expected = "<foo/>";
    let attributes = vec![];

    let mut writer = XMLWriter::new(String::new());

    writer.xml_empty_tag("foo", &attributes);

    let got = writer.into_string();
    assert_eq!(got, expected);
}

#[test]
fn test_xml_empty_tag_with_attributes() {
    let expected = r#"<foo span="8"/>"#;
    let attributes = vec![("span", "8")];

    let mut writer = XMLWriter::new(String::new());

    writer.xml_empty_tag("foo", &attributes);

    let got = writer.into_string();
    assert_eq!(got, expected);
}

#[test]
fn test_xml_data_element() {
    let expected = r#"<foo>bar</foo>"#;
    let attributes = vec![];

    let mut writer = XMLWriter::new(String::new());

    writer.xml_data_element("foo", "bar", &attributes);

    let got = writer.into_string();
    assert_eq!(got, expected);
}

#[test]
fn test_xml_data_element_with_attributes() {
    let expected = r#"<foo span="8">bar</foo>"#;
    let attributes = vec![("span", "8")];

    let mut writer = XMLWriter::new(String::new());

    writer.xml_data_element("foo", "bar", &attributes);

    let got = writer.into_string();
    assert_eq!(got, expected);
}

#[test]
fn test_xml_data_element_with_escapes() {
    let expected = r#"<foo span="8">&amp;&lt;&gt;"</foo>"#;
    let attributes = vec![("span", "8")];

    let mut writer = XMLWriter::new(String::new());

    writer.xml_data_element("foo", "&<>\"", &attributes);

    let got = writer.into_string();
    assert_eq!(got, expected);
}

#[test]
fn test_xml_string_element() {
    let expected = r#"<c span="8" t="s"><v>99</v></c>"#;
    let attributes = vec![("span", "8")];

    let mut writer = XMLWriter::new(String::new());

    writer.xml_string_element(99, &attributes);

    let got = writer.into_string();
    assert_eq!(got, expected);
}

#[test]
fn test_xml_number_element() {
    let expected = r#"<c span="8" t="s"><v>99</v></c>"#;
    let attributes = vec![("span", "8")];
    let number: f64 = 99.0;

    let mut writer = XMLWriter::new(String::new());

    writer.xml_number_element(&number.to_string(), &attributes);

    let got = writer.into_string();
    assert_eq!(got, expected);
}

#[test]
fn test_xml_formula_element() {
    let expected = r#"<c span="8"><f>1+2</f><v>3</v></c>"#;
    let attributes = vec![("span", "8")];
    let result: f64 = 3.0;

    let mut writer = XMLWriter::new(String::new());

    writer.xml_formula_element("1+2", &result.to_string(), &attributes);

    let got = writer.into_string();
    assert_eq!(got, expected);
}

#[test]
fn test_xml_si_element() {
    let expected = r#"<si><t span="8">foo</t></si>"#;
    let attributes = vec![("span", "8")];

    let mut writer = XMLWriter::new(String::new());

    writer.xml_si_element("foo", &attributes);

    let got = writer.into_string();
    assert_eq!(got, expected);
}

#[test]
fn test_xml_rich_si_element() {
    let expected = r#"<si>foo</si>"#;

    let mut writer = XMLWriter::new(String::new());

    writer.xml_rich_si_element("foo");

    let got = writer.into_string();
    assert_eq!(got, expected);
}
