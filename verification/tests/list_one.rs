use iso4217::deserialize_list_one;
use iso4217::error::DeError;
use iso4217::json::{entry_to_json, list_one_to_json};
use iso4217::types::{CcyNtry, ListOne};
use iso4217::validate::{parse_i32, validate_is_fund, validate_minor_units};
use iso4217::event::XmlEvent;
use iso4217::mapper::parse_events;

const SAMPLE: &str = "<?xml version=\"1.0\" encoding=\"UTF-8\"?>\
<ISO_4217 Pblshd=\"2024-01-01\">\
<CcyTbl>\
<CcyNtry>\
<CtryNm>TESTLAND</CtryNm>\
<CcyNm>Test Dollar</CcyNm>\
<Ccy>TDD</Ccy>\
<CcyNbr>999</CcyNbr>\
<CcyMnrUnts>2</CcyMnrUnts>\
</CcyNtry>\
</CcyTbl>\
</ISO_4217>";

#[test]
fn minor_unit_sentinel_is_no_value() {
    assert!(matches!(validate_minor_units("N.A."), Ok(None)));
}

#[test]
fn minor_unit_number_is_value() {
    assert!(matches!(validate_minor_units("2"), Ok(Some(2))));
    assert!(matches!(validate_minor_units("-1"), Ok(Some(-1))));
    assert!(matches!(validate_minor_units("0"), Ok(Some(0))));
}

#[test]
fn minor_unit_garbage_is_value_error() {
    match validate_minor_units("abc") {
        Err(DeError::BadMinorUnit(s)) => assert_eq!(s, "abc"),
        _ => panic!("expected a value error"),
    }
    assert!(matches!(validate_minor_units(""), Err(DeError::BadMinorUnit(_))));
    assert!(matches!(validate_minor_units("2.5"), Err(DeError::BadMinorUnit(_))));
}

#[test]
fn fund_flag_absent_is_false() {
    assert!(matches!(validate_is_fund(None), Ok(false)));
}

#[test]
fn fund_flag_true_is_true() {
    assert!(matches!(validate_is_fund(Some("true")), Ok(true)));
    assert!(matches!(validate_is_fund(Some("1")), Ok(true)));
}

#[test]
fn fund_flag_false_is_value_error() {
    assert!(matches!(validate_is_fund(Some("false")), Err(DeError::FundFlagFalse)));
    assert!(matches!(validate_is_fund(Some("0")), Err(DeError::FundFlagFalse)));
}

#[test]
fn fund_flag_other_text_is_value_error() {
    match validate_is_fund(Some("yes")) {
        Err(DeError::BadFundFlag(s)) => assert_eq!(s, "yes"),
        _ => panic!("expected a value error"),
    }
}

#[test]
fn parse_i32_edges() {
    assert_eq!(parse_i32("-2147483648"), Some(i32::MIN));
    assert_eq!(parse_i32("2147483647"), Some(i32::MAX));
    assert_eq!(parse_i32("2147483648"), None);
    assert_eq!(parse_i32("-2147483649"), None);
    assert_eq!(parse_i32("+5"), Some(5));
    assert_eq!(parse_i32("007"), Some(7));
    assert_eq!(parse_i32(""), None);
    assert_eq!(parse_i32("-"), None);
    assert_eq!(parse_i32("+"), None);
    assert_eq!(parse_i32("1 "), None);
    assert_eq!(parse_i32("99999999999999999999"), None);
}

#[test]
fn end_to_end_one_entry() {
    let doc = deserialize_list_one(SAMPLE).expect("the sample document parses");
    assert_eq!(doc.pblshd(), "2024-01-01");
    assert_eq!(doc.entries().len(), 1);
    let e = &doc.entries()[0];
    assert_eq!(e.ctry_nm(), "TESTLAND");
    assert_eq!(e.ccy_nm(), "Test Dollar");
    assert!(!e.is_fund());
    assert_eq!(e.ccy(), Some("TDD"));
    assert_eq!(e.ccy_nbr(), Some("999"));
    assert_eq!(e.ccy_mnr_unts(), Some(2));
    assert_eq!(
        entry_to_json(e),
        "{\"CtryNm\":\"TESTLAND\",\"CcyNm\":\"Test Dollar\",\"IsFund\":false,\
\"Ccy\":\"TDD\",\"CcyNbr\":\"999\",\"CcyMnrUnts\":2}",
    );
}

#[test]
fn parsing_is_deterministic() {
    let a = deserialize_list_one(SAMPLE).expect("parses");
    let b = deserialize_list_one(SAMPLE).expect("parses");
    assert_eq!(a, b);
}

#[test]
fn document_json_is_an_array() {
    let doc = deserialize_list_one(SAMPLE).expect("the sample document parses");
    let json = list_one_to_json(&doc);
    assert!(json.starts_with('['));
    assert!(json.ends_with(']'));
    assert_eq!(json, format!("[{}]", entry_to_json(&doc.entries()[0])));
}

#[test]
fn entry_count_and_order_follow_the_source() {
    let xml = "<ISO_4217 Pblshd=\"d\"><CcyTbl>\
        <CcyNtry><CtryNm>A</CtryNm><CcyNm>a</CcyNm></CcyNtry>\
        <CcyNtry><CtryNm>B</CtryNm><CcyNm>b</CcyNm></CcyNtry>\
        <CcyNtry><CtryNm>C</CtryNm><CcyNm>c</CcyNm></CcyNtry>\
        </CcyTbl></ISO_4217>";
    let doc = deserialize_list_one(xml).expect("parses");
    assert_eq!(doc.entries().len(), 3);
    let names: Vec<&str> = doc.entries().iter().map(|e| e.ctry_nm()).collect();
    assert_eq!(names, vec!["A", "B", "C"]);
}

#[test]
fn empty_table_has_no_entries() {
    let xml = "<ISO_4217 Pblshd=\"d\"><CcyTbl></CcyTbl></ISO_4217>";
    let doc = deserialize_list_one(xml).expect("parses");
    assert_eq!(doc.entries().len(), 0);
}

#[test]
fn missing_optional_children_are_no_value() {
    let xml = "<ISO_4217 Pblshd=\"d\"><CcyTbl>\
        <CcyNtry><CtryNm>X</CtryNm><CcyNm>x</CcyNm></CcyNtry>\
        </CcyTbl></ISO_4217>";
    let doc = deserialize_list_one(xml).expect("parses");
    let e = &doc.entries()[0];
    assert_eq!(e.ccy(), None);
    assert_eq!(e.ccy_nbr(), None);
    assert_eq!(e.ccy_mnr_unts(), None);
    assert!(!e.is_fund());
}

#[test]
fn fund_flag_attribute_true_parses() {
    let xml = "<ISO_4217 Pblshd=\"d\"><CcyTbl>\
        <CcyNtry><CtryNm>X</CtryNm><CcyNm IsFund=\"true\">x</CcyNm></CcyNtry>\
        </CcyTbl></ISO_4217>";
    let doc = deserialize_list_one(xml).expect("parses");
    assert!(doc.entries()[0].is_fund());
}

#[test]
fn fund_flag_numeric_boolean_forms_parse() {
    let xml = "<ISO_4217 Pblshd=\"d\"><CcyTbl>\
        <CcyNtry><CtryNm>X</CtryNm><CcyNm IsFund=\"1\">x</CcyNm></CcyNtry>\
        </CcyTbl></ISO_4217>";
    let doc = deserialize_list_one(xml).expect("parses");
    assert!(doc.entries()[0].is_fund());
    let xml0 = "<ISO_4217 Pblshd=\"d\"><CcyTbl>\
        <CcyNtry><CtryNm>X</CtryNm><CcyNm IsFund=\"0\">x</CcyNm></CcyNtry>\
        </CcyTbl></ISO_4217>";
    assert!(matches!(deserialize_list_one(xml0), Err(DeError::FundFlagFalse)));
}

#[test]
fn fund_flag_attribute_false_fails() {
    let xml = "<ISO_4217 Pblshd=\"d\"><CcyTbl>\
        <CcyNtry><CtryNm>X</CtryNm><CcyNm IsFund=\"false\">x</CcyNm></CcyNtry>\
        </CcyTbl></ISO_4217>";
    assert!(matches!(deserialize_list_one(xml), Err(DeError::FundFlagFalse)));
}

#[test]
fn bad_minor_unit_in_document_fails() {
    let xml = "<ISO_4217 Pblshd=\"d\"><CcyTbl>\
        <CcyNtry><CtryNm>X</CtryNm><CcyNm>x</CcyNm><CcyMnrUnts>two</CcyMnrUnts></CcyNtry>\
        </CcyTbl></ISO_4217>";
    match deserialize_list_one(xml) {
        Err(DeError::BadMinorUnit(s)) => assert_eq!(s, "two"),
        _ => panic!("expected a value error"),
    }
}

#[test]
fn sentinel_minor_unit_in_document_is_no_value() {
    let xml = "<ISO_4217 Pblshd=\"d\"><CcyTbl>\
        <CcyNtry><CtryNm>X</CtryNm><CcyNm>x</CcyNm><CcyMnrUnts>N.A.</CcyMnrUnts></CcyNtry>\
        </CcyTbl></ISO_4217>";
    let doc = deserialize_list_one(xml).expect("parses");
    assert_eq!(doc.entries()[0].ccy_mnr_unts(), None);
}

#[test]
fn malformed_xml_is_a_structural_error() {
    assert!(deserialize_list_one("<ISO_4217 Pblshd=\"d\"><CcyTbl>").is_err());
    assert!(deserialize_list_one("<a><b></a>").is_err());
    assert!(deserialize_list_one("").is_err());
    assert!(deserialize_list_one("not xml at all").is_err());
}

#[test]
fn missing_publication_date_fails() {
    let xml = "<ISO_4217><CcyTbl></CcyTbl></ISO_4217>";
    match deserialize_list_one(xml) {
        Err(DeError::MissingField(s)) => assert_eq!(s, "Pblshd"),
        _ => panic!("expected a missing field"),
    }
}

#[test]
fn missing_table_fails() {
    let xml = "<ISO_4217 Pblshd=\"d\"></ISO_4217>";
    match deserialize_list_one(xml) {
        Err(DeError::MissingField(s)) => assert_eq!(s, "CcyTbl"),
        _ => panic!("expected a missing field"),
    }
}

#[test]
fn missing_required_entry_children_fail() {
    let xml = "<ISO_4217 Pblshd=\"d\"><CcyTbl>\
        <CcyNtry><CcyNm>x</CcyNm></CcyNtry>\
        </CcyTbl></ISO_4217>";
    match deserialize_list_one(xml) {
        Err(DeError::MissingField(s)) => assert_eq!(s, "CtryNm"),
        _ => panic!("expected a missing field"),
    }
    let xml2 = "<ISO_4217 Pblshd=\"d\"><CcyTbl>\
        <CcyNtry><CtryNm>X</CtryNm></CcyNtry>\
        </CcyTbl></ISO_4217>";
    match deserialize_list_one(xml2) {
        Err(DeError::MissingField(s)) => assert_eq!(s, "CcyNm"),
        _ => panic!("expected a missing field"),
    }
}

#[test]
fn duplicate_field_fails() {
    let xml = "<ISO_4217 Pblshd=\"d\"><CcyTbl>\
        <CcyNtry><CtryNm>X</CtryNm><CtryNm>Y</CtryNm><CcyNm>x</CcyNm></CcyNtry>\
        </CcyTbl></ISO_4217>";
    match deserialize_list_one(xml) {
        Err(DeError::DuplicateField(s)) => assert_eq!(s, "CtryNm"),
        _ => panic!("expected a duplicate field"),
    }
}

#[test]
fn truncated_document_fails() {
    let xml = "<ISO_4217 Pblshd=\"d\">";
    assert!(matches!(deserialize_list_one(xml), Err(DeError::UnexpectedEof)));
}

#[test]
fn unknown_elements_and_attributes_are_ignored() {
    let xml = "<ISO_4217 Pblshd=\"d\" Extra=\"1\"><Junk><Deep>t</Deep></Junk><CcyTbl>\
        <Noise/>\
        <CcyNtry Extra=\"2\"><CtryNm>X</CtryNm><CcyNm>x</CcyNm>\
        <Spare><Inner>i</Inner></Spare></CcyNtry>\
        </CcyTbl></ISO_4217>";
    let doc = deserialize_list_one(xml).expect("parses");
    assert_eq!(doc.entries().len(), 1);
    assert_eq!(doc.entries()[0].ctry_nm(), "X");
    assert_eq!(doc.entries()[0].ccy_nm(), "x");
}

#[test]
fn entities_in_text_are_unescaped() {
    let xml = "<ISO_4217 Pblshd=\"d\"><CcyTbl>\
        <CcyNtry><CtryNm>A &amp; B</CtryNm><CcyNm>&lt;x&gt;</CcyNm></CcyNtry>\
        </CcyTbl></ISO_4217>";
    let doc = deserialize_list_one(xml).expect("parses");
    assert_eq!(doc.entries()[0].ctry_nm(), "A & B");
    assert_eq!(doc.entries()[0].ccy_nm(), "<x>");
}

#[test]
fn cdata_counts_as_text() {
    let xml = "<ISO_4217 Pblshd=\"d\"><CcyTbl>\
        <CcyNtry><CtryNm><![CDATA[X&Y]]></CtryNm><CcyNm>x</CcyNm></CcyNtry>\
        </CcyTbl></ISO_4217>";
    let doc = deserialize_list_one(xml).expect("parses");
    assert_eq!(doc.entries()[0].ctry_nm(), "X&Y");
}

#[test]
fn empty_elements_are_empty_text() {
    let xml = "<ISO_4217 Pblshd=\"d\"><CcyTbl>\
        <CcyNtry><CtryNm>X</CtryNm><CcyNm>x</CcyNm><Ccy/></CcyNtry>\
        </CcyTbl></ISO_4217>";
    let doc = deserialize_list_one(xml).expect("parses");
    assert_eq!(doc.entries()[0].ccy(), Some(""));
}

#[test]
fn json_renders_absent_fields_as_null() {
    let e = CcyNtry::new("X".to_string(), "x".to_string(), true, None, None, None);
    assert_eq!(
        entry_to_json(&e),
        "{\"CtryNm\":\"X\",\"CcyNm\":\"x\",\"IsFund\":true,\"Ccy\":null,\"CcyNbr\":null,\"CcyMnrUnts\":null}",
    );
}

#[test]
fn json_escapes_special_characters() {
    let e = CcyNtry::new(
        "A \"B\"\\".to_string(),
        "line\nbreak".to_string(),
        false,
        None,
        None,
        Some(-3),
    );
    assert_eq!(
        entry_to_json(&e),
        "{\"CtryNm\":\"A \\\"B\\\"\\\\\",\"CcyNm\":\"line\\nbreak\",\"IsFund\":false,\
\"Ccy\":null,\"CcyNbr\":null,\"CcyMnrUnts\":-3}",
    );
}

#[test]
fn error_messages_name_the_offence() {
    assert_eq!(
        DeError::BadMinorUnit("abc".to_string()).message(),
        "invalid minor unit (expected a number or \"N.A.\"): abc",
    );
    assert_eq!(
        DeError::FundFlagFalse.message(),
        "invalid fund flag (expected `true`): false",
    );
    assert_eq!(DeError::MissingField("Pblshd".to_string()).message(), "missing field: Pblshd");
}

fn ev_start(name: &str) -> XmlEvent {
    XmlEvent::Start(name.to_string(), vec![])
}

fn ev_end(name: &str) -> XmlEvent {
    XmlEvent::End(name.to_string())
}

fn ev_text(t: &str) -> XmlEvent {
    XmlEvent::Text(t.to_string())
}

#[test]
fn mapper_folds_a_hand_built_token_stream() {
    let events = vec![
        XmlEvent::Other,
        XmlEvent::Start(
            "ISO_4217".to_string(),
            vec![("Pblshd".to_string(), "2024-01-01".to_string())],
        ),
        ev_start("CcyTbl"),
        ev_start("CcyNtry"),
        ev_start("CtryNm"),
        ev_text("TEST"),
        ev_text("LAND"),
        ev_end("CtryNm"),
        ev_start("CcyNm"),
        ev_text("Test Dollar"),
        ev_end("CcyNm"),
        ev_end("CcyNtry"),
        ev_end("CcyTbl"),
        ev_end("ISO_4217"),
        XmlEvent::Eof,
    ];
    let doc = parse_events(&events).expect("the stream parses");
    assert_eq!(doc.pblshd(), "2024-01-01");
    assert_eq!(doc.entries().len(), 1);
    assert_eq!(doc.entries()[0].ctry_nm(), "TESTLAND");
    assert_eq!(doc.entries()[0].ccy_nm(), "Test Dollar");
}

#[test]
fn mapper_rejects_a_stream_that_stops_short() {
    let events = vec![
        XmlEvent::Start(
            "ISO_4217".to_string(),
            vec![("Pblshd".to_string(), "d".to_string())],
        ),
    ];
    assert!(parse_events(&events).is_err());
}

#[test]
fn document_json_joins_entries_with_commas() {
    let a = CcyNtry::new("A".to_string(), "a".to_string(), false, None, None, None);
    let b = CcyNtry::new(
        "B".to_string(),
        "b".to_string(),
        true,
        Some("BBB".to_string()),
        Some("111".to_string()),
        Some(0),
    );
    let doc = ListOne::new("today".to_string(), vec![a, b]);
    assert_eq!(doc.pblshd(), "today");
    assert_eq!(
        list_one_to_json(&doc),
        "[{\"CtryNm\":\"A\",\"CcyNm\":\"a\",\"IsFund\":false,\
\"Ccy\":null,\"CcyNbr\":null,\"CcyMnrUnts\":null},\
{\"CtryNm\":\"B\",\"CcyNm\":\"b\",\"IsFund\":true,\
\"Ccy\":\"BBB\",\"CcyNbr\":\"111\",\"CcyMnrUnts\":0}]",
    );
}
