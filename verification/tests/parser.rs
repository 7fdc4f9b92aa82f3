use adstxt::parser::{
    parse_comment, parse_record, parse_record_tail, parse_relation, parse_variable, AdsTxt,
    Comment, Extension, LineData, Record, Relation, Variable,
};

#[test]
fn test_adstxt_parse() {
    assert_eq!(
        AdsTxt::parse(
            "# Ads.txt file for example.com:
greenadexchange.com, 12345, DIRECT, d75815a79
blueadexchange.com, XF436, DIRECT
contact=adops@example.com
contact=http://example.com/contact-us
subdomain=divisionone.example.com"
        ),
        AdsTxt {
            records: vec![
                (
                    Record {
                        domain: "greenadexchange.com",
                        account_id: "12345",
                        relation: Relation::Direct,
                        authority_id: Some("d75815a79"),
                    },
                    None
                ),
                (
                    Record {
                        domain: "blueadexchange.com",
                        account_id: "XF436",
                        relation: Relation::Direct,
                        authority_id: None,
                    },
                    None
                ),
            ],
            variables: vec![
                (Variable { name: "contact", value: "adops@example.com" }, None,),
                (Variable { name: "contact", value: "http://example.com/contact-us" }, None,),
                (Variable { name: "subdomain", value: "divisionone.example.com" }, None,),
            ],
        },
    );
}

#[test]
fn test_line_data_parse() {
    assert_eq!(LineData::parse(""), LineData::Empty);
    assert_eq!(LineData::parse("# comment"), LineData::Comment(Comment("# comment")));
    assert_eq!(
        LineData::parse("f1,f2,DIRECT"),
        LineData::Record {
            record: Record {
                domain: "f1",
                account_id: "f2",
                relation: Relation::Direct,
                authority_id: None
            },
            extension: None,
            comment: None
        }
    );
    assert_eq!(
        LineData::parse("name=value"),
        LineData::Variable {
            variable: Variable { name: "name", value: "value" },
            extension: None,
            comment: None
        }
    );
    assert_eq!(LineData::parse("unknown"), LineData::Unknown("unknown"));
}

#[test]
fn test_parse_comment() {
    assert_eq!(parse_comment("# this is comment."), Some(Comment("# this is comment.")));
}

#[test]
fn test_parse_record_tail() {
    assert_eq!(parse_record_tail("hoge  "), None);
    assert_eq!(parse_record_tail("  "), None);
    assert_eq!(parse_record_tail(";"), Some((Some(Extension("")), None)));
    assert_eq!(parse_record_tail("  ; ext-data  "), Some((Some(Extension("ext-data")), None)));
    assert_eq!(parse_record_tail("fuga ; ext-data"), Some((Some(Extension("ext-data")), None)));
    assert_eq!(
        parse_record_tail("  ; ext-data  # comment  "),
        Some((Some(Extension("ext-data")), Some(Comment("# comment"))))
    );
    assert_eq!(parse_record_tail("#"), Some((None, Some(Comment("#")))));
    assert_eq!(parse_record_tail("# comment  "), Some((None, Some(Comment("# comment")))));
}

#[test]
fn test_parse_record() {
    assert_eq!(
        parse_record("f1, f2, f3"),
        Some((
            Record {
                domain: "f1",
                account_id: "f2",
                relation: Relation::Unknown("f3"),
                authority_id: None
            },
            None,
            None
        ))
    );
    assert_eq!(
        parse_record("f1, f2, f3 ; ext-data"),
        Some((
            Record {
                domain: "f1",
                account_id: "f2",
                relation: Relation::Unknown("f3"),
                authority_id: None
            },
            Some(Extension("ext-data")),
            None
        ))
    );
    assert_eq!(
        parse_record("f1, f2, f3 ; ext-data # comment  "),
        Some((
            Record {
                domain: "f1",
                account_id: "f2",
                relation: Relation::Unknown("f3"),
                authority_id: None
            },
            Some(Extension("ext-data")),
            Some(Comment("# comment"))
        ))
    );
    assert_eq!(
        parse_record("f1, f2, f3 # comment"),
        Some((
            Record {
                domain: "f1",
                account_id: "f2",
                relation: Relation::Unknown("f3"),
                authority_id: None
            },
            None,
            Some(Comment("# comment"))
        ))
    );
    assert_eq!(
        parse_record("f1, f2, f3, f4"),
        Some((
            Record {
                domain: "f1",
                account_id: "f2",
                relation: Relation::Unknown("f3"),
                authority_id: Some("f4")
            },
            None,
            None
        ))
    );
    assert_eq!(
        parse_record("f1, f2, f3, f4 ; ext-data"),
        Some((
            Record {
                domain: "f1",
                account_id: "f2",
                relation: Relation::Unknown("f3"),
                authority_id: Some("f4")
            },
            Some(Extension("ext-data")),
            None
        ))
    );
    assert_eq!(
        parse_record("f1, f2, f3, f4 ; ext-data # comment  "),
        Some((
            Record {
                domain: "f1",
                account_id: "f2",
                relation: Relation::Unknown("f3"),
                authority_id: Some("f4")
            },
            Some(Extension("ext-data")),
            Some(Comment("# comment"))
        ))
    );
    assert_eq!(
        parse_record("f1, f2, f3, f4 # comment"),
        Some((
            Record {
                domain: "f1",
                account_id: "f2",
                relation: Relation::Unknown("f3"),
                authority_id: Some("f4")
            },
            None,
            Some(Comment("# comment"))
        ))
    );
}

#[test]
fn test_parse_relation() {
    assert_eq!(parse_relation("DIRECT"), Relation::Direct);
    assert_eq!(parse_relation("RESELLER"), Relation::Reseller);
    assert_eq!(parse_relation("Relation"), Relation::Unknown("Relation"));
}

#[test]
fn test_parse_variable() {
    assert_eq!(parse_variable("# abc"), None);
    assert_eq!(parse_variable("f1,f2,f3"), None);
    assert_eq!(parse_variable("=abc"), Some((Variable { name: "", value: "abc" }, None, None)));
    assert_eq!(
        parse_variable(" name = value ; ext-data"),
        Some((Variable { name: "name", value: "value" }, Some(Extension("ext-data")), None))
    );
    assert_eq!(
        parse_variable(" name = value # comment"),
        Some((Variable { name: "name", value: "value" }, None, Some(Comment("# comment"))))
    );
    assert_eq!(
        parse_variable(" name = value ; ext-data # comment"),
        Some((
            Variable { name: "name", value: "value" },
            Some(Extension("ext-data")),
            Some(Comment("# comment"))
        ))
    );
}

#[test]
fn parse_empty_text() {
    assert_eq!(AdsTxt::parse(""), AdsTxt { records: vec![], variables: vec![] });
    assert_eq!(AdsTxt::parse_lines(""), vec![LineData::Empty]);
}

#[test]
fn extension_without_comment_keeps_whole_tail() {
    assert_eq!(
        LineData::parse("a.com, 1, DIRECT ; ext # note"),
        LineData::Record {
            record: Record {
                domain: "a.com",
                account_id: "1",
                relation: Relation::Direct,
                authority_id: None
            },
            extension: Some(Extension("ext")),
            comment: Some(Comment("# note"))
        }
    );
}
