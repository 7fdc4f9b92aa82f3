use adstxt::parser::parser::{
    char_at, comment, fields, parse, parse_adstxt, record, relation, row, variable, AdsTxt,
    Record, Relation, Row, Variable,
};

#[test]
fn test_parse_adstxt() {
    assert_eq!(
        parse_adstxt(
            "# Ads.txt file for example.com:
greenadexchange.com, 12345, DIRECT, d75815a79
blueadexchange.com, XF436, DIRECT
contact=adops@example.com
contact=http://example.com/contact-us
subdomain=divisionone.example.com"
        )
        .unwrap(),
        AdsTxt {
            records: vec![
                Record {
                    domain: "greenadexchange.com",
                    account_id: "12345",
                    relation: Relation::Direct,
                    authority_id: Some("d75815a79"),
                },
                Record {
                    domain: "blueadexchange.com",
                    account_id: "XF436",
                    relation: Relation::Direct,
                    authority_id: None,
                },
            ],
            variables: vec![
                ("contact", vec!["adops@example.com", "http://example.com/contact-us"]),
                ("subdomain", vec!["divisionone.example.com"]),
            ],
        },
    )
}

#[test]
fn test_parse() {
    assert!(parse("unknown\n\n").is_err());
    assert_eq!(parse("# comment").unwrap(), vec![Row::Comment("comment")]);
    assert_eq!(
        parse(
            "\n\nplaceholder.example.com, placeholder, DIRECT, placeholder\nplaceholder.example.com, placeholder, DIRECT, placeholder\n\n"
        )
        .unwrap(),
        vec![
            Row::Blank,
            Row::Blank,
            Row::Record(Record {
                domain: "placeholder.example.com",
                account_id: "placeholder",
                relation: Relation::Direct,
                authority_id: Some("placeholder"),
            }),
            Row::Record(Record {
                domain: "placeholder.example.com",
                account_id: "placeholder",
                relation: Relation::Direct,
                authority_id: Some("placeholder"),
            }),
            Row::Blank,
        ]
    );
}

#[test]
fn test_row() {
    assert_eq!(row(""), Row::Blank);
    assert_eq!(row("# comment"), Row::Comment("comment"));
    assert_eq!(
        row("f1,f2,DIRECT"),
        Row::Record(Record {
            domain: "f1",
            account_id: "f2",
            relation: Relation::Direct,
            authority_id: None,
        })
    );
    assert_eq!(row("name=value"), Row::Variable(Variable { name: "name", value: "value" }));
    assert_eq!(row("unknown"), Row::Unknown("unknown"));
}

#[test]
fn test_comment() {
    assert_eq!(comment("# a"), Some("a"));
    assert_eq!(comment("#a"), Some("a"));
    assert_eq!(comment(""), None);
}

#[test]
fn test_record() {
    assert_eq!(
        record("example.com,12345,DIRECT").unwrap(),
        Some(Record {
            domain: "example.com",
            account_id: "12345",
            relation: Relation::Direct,
            authority_id: None,
        }),
    );
    assert_eq!(
        record("example.com,12345,DIRECT  ").unwrap(),
        Some(Record {
            domain: "example.com",
            account_id: "12345",
            relation: Relation::Direct,
            authority_id: None,
        }),
    );
    assert_eq!(
        record("example.com , 12345 , RESELLER , 5jyxf8k54").unwrap(),
        Some(Record {
            domain: "example.com",
            account_id: "12345",
            relation: Relation::Reseller,
            authority_id: Some("5jyxf8k54"),
        }),
    );
    assert_eq!(
        record("example.com,12345,RESELLER;extension data").unwrap(),
        Some(Record {
            domain: "example.com",
            account_id: "12345",
            relation: Relation::Reseller,
            authority_id: None,
        }),
    );
    assert_eq!(
        record("example.com , 12345 , RESELLER , 5jyxf8k54 ; extention data").unwrap(),
        Some(Record {
            domain: "example.com",
            account_id: "12345",
            relation: Relation::Reseller,
            authority_id: Some("5jyxf8k54"),
        }),
    );
}

#[test]
fn test_fields() {
    assert_eq!(fields("f1,f2,f3"), Some(("f1", "f2", "f3", None)));
    assert_eq!(fields("f1,f2,f3;ext-data"), Some(("f1", "f2", "f3", None)));
    assert_eq!(fields("f1,f2,f3,f4"), Some(("f1", "f2", "f3", Some("f4"))));
    assert_eq!(fields("f1,f2,f3,f4;ext-data"), Some(("f1", "f2", "f3", Some("f4"))));
}

#[test]
fn test_relation() {
    assert_eq!(relation("DIRECT").unwrap(), Relation::Direct);
    assert_eq!(relation("RESELLER").unwrap(), Relation::Reseller);
    assert!(relation("Relation").is_err());
}

#[test]
fn test_variable() {
    assert_eq!(variable("# abc"), None);
    assert_eq!(variable("f1,f2,f3"), None);
    assert_eq!(variable("=abc"), None);
    assert_eq!(variable("a=b"), Some(Variable { name: "a", value: "b" }));
}

#[test]
fn test_char_at() {
    assert_eq!(char_at('a', "12345"), None);
    assert_eq!(char_at('1', "12345"), Some(0));
    assert_eq!(char_at('3', "12345"), Some(2));
    assert_eq!(char_at('5', "12345"), Some(4));
}

#[test]
fn parse_rejects_text_without_data() {
    assert!(parse("").is_err());
    match parse_adstxt("unknown") {
        Err(e) => assert_eq!(e.0, "all lines are unknown or blank"),
        Ok(_) => panic!("a text with no rows of data must be rejected"),
    }
}

#[test]
fn relation_error_names_the_field() {
    match relation("direct") {
        Err(e) => assert_eq!(e.0, "field #3 must be `DIRECT` or `RESELLER`"),
        Ok(_) => panic!("a lower-case relation must be rejected"),
    }
}
