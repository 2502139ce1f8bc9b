//! Model-level tests: what the assembled diagram holds, what the renderer
//! emits, the cardinality table, option conversion, merging and selection.

use erd::er::{
    card_by_name, default_attr_opts, default_entity_opts, default_header_opts, default_rel_opts,
    default_title_opts, merge_opts, option_by_name, options_to, parse, trim_quotes, Cardinality,
    Opt, Options, Selector,
};
use erd::errors::Error;

/// A directive-shaped line after an entity becomes an attribute of that
/// entity, carrying its option block.
#[test]
fn directive_after_entity_becomes_attribute() {
    let er = parse("[Baz]\n qux\n title { label: \"foo bar\" }").unwrap();
    assert_eq!(er.entities.len(), 1);
    let e = &er.entities[0];
    assert_eq!(e.name, "Baz");
    assert_eq!(e.attribs.len(), 2);
    assert_eq!(e.attribs[0].field, "qux");
    assert_eq!(e.attribs[1].field, "title");
    match e.attribs[1].options.get("label") {
        Some(Opt::Label(v)) => assert_eq!(v, "foo bar"),
        other => panic!("unexpected label option: {:?}", other),
    }
}

/// A directive-shaped line after a relationship with no preceding entity
/// is a hard error.
#[test]
fn directive_after_relationship_is_error() {
    let r = parse("Foo 1--1 Bar\n title { label: \"oops\" }");
    assert!(matches!(r, Err(Error::Syntax { .. })));
}

/// An option block must open on the same line as its construct, and
/// nothing but a comment or the line end may follow its closing brace.
#[test]
fn option_block_line_discipline() {
    assert!(parse("[Person]\n name\n { label: \"x\" }\n age").is_err());
    assert!(parse("[Person]\n name { label: \"x\"\n } age").is_err());
    assert!(parse("[Person]\n name { label: \"x\" } # fine").is_ok());
    assert!(parse("[Person]\n name { label: \"x\"\n }\n age").is_ok());
}

/// Option values take double quotes only: single quotes and bare values
/// are rejected.
#[test]
fn option_value_quoting() {
    assert!(parse("title { label: \"123\" }").is_ok());
    assert!(parse("title { label: '123' }").is_err());
    assert!(parse("title { label: 123 }").is_err());
}

/// A `#` inside a quoted value is part of the value, not a comment.
#[test]
fn pound_inside_quoted_value() {
    let er = parse("header { bgcolor: \"#663399\" }").unwrap();
    match er.global_opts.header.get("bgcolor") {
        Some(Opt::BgColor(v)) => assert_eq!(v, "#663399"),
        other => panic!("unexpected bgcolor option: {:?}", other),
    }
}

/// The cardinality table: the four symbols and nothing else.
#[test]
fn cardinality_table() {
    assert_eq!(card_by_name('?'), Some(Cardinality::ZeroOne));
    assert_eq!(card_by_name('1'), Some(Cardinality::One));
    assert_eq!(card_by_name('*'), Some(Cardinality::ZeroPlus));
    assert_eq!(card_by_name('+'), Some(Cardinality::OnePlus));
    assert_eq!(card_by_name('x'), None);
    assert_eq!(card_by_name('2'), None);
    assert_eq!(card_by_name('0'), None);
}

/// The display forms of the four cardinalities.
#[test]
fn cardinality_display_forms() {
    assert_eq!(Cardinality::ZeroOne.text(), "{0,1}");
    assert_eq!(Cardinality::One.text(), "1");
    assert_eq!(Cardinality::ZeroPlus.text(), "0..N");
    assert_eq!(Cardinality::OnePlus.text(), "1..N");
}

/// A symbol outside the cardinality table is rejected by the grammar.
#[test]
fn bad_cardinality_symbol_is_rejected() {
    assert!(parse("Foo 1--x Bar").is_err());
    assert!(parse("Foo x--1 Bar").is_err());
    assert!(parse("Foo 0--1 Bar").is_err());
}

/// Merge precedence: the first set's entries win on key collision.
#[test]
fn merge_precedence() {
    let mut a = Options::new();
    a.insert(Opt::Color("red".to_string()));
    let mut b = Options::new();
    b.insert(Opt::Color("blue".to_string()));
    b.insert(Opt::FontFace("Arial".to_string()));
    let m = merge_opts(&a, &b);
    match m.get("color") {
        Some(Opt::Color(v)) => assert_eq!(v, "red"),
        other => panic!("unexpected color option: {:?}", other),
    }
    match m.get("font") {
        Some(Opt::FontFace(v)) => assert_eq!(v, "Arial"),
        other => panic!("unexpected font option: {:?}", other),
    }
    assert!(m.get("label").is_none());

    let mut expected = Options::new();
    expected.insert(Opt::Color("red".to_string()));
    expected.insert(Opt::FontFace("Arial".to_string()));
    assert_eq!(m, expected);
}

/// Option-set equality goes by keys and values: neither the order entries
/// were stored in nor entries shadowed under the same key count.
#[test]
fn options_equality_is_set_like() {
    let mut a = Options::new();
    a.insert(Opt::Color("red".to_string()));
    a.insert(Opt::FontFace("Arial".to_string()));
    let mut b = Options::new();
    b.insert(Opt::FontFace("Arial".to_string()));
    b.insert(Opt::Color("blue".to_string()));
    b.insert(Opt::Color("red".to_string()));
    assert_eq!(a, b);

    let mut c = Options::new();
    c.insert(Opt::Color("blue".to_string()));
    c.insert(Opt::FontFace("Arial".to_string()));
    assert_ne!(a, c);
    assert_ne!(a, Options::new());
}

/// End to end: one entity with a primary-key attribute and a plain one,
/// rendered with its rows in declaration order.
#[test]
fn end_to_end_entity() {
    let er = parse("[Person]\n *name\n height\n").unwrap();
    assert_eq!(er.entities.len(), 1);
    let e = &er.entities[0];
    assert_eq!(e.name, "Person");
    assert_eq!(e.attribs.len(), 2);
    assert_eq!(e.attribs[0].field, "name");
    assert!(e.attribs[0].pk);
    assert!(!e.attribs[0].fk);
    assert_eq!(e.attribs[1].field, "height");
    assert!(!e.attribs[1].pk);

    let dot = er.as_dot();
    let header = dot.find("<tr><td>Person</td></tr>").expect("header row");
    let name = dot.find("<tr><td>name</td></tr>").expect("name row");
    let height = dot.find("<tr><td>height</td></tr>").expect("height row");
    assert!(header < name && name < height);
}

/// End to end: one relation, rendered as a labelled edge.
#[test]
fn end_to_end_relation() {
    let er = parse("Foo 1--* Bar").unwrap();
    assert_eq!(er.rels.len(), 1);
    let r = &er.rels[0];
    assert_eq!(r.entity1, "Foo");
    assert_eq!(r.entity2, "Bar");
    assert_eq!(r.card1, Cardinality::One);
    assert_eq!(r.card2, Cardinality::ZeroPlus);

    let dot = er.as_dot();
    assert!(dot.contains("\"Foo\" -> \"Bar\" [taillabel=\"1\", headlabel=\"0..N\"];"));
}

/// Parsing and rendering the same text twice gives byte-identical output.
#[test]
fn parse_render_deterministic() {
    let input = "title { label: \"t\" }\n[Person]\n *name\n height\nPerson 1--* Person";
    let out1 = parse(input).unwrap().as_dot();
    let out2 = parse(input).unwrap().as_dot();
    assert_eq!(out1, out2);
}

/// An empty input is a valid, empty schema.
#[test]
fn empty_input_is_empty_schema() {
    let er = parse("").unwrap();
    assert!(er.entities.is_empty());
    assert!(er.rels.is_empty());
    assert_eq!(
        er.as_dot(),
        "\n        digraph ER {\n            \n            \n        }\n        "
    );
}

/// Duplicate entity names are kept as distinct records in declaration
/// order.
#[test]
fn duplicate_entities_are_kept() {
    let er = parse("[A]\n x\n[A]\n y\n").unwrap();
    assert_eq!(er.entities.len(), 2);
    assert_eq!(er.entities[0].name, "A");
    assert_eq!(er.entities[1].name, "A");
    assert_eq!(er.entities[0].attribs[0].field, "x");
    assert_eq!(er.entities[1].attribs[0].field, "y");
}

/// A relation may name entities that do not exist.
#[test]
fn relation_to_unknown_entity_is_kept() {
    let er = parse("Foo ?--+ Bar").unwrap();
    assert!(er.entities.is_empty());
    assert_eq!(er.rels.len(), 1);
    assert_eq!(er.rels[0].card1, Cardinality::ZeroOne);
    assert_eq!(er.rels[0].card2, Cardinality::OnePlus);
}

/// Both key markers may decorate one attribute.
#[test]
fn both_key_markers() {
    let er = parse("[A]\n *+both\n").unwrap();
    let a = &er.entities[0].attribs[0];
    assert!(a.pk);
    assert!(a.fk);
}

/// Quoted entity and attribute names have their quotes stripped.
#[test]
fn quoted_names_are_stripped() {
    let er = parse("[`Birth Place`]\n 'birth state'\n \"birth country\"\n").unwrap();
    let e = &er.entities[0];
    assert_eq!(e.name, "Birth Place");
    assert_eq!(e.attribs[0].field, "birth state");
    assert_eq!(e.attribs[1].field, "birth country");
}

/// A directive with an option block fills the matching global slot; one
/// without is a no-op.
#[test]
fn directives_fill_global_slots() {
    let er = parse(
        "title { size: \"30\" }\nheader { label: \"h\" }\nentity { bgcolor: \"#eee\" }\nrelationship { color: \"red\" }\n",
    )
    .unwrap();
    assert!(matches!(er.global_opts.title.get("size"), Some(Opt::FontSize(v)) if v == "30"));
    assert!(matches!(er.global_opts.header.get("label"), Some(Opt::Label(v)) if v == "h"));
    assert!(matches!(er.global_opts.entity.get("bgcolor"), Some(Opt::BgColor(v)) if v == "#eee"));
    assert!(matches!(er.global_opts.relationship.get("color"), Some(Opt::Color(v)) if v == "red"));

    let er2 = parse("title\n[A]\n x\n").unwrap();
    assert!(er2.global_opts.title.get("size").is_none());
}

/// An unknown option key is a typed error naming the key.
#[test]
fn unknown_option_key_error() {
    match parse("title { shade: \"dark\" }") {
        Err(Error::UnknownFormatOption(k)) => assert_eq!(k, "shade"),
        other => panic!("unexpected result: {:?}", other),
    }
}

/// A small-integer option value that does not convert is a typed error
/// naming the offending text.
#[test]
fn invalid_int_error() {
    match parse("entity { border: \"abc\" }") {
        Err(Error::InvalidInt(v)) => assert_eq!(v, "abc"),
        other => panic!("unexpected result: {:?}", other),
    }
    match parse("entity { cellpadding: \"256\" }") {
        Err(Error::InvalidInt(v)) => assert_eq!(v, "256"),
        other => panic!("unexpected result: {:?}", other),
    }
}

/// A numeric option value that does not convert is a typed error naming
/// the offending text.
#[test]
fn invalid_float_error() {
    match parse("title { size: \"12pt\" }") {
        Err(Error::InvalidFloat(v)) => assert_eq!(v, "12pt"),
        other => panic!("unexpected result: {:?}", other),
    }
}

/// The small-integer keys accept decimal text up to 255, with an optional
/// leading plus sign and leading zeros.
#[test]
fn small_integer_values() {
    assert!(matches!(option_by_name("border", "\"0\""), Ok(Opt::Border(0))));
    assert!(matches!(option_by_name("border", "\"255\""), Ok(Opt::Border(255))));
    assert!(matches!(option_by_name("border", "\"+17\""), Ok(Opt::Border(17))));
    assert!(matches!(option_by_name("cellspacing", "\"007\""), Ok(Opt::CellSpacing(7))));
    assert!(matches!(option_by_name("cellborder", "\"256\""), Err(Error::InvalidInt(_))));
    assert!(matches!(option_by_name("cellpadding", "\"-1\""), Err(Error::InvalidInt(_))));
    assert!(matches!(option_by_name("border", "\"\""), Err(Error::InvalidInt(_))));
}

/// The numeric `size` key accepts the usual floating-point forms and
/// rejects the rest.
#[test]
fn size_value_forms() {
    assert!(matches!(option_by_name("size", "\"30\""), Ok(Opt::FontSize(_))));
    assert!(matches!(option_by_name("size", "\"-1.5e-3\""), Ok(Opt::FontSize(_))));
    assert!(matches!(option_by_name("size", "\".5\""), Ok(Opt::FontSize(_))));
    assert!(matches!(option_by_name("size", "\"1.\""), Ok(Opt::FontSize(_))));
    assert!(matches!(option_by_name("size", "\"inf\""), Ok(Opt::FontSize(_))));
    assert!(matches!(option_by_name("size", "\"NaN\""), Ok(Opt::FontSize(_))));
    assert!(matches!(option_by_name("size", "\".\""), Err(Error::InvalidFloat(_))));
    assert!(matches!(option_by_name("size", "\"1e\""), Err(Error::InvalidFloat(_))));
    assert!(matches!(option_by_name("size", "\"\""), Err(Error::InvalidFloat(_))));
}

/// Text-valued keys keep their text with the quotes stripped.
#[test]
fn text_valued_keys() {
    assert!(matches!(option_by_name("label", "\"x y\""), Ok(Opt::Label(v)) if v == "x y"));
    assert!(matches!(option_by_name("font", "\"Courier\""), Ok(Opt::FontFace(v)) if v == "Courier"));
    assert!(
        matches!(option_by_name("border-color", "\"#111\""), Ok(Opt::BorderColor(v)) if v == "#111")
    );
    assert!(
        matches!(option_by_name("text-alignment", "\"RIGHT\""), Ok(Opt::TextAlignment(v)) if v == "RIGHT")
    );
}

/// Duplicate keys within one block: the last occurrence wins.
#[test]
fn duplicate_keys_last_wins() {
    let er = parse("title { label: \"a\", label: \"b\" }").unwrap();
    match er.global_opts.title.get("label") {
        Some(Opt::Label(v)) => assert_eq!(v, "b"),
        other => panic!("unexpected label option: {:?}", other),
    }
}

/// Removing double quotes from both ends of a string.
#[test]
fn trim_quotes_forms() {
    assert_eq!(trim_quotes("\"abc\""), "abc");
    assert_eq!(trim_quotes("abc"), "abc");
    assert_eq!(trim_quotes("\"\"a\"\""), "a");
    assert_eq!(trim_quotes("\"\"\""), "");
    assert_eq!(trim_quotes(""), "");
    assert_eq!(trim_quotes("a\"b"), "a\"b");
}

/// The hard-coded default option sets.
#[test]
fn default_option_sets() {
    assert!(matches!(default_title_opts().get("size"), Some(Opt::FontSize(v)) if v == "30"));
    assert!(matches!(default_header_opts().get("size"), Some(Opt::FontSize(v)) if v == "16"));
    let e = default_entity_opts();
    assert!(matches!(e.get("border"), Some(Opt::Border(0))));
    assert!(matches!(e.get("cellborder"), Some(Opt::CellBorder(1))));
    assert!(matches!(e.get("cellspacing"), Some(Opt::CellSpacing(0))));
    assert!(matches!(e.get("cellpadding"), Some(Opt::CellPadding(4))));
    assert!(matches!(e.get("font"), Some(Opt::FontFace(v)) if v == "Helvetica"));
    assert_eq!(default_rel_opts().entry_count(), 0);
    assert!(
        matches!(default_attr_opts().get("text-alignment"), Some(Opt::TextAlignment(v)) if v == "LEFT")
    );
}

/// The three selector subsets pick exactly their own options.
#[test]
fn selector_subsets() {
    let mut o = Options::new();
    o.insert(Opt::Label("l".to_string()));
    o.insert(Opt::Color("c".to_string()));
    o.insert(Opt::Border(2));
    o.insert(Opt::BgColor("#fff".to_string()));

    let font = options_to(Selector::Font, &o);
    assert!(font.get("color").is_some());
    assert!(font.get("label").is_none());
    assert!(font.get("border").is_none());

    let html = options_to(Selector::Html, &o);
    assert!(html.get("border").is_some());
    assert!(html.get("bgcolor").is_some());
    assert!(html.get("color").is_none());

    let label = options_to(Selector::Label, &o);
    assert!(label.get("label").is_some());
    assert!(label.get("color").is_none());
}

/// The HTML attribute name of each option variant.
#[test]
fn html_attr_names() {
    assert_eq!(Opt::Label("x".to_string()).html_attr_name(), "label");
    assert_eq!(Opt::Color("x".to_string()).html_attr_name(), "color");
    assert_eq!(Opt::BgColor("x".to_string()).html_attr_name(), "bgcolor");
    assert_eq!(Opt::FontSize("1".to_string()).html_attr_name(), "size");
    assert_eq!(Opt::FontFace("x".to_string()).html_attr_name(), "font");
    assert_eq!(Opt::Border(0).html_attr_name(), "border");
    assert_eq!(Opt::BorderColor("x".to_string()).html_attr_name(), "border-color");
    assert_eq!(Opt::CellSpacing(0).html_attr_name(), "cellspacing");
    assert_eq!(Opt::CellBorder(0).html_attr_name(), "cellborder");
    assert_eq!(Opt::CellPadding(0).html_attr_name(), "cellpadding");
    assert_eq!(Opt::TextAlignment("x".to_string()).html_attr_name(), "text-alignment");
}

/// The parse entry points of the two modules agree.
#[test]
fn parse_entry_points_agree() {
    let input = "[A]\n x\nA 1--1 A";
    let a = parse(input).unwrap();
    let b = erd::parser::parse(input).unwrap();
    assert_eq!(a, b);
}

/// A relationship's option block is validated even though its values are
/// not yet carried into the relation.
#[test]
fn relation_option_block_is_validated() {
    assert!(parse("Foo 1--1 Bar { label: \"ok\" }").is_ok());
    assert!(matches!(
        parse("Foo 1--1 Bar { shade: \"bad\" }"),
        Err(Error::UnknownFormatOption(_))
    ));
    let er = parse("Foo 1--1 Bar { label: \"ok\" }").unwrap();
    assert_eq!(er.rels[0].options.entry_count(), 0);
}

/// The number-text validator agrees with the standard library's
/// floating-point parser on which texts denote a number.
#[test]
fn float_text_matches_std_parse() {
    let samples = [
        "30", "-1.5e-3", ".5", "1.", "inf", "NaN", "iNfInItY", "+inf", "-infinity", ".", "1e",
        "", "+", "-", "1e+5", "1E-2", "1.2.3", "0x1", "1_000", " 1", "1 ", "e5", "-.5", "5.e2",
        "2.5E10", "nan", "-nan", "00.100", "1e999", "+.e2", "infi",
    ];
    for s in samples {
        assert_eq!(erd::er::float_text(s), s.parse::<f64>().is_ok(), "sample {:?}", s);
    }
}

/// The small-integer reader agrees with the standard library's `u8`
/// parser.
#[test]
fn u8_text_matches_std_parse() {
    let samples = [
        "0", "255", "256", "1000", "+1", "-1", "007", "", "+", " 1", "1 ", "12a", "+255", "++1",
        "00000000000000000255",
    ];
    for s in samples {
        assert_eq!(erd::er::parse_u8_text(s), s.parse::<u8>().ok(), "sample {:?}", s);
    }
}

/// Error descriptions name the offending text or key.
#[test]
fn error_messages() {
    let e = parse("title { shade: \"dark\" }").unwrap_err();
    assert_eq!(e.message(), "Unknown formatting option: `shade`");
    let e = parse("entity { border: \"abc\" }").unwrap_err();
    assert_eq!(e.message(), "invalid small unsigned integer: `abc`");
    let e = parse("title { size: \"12pt\" }").unwrap_err();
    assert_eq!(e.message(), "invalid number: `12pt`");
    let e = parse("Foo 1--1 Bar\n title { label: \"oops\" }").unwrap_err();
    assert!(e.message().starts_with("syntax error: expected "));
}

/// Comments may close any construct's line, and carriage returns count as
/// inline whitespace.
#[test]
fn comments_and_crlf() {
    assert!(parse("[A] # note\n x # field\nFoo 1--1 Bar # edge\n").is_ok());
    let er = parse("[A]\r\n x\r\nFoo 1--1 Bar\r\n").unwrap();
    assert_eq!(er.entities.len(), 1);
    assert_eq!(er.rels.len(), 1);
    assert!(parse("# only a comment\n").unwrap().entities.is_empty());
}

/// A keyword is a directive only when it stands whole: a longer word is an
/// ordinary name, and a keyword may still name an entity.
#[test]
fn keywords_are_not_special_elsewhere() {
    assert!(parse("titles { label: \"x\" }").is_err());
    let er = parse("[title]\n header\n").unwrap();
    assert_eq!(er.entities[0].name, "title");
    assert_eq!(er.entities[0].attribs[0].field, "header");
}

/// An entity header may carry an option block on its line.
#[test]
fn entity_header_options() {
    let er = parse("[A] { bgcolor: \"#112233\" }\n x\n").unwrap();
    let e = &er.entities[0];
    assert!(matches!(e.eoptions.get("bgcolor"), Some(Opt::BgColor(v)) if v == "#112233"));
    assert!(e.hoptions.get("bgcolor").is_none());
}
