//! Grammar-level tests: which texts the grammar engine accepts and which
//! it rejects, covering directive placement, option-block line discipline,
//! quoting, comments and whitespace.

use erd::parser::parse_pairs;

/// Directives must appear before all other items in the file.
#[test]
fn test_directives_first_ok() {
    let input = r#"
        title { label: "foo bar" }
        header { label: "foo bar" }
        entity { label: "foo bar" }
        relationship { label: "foo bar" }
        
        [Baz]
            qux
        "#;
    parse_pairs(input).unwrap();
}

/// Only four directives are legal: title, header, entity, relationship.
#[test]
fn test_unexpected_directive_is_err() {
    let input = r#"        
        unknown { label: "foo bar" }
        [Baz]
            qux
        "#;
    assert!(parse_pairs(input).is_err());
}

/// When what would otherwise be a valid directive appears after an
/// entity has been defined, it is treated as an attribute: directives
/// belong at the very start of the document, but they conform to all the
/// same rules as attributes anyway.
#[test]
fn test_directives_after_entity_ok_but_attr_instead() {
    let input = r#"
        [Baz]
            qux
            title { label: "foo bar" }
        "#;
    parse_pairs(input).unwrap();
}

/// When what would otherwise be a valid directive appears after a
/// relationship (and nothing else), that is illegal.
#[test]
fn test_directives_after_rel_is_err() {
    let input = r#"
        Foo 1--1 Bar
        title { label: "oops" }
        "#;
    assert!(parse_pairs(input).is_err());
}

/// A body may hold relationships and no entities, and a valid directive
/// before such a body is fine.
#[test]
fn test_directives_before_rel_is_ok() {
    let input = r#"
        title { label: "totally fine" }
        
        Foo 1--1 Bar
        "#;
    parse_pairs(input).unwrap();
}

#[test]
fn test_option_end_with_blank_ok() {
    let input = r#"
        title { label: "totally fine" }          "#;
    parse_pairs(input).unwrap();
}

#[test]
fn test_option_end_with_comment_ok() {
    let input = r#"
        title { label: "totally fine" } # comments"#;

    parse_pairs(input).unwrap();

    let input = r#"
        title { label: "totally fine" }     # comments
        "#;

    parse_pairs(input).unwrap();
}

#[test]
fn test_option_end_with_newline_ok() {
    let input = r#"
        title { label: "totally fine" }
        "#;
    parse_pairs(input).unwrap();
}

#[test]
fn test_option_start_on_blank_is_err() {
    let input = r#"
        [Person]
        name
        { label: "a person's name" }
        age
        "#;
    assert!(parse_pairs(input).is_err());
}

#[test]
fn test_option_end_with_attr_is_err() {
    let input = r#"
        [Person]
        name { label: "a person's name" 
        } age
        "#;
    assert!(parse_pairs(input).is_err());
}

#[test]
fn test_option_end_with_entity_is_err() {
    let input = r#"
        [Person]
        name { label: "a person's name" 
        } [Group]
        id
        "#;
    assert!(parse_pairs(input).is_err());
}

#[test]
fn test_option_end_with_rel_is_err() {
    let input = r##"
        [Person]
        name { label: "a person's name" 
        } [Group]
        id {
            bgcolor: "#ff33ff",
        } Person *--* Group
        "##;
    assert!(parse_pairs(input).is_err());
}

#[test]
fn test_option_end_with_directive_is_err() {
    let input = r##"
        title { "main title" 
        } header { bgcolor: "#deedee" }
        "##;
    assert!(parse_pairs(input).is_err());
}

/// Option values must be quoted, even if they are numbers, and they must
/// use double quotes.
#[test]
fn test_option_val_must_use_double_quotes() {
    let double_quote = r#"title { label: "123" }"#; // Good
    parse_pairs(double_quote).unwrap();

    let single_quote = r#"title { label: '123' }"#; // Bad
    assert!(parse_pairs(single_quote).is_err());

    let unquoted = r#"title { label: 123 }"#; // Bad
    assert!(parse_pairs(unquoted).is_err());
}

/// A `#` inside a string value does not start a comment.
#[test]
fn test_option_val_can_contain_pound() {
    let input = r##"header { bgcolor: "#663399" }"##; // Good

    parse_pairs(input).unwrap();
}

#[test]
fn test_leading_whitespace_is_fine() {
    let input = r##"
                header      {
                                label: "explore the space"
                    }
        [A]
         b
            c {
                label:              "really explore the space"
                    }
             [D]
         e {
 label: "I gotta fever"
     }
                    A *--*              D {
                    
                    label: "Get the As and Ds together" }
        "##;
    parse_pairs(input).unwrap();
}

#[test]
fn test_parse_single_entity() {
    let input = r#"
        [Person]
            *name
            height
            weight
            `birth date`
            +birth_place_id
        "#;
    parse_pairs(input).unwrap();
}

#[test]
fn test_parse_double_entity() {
    let input = r#"
        [Person]
            *name
            height
            weight
            `birth date`
            +birth_place_id

        [`Birth Place`]
            *id
            `birth city`
            'birth state'
            "birth country"
        "#;
    parse_pairs(input).unwrap();
}

#[test]
fn test_parse_double_entity_with_cardinality() {
    let input = r#"
        [Person]
            *name
            height
            weight
            `birth date`
            +birth_place_id

        [`Birth Place`]
            *id
            `birth city`
            'birth state'
            "birth country"

        # Cardinality    Syntax
        # 0 or 1         ?
        # exactly 1      1
        # 0 or more      *
        # 1 or more      +
        Person *--1 `Birth Place`
        "#;
    parse_pairs(input).unwrap();
}

/// Mainly concerned with the framing of options: the start, the stop,
/// and the trailing commas.
#[test]
fn test_option_edge_case_example_from_readme() {
    let input = r##"
        [Person]
          name {
            label: "string",
            color: "#3366ff", # i like bright blue
          }
          weight {
            label: "int",}
        "##;
    parse_pairs(input).unwrap();
}
