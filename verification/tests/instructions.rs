use ocaast::instructions::add::extract_instruction;
use ocaast::instructions::from::{check_identifier, command_from_check};
use ocaast::ocafile::command_of_line;
use ocaast::{
    AddInstruction, AttributeType, Command, CommandType, Error, FromInstruction, NestedValue,
    OCAfileParser, ObjectContent, ObjectKind, OverlayType, Pair, Rule, TryFromPair, ValueMap,
};

fn leaf(rule: Rule, text: &str) -> Pair {
    Pair::leaf(rule, text.to_string())
}

fn node(rule: Rule, text: &str, children: Vec<Pair>) -> Pair {
    Pair::node(rule, text.to_string(), children)
}

fn attr_pair(key: &str, attr_type: &str) -> Pair {
    node(
        Rule::AttrPair,
        &format!("{}={}", key, attr_type),
        vec![leaf(Rule::Key, key), leaf(Rule::AttrType, attr_type)],
    )
}

fn key_pair(key: &str, value: &str) -> Pair {
    node(
        Rule::KeyPair,
        &format!("{}={}", key, value),
        vec![leaf(Rule::Key, key), leaf(Rule::KeyValue, value)],
    )
}

/// The tree of `ADD ATTRIBUTE k1=T1 k2=T2 ...`.
fn add_attribute(keyword: &str, pairs: &[(&str, &str)]) -> Pair {
    let body: Vec<String> = pairs.iter().map(|(k, t)| format!("{}={}", k, t)).collect();
    let text = format!("{} {}", keyword, body.join(" "));
    let attr_pairs = node(
        Rule::AttrPairs,
        &body.join(" "),
        pairs.iter().map(|(k, t)| attr_pair(k, t)).collect(),
    );
    node(Rule::Add, &text, vec![node(Rule::Attribute, &text, vec![attr_pairs])])
}

fn from_line(keyword: &str, said: &str) -> Pair {
    node(Rule::From, &format!("{} {}", keyword, said), vec![leaf(Rule::FromSaid, said)])
}

fn entries(map: &ValueMap) -> Vec<(String, NestedValue)> {
    (0..map.len())
        .map(|i| (map.key_at(i).unwrap().clone(), map.value_at(i).unwrap().clone()))
        .collect()
}

fn scalars(pairs: &[(&str, &str)]) -> Vec<(String, NestedValue)> {
    pairs.iter().map(|(k, v)| (k.to_string(), NestedValue::Value(v.to_string()))).collect()
}

const SAID: &str = "E2oRZ5zEKxTfTdECW-v2Q7bM_H0OD0ko7IcCwdo_u9co";

#[test]
fn add_test_add_attribute_instruction() {
    // Each entry is the tree of an instruction, with whether it should be valid.
    let instructions = vec![
        (add_attribute("ADD ATTRIBUTE", &[("documentNumber", "Text"), ("documentType", "Numeric")]), true),
        (
            add_attribute(
                "ADD ATTRIBUTE",
                &[
                    ("documentNumber", "Text"),
                    ("documentType", "Numeric"),
                    ("name", "Text"),
                    ("list", "Array[Numeric]"),
                ],
            ),
            true,
        ),
        (add_attribute("ADD ATTRIBUTE", &[("name", "Text")]), false),
        (add_attribute("ADD attribute", &[("name", "Text")]), true),
        (add_attribute("add attribute", &[("name", "Text")]), true),
        (add_attribute("add attribute", &[("name", "Random")]), false),
    ];

    for (instruction, is_valid) in instructions {
        match AddInstruction::from_record(instruction, 0) {
            Ok(instruction) => {
                println!("Parsed instruction: {:?}", instruction);

                assert_eq!(instruction.kind, CommandType::Add);
                assert_eq!(instruction.object_kind, ObjectKind::CaptureBase);
                match instruction.content {
                    Some(ObjectContent::CaptureBase(content)) => {
                        assert!(content.attributes.is_some());
                        assert!(content.attributes.unwrap().len() > 0);
                    }
                    _ => {
                        assert!(!is_valid, "Instruction is not valid");
                    }
                }
            }
            Err(e) => {
                assert!(!is_valid, "Instruction should be invalid");
                println!("Error: {:?}", e);
            }
        }
    }
}

#[test]
fn test_add_instruction() {
    let instruction =
        add_attribute("ADD ATTRIBUTE", &[("documentNumber", "Text"), ("documentType", "Numeric")]);
    let add_instruction = AddInstruction::from_record(instruction, 0).unwrap();
    let attributes = match add_instruction.content {
        Some(ObjectContent::CaptureBase(content)) => content.attributes.unwrap(),
        _ => panic!("unsuccessful parse"),
    };
    assert_eq!(attributes.len(), 2);
    assert_eq!(attributes.key_at(0).unwrap(), "documentNumber");
    match attributes.value_at(0) {
        Some(NestedValue::Value(name)) => match AttributeType::from_name(name) {
            Some(AttributeType::Text) => {
                assert!(true);
            }
            Some(AttributeType::Numeric) => {
                assert!(true);
            }
            _ => panic!("Invalid attribute type"),
        },
        _ => panic!("Invalid attribute type"),
    }
}

#[test]
fn from_said() {
    let from = FromInstruction::from_record(from_line("from", SAID), 0).unwrap();
    assert_eq!(from, Command::from_bundle(SAID.to_string()));
}

#[test]
fn test_from_instruction() {
    let instructions = vec![
        (from_line("FROM", SAID), true),
        (from_line("from", SAID), true),
        (from_line("from", "error"), false),
        (
            from_line(
                "from",
                "https://humancolossus.org/E2oRZ5zEKxTfTdECW-v2Q7bM_H0OD0ko7IcCwdo_u9co",
            ),
            false,
        ),
    ];

    for (instruction, is_valid) in instructions {
        match FromInstruction::from_record(instruction, 0) {
            Ok(from) => {
                assert!(is_valid);
                assert_eq!(from.kind, CommandType::From);
                assert_eq!(from.said, Some(SAID.to_string()));
                assert_eq!(from.content, None);
            }
            Err(_) => {
                assert!(!is_valid, "Instruction should be invalid")
            }
        }
    }
    let from = FromInstruction::from_record(from_line("from", SAID), 0);
    assert!(from.is_ok());
}

#[test]
fn invalid_attribute_type_surfaces_at_extraction() {
    let result = AddInstruction::from_record(add_attribute("ADD ATTRIBUTE", &[("name", "Random")]), 0);
    assert_eq!(result, Err(Error::InvalidAttributeType("Random".to_string())));
}

#[test]
fn attribute_type_match_is_case_sensitive() {
    let result = AddInstruction::from_record(add_attribute("ADD ATTRIBUTE", &[("name", "text")]), 0);
    assert_eq!(result, Err(Error::InvalidAttributeType("text".to_string())));
    let result =
        AddInstruction::from_record(add_attribute("ADD ATTRIBUTE", &[("l", "array[Text]")]), 0);
    assert_eq!(result, Err(Error::InvalidAttributeType("array[Text]".to_string())));
}

#[test]
fn first_invalid_attribute_type_is_reported() {
    let result = AddInstruction::from_record(
        add_attribute("ADD ATTRIBUTE", &[("a", "Text"), ("b", "Bad"), ("c", "Worse")]),
        0,
    );
    assert_eq!(result, Err(Error::InvalidAttributeType("Bad".to_string())));
}

#[test]
fn attributes_keep_source_order() {
    let command = AddInstruction::from_record(
        add_attribute(
            "ADD ATTRIBUTE",
            &[("z", "Text"), ("a", "Array[Boolean]"), ("m", "DateTime"), ("z", "Numeric")],
        ),
        0,
    )
    .unwrap();
    let attributes = match command.content {
        Some(ObjectContent::CaptureBase(content)) => {
            assert!(content.properties.is_none());
            content.attributes.unwrap()
        }
        _ => panic!("no capture base content"),
    };
    assert_eq!(
        entries(&attributes),
        scalars(&[("z", "Numeric"), ("a", "Array[Boolean]"), ("m", "DateTime")])
    );
}

#[test]
fn every_attribute_type_literal_is_accepted() {
    let names = [
        "Boolean",
        "Array[Boolean]",
        "Binary",
        "Array[Binary]",
        "Text",
        "Array[Text]",
        "Numeric",
        "Array[Numeric]",
        "DateTime",
        "Array[DateTime]",
        "Reference",
        "Array[Reference]",
    ];
    for name in names {
        let found = AttributeType::from_name(name).unwrap();
        assert_eq!(found.name(), name);
    }
    assert_eq!(AttributeType::from_name("Array[Array[Text]]"), None);
    assert_eq!(AttributeType::from_name(""), None);
    assert_eq!(AttributeType::from_name("Text "), None);
}

#[test]
fn classification_becomes_a_property() {
    let record = node(
        Rule::Add,
        "ADD CLASSIFICATION GICS:35102020",
        vec![node(
            Rule::Classification,
            "CLASSIFICATION GICS:35102020",
            vec![leaf(Rule::KeyValue, "GICS:35102020")],
        )],
    );
    let command = AddInstruction::from_record(record, 0).unwrap();
    assert_eq!(command.object_kind, ObjectKind::CaptureBase);
    match command.content {
        Some(ObjectContent::CaptureBase(content)) => {
            assert!(content.attributes.is_none());
            assert_eq!(
                entries(&content.properties.unwrap()),
                scalars(&[("classification", "GICS:35102020")])
            );
        }
        _ => panic!("no capture base content"),
    }
}

#[test]
fn classification_without_value_is_an_error() {
    let record = node(Rule::Add, "ADD CLASSIFICATION", vec![leaf(Rule::Classification, "CLASSIFICATION")]);
    assert_eq!(
        AddInstruction::from_record(record, 0),
        Err(Error::UnexpectedToken("Classification without a value".to_string()))
    );
}

fn overlay_record(rule: Rule) -> Pair {
    node(
        Rule::Add,
        "ADD X en PROPS a=b ATTRS name=\"Name\"",
        vec![node(
            rule,
            "X en PROPS a=b ATTRS name=\"Name\"",
            vec![
                leaf(Rule::Lang, "en"),
                node(Rule::PropKeyPairs, "a=b", vec![key_pair("a", "b")]),
                node(Rule::AttrKeyPairs, "name=\"Name\"", vec![key_pair("name", "\"Name\"")]),
            ],
        )],
    )
}

#[test]
fn overlay_instructions_fill_properties_and_body() {
    let kinds = [
        (Rule::Meta, OverlayType::Meta),
        (Rule::Information, OverlayType::Information),
        (Rule::Label, OverlayType::Label),
        (Rule::Unit, OverlayType::Unit),
        (Rule::Format, OverlayType::Format),
        (Rule::CharacterEncoding, OverlayType::CharacterEncoding),
        (Rule::CharacterEncodingProps, OverlayType::CharacterEncoding),
    ];
    for (rule, overlay) in kinds {
        let command = AddInstruction::from_record(overlay_record(rule), 0).unwrap();
        assert_eq!(command.kind, CommandType::Add);
        assert_eq!(command.object_kind, ObjectKind::Overlay(overlay));
        assert_eq!(command.said, None);
        match command.content {
            Some(ObjectContent::Overlay(content)) => {
                assert_eq!(content.capture_base_id, None);
                assert_eq!(
                    entries(&content.properties.unwrap()),
                    scalars(&[("lang", "en"), ("a", "b")])
                );
                assert_eq!(entries(&content.body.unwrap()), scalars(&[("name", "\"Name\"")]));
            }
            _ => panic!("no overlay content"),
        }
    }
}

#[test]
fn unexpected_nodes_carry_their_rule_name() {
    let record = node(Rule::Add, "ADD x", vec![leaf(Rule::FromSaid, "x")]);
    assert_eq!(
        AddInstruction::from_record(record, 0),
        Err(Error::UnexpectedToken("Overlay: unexpected token from_said".to_string()))
    );
    let record = node(
        Rule::Add,
        "ADD ATTRIBUTE x",
        vec![node(Rule::Attribute, "ATTRIBUTE x", vec![leaf(Rule::KeyPairs, "x")])],
    );
    assert_eq!(
        AddInstruction::from_record(record, 0),
        Err(Error::UnexpectedToken(
            "Invalid attributes in ATTRIBUTE instruction key_pairs".to_string()
        ))
    );
    let record = node(
        Rule::Add,
        "ADD ATTRIBUTE x",
        vec![node(
            Rule::Attribute,
            "ATTRIBUTE x",
            vec![node(
                Rule::AttrPairs,
                "x",
                vec![node(Rule::AttrPair, "x", vec![leaf(Rule::Lang, "x")])],
            )],
        )],
    );
    assert_eq!(
        AddInstruction::from_record(record, 0),
        Err(Error::UnexpectedToken("Invalid attribute in lang".to_string()))
    );
    let record = node(Rule::Add, "ADD META x", vec![node(Rule::Meta, "META x", vec![leaf(Rule::EOI, "")])]);
    assert_eq!(
        AddInstruction::from_record(record, 0),
        Err(Error::UnexpectedToken("Invalid attribute in instruction EOI".to_string()))
    );
}

#[test]
fn instruction_without_target_is_an_error() {
    let record = node(Rule::Add, "ADD", vec![leaf(Rule::Comment, "# nothing")]);
    assert_eq!(
        AddInstruction::from_record(record, 0),
        Err(Error::UnexpectedToken("Instruction without a target".to_string()))
    );
    assert_eq!(
        AddInstruction::from_record(leaf(Rule::Add, "ADD"), 0),
        Err(Error::UnexpectedToken("Instruction without a target".to_string()))
    );
}

#[test]
fn flagged_attributes_carry_no_payload() {
    let record = node(Rule::Add, "ADD FLAGGED_ATTRIBUTES a", vec![leaf(Rule::FlaggedAttrs, "a")]);
    let command = AddInstruction::from_record(record, 0).unwrap();
    assert_eq!(command, Command::capture_base(CommandType::Add, None));
}

#[test]
fn the_last_node_decides_and_comments_are_passed_over() {
    let record = node(
        Rule::Add,
        "ADD ...",
        vec![
            leaf(Rule::FlaggedAttrs, "a"),
            node(Rule::Label, "LABEL en", vec![leaf(Rule::Lang, "en")]),
            leaf(Rule::Comment, "# trailing"),
        ],
    );
    let command = AddInstruction::from_record(record, 0).unwrap();
    assert_eq!(command.object_kind, ObjectKind::Overlay(OverlayType::Label));
}

#[test]
fn remove_and_modify_share_the_shape_of_add() {
    let record = node(
        Rule::Remove,
        "REMOVE ATTRIBUTE name",
        vec![node(
            Rule::Attribute,
            "ATTRIBUTE name",
            vec![node(
                Rule::AttrPairs,
                "name",
                vec![node(Rule::AttrPair, "name", vec![leaf(Rule::Key, "name")])],
            )],
        )],
    );
    let command = Command::try_from_pair(record).unwrap();
    assert_eq!(command.kind, CommandType::Remove);
    match command.content {
        Some(ObjectContent::CaptureBase(content)) => {
            assert_eq!(entries(&content.attributes.unwrap()), scalars(&[("name", "")]));
        }
        _ => panic!("no capture base content"),
    }
    let mut modify = add_attribute("MODIFY ATTRIBUTE", &[("name", "Numeric")]);
    modify.rule = Rule::Modify;
    let command = extract_instruction(CommandType::Modify, &modify).unwrap();
    assert_eq!(command.kind, CommandType::Modify);
    assert_eq!(command_of_line(&modify).unwrap(), command);
}

#[test]
fn from_rejects_what_is_no_identifier() {
    for token in ["", "E", "0", "0D", "error", "Ä2oRZ5zEKxTfTdECW-v2Q7bM_H0OD0ko7IcCwdo_u9c"] {
        assert_eq!(
            FromInstruction::from_record(from_line("FROM", token), 0),
            Err(Error::MalformedIdentifier(token.to_string())),
            "{}",
            token
        );
    }
    let short = &SAID[..43];
    assert!(!check_identifier(short));
    let bad_code = format!("X{}", &SAID[1..]);
    assert!(!check_identifier(&bad_code));
    let bad_alphabet = format!("E{}", "*".repeat(43));
    assert!(!check_identifier(&bad_alphabet));
    assert!(check_identifier(SAID));
}

#[test]
fn from_reads_the_long_codes_too() {
    let long = format!("0D{}", "A".repeat(86));
    assert!(check_identifier(&long));
    assert!(!check_identifier(&long[..87]));
    let command = FromInstruction::from_record(from_line("FROM", &long), 0).unwrap();
    assert_eq!(command.said, Some(long));
}

#[test]
fn the_check_decides_between_command_and_error() {
    assert_eq!(
        command_from_check("token", true),
        Ok(Command::from_bundle("token".to_string()))
    );
    assert_eq!(
        command_from_check("token", false),
        Err(Error::MalformedIdentifier("token".to_string()))
    );
}

#[test]
fn from_needs_an_identifier_node() {
    assert_eq!(
        FromInstruction::from_record(node(Rule::From, "FROM", vec![leaf(Rule::Comment, "#")]), 0),
        Err(Error::UnexpectedToken("FROM instruction without an identifier".to_string()))
    );
    assert_eq!(
        FromInstruction::from_record(node(Rule::From, "FROM x", vec![leaf(Rule::Key, "x")]), 0),
        Err(Error::UnexpectedToken("unexpected token key".to_string()))
    );
}

#[test]
fn a_map_gives_the_value_under_a_name() {
    let command = AddInstruction::from_record(
        add_attribute("ADD ATTRIBUTE", &[("name", "Text"), ("age", "Numeric")]),
        0,
    )
    .unwrap();
    let attributes = command.attributes().unwrap();
    assert_eq!(attributes.get("age"), Some(&NestedValue::Value("Numeric".to_string())));
    assert_eq!(attributes.get("Age"), None);
}

#[test]
fn lines_that_are_no_instruction_are_unexpected() {
    assert_eq!(
        Command::try_from_pair(leaf(Rule::Meta, "META")),
        Err(Error::UnexpectedToken("meta".to_string()))
    );
}

#[test]
fn a_file_becomes_a_log_in_line_order() {
    let file = node(
        Rule::File,
        "",
        vec![
            leaf(Rule::Comment, "# schema"),
            from_line("FROM", SAID),
            leaf(Rule::EmptyLine, ""),
            add_attribute("ADD ATTRIBUTE", &[("name", "Text")]),
            overlay_record(Rule::Label),
            leaf(Rule::EOI, ""),
        ],
    );
    let ast = OCAfileParser::parse_tree(&file).unwrap();
    assert_eq!(ast.version, "1.0");
    assert_eq!(ast.commands.len(), 3);
    assert_eq!(ast.commands[0], Command::from_bundle(SAID.to_string()));
    assert_eq!(ast.commands[1].object_kind, ObjectKind::CaptureBase);
    assert_eq!(ast.commands[2].object_kind, ObjectKind::Overlay(OverlayType::Label));
}

#[test]
fn a_file_with_a_bad_line_gives_no_log() {
    let file = node(
        Rule::File,
        "",
        vec![
            add_attribute("ADD ATTRIBUTE", &[("name", "Text")]),
            add_attribute("ADD ATTRIBUTE", &[("age", "Random")]),
            add_attribute("ADD ATTRIBUTE", &[("x", "AlsoBad")]),
        ],
    );
    assert_eq!(
        OCAfileParser::parse_tree(&file),
        Err(Error::InvalidAttributeType("Random".to_string()))
    );
    let empty = OCAfileParser::parse_tree(&leaf(Rule::File, "")).unwrap();
    assert!(empty.commands.is_empty());
}
