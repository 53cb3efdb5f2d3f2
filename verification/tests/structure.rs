use ocaast::{
    CaptureBaseContent, Command, CommandType, NestedValue, OCAAst, ObjectContent, ObjectKind,
    OverlayContent, OverlayType, ValueMap,
};

fn text(value: &str) -> NestedValue {
    NestedValue::Value(value.to_string())
}

fn map_of(pairs: Vec<(&str, NestedValue)>) -> ValueMap {
    let mut map = ValueMap::new();
    for (name, value) in pairs {
        map.insert(name.to_string(), value);
    }
    map
}

fn quoted(value: &str) -> String {
    format!("\"{}\"", value.replace('\\', "\\\\").replace('"', "\\\""))
}

/// Writes a value down as JSON text, keys in the order the maps hold them.
fn json(value: &NestedValue) -> String {
    match value {
        NestedValue::Value(value) => quoted(value),
        NestedValue::Reference(target) => quoted(target),
        NestedValue::Array(items) => {
            let parts: Vec<String> = items.iter().map(json).collect();
            format!("[{}]", parts.join(","))
        }
        NestedValue::Object(map) => {
            let parts: Vec<String> = (0..map.len())
                .map(|i| {
                    format!("{}:{}", quoted(map.key_at(i).unwrap()), json(map.value_at(i).unwrap()))
                })
                .collect();
            format!("{{{}}}", parts.join(","))
        }
    }
}

fn sample_command() -> Command {
    let person = map_of(vec![("name", text("Text"))]);
    let attributes = map_of(vec![("test", text("test")), ("person", NestedValue::Object(person))]);
    let properties = map_of(vec![("test", text("test"))]);
    Command {
        kind: CommandType::Add,
        object_kind: ObjectKind::CaptureBase,
        content: Some(ObjectContent::CaptureBase(CaptureBaseContent {
            attributes: Some(attributes),
            properties: Some(properties),
        })),
        said: None,
    }
}

#[test]
fn lib_test_ocaast_serialize() {
    let mut ocaast = OCAAst::new();
    ocaast.commands.push(sample_command());
    let serialized = json(&ocaast.into_value());
    assert_eq!(
        serialized,
        r#"{"version":"1.0","commands":[{"type":"Add","object_kind":"CaptureBase","content":{"attributes":{"test":"test","person":{"name":"Text"}},"properties":{"test":"test"}}}]}"#
    );
}

#[test]
fn absent_parts_are_left_out() {
    let bare = Command::capture_base(CommandType::Remove, None);
    assert_eq!(json(&bare.into_value()), r#"{"type":"Remove","object_kind":"CaptureBase"}"#);
    let empty = Command::capture_base(
        CommandType::Modify,
        Some(CaptureBaseContent { attributes: None, properties: None }),
    );
    assert_eq!(
        json(&empty.into_value()),
        r#"{"type":"Modify","object_kind":"CaptureBase","content":{}}"#
    );
    let from = Command::from_bundle("E2oRZ5zEKxTfTdECW-v2Q7bM_H0OD0ko7IcCwdo_u9co".to_string());
    assert_eq!(
        json(&from.into_value()),
        r#"{"type":"From","object_kind":"CaptureBase","said":"E2oRZ5zEKxTfTdECW-v2Q7bM_H0OD0ko7IcCwdo_u9co"}"#
    );
}

#[test]
fn overlay_payload_is_a_flat_merge() {
    let command = Command::overlay(
        CommandType::Add,
        OverlayType::CharacterEncoding,
        Some(OverlayContent {
            capture_base_id: Some("base".to_string()),
            properties: Some(map_of(vec![("lang", text("en"))])),
            body: Some(map_of(vec![("name", text("utf-8"))])),
        }),
    );
    assert_eq!(
        json(&command.into_value()),
        r#"{"type":"Add","object_kind":"CharacterEncoding","content":{"capture_base_id":"base","properties":{"lang":"en"},"body":{"name":"utf-8"}}}"#
    );
    let partial = Command::overlay(
        CommandType::Add,
        OverlayType::Meta,
        Some(OverlayContent { capture_base_id: None, properties: None, body: Some(ValueMap::new()) }),
    );
    assert_eq!(
        json(&partial.into_value()),
        r#"{"type":"Add","object_kind":"Meta","content":{"body":{}}}"#
    );
}

fn sample_log() -> OCAAst {
    let mut ast = OCAAst::with_version("1.0.0".to_string());
    ast.append(Command::from_bundle("E2oRZ5zEKxTfTdECW-v2Q7bM_H0OD0ko7IcCwdo_u9co".to_string()));
    ast.append(sample_command());
    ast.append(Command::capture_base(CommandType::Remove, None));
    ast.append(Command::overlay(
        CommandType::Add,
        OverlayType::Label,
        Some(OverlayContent {
            capture_base_id: Some("base".to_string()),
            properties: Some(map_of(vec![("lang", text("en"))])),
            body: Some(map_of(vec![
                ("name", text("Name")),
                ("list", NestedValue::Array(vec![text("a"), NestedValue::Reference("b".to_string())])),
            ])),
        }),
    ));
    ast.append(Command::overlay(CommandType::Modify, OverlayType::Sensitivity, None));
    ast
}

#[test]
fn a_log_survives_the_round_trip() {
    let ast = sample_log();
    let back = OCAAst::from_value(ast.clone().into_value()).unwrap();
    assert_eq!(back.version, ast.version);
    assert_eq!(back.commands, ast.commands);
    assert_eq!(back, ast);
}

#[test]
fn every_kind_of_target_survives_the_round_trip() {
    let overlays = [
        OverlayType::Label,
        OverlayType::Information,
        OverlayType::Encoding,
        OverlayType::CharacterEncoding,
        OverlayType::Format,
        OverlayType::Meta,
        OverlayType::Standard,
        OverlayType::Cardinality,
        OverlayType::Conditional,
        OverlayType::Conformance,
        OverlayType::EntryCode,
        OverlayType::Entry,
        OverlayType::Unit,
        OverlayType::AttributeMapping,
        OverlayType::EntryCodeMapping,
        OverlayType::Subset,
        OverlayType::UnitMapping,
        OverlayType::Layout,
        OverlayType::Sensitivity,
    ];
    for overlay in overlays {
        for kind in [CommandType::Add, CommandType::Remove, CommandType::Modify] {
            let command = Command::overlay(kind, overlay, None);
            assert_eq!(Command::from_value(command.clone().into_value()), Some(command));
        }
        assert_eq!(OverlayType::from_name(overlay.name()), Some(overlay));
        assert_eq!(ObjectKind::from_name(overlay.name()), Some(ObjectKind::Overlay(overlay)));
    }
    assert_eq!(ObjectKind::from_name("CaptureBase"), Some(ObjectKind::CaptureBase));
    assert_eq!(ObjectKind::from_name("capturebase"), None);
    assert_eq!(CommandType::from_name("Add"), Some(CommandType::Add));
    assert_eq!(CommandType::from_name("ADD"), None);
}

#[test]
fn what_is_no_command_is_not_read() {
    assert_eq!(Command::from_value(text("Add")), None);
    assert_eq!(Command::from_value(NestedValue::Object(ValueMap::new())), None);
    let no_target = map_of(vec![("type", text("Add"))]);
    assert_eq!(Command::from_value(NestedValue::Object(no_target)), None);
    let bad_kind = map_of(vec![("type", text("Drop")), ("object_kind", text("CaptureBase"))]);
    assert_eq!(Command::from_value(NestedValue::Object(bad_kind)), None);
    let bad_content = map_of(vec![
        ("type", text("Add")),
        ("object_kind", text("CaptureBase")),
        ("content", text("flat")),
    ]);
    assert_eq!(Command::from_value(NestedValue::Object(bad_content)), None);
    let bad_map = map_of(vec![
        ("type", text("Add")),
        ("object_kind", text("CaptureBase")),
        ("content", NestedValue::Object(map_of(vec![("attributes", text("flat"))]))),
    ]);
    assert_eq!(Command::from_value(NestedValue::Object(bad_map)), None);
}

#[test]
fn what_is_no_log_is_not_read() {
    assert_eq!(OCAAst::from_value(text("log")), None);
    let no_commands = map_of(vec![("version", text("1.0"))]);
    assert_eq!(OCAAst::from_value(NestedValue::Object(no_commands)), None);
    let bad_command = map_of(vec![
        ("version", text("1.0")),
        ("commands", NestedValue::Array(vec![sample_command().into_value(), text("x")])),
    ]);
    assert_eq!(OCAAst::from_value(NestedValue::Object(bad_command)), None);
    let empty = map_of(vec![("commands", NestedValue::Array(vec![])), ("version", text("2"))]);
    assert_eq!(
        OCAAst::from_value(NestedValue::Object(empty)),
        Some(OCAAst::with_version("2".to_string()))
    );
}

#[test]
fn the_map_keeps_insertion_order_and_replaces_in_place() {
    let mut map = ValueMap::new();
    assert_eq!(map.len(), 0);
    assert_eq!(map.insert("b".to_string(), text("1")), None);
    assert_eq!(map.insert("a".to_string(), text("2")), None);
    assert_eq!(map.insert("b".to_string(), text("3")), Some(text("1")));
    assert_eq!(map.len(), 2);
    assert_eq!(map.key_at(0).unwrap(), "b");
    assert_eq!(map.value_at(0), Some(&text("3")));
    assert_eq!(map.key_at(1).unwrap(), "a");
    assert_eq!(map.key_at(2), None);
    assert_eq!(map.value_at(2), None);
    assert!(map.contains_key("a"));
    assert!(!map.contains_key("c"));
    assert_eq!(map.take("c"), None);
    assert_eq!(map.take("b"), Some(text("3")));
    assert_eq!(map.len(), 1);
    assert_eq!(map.key_at(0).unwrap(), "a");
    let copy = map.clone();
    assert_eq!(copy, map);
}

#[test]
fn values_are_equal_tree_by_tree() {
    let tree = NestedValue::Array(vec![
        text("a"),
        NestedValue::Object(map_of(vec![("k", NestedValue::Reference("r".to_string()))])),
    ]);
    let copy = tree.duplicate();
    assert_eq!(copy, tree);
    assert_eq!(tree.clone(), tree);
    assert_ne!(NestedValue::Reference("a".to_string()), text("a"));
}
