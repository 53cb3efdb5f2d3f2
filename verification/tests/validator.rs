use ocaast::validator::{
    current_attributes, rule_add_if_absent, rule_attribute_types, rule_modify_if_exist,
    rule_remove_if_exist, validate_1_0_0,
};
use ocaast::{
    CaptureBaseContent, Command, CommandType, Error, NestedValue, OCAAst, OCAValidator,
    ObjectContent, ObjectKind, OverlayContent, OverlayType, RuleKind, ValidationError, Validator,
    ValueMap,
};

fn attrs(pairs: &[(&str, &str)]) -> ValueMap {
    let mut map = ValueMap::new();
    for (name, value) in pairs {
        map.insert(name.to_string(), NestedValue::Value(value.to_string()));
    }
    map
}

fn capture_base(kind: CommandType, pairs: &[(&str, &str)]) -> Command {
    Command {
        kind,
        object_kind: ObjectKind::CaptureBase,
        content: Some(ObjectContent::CaptureBase(CaptureBaseContent {
            attributes: Some(attrs(pairs)),
            properties: None,
        })),
        said: None,
    }
}

fn log_1_0_0(commands: Vec<Command>) -> OCAAst {
    let mut ast = OCAAst::with_version("1.0.0".to_string());
    for command in commands {
        ast.append(command);
    }
    ast
}

fn violation(rule: RuleKind, name: &str) -> ValidationError {
    ValidationError::RuleViolation(rule, name.to_string())
}

#[test]
fn test_rule_remove_if_exist() {
    let command = capture_base(
        CommandType::Add,
        &[("name", "Text"), ("documentType", "Text"), ("photo", "Binary")],
    );
    let command2 = capture_base(CommandType::Add, &[("issuer", "Text"), ("last_name", "Binary")]);
    let remove_command = capture_base(CommandType::Remove, &[("name", ""), ("issuer", "")]);
    let remove_command2 = capture_base(CommandType::Remove, &[("name", ""), ("photo", "")]);

    let mut ocaast = OCAAst::new();
    ocaast.commands.push(command);
    ocaast.commands.push(command2);
    let mut result = rule_remove_if_exist(&ocaast, remove_command.clone());
    assert!(result.is_ok());
    ocaast.commands.push(remove_command2);
    result = rule_remove_if_exist(&ocaast, remove_command);
    assert!(result.is_err());
}

#[test]
fn remove_rule_reports_each_missing_name_in_order() {
    let ast = log_1_0_0(vec![capture_base(CommandType::Add, &[("b", "Text")])]);
    let command = capture_base(CommandType::Remove, &[("a", ""), ("b", ""), ("c", "")]);
    assert_eq!(
        rule_remove_if_exist(&ast, command),
        Err(Error::Validation(vec![
            violation(RuleKind::RemoveExistence, "a"),
            violation(RuleKind::RemoveExistence, "c"),
        ]))
    );
}

#[test]
fn duplicate_add_is_rejected() {
    let ast = log_1_0_0(vec![capture_base(CommandType::Add, &[("name", "Text")])]);
    let command = capture_base(CommandType::Add, &[("name", "Numeric")]);
    let result = OCAValidator {}.validate(&ast, command);
    assert_eq!(
        result,
        Err(Error::Validation(vec![violation(RuleKind::AddUniqueness, "name")]))
    );
}

#[test]
fn premature_remove_is_rejected() {
    let ast = log_1_0_0(vec![]);
    let command = capture_base(CommandType::Remove, &[("ghost", "")]);
    let result = OCAValidator {}.validate(&ast, command);
    assert_eq!(
        result,
        Err(Error::Validation(vec![violation(RuleKind::RemoveExistence, "ghost")]))
    );
}

#[test]
fn valid_remove_is_accepted_and_leaves_issuer() {
    let mut ast = log_1_0_0(vec![capture_base(
        CommandType::Add,
        &[("name", "Text"), ("issuer", "Text")],
    )]);
    let command = capture_base(CommandType::Remove, &[("name", "")]);
    assert_eq!(OCAValidator {}.validate(&ast, command.clone()), Ok(true));
    ast.append(command);
    assert_eq!(current_attributes(&ast), vec!["issuer".to_string()]);
}

#[test]
fn empty_version_is_missing_version() {
    let ast = OCAAst::with_version(String::new());
    let result = OCAValidator {}.validate(&ast, capture_base(CommandType::Add, &[("a", "Text")]));
    assert_eq!(result, Err(Error::Validation(vec![ValidationError::MissingVersion])));
    let mut full = OCAAst::with_version(String::new());
    full.append(capture_base(CommandType::Add, &[("a", "Text")]));
    let again = OCAValidator {}.validate(&full, capture_base(CommandType::Remove, &[("a", "")]));
    assert_eq!(again, Err(Error::Validation(vec![ValidationError::MissingVersion])));
}

#[test]
fn unknown_version_is_invalid_version() {
    let ast = OCAAst::with_version("9.9.9".to_string());
    let result = OCAValidator {}.validate(&ast, capture_base(CommandType::Add, &[("a", "Text")]));
    assert_eq!(
        result,
        Err(Error::Validation(vec![ValidationError::InvalidVersion("9.9.9".to_string())]))
    );
}

#[test]
fn new_log_has_a_version_without_rule_set() {
    let ast = OCAAst::new();
    assert_eq!(ast.version, "1.0");
    assert!(ast.commands.is_empty());
    let result = OCAValidator {}.validate(&ast, capture_base(CommandType::Add, &[("a", "Text")]));
    assert_eq!(
        result,
        Err(Error::Validation(vec![ValidationError::InvalidVersion("1.0".to_string())]))
    );
}

#[test]
fn modify_needs_live_attributes() {
    let ast = log_1_0_0(vec![capture_base(CommandType::Add, &[("name", "Text")])]);
    let good = capture_base(CommandType::Modify, &[("name", "Numeric")]);
    assert_eq!(validate_1_0_0(&ast, good), Ok(true));
    let bad = capture_base(CommandType::Modify, &[("age", "Numeric")]);
    assert_eq!(
        rule_modify_if_exist(&ast, bad.clone()),
        Err(Error::Validation(vec![violation(RuleKind::ModifyExistence, "age")]))
    );
    assert_eq!(
        validate_1_0_0(&ast, bad),
        Err(Error::Validation(vec![violation(RuleKind::ModifyExistence, "age")]))
    );
}

#[test]
fn attribute_values_must_name_a_type() {
    let ast = log_1_0_0(vec![]);
    let mut map = attrs(&[("a", "Text"), ("b", "Random"), ("c", "Array[Numeric]"), ("d", "text")]);
    map.insert("e".to_string(), NestedValue::Reference("Text".to_string()));
    let command = Command {
        kind: CommandType::Add,
        object_kind: ObjectKind::CaptureBase,
        content: Some(ObjectContent::CaptureBase(CaptureBaseContent {
            attributes: Some(map),
            properties: None,
        })),
        said: None,
    };
    let expected = Err(Error::Validation(vec![
        violation(RuleKind::AttributeType, "b"),
        violation(RuleKind::AttributeType, "d"),
        violation(RuleKind::AttributeType, "e"),
    ]));
    assert_eq!(rule_attribute_types(command.clone()), expected);
    assert_eq!(validate_1_0_0(&ast, command), expected);
}

#[test]
fn existence_findings_come_before_type_findings() {
    let ast = log_1_0_0(vec![capture_base(CommandType::Add, &[("b", "Text")])]);
    let command = capture_base(CommandType::Add, &[("a", "Nope"), ("b", "Text")]);
    assert_eq!(
        validate_1_0_0(&ast, command.clone()),
        Err(Error::Validation(vec![
            violation(RuleKind::AddUniqueness, "b"),
            violation(RuleKind::AttributeType, "a"),
        ]))
    );
    assert_eq!(
        rule_add_if_absent(&ast, command),
        Err(Error::Validation(vec![violation(RuleKind::AddUniqueness, "b")]))
    );
}

#[test]
fn overlay_commands_do_not_touch_the_attribute_set() {
    let mut ast = log_1_0_0(vec![capture_base(CommandType::Add, &[("name", "Text")])]);
    ast.append(Command {
        kind: CommandType::Remove,
        object_kind: ObjectKind::Overlay(OverlayType::Label),
        content: Some(ObjectContent::Overlay(OverlayContent {
            capture_base_id: None,
            properties: Some(attrs(&[("name", "")])),
            body: Some(attrs(&[("name", "")])),
        })),
        said: None,
    });
    assert_eq!(current_attributes(&ast), vec!["name".to_string()]);
}

#[test]
fn attribute_set_follows_adds_and_removes_in_log_order() {
    let ast = log_1_0_0(vec![
        capture_base(CommandType::Add, &[("a", "Text"), ("b", "Text")]),
        capture_base(CommandType::Remove, &[("a", "")]),
        capture_base(CommandType::Add, &[("c", "Text"), ("a", "Numeric")]),
        capture_base(CommandType::Remove, &[("b", ""), ("z", "")]),
        capture_base(CommandType::Modify, &[("c", "Numeric")]),
    ]);
    assert_eq!(current_attributes(&ast), vec!["c".to_string(), "a".to_string()]);
}

#[test]
fn validating_twice_gives_the_same_verdict() {
    let ast = log_1_0_0(vec![capture_base(CommandType::Add, &[("name", "Text")])]);
    let command = capture_base(CommandType::Add, &[("name", "Text"), ("x", "Y")]);
    let first = OCAValidator {}.validate(&ast, command.clone());
    let second = OCAValidator {}.validate(&ast, command);
    assert_eq!(first, second);
    assert!(first.is_err());
}
