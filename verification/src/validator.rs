//! Replaying a log to decide whether a command may follow it.
//!
//! Nothing is kept between two validations: the set of live attributes is
//! folded from the log each time, so a verdict depends on the log and the
//! command alone.

use vstd::prelude::*;
use crate::ast::{AttributeType, Command, CommandType, OCAAst, ObjectKind};
use crate::error::{findings_view, Error, ErrorView, RuleKind, ValidationError, ValidationErrorView};
use crate::text::str_eq;
use crate::value::{has_key, NestedValue, ValueMap};

verus! {

/// The names among the entries of a map.
pub open spec fn entry_names(entries: Seq<(Seq<char>, NestedValue)>) -> Set<Seq<char>> {
    Set::new(|name: Seq<char>| has_key(entries, name))
}

/// The live attributes after one more command: an `Add` on the capture base
/// joins its names to them, a `Remove` on the capture base takes its names
/// away, and any other command leaves them as they are.
pub open spec fn live_after(live: Set<Seq<char>>, command: Command) -> Set<Seq<char>> {
    if command.object_kind == ObjectKind::CaptureBase && command.kind == CommandType::Add {
        live.union(entry_names(command.attribute_entries()))
    } else if command.object_kind == ObjectKind::CaptureBase && command.kind
        == CommandType::Remove {
        live.difference(entry_names(command.attribute_entries()))
    } else {
        live
    }
}

/// The attributes that are live after the commands of a log, applied in
/// order from nothing.
pub open spec fn live_attributes(commands: Seq<Command>) -> Set<Seq<char>>
    decreases commands.len(),
{
    if commands.len() == 0 {
        Set::empty()
    } else {
        live_after(live_attributes(commands.drop_last()), commands.last())
    }
}

/// The names that a list of strings holds.
pub open spec fn listed(names: Seq<String>) -> Set<Seq<char>> {
    Set::new(|name: Seq<char>| exists|i: int| 0 <= i < names.len() && (#[trigger] names[i])@ == name)
}

/// No name stands twice in the list.
pub open spec fn distinct(names: Seq<String>) -> bool {
    forall|i: int, j: int| 0 <= i < j < names.len() ==> (#[trigger] names[i])@ != (#[trigger] names[j])@
}

/// Whether a list of names holds the given one.
pub fn holds_name(names: &Vec<String>, name: &str) -> (found: bool)
    ensures
        found == listed(names@).contains(name@),
{
    let mut i: usize = 0;
    while i < names.len()
        invariant
            i <= names.len(),
            forall|j: int| 0 <= j < i ==> (#[trigger] names@[j])@ != name@,
        decreases names.len() - i,
    {
        if str_eq(names[i].as_str(), name) {
            return true;
        }
        i = i + 1;
    }
    false
}

/// Joins the names of a map to a list of names, each once.
fn join_names(live: &mut Vec<String>, attributes: &ValueMap)
    ensures
        listed(final(live)@) == listed(old(live)@).union(entry_names(attributes.entries())),
        distinct(old(live)@) ==> distinct(final(live)@),
{
    let ghost entries = attributes.entries();
    let ghost before = live@;
    let n = attributes.len();
    let mut i: usize = 0;
    while i < n
        invariant
            i <= n,
            n == entries.len(),
            entries == attributes.entries(),
            listed(live@) == listed(before).union(entry_names(entries.take(i as int))),
            distinct(before) ==> distinct(live@),
        decreases n - i,
    {
        let ghost start = live@;
        let key = attributes.key_at(i).unwrap();
        if !holds_name(live, key.as_str()) {
            live.push(key.clone());
            assert(live@[start.len() as int]@ == key@);
            assert forall|j: int, k: int| 0 <= j < k < live@.len() && distinct(start) implies (
            #[trigger] live@[j])@ != (#[trigger] live@[k])@ by {
                if k < start.len() {
                    assert(start[j]@ != start[k]@);
                } else {
                    assert(live@[j] == start[j]);
                    assert(listed(start).contains(start[j]@));
                }
            }
        }
        proof {
            let grown = entries.take(i as int + 1);
            let shorter = entries.take(i as int);
            assert(grown[i as int].0 == key@);
            assert forall|name: Seq<char>|
                listed(live@).contains(name) <==> listed(before).union(entry_names(grown)).contains(
                    name,
                ) by {
                if listed(live@).contains(name) {
                    let j = choose|j: int| 0 <= j < live@.len() && (#[trigger] live@[j])@ == name;
                    if j < start.len() {
                        assert(start[j]@ == name);
                        assert(listed(start).contains(name));
                        if has_key(shorter, name) {
                            let k = choose|k: int| 0 <= k < shorter.len() && (#[trigger] shorter[k]).0 == name;
                            assert(grown[k].0 == name);
                        }
                    } else {
                        assert(name == key@);
                    }
                }
                if listed(before).contains(name) {
                    assert(listed(start).contains(name));
                    let j = choose|j: int| 0 <= j < start.len() && (#[trigger] start[j])@ == name;
                    assert(live@[j]@ == name);
                }
                if has_key(grown, name) {
                    let k = choose|k: int| 0 <= k < grown.len() && (#[trigger] grown[k]).0 == name;
                    if k < i {
                        assert(shorter[k].0 == name);
                        assert(listed(start).contains(name));
                        let j = choose|j: int| 0 <= j < start.len() && (#[trigger] start[j])@ == name;
                        assert(live@[j]@ == name);
                    } else {
                        assert(name == key@);
                        if listed(start).contains(name) {
                            let j = choose|j: int| 0 <= j < start.len() && (#[trigger] start[j])@ == name;
                            assert(live@[j]@ == name);
                        } else {
                            assert(live@[start.len() as int]@ == name);
                        }
                    }
                }
            }
            assert(listed(live@) =~= listed(before).union(entry_names(grown)));
        }
        i = i + 1;
    }
    proof {
        assert(entries.take(n as int) =~= entries);
    }
}

/// The names of a list that a map does not hold, in their order.
fn drop_names(live: &Vec<String>, attributes: &ValueMap) -> (kept: Vec<String>)
    ensures
        listed(kept@) == listed(live@).difference(entry_names(attributes.entries())),
        distinct(live@) ==> distinct(kept@),
{
    let ghost removed = entry_names(attributes.entries());
    let mut kept: Vec<String> = Vec::new();
    let ghost mut origin: Seq<int> = Seq::empty();
    let mut i: usize = 0;
    while i < live.len()
        invariant
            i <= live.len(),
            removed == entry_names(attributes.entries()),
            origin.len() == kept@.len(),
            forall|k: int| 0 <= k < kept@.len() ==> 0 <= #[trigger] origin[k] < i && kept@[k]@
                == live@[origin[k]]@ && !removed.contains(kept@[k]@),
            forall|k: int, l: int| 0 <= k < l < origin.len() ==> #[trigger] origin[k] < #[trigger] origin[l],
            forall|j: int| 0 <= j < i && !removed.contains(live@[j]@) ==> listed(kept@).contains(
                (#[trigger] live@[j])@,
            ),
        decreases live.len() - i,
    {
        let ghost start = kept@;
        if !attributes.contains_key(live[i].as_str()) {
            kept.push(live[i].clone());
            proof {
                origin = origin.push(i as int);
                assert(kept@[start.len() as int]@ == live@[i as int]@);
            }
        }
        proof {
            assert forall|j: int| 0 <= j <= i && !removed.contains(live@[j]@) implies listed(
                kept@,
            ).contains((#[trigger] live@[j])@) by {
                if j < i {
                    assert(listed(start).contains(live@[j]@));
                    let k = choose|k: int| 0 <= k < start.len() && (#[trigger] start[k])@ == live@[j]@;
                    assert(kept@[k]@ == live@[j]@);
                } else {
                    assert(kept@[start.len() as int]@ == live@[j]@);
                }
            }
        }
        i = i + 1;
    }
    proof {
        assert forall|name: Seq<char>|
            listed(kept@).contains(name) <==> listed(live@).difference(removed).contains(name) by {
            if listed(kept@).contains(name) {
                let k = choose|k: int| 0 <= k < kept@.len() && (#[trigger] kept@[k])@ == name;
                assert(live@[origin[k]]@ == name);
            }
            if listed(live@).contains(name) && !removed.contains(name) {
                let j = choose|j: int| 0 <= j < live@.len() && (#[trigger] live@[j])@ == name;
                assert(listed(kept@).contains(live@[j]@));
            }
        }
        assert(listed(kept@) =~= listed(live@).difference(removed));
        if distinct(live@) {
            assert forall|k: int, l: int| 0 <= k < l < kept@.len() implies (#[trigger] kept@[k])@ != (
            #[trigger] kept@[l])@ by {
                assert(origin[k] < origin[l]);
                assert(live@[origin[k]]@ != live@[origin[l]]@);
            }
        }
    }
    kept
}

/// The live attributes after one more command.
fn apply_command(live: Vec<String>, command: &Command) -> (next: Vec<String>)
    ensures
        listed(next@) == live_after(listed(live@), *command),
        distinct(live@) ==> distinct(next@),
{
    match command.attributes() {
        Some(attributes) => {
            match command.kind {
                CommandType::Add => {
                    let mut next = live;
                    join_names(&mut next, attributes);
                    next
                },
                CommandType::Remove => drop_names(&live, attributes),
                _ => live,
            }
        },
        None => {
            proof {
                assert(entry_names(command.attribute_entries()) =~= Set::<Seq<char>>::empty());
                assert(listed(live@).union(Set::<Seq<char>>::empty()) =~= listed(live@));
                assert(listed(live@).difference(Set::<Seq<char>>::empty()) =~= listed(live@));
            }
            live
        },
    }
}

/// The attributes that are live after the whole log, each once.
pub fn current_attributes(ast: &OCAAst) -> (live: Vec<String>)
    ensures
        listed(live@) == live_attributes(ast.commands@),
        distinct(live@),
{
    let mut live: Vec<String> = Vec::new();
    let mut i: usize = 0;
    proof {
        assert(ast.commands@.take(0) =~= Seq::<Command>::empty());
        assert(listed(live@) =~= Set::<Seq<char>>::empty());
    }
    while i < ast.commands.len()
        invariant
            i <= ast.commands.len(),
            listed(live@) == live_attributes(ast.commands@.take(i as int)),
            distinct(live@),
        decreases ast.commands.len() - i,
    {
        proof {
            let grown = ast.commands@.take(i as int + 1);
            assert(grown.drop_last() =~= ast.commands@.take(i as int));
            assert(grown.last() == ast.commands@[i as int]);
        }
        live = apply_command(live, &ast.commands[i]);
        i = i + 1;
    }
    proof {
        assert(ast.commands@.take(i as int) =~= ast.commands@);
    }
    live
}

/// The findings of an existence rule: one for each name, in the order of the
/// entries, whose being live differs from what the rule expects.
pub open spec fn liveness_findings(
    entries: Seq<(Seq<char>, NestedValue)>,
    live: Set<Seq<char>>,
    expected: bool,
    rule: RuleKind,
) -> Seq<ValidationErrorView>
    decreases entries.len(),
{
    if entries.len() == 0 {
        Seq::empty()
    } else {
        let earlier = liveness_findings(entries.drop_last(), live, expected, rule);
        if live.contains(entries.last().0) != expected {
            earlier.push(ValidationErrorView::RuleViolation(rule, entries.last().0))
        } else {
            earlier
        }
    }
}

/// Whether a value names an attribute type: it is a literal, and the literal
/// is one of the type names.
pub open spec fn names_type(value: NestedValue) -> bool {
    value matches NestedValue::Value(token) && AttributeType::spec_from_name(token@) is Some
}

/// The findings of the type rule: one for each entry, in order, whose value
/// names no attribute type.
pub open spec fn type_findings(entries: Seq<(Seq<char>, NestedValue)>) -> Seq<ValidationErrorView>
    decreases entries.len(),
{
    if entries.len() == 0 {
        Seq::empty()
    } else {
        let earlier = type_findings(entries.drop_last());
        if !names_type(entries.last().1) {
            earlier.push(
                ValidationErrorView::RuleViolation(RuleKind::AttributeType, entries.last().0),
            )
        } else {
            earlier
        }
    }
}

/// What a list of findings amounts to: acceptance when there is none, and
/// otherwise all of them together.
pub open spec fn verdict_of(findings: Seq<ValidationErrorView>) -> Result<bool, ErrorView> {
    if findings.len() == 0 {
        Ok(true)
    } else {
        Err(ErrorView::Validation(findings))
    }
}

/// Whether a result is the given verdict.
pub open spec fn is_verdict(result: Result<bool, Error>, verdict: Result<bool, ErrorView>) -> bool {
    match result {
        Ok(accepted) => verdict == Ok::<bool, ErrorView>(accepted),
        Err(error) => verdict == Err::<bool, ErrorView>(error@),
    }
}

/// Appends the findings of an existence rule to a list of findings.
fn check_liveness(
    live: &Vec<String>,
    attributes: &ValueMap,
    expected: bool,
    rule: RuleKind,
    findings: &mut Vec<ValidationError>,
)
    ensures
        findings_view(final(findings)@) == findings_view(old(findings)@) + liveness_findings(
            attributes.entries(),
            listed(live@),
            expected,
            rule,
        ),
{
    let ghost entries = attributes.entries();
    let ghost before = findings_view(findings@);
    let n = attributes.len();
    let mut i: usize = 0;
    proof {
        assert(before + liveness_findings(entries.take(0), listed(live@), expected, rule) =~= before);
    }
    while i < n
        invariant
            i <= n,
            n == entries.len(),
            entries == attributes.entries(),
            findings_view(findings@) == before + liveness_findings(
                entries.take(i as int),
                listed(live@),
                expected,
                rule,
            ),
        decreases n - i,
    {
        let ghost start = findings@;
        let key = attributes.key_at(i).unwrap();
        proof {
            let grown = entries.take(i as int + 1);
            assert(grown.drop_last() =~= entries.take(i as int));
            assert(grown.last().0 == key@);
        }
        if holds_name(live, key.as_str()) != expected {
            findings.push(ValidationError::RuleViolation(rule, key.clone()));
            proof {
                assert(findings_view(findings@) =~= findings_view(start).push(
                    ValidationErrorView::RuleViolation(rule, key@),
                ));
            }
        }
        proof {
            assert(findings_view(findings@) =~= before + liveness_findings(
                entries.take(i as int + 1),
                listed(live@),
                expected,
                rule,
            ));
        }
        i = i + 1;
    }
    proof {
        assert(entries.take(n as int) =~= entries);
    }
}

/// Whether a value names an attribute type.
pub fn value_names_type(value: &NestedValue) -> (named: bool)
    ensures
        named == names_type(*value),
{
    match value {
        NestedValue::Value(token) => AttributeType::from_name(token.as_str()).is_some(),
        _ => false,
    }
}

/// Appends the findings of the type rule to a list of findings.
fn check_types(attributes: &ValueMap, findings: &mut Vec<ValidationError>)
    ensures
        findings_view(final(findings)@) == findings_view(old(findings)@) + type_findings(
            attributes.entries(),
        ),
{
    let ghost entries = attributes.entries();
    let ghost before = findings_view(findings@);
    let n = attributes.len();
    let mut i: usize = 0;
    proof {
        assert(before + type_findings(entries.take(0)) =~= before);
    }
    while i < n
        invariant
            i <= n,
            n == entries.len(),
            entries == attributes.entries(),
            findings_view(findings@) == before + type_findings(entries.take(i as int)),
        decreases n - i,
    {
        let ghost start = findings@;
        let key = attributes.key_at(i).unwrap();
        let value = attributes.value_at(i).unwrap();
        proof {
            let grown = entries.take(i as int + 1);
            assert(grown.drop_last() =~= entries.take(i as int));
            assert(grown.last().0 == key@);
            assert(grown.last().1 == *value);
        }
        if !value_names_type(value) {
            findings.push(ValidationError::RuleViolation(RuleKind::AttributeType, key.clone()));
            proof {
                assert(findings_view(findings@) =~= findings_view(start).push(
                    ValidationErrorView::RuleViolation(RuleKind::AttributeType, key@),
                ));
            }
        }
        proof {
            assert(findings_view(findings@) =~= before + type_findings(entries.take(i as int + 1)));
        }
        i = i + 1;
    }
    proof {
        assert(entries.take(n as int) =~= entries);
    }
}

/// Turns a list of findings into a verdict.
pub fn conclude(findings: Vec<ValidationError>) -> (result: Result<bool, Error>)
    ensures
        is_verdict(result, verdict_of(findings_view(findings@))),
{
    if findings.len() == 0 {
        Ok(true)
    } else {
        Err(Error::Validation(findings))
    }
}

/// The findings of the rule set `1.0.0` for a command, given the attributes
/// that are live before it. An `Add` must name no live attribute, a `Remove`
/// and a `Modify` only live ones, and what an `Add` or a `Modify` gives an
/// attribute must name a type. The existence findings come first.
pub open spec fn findings_for(live: Set<Seq<char>>, command: Command) -> Seq<ValidationErrorView> {
    let entries = command.attribute_entries();
    match command.kind {
        CommandType::Add => liveness_findings(entries, live, false, RuleKind::AddUniqueness)
            + type_findings(entries),
        CommandType::Remove => liveness_findings(entries, live, true, RuleKind::RemoveExistence),
        CommandType::Modify => liveness_findings(entries, live, true, RuleKind::ModifyExistence)
            + type_findings(entries),
        CommandType::From => Seq::empty(),
    }
}

/// The findings of the rule set `1.0.0` for a command that is to follow the
/// given commands.
pub open spec fn findings_1_0_0(commands: Seq<Command>, command: Command) -> Seq<
    ValidationErrorView,
> {
    findings_for(live_attributes(commands), command)
}

/// The findings of the rule set `1.0.0` for a whole log: those of each
/// command against the commands before it, in log order.
pub open spec fn log_findings(commands: Seq<Command>) -> Seq<ValidationErrorView>
    decreases commands.len(),
{
    if commands.len() == 0 {
        Seq::empty()
    } else {
        log_findings(commands.drop_last()) + findings_1_0_0(
            commands.drop_last(),
            commands.last(),
        )
    }
}

/// The version tag whose rule set is known.
pub open spec fn known_version() -> Seq<char> {
    "1.0.0"@
}

/// The verdict on a command that is to follow a log. An empty version tag
/// and an unknown one are each reported alone, before any rule is looked at.
pub open spec fn verdict(version: Seq<char>, commands: Seq<Command>, command: Command) -> Result<
    bool,
    ErrorView,
> {
    if version.len() == 0 {
        Err(ErrorView::Validation(seq![ValidationErrorView::MissingVersion]))
    } else if version != known_version() {
        Err(ErrorView::Validation(seq![ValidationErrorView::InvalidVersion(version)]))
    } else {
        verdict_of(findings_1_0_0(commands, command))
    }
}

/// The verdict on a whole log, each command taken against the commands
/// before it. The version tag is looked at first, as for a single command.
pub open spec fn log_verdict(version: Seq<char>, commands: Seq<Command>) -> Result<
    bool,
    ErrorView,
> {
    if version.len() == 0 {
        Err(ErrorView::Validation(seq![ValidationErrorView::MissingVersion]))
    } else if version != known_version() {
        Err(ErrorView::Validation(seq![ValidationErrorView::InvalidVersion(version)]))
    } else {
        verdict_of(log_findings(commands))
    }
}

/// Checks that every attribute the command names is live after the log.
/// Each name that is not is reported, in the command's order.
pub fn rule_remove_if_exist(ast: &OCAAst, command: Command) -> (result: Result<bool, Error>)
    ensures
        is_verdict(
            result,
            verdict_of(
                liveness_findings(
                    command.attribute_entries(),
                    live_attributes(ast.commands@),
                    true,
                    RuleKind::RemoveExistence,
                ),
            ),
        ),
{
    rule_liveness(ast, &command, true, RuleKind::RemoveExistence)
}

/// Checks that no attribute the command names is live after the log. Each
/// name that is live is reported, in the command's order.
pub fn rule_add_if_absent(ast: &OCAAst, command: Command) -> (result: Result<bool, Error>)
    ensures
        is_verdict(
            result,
            verdict_of(
                liveness_findings(
                    command.attribute_entries(),
                    live_attributes(ast.commands@),
                    false,
                    RuleKind::AddUniqueness,
                ),
            ),
        ),
{
    rule_liveness(ast, &command, false, RuleKind::AddUniqueness)
}

/// Checks that every attribute the command names is live after the log, on
/// behalf of a modification.
pub fn rule_modify_if_exist(ast: &OCAAst, command: Command) -> (result: Result<bool, Error>)
    ensures
        is_verdict(
            result,
            verdict_of(
                liveness_findings(
                    command.attribute_entries(),
                    live_attributes(ast.commands@),
                    true,
                    RuleKind::ModifyExistence,
                ),
            ),
        ),
{
    rule_liveness(ast, &command, true, RuleKind::ModifyExistence)
}

/// Checks that what the command gives each attribute names a type. Each
/// attribute for which it does not is reported, in the command's order.
pub fn rule_attribute_types(command: Command) -> (result: Result<bool, Error>)
    ensures
        is_verdict(result, verdict_of(type_findings(command.attribute_entries()))),
{
    let mut findings: Vec<ValidationError> = Vec::new();
    proof {
        assert(findings_view(findings@) =~= Seq::<ValidationErrorView>::empty());
    }
    match command.attributes() {
        Some(attributes) => {
            check_types(attributes, &mut findings);
            proof {
                assert(Seq::<ValidationErrorView>::empty() + type_findings(attributes.entries())
                    =~= type_findings(attributes.entries()));
            }
        },
        None => {},
    }
    conclude(findings)
}

/// One existence rule on one command.
fn rule_liveness(ast: &OCAAst, command: &Command, expected: bool, rule: RuleKind) -> (result: Result<
    bool,
    Error,
>)
    ensures
        is_verdict(
            result,
            verdict_of(
                liveness_findings(
                    command.attribute_entries(),
                    live_attributes(ast.commands@),
                    expected,
                    rule,
                ),
            ),
        ),
{
    let mut findings: Vec<ValidationError> = Vec::new();
    proof {
        assert(findings_view(findings@) =~= Seq::<ValidationErrorView>::empty());
    }
    match command.attributes() {
        Some(attributes) => {
            let live = current_attributes(ast);
            check_liveness(&live, attributes, expected, rule, &mut findings);
            proof {
                let found = liveness_findings(attributes.entries(), listed(live@), expected, rule);
                assert(Seq::<ValidationErrorView>::empty() + found =~= found);
            }
        },
        None => {},
    }
    conclude(findings)
}

/// Appends to a list of findings what the rule set `1.0.0` finds in a
/// command, given the attributes that are live before it.
fn check_command(live: &Vec<String>, command: &Command, findings: &mut Vec<ValidationError>)
    ensures
        findings_view(final(findings)@) == findings_view(old(findings)@) + findings_for(
            listed(live@),
            *command,
        ),
{
    let ghost before = findings_view(findings@);
    let ghost none = Seq::<ValidationErrorView>::empty();
    match command.attributes() {
        Some(attributes) => {
            let ghost entries = attributes.entries();
            match command.kind {
                CommandType::Add => {
                    check_liveness(live, attributes, false, RuleKind::AddUniqueness, findings);
                    check_types(attributes, findings);
                    proof {
                        let first = liveness_findings(
                            entries,
                            listed(live@),
                            false,
                            RuleKind::AddUniqueness,
                        );
                        assert(before + first + type_findings(entries) =~= before + (first
                            + type_findings(entries)));
                    }
                },
                CommandType::Remove => {
                    check_liveness(live, attributes, true, RuleKind::RemoveExistence, findings);
                },
                CommandType::Modify => {
                    check_liveness(live, attributes, true, RuleKind::ModifyExistence, findings);
                    check_types(attributes, findings);
                    proof {
                        let first = liveness_findings(
                            entries,
                            listed(live@),
                            true,
                            RuleKind::ModifyExistence,
                        );
                        assert(before + first + type_findings(entries) =~= before + (first
                            + type_findings(entries)));
                    }
                },
                CommandType::From => {
                    proof {
                        assert(before + none =~= before);
                    }
                },
            }
        },
        None => {
            proof {
                assert(none + none =~= none);
                assert(before + none =~= before);
            }
        },
    }
}

/// Validates a command against a log under the rule set `1.0.0`. Every
/// finding is collected before the verdict is given.
pub fn validate_1_0_0(ast: &OCAAst, command: Command) -> (result: Result<bool, Error>)
    ensures
        is_verdict(result, verdict_of(findings_1_0_0(ast.commands@, command))),
{
    let mut findings: Vec<ValidationError> = Vec::new();
    let live = current_attributes(ast);
    proof {
        assert(findings_view(findings@) =~= Seq::<ValidationErrorView>::empty());
        let found = findings_for(listed(live@), command);
        assert(Seq::<ValidationErrorView>::empty() + found =~= found);
    }
    check_command(&live, &command, &mut findings);
    conclude(findings)
}

/// Validates every command of a log against the commands before it, under
/// the rule set `1.0.0`, and gives one verdict on all findings.
pub fn validate_log_1_0_0(ast: &OCAAst) -> (result: Result<bool, Error>)
    ensures
        is_verdict(result, verdict_of(log_findings(ast.commands@))),
{
    let mut findings: Vec<ValidationError> = Vec::new();
    let mut live: Vec<String> = Vec::new();
    let mut i: usize = 0;
    proof {
        assert(ast.commands@.take(0) =~= Seq::<Command>::empty());
        assert(listed(live@) =~= Set::<Seq<char>>::empty());
        assert(findings_view(findings@) =~= Seq::<ValidationErrorView>::empty());
    }
    while i < ast.commands.len()
        invariant
            i <= ast.commands.len(),
            listed(live@) == live_attributes(ast.commands@.take(i as int)),
            findings_view(findings@) == log_findings(ast.commands@.take(i as int)),
        decreases ast.commands.len() - i,
    {
        proof {
            let grown = ast.commands@.take(i as int + 1);
            assert(grown.drop_last() =~= ast.commands@.take(i as int));
            assert(grown.last() == ast.commands@[i as int]);
        }
        check_command(&live, &ast.commands[i], &mut findings);
        live = apply_command(live, &ast.commands[i]);
        i = i + 1;
    }
    proof {
        assert(ast.commands@.take(i as int) =~= ast.commands@);
    }
    conclude(findings)
}

/// Decides whether a command may follow a log.
pub trait Validator {
    fn validate(&self, ast: &OCAAst, command: Command) -> Result<bool, Error>;
}

/// The validator of this library: it picks the rule set by the log's version
/// tag.
pub struct OCAValidator {}

/// The findings for a version tag without a rule set, if the tag is such a
/// one.
fn version_findings(version: &String) -> (findings: Option<Vec<ValidationError>>)
    ensures
        version@.len() == 0 ==> findings is Some && findings_view(findings->0@)
            == seq![ValidationErrorView::MissingVersion],
        version@.len() != 0 && version@ != known_version() ==> findings is Some && findings_view(
            findings->0@,
        ) == seq![ValidationErrorView::InvalidVersion(version@)],
        version@ == known_version() ==> findings is None,
{
    proof {
        reveal_strlit("1.0.0");
        reveal_strlit("");
        assert(""@.len() == 0);
        assert("1.0.0"@.len() == 5);
        if version@.len() == 0 {
            assert(version@ =~= ""@);
        }
    }
    if str_eq(version.as_str(), "") {
        let mut findings: Vec<ValidationError> = Vec::new();
        findings.push(ValidationError::MissingVersion);
        proof {
            assert(findings_view(findings@) =~= seq![ValidationErrorView::MissingVersion]);
        }
        Some(findings)
    } else if str_eq(version.as_str(), "1.0.0") {
        None
    } else {
        let mut findings: Vec<ValidationError> = Vec::new();
        findings.push(ValidationError::InvalidVersion(version.clone()));
        proof {
            assert(findings_view(findings@) =~= seq![ValidationErrorView::InvalidVersion(version@)]);
        }
        Some(findings)
    }
}

impl OCAValidator {
    /// Validates a whole log: every command against the commands before it.
    pub fn validate_log(&self, ast: &OCAAst) -> (result: Result<bool, Error>)
        ensures
            is_verdict(result, log_verdict(ast.version@, ast.commands@)),
    {
        match version_findings(&ast.version) {
            Some(findings) => Err(Error::Validation(findings)),
            None => validate_log_1_0_0(ast),
        }
    }
}

impl Validator for OCAValidator {
    fn validate(&self, ast: &OCAAst, command: Command) -> (result: Result<bool, Error>)
        ensures
            is_verdict(result, verdict(ast.version@, ast.commands@, command)),
    {
        match version_findings(&ast.version) {
            Some(findings) => Err(Error::Validation(findings)),
            None => validate_1_0_0(ast, command),
        }
    }
}

/// Whether two results of a validation are the same: both accept, or both
/// reject with the same findings in the same order.
pub open spec fn same_result(first: Result<bool, Error>, second: Result<bool, Error>) -> bool {
    match (first, second) {
        (Ok(a), Ok(b)) => a == b,
        (Err(a), Err(b)) => a@ == b@,
        _ => false,
    }
}

/// Validation is a function of the version tag, the commands and the
/// command: two validations of the same command against the same commands,
/// which may be any prefix of a log, give the same result.
pub proof fn lemma_validation_is_deterministic(
    first: Result<bool, Error>,
    second: Result<bool, Error>,
    version: Seq<char>,
    commands: Seq<Command>,
    upto: int,
    command: Command,
)
    requires
        0 <= upto <= commands.len(),
        is_verdict(first, verdict(version, commands.take(upto), command)),
        is_verdict(second, verdict(version, commands.take(upto), command)),
    ensures
        same_result(first, second),
{
}

/// Validation of a whole log is a function of the version tag and the
/// commands: two validations of the same prefix of a log give the same
/// result.
pub proof fn lemma_log_validation_is_deterministic(
    first: Result<bool, Error>,
    second: Result<bool, Error>,
    version: Seq<char>,
    commands: Seq<Command>,
    upto: int,
)
    requires
        0 <= upto <= commands.len(),
        is_verdict(first, log_verdict(version, commands.take(upto))),
        is_verdict(second, log_verdict(version, commands.take(upto))),
    ensures
        same_result(first, second),
{
}

/// Whether a command adds the attribute `name` to the capture base.
pub open spec fn adds(command: Command, name: Seq<char>) -> bool {
    command.object_kind == ObjectKind::CaptureBase && command.kind == CommandType::Add
        && entry_names(command.attribute_entries()).contains(name)
}

/// Whether a command removes the attribute `name` from the capture base.
pub open spec fn removes(command: Command, name: Seq<char>) -> bool {
    command.object_kind == ObjectKind::CaptureBase && command.kind == CommandType::Remove
        && entry_names(command.attribute_entries()).contains(name)
}

/// An attribute is live after a log exactly when some command added it and
/// no later command removed it: the live set is what was added, less what
/// was removed after it was added.
pub proof fn lemma_live_iff_added_and_not_removed_since(commands: Seq<Command>, name: Seq<char>)
    ensures
        live_attributes(commands).contains(name) <==> exists|i: int|
            0 <= i < commands.len() && adds(#[trigger] commands[i], name) && forall|j: int|
                i < j < commands.len() ==> !removes(#[trigger] commands[j], name),
    decreases commands.len(),
{
    if commands.len() > 0 {
        let earlier = commands.drop_last();
        let last = commands.last();
        let n = earlier.len() as int;
        lemma_live_iff_added_and_not_removed_since(earlier, name);
        if live_attributes(commands).contains(name) {
            if adds(last, name) {
                assert(adds(commands[n], name));
            } else {
                assert(live_attributes(earlier).contains(name));
                let i = choose|i: int|
                    0 <= i < earlier.len() && adds(#[trigger] earlier[i], name) && forall|j: int|
                        i < j < earlier.len() ==> !removes(#[trigger] earlier[j], name);
                assert(adds(commands[i], name));
                assert forall|j: int| i < j < commands.len() implies !removes(
                    #[trigger] commands[j],
                    name,
                ) by {
                    if j < n {
                        assert(commands[j] == earlier[j]);
                    }
                }
            }
        }
        if exists|i: int|
            0 <= i < commands.len() && adds(#[trigger] commands[i], name) && forall|j: int|
                i < j < commands.len() ==> !removes(#[trigger] commands[j], name) {
            let i = choose|i: int|
                0 <= i < commands.len() && adds(#[trigger] commands[i], name) && forall|j: int|
                    i < j < commands.len() ==> !removes(#[trigger] commands[j], name);
            if i < n {
                assert(adds(earlier[i], name));
                assert forall|j: int| i < j < earlier.len() implies !removes(
                    #[trigger] earlier[j],
                    name,
                ) by {
                    assert(earlier[j] == commands[j]);
                }
                assert(live_attributes(earlier).contains(name));
                assert(!removes(commands[n], name));
            }
        }
    }
}

/// A log without a version tag fails every validation with a missing
/// version, and a log with an unknown tag with that tag as invalid, whatever
/// the commands are.
pub proof fn lemma_version_gates_validation(
    version: Seq<char>,
    commands: Seq<Command>,
    command: Command,
)
    requires
        version != known_version(),
    ensures
        version.len() == 0 ==> verdict(version, commands, command) == Err::<bool, ErrorView>(
            ErrorView::Validation(seq![ValidationErrorView::MissingVersion]),
        ),
        version.len() != 0 ==> verdict(version, commands, command) == Err::<bool, ErrorView>(
            ErrorView::Validation(seq![ValidationErrorView::InvalidVersion(version)]),
        ),
        verdict(version, commands, command) == log_verdict(version, commands),
{
}

} // verus!
