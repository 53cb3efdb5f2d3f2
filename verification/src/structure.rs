//! The structural form of a log: a tree of values that an interchange format
//! can write down as it stands, and the reader that takes it back.
//!
//! A command becomes a group with its operation under `type`, its target
//! under `object_kind` and its payload under `content`; what is absent is
//! left out. The payload is the flat merge of the maps it holds.

use vstd::prelude::*;
use crate::ast::{
    lemma_command_type_names, lemma_object_kind_names, CaptureBaseContent, Command, CommandType,
    OCAAst, ObjectContent, ObjectKind, OverlayContent,
};
use crate::value::{has_key, inserted, lookup, NestedValue, ValueMap};

verus! {

/// Whether a value is the literal with the given text.
pub open spec fn is_text(value: Option<NestedValue>, text: Seq<char>) -> bool {
    value matches Some(NestedValue::Value(literal)) && literal@ == text
}

/// Whether a value is the given string as a literal, or is absent with it.
pub open spec fn is_string(value: Option<NestedValue>, string: Option<String>) -> bool {
    match string {
        Some(string) => value == Some(NestedValue::Value(string)),
        None => value is None,
    }
}

/// Whether a value is the given map as a group, or is absent with it.
pub open spec fn is_map(value: Option<NestedValue>, map: Option<ValueMap>) -> bool {
    match map {
        Some(map) => value == Some(NestedValue::Object(map)),
        None => value is None,
    }
}

/// The names of the entries, in order.
pub open spec fn names_of(entries: Seq<(Seq<char>, NestedValue)>) -> Seq<Seq<char>> {
    Seq::new(entries.len(), |i: int| entries[i].0)
}

/// A name where its part is there, and nothing where it is absent.
pub open spec fn name_if(there: bool, name: Seq<char>) -> Seq<Seq<char>> {
    if there {
        seq![name]
    } else {
        Seq::empty()
    }
}

/// The names under which the parts of a payload stand, in order.
pub open spec fn content_names(content: ObjectContent) -> Seq<Seq<char>> {
    match content {
        ObjectContent::CaptureBase(content) => name_if(content.attributes is Some, "attributes"@)
            + name_if(content.properties is Some, "properties"@),
        ObjectContent::Overlay(content) => name_if(
            content.capture_base_id is Some,
            "capture_base_id"@,
        ) + name_if(content.properties is Some, "properties"@) + name_if(
            content.body is Some,
            "body"@,
        ),
    }
}

/// The names under which the parts of a command stand, in order.
pub open spec fn command_names(command: Command) -> Seq<Seq<char>> {
    seq!["type"@, "object_kind"@] + name_if(command.content is Some, "content"@) + name_if(
        command.said is Some,
        "said"@,
    )
}

/// Whether the entries are the flat merge of a payload: each map and the
/// base's identifier under its own name, and nothing under the names of what
/// is absent.
pub open spec fn is_content_value(
    entries: Seq<(Seq<char>, NestedValue)>,
    content: ObjectContent,
) -> bool {
    &&& names_of(entries) == content_names(content)
    &&& match content {
        ObjectContent::CaptureBase(content) => {
            &&& is_map(lookup(entries, "attributes"@), content.attributes)
            &&& is_map(lookup(entries, "properties"@), content.properties)
        },
        ObjectContent::Overlay(content) => {
            &&& is_string(lookup(entries, "capture_base_id"@), content.capture_base_id)
            &&& is_map(lookup(entries, "properties"@), content.properties)
            &&& is_map(lookup(entries, "body"@), content.body)
        },
    }
}

/// Whether a value is the structural form of a command.
pub open spec fn is_command_value(value: NestedValue, command: Command) -> bool {
    value matches NestedValue::Object(map) && {
        let entries = map.entries();
        &&& names_of(entries) == command_names(command)
        &&& is_text(lookup(entries, "type"@), command.kind.spec_name())
        &&& is_text(lookup(entries, "object_kind"@), command.object_kind.spec_name())
        &&& is_string(lookup(entries, "said"@), command.said)
        &&& match command.content {
            Some(content) => lookup(entries, "content"@) matches Some(NestedValue::Object(inner))
                && is_content_value(inner.entries(), content),
            None => lookup(entries, "content"@) is None,
        }
    }
}

/// Whether a value is the structural form of a log: the version tag and the
/// commands in order.
pub open spec fn is_log_value(value: NestedValue, ast: OCAAst) -> bool {
    value matches NestedValue::Object(map) && {
        let entries = map.entries();
        &&& names_of(entries) == seq!["version"@, "commands"@]
        &&& lookup(entries, "version"@) == Some(NestedValue::Value(ast.version))
        &&& lookup(entries, "commands"@) matches Some(NestedValue::Array(items)) && items@.len()
            == ast.commands@.len() && forall|i: int|
            0 <= i < items@.len() ==> is_command_value(#[trigger] items@[i], ast.commands@[i])
    }
}

/// The operation that a value names.
pub open spec fn kind_from(value: Option<NestedValue>) -> Option<CommandType> {
    match value {
        Some(NestedValue::Value(name)) => CommandType::spec_from_name(name@),
        _ => None,
    }
}

/// The target that a value names.
pub open spec fn object_kind_from(value: Option<NestedValue>) -> Option<ObjectKind> {
    match value {
        Some(NestedValue::Value(name)) => ObjectKind::spec_from_name(name@),
        _ => None,
    }
}

/// The string that a value holds, where there is a value: it must be a
/// literal.
pub open spec fn string_from(value: Option<NestedValue>) -> Option<Option<String>> {
    match value {
        None => Some(None),
        Some(NestedValue::Value(string)) => Some(Some(string)),
        _ => None,
    }
}

/// The map that a value holds, where there is a value: it must be a group.
pub open spec fn map_from(value: Option<NestedValue>) -> Option<Option<ValueMap>> {
    match value {
        None => Some(None),
        Some(NestedValue::Object(map)) => Some(Some(map)),
        _ => None,
    }
}

/// The payload that the entries of a flat merge give for a target.
pub open spec fn fields_from(
    object_kind: ObjectKind,
    entries: Seq<(Seq<char>, NestedValue)>,
) -> Option<ObjectContent> {
    match object_kind {
        ObjectKind::CaptureBase => match (
            map_from(lookup(entries, "attributes"@)),
            map_from(lookup(entries, "properties"@)),
        ) {
            (Some(attributes), Some(properties)) => Some(
                ObjectContent::CaptureBase(CaptureBaseContent { attributes, properties }),
            ),
            _ => None,
        },
        ObjectKind::Overlay(_) => match (
            string_from(lookup(entries, "capture_base_id"@)),
            map_from(lookup(entries, "properties"@)),
            map_from(lookup(entries, "body"@)),
        ) {
            (Some(capture_base_id), Some(properties), Some(body)) => Some(
                ObjectContent::Overlay(OverlayContent { capture_base_id, properties, body }),
            ),
            _ => None,
        },
    }
}

/// The payload that a value holds for a target, where there is a value: it
/// must be a group.
pub open spec fn content_from(object_kind: ObjectKind, value: Option<NestedValue>) -> Option<
    Option<ObjectContent>,
> {
    match value {
        None => Some(None),
        Some(NestedValue::Object(inner)) => match fields_from(object_kind, inner.entries()) {
            Some(content) => Some(Some(content)),
            None => None,
        },
        _ => None,
    }
}

/// The command that a value is the structural form of, if it is one of any.
pub open spec fn command_from(value: NestedValue) -> Option<Command> {
    match value {
        NestedValue::Object(map) => {
            let entries = map.entries();
            match (
                kind_from(lookup(entries, "type"@)),
                object_kind_from(lookup(entries, "object_kind"@)),
            ) {
                (Some(kind), Some(object_kind)) => match (
                    content_from(object_kind, lookup(entries, "content"@)),
                    string_from(lookup(entries, "said"@)),
                ) {
                    (Some(content), Some(said)) => Some(
                        Command { kind, object_kind, content, said },
                    ),
                    _ => None,
                },
                _ => None,
            }
        },
        _ => None,
    }
}

/// The commands that a list of values is the structural form of, if every
/// value is that of a command.
pub open spec fn commands_from(values: Seq<NestedValue>) -> Option<Seq<Command>>
    decreases values.len(),
{
    if values.len() == 0 {
        Some(Seq::empty())
    } else {
        match (commands_from(values.drop_last()), command_from(values.last())) {
            (Some(earlier), Some(command)) => Some(earlier.push(command)),
            _ => None,
        }
    }
}

/// The version tag and the commands that a value is the structural form of,
/// if it is that of a log.
pub open spec fn log_from(value: NestedValue) -> Option<(String, Seq<Command>)> {
    match value {
        NestedValue::Object(map) => {
            let entries = map.entries();
            match (lookup(entries, "version"@), lookup(entries, "commands"@)) {
                (Some(NestedValue::Value(version)), Some(NestedValue::Array(items))) => {
                    match commands_from(items@) {
                        Some(commands) => Some((version, commands)),
                        None => None,
                    }
                },
                _ => None,
            }
        },
        _ => None,
    }
}

/// Reading the structural form of a command gives the command back.
pub proof fn lemma_command_round_trip(value: NestedValue, command: Command)
    requires
        command.wf(),
        is_command_value(value, command),
    ensures
        command_from(value) == Some(command),
{
    lemma_command_type_names(command.kind);
    lemma_object_kind_names(command.object_kind);
}

/// Reading a list of structural forms gives the commands back, where every
/// value of the list reads as the command at its place.
pub proof fn lemma_commands_read(values: Seq<NestedValue>, commands: Seq<Command>)
    requires
        values.len() == commands.len(),
        forall|i: int| 0 <= i < values.len() ==> command_from(#[trigger] values[i]) == Some(commands[i]),
    ensures
        commands_from(values) == Some(commands),
    decreases values.len(),
{
    if values.len() > 0 {
        lemma_commands_read(values.drop_last(), commands.drop_last());
        assert(command_from(values[values.len() - 1]) == Some(commands[values.len() - 1]));
        assert(commands.drop_last().push(commands.last()) =~= commands);
    } else {
        assert(commands =~= Seq::<Command>::empty());
    }
}

/// A list with a value that reads as no command reads as no commands.
pub proof fn lemma_commands_unread(values: Seq<NestedValue>, at: int)
    requires
        0 <= at < values.len(),
        command_from(values[at]) is None,
    ensures
        commands_from(values) is None,
    decreases values.len(),
{
    if at < values.len() - 1 {
        lemma_commands_unread(values.drop_last(), at);
    }
}

/// Serializing a log and reading the structural form back gives the same
/// version tag and an equal sequence of commands.
pub proof fn lemma_log_round_trip(value: NestedValue, ast: OCAAst)
    requires
        forall|i: int| 0 <= i < ast.commands@.len() ==> (#[trigger] ast.commands@[i]).wf(),
        is_log_value(value, ast),
    ensures
        log_from(value) == Some((ast.version, ast.commands@)),
{
    let items = value->Object_0.entries();
    let values = lookup(items, "commands"@)->0->Array_0@;
    assert forall|i: int| 0 <= i < values.len() implies command_from(#[trigger] values[i]) == Some(
        ast.commands@[i],
    ) by {
        lemma_command_round_trip(values[i], ast.commands@[i]);
    }
    lemma_commands_read(values, ast.commands@);
}

/// A new name joins the names at the end.
proof fn lemma_new_name(entries: Seq<(Seq<char>, NestedValue)>, key: Seq<char>, value: NestedValue)
    requires
        lookup(entries, key) is None,
    ensures
        names_of(inserted(entries, key, value)) == names_of(entries).push(key),
{
    assert(!has_key(entries, key));
    assert(names_of(inserted(entries, key, value)) =~= names_of(entries).push(key));
}

/// Puts a value under a name that is not there yet.
fn put(entries: &mut ValueMap, key: &str, value: NestedValue)
    requires
        lookup(old(entries).entries(), key@) is None,
    ensures
        names_of(final(entries).entries()) == names_of(old(entries).entries()).push(key@),
        lookup(final(entries).entries(), key@) == Some(value),
        forall|other: Seq<char>|
            other != key@ ==> #[trigger] lookup(final(entries).entries(), other) == lookup(
                old(entries).entries(),
                other,
            ),
{
    proof {
        lemma_new_name(entries.entries(), key@, value);
    }
    entries.insert(key.to_owned(), value);
}

/// The group for a map that may be absent, put under `key` where it is
/// there.
fn put_map(entries: &mut ValueMap, key: &str, map: Option<ValueMap>)
    requires
        lookup(old(entries).entries(), key@) is None,
    ensures
        names_of(final(entries).entries()) == names_of(old(entries).entries()) + name_if(
            map is Some,
            key@,
        ),
        is_map(lookup(final(entries).entries(), key@), map),
        forall|other: Seq<char>|
            other != key@ ==> #[trigger] lookup(final(entries).entries(), other) == lookup(
                old(entries).entries(),
                other,
            ),
{
    let ghost before = names_of(entries.entries());
    match map {
        Some(map) => {
            put(entries, key, NestedValue::Object(map));
            proof {
                assert(before.push(key@) =~= before + seq![key@]);
            }
        },
        None => {
            proof {
                assert(before + Seq::<Seq<char>>::empty() =~= before);
            }
        },
    }
}

/// The literal for a string that may be absent, put under `key` where it is
/// there.
fn put_string(entries: &mut ValueMap, key: &str, string: Option<String>)
    requires
        lookup(old(entries).entries(), key@) is None,
    ensures
        names_of(final(entries).entries()) == names_of(old(entries).entries()) + name_if(
            string is Some,
            key@,
        ),
        is_string(lookup(final(entries).entries(), key@), string),
        forall|other: Seq<char>|
            other != key@ ==> #[trigger] lookup(final(entries).entries(), other) == lookup(
                old(entries).entries(),
                other,
            ),
{
    let ghost before = names_of(entries.entries());
    match string {
        Some(string) => {
            put(entries, key, NestedValue::Value(string));
            proof {
                assert(before.push(key@) =~= before + seq![key@]);
            }
        },
        None => {
            proof {
                assert(before + Seq::<Seq<char>>::empty() =~= before);
            }
        },
    }
}

/// The names under which the parts of a command and of a log stand are all
/// different.
proof fn lemma_names_differ()
    ensures
        "type"@ != "object_kind"@,
        "type"@ != "content"@,
        "type"@ != "said"@,
        "object_kind"@ != "content"@,
        "object_kind"@ != "said"@,
        "content"@ != "said"@,
        "attributes"@ != "properties"@,
        "capture_base_id"@ != "properties"@,
        "capture_base_id"@ != "body"@,
        "properties"@ != "body"@,
        "version"@ != "commands"@,
{
    reveal_strlit("type");
    reveal_strlit("object_kind");
    reveal_strlit("content");
    reveal_strlit("said");
    reveal_strlit("attributes");
    reveal_strlit("properties");
    reveal_strlit("capture_base_id");
    reveal_strlit("body");
    reveal_strlit("version");
    reveal_strlit("commands");
    assert("type"@.len() == 4 && "said"@.len() == 4 && "type"@[0] == 't' && "said"@[0] == 's');
    assert("object_kind"@.len() == 11 && "content"@.len() == 7);
    assert("attributes"@.len() == 10 && "properties"@.len() == 10 && "attributes"@[0] == 'a'
        && "properties"@[0] == 'p');
    assert("capture_base_id"@.len() == 15 && "body"@.len() == 4);
    assert("version"@.len() == 7 && "commands"@.len() == 8);
}

/// A new map has nothing under any name.
fn empty_map() -> (entries: ValueMap)
    ensures
        names_of(entries.entries()) == Seq::<Seq<char>>::empty(),
        forall|name: Seq<char>| #[trigger] lookup(entries.entries(), name) is None,
{
    let entries = ValueMap::new();
    proof {
        assert(names_of(entries.entries()) =~= Seq::<Seq<char>>::empty());
    }
    entries
}

impl ObjectContent {
    /// The flat merge of the payload: a group with each map, and the base's
    /// identifier, under its own name. What is absent is left out.
    pub fn into_value(self) -> (value: NestedValue)
        ensures
            value matches NestedValue::Object(entries) && is_content_value(entries.entries(), self),
    {
        let mut entries = empty_map();
        let ghost none = Seq::<Seq<char>>::empty();
        proof {
            lemma_names_differ();
        }
        match self {
            ObjectContent::CaptureBase(content) => {
                put_map(&mut entries, "attributes", content.attributes);
                put_map(&mut entries, "properties", content.properties);
                proof {
                    assert(none + name_if(content.attributes is Some, "attributes"@) =~= name_if(
                        content.attributes is Some,
                        "attributes"@,
                    ));
                }
            },
            ObjectContent::Overlay(content) => {
                put_string(&mut entries, "capture_base_id", content.capture_base_id);
                put_map(&mut entries, "properties", content.properties);
                put_map(&mut entries, "body", content.body);
                proof {
                    assert(none + name_if(content.capture_base_id is Some, "capture_base_id"@)
                        =~= name_if(content.capture_base_id is Some, "capture_base_id"@));
                }
            },
        }
        NestedValue::Object(entries)
    }
}

impl Command {
    /// The structural form of the command.
    pub fn into_value(self) -> (value: NestedValue)
        ensures
            is_command_value(value, self),
    {
        let mut entries = empty_map();
        let ghost none = Seq::<Seq<char>>::empty();
        proof {
            lemma_names_differ();
        }
        put(&mut entries, "type", NestedValue::Value(self.kind.name().to_owned()));
        put(&mut entries, "object_kind", NestedValue::Value(self.object_kind.name().to_owned()));
        proof {
            assert(none.push("type"@).push("object_kind"@) =~= seq!["type"@, "object_kind"@]);
        }
        let ghost two = names_of(entries.entries());
        match self.content {
            Some(content) => {
                put(&mut entries, "content", content.into_value());
                proof {
                    assert(two.push("content"@) =~= two + seq!["content"@]);
                }
            },
            None => {
                proof {
                    assert(two + none =~= two);
                }
            },
        }
        put_string(&mut entries, "said", self.said);
        NestedValue::Object(entries)
    }

    /// Reads a command from its structural form. The operation and the
    /// target must be named; the payload and the identifier may be absent.
    pub fn from_value(value: NestedValue) -> (command: Option<Command>)
        ensures
            command == command_from(value),
    {
        proof {
            lemma_names_differ();
        }
        match value {
            NestedValue::Object(map) => {
                let mut entries = map;
                let kind = match entries.take("type") {
                    Some(NestedValue::Value(name)) => CommandType::from_name(name.as_str()),
                    _ => None,
                };
                let object_kind = match entries.take("object_kind") {
                    Some(NestedValue::Value(name)) => ObjectKind::from_name(name.as_str()),
                    _ => None,
                };
                let content_value = entries.take("content");
                let said_value = entries.take("said");
                match (kind, object_kind) {
                    (Some(kind), Some(object_kind)) => {
                        match (take_content(object_kind, content_value), take_string(said_value)) {
                            (Some(content), Some(said)) => Some(
                                Command { kind, object_kind, content, said },
                            ),
                            _ => None,
                        }
                    },
                    _ => None,
                }
            },
            _ => None,
        }
    }
}

/// The string of a literal that may be absent.
fn take_string(value: Option<NestedValue>) -> (string: Option<Option<String>>)
    ensures
        string == string_from(value),
{
    match value {
        None => Some(None),
        Some(NestedValue::Value(string)) => Some(Some(string)),
        _ => None,
    }
}

/// The map of a group that may be absent.
fn take_map(value: Option<NestedValue>) -> (map: Option<Option<ValueMap>>)
    ensures
        map == map_from(value),
{
    match value {
        None => Some(None),
        Some(NestedValue::Object(map)) => Some(Some(map)),
        _ => None,
    }
}

/// The payload of a flat merge that may be absent, for a target.
fn take_content(object_kind: ObjectKind, value: Option<NestedValue>) -> (content: Option<
    Option<ObjectContent>,
>)
    ensures
        content == content_from(object_kind, value),
{
    proof {
        lemma_names_differ();
    }
    match value {
        None => Some(None),
        Some(NestedValue::Object(inner)) => {
            let mut entries = inner;
            match object_kind {
                ObjectKind::CaptureBase => {
                    let attributes = take_map(entries.take("attributes"));
                    let properties = take_map(entries.take("properties"));
                    match (attributes, properties) {
                        (Some(attributes), Some(properties)) => Some(
                            Some(
                                ObjectContent::CaptureBase(
                                    CaptureBaseContent { attributes, properties },
                                ),
                            ),
                        ),
                        _ => None,
                    }
                },
                ObjectKind::Overlay(_) => {
                    let capture_base_id = take_string(entries.take("capture_base_id"));
                    let properties = take_map(entries.take("properties"));
                    let body = take_map(entries.take("body"));
                    match (capture_base_id, properties, body) {
                        (Some(capture_base_id), Some(properties), Some(body)) => Some(
                            Some(
                                ObjectContent::Overlay(
                                    OverlayContent { capture_base_id, properties, body },
                                ),
                            ),
                        ),
                        _ => None,
                    }
                },
            }
        },
        _ => None,
    }
}

/// The structural forms of a list of commands, in the same order.
fn commands_into_values(commands: Vec<Command>) -> (values: Vec<NestedValue>)
    ensures
        values@.len() == commands@.len(),
        forall|i: int| 0 <= i < values@.len() ==> is_command_value(#[trigger] values@[i], commands@[i]),
{
    let ghost all = commands@;
    let ghost n = commands@.len() as int;
    let mut rest = commands;
    let mut reversed: Vec<NestedValue> = Vec::new();
    while rest.len() > 0
        invariant
            n == all.len(),
            rest@.len() + reversed@.len() == n,
            rest@ == all.take(rest@.len() as int),
            forall|j: int|
                0 <= j < reversed@.len() ==> is_command_value(
                    #[trigger] reversed@[j],
                    all[n - 1 - j],
                ),
        decreases rest.len(),
    {
        let ghost before = reversed@;
        let ghost k = rest@.len() as int;
        let command = rest.pop().unwrap();
        assert(command == all[k - 1]);
        assert(rest@ =~= all.take(k - 1));
        reversed.push(command.into_value());
        assert forall|j: int| 0 <= j < reversed@.len() implies is_command_value(
            #[trigger] reversed@[j],
            all[n - 1 - j],
        ) by {
            if j < before.len() {
                assert(reversed@[j] == before[j]);
            }
        }
    }
    let mut values: Vec<NestedValue> = Vec::new();
    while reversed.len() > 0
        invariant
            n == all.len(),
            values@.len() + reversed@.len() == n,
            forall|j: int|
                0 <= j < reversed@.len() ==> is_command_value(
                    #[trigger] reversed@[j],
                    all[n - 1 - j],
                ),
            forall|i: int| 0 <= i < values@.len() ==> is_command_value(#[trigger] values@[i], all[i]),
        decreases reversed.len(),
    {
        let ghost before = values@;
        let ghost left = reversed@;
        let value = reversed.pop().unwrap();
        assert(value == left[left.len() - 1]);
        assert forall|j: int| 0 <= j < reversed@.len() implies is_command_value(
            #[trigger] reversed@[j],
            all[n - 1 - j],
        ) by {
            assert(reversed@[j] == left[j]);
        }
        values.push(value);
        assert forall|i: int| 0 <= i < values@.len() implies is_command_value(
            #[trigger] values@[i],
            all[i],
        ) by {
            if i < before.len() {
                assert(values@[i] == before[i]);
            }
        }
    }
    values
}

/// The commands that a list of structural forms reads as, in the same
/// order, if every value of the list reads as a command.
fn values_into_commands(values: Vec<NestedValue>) -> (commands: Option<Vec<Command>>)
    ensures
        match commands {
            Some(commands) => commands_from(values@) == Some(commands@),
            None => commands_from(values@) is None,
        },
{
    let ghost all = values@;
    let ghost n = values@.len() as int;
    let mut rest = values;
    let mut reversed: Vec<Command> = Vec::new();
    while rest.len() > 0
        invariant
            all == values@,
            n == all.len(),
            rest@.len() + reversed@.len() == n,
            rest@ == all.take(rest@.len() as int),
            forall|j: int|
                0 <= j < reversed@.len() ==> command_from(all[n - 1 - j]) == Some(
                    #[trigger] reversed@[j],
                ),
        decreases rest.len(),
    {
        let ghost before = reversed@;
        let ghost k = rest@.len() as int;
        let value = rest.pop().unwrap();
        assert(value == all[k - 1]);
        assert(rest@ =~= all.take(k - 1));
        match Command::from_value(value) {
            Some(command) => {
                reversed.push(command);
                assert forall|j: int| 0 <= j < reversed@.len() implies command_from(
                    all[n - 1 - j],
                ) == Some(#[trigger] reversed@[j]) by {
                    if j < before.len() {
                        assert(reversed@[j] == before[j]);
                    }
                }
            },
            None => {
                proof {
                    lemma_commands_unread(all, k - 1);
                }
                return None;
            },
        }
    }
    let mut commands: Vec<Command> = Vec::new();
    while reversed.len() > 0
        invariant
            n == all.len(),
            commands@.len() + reversed@.len() == n,
            forall|j: int|
                0 <= j < reversed@.len() ==> command_from(all[n - 1 - j]) == Some(
                    #[trigger] reversed@[j],
                ),
            forall|i: int|
                0 <= i < commands@.len() ==> command_from(all[i]) == Some(#[trigger] commands@[i]),
        decreases reversed.len(),
    {
        let ghost before = commands@;
        let ghost left = reversed@;
        let command = reversed.pop().unwrap();
        assert(command == left[left.len() - 1]);
        assert forall|j: int| 0 <= j < reversed@.len() implies command_from(all[n - 1 - j]) == Some(
            #[trigger] reversed@[j],
        ) by {
            assert(reversed@[j] == left[j]);
        }
        commands.push(command);
        assert forall|i: int| 0 <= i < commands@.len() implies command_from(all[i]) == Some(
            #[trigger] commands@[i],
        ) by {
            if i < before.len() {
                assert(commands@[i] == before[i]);
            }
        }
    }
    proof {
        lemma_commands_read(all, commands@);
    }
    Some(commands)
}

impl OCAAst {
    /// The structural form of the log: the version tag under `version` and
    /// the structural forms of the commands, in order, under `commands`.
    pub fn into_value(self) -> (value: NestedValue)
        ensures
            is_log_value(value, self),
    {
        let mut entries = empty_map();
        proof {
            lemma_names_differ();
        }
        put(&mut entries, "version", NestedValue::Value(self.version));
        put(&mut entries, "commands", NestedValue::Array(commands_into_values(self.commands)));
        proof {
            assert(Seq::<Seq<char>>::empty().push("version"@).push("commands"@) =~= seq![
                "version"@,
                "commands"@,
            ]);
        }
        NestedValue::Object(entries)
    }

    /// Reads a log from its structural form.
    pub fn from_value(value: NestedValue) -> (ast: Option<OCAAst>)
        ensures
            match ast {
                Some(ast) => log_from(value) == Some((ast.version, ast.commands@)),
                None => log_from(value) is None,
            },
    {
        proof {
            lemma_names_differ();
        }
        match value {
            NestedValue::Object(map) => {
                let mut entries = map;
                let version = entries.take("version");
                let commands = entries.take("commands");
                match (version, commands) {
                    (Some(NestedValue::Value(version)), Some(NestedValue::Array(items))) => {
                        match values_into_commands(items) {
                            Some(commands) => Some(OCAAst { version, commands }),
                            None => None,
                        }
                    },
                    _ => None,
                }
            },
            _ => None,
        }
    }
}

} // verus!
