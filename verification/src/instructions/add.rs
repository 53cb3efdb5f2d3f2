//! The instructions that carry a payload: what they add, remove or modify on
//! a capture base or an overlay.

use vstd::prelude::*;
use vstd::string::StringExecFns;
use crate::ast::{
    AttributeType, CaptureBaseContent, Command, CommandType, ObjectContent, ObjectKind,
    OverlayContent, OverlayType,
};
use crate::error::{Error, ErrorView};
use crate::tree::{Pair, Rule};
use crate::value::{distinct_keys, has_key, inserted, lemma_inserted_keeps_distinct, position_of, NestedValue, ValueMap};

verus! {

/// Names with the text given to each, in order.
pub type TextPairs = Seq<(Seq<char>, Seq<char>)>;

/// The text of a literal, and nothing for any other value.
pub open spec fn scalar_text(value: NestedValue) -> Seq<char> {
    match value {
        NestedValue::Value(text) => text@,
        _ => Seq::empty(),
    }
}

/// Every value among the entries is a literal.
pub open spec fn all_scalar(entries: Seq<(Seq<char>, NestedValue)>) -> bool {
    forall|i: int| 0 <= i < entries.len() ==> (#[trigger] entries[i]).1 is Value
}

/// The entries with each literal as its text.
pub open spec fn texts_of(entries: Seq<(Seq<char>, NestedValue)>) -> TextPairs {
    Seq::new(entries.len(), |i: int| (entries[i].0, scalar_text(entries[i].1)))
}

/// Whether a map holds exactly the given names and texts, each text as a
/// literal, in the given order; or, where no pairs are given, whether there
/// is no map.
pub open spec fn holds_pairs(map: Option<ValueMap>, pairs: Option<TextPairs>) -> bool {
    match (map, pairs) {
        (Some(map), Some(pairs)) => all_scalar(map.entries()) && texts_of(map.entries()) == pairs,
        (None, None) => true,
        _ => false,
    }
}

/// What one item of a name-and-value pair does to the pair read so far: a
/// key sets the name, a type token that names a type sets the value to the
/// type's name, and a plain value sets the value.
pub open spec fn attribute_step(read: (Seq<char>, Seq<char>), item: Pair) -> Result<
    (Seq<char>, Seq<char>),
    ErrorView,
> {
    match item.rule {
        Rule::Key => Ok((item.text@, read.1)),
        Rule::AttrType => match AttributeType::spec_from_name(item.text@) {
            Some(found) => Ok((read.0, found.spec_name())),
            None => Err(ErrorView::InvalidAttributeType(item.text@)),
        },
        Rule::KeyValue => Ok((read.0, item.text@)),
        _ => Err(ErrorView::UnexpectedToken("Invalid attribute in "@ + item.rule.spec_name())),
    }
}

/// The name and the value that the items of a pair give, read in order from
/// an empty name and an empty value; or the error of the first item that has
/// one.
pub open spec fn attribute_of(items: Seq<Pair>) -> Result<(Seq<char>, Seq<char>), ErrorView>
    decreases items.len(),
{
    if items.len() == 0 {
        Ok((Seq::empty(), Seq::empty()))
    } else {
        match attribute_of(items.drop_last()) {
            Ok(read) => attribute_step(read, items.last()),
            Err(error) => Err(error),
        }
    }
}

/// The pairs after each of the given nodes has given its name its value, in
/// order, starting from `start`; or the error of the first node that has one.
pub open spec fn pairs_of(nodes: Seq<Pair>, start: TextPairs) -> Result<TextPairs, ErrorView>
    decreases nodes.len(),
{
    if nodes.len() == 0 {
        Ok(start)
    } else {
        match pairs_of(nodes.drop_last(), start) {
            Ok(earlier) => match attribute_of(nodes.last().children@) {
                Ok(read) => Ok(inserted(earlier, read.0, read.1)),
                Err(error) => Err(error),
            },
            Err(error) => Err(error),
        }
    }
}

/// Giving a name a literal in a map of literals gives the name the literal's
/// text in the map's texts.
pub proof fn lemma_texts_of_inserted(
    entries: Seq<(Seq<char>, NestedValue)>,
    key: Seq<char>,
    value: NestedValue,
)
    requires
        all_scalar(entries),
        distinct_keys(entries),
        value is Value,
    ensures
        all_scalar(inserted(entries, key, value)),
        distinct_keys(inserted(entries, key, value)),
        texts_of(inserted(entries, key, value)) == inserted(
            texts_of(entries),
            key,
            scalar_text(value),
        ),
{
    let texts = texts_of(entries);
    let after = inserted(entries, key, value);
    lemma_inserted_keeps_distinct(entries, key, value);
    if has_key(entries, key) {
        let p = position_of(entries, key);
        assert(texts[p].0 == key);
        assert(has_key(texts, key));
        let q = position_of(texts, key);
        assert(entries[q].0 == texts[q].0);
        assert(p == q);
        assert forall|i: int| 0 <= i < after.len() implies (#[trigger] after[i]).1 is Value by {
            if i != p {
                assert(after[i] == entries[i]);
            }
        }
        assert(texts_of(after) =~= inserted(texts, key, scalar_text(value)));
    } else {
        if has_key(texts, key) {
            let q = position_of(texts, key);
            assert(entries[q].0 == key);
        }
        assert forall|i: int| 0 <= i < after.len() implies (#[trigger] after[i]).1 is Value by {
            if i < entries.len() {
                assert(after[i] == entries[i]);
            }
        }
        assert(texts_of(after) =~= inserted(texts, key, scalar_text(value)));
    }
}

/// The attributes that the groups below an attribute instruction declare:
/// every group must be a list of pairs, and the pairs of all groups are read
/// in order into one map.
pub open spec fn attribute_groups(groups: Seq<Pair>) -> Result<TextPairs, ErrorView>
    decreases groups.len(),
{
    if groups.len() == 0 {
        Ok(Seq::empty())
    } else {
        match attribute_groups(groups.drop_last()) {
            Ok(earlier) => if groups.last().rule == Rule::AttrPairs {
                pairs_of(groups.last().children@, earlier)
            } else {
                Err(
                    ErrorView::UnexpectedToken(
                        "Invalid attributes in ATTRIBUTE instruction "@
                            + groups.last().rule.spec_name(),
                    ),
                )
            },
            Err(error) => Err(error),
        }
    }
}

/// What one node below an overlay instruction does to the properties and the
/// body read so far: a list of attribute pairs goes to the body, a list of
/// property pairs to the properties, and a language tag becomes the property
/// `lang`.
pub open spec fn overlay_step(read: (TextPairs, TextPairs), node: Pair) -> Result<
    (TextPairs, TextPairs),
    ErrorView,
> {
    match node.rule {
        Rule::AttrKeyPairs => match pairs_of(node.children@, read.1) {
            Ok(body) => Ok((read.0, body)),
            Err(error) => Err(error),
        },
        Rule::PropKeyPairs => match pairs_of(node.children@, read.0) {
            Ok(properties) => Ok((properties, read.1)),
            Err(error) => Err(error),
        },
        Rule::Lang => Ok((inserted(read.0, "lang"@, node.text@), read.1)),
        _ => Err(
            ErrorView::UnexpectedToken(
                "Invalid attribute in instruction "@ + node.rule.spec_name(),
            ),
        ),
    }
}

/// The properties and the body that the nodes below an overlay instruction
/// give, read in order from nothing; or the error of the first node that has
/// one.
pub open spec fn overlay_content_of(nodes: Seq<Pair>) -> Result<(TextPairs, TextPairs), ErrorView>
    decreases nodes.len(),
{
    if nodes.len() == 0 {
        Ok((Seq::empty(), Seq::empty()))
    } else {
        match overlay_content_of(nodes.drop_last()) {
            Ok(read) => overlay_step(read, nodes.last()),
            Err(error) => Err(error),
        }
    }
}

/// What an instruction carries, with every map as names and texts.
pub enum Payload {
    /// No payload.
    Nothing,
    /// Attributes or properties of the capture base.
    CaptureBase { attributes: Option<TextPairs>, properties: Option<TextPairs> },
    /// Properties and body of an overlay.
    Overlay { overlay_properties: TextPairs, body: TextPairs },
}

/// The target of an instruction and what it carries.
pub struct Extracted {
    pub object_kind: ObjectKind,
    pub payload: Payload,
}

/// The overlay kind that a rule stands for, if it stands for one.
pub open spec fn overlay_of(rule: Rule) -> Option<OverlayType> {
    match rule {
        Rule::Meta => Some(OverlayType::Meta),
        Rule::Information => Some(OverlayType::Information),
        Rule::CharacterEncoding => Some(OverlayType::CharacterEncoding),
        Rule::CharacterEncodingProps => Some(OverlayType::CharacterEncoding),
        Rule::Label => Some(OverlayType::Label),
        Rule::Unit => Some(OverlayType::Unit),
        Rule::Format => Some(OverlayType::Format),
        _ => None,
    }
}

/// What one node below an instruction says: a target with its payload,
/// nothing for a comment, or an error.
pub open spec fn object_of(object: Pair) -> Result<Option<Extracted>, ErrorView> {
    match overlay_of(object.rule) {
        Some(overlay) => match overlay_content_of(object.children@) {
            Ok(read) => Ok(
                Some(
                    Extracted {
                        object_kind: ObjectKind::Overlay(overlay),
                        payload: Payload::Overlay { overlay_properties: read.0, body: read.1 },
                    },
                ),
            ),
            Err(error) => Err(error),
        },
        None => match object.rule {
            Rule::Attribute => match attribute_groups(object.children@) {
                Ok(attributes) => Ok(
                    Some(
                        Extracted {
                            object_kind: ObjectKind::CaptureBase,
                            payload: Payload::CaptureBase {
                                attributes: Some(attributes),
                                properties: None,
                            },
                        },
                    ),
                ),
                Err(error) => Err(error),
            },
            Rule::Classification => if object.children@.len() > 0 {
                Ok(
                    Some(
                        Extracted {
                            object_kind: ObjectKind::CaptureBase,
                            payload: Payload::CaptureBase {
                                attributes: None,
                                properties: Some(
                                    seq![("classification"@, object.children@[0].text@)],
                                ),
                            },
                        },
                    ),
                )
            } else {
                Err(ErrorView::UnexpectedToken("Classification without a value"@))
            },
            Rule::FlaggedAttrs => Ok(
                Some(Extracted { object_kind: ObjectKind::CaptureBase, payload: Payload::Nothing }),
            ),
            Rule::Comment => Ok(None),
            _ => Err(
                ErrorView::UnexpectedToken("Overlay: unexpected token "@ + object.rule.spec_name()),
            ),
        },
    }
}

/// What the nodes below an instruction say together: what the last node
/// that is no comment says, unless an earlier node has an error.
pub open spec fn objects_of(objects: Seq<Pair>) -> Result<Option<Extracted>, ErrorView>
    decreases objects.len(),
{
    if objects.len() == 0 {
        Ok(None)
    } else {
        match objects_of(objects.drop_last()) {
            Ok(earlier) => match object_of(objects.last()) {
                Ok(Some(found)) => Ok(Some(found)),
                Ok(None) => Ok(earlier),
                Err(error) => Err(error),
            },
            Err(error) => Err(error),
        }
    }
}

/// What an instruction says: the target and payload that its nodes give. An
/// instruction whose nodes name no target is an error.
pub open spec fn instruction_of(record: Pair) -> Result<Extracted, ErrorView> {
    match objects_of(record.children@) {
        Ok(Some(found)) => Ok(found),
        Ok(None) => Err(ErrorView::UnexpectedToken("Instruction without a target"@)),
        Err(error) => Err(error),
    }
}

/// Whether a command is the given operation on what was extracted.
pub open spec fn command_is(command: Command, kind: CommandType, found: Extracted) -> bool {
    &&& command.kind == kind
    &&& command.object_kind == found.object_kind
    &&& command.said is None
    &&& match found.payload {
        Payload::Nothing => command.content is None,
        Payload::CaptureBase { attributes, properties } => command.content matches Some(
            ObjectContent::CaptureBase(content),
        ) && holds_pairs(content.attributes, attributes) && holds_pairs(
            content.properties,
            properties,
        ),
        Payload::Overlay { overlay_properties, body } => command.content matches Some(
            ObjectContent::Overlay(content),
        ) && content.capture_base_id is None && holds_pairs(
            content.properties,
            Some(overlay_properties),
        ) && holds_pairs(content.body, Some(body)),
    }
}

/// Whether the result of an extraction is what the instruction says.
pub open spec fn is_extraction(result: Result<Command, Error>, kind: CommandType, record: Pair) -> bool {
    match result {
        Ok(command) => instruction_of(record) matches Ok(found) && command_is(
            command,
            kind,
            found,
        ),
        Err(error) => instruction_of(record) == Err::<Extracted, ErrorView>(error@),
    }
}

/// Builds the text `prefix` followed by the rule's name.
fn rule_message(prefix: &str, rule: Rule) -> (text: String)
    ensures
        text@ == prefix@ + rule.spec_name(),
{
    prefix.to_owned().concat(rule.name())
}

/// The overlay kind that a rule stands for, if it stands for one.
pub fn overlay_for(rule: Rule) -> (overlay: Option<OverlayType>)
    ensures
        overlay == overlay_of(rule),
{
    match rule {
        Rule::Meta => Some(OverlayType::Meta),
        Rule::Information => Some(OverlayType::Information),
        Rule::CharacterEncoding => Some(OverlayType::CharacterEncoding),
        Rule::CharacterEncodingProps => Some(OverlayType::CharacterEncoding),
        Rule::Label => Some(OverlayType::Label),
        Rule::Unit => Some(OverlayType::Unit),
        Rule::Format => Some(OverlayType::Format),
        _ => None,
    }
}

/// Whether a target and a payload are what was extracted.
pub open spec fn target_is(
    object_kind: ObjectKind,
    content: Option<ObjectContent>,
    found: Extracted,
) -> bool {
    command_is(
        Command { kind: CommandType::Add, object_kind, content, said: None },
        CommandType::Add,
        found,
    )
}

/// Reads one node below an instruction: its target and payload, or nothing
/// for a comment.
fn extract_object(object: &Pair) -> (result: Result<Option<(ObjectKind, Option<ObjectContent>)>, Error>)
    ensures
        match result {
            Ok(Some(target)) => object_of(*object) matches Ok(Some(found)) && target_is(
                target.0,
                target.1,
                found,
            ) && fits(target.0, target.1),
            Ok(None) => object_of(*object) == Ok::<Option<Extracted>, ErrorView>(None),
            Err(error) => object_of(*object) == Err::<Option<Extracted>, ErrorView>(error@),
        },
{
    match overlay_for(object.rule) {
        Some(overlay) => match AddInstruction::extract_content(object) {
            Ok(content) => Ok(
                Some((ObjectKind::Overlay(overlay), Some(ObjectContent::Overlay(content)))),
            ),
            Err(error) => Err(error),
        },
        None => match object.rule {
            Rule::Attribute => match AddInstruction::extract_groups(object) {
                Ok(attributes) => Ok(
                    Some(
                        (
                            ObjectKind::CaptureBase,
                            Some(
                                ObjectContent::CaptureBase(
                                    CaptureBaseContent {
                                        attributes: Some(attributes),
                                        properties: None,
                                    },
                                ),
                            ),
                        ),
                    ),
                ),
                Err(error) => Err(error),
            },
            Rule::Classification => {
                if object.children.len() > 0 {
                    let mut properties = ValueMap::new();
                    let value = NestedValue::Value(object.children[0].text.clone());
                    proof {
                        assert(texts_of(properties.entries()) =~= Seq::<
                            (Seq<char>, Seq<char>),
                        >::empty());
                        lemma_texts_of_inserted(properties.entries(), "classification"@, value);
                        assert(inserted(
                            Seq::<(Seq<char>, Seq<char>)>::empty(),
                            "classification"@,
                            scalar_text(value),
                        ) =~= seq![("classification"@, object.children@[0].text@)]);
                    }
                    properties.insert("classification".to_owned(), value);
                    Ok(
                        Some(
                            (
                                ObjectKind::CaptureBase,
                                Some(
                                    ObjectContent::CaptureBase(
                                        CaptureBaseContent {
                                            attributes: None,
                                            properties: Some(properties),
                                        },
                                    ),
                                ),
                            ),
                        ),
                    )
                } else {
                    Err(Error::UnexpectedToken("Classification without a value".to_owned()))
                }
            },
            Rule::FlaggedAttrs => Ok(Some((ObjectKind::CaptureBase, None))),
            Rule::Comment => Ok(None),
            _ => Err(Error::UnexpectedToken(rule_message("Overlay: unexpected token ", object.rule))),
        },
    }
}

/// Whether a payload fits a target.
pub open spec fn fits(object_kind: ObjectKind, content: Option<ObjectContent>) -> bool {
    &&& content matches Some(ObjectContent::CaptureBase(_)) ==> object_kind
        == ObjectKind::CaptureBase
    &&& content matches Some(ObjectContent::Overlay(_)) ==> object_kind is Overlay
}

/// Extracts the command of an instruction that adds, removes or modifies.
/// The instruction's nodes are read in order. The target and the payload are
/// those of the last node that is no comment; the first node with an error
/// ends the extraction with that error, and so does an instruction without
/// any target.
pub fn extract_instruction(kind: CommandType, record: &Pair) -> (result: Result<Command, Error>)
    requires
        kind != CommandType::From,
    ensures
        is_extraction(result, kind, *record),
        result matches Ok(command) ==> command.wf(),
{
    let mut target: Option<(ObjectKind, Option<ObjectContent>)> = None;
    let mut i: usize = 0;
    proof {
        assert(record.children@.take(0) =~= Seq::<Pair>::empty());
    }
    while i < record.children.len()
        invariant
            i <= record.children.len(),
            match target {
                Some(read) => objects_of(record.children@.take(i as int)) matches Ok(Some(found))
                    && target_is(read.0, read.1, found) && fits(read.0, read.1),
                None => objects_of(record.children@.take(i as int)) == Ok::<
                    Option<Extracted>,
                    ErrorView,
                >(None),
            },
        decreases record.children.len() - i,
    {
        proof {
            let grown = record.children@.take(i as int + 1);
            assert(grown.drop_last() =~= record.children@.take(i as int));
            assert(grown.last() == record.children@[i as int]);
        }
        match extract_object(&record.children[i]) {
            Ok(Some(read)) => {
                target = Some(read);
            },
            Ok(None) => {},
            Err(error) => {
                proof {
                    lemma_objects_error_stays(record.children@, i as int + 1);
                }
                return Err(error);
            },
        }
        i = i + 1;
    }
    proof {
        assert(record.children@.take(i as int) =~= record.children@);
    }
    match target {
        Some(read) => Ok(Command { kind, object_kind: read.0, content: read.1, said: None }),
        None => Err(Error::UnexpectedToken("Instruction without a target".to_owned())),
    }
}

/// The reader of `ADD` instructions.
pub struct AddInstruction {}

impl AddInstruction {
    /// Extracts the command of an `ADD` instruction. The command is an
    /// `Add` on the target that the instruction's last node names, with what
    /// that node carries; the first node that fits no rule, and the first
    /// type token that names no type, end the extraction with their error.
    pub fn from_record(record: Pair, _index: usize) -> (result: Result<Command, Error>)
        ensures
            is_extraction(result, CommandType::Add, record),
            result matches Ok(command) ==> command.wf(),
    {
        extract_instruction(CommandType::Add, &record)
    }

    /// Reads the pairs below a list of pairs into a map, in order.
    fn extract_pairs(nodes: &Vec<Pair>, map: &mut ValueMap) -> (result: Result<(), Error>)
        requires
            all_scalar(old(map).entries()),
            distinct_keys(old(map).entries()),
        ensures
            match result {
                Ok(_) => all_scalar(final(map).entries()) && distinct_keys(final(map).entries())
                    && pairs_of(nodes@, texts_of(old(map).entries())) == Ok::<TextPairs, ErrorView>(
                    texts_of(final(map).entries()),
                ),
                Err(error) => pairs_of(nodes@, texts_of(old(map).entries())) == Err::<
                    TextPairs,
                    ErrorView,
                >(error@),
            },
    {
        let ghost start = texts_of(map.entries());
        let mut i: usize = 0;
        proof {
            assert(nodes@.take(0) =~= Seq::<Pair>::empty());
        }
        while i < nodes.len()
            invariant
                i <= nodes.len(),
                start == texts_of(old(map).entries()),
                all_scalar(map.entries()),
                distinct_keys(map.entries()),
                pairs_of(nodes@.take(i as int), start) == Ok::<TextPairs, ErrorView>(
                    texts_of(map.entries()),
                ),
            decreases nodes.len() - i,
        {
            proof {
                let grown = nodes@.take(i as int + 1);
                assert(grown.drop_last() =~= nodes@.take(i as int));
                assert(grown.last() == nodes@[i as int]);
            }
            match Self::extract_attribute(&nodes[i]) {
                Ok(read) => {
                    let value = NestedValue::Value(read.1);
                    proof {
                        lemma_texts_of_inserted(map.entries(), read.0@, value);
                    }
                    map.insert(read.0, value);
                },
                Err(error) => {
                    proof {
                        lemma_pairs_error_stays(nodes@, start, i as int + 1);
                    }
                    return Err(error);
                },
            }
            i = i + 1;
        }
        proof {
            assert(nodes@.take(i as int) =~= nodes@);
        }
        Ok(())
    }

    /// Reads the attributes that an attribute instruction declares.
    fn extract_groups(object: &Pair) -> (result: Result<ValueMap, Error>)
        ensures
            match result {
                Ok(map) => all_scalar(map.entries()) && attribute_groups(object.children@) == Ok::<
                    TextPairs,
                    ErrorView,
                >(texts_of(map.entries())),
                Err(error) => attribute_groups(object.children@) == Err::<TextPairs, ErrorView>(
                    error@,
                ),
            },
    {
        let mut attributes = ValueMap::new();
        let mut i: usize = 0;
        proof {
            assert(object.children@.take(0) =~= Seq::<Pair>::empty());
            assert(texts_of(attributes.entries()) =~= Seq::<(Seq<char>, Seq<char>)>::empty());
        }
        while i < object.children.len()
            invariant
                i <= object.children.len(),
                all_scalar(attributes.entries()),
                distinct_keys(attributes.entries()),
                attribute_groups(object.children@.take(i as int)) == Ok::<TextPairs, ErrorView>(
                    texts_of(attributes.entries()),
                ),
            decreases object.children.len() - i,
        {
            let group = &object.children[i];
            proof {
                let grown = object.children@.take(i as int + 1);
                assert(grown.drop_last() =~= object.children@.take(i as int));
                assert(grown.last() == *group);
            }
            match group.rule {
                Rule::AttrPairs => {
                    match Self::extract_pairs(&group.children, &mut attributes) {
                        Ok(_) => {},
                        Err(error) => {
                            proof {
                                lemma_groups_error_stays(object.children@, i as int + 1);
                            }
                            return Err(error);
                        },
                    }
                },
                _ => {
                    proof {
                        lemma_groups_error_stays(object.children@, i as int + 1);
                    }
                    return Err(
                        Error::UnexpectedToken(
                            rule_message("Invalid attributes in ATTRIBUTE instruction ", group.rule),
                        ),
                    );
                },
            }
            i = i + 1;
        }
        proof {
            assert(object.children@.take(i as int) =~= object.children@);
        }
        Ok(attributes)
    }

    /// Reads the properties and the body of an overlay instruction.
    fn extract_content(object: &Pair) -> (result: Result<OverlayContent, Error>)
        ensures
            match result {
                Ok(content) => overlay_content_of(object.children@) matches Ok(read)
                    && content.capture_base_id is None && holds_pairs(
                    content.properties,
                    Some(read.0),
                ) && holds_pairs(content.body, Some(read.1)),
                Err(error) => overlay_content_of(object.children@) == Err::<
                    (TextPairs, TextPairs),
                    ErrorView,
                >(error@),
            },
    {
        let mut properties = ValueMap::new();
        let mut body = ValueMap::new();
        let mut i: usize = 0;
        proof {
            assert(object.children@.take(0) =~= Seq::<Pair>::empty());
            assert(texts_of(properties.entries()) =~= Seq::<(Seq<char>, Seq<char>)>::empty());
            assert(texts_of(body.entries()) =~= Seq::<(Seq<char>, Seq<char>)>::empty());
        }
        while i < object.children.len()
            invariant
                i <= object.children.len(),
                all_scalar(properties.entries()),
                distinct_keys(properties.entries()),
                all_scalar(body.entries()),
                distinct_keys(body.entries()),
                overlay_content_of(object.children@.take(i as int)) == Ok::<
                    (TextPairs, TextPairs),
                    ErrorView,
                >((texts_of(properties.entries()), texts_of(body.entries()))),
            decreases object.children.len() - i,
        {
            let node = &object.children[i];
            proof {
                let grown = object.children@.take(i as int + 1);
                assert(grown.drop_last() =~= object.children@.take(i as int));
                assert(grown.last() == *node);
            }
            match node.rule {
                Rule::AttrKeyPairs => {
                    match Self::extract_pairs(&node.children, &mut body) {
                        Ok(_) => {},
                        Err(error) => {
                            proof {
                                lemma_overlay_error_stays(object.children@, i as int + 1);
                            }
                            return Err(error);
                        },
                    }
                },
                Rule::PropKeyPairs => {
                    match Self::extract_pairs(&node.children, &mut properties) {
                        Ok(_) => {},
                        Err(error) => {
                            proof {
                                lemma_overlay_error_stays(object.children@, i as int + 1);
                            }
                            return Err(error);
                        },
                    }
                },
                Rule::Lang => {
                    let value = NestedValue::Value(node.text.clone());
                    proof {
                        lemma_texts_of_inserted(properties.entries(), "lang"@, value);
                    }
                    properties.insert("lang".to_owned(), value);
                },
                _ => {
                    proof {
                        lemma_overlay_error_stays(object.children@, i as int + 1);
                    }
                    return Err(
                        Error::UnexpectedToken(
                            rule_message("Invalid attribute in instruction ", node.rule),
                        ),
                    );
                },
            }
            i = i + 1;
        }
        proof {
            assert(object.children@.take(i as int) =~= object.children@);
        }
        Ok(OverlayContent { capture_base_id: None, properties: Some(properties), body: Some(body) })
    }

    /// Reads one name-and-value pair.
    fn extract_attribute(pair: &Pair) -> (result: Result<(String, String), Error>)
        ensures
            match result {
                Ok(read) => attribute_of(pair.children@) == Ok::<(Seq<char>, Seq<char>), ErrorView>(
                    (read.0@, read.1@),
                ),
                Err(error) => attribute_of(pair.children@) == Err::<
                    (Seq<char>, Seq<char>),
                    ErrorView,
                >(error@),
            },
    {
        let mut key = String::new();
        let mut value = String::new();
        let mut i: usize = 0;
        proof {
            assert(pair.children@.take(0) =~= Seq::<Pair>::empty());
        }
        while i < pair.children.len()
            invariant
                i <= pair.children.len(),
                attribute_of(pair.children@.take(i as int)) == Ok::<
                    (Seq<char>, Seq<char>),
                    ErrorView,
                >((key@, value@)),
            decreases pair.children.len() - i,
        {
            let item = &pair.children[i];
            proof {
                let grown = pair.children@.take(i as int + 1);
                assert(grown.drop_last() =~= pair.children@.take(i as int));
                assert(grown.last() == *item);
            }
            match item.rule {
                Rule::Key => {
                    key = item.text.clone();
                },
                Rule::AttrType => match AttributeType::from_name(item.text.as_str()) {
                    Some(found) => {
                        value = found.name().to_owned();
                    },
                    None => {
                        proof {
                            lemma_attribute_error_stays(pair.children@, i as int + 1);
                        }
                        return Err(Error::InvalidAttributeType(item.text.clone()));
                    },
                },
                Rule::KeyValue => {
                    value = item.text.clone();
                },
                _ => {
                    proof {
                        lemma_attribute_error_stays(pair.children@, i as int + 1);
                    }
                    return Err(Error::UnexpectedToken(rule_message("Invalid attribute in ", item.rule)));
                },
            }
            i = i + 1;
        }
        proof {
            assert(pair.children@.take(i as int) =~= pair.children@);
        }
        Ok((key, value))
    }
}

/// An error among the first items of a pair is the error of all its items.
pub proof fn lemma_attribute_error_stays(items: Seq<Pair>, n: int)
    requires
        0 <= n <= items.len(),
        attribute_of(items.take(n)) is Err,
    ensures
        attribute_of(items) == attribute_of(items.take(n)),
    decreases items.len() - n,
{
    if n < items.len() {
        let grown = items.take(n + 1);
        assert(grown.drop_last() =~= items.take(n));
        lemma_attribute_error_stays(items, n + 1);
    } else {
        assert(items.take(n) =~= items);
    }
}

/// An error among the first nodes of a list of pairs is the error of the
/// whole list.
pub proof fn lemma_pairs_error_stays(nodes: Seq<Pair>, start: TextPairs, n: int)
    requires
        0 <= n <= nodes.len(),
        pairs_of(nodes.take(n), start) is Err,
    ensures
        pairs_of(nodes, start) == pairs_of(nodes.take(n), start),
    decreases nodes.len() - n,
{
    if n < nodes.len() {
        let grown = nodes.take(n + 1);
        assert(grown.drop_last() =~= nodes.take(n));
        lemma_pairs_error_stays(nodes, start, n + 1);
    } else {
        assert(nodes.take(n) =~= nodes);
    }
}

/// An error among the first groups of an attribute instruction is the error
/// of all its groups.
pub proof fn lemma_groups_error_stays(groups: Seq<Pair>, n: int)
    requires
        0 <= n <= groups.len(),
        attribute_groups(groups.take(n)) is Err,
    ensures
        attribute_groups(groups) == attribute_groups(groups.take(n)),
    decreases groups.len() - n,
{
    if n < groups.len() {
        let grown = groups.take(n + 1);
        assert(grown.drop_last() =~= groups.take(n));
        lemma_groups_error_stays(groups, n + 1);
    } else {
        assert(groups.take(n) =~= groups);
    }
}

/// An error among the first nodes of an overlay instruction is the error of
/// all its nodes.
pub proof fn lemma_overlay_error_stays(nodes: Seq<Pair>, n: int)
    requires
        0 <= n <= nodes.len(),
        overlay_content_of(nodes.take(n)) is Err,
    ensures
        overlay_content_of(nodes) == overlay_content_of(nodes.take(n)),
    decreases nodes.len() - n,
{
    if n < nodes.len() {
        let grown = nodes.take(n + 1);
        assert(grown.drop_last() =~= nodes.take(n));
        lemma_overlay_error_stays(nodes, n + 1);
    } else {
        assert(nodes.take(n) =~= nodes);
    }
}

/// An error among the first nodes of an instruction is the error of all its
/// nodes.
pub proof fn lemma_objects_error_stays(objects: Seq<Pair>, n: int)
    requires
        0 <= n <= objects.len(),
        objects_of(objects.take(n)) is Err,
    ensures
        objects_of(objects) == objects_of(objects.take(n)),
    decreases objects.len() - n,
{
    if n < objects.len() {
        let grown = objects.take(n + 1);
        assert(grown.drop_last() =~= objects.take(n));
        lemma_objects_error_stays(objects, n + 1);
    } else {
        assert(objects.take(n) =~= objects);
    }
}

} // verus!
