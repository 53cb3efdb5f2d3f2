//! The command log and the commands it holds.

use vstd::prelude::*;
use crate::text::str_eq;
use crate::value::{NestedValue, ValueMap};

verus! {

/// What a command does to its target.
#[derive(Debug, Clone, Copy, PartialEq, Eq, Structural)]
pub enum CommandType {
    Add,
    Remove,
    Modify,
    From,
}

/// The kinds of overlay. The set is closed.
#[derive(Debug, Clone, Copy, PartialEq, Eq, Structural)]
pub enum OverlayType {
    Label,
    Information,
    Encoding,
    CharacterEncoding,
    Format,
    Meta,
    Standard,
    Cardinality,
    Conditional,
    Conformance,
    EntryCode,
    Entry,
    Unit,
    AttributeMapping,
    EntryCodeMapping,
    Subset,
    UnitMapping,
    Layout,
    Sensitivity,
}

/// The object a command targets.
#[derive(Debug, Clone, Copy, PartialEq, Eq, Structural)]
pub enum ObjectKind {
    CaptureBase,
    Overlay(OverlayType),
}

/// The types an attribute can have: six scalar kinds and an array of each.
#[derive(Debug, Clone, Copy, PartialEq, Eq, Structural)]
pub enum AttributeType {
    Boolean,
    ArrayBoolean,
    Binary,
    ArrayBinary,
    Text,
    ArrayText,
    Numeric,
    ArrayNumeric,
    DateTime,
    ArrayDateTime,
    Reference,
    ArrayReference,
}

/// Attribute declarations and properties of a capture base.
#[derive(Debug, Clone, PartialEq)]
pub struct CaptureBaseContent {
    pub attributes: Option<ValueMap>,
    pub properties: Option<ValueMap>,
}

/// Metadata and payload of an overlay.
#[derive(Debug, Clone, PartialEq)]
pub struct OverlayContent {
    pub capture_base_id: Option<String>,
    pub properties: Option<ValueMap>,
    pub body: Option<ValueMap>,
}

/// The payload of a command, one variant per kind of target.
#[derive(Debug, Clone, PartialEq)]
pub enum ObjectContent {
    CaptureBase(CaptureBaseContent),
    Overlay(OverlayContent),
}

/// One operation of the log.
#[derive(Debug, Clone, PartialEq)]
pub struct Command {
    pub kind: CommandType,
    pub object_kind: ObjectKind,
    pub content: Option<ObjectContent>,
    /// The identifier of the bundle that a `From` command builds on.
    pub said: Option<String>,
}

/// The command log: a version tag and the commands in the order they were
/// appended.
#[derive(Debug, Clone, PartialEq)]
pub struct OCAAst {
    pub version: String,
    pub commands: Vec<Command>,
}

impl Command {
    /// The payload fits the target, and exactly a `From` command carries an
    /// identifier, in place of a payload.
    pub open spec fn wf(&self) -> bool {
        &&& self.content matches Some(ObjectContent::CaptureBase(_)) ==> self.object_kind
            == ObjectKind::CaptureBase
        &&& self.content matches Some(ObjectContent::Overlay(_)) ==> self.object_kind is Overlay
        &&& self.kind == CommandType::From <==> self.said is Some
        &&& self.kind == CommandType::From ==> self.content is None
    }

    /// The attributes that the command names on a capture base, in the order
    /// it gives them. A command on an overlay, or without attributes, names
    /// none.
    pub open spec fn attribute_entries(&self) -> Seq<(Seq<char>, NestedValue)> {
        if self.object_kind == ObjectKind::CaptureBase {
            match self.content {
                Some(ObjectContent::CaptureBase(content)) => match content.attributes {
                    Some(attributes) => attributes.entries(),
                    None => Seq::empty(),
                },
                _ => Seq::empty(),
            }
        } else {
            Seq::empty()
        }
    }

    /// A command on a capture base.
    pub fn capture_base(kind: CommandType, content: Option<CaptureBaseContent>) -> (command: Self)
        requires
            kind != CommandType::From,
        ensures
            command.wf(),
            command.kind == kind,
            command.object_kind == ObjectKind::CaptureBase,
            command.said is None,
            command.content == match content {
                Some(inner) => Some(ObjectContent::CaptureBase(inner)),
                None => None,
            },
    {
        let content = match content {
            Some(inner) => Some(ObjectContent::CaptureBase(inner)),
            None => None,
        };
        Command { kind, object_kind: ObjectKind::CaptureBase, content, said: None }
    }

    /// A command on an overlay of the given kind.
    pub fn overlay(kind: CommandType, overlay: OverlayType, content: Option<OverlayContent>) -> (command:
        Self)
        requires
            kind != CommandType::From,
        ensures
            command.wf(),
            command.kind == kind,
            command.object_kind == ObjectKind::Overlay(overlay),
            command.said is None,
            command.content == match content {
                Some(inner) => Some(ObjectContent::Overlay(inner)),
                None => None,
            },
    {
        let content = match content {
            Some(inner) => Some(ObjectContent::Overlay(inner)),
            None => None,
        };
        Command { kind, object_kind: ObjectKind::Overlay(overlay), content, said: None }
    }

    /// A command that names the bundle the log builds on.
    pub fn from_bundle(said: String) -> (command: Self)
        ensures
            command.wf(),
            command.kind == CommandType::From,
            command.object_kind == ObjectKind::CaptureBase,
            command.content is None,
            command.said == Some(said),
    {
        Command {
            kind: CommandType::From,
            object_kind: ObjectKind::CaptureBase,
            content: None,
            said: Some(said),
        }
    }

    /// The map of the attributes that the command names on a capture base.
    pub fn attributes(&self) -> (found: Option<&ValueMap>)
        ensures
            found matches Some(attributes) ==> self.attribute_entries() == attributes.entries(),
            found is None ==> self.attribute_entries() == Seq::<(Seq<char>, NestedValue)>::empty(),
            found is Some <==> self.object_kind == ObjectKind::CaptureBase && (
            self.content matches Some(ObjectContent::CaptureBase(content))
                && content.attributes is Some),
    {
        match self.object_kind {
            ObjectKind::CaptureBase => match &self.content {
                Some(ObjectContent::CaptureBase(content)) => match &content.attributes {
                    Some(attributes) => Some(attributes),
                    None => None,
                },
                _ => None,
            },
            ObjectKind::Overlay(_) => None,
        }
    }
}

impl OCAAst {
    /// The version tag of a new log.
    pub open spec fn default_version() -> Seq<char> {
        "1.0"@
    }

    /// An empty log with the default version tag.
    pub fn new() -> (ast: Self)
        ensures
            ast.version@ == Self::default_version(),
            ast.commands@ == Seq::<Command>::empty(),
    {
        OCAAst { version: "1.0".to_owned(), commands: Vec::new() }
    }

    /// An empty log with the given version tag.
    pub fn with_version(version: String) -> (ast: Self)
        ensures
            ast.version == version,
            ast.commands@ == Seq::<Command>::empty(),
    {
        OCAAst { version, commands: Vec::new() }
    }

    /// Appends a command. The commands that were there stay as they are, in
    /// their order, and the version tag is kept.
    pub fn append(&mut self, command: Command)
        ensures
            final(self).version == old(self).version,
            final(self).commands@ == old(self).commands@.push(command),
    {
        self.commands.push(command);
    }

    /// The number of commands.
    pub fn len(&self) -> (n: usize)
        ensures
            n == self.commands@.len(),
    {
        self.commands.len()
    }
}

impl OverlayType {
    /// The name of the overlay kind, as it is written in a serialized log.
    pub open spec fn spec_name(self) -> Seq<char> {
        match self {
            OverlayType::Label => "Label"@,
            OverlayType::Information => "Information"@,
            OverlayType::Encoding => "Encoding"@,
            OverlayType::CharacterEncoding => "CharacterEncoding"@,
            OverlayType::Format => "Format"@,
            OverlayType::Meta => "Meta"@,
            OverlayType::Standard => "Standard"@,
            OverlayType::Cardinality => "Cardinality"@,
            OverlayType::Conditional => "Conditional"@,
            OverlayType::Conformance => "Conformance"@,
            OverlayType::EntryCode => "EntryCode"@,
            OverlayType::Entry => "Entry"@,
            OverlayType::Unit => "Unit"@,
            OverlayType::AttributeMapping => "AttributeMapping"@,
            OverlayType::EntryCodeMapping => "EntryCodeMapping"@,
            OverlayType::Subset => "Subset"@,
            OverlayType::UnitMapping => "UnitMapping"@,
            OverlayType::Layout => "Layout"@,
            OverlayType::Sensitivity => "Sensitivity"@,
        }
    }

    /// The overlay kind that a token names, if it names one.
    pub open spec fn spec_from_name(token: Seq<char>) -> Option<OverlayType> {
        if token == "Label"@ {
            Some(OverlayType::Label)
        } else if token == "Information"@ {
            Some(OverlayType::Information)
        } else if token == "Encoding"@ {
            Some(OverlayType::Encoding)
        } else if token == "CharacterEncoding"@ {
            Some(OverlayType::CharacterEncoding)
        } else if token == "Format"@ {
            Some(OverlayType::Format)
        } else if token == "Meta"@ {
            Some(OverlayType::Meta)
        } else if token == "Standard"@ {
            Some(OverlayType::Standard)
        } else if token == "Cardinality"@ {
            Some(OverlayType::Cardinality)
        } else if token == "Conditional"@ {
            Some(OverlayType::Conditional)
        } else if token == "Conformance"@ {
            Some(OverlayType::Conformance)
        } else if token == "EntryCode"@ {
            Some(OverlayType::EntryCode)
        } else if token == "Entry"@ {
            Some(OverlayType::Entry)
        } else if token == "Unit"@ {
            Some(OverlayType::Unit)
        } else if token == "AttributeMapping"@ {
            Some(OverlayType::AttributeMapping)
        } else if token == "EntryCodeMapping"@ {
            Some(OverlayType::EntryCodeMapping)
        } else if token == "Subset"@ {
            Some(OverlayType::Subset)
        } else if token == "UnitMapping"@ {
            Some(OverlayType::UnitMapping)
        } else if token == "Layout"@ {
            Some(OverlayType::Layout)
        } else if token == "Sensitivity"@ {
            Some(OverlayType::Sensitivity)
        } else {
            None
        }
    }

    /// Resolves a token to the overlay kind it names.
    pub fn from_name(token: &str) -> (found: Option<OverlayType>)
        ensures
            found == Self::spec_from_name(token@),
    {
        if str_eq(token, "Label") {
            Some(OverlayType::Label)
        } else if str_eq(token, "Information") {
            Some(OverlayType::Information)
        } else if str_eq(token, "Encoding") {
            Some(OverlayType::Encoding)
        } else if str_eq(token, "CharacterEncoding") {
            Some(OverlayType::CharacterEncoding)
        } else if str_eq(token, "Format") {
            Some(OverlayType::Format)
        } else if str_eq(token, "Meta") {
            Some(OverlayType::Meta)
        } else if str_eq(token, "Standard") {
            Some(OverlayType::Standard)
        } else if str_eq(token, "Cardinality") {
            Some(OverlayType::Cardinality)
        } else if str_eq(token, "Conditional") {
            Some(OverlayType::Conditional)
        } else if str_eq(token, "Conformance") {
            Some(OverlayType::Conformance)
        } else if str_eq(token, "EntryCode") {
            Some(OverlayType::EntryCode)
        } else if str_eq(token, "Entry") {
            Some(OverlayType::Entry)
        } else if str_eq(token, "Unit") {
            Some(OverlayType::Unit)
        } else if str_eq(token, "AttributeMapping") {
            Some(OverlayType::AttributeMapping)
        } else if str_eq(token, "EntryCodeMapping") {
            Some(OverlayType::EntryCodeMapping)
        } else if str_eq(token, "Subset") {
            Some(OverlayType::Subset)
        } else if str_eq(token, "UnitMapping") {
            Some(OverlayType::UnitMapping)
        } else if str_eq(token, "Layout") {
            Some(OverlayType::Layout)
        } else if str_eq(token, "Sensitivity") {
            Some(OverlayType::Sensitivity)
        } else {
            None
        }
    }

    /// The name of the overlay kind.
    pub fn name(&self) -> (text: &'static str)
        ensures
            text@ == self.spec_name(),
    {
        match self {
            OverlayType::Label => "Label",
            OverlayType::Information => "Information",
            OverlayType::Encoding => "Encoding",
            OverlayType::CharacterEncoding => "CharacterEncoding",
            OverlayType::Format => "Format",
            OverlayType::Meta => "Meta",
            OverlayType::Standard => "Standard",
            OverlayType::Cardinality => "Cardinality",
            OverlayType::Conditional => "Conditional",
            OverlayType::Conformance => "Conformance",
            OverlayType::EntryCode => "EntryCode",
            OverlayType::Entry => "Entry",
            OverlayType::Unit => "Unit",
            OverlayType::AttributeMapping => "AttributeMapping",
            OverlayType::EntryCodeMapping => "EntryCodeMapping",
            OverlayType::Subset => "Subset",
            OverlayType::UnitMapping => "UnitMapping",
            OverlayType::Layout => "Layout",
            OverlayType::Sensitivity => "Sensitivity",
        }
    }
}

impl ObjectKind {
    /// The name a serialized log gives the target: `CaptureBase`, or the
    /// overlay kind's own name.
    pub open spec fn spec_name(self) -> Seq<char> {
        match self {
            ObjectKind::CaptureBase => "CaptureBase"@,
            ObjectKind::Overlay(overlay) => overlay.spec_name(),
        }
    }

    /// The target that a token names, if it names one.
    pub open spec fn spec_from_name(token: Seq<char>) -> Option<ObjectKind> {
        if token == "CaptureBase"@ {
            Some(ObjectKind::CaptureBase)
        } else {
            match OverlayType::spec_from_name(token) {
                Some(overlay) => Some(ObjectKind::Overlay(overlay)),
                None => None,
            }
        }
    }

    /// Resolves a token to the target it names.
    pub fn from_name(token: &str) -> (found: Option<ObjectKind>)
        ensures
            found == Self::spec_from_name(token@),
    {
        if str_eq(token, "CaptureBase") {
            Some(ObjectKind::CaptureBase)
        } else {
            match OverlayType::from_name(token) {
                Some(overlay) => Some(ObjectKind::Overlay(overlay)),
                None => None,
            }
        }
    }

    /// The name of the target.
    pub fn name(&self) -> (text: &'static str)
        ensures
            text@ == self.spec_name(),
    {
        match self {
            ObjectKind::CaptureBase => "CaptureBase",
            ObjectKind::Overlay(overlay) => overlay.name(),
        }
    }
}

impl CommandType {
    /// The name of the operation, as it is written in a serialized log.
    pub open spec fn spec_name(self) -> Seq<char> {
        match self {
            CommandType::Add => "Add"@,
            CommandType::Remove => "Remove"@,
            CommandType::Modify => "Modify"@,
            CommandType::From => "From"@,
        }
    }

    /// The operation that a token names, if it names one.
    pub open spec fn spec_from_name(token: Seq<char>) -> Option<CommandType> {
        if token == "Add"@ {
            Some(CommandType::Add)
        } else if token == "Remove"@ {
            Some(CommandType::Remove)
        } else if token == "Modify"@ {
            Some(CommandType::Modify)
        } else if token == "From"@ {
            Some(CommandType::From)
        } else {
            None
        }
    }

    /// Resolves a token to the operation it names.
    pub fn from_name(token: &str) -> (found: Option<CommandType>)
        ensures
            found == Self::spec_from_name(token@),
    {
        if str_eq(token, "Add") {
            Some(CommandType::Add)
        } else if str_eq(token, "Remove") {
            Some(CommandType::Remove)
        } else if str_eq(token, "Modify") {
            Some(CommandType::Modify)
        } else if str_eq(token, "From") {
            Some(CommandType::From)
        } else {
            None
        }
    }

    /// The name of the operation.
    pub fn name(&self) -> (text: &'static str)
        ensures
            text@ == self.spec_name(),
    {
        match self {
            CommandType::Add => "Add",
            CommandType::Remove => "Remove",
            CommandType::Modify => "Modify",
            CommandType::From => "From",
        }
    }
}

impl AttributeType {
    /// The literal that names the type: the bare kind, or `Array[..]` around
    /// it.
    pub open spec fn spec_name(self) -> Seq<char> {
        match self {
            AttributeType::Boolean => "Boolean"@,
            AttributeType::ArrayBoolean => "Array[Boolean]"@,
            AttributeType::Binary => "Binary"@,
            AttributeType::ArrayBinary => "Array[Binary]"@,
            AttributeType::Text => "Text"@,
            AttributeType::ArrayText => "Array[Text]"@,
            AttributeType::Numeric => "Numeric"@,
            AttributeType::ArrayNumeric => "Array[Numeric]"@,
            AttributeType::DateTime => "DateTime"@,
            AttributeType::ArrayDateTime => "Array[DateTime]"@,
            AttributeType::Reference => "Reference"@,
            AttributeType::ArrayReference => "Array[Reference]"@,
        }
    }

    /// The type that a token names, if it names one: the match is exact and
    /// case-sensitive.
    pub open spec fn spec_from_name(token: Seq<char>) -> Option<AttributeType> {
        if token == "Boolean"@ {
            Some(AttributeType::Boolean)
        } else if token == "Array[Boolean]"@ {
            Some(AttributeType::ArrayBoolean)
        } else if token == "Binary"@ {
            Some(AttributeType::Binary)
        } else if token == "Array[Binary]"@ {
            Some(AttributeType::ArrayBinary)
        } else if token == "Text"@ {
            Some(AttributeType::Text)
        } else if token == "Array[Text]"@ {
            Some(AttributeType::ArrayText)
        } else if token == "Numeric"@ {
            Some(AttributeType::Numeric)
        } else if token == "Array[Numeric]"@ {
            Some(AttributeType::ArrayNumeric)
        } else if token == "DateTime"@ {
            Some(AttributeType::DateTime)
        } else if token == "Array[DateTime]"@ {
            Some(AttributeType::ArrayDateTime)
        } else if token == "Reference"@ {
            Some(AttributeType::Reference)
        } else if token == "Array[Reference]"@ {
            Some(AttributeType::ArrayReference)
        } else {
            None
        }
    }

    /// The literal that names the type.
    pub fn name(&self) -> (text: &'static str)
        ensures
            text@ == self.spec_name(),
    {
        match self {
            AttributeType::Boolean => "Boolean",
            AttributeType::ArrayBoolean => "Array[Boolean]",
            AttributeType::Binary => "Binary",
            AttributeType::ArrayBinary => "Array[Binary]",
            AttributeType::Text => "Text",
            AttributeType::ArrayText => "Array[Text]",
            AttributeType::Numeric => "Numeric",
            AttributeType::ArrayNumeric => "Array[Numeric]",
            AttributeType::DateTime => "DateTime",
            AttributeType::ArrayDateTime => "Array[DateTime]",
            AttributeType::Reference => "Reference",
            AttributeType::ArrayReference => "Array[Reference]",
        }
    }

    /// Resolves a token to the type it names.
    pub fn from_name(token: &str) -> (found: Option<AttributeType>)
        ensures
            found == Self::spec_from_name(token@),
    {
        if str_eq(token, "Boolean") {
            Some(AttributeType::Boolean)
        } else if str_eq(token, "Array[Boolean]") {
            Some(AttributeType::ArrayBoolean)
        } else if str_eq(token, "Binary") {
            Some(AttributeType::Binary)
        } else if str_eq(token, "Array[Binary]") {
            Some(AttributeType::ArrayBinary)
        } else if str_eq(token, "Text") {
            Some(AttributeType::Text)
        } else if str_eq(token, "Array[Text]") {
            Some(AttributeType::ArrayText)
        } else if str_eq(token, "Numeric") {
            Some(AttributeType::Numeric)
        } else if str_eq(token, "Array[Numeric]") {
            Some(AttributeType::ArrayNumeric)
        } else if str_eq(token, "DateTime") {
            Some(AttributeType::DateTime)
        } else if str_eq(token, "Array[DateTime]") {
            Some(AttributeType::ArrayDateTime)
        } else if str_eq(token, "Reference") {
            Some(AttributeType::Reference)
        } else if str_eq(token, "Array[Reference]") {
            Some(AttributeType::ArrayReference)
        } else {
            None
        }
    }
}

/// A type's name resolves to the type, and a token resolves to a type only
/// if it is that type's name.
pub proof fn lemma_attribute_type_names(attribute_type: AttributeType, token: Seq<char>)
    ensures
        AttributeType::spec_from_name(attribute_type.spec_name()) == Some(attribute_type),
        AttributeType::spec_from_name(token) == Some(attribute_type) ==> token
            == attribute_type.spec_name(),
{
    reveal_strlit("Boolean");
    reveal_strlit("Array[Boolean]");
    reveal_strlit("Binary");
    reveal_strlit("Array[Binary]");
    reveal_strlit("Text");
    reveal_strlit("Array[Text]");
    reveal_strlit("Numeric");
    reveal_strlit("Array[Numeric]");
    reveal_strlit("DateTime");
    reveal_strlit("Array[DateTime]");
    reveal_strlit("Reference");
    reveal_strlit("Array[Reference]");
    let name = attribute_type.spec_name();
    assert("Boolean"@[1] == 'o' && "Binary"@[1] == 'i' && "Text"@[1] == 'e' && "Numeric"@[1] == 'u'
        && "DateTime"@[1] == 'a' && "Reference"@[2] == 'f' && "Text"@[2] == 'x');
    assert("Array[Boolean]"@[7] == 'o' && "Array[Binary]"@[7] == 'i' && "Array[Text]"@[7] == 'e'
        && "Array[Numeric]"@[7] == 'u' && "Array[DateTime]"@[7] == 'a' && "Array[Reference]"@[8]
        == 'f' && "Array[Text]"@[8] == 'x');
    assert("Array[Boolean]"@[0] == 'A' && "Array[Binary]"@[0] == 'A' && "Array[Text]"@[0] == 'A'
        && "Array[Numeric]"@[0] == 'A' && "Array[DateTime]"@[0] == 'A' && "Array[Reference]"@[0]
        == 'A');
    assert("Boolean"@[0] == 'B' && "Binary"@[0] == 'B' && "Text"@[0] == 'T' && "Numeric"@[0] == 'N'
        && "DateTime"@[0] == 'D' && "Reference"@[0] == 'R');
}

/// The name of an operation resolves to the operation.
pub proof fn lemma_command_type_names(kind: CommandType)
    ensures
        CommandType::spec_from_name(kind.spec_name()) == Some(kind),
{
    reveal_strlit("Add");
    reveal_strlit("Remove");
    reveal_strlit("Modify");
    reveal_strlit("From");
    assert("Add"@.len() == 3);
    assert("Remove"@.len() == 6);
    assert("Modify"@.len() == 6);
    assert("From"@.len() == 4);
    assert("Modify"@[0] == 'M');
    assert("Remove"@[0] == 'R');
}

/// The name of an overlay kind resolves to the kind.
pub proof fn lemma_overlay_type_names(overlay: OverlayType)
    ensures
        OverlayType::spec_from_name(overlay.spec_name()) == Some(overlay),
        overlay.spec_name() != "CaptureBase"@,
{
    reveal_strlit("Label");
    reveal_strlit("Information");
    reveal_strlit("Encoding");
    reveal_strlit("CharacterEncoding");
    reveal_strlit("Format");
    reveal_strlit("Meta");
    reveal_strlit("Standard");
    reveal_strlit("Cardinality");
    reveal_strlit("Conditional");
    reveal_strlit("Conformance");
    reveal_strlit("EntryCode");
    reveal_strlit("Entry");
    reveal_strlit("Unit");
    reveal_strlit("AttributeMapping");
    reveal_strlit("EntryCodeMapping");
    reveal_strlit("Subset");
    reveal_strlit("UnitMapping");
    reveal_strlit("Layout");
    reveal_strlit("Sensitivity");
    reveal_strlit("CaptureBase");
    assert("Label"@.len() == 5);
    assert("Information"@.len() == 11);
    assert("Encoding"@.len() == 8);
    assert("CharacterEncoding"@.len() == 17);
    assert("Format"@.len() == 6);
    assert("Meta"@.len() == 4);
    assert("Standard"@.len() == 8);
    assert("Cardinality"@.len() == 11);
    assert("Conditional"@.len() == 11);
    assert("Conformance"@.len() == 11);
    assert("EntryCode"@.len() == 9);
    assert("Entry"@.len() == 5);
    assert("Unit"@.len() == 4);
    assert("AttributeMapping"@.len() == 16);
    assert("EntryCodeMapping"@.len() == 16);
    assert("Subset"@.len() == 6);
    assert("UnitMapping"@.len() == 11);
    assert("Layout"@.len() == 6);
    assert("Sensitivity"@.len() == 11);
    assert("CaptureBase"@.len() == 11);
    assert("AttributeMapping"@[0] == 'A');
    assert("CaptureBase"@[0] == 'C');
    assert("CaptureBase"@[1] == 'a');
    assert("CaptureBase"@[2] == 'p');
    assert("Cardinality"@[0] == 'C');
    assert("Cardinality"@[1] == 'a');
    assert("Cardinality"@[2] == 'r');
    assert("Conditional"@[0] == 'C');
    assert("Conditional"@[1] == 'o');
    assert("Conditional"@[3] == 'd');
    assert("Conformance"@[0] == 'C');
    assert("Conformance"@[1] == 'o');
    assert("Conformance"@[3] == 'f');
    assert("Encoding"@[0] == 'E');
    assert("Entry"@[0] == 'E');
    assert("EntryCodeMapping"@[0] == 'E');
    assert("Format"@[0] == 'F');
    assert("Information"@[0] == 'I');
    assert("Label"@[0] == 'L');
    assert("Layout"@[0] == 'L');
    assert("Meta"@[0] == 'M');
    assert("Sensitivity"@[0] == 'S');
    assert("Standard"@[0] == 'S');
    assert("Subset"@[0] == 'S');
    assert("Unit"@[0] == 'U');
    assert("UnitMapping"@[0] == 'U');
}

/// The name of a target resolves to the target.
pub proof fn lemma_object_kind_names(object_kind: ObjectKind)
    ensures
        ObjectKind::spec_from_name(object_kind.spec_name()) == Some(object_kind),
{
    match object_kind {
        ObjectKind::CaptureBase => {},
        ObjectKind::Overlay(overlay) => {
            lemma_overlay_type_names(overlay);
        },
    }
}

} // verus!
