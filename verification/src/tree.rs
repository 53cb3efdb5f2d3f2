//! The parse tree that extraction reads: tagged nodes with their text and
//! children, as a grammar engine hands them over.

use vstd::prelude::*;

verus! {

/// The rules of the grammar. Every node of a parse tree is tagged with one.
#[derive(Debug, Clone, Copy, PartialEq, Eq, Structural)]
pub enum Rule {
    File,
    From,
    Add,
    Remove,
    Modify,
    Meta,
    Attribute,
    Classification,
    Information,
    Label,
    Unit,
    Format,
    CharacterEncoding,
    CharacterEncodingProps,
    FlaggedAttrs,
    AttrPairs,
    AttrKeyPairs,
    PropKeyPairs,
    KeyPairs,
    AttrPair,
    KeyPair,
    Key,
    AttrType,
    KeyValue,
    Lang,
    FromSaid,
    Comment,
    EmptyLine,
    EOI,
}

/// One node of a parse tree: its rule, the text it spans, and the nodes
/// below it in source order.
#[derive(Debug, PartialEq, Eq)]
pub struct Pair {
    pub rule: Rule,
    pub text: String,
    pub children: Vec<Pair>,
}

impl Rule {
    /// The rule's name as the grammar writes it.
    pub open spec fn spec_name(self) -> Seq<char> {
        match self {
            Rule::File => "file"@,
            Rule::From => "from"@,
            Rule::Add => "add"@,
            Rule::Remove => "remove"@,
            Rule::Modify => "modify"@,
            Rule::Meta => "meta"@,
            Rule::Attribute => "attribute"@,
            Rule::Classification => "classification"@,
            Rule::Information => "information"@,
            Rule::Label => "label"@,
            Rule::Unit => "unit"@,
            Rule::Format => "format"@,
            Rule::CharacterEncoding => "character_encoding"@,
            Rule::CharacterEncodingProps => "character_encoding_props"@,
            Rule::FlaggedAttrs => "flagged_attrs"@,
            Rule::AttrPairs => "attr_pairs"@,
            Rule::AttrKeyPairs => "attr_key_pairs"@,
            Rule::PropKeyPairs => "prop_key_pairs"@,
            Rule::KeyPairs => "key_pairs"@,
            Rule::AttrPair => "attr_pair"@,
            Rule::KeyPair => "key_pair"@,
            Rule::Key => "key"@,
            Rule::AttrType => "attr_type"@,
            Rule::KeyValue => "key_value"@,
            Rule::Lang => "lang"@,
            Rule::FromSaid => "from_said"@,
            Rule::Comment => "comment"@,
            Rule::EmptyLine => "empty_line"@,
            Rule::EOI => "EOI"@,
        }
    }

    /// The rule's name as the grammar writes it.
    pub fn name(&self) -> (text: &'static str)
        ensures
            text@ == self.spec_name(),
    {
        match self {
            Rule::File => "file",
            Rule::From => "from",
            Rule::Add => "add",
            Rule::Remove => "remove",
            Rule::Modify => "modify",
            Rule::Meta => "meta",
            Rule::Attribute => "attribute",
            Rule::Classification => "classification",
            Rule::Information => "information",
            Rule::Label => "label",
            Rule::Unit => "unit",
            Rule::Format => "format",
            Rule::CharacterEncoding => "character_encoding",
            Rule::CharacterEncodingProps => "character_encoding_props",
            Rule::FlaggedAttrs => "flagged_attrs",
            Rule::AttrPairs => "attr_pairs",
            Rule::AttrKeyPairs => "attr_key_pairs",
            Rule::PropKeyPairs => "prop_key_pairs",
            Rule::KeyPairs => "key_pairs",
            Rule::AttrPair => "attr_pair",
            Rule::KeyPair => "key_pair",
            Rule::Key => "key",
            Rule::AttrType => "attr_type",
            Rule::KeyValue => "key_value",
            Rule::Lang => "lang",
            Rule::FromSaid => "from_said",
            Rule::Comment => "comment",
            Rule::EmptyLine => "empty_line",
            Rule::EOI => "EOI",
        }
    }
}

impl Pair {
    /// A node without children.
    pub fn leaf(rule: Rule, text: String) -> (pair: Self)
        ensures
            pair.rule == rule,
            pair.text == text,
            pair.children@ == Seq::<Pair>::empty(),
    {
        Pair { rule, text, children: Vec::new() }
    }

    /// A node above the given children.
    pub fn node(rule: Rule, text: String, children: Vec<Pair>) -> (pair: Self)
        ensures
            pair.rule == rule,
            pair.text == text,
            pair.children == children,
    {
        Pair { rule, text, children }
    }

    /// The rule the node is tagged with.
    pub fn as_rule(&self) -> (rule: Rule)
        ensures
            rule == self.rule,
    {
        self.rule
    }

    /// The text the node spans.
    pub fn as_str(&self) -> (text: &str)
        ensures
            text@ == self.text@,
    {
        self.text.as_str()
    }
}

} // verus!
