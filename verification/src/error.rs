//! What extraction and validation report.

use vstd::prelude::*;

verus! {

/// The semantic rules that a command can break.
#[derive(Debug, Clone, Copy, PartialEq, Eq, Structural)]
pub enum RuleKind {
    /// A removed attribute must be live.
    RemoveExistence,
    /// An added attribute must not be live yet.
    AddUniqueness,
    /// A modified attribute must be live.
    ModifyExistence,
    /// An attribute's value must name an attribute type.
    AttributeType,
}

/// One finding of the validator.
#[derive(Debug, Clone, PartialEq, Eq)]
pub enum ValidationError {
    /// The log has an empty version tag.
    MissingVersion,
    /// The log's version tag selects no rule set.
    InvalidVersion(String),
    /// A rule is broken; the text is the attribute's name.
    RuleViolation(RuleKind, String),
}

/// Why an instruction gave no command, or why a command was rejected.
#[derive(Debug, Clone, PartialEq, Eq)]
pub enum Error {
    /// A node of the parse tree fits no instruction rule.
    UnexpectedToken(String),
    /// A token names no attribute type.
    InvalidAttributeType(String),
    /// A token is not an identifier of a published bundle.
    MalformedIdentifier(String),
    /// The findings of one validation, in the order they were made.
    Validation(Vec<ValidationError>),
}

/// A finding, with its text as a sequence of characters.
pub enum ValidationErrorView {
    MissingVersion,
    InvalidVersion(Seq<char>),
    RuleViolation(RuleKind, Seq<char>),
}

/// An error, with its texts as sequences of characters.
pub enum ErrorView {
    UnexpectedToken(Seq<char>),
    InvalidAttributeType(Seq<char>),
    MalformedIdentifier(Seq<char>),
    Validation(Seq<ValidationErrorView>),
}

impl View for ValidationError {
    type V = ValidationErrorView;

    open spec fn view(&self) -> ValidationErrorView {
        match self {
            ValidationError::MissingVersion => ValidationErrorView::MissingVersion,
            ValidationError::InvalidVersion(version) => ValidationErrorView::InvalidVersion(
                version@,
            ),
            ValidationError::RuleViolation(rule, name) => ValidationErrorView::RuleViolation(
                *rule,
                name@,
            ),
        }
    }
}

/// The findings of a list, each by its view.
pub open spec fn findings_view(findings: Seq<ValidationError>) -> Seq<ValidationErrorView> {
    Seq::new(findings.len(), |i: int| findings[i]@)
}

impl View for Error {
    type V = ErrorView;

    open spec fn view(&self) -> ErrorView {
        match self {
            Error::UnexpectedToken(text) => ErrorView::UnexpectedToken(text@),
            Error::InvalidAttributeType(token) => ErrorView::InvalidAttributeType(token@),
            Error::MalformedIdentifier(token) => ErrorView::MalformedIdentifier(token@),
            Error::Validation(findings) => ErrorView::Validation(findings_view(findings@)),
        }
    }
}

} // verus!
