//! Command log for schema evolution: the typed commands, the ordered map they
//! carry, the extraction of commands from a parse tree, and the validator that
//! replays a log to accept or reject a new command.

pub mod ast;
pub mod error;
pub mod instructions;
pub mod ocafile;
pub mod structure;
pub mod text;
pub mod tree;
pub mod validator;
pub mod value;

pub use ast::{
    AttributeType, CaptureBaseContent, Command, CommandType, OCAAst, ObjectContent, ObjectKind,
    OverlayContent, OverlayType,
};
pub use error::{Error, ErrorView, RuleKind, ValidationError, ValidationErrorView};
pub use instructions::add::AddInstruction;
pub use instructions::from::FromInstruction;
pub use ocafile::{OCAfileParser, TryFromPair};
pub use tree::{Pair, Rule};
pub use validator::{OCAValidator, Validator};
pub use value::{NestedValue, ValueMap};
