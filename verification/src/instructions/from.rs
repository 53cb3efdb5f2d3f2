//! The instruction that names the bundle a log builds on.

use vstd::prelude::*;
use vstd::string::StrSliceExecFns;
use vstd::string::StringExecFns;
use vstd::utf8::is_ascii_chars;
use crate::ast::{Command, CommandType, ObjectKind};
use crate::error::{Error, ErrorView};
use crate::tree::{Pair, Rule};

verus! {

/// Whether a token is read as a self-addressing identifier. The reading is
/// that of the `said` crate: a code for the digest's algorithm, then the
/// digest in the URL-safe base-64 alphabet, of the length the code calls for.
pub uninterp spec fn is_said(token: Seq<char>) -> bool;

/// Whether a token starts with the code of a digest algorithm and has the
/// length that the code calls for: one of the letters `E` to `I` and 44
/// characters in all, or `0` with one of the letters `D` to `G` and 88
/// characters in all.
pub open spec fn has_code(token: Seq<char>) -> bool {
    ||| token.len() == 44 && (token[0] == 'E' || token[0] == 'F' || token[0] == 'G' || token[0]
        == 'H' || token[0] == 'I')
    ||| token.len() == 88 && token[0] == '0' && (token[1] == 'D' || token[1] == 'E' || token[1]
        == 'F' || token[1] == 'G')
}

/// `SelfAddressingIdentifier::from_str` of the `said` crate: whether it
/// reads the token as an identifier. The contract says that this depends on
/// the token alone, and that a token that is read has a code and the code's
/// length; whether the digest behind the code is accepted is the decoder's
/// matter, padding included, and is not stated. Tokens that are not ASCII or
/// are shorter than two characters are left out: on some of them the reading
/// slices the token out of bounds.
#[verifier::external_body]
fn said_reads(token: &str) -> (read: bool)
    requires
        is_ascii_chars(token@),
        token@.len() >= 2,
    ensures
        read == is_said(token@),
        read ==> has_code(token@),
{
    token.parse::<said::SelfAddressingIdentifier>().is_ok()
}

/// Whether a token can be an identifier at all: it is ASCII and has at least
/// the code and one more character.
pub open spec fn well_shaped(token: Seq<char>) -> bool {
    is_ascii_chars(token) && token.len() >= 2
}

/// Whether a token is an identifier: it is well shaped and is read as one.
pub open spec fn is_identifier(token: Seq<char>) -> bool {
    well_shaped(token) && is_said(token)
}

/// The token of the last identifier node among the fields of a `FROM`
/// instruction. Comments are passed over; any other node is an error.
pub open spec fn from_token_of(fields: Seq<Pair>) -> Result<Option<Seq<char>>, ErrorView>
    decreases fields.len(),
{
    if fields.len() == 0 {
        Ok(None)
    } else {
        match from_token_of(fields.drop_last()) {
            Ok(earlier) => match fields.last().rule {
                Rule::FromSaid => Ok(Some(fields.last().text@)),
                Rule::Comment => Ok(earlier),
                _ => Err(
                    ErrorView::UnexpectedToken("unexpected token "@ + fields.last().rule.spec_name()),
                ),
            },
            Err(error) => Err(error),
        }
    }
}

/// What becomes of a token once it was checked: it is the identifier, or it
/// is malformed.
pub open spec fn from_check(token: Seq<char>, accepted: bool) -> Result<Seq<char>, ErrorView> {
    if accepted {
        Ok(token)
    } else {
        Err(ErrorView::MalformedIdentifier(token))
    }
}

/// What a `FROM` instruction says: its token, where that is an identifier,
/// or why there is none.
pub open spec fn from_of(record: Pair) -> Result<Seq<char>, ErrorView> {
    match from_token_of(record.children@) {
        Ok(Some(token)) => from_check(token, is_identifier(token)),
        Ok(None) => Err(ErrorView::UnexpectedToken("FROM instruction without an identifier"@)),
        Err(error) => Err(error),
    }
}

/// Whether a result is the `From` command for the given identifier, or the
/// given error.
pub open spec fn is_from(result: Result<Command, Error>, expected: Result<Seq<char>, ErrorView>) -> bool {
    match result {
        Ok(command) => {
            &&& command.kind == CommandType::From
            &&& command.object_kind == ObjectKind::CaptureBase
            &&& command.content is None
            &&& command.said is Some
            &&& expected == Ok::<Seq<char>, ErrorView>(command.said->0@)
        },
        Err(error) => expected == Err::<Seq<char>, ErrorView>(error@),
    }
}

/// An error among the first fields of a `FROM` instruction is the error of
/// all its fields.
pub proof fn lemma_from_error_stays(fields: Seq<Pair>, n: int)
    requires
        0 <= n <= fields.len(),
        from_token_of(fields.take(n)) is Err,
    ensures
        from_token_of(fields) == from_token_of(fields.take(n)),
    decreases fields.len() - n,
{
    if n < fields.len() {
        let grown = fields.take(n + 1);
        assert(grown.drop_last() =~= fields.take(n));
        lemma_from_error_stays(fields, n + 1);
    } else {
        assert(fields.take(n) =~= fields);
    }
}

/// Checks whether a token is an identifier. A token that is not well
/// shaped is not handed to the reader.
pub fn check_identifier(token: &str) -> (accepted: bool)
    ensures
        accepted == is_identifier(token@),
        accepted ==> has_code(token@),
{
    if token.is_ascii() && token.unicode_len() >= 2 {
        said_reads(token)
    } else {
        false
    }
}

/// The `From` command for a token that was checked: an accepted token is
/// carried as the identifier, and any other is reported as malformed.
pub fn command_from_check(token: &str, accepted: bool) -> (result: Result<Command, Error>)
    ensures
        is_from(result, from_check(token@, accepted)),
        result matches Ok(command) ==> command.wf(),
{
    if accepted {
        Ok(Command::from_bundle(token.to_owned()))
    } else {
        Err(Error::MalformedIdentifier(token.to_owned()))
    }
}

/// The reader of `FROM` instructions.
#[derive(Debug, Clone, PartialEq, Eq)]
pub struct FromInstruction {}

impl FromInstruction {
    /// Extracts the command of a `FROM` instruction: a `From` command that
    /// carries the identifier of the instruction's token. No payload is made.
    pub fn from_record(record: Pair, _index: usize) -> (result: Result<Command, Error>)
        ensures
            is_from(result, from_of(record)),
            result matches Ok(command) ==> command.wf(),
    {
        Self::extract(&record)
    }

    /// Extracts the command of a `FROM` instruction that the caller keeps.
    pub fn extract(record: &Pair) -> (result: Result<Command, Error>)
        ensures
            is_from(result, from_of(*record)),
            result matches Ok(command) ==> command.wf(),
    {
        let mut token: Option<usize> = None;
        let mut i: usize = 0;
        proof {
            assert(record.children@.take(0) =~= Seq::<Pair>::empty());
        }
        while i < record.children.len()
            invariant
                i <= record.children.len(),
                match token {
                    Some(at) => at < i && from_token_of(record.children@.take(i as int)) == Ok::<
                        Option<Seq<char>>,
                        ErrorView,
                    >(Some(record.children@[at as int].text@)),
                    None => from_token_of(record.children@.take(i as int)) == Ok::<
                        Option<Seq<char>>,
                        ErrorView,
                    >(None),
                },
            decreases record.children.len() - i,
        {
            let field = &record.children[i];
            proof {
                let grown = record.children@.take(i as int + 1);
                assert(grown.drop_last() =~= record.children@.take(i as int));
                assert(grown.last() == *field);
            }
            match field.rule {
                Rule::FromSaid => {
                    token = Some(i);
                },
                Rule::Comment => {},
                _ => {
                    proof {
                        lemma_from_error_stays(record.children@, i as int + 1);
                    }
                    return Err(
                        Error::UnexpectedToken("unexpected token ".to_owned().concat(field.rule.name())),
                    );
                },
            }
            i = i + 1;
        }
        proof {
            assert(record.children@.take(i as int) =~= record.children@);
        }
        match token {
            Some(at) => {
                let text = record.children[at].text.as_str();
                command_from_check(text, check_identifier(text))
            },
            None => Err(
                Error::UnexpectedToken("FROM instruction without an identifier".to_owned()),
            ),
        }
    }
}

} // verus!
