//! From the parse tree of a whole file to a command log.

use vstd::prelude::*;
use crate::ast::{Command, CommandType, OCAAst};
use crate::error::{Error, ErrorView};
use crate::instructions::add::{extract_instruction, instruction_of, is_extraction};
use crate::instructions::from::{from_of, is_from, FromInstruction};
use crate::tree::{Pair, Rule};

verus! {

/// Whether a result is what the instruction of a line says: the command of
/// a `FROM`, `ADD`, `REMOVE` or `MODIFY` instruction, and for any other node
/// an error that names the node's rule.
pub open spec fn is_command_of(result: Result<Command, Error>, record: Pair) -> bool {
    match record.rule {
        Rule::From => is_from(result, from_of(record)),
        Rule::Add => is_extraction(result, CommandType::Add, record),
        Rule::Remove => is_extraction(result, CommandType::Remove, record),
        Rule::Modify => is_extraction(result, CommandType::Modify, record),
        _ => result matches Err(error) && error@ == ErrorView::UnexpectedToken(
            record.rule.spec_name(),
        ),
    }
}

/// Whether the instruction of a line gives a command.
pub open spec fn gives_command(record: Pair) -> bool {
    match record.rule {
        Rule::From => from_of(record) is Ok,
        Rule::Add => instruction_of(record) is Ok,
        Rule::Remove => instruction_of(record) is Ok,
        Rule::Modify => instruction_of(record) is Ok,
        _ => false,
    }
}

/// Comments, blank lines and the end of input carry no instruction.
pub open spec fn carries_nothing(rule: Rule) -> bool {
    rule == Rule::EOI || rule == Rule::Comment || rule == Rule::EmptyLine
}

/// The lines that carry an instruction, in order.
pub open spec fn instructions_of(lines: Seq<Pair>) -> Seq<Pair>
    decreases lines.len(),
{
    if lines.len() == 0 {
        Seq::empty()
    } else if carries_nothing(lines.last().rule) {
        instructions_of(lines.drop_last())
    } else {
        instructions_of(lines.drop_last()).push(lines.last())
    }
}

/// Whether a result is the log of a file: one command for each instruction,
/// in order, under the default version tag; or, where an instruction gives no
/// command, the error of the first that gives none.
pub open spec fn is_log_of(result: Result<OCAAst, Error>, file: Pair) -> bool {
    let instructions = instructions_of(file.children@);
    match result {
        Ok(ast) => {
            &&& ast.version@ == OCAAst::default_version()
            &&& ast.commands@.len() == instructions.len()
            &&& forall|i: int|
                0 <= i < instructions.len() ==> is_command_of(
                    Ok(ast.commands@[i]),
                    #[trigger] instructions[i],
                )
        },
        Err(error) => exists|k: int|
            {
                &&& 0 <= k < instructions.len()
                &&& is_command_of(Err(error), #[trigger] instructions[k])
                &&& forall|j: int| 0 <= j < k ==> gives_command(#[trigger] instructions[j])
            },
    }
}

/// The instructions among the first lines are the first instructions of the
/// whole file.
pub proof fn lemma_instructions_prefix(lines: Seq<Pair>, n: int)
    requires
        0 <= n <= lines.len(),
    ensures
        instructions_of(lines.take(n)).len() <= instructions_of(lines).len(),
        forall|i: int|
            0 <= i < instructions_of(lines.take(n)).len() ==> #[trigger] instructions_of(
                lines.take(n),
            )[i] == instructions_of(lines)[i],
    decreases lines.len() - n,
{
    if n < lines.len() {
        let grown = lines.take(n + 1);
        let short = instructions_of(lines.take(n));
        assert(grown.drop_last() =~= lines.take(n));
        lemma_instructions_prefix(lines, n + 1);
        assert forall|i: int| 0 <= i < short.len() implies #[trigger] short[i] == instructions_of(
            lines,
        )[i] by {
            assert(short[i] == instructions_of(grown)[i]);
        }
    } else {
        assert(lines.take(n) =~= lines);
    }
}

/// What can be made into a command from a node of the parse tree.
pub trait TryFromPair {
    type Error;

    fn try_from_pair(pair: Pair) -> Result<Command, Self::Error>;
}

impl TryFromPair for Command {
    type Error = Error;

    /// Extracts the command of one instruction, by the rule of its node.
    fn try_from_pair(record: Pair) -> (result: Result<Command, Error>)
        ensures
            is_command_of(result, record),
            result matches Ok(command) ==> command.wf(),
    {
        command_of_line(&record)
    }
}

/// Extracts the command of one instruction, by the rule of its node.
pub fn command_of_line(record: &Pair) -> (result: Result<Command, Error>)
    ensures
        is_command_of(result, *record),
        result matches Ok(command) ==> command.wf(),
{
    match record.rule {
        Rule::From => FromInstruction::extract(record),
        Rule::Add => extract_instruction(CommandType::Add, record),
        Rule::Remove => extract_instruction(CommandType::Remove, record),
        Rule::Modify => extract_instruction(CommandType::Modify, record),
        _ => Err(Error::UnexpectedToken(record.rule.name().to_owned())),
    }
}

/// The reader of whole files.
pub struct OCAfileParser {}

impl OCAfileParser {
    /// Builds the log of a file from its parse tree. Lines that carry
    /// nothing are passed over; every other line gives one command, appended
    /// in order. The first line that gives none ends the reading with its
    /// error, and no log is handed out.
    pub fn parse_tree(file: &Pair) -> (result: Result<OCAAst, Error>)
        ensures
            is_log_of(result, *file),
            result matches Ok(ast) ==> forall|i: int|
                0 <= i < ast.commands@.len() ==> (#[trigger] ast.commands@[i]).wf(),
    {
        let mut ast = OCAAst::new();
        let mut i: usize = 0;
        proof {
            assert(file.children@.take(0) =~= Seq::<Pair>::empty());
        }
        while i < file.children.len()
            invariant
                i <= file.children.len(),
                ast.version@ == OCAAst::default_version(),
                ast.commands@.len() == instructions_of(file.children@.take(i as int)).len(),
                forall|k: int|
                    0 <= k < ast.commands@.len() ==> is_command_of(
                        Ok(ast.commands@[k]),
                        #[trigger] instructions_of(file.children@.take(i as int))[k],
                    ),
                forall|k: int| 0 <= k < ast.commands@.len() ==> (#[trigger] ast.commands@[k]).wf(),
            decreases file.children.len() - i,
        {
            let line = &file.children[i];
            let ghost before = instructions_of(file.children@.take(i as int));
            let ghost done = ast.commands@;
            proof {
                let grown = file.children@.take(i as int + 1);
                assert(grown.drop_last() =~= file.children@.take(i as int));
                assert(grown.last() == *line);
            }
            match line.rule {
                Rule::EOI => {},
                Rule::Comment => {},
                Rule::EmptyLine => {},
                _ => {
                    match command_of_line(line) {
                        Ok(command) => {
                            ast.append(command);
                            proof {
                                let now = instructions_of(file.children@.take(i as int + 1));
                                assert(now == before.push(*line));
                                assert forall|k: int| 0 <= k < ast.commands@.len() implies is_command_of(
                                    Ok(ast.commands@[k]),
                                    #[trigger] now[k],
                                ) by {
                                    if k < done.len() {
                                        assert(ast.commands@[k] == done[k]);
                                        assert(now[k] == before[k]);
                                    }
                                }
                            }
                        },
                        Err(error) => {
                            proof {
                                let now = instructions_of(file.children@.take(i as int + 1));
                                let all = instructions_of(file.children@);
                                assert(now == before.push(*line));
                                lemma_instructions_prefix(file.children@, i as int + 1);
                                let at = before.len() as int;
                                assert(now[at] == all[at]);
                                assert forall|j: int| 0 <= j < at implies gives_command(
                                    #[trigger] all[j],
                                ) by {
                                    assert(now[j] == all[j]);
                                    assert(now[j] == before[j]);
                                    assert(is_command_of(Ok(done[j]), before[j]));
                                }
                                assert(is_command_of(Err(error), all[at]));
                            }
                            return Err(error);
                        },
                    }
                },
            }
            i = i + 1;
        }
        proof {
            assert(file.children@.take(i as int) =~= file.children@);
        }
        Ok(ast)
    }
}

} // verus!
