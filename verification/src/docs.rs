//! The table of typable commands, as Markdown.

use vstd::prelude::*;
use vstd::string::StringExecFns;
use crate::names::texts;

verus! {

/// A command that is typed after `:`.
#[derive(Debug, Clone, PartialEq, Eq)]
pub struct TypableCommand {
    pub name: String,
    pub aliases: Vec<String>,
    pub doc: String,
}

/// The first two lines of the table.
pub open spec fn table_head() -> Seq<char> {
    "| Name | Description |\n"@ + "| ---  | ---         |\n"@
}

/// A command name as it is typed, set as code.
pub open spec fn cmdify(name: Seq<char>) -> Seq<char> {
    "`:"@ + name + "`"@
}

/// The aliases of a command, each after a comma.
pub open spec fn alias_cells(aliases: Seq<Seq<char>>) -> Seq<char>
    decreases aliases.len(),
{
    if aliases.len() == 0 {
        Seq::empty()
    } else {
        alias_cells(aliases.drop_last()) + ", "@ + cmdify(aliases.last())
    }
}

/// The line of one command: its name and aliases, then its description.
pub open spec fn table_row(name: Seq<char>, aliases: Seq<Seq<char>>, doc: Seq<char>) -> Seq<char> {
    "| "@ + cmdify(name) + alias_cells(aliases) + " | "@ + doc + " |\n"@
}

/// The lines of a run of commands.
pub open spec fn table_rows(commands: Seq<TypableCommand>) -> Seq<char>
    decreases commands.len(),
{
    if commands.len() == 0 {
        Seq::empty()
    } else {
        let last = commands.last();
        table_rows(commands.drop_last()) + table_row(last.name@, texts(last.aliases@), last.doc@)
    }
}

/// Writes the name and the aliases of a command at the end of `md`.
fn push_names(md: &mut String, command: &TypableCommand)
    ensures
        final(md)@ == old(md)@ + cmdify(command.name@) + alias_cells(texts(command.aliases@)),
{
    let ghost start = md@;
    md.append("`:");
    md.append(command.name.as_str());
    md.append("`");
    let mut j: usize = 0;
    let ghost aliases = texts(command.aliases@);
    assert(aliases.take(0) =~= Seq::empty());
    assert(md@ =~= start + cmdify(command.name@) + alias_cells(aliases.take(0)));
    while j < command.aliases.len()
        invariant
            j <= command.aliases.len(),
            aliases == texts(command.aliases@),
            md@ == start + cmdify(command.name@) + alias_cells(aliases.take(j as int)),
        decreases command.aliases.len() - j,
    {
        let ghost before = md@;
        proof {
            let upto = aliases.take(j + 1);
            assert(upto.drop_last() =~= aliases.take(j as int));
            assert(upto.last() == command.aliases@[j as int]@);
        }
        md.append(", ");
        md.append("`:");
        md.append(command.aliases[j].as_str());
        md.append("`");
        assert(md@ =~= before + (", "@ + cmdify(command.aliases@[j as int]@)));
        assert(md@ =~= start + cmdify(command.name@) + alias_cells(aliases.take(j + 1)));
        j += 1;
    }
    assert(aliases.take(command.aliases.len() as int) =~= aliases);
}

/// The Markdown table of the given commands: a head, then one line for each
/// command with its name and aliases, set as code, and its description.
pub fn gen_typable_cmds(commands: &Vec<TypableCommand>) -> (md: String)
    ensures
        md@ == table_head() + table_rows(commands@),
{
    let mut md = String::new();
    md.append("| Name | Description |\n");
    md.append("| ---  | ---         |\n");
    let mut i: usize = 0;
    assert(commands@.take(0) =~= Seq::empty());
    assert(md@ =~= table_head() + table_rows(commands@.take(0)));
    while i < commands.len()
        invariant
            i <= commands.len(),
            md@ == table_head() + table_rows(commands@.take(i as int)),
        decreases commands.len() - i,
    {
        let ghost before = md@;
        let command = &commands[i];
        proof {
            let upto = commands@.take(i + 1);
            assert(upto.drop_last() =~= commands@.take(i as int));
            assert(upto.last() == commands@[i as int]);
        }
        md.append("| ");
        push_names(&mut md, command);
        md.append(" | ");
        md.append(command.doc.as_str());
        md.append(" |\n");
        assert(md@ =~= before + table_row(
            command.name@,
            texts(command.aliases@),
            command.doc@,
        ));
        assert(md@ =~= table_head() + table_rows(commands@.take(i + 1)));
        i += 1;
    }
    assert(commands@.take(commands.len() as int) =~= commands@);
    md
}

} // verus!
