//! The read-eval step of the shell: given one line of input and the alias
//! table, decide what the loop should do. The surrounding binary performs
//! the chosen action and comes back for the next line.

use vstd::prelude::*;
use vstd::string::StrSliceExecFns;

use crate::alias::find_alias_command;
use crate::alias::resolve_alias;
use crate::builtin::CdCommand;
use crate::text::first_token;
use crate::text::is_space_char;
use crate::text::lemma_trimmed_head;
use crate::text::split_tokens;
use crate::text::split_ws;
use crate::text::str_eq;
use crate::text::trim_str;
use crate::text::trimmed;

verus! {

/// The input that ends the loop.
pub open spec fn exit_word() -> Seq<char> {
    seq!['e', 'x', 'i', 't']
}

/// What the loop should do with one line of input.
pub enum Action {
    /// End the loop: the input was `exit`.
    Exit,
    /// Do nothing and prompt again: the input was blank.
    Blank,
    /// Run the resolved builtin, then prompt again.
    RunBuiltin(CdCommand),
    /// Spawn the tokens as a child process (first token the program, the
    /// rest its arguments), wait for it, then prompt again.
    Spawn(Vec<String>),
}

/// Decides what to do with one line of input: exit on the literal `exit`,
/// ignore blank lines, run the builtin an alias resolves to, and otherwise
/// hand the whitespace-split tokens over for ordinary execution.
pub fn interpret_line(input: &str, aliases: &Vec<String>) -> (r: Action)
    ensures
        (r is Exit <==> trimmed(input@) == exit_word()),
        (r is Blank <==> trimmed(input@).len() == 0),
        trimmed(input@) != exit_word() && trimmed(input@).len() > 0 ==> (match resolve_alias(
            aliases.deep_view(),
            first_token(trimmed(input@)),
        ) {
            Some(d) => r matches Action::RunBuiltin(c) && c.directory@ == d,
            None => r matches Action::Spawn(parts) && parts.deep_view() == split_ws(
                trimmed(input@),
            ) && parts@.len() > 0,
        }),
{
    let t = trim_str(input);
    proof {
        reveal_strlit("exit");
        assert("exit"@ =~= exit_word());
    }
    if str_eq(t.as_str(), "exit") {
        return Action::Exit;
    }
    if t.as_str().unicode_len() == 0 {
        return Action::Blank;
    }
    match find_alias_command(t.as_str(), aliases) {
        Some(c) => Action::RunBuiltin(c),
        None => {
            let parts = split_tokens(t.as_str());
            proof {
                lemma_trimmed_head(input@);
                assert(!is_space_char(t@[0]));
                assert(split_ws(t@).len() > 0);
                assert(parts@.len() == parts.deep_view().len());
            }
            Action::Spawn(parts)
        },
    }
}

} // verus!
