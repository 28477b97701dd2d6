//! The alias table: scraping `alias` lines from shell configuration text and
//! resolving an input command against them.
//!
//! Conventions, chosen once for the whole shell: the loader stores each
//! configuration line that begins with the literal prefix `alias`, whole. At
//! resolution time a stored line counts only if it begins with `alias `
//! (trailing space) and holds an `=`; its name is the trimmed text between
//! `alias ` and the first `=`, matched exactly against the first token of the
//! input; its value is the text after the first `=`, trimmed, with one pair
//! of surrounding single quotes removed. Only a value whose first token is
//! `cd` resolves to a builtin, whose argument is the rest of the value,
//! trimmed; any other alias falls through to ordinary execution.

use vstd::prelude::*;
use vstd::string::StrSliceExecFns;
use vstd::string::StringExecFns;

use crate::builtin::CdCommand;
use crate::text::first_token;
use crate::text::first_token_str;
use crate::text::has_prefix;
use crate::text::rest_after_first;
use crate::text::rest_after_first_str;
use crate::text::seq_starts_with;
use crate::text::str_eq;
use crate::text::trim_str;
use crate::text::trimmed;

verus! {

/// The prefix that marks a configuration line as an alias declaration.
pub open spec fn alias_word() -> Seq<char> {
    seq!['a', 'l', 'i', 'a', 's']
}

/// The prefix a stored line must carry to take part in resolution:
/// `alias` followed by a space.
pub open spec fn alias_keyword() -> Seq<char> {
    seq!['a', 'l', 'i', 'a', 's', ' ']
}

/// The command name that resolves to the directory-change builtin.
pub open spec fn cd_keyword() -> Seq<char> {
    seq!['c', 'd']
}

/// The index of the first `=` in `s`, or `s.len()` if there is none.
pub open spec fn first_eq(s: Seq<char>) -> int
    decreases s.len(),
{
    if s.len() == 0 {
        0
    } else if s[0] == '=' {
        0
    } else {
        1 + first_eq(s.drop_first())
    }
}

pub proof fn lemma_first_eq_le(s: Seq<char>)
    ensures
        0 <= first_eq(s) <= s.len(),
    decreases s.len(),
{
    if s.len() > 0 && s[0] != '=' {
        lemma_first_eq_le(s.drop_first());
    }
}

/// If the first `m` characters of `s` are not `=` and the character after
/// them (if any) is `=`, the first `=` sits exactly at `m`.
pub proof fn lemma_first_eq_run(s: Seq<char>, m: int)
    requires
        0 <= m <= s.len(),
        forall|k: int| 0 <= k < m ==> s[k] != '=',
        m == s.len() || s[m] == '=',
    ensures
        first_eq(s) == m,
    decreases m,
{
    if m > 0 {
        lemma_first_eq_run(s.drop_first(), m - 1);
    }
}

/// If the first `m` characters of `s` are not `=`, the first `=` sits at
/// `m` or later.
pub proof fn lemma_first_eq_ge(s: Seq<char>, m: int)
    requires
        0 <= m <= s.len(),
        forall|k: int| 0 <= k < m ==> s[k] != '=',
    ensures
        first_eq(s) >= m,
    decreases m,
{
    if m > 0 {
        assert(forall|k: int| 0 <= k < m - 1 ==> #[trigger] s.drop_first()[k] != '=');
        lemma_first_eq_ge(s.drop_first(), m - 1);
    } else {
        lemma_first_eq_le(s);
    }
}

/// Whether a stored line carries the `alias ` prefix.
pub open spec fn has_alias_prefix(line: Seq<char>) -> bool {
    seq_starts_with(line, alias_keyword())
}

/// Whether a stored line holds an `=` at all.
pub open spec fn has_eq(line: Seq<char>) -> bool {
    first_eq(line) < line.len()
}

/// The declared alias name: the trimmed text between `alias ` and the
/// first `=`.
pub open spec fn alias_name(line: Seq<char>) -> Seq<char> {
    trimmed(line.subrange(alias_keyword().len() as int, first_eq(line)))
}

/// One pair of surrounding single quotes removed, if both are present.
pub open spec fn strip_quotes(s: Seq<char>) -> Seq<char> {
    if s.len() >= 2 && s[0] == '\'' && s[s.len() - 1] == '\'' {
        s.subrange(1, s.len() - 1)
    } else {
        s
    }
}

/// The alias value: the text after the first `=`, trimmed, with one pair of
/// surrounding single quotes removed.
pub open spec fn alias_value(line: Seq<char>) -> Seq<char> {
    strip_quotes(trimmed(line.skip(first_eq(line) + 1)))
}

/// What one stored line resolves the command `cmd` to: the target directory
/// of a `cd` builtin, or nothing.
pub open spec fn line_cd_target(line: Seq<char>, cmd: Seq<char>) -> Option<Seq<char>> {
    if has_alias_prefix(line) && has_eq(line) && alias_name(line) == cmd && first_token(
        alias_value(line),
    ) == cd_keyword() {
        Some(rest_after_first(alias_value(line)))
    } else {
        None
    }
}

/// What the whole table resolves `cmd` to: the first stored line that names
/// `cmd` and aliases it to `cd` wins; lines that do not are passed over.
pub open spec fn resolve_alias(table: Seq<Seq<char>>, cmd: Seq<char>) -> Option<Seq<char>>
    decreases table.len(),
{
    if table.len() == 0 {
        None
    } else if line_cd_target(table[0], cmd) is Some {
        line_cd_target(table[0], cmd)
    } else {
        resolve_alias(table.drop_first(), cmd)
    }
}

/// The configuration lines that begin with `alias`, in order, stored whole.
pub open spec fn alias_lines(ls: Seq<Seq<char>>) -> Seq<Seq<char>>
    decreases ls.len(),
{
    if ls.len() == 0 {
        Seq::empty()
    } else if seq_starts_with(ls[0], alias_word()) {
        seq![ls[0]] + alias_lines(ls.drop_first())
    } else {
        alias_lines(ls.drop_first())
    }
}

/// Returns the index of the first `=` in `s`, or its length if there is none.
fn find_eq(s: &str) -> (r: usize)
    ensures
        r == first_eq(s@),
        r <= s@.len(),
{
    let n = s.unicode_len();
    let mut k: usize = 0;
    while k < n && s.get_char(k) != '='
        invariant
            n == s@.len(),
            0 <= k <= n,
            forall|m: int| 0 <= m < k ==> s@[m] != '=',
        decreases n - k,
    {
        k += 1;
    }
    proof {
        lemma_first_eq_run(s@, k as int);
    }
    k
}

/// Removes one pair of surrounding single quotes, if both are present.
fn strip_quotes_str(s: &str) -> (r: String)
    ensures
        r@ == strip_quotes(s@),
{
    let n = s.unicode_len();
    if n >= 2 && s.get_char(0) == '\'' && s.get_char(n - 1) == '\'' {
        String::from_str(s.substring_char(1, n - 1))
    } else {
        String::from_str(s)
    }
}

/// What one stored line resolves the command `cmd` to, executably.
fn line_cd_target_str(line: &str, cmd: &str) -> (r: Option<String>)
    ensures
        match line_cd_target(line@, cmd@) {
            Some(d) => r matches Some(s) && s@ == d,
            None => r is None,
        },
{
    proof {
        reveal_strlit("alias ");
        assert("alias "@ =~= alias_keyword());
    }
    if !has_prefix(line, "alias ") {
        return None;
    }
    let n = line.unicode_len();
    let e = find_eq(line);
    if e == n {
        return None;
    }
    proof {
        assert(line@.take(6) == alias_keyword());
        assert(forall|k: int| 0 <= k < 6 ==> line@[k] == #[trigger] alias_keyword()[k]) by {
            assert(forall|k: int|
                0 <= k < 6 ==> line@[k] == #[trigger] line@.take(6)[k] == alias_keyword()[k]);
        }
        assert(forall|k: int| 0 <= k < 6 ==> line@[k] != '=');
        lemma_first_eq_ge(line@, 6);
    }
    let name = trim_str(line.substring_char(6, e));
    if !str_eq(name.as_str(), cmd) {
        return None;
    }
    let after = trim_str(line.substring_char(e + 1, n));
    proof {
        assert(line@.subrange(e + 1, n as int) =~= line@.skip(e + 1));
    }
    let value = strip_quotes_str(after.as_str());
    let ft = first_token_str(value.as_str());
    proof {
        reveal_strlit("cd");
        assert("cd"@ =~= cd_keyword());
    }
    if !str_eq(ft.as_str(), "cd") {
        return None;
    }
    Some(rest_after_first_str(value.as_str()))
}

/// Resolves the input line against the alias table: if the first token of
/// `input` is declared as an alias for a `cd` command, returns that builtin
/// with its target directory; otherwise returns nothing and the input falls
/// through to ordinary execution.
pub fn find_alias_command(input: &str, aliases: &Vec<String>) -> (r: Option<CdCommand>)
    ensures
        match resolve_alias(aliases.deep_view(), first_token(input@)) {
            Some(d) => r matches Some(c) && c.directory@ == d,
            None => r is None,
        },
{
    let cmd = first_token_str(input);
    let n = aliases.len();
    let mut idx: usize = 0;
    proof {
        assert(aliases.deep_view().skip(0) =~= aliases.deep_view());
    }
    while idx < n
        invariant
            n == aliases.len(),
            0 <= idx <= n,
            cmd@ == first_token(input@),
            resolve_alias(aliases.deep_view(), first_token(input@)) == resolve_alias(
                aliases.deep_view().skip(idx as int),
                first_token(input@),
            ),
        decreases n - idx,
    {
        let line = &aliases[idx];
        proof {
            assert(aliases.deep_view().skip(idx as int)[0] == line@);
            assert(aliases.deep_view().skip(idx as int).drop_first() =~= aliases.deep_view().skip(
                idx + 1,
            ));
        }
        match line_cd_target_str(line.as_str(), cmd.as_str()) {
            Some(dir) => {
                return Some(CdCommand::new(dir.as_str()));
            },
            None => {},
        }
        idx += 1;
    }
    None
}

/// Keeps, in order and whole, the configuration lines that begin with the
/// literal prefix `alias`; every other line is dropped.
pub fn collect_alias_lines(lines: &Vec<String>) -> (r: Vec<String>)
    ensures
        r.deep_view() == alias_lines(lines.deep_view()),
{
    proof {
        reveal_strlit("alias");
        assert("alias"@ =~= alias_word());
    }
    let mut r: Vec<String> = Vec::new();
    let n = lines.len();
    let mut i: usize = 0;
    proof {
        assert(lines.deep_view().skip(0) =~= lines.deep_view());
        assert(r.deep_view() =~= Seq::<Seq<char>>::empty());
    }
    while i < n
        invariant
            n == lines.len(),
            0 <= i <= n,
            alias_lines(lines.deep_view()) == r.deep_view() + alias_lines(
                lines.deep_view().skip(i as int),
            ),
        decreases n - i,
    {
        let ghost prev = r.deep_view();
        proof {
            reveal_strlit("alias");
            assert("alias"@ =~= alias_word());
            assert(lines.deep_view().skip(i as int)[0] == lines[i as int]@);
            assert(lines.deep_view().skip(i as int).drop_first() =~= lines.deep_view().skip(i + 1));
        }
        if has_prefix(lines[i].as_str(), "alias") {
            r.push(lines[i].clone());
            proof {
                assert(r.deep_view() =~= prev.push(lines[i as int]@));
                assert(r.deep_view() + alias_lines(lines.deep_view().skip(i + 1)) =~= prev + (seq![
                    lines[i as int]@,
                ] + alias_lines(lines.deep_view().skip(i + 1))));
            }
        }
        i += 1;
    }
    proof {
        assert(alias_lines(lines.deep_view().skip(n as int)) =~= Seq::<Seq<char>>::empty());
        assert(r.deep_view() =~= r.deep_view() + alias_lines(lines.deep_view().skip(n as int)));
    }
    r
}

} // verus!
