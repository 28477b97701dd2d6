//! Rendering of the prompt line: the working directory with the home
//! directory abbreviated to `~`, painted blue, followed by the prompt glyph.

use vstd::prelude::*;
use vstd::string::StrSliceExecFns;
use vstd::string::StringExecFns;

use crate::text::has_prefix;
use crate::text::seq_starts_with;

verus! {

/// The working directory as shown in the prompt: if it begins with the
/// (non-empty) home directory, that prefix is replaced by `~`; any other
/// path is shown unchanged.
pub open spec fn home_abbrev(cwd: Seq<char>, home: Seq<char>) -> Seq<char> {
    if home.len() > 0 && seq_starts_with(cwd, home) {
        seq!['~'] + cwd.skip(home.len() as int)
    } else {
        cwd
    }
}

/// The escape code that switches the terminal to a blue foreground.
pub open spec fn blue_prefix() -> Seq<char> {
    seq!['\u{1b}', '[', '3', '4', 'm']
}

/// The escape code that resets the terminal style.
pub open spec fn style_reset() -> Seq<char> {
    seq!['\u{1b}', '[', '0', 'm']
}

/// Relies on ansi_term::Colour::paint: displaying a string painted with the
/// plain blue style writes the blue foreground escape code, the text
/// unchanged, and the style reset code.
#[verifier::external_body]
fn paint_blue(s: &str) -> (r: String)
    ensures
        r@ == blue_prefix() + s@ + style_reset(),
{
    format!("{}", ansi_term::Colour::Blue.paint(s))
}

/// Renders the working directory for display, abbreviating the home
/// directory to `~`.
pub fn display_path(cwd: &str, home: &str) -> (r: String)
    ensures
        r@ == home_abbrev(cwd@, home@),
{
    let hn = home.unicode_len();
    if hn > 0 && has_prefix(cwd, home) {
        let mut r = String::from_str("~");
        proof {
            reveal_strlit("~");
        }
        r.append(cwd.substring_char(hn, cwd.unicode_len()));
        proof {
            assert(cwd@.subrange(hn as int, cwd@.len() as int) =~= cwd@.skip(hn as int));
            assert(r@ =~= seq!['~'] + cwd@.skip(hn as int));
        }
        r
    } else {
        String::from_str(cwd)
    }
}

/// Formats the whole prompt: the abbreviated working directory painted
/// blue, a space, the prompt glyph, and a trailing space.
pub fn format_prompt(cwd: &str, home: &str, glyph: &str) -> (r: String)
    ensures
        r@ == blue_prefix() + home_abbrev(cwd@, home@) + style_reset() + seq![' '] + glyph@ + seq![
            ' ',
        ],
{
    let shown = display_path(cwd, home);
    let mut r = paint_blue(shown.as_str());
    r.append(" ");
    r.append(glyph);
    r.append(" ");
    proof {
        reveal_strlit(" ");
        assert(r@ =~= blue_prefix() + home_abbrev(cwd@, home@) + style_reset() + seq![' ']
            + glyph@ + seq![' ']);
    }
    r
}

} // verus!
