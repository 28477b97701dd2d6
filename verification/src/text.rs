//! Whitespace handling over character sequences: trimming, prefix tests, and
//! naive whitespace tokenization, with executable twins proved against the
//! sequence-level definitions.

use vstd::prelude::*;
use vstd::string::StrSliceExecFns;
use vstd::string::StringExecFns;

verus! {

/// The whitespace characters this shell recognizes: the ASCII blanks that
/// occur in command lines and configuration files.
pub open spec fn is_space_char(c: char) -> bool {
    c == ' ' || c == '\t' || c == '\n' || c == '\r'
}

/// Executable twin of `is_space_char`.
pub fn is_space(c: char) -> (r: bool)
    ensures
        r == is_space_char(c),
{
    c == ' ' || c == '\t' || c == '\n' || c == '\r'
}

/// `s` with its leading whitespace removed.
pub open spec fn trim_front(s: Seq<char>) -> Seq<char>
    decreases s.len(),
{
    if s.len() > 0 && is_space_char(s[0]) {
        trim_front(s.drop_first())
    } else {
        s
    }
}

/// `s` with its trailing whitespace removed.
pub open spec fn trim_back(s: Seq<char>) -> Seq<char>
    decreases s.len(),
{
    if s.len() > 0 && is_space_char(s.last()) {
        trim_back(s.drop_last())
    } else {
        s
    }
}

/// `s` with both leading and trailing whitespace removed.
pub open spec fn trimmed(s: Seq<char>) -> Seq<char> {
    trim_back(trim_front(s))
}

/// Whether `p` is a prefix of `s`.
pub open spec fn seq_starts_with(s: Seq<char>, p: Seq<char>) -> bool {
    p.len() <= s.len() && s.take(p.len() as int) == p
}

/// The length of the maximal run of non-whitespace characters at the front
/// of `s`.
pub open spec fn head_token_len(s: Seq<char>) -> nat
    decreases s.len(),
{
    if s.len() > 0 && !is_space_char(s[0]) {
        1 + head_token_len(s.drop_first())
    } else {
        0
    }
}

/// The first whitespace-delimited token of `s`; empty if `s` is blank.
pub open spec fn first_token(s: Seq<char>) -> Seq<char> {
    trim_front(s).take(head_token_len(trim_front(s)) as int)
}

/// What remains of `s` after its first whitespace-delimited token, trimmed;
/// empty if `s` holds at most one token.
pub open spec fn rest_after_first(s: Seq<char>) -> Seq<char> {
    trimmed(trim_front(s).skip(head_token_len(trim_front(s)) as int))
}

/// The whitespace-delimited tokens of `s`, in order.
pub open spec fn split_ws(s: Seq<char>) -> Seq<Seq<char>>
    decreases s.len(),
    via split_ws_decreases
{
    if s.len() == 0 {
        Seq::empty()
    } else if is_space_char(s[0]) {
        split_ws(s.drop_first())
    } else {
        seq![s.take(head_token_len(s) as int)] + split_ws(s.skip(head_token_len(s) as int))
    }
}

#[via_fn]
proof fn split_ws_decreases(s: Seq<char>) {
    lemma_head_token_len_le(s);
}

pub proof fn lemma_head_token_len_le(s: Seq<char>)
    ensures
        head_token_len(s) <= s.len(),
    decreases s.len(),
{
    if s.len() > 0 && !is_space_char(s[0]) {
        lemma_head_token_len_le(s.drop_first());
    }
}

/// If the first `m` characters of `s` are non-whitespace and the character
/// after them (if any) is whitespace, the head token has length exactly `m`.
pub proof fn lemma_head_token_len_run(s: Seq<char>, m: int)
    requires
        0 <= m <= s.len(),
        forall|k: int| 0 <= k < m ==> !is_space_char(s[k]),
        m == s.len() || is_space_char(s[m]),
    ensures
        head_token_len(s) == m,
    decreases m,
{
    if m > 0 {
        lemma_head_token_len_run(s.drop_first(), m - 1);
    }
}

/// Dropping an all-whitespace prefix does not change `trim_front`.
pub proof fn lemma_trim_front_skip(s: Seq<char>, i: int)
    requires
        0 <= i <= s.len(),
        forall|k: int| 0 <= k < i ==> is_space_char(s[k]),
    ensures
        trim_front(s) == trim_front(s.skip(i)),
    decreases i,
{
    if i > 0 {
        assert(s.drop_first() =~= s.skip(1));
        lemma_trim_front_skip(s.drop_first(), i - 1);
        assert(s.drop_first().skip(i - 1) =~= s.skip(i));
    } else {
        assert(s.skip(0) =~= s);
    }
}

/// Dropping an all-whitespace suffix does not change `trim_back`.
pub proof fn lemma_trim_back_take(s: Seq<char>, j: int)
    requires
        0 <= j <= s.len(),
        forall|k: int| j <= k < s.len() ==> is_space_char(s[k]),
    ensures
        trim_back(s) == trim_back(s.take(j)),
    decreases s.len() - j,
{
    if j < s.len() {
        assert(is_space_char(s.last()));
        assert(s.drop_last() =~= s.take(s.len() - 1));
        lemma_trim_back_take(s.take(s.len() - 1), j);
        assert(s.take(s.len() - 1).take(j) =~= s.take(j));
    } else {
        assert(s.take(j) =~= s);
    }
}

/// A non-empty `trim_front` result never begins with whitespace.
pub proof fn lemma_trim_front_head(s: Seq<char>)
    ensures
        trim_front(s).len() > 0 ==> !is_space_char(trim_front(s)[0]),
    decreases s.len(),
{
    if s.len() > 0 && is_space_char(s[0]) {
        lemma_trim_front_head(s.drop_first());
    }
}

/// `trim_back` only drops characters from the back: its result is a prefix.
pub proof fn lemma_trim_back_prefix(s: Seq<char>)
    ensures
        trim_back(s).len() <= s.len(),
        forall|k: int| 0 <= k < trim_back(s).len() ==> trim_back(s)[k] == s[k],
    decreases s.len(),
{
    if s.len() > 0 && is_space_char(s.last()) {
        lemma_trim_back_prefix(s.drop_last());
        assert forall|k: int| 0 <= k < trim_back(s).len() implies trim_back(s)[k] == s[k] by {
            assert(trim_back(s)[k] == trim_back(s.drop_last())[k]);
            assert(s.drop_last()[k] == s[k]);
        }
    }
}

/// A non-empty trimmed string never begins with whitespace.
pub proof fn lemma_trimmed_head(s: Seq<char>)
    ensures
        trimmed(s).len() > 0 ==> !is_space_char(trimmed(s)[0]),
{
    lemma_trim_front_head(s);
    lemma_trim_back_prefix(trim_front(s));
}

/// Returns `s` with leading and trailing whitespace removed.
pub fn trim_str(s: &str) -> (r: String)
    ensures
        r@ == trimmed(s@),
{
    let n = s.unicode_len();
    let mut i: usize = 0;
    while i < n && is_space(s.get_char(i))
        invariant
            n == s@.len(),
            0 <= i <= n,
            forall|k: int| 0 <= k < i ==> is_space_char(s@[k]),
        decreases n - i,
    {
        i += 1;
    }
    let ghost u = s@.skip(i as int);
    proof {
        lemma_trim_front_skip(s@, i as int);
        assert(trim_front(u) == u);
    }
    let mut j: usize = n;
    while j > i && is_space(s.get_char(j - 1))
        invariant
            n == s@.len(),
            i <= j <= n,
            forall|k: int| j <= k < n ==> is_space_char(s@[k]),
        decreases j,
    {
        j -= 1;
    }
    proof {
        assert(forall|k: int| j - i <= k < u.len() ==> is_space_char(#[trigger] u[k]));
        lemma_trim_back_take(u, j - i);
        assert(u.take(j - i) =~= s@.subrange(i as int, j as int));
        if j > i {
            assert(!is_space_char(s@[j - 1]));
            assert(trim_back(s@.subrange(i as int, j as int)) == s@.subrange(i as int, j as int));
        } else {
            assert(s@.subrange(i as int, j as int).len() == 0);
        }
    }
    String::from_str(s.substring_char(i, j))
}

/// Whether the character sequence of `s` begins with that of `p`.
pub fn has_prefix(s: &str, p: &str) -> (r: bool)
    ensures
        r == seq_starts_with(s@, p@),
{
    let sn = s.unicode_len();
    let pn = p.unicode_len();
    if pn > sn {
        return false;
    }
    let mut k: usize = 0;
    while k < pn
        invariant
            sn == s@.len(),
            pn == p@.len(),
            pn <= sn,
            0 <= k <= pn,
            forall|m: int| 0 <= m < k ==> s@[m] == p@[m],
        decreases pn - k,
    {
        if s.get_char(k) != p.get_char(k) {
            proof {
                assert(s@.take(pn as int)[k as int] != p@[k as int]);
            }
            return false;
        }
        k += 1;
    }
    proof {
        assert(s@.take(pn as int) =~= p@);
    }
    true
}

/// Whether two strings hold the same characters.
pub fn str_eq(a: &str, b: &str) -> (r: bool)
    ensures
        r == (a@ == b@),
{
    let an = a.unicode_len();
    let bn = b.unicode_len();
    if an != bn {
        return false;
    }
    let mut k: usize = 0;
    while k < an
        invariant
            an == a@.len(),
            bn == b@.len(),
            an == bn,
            0 <= k <= an,
            forall|m: int| 0 <= m < k ==> a@[m] == b@[m],
        decreases an - k,
    {
        if a.get_char(k) != b.get_char(k) {
            return false;
        }
        k += 1;
    }
    proof {
        assert(a@ =~= b@);
    }
    true
}

/// Returns the first whitespace-delimited token of `s`; empty if `s` is blank.
pub fn first_token_str(s: &str) -> (r: String)
    ensures
        r@ == first_token(s@),
{
    let n = s.unicode_len();
    let mut i: usize = 0;
    while i < n && is_space(s.get_char(i))
        invariant
            n == s@.len(),
            0 <= i <= n,
            forall|k: int| 0 <= k < i ==> is_space_char(s@[k]),
        decreases n - i,
    {
        i += 1;
    }
    let ghost u = s@.skip(i as int);
    proof {
        lemma_trim_front_skip(s@, i as int);
        assert(trim_front(u) == u);
    }
    let mut j: usize = i;
    while j < n && !is_space(s.get_char(j))
        invariant
            n == s@.len(),
            i <= j <= n,
            forall|k: int| i <= k < j ==> !is_space_char(s@[k]),
        decreases n - j,
    {
        j += 1;
    }
    proof {
        assert(forall|k: int| 0 <= k < j - i ==> !is_space_char(#[trigger] u[k]));
        lemma_head_token_len_run(u, j - i);
        assert(u.take(j - i) =~= s@.subrange(i as int, j as int));
    }
    String::from_str(s.substring_char(i, j))
}

/// Returns what follows the first whitespace-delimited token of `s`, trimmed.
pub fn rest_after_first_str(s: &str) -> (r: String)
    ensures
        r@ == rest_after_first(s@),
{
    let n = s.unicode_len();
    let mut i: usize = 0;
    while i < n && is_space(s.get_char(i))
        invariant
            n == s@.len(),
            0 <= i <= n,
            forall|k: int| 0 <= k < i ==> is_space_char(s@[k]),
        decreases n - i,
    {
        i += 1;
    }
    let ghost u = s@.skip(i as int);
    proof {
        lemma_trim_front_skip(s@, i as int);
        assert(trim_front(u) == u);
    }
    let mut j: usize = i;
    while j < n && !is_space(s.get_char(j))
        invariant
            n == s@.len(),
            i <= j <= n,
            forall|k: int| i <= k < j ==> !is_space_char(s@[k]),
        decreases n - j,
    {
        j += 1;
    }
    proof {
        assert(forall|k: int| 0 <= k < j - i ==> !is_space_char(#[trigger] u[k]));
        lemma_head_token_len_run(u, j - i);
        assert(u.skip(j - i) =~= s@.skip(j as int));
        assert(s@.subrange(j as int, n as int) =~= s@.skip(j as int));
    }
    trim_str(s.substring_char(j, n))
}

/// Splits `s` into its whitespace-delimited tokens, in order.
pub fn split_tokens(s: &str) -> (r: Vec<String>)
    ensures
        r.deep_view() == split_ws(s@),
{
    let n = s.unicode_len();
    let mut r: Vec<String> = Vec::new();
    let mut i: usize = 0;
    proof {
        assert(s@.skip(0) =~= s@);
        assert(r.deep_view() =~= Seq::<Seq<char>>::empty());
    }
    while i < n
        invariant
            n == s@.len(),
            0 <= i <= n,
            split_ws(s@) == r.deep_view() + split_ws(s@.skip(i as int)),
        decreases n - i,
    {
        let ghost prev = r.deep_view();
        if is_space(s.get_char(i)) {
            proof {
                assert(s@.skip(i as int).drop_first() =~= s@.skip(i + 1));
            }
            i += 1;
        } else {
            let mut j: usize = i + 1;
            while j < n && !is_space(s.get_char(j))
                invariant
                    n == s@.len(),
                    i < j <= n,
                    forall|k: int| i <= k < j ==> !is_space_char(s@[k]),
                decreases n - j,
            {
                j += 1;
            }
            let ghost u = s@.skip(i as int);
            proof {
                assert(forall|k: int| 0 <= k < j - i ==> !is_space_char(#[trigger] u[k]));
                lemma_head_token_len_run(u, j - i);
                assert(u.take(j - i) =~= s@.subrange(i as int, j as int));
                assert(u.skip(j - i) =~= s@.skip(j as int));
            }
            let tok = String::from_str(s.substring_char(i, j));
            r.push(tok);
            proof {
                assert(r.deep_view() =~= prev.push(s@.subrange(i as int, j as int)));
                assert(prev.push(s@.subrange(i as int, j as int)) =~= prev + seq![
                    s@.subrange(i as int, j as int),
                ]);
            }
            i = j;
        }
    }
    proof {
        assert(s@.skip(n as int).len() == 0);
        assert(r.deep_view() =~= r.deep_view() + split_ws(s@.skip(n as int)));
    }
    r
}

} // verus!
