//! Character-level helpers for the pipeline: blank characters, trimming,
//! and prefix tests, each specified exactly over sequences of characters.

use vstd::prelude::*;
use vstd::seq_lib::*;
use vstd::string::StrSliceExecFns;
use vstd::string::StringExecFns;

verus! {

/// The blank characters that trimming and class-attribute splitting drop:
/// space, tab, line feed, carriage return and form feed.
pub open spec fn is_blank(c: char) -> bool {
    c == ' ' || c == '\t' || c == '\n' || c == '\r' || c == '\u{c}'
}

/// Whether a character is blank.
pub fn is_blank_char(c: char) -> (b: bool)
    ensures
        b == is_blank(c),
{
    c == ' ' || c == '\t' || c == '\n' || c == '\r' || c == '\u{c}'
}

/// The text with its leading and trailing blank characters dropped.
pub open spec fn trim_spec(s: Seq<char>) -> Seq<char>
    decreases s.len(),
{
    if s.len() > 0 && is_blank(s[0]) {
        trim_spec(s.drop_first())
    } else if s.len() > 0 && is_blank(s.last()) {
        trim_spec(s.drop_last())
    } else {
        s
    }
}

/// Trimming never lengthens the text.
pub proof fn lemma_trim_len(s: Seq<char>)
    ensures
        trim_spec(s).len() <= s.len(),
    decreases s.len(),
{
    if s.len() > 0 && is_blank(s[0]) {
        lemma_trim_len(s.drop_first());
    } else if s.len() > 0 && is_blank(s.last()) {
        lemma_trim_len(s.drop_last());
    }
}

/// The trimmed text is the subrange that remains after cutting all leading
/// and all trailing blanks.
proof fn lemma_trim_subrange(s: Seq<char>, i: int, j: int)
    requires
        0 <= i <= j <= s.len(),
        forall|k: int| 0 <= k < i ==> is_blank(s[k]),
        forall|k: int| j <= k < s.len() ==> is_blank(s[k]),
        i < j ==> !is_blank(s[i]) && !is_blank(s[j - 1]),
    ensures
        trim_spec(s) == s.subrange(i, j),
    decreases s.len(),
{
    if i == j {
        if s.len() > 0 {
            assert(is_blank(s[0]));
            lemma_trim_subrange(s.drop_first(), 0, 0);
            assert(trim_spec(s) =~= s.subrange(i, j));
        } else {
            assert(trim_spec(s) =~= s.subrange(i, j));
        }
    } else if i > 0 {
        assert(is_blank(s[0]));
        lemma_trim_subrange(s.drop_first(), i - 1, j - 1);
        assert(s.drop_first().subrange(i - 1, j - 1) =~= s.subrange(i, j));
    } else if j < s.len() {
        assert(is_blank(s.last()));
        lemma_trim_subrange(s.drop_last(), i, j);
        assert(s.drop_last().subrange(i, j) =~= s.subrange(i, j));
    } else {
        assert(!is_blank(s[0]));
        assert(!is_blank(s.last()));
        assert(trim_spec(s) == s);
        assert(s.subrange(i, j) =~= s);
    }
}

/// The text with leading and trailing blanks dropped, as a fresh string.
pub fn trimmed(s: &str) -> (r: String)
    ensures
        r@ == trim_spec(s@),
{
    let n = s.unicode_len();
    let mut start: usize = 0;
    while start < n && is_blank_char(s.get_char(start))
        invariant
            0 <= start <= n,
            n == s@.len(),
            forall|k: int| 0 <= k < start ==> is_blank(s@[k]),
        decreases n - start,
    {
        start = start + 1;
    }
    let mut end: usize = n;
    while end > start && is_blank_char(s.get_char(end - 1))
        invariant
            start <= end <= n,
            n == s@.len(),
            forall|k: int| end <= k < n ==> is_blank(s@[k]),
        decreases end,
    {
        end = end - 1;
    }
    let sub = s.substring_char(start, end);
    proof {
        lemma_trim_subrange(s@, start as int, end as int);
    }
    String::from_str(sub)
}

/// Whether `p` stands at the start of `s`.
pub fn has_prefix(s: &str, p: &str) -> (b: bool)
    ensures
        b == p@.is_prefix_of(s@),
{
    let sn = s.unicode_len();
    let pn = p.unicode_len();
    if pn > sn {
        return false;
    }
    for i in 0..pn
        invariant
            pn <= sn,
            sn == s@.len(),
            pn == p@.len(),
            forall|k: int| 0 <= k < i ==> s@[k] == p@[k],
        decreases pn - i,
    {
        if s.get_char(i) != p.get_char(i) {
            assert(!p@.is_prefix_of(s@));
            return false;
        }
    }
    assert(p@ =~= s@.subrange(0, pn as int));
    true
}

/// Whether a string equals a given string slice, character for character.
pub fn string_eq_str(s: &String, t: &str) -> (b: bool)
    ensures
        b == (s@ == t@),
{
    let u = String::from_str(t);
    *s == u
}

} // verus!
