//! Text helpers shared by the argument filter and the message builder:
//! whitespace trimming, lower-casing of a single character, removal of a
//! fixed substring, and word-wrapping.

use vstd::prelude::*;
use vstd::string::StrSliceExecFns;

verus! {

/// What `char::is_whitespace` returns for a character: whether it has the
/// Unicode `White_Space` property. A function of the character alone.
pub uninterp spec fn is_space_char(c: char) -> bool;

/// Relies on `char::is_whitespace`: tests the Unicode `White_Space`
/// property of the character.
pub assume_specification[ char::is_whitespace ](c: char) -> (r: bool)
    ensures
        r == is_space_char(c),
;

/// The sequence with its leading whitespace characters removed.
pub open spec fn trim_start_spec(s: Seq<char>) -> Seq<char>
    decreases s.len(),
{
    if s.len() > 0 && is_space_char(s[0]) {
        trim_start_spec(s.drop_first())
    } else {
        s
    }
}

/// The sequence with its trailing whitespace characters removed.
pub open spec fn trim_end_spec(s: Seq<char>) -> Seq<char>
    decreases s.len(),
{
    if s.len() > 0 && is_space_char(s.last()) {
        trim_end_spec(s.drop_last())
    } else {
        s
    }
}

/// The sequence with leading and trailing whitespace removed.
pub open spec fn trim_spec(s: Seq<char>) -> Seq<char> {
    trim_end_spec(trim_start_spec(s))
}

pub proof fn lemma_trim_start_len(s: Seq<char>)
    ensures
        trim_start_spec(s).len() <= s.len(),
    decreases s.len(),
{
    if s.len() > 0 && is_space_char(s[0]) {
        lemma_trim_start_len(s.drop_first());
    }
}

pub proof fn lemma_trim_end_len(s: Seq<char>)
    ensures
        trim_end_spec(s).len() <= s.len(),
    decreases s.len(),
{
    if s.len() > 0 && is_space_char(s.last()) {
        lemma_trim_end_len(s.drop_last());
    }
}

/// Trimming never lengthens a sequence.
pub proof fn lemma_trim_len(s: Seq<char>)
    ensures
        trim_spec(s).len() <= s.len(),
{
    lemma_trim_start_len(s);
    lemma_trim_end_len(trim_start_spec(s));
}

/// Remove leading and trailing whitespace from a string.
pub fn trim(s: &str) -> (r: String)
    ensures
        r@ == trim_spec(s@),
{
    let len = s.unicode_len();
    proof {
        assert(s@.subrange(0, len as int) =~= s@);
    }
    let mut a: usize = 0;
    while a < len && s.get_char(a).is_whitespace()
        invariant
            a <= len,
            len == s@.len(),
            trim_start_spec(s@) == trim_start_spec(s@.subrange(a as int, len as int)),
        decreases len - a,
    {
        proof {
            let rest = s@.subrange(a as int, len as int);
            assert(rest[0] == s@[a as int]);
            assert(rest.drop_first() =~= s@.subrange(a as int + 1, len as int));
        }
        a = a + 1;
    }
    proof {
        let rest = s@.subrange(a as int, len as int);
        if a < len {
            assert(rest[0] == s@[a as int]);
        }
        assert(trim_start_spec(rest) == rest);
    }
    let mut b: usize = len;
    while b > a && s.get_char(b - 1).is_whitespace()
        invariant
            a <= b <= len,
            len == s@.len(),
            trim_start_spec(s@) == s@.subrange(a as int, len as int),
            trim_end_spec(s@.subrange(a as int, len as int)) == trim_end_spec(
                s@.subrange(a as int, b as int),
            ),
        decreases b,
    {
        proof {
            let part = s@.subrange(a as int, b as int);
            assert(part.last() == s@[b - 1]);
            assert(part.drop_last() =~= s@.subrange(a as int, b as int - 1));
        }
        b = b - 1;
    }
    proof {
        let part = s@.subrange(a as int, b as int);
        if b > a {
            assert(part.last() == s@[b - 1]);
        }
        assert(trim_end_spec(part) == part);
    }
    s.substring_char(a, b).to_owned()
}

/// What `char::to_lowercase` yields for a character: its Unicode lowercase
/// mapping, one or more characters, a function of the character alone.
pub uninterp spec fn lower_char(c: char) -> Seq<char>;

/// Relies on `char::to_lowercase`: yields the Unicode lowercase mapping of
/// the character; collecting the mapping into a `String` only converts it.
#[verifier::external_body]
pub(crate) fn to_lowercase_char(c: char) -> (r: String)
    ensures
        r@ == lower_char(c),
{
    c.to_lowercase().collect()
}

/// Whether `pat` occurs in `s` starting at position `i`.
pub open spec fn occurs_at(s: Seq<char>, pat: Seq<char>, i: int) -> bool {
    0 <= i && i + pat.len() <= s.len() && s.subrange(i, i + pat.len()) == pat
}

/// How many positions of `s` start an occurrence of `pat` (overlapping
/// occurrences counted separately).
pub open spec fn count_occ(s: Seq<char>, pat: Seq<char>) -> int
    decreases s.len(),
{
    if pat.len() == 0 || s.len() < pat.len() {
        0
    } else {
        (if occurs_at(s, pat, 0) {
            1int
        } else {
            0int
        }) + count_occ(s.drop_first(), pat)
    }
}

/// Prepending a pattern that cannot overlap itself — no character of it but
/// the first equals its first — adds exactly one occurrence.
pub proof fn lemma_count_occ_prepend(s: Seq<char>, pat: Seq<char>)
    requires
        pat.len() > 0,
        forall|j: int| 1 <= j < pat.len() ==> #[trigger] pat[j] != pat[0],
    ensures
        count_occ(pat + s, pat) == 1 + count_occ(s, pat),
{
    assert((pat + s).subrange(0, pat.len() as int) =~= pat);
    assert(occurs_at(pat + s, pat, 0));
    assert((pat + s).drop_first() =~= (pat + s).skip(1));
    lemma_count_occ_tail(s, pat, 1);
}

/// Past its first character, a non-self-overlapping pattern starts no
/// occurrence until the prefix copy of it has been passed entirely.
proof fn lemma_count_occ_tail(s: Seq<char>, pat: Seq<char>, k: int)
    requires
        pat.len() > 0,
        1 <= k <= pat.len(),
        forall|j: int| 1 <= j < pat.len() ==> #[trigger] pat[j] != pat[0],
    ensures
        count_occ((pat + s).skip(k), pat) == count_occ(s, pat),
    decreases pat.len() - k,
{
    let t = (pat + s).skip(k);
    if k == pat.len() {
        assert(t =~= s);
    } else {
        assert(t[0] == pat[k]);
        lemma_count_occ_tail(s, pat, k + 1);
        assert(t.drop_first() =~= (pat + s).skip(k + 1));
        if t.len() < pat.len() {
            assert((pat + s).skip(k + 1).len() < pat.len());
        } else {
            assert(!occurs_at(t, pat, 0)) by {
                if occurs_at(t, pat, 0) {
                    assert(t.subrange(0, pat.len() as int)[0] == pat[0]);
                }
            }
        }
    }
}

/// `s` with every left-to-right, non-overlapping occurrence of `pat`
/// removed: the leftmost occurrence is dropped, and the scan resumes just
/// after it.
pub open spec fn remove_pat(s: Seq<char>, pat: Seq<char>) -> Seq<char>
    decreases s.len(),
{
    if pat.len() == 0 || s.len() < pat.len() {
        s
    } else if occurs_at(s, pat, 0) {
        remove_pat(s.subrange(pat.len() as int, s.len() as int), pat)
    } else {
        seq![s[0]] + remove_pat(s.drop_first(), pat)
    }
}

/// Occurrence counts are never negative.
pub proof fn lemma_count_occ_nonneg(s: Seq<char>, pat: Seq<char>)
    ensures
        count_occ(s, pat) >= 0,
    decreases s.len(),
{
    if !(pat.len() == 0 || s.len() < pat.len()) {
        lemma_count_occ_nonneg(s.drop_first(), pat);
    }
}

/// A pattern that occurs nowhere in `s` is not removed: removal returns `s`
/// unchanged.
pub proof fn lemma_remove_pat_absent(s: Seq<char>, pat: Seq<char>)
    requires
        pat.len() > 0,
        count_occ(s, pat) == 0,
    ensures
        remove_pat(s, pat) == s,
    decreases s.len(),
{
    if s.len() >= pat.len() {
        lemma_count_occ_nonneg(s.drop_first(), pat);
        assert(!occurs_at(s, pat, 0));
        lemma_remove_pat_absent(s.drop_first(), pat);
        assert(seq![s[0]] + s.drop_first() =~= s);
    }
}

/// Relies on `str::replace` with an empty replacement: it removes the
/// left-to-right, non-overlapping occurrences of `pat` from `s`, scanning
/// from the start.
#[verifier::external_body]
pub(crate) fn remove_all(s: &str, pat: &str) -> (r: String)
    requires
        pat@.len() > 0,
    ensures
        r@ == remove_pat(s@, pat@),
{
    s.replace(pat, "")
}

/// What `textwrap::fill` returns for a text and a width under its default
/// options: the text word-wrapped into lines of at most `width` columns,
/// joined by newlines. A function of the text and the width alone.
pub uninterp spec fn wrapped(text: Seq<char>, width: int) -> Seq<char>;

/// Relies on `textwrap::fill` with its default options: wraps the text at
/// the given width.
#[verifier::external_body]
pub(crate) fn fill_text(s: &str, width: usize) -> (r: String)
    ensures
        r@ == wrapped(s@, width as int),
{
    textwrap::fill(s, width)
}

} // verus!
