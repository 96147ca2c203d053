//! Character-level helpers shared by the text-entry logic: turning strings
//! into character sequences and back, common prefixes, and the mapping
//! between character positions and UTF-16 offsets that the browser uses for
//! selections.

use vstd::prelude::*;

verus! {

/// The number of UTF-16 code units that encode `c`: one for characters of
/// the Basic Multilingual Plane, two (a surrogate pair) for the others.
pub open spec fn spec_utf16_len(c: char) -> nat {
    if (c as u32) < 0x10000 {
        1
    } else {
        2
    }
}

/// The number of UTF-16 code units that encode the whole sequence `s`.
pub open spec fn utf16_width(s: Seq<char>) -> nat
    decreases s.len(),
{
    if s.len() == 0 {
        0
    } else {
        utf16_width(s.drop_last()) + spec_utf16_len(s.last())
    }
}

/// The number of leading characters of `s` whose UTF-16 encoding fits in
/// `offset` code units: an offset that falls inside a surrogate pair rounds
/// down to the character boundary before it.
pub open spec fn utf16_char_index(s: Seq<char>, offset: int) -> nat
    decreases s.len(),
{
    if s.len() == 0 {
        0
    } else if utf16_width(s) <= offset {
        s.len()
    } else {
        utf16_char_index(s.drop_last(), offset)
    }
}

/// The length of the longest common prefix of `a` and `b`.
pub open spec fn common_prefix_len(a: Seq<char>, b: Seq<char>) -> nat
    decreases a.len(),
{
    if a.len() == 0 || b.len() == 0 || a[0] != b[0] {
        0
    } else {
        1 + common_prefix_len(a.drop_first(), b.drop_first())
    }
}

/// `n`, or `usize::MAX` when `n` does not fit.
pub open spec fn clamp_usize(n: nat) -> nat {
    if n <= usize::MAX {
        n
    } else {
        usize::MAX as nat
    }
}

/// The UTF-16 offset of character position `index` in `s` (positions past
/// the end count as the end), as far as it fits in `usize`.
pub open spec fn spec_utf16_offset(s: Seq<char>, index: nat) -> nat {
    clamp_usize(utf16_width(s.take(if index <= s.len() { index as int } else { s.len() as int })))
}

/// `utf16_width` of a prefix grows by the width of the next character.
pub proof fn lemma_utf16_width_step(s: Seq<char>, k: int)
    requires
        0 <= k < s.len(),
    ensures
        utf16_width(s.take(k + 1)) == utf16_width(s.take(k)) + spec_utf16_len(s[k]),
{
    assert(s.take(k + 1).drop_last() =~= s.take(k));
}

/// Longer prefixes are strictly wider in UTF-16.
pub proof fn lemma_utf16_width_strictly_increasing(s: Seq<char>, j: int, k: int)
    requires
        0 <= j < k <= s.len(),
    ensures
        utf16_width(s.take(j)) < utf16_width(s.take(k)),
    decreases k - j,
{
    lemma_utf16_width_step(s, k - 1);
    if j < k - 1 {
        lemma_utf16_width_strictly_increasing(s, j, k - 1);
    }
}

/// A prefix is never wider than the whole sequence.
pub proof fn lemma_utf16_width_prefix_bounded(s: Seq<char>, k: int)
    requires
        0 <= k <= s.len(),
    ensures
        utf16_width(s.take(k)) <= utf16_width(s),
{
    assert(s.take(s.len() as int) =~= s);
    if k < s.len() {
        lemma_utf16_width_strictly_increasing(s, k, s.len() as int);
    }
}

/// `utf16_char_index` is the unique prefix length `k` whose width fits in
/// `offset` while the next prefix does not.
pub proof fn lemma_utf16_char_index_characterized(s: Seq<char>, offset: int, k: int)
    requires
        0 <= k <= s.len(),
        utf16_width(s.take(k)) <= offset,
        k == s.len() || utf16_width(s.take(k + 1)) > offset,
    ensures
        utf16_char_index(s, offset) == k,
    decreases s.len(),
{
    assert(s.take(s.len() as int) =~= s);
    if s.len() == 0 {
    } else if k == s.len() {
    } else {
        let t = s.drop_last();
        assert(s.take(k) =~= t.take(k));
        if k + 1 < s.len() {
            assert(s.take(k + 1) =~= t.take(k + 1));
        }
        if utf16_width(s) <= offset {
            lemma_utf16_width_prefix_bounded(s, k + 1);
        }
        lemma_utf16_char_index_characterized(t, offset, k);
    }
}

/// The character position found for an offset never ends past that offset.
pub proof fn lemma_utf16_char_index_fits(s: Seq<char>, offset: int)
    requires
        offset >= 0,
    ensures
        utf16_char_index(s, offset) <= s.len(),
        utf16_width(s.take(utf16_char_index(s, offset) as int)) <= offset,
    decreases s.len(),
{
    if s.len() == 0 {
        assert(s.take(0) =~= Seq::<char>::empty());
    } else if utf16_width(s) <= offset {
        assert(s.take(s.len() as int) =~= s);
    } else {
        let t = s.drop_last();
        lemma_utf16_char_index_fits(t, offset);
        assert(s.take(utf16_char_index(t, offset) as int) =~= t.take(utf16_char_index(t, offset) as int));
    }
}

/// A larger offset never maps to an earlier character position.
pub proof fn lemma_utf16_char_index_monotone(s: Seq<char>, lo: int, hi: int)
    requires
        0 <= lo <= hi,
    ensures
        utf16_char_index(s, lo) <= utf16_char_index(s, hi),
    decreases s.len(),
{
    if s.len() > 0 && utf16_width(s) > lo {
        lemma_utf16_char_index_fits(s.drop_last(), lo);
        if utf16_width(s) > hi {
            lemma_utf16_char_index_monotone(s.drop_last(), lo, hi);
        }
    }
}

/// Going from a character position to its UTF-16 offset and back gives the
/// same position.
pub proof fn lemma_char_index_inverts_utf16_offset(s: Seq<char>, index: nat)
    requires
        utf16_width(s) <= usize::MAX,
        index <= s.len(),
    ensures
        utf16_char_index(s, spec_utf16_offset(s, index) as int) == index,
{
    lemma_utf16_width_prefix_bounded(s, index as int);
    if index < s.len() {
        lemma_utf16_width_strictly_increasing(s, index as int, index + 1 as int);
    }
    lemma_utf16_char_index_characterized(s, spec_utf16_offset(s, index) as int, index as int);
}

/// When the whole sequence fits, the offset of a position is its exact
/// UTF-16 width, and it fits in `usize`.
pub proof fn lemma_utf16_offset_fits(s: Seq<char>, index: nat)
    requires
        utf16_width(s) <= usize::MAX,
    ensures
        spec_utf16_offset(s, index) == utf16_width(s.take(if index <= s.len() { index as int } else { s.len() as int })),
        spec_utf16_offset(s, index) <= usize::MAX,
{
    lemma_utf16_width_prefix_bounded(s, if index <= s.len() { index as int } else { s.len() as int });
}

/// Going from a UTF-16 offset to a character position and back never moves
/// past the given offset (offsets inside a surrogate pair round down).
pub proof fn lemma_utf16_offset_rounds_down(s: Seq<char>, offset: nat)
    ensures
        utf16_char_index(s, offset as int) <= s.len(),
        spec_utf16_offset(s, utf16_char_index(s, offset as int)) <= offset,
{
    lemma_utf16_char_index_fits(s, offset as int);
}

/// The common prefix is a prefix of both sequences and cannot be extended.
pub proof fn lemma_common_prefix_len(a: Seq<char>, b: Seq<char>)
    ensures
        common_prefix_len(a, b) <= a.len(),
        common_prefix_len(a, b) <= b.len(),
        a.take(common_prefix_len(a, b) as int) =~= b.take(common_prefix_len(a, b) as int),
        common_prefix_len(a, b) < a.len() && common_prefix_len(a, b) < b.len() ==> a[common_prefix_len(a, b) as int] != b[common_prefix_len(a, b) as int],
    decreases a.len(),
{
    if a.len() == 0 || b.len() == 0 || a[0] != b[0] {
    } else {
        lemma_common_prefix_len(a.drop_first(), b.drop_first());
        let n: int = common_prefix_len(a.drop_first(), b.drop_first()) as int;
        assert forall|i: int| 0 <= i < n + 1 implies #[trigger] a[i] == b[i] by {
            if i > 0 {
                assert(a.drop_first().take(n)[i - 1] == b.drop_first().take(n)[i - 1]);
            }
        }
        assert(a.take(n + 1) =~= b.take(n + 1));
    }
}

/// Any length at which the two sequences agree and then differ (or one
/// ends) is their common prefix length.
pub proof fn lemma_common_prefix_len_characterized(a: Seq<char>, b: Seq<char>, n: int)
    requires
        0 <= n <= a.len(),
        n <= b.len(),
        forall|i: int| 0 <= i < n ==> a[i] == b[i],
        n == a.len() || n == b.len() || a[n] != b[n],
    ensures
        common_prefix_len(a, b) == n,
    decreases a.len(),
{
    if a.len() == 0 || b.len() == 0 {
    } else if n == 0 {
    } else {
        assert(a[0] == b[0]);
        let a1 = a.drop_first();
        let b1 = b.drop_first();
        assert forall|i: int| 0 <= i < n - 1 implies a1[i] == b1[i] by {
            assert(a[i + 1] == b[i + 1]);
        }
        lemma_common_prefix_len_characterized(a1, b1, n - 1);
    }
}

/// The number of UTF-16 code units that encode `c`.
pub fn utf16_len(c: char) -> (n: usize)
    ensures
        n == spec_utf16_len(c),
{
    if (c as u32) < 0x10000 {
        1
    } else {
        2
    }
}

/// The characters of `s`, in order.
pub fn chars_of(s: &str) -> (v: Vec<char>)
    ensures
        v@ == s@,
{
    let mut v: Vec<char> = Vec::new();
    for c in it: s.chars()
        invariant
            v@ == it.seq().take(it.index() as int),
    {
        v.push(c);
    }
    v
}

/// Appends one character to a string (`String::push`).
#[verifier::external_body]
fn push_char(s: &mut String, c: char)
    ensures
        final(s)@ == old(s)@.push(c),
{
    s.push(c);
}

/// The string made of the characters of `v`, in order.
pub fn string_from_chars(v: &[char]) -> (s: String)
    ensures
        s@ == v@,
{
    let mut s = String::new();
    let n = v.len();
    for i in 0..n
        invariant
            n == v@.len(),
            s@ == v@.take(i as int),
    {
        push_char(&mut s, v[i]);
        assert(v@.take(i as int).push(v@[i as int]) =~= v@.take(i + 1));
    }
    assert(v@.take(n as int) =~= v@);
    s
}

/// The length of the longest common prefix of `a` and `b`.
pub fn common_prefix(a: &[char], b: &[char]) -> (n: usize)
    ensures
        n == common_prefix_len(a@, b@),
{
    let mut n: usize = 0;
    while n < a.len() && n < b.len() && a[n] == b[n]
        invariant
            n <= a@.len(),
            n <= b@.len(),
            forall|i: int| 0 <= i < n ==> a@[i] == b@[i],
        decreases a@.len() - n,
    {
        n = n + 1;
    }
    proof {
        lemma_common_prefix_len_characterized(a@, b@, n as int);
    }
    n
}

/// The UTF-16 offset of the character position `index` in `value`
/// (positions past the end count as the end). The UTF-16 length of a string
/// held in memory always fits in `usize`; were it not so, the offset would
/// stop at `usize::MAX`.
pub fn utf16_offset_for_char(value: &str, index: usize) -> (offset: usize)
    ensures
        offset == spec_utf16_offset(value@, index as nat),
{
    let chars = chars_of(value);
    let n = chars.len();
    let end = if index < n { index } else { n };
    let mut acc: usize = 0;
    for i in 0..end
        invariant
            end <= n,
            n == chars@.len(),
            chars@ == value@,
            acc == clamp_usize(utf16_width(chars@.take(i as int))),
    {
        proof {
            lemma_utf16_width_step(chars@, i as int);
        }
        let w = utf16_len(chars[i]);
        acc = if acc > usize::MAX - w { usize::MAX } else { acc + w };
    }
    acc
}

/// The character position in `value` that corresponds to the UTF-16 offset
/// `utf16_offset`; an offset that falls inside a surrogate pair rounds down to
/// the boundary before it, and an offset past the end gives the length.
pub fn char_index_for_utf16(value: &str, utf16_offset: usize) -> (index: usize)
    ensures
        index == utf16_char_index(value@, utf16_offset as int),
        index <= value@.len(),
{
    let chars = chars_of(value);
    let n = chars.len();
    let mut acc: usize = 0;
    let mut count: usize = 0;
    while count < n
        invariant
            n == chars@.len(),
            chars@ == value@,
            count <= n,
            acc == utf16_width(chars@.take(count as int)),
            acc <= utf16_offset,
        decreases n - count,
    {
        if acc >= utf16_offset {
            proof {
                if count < n {
                    lemma_utf16_width_strictly_increasing(chars@, count as int, count + 1);
                }
                lemma_utf16_char_index_characterized(value@, utf16_offset as int, count as int);
            }
            return count;
        }
        let w = utf16_len(chars[count]);
        proof {
            lemma_utf16_width_step(chars@, count as int);
        }
        if w > utf16_offset - acc {
            proof {
                lemma_utf16_char_index_characterized(value@, utf16_offset as int, count as int);
            }
            return count;
        }
        acc = acc + w;
        count = count + 1;
    }
    proof {
        lemma_utf16_char_index_characterized(value@, utf16_offset as int, count as int);
    }
    count
}


/// A character of the Basic Multilingual Plane takes one UTF-16 code unit
/// and any other character two, so a sequence is at least as wide as it is
/// long and at most twice as wide; it is exactly as wide as long when all
/// its characters lie in the Basic Multilingual Plane, and twice as wide
/// when none does.
pub proof fn lemma_utf16_width_counts_surrogates(s: Seq<char>)
    ensures
        s.len() <= utf16_width(s) <= 2 * s.len(),
        (forall|i: int| 0 <= i < s.len() ==> (#[trigger] s[i] as u32) < 0x10000) ==> utf16_width(s) == s.len(),
        (forall|i: int| 0 <= i < s.len() ==> (#[trigger] s[i] as u32) >= 0x10000) ==> utf16_width(s) == 2 * s.len(),
    decreases s.len(),
{
    if s.len() > 0 {
        let t = s.drop_last();
        lemma_utf16_width_counts_surrogates(t);
        assert forall|i: int| 0 <= i < t.len() implies #[trigger] t[i] == s[i] by {}
        if forall|i: int| 0 <= i < s.len() ==> (#[trigger] s[i] as u32) < 0x10000 {
            assert forall|i: int| 0 <= i < t.len() implies (#[trigger] t[i] as u32) < 0x10000 by {
                assert(t[i] == s[i]);
            }
            assert((s[s.len() - 1] as u32) < 0x10000);
        }
        if forall|i: int| 0 <= i < s.len() ==> (#[trigger] s[i] as u32) >= 0x10000 {
            assert forall|i: int| 0 <= i < t.len() implies (#[trigger] t[i] as u32) >= 0x10000 by {
                assert(t[i] == s[i]);
            }
            assert((s[s.len() - 1] as u32) >= 0x10000);
        }
    }
}

} // verus!
