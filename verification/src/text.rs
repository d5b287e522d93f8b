//! Trimming of the text that the user types.

use vstd::prelude::*;

verus! {

/// Whether a character has the Unicode property White_Space.
pub open spec fn is_white_space(c: char) -> bool {
    let n = c as u32;
    ||| 0x09 <= n <= 0x0D
    ||| n == 0x20
    ||| n == 0x85
    ||| n == 0xA0
    ||| n == 0x1680
    ||| 0x2000 <= n <= 0x200A
    ||| n == 0x2028
    ||| n == 0x2029
    ||| n == 0x202F
    ||| n == 0x205F
    ||| n == 0x3000
}

/// Whether a character has the Unicode property White_Space.
pub fn is_whitespace(c: char) -> (white: bool)
    ensures
        white == is_white_space(c),
{
    let n: u32 = c as u32;
    (0x09 <= n && n <= 0x0D) || n == 0x20 || n == 0x85 || n == 0xA0 || n == 0x1680 || (0x2000 <= n
        && n <= 0x200A) || n == 0x2028 || n == 0x2029 || n == 0x202F || n == 0x205F || n
        == 0x3000
}

/// A text without the white space that it begins with.
pub open spec fn trim_start(s: Seq<char>) -> Seq<char>
    decreases s.len(),
{
    if s.len() > 0 && is_white_space(s[0]) {
        trim_start(s.drop_first())
    } else {
        s
    }
}

/// A text without the white space that it ends with.
pub open spec fn trim_end(s: Seq<char>) -> Seq<char>
    decreases s.len(),
{
    if s.len() > 0 && is_white_space(s.last()) {
        trim_end(s.drop_last())
    } else {
        s
    }
}

/// A text without the white space around it.
pub open spec fn trimmed(s: Seq<char>) -> Seq<char> {
    trim_end(trim_start(s))
}

/// The text is empty or all white space.
pub open spec fn is_blank(s: Seq<char>) -> bool {
    forall|i: int| 0 <= i < s.len() ==> is_white_space(#[trigger] s[i])
}

/// Trimming at the start drops exactly the leading run of white space.
proof fn lemma_trim_start(s: Seq<char>, k: int)
    requires
        0 <= k <= s.len(),
        forall|i: int| 0 <= i < k ==> is_white_space(#[trigger] s[i]),
        k == s.len() || !is_white_space(s[k]),
    ensures
        trim_start(s) == s.subrange(k, s.len() as int),
    decreases k,
{
    if k == 0 {
        assert(s.subrange(0, s.len() as int) =~= s);
    } else {
        let rest = s.drop_first();
        assert forall|i: int| 0 <= i < k - 1 implies is_white_space(#[trigger] rest[i]) by {
            assert(rest[i] == s[i + 1]);
        }
        lemma_trim_start(rest, k - 1);
        assert(rest.subrange(k - 1, rest.len() as int) =~= s.subrange(k, s.len() as int));
    }
}

/// Trimming at the end drops exactly the trailing run of white space.
proof fn lemma_trim_end(s: Seq<char>, k: int)
    requires
        0 <= k <= s.len(),
        forall|i: int| k <= i < s.len() ==> is_white_space(#[trigger] s[i]),
        k == 0 || !is_white_space(s[k - 1]),
    ensures
        trim_end(s) == s.subrange(0, k),
    decreases s.len() - k,
{
    if k == s.len() {
        assert(s.subrange(0, k) =~= s);
    } else {
        let rest = s.drop_last();
        lemma_trim_end(rest, k);
        assert(rest.subrange(0, k) =~= s.subrange(0, k));
    }
}

/// Where the white space at the start of a text ends.
proof fn lemma_trim_start_cut(s: Seq<char>) -> (k: int)
    ensures
        0 <= k <= s.len(),
        forall|i: int| 0 <= i < k ==> is_white_space(#[trigger] s[i]),
        k == s.len() || !is_white_space(s[k]),
        trim_start(s) == s.subrange(k, s.len() as int),
    decreases s.len(),
{
    let k = if s.len() > 0 && is_white_space(s[0]) {
        let rest = s.drop_first();
        let cut = lemma_trim_start_cut(rest);
        assert forall|i: int| 0 <= i < cut + 1 implies is_white_space(#[trigger] s[i]) by {
            if i > 0 {
                assert(s[i] == rest[i - 1]);
            }
        }
        cut + 1
    } else {
        0
    };
    lemma_trim_start(s, k);
    k
}

/// Where the white space at the end of a text begins.
proof fn lemma_trim_end_cut(s: Seq<char>) -> (k: int)
    ensures
        0 <= k <= s.len(),
        forall|i: int| k <= i < s.len() ==> is_white_space(#[trigger] s[i]),
        k == 0 || !is_white_space(s[k - 1]),
        trim_end(s) == s.subrange(0, k),
    decreases s.len(),
{
    let k = if s.len() > 0 && is_white_space(s.last()) {
        let rest = s.drop_last();
        let cut = lemma_trim_end_cut(rest);
        assert forall|i: int| cut <= i < s.len() implies is_white_space(#[trigger] s[i]) by {
            if i < rest.len() {
                assert(s[i] == rest[i]);
            }
        }
        cut
    } else {
        s.len() as int
    };
    lemma_trim_end(s, k);
    k
}

/// What trimming leaves of a text is a stretch of it that neither begins nor
/// ends with white space, and trimming it again changes nothing.
pub proof fn lemma_trimmed(s: Seq<char>)
    ensures
        exists|from: int, to: int|
            0 <= from <= to <= s.len() && trimmed(s) == #[trigger] s.subrange(from, to),
        trimmed(s).len() > 0 ==> !is_white_space(trimmed(s).first()) && !is_white_space(
            trimmed(s).last(),
        ),
        trimmed(trimmed(s)) == trimmed(s),
{
    let from = lemma_trim_start_cut(s);
    let tail = s.subrange(from, s.len() as int);
    let kept = lemma_trim_end_cut(tail);
    let left = trimmed(s);
    assert(left =~= s.subrange(from, from + kept));
    if left.len() > 0 {
        assert(left.first() == s[from]);
        assert(left.last() == tail[kept - 1]);
        lemma_trim_start(left, 0);
        assert(left.subrange(0, left.len() as int) =~= left);
        lemma_trim_end(left, left.len() as int);
    }
}

/// Trimming leaves nothing of exactly the texts that are empty or all white
/// space.
pub proof fn lemma_trimmed_blank(s: Seq<char>)
    ensures
        trimmed(s).len() == 0 <==> is_blank(s),
{
    let from = lemma_trim_start_cut(s);
    let tail = s.subrange(from, s.len() as int);
    let kept = lemma_trim_end_cut(tail);
    if from < s.len() {
        assert(tail[0] == s[from]);
    }
}

/// The text without the white space around it.
pub fn trim(s: &str) -> (r: &str)
    ensures
        r@ == trimmed(s@),
{
    let n = s.unicode_len();
    // `start` counts the leading white space; `end` is the place after the
    // last character that is no white space, or `start` where there is none.
    let mut start: usize = 0;
    let mut end: usize = 0;
    let mut seen = false;
    let mut i: usize = 0;
    for c in it: s.chars()
        invariant
            i == it.index(),
            it.seq() == s@,
            n == s@.len(),
            start <= end <= i <= n,
            !seen ==> start == i && end == i,
            seen ==> start < end && !is_white_space(s@[start as int]) && !is_white_space(
                s@[end - 1],
            ),
            forall|j: int| 0 <= j < start ==> is_white_space(#[trigger] s@[j]),
            forall|j: int| end <= j < i ==> is_white_space(#[trigger] s@[j]),
    {
        if is_whitespace(c) {
            if !seen {
                start = i + 1;
                end = i + 1;
            }
        } else {
            seen = true;
            end = i + 1;
        }
        i = i + 1;
    }
    proof {
        let from = s@.subrange(start as int, n as int);
        lemma_trim_start(s@, start as int);
        assert forall|j: int| end - start <= j < from.len() implies is_white_space(
            #[trigger] from[j],
        ) by {
            assert(from[j] == s@[j + start]);
        }
        lemma_trim_end(from, end - start);
        assert(from.subrange(0, end - start) =~= s@.subrange(start as int, end as int));
    }
    s.substring_char(start, end)
}

} // verus!
