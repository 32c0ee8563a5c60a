//! Character-level helpers shared by the text transformations: string
//! equality, prefix and suffix tests, whitespace classification, and
//! trimming, all specified over `Seq<char>` views.

use vstd::prelude::*;

verus! {

/// Whitespace as the cleaner understands it: the Unicode `White_Space`
/// code points, compared by scalar value.
pub open spec fn is_space(c: char) -> bool {
    ||| c as u32 == 0x09
    ||| c as u32 == 0x0a
    ||| c as u32 == 0x0b
    ||| c as u32 == 0x0c
    ||| c as u32 == 0x0d
    ||| c as u32 == 0x20
    ||| c as u32 == 0x85
    ||| c as u32 == 0xa0
    ||| c as u32 == 0x1680
    ||| (0x2000 <= c as u32 && c as u32 <= 0x200a)
    ||| c as u32 == 0x2028
    ||| c as u32 == 0x2029
    ||| c as u32 == 0x202f
    ||| c as u32 == 0x205f
    ||| c as u32 == 0x3000
}

/// Runtime test matching `is_space`.
pub fn is_space_char(c: char) -> (r: bool)
    ensures
        r == is_space(c),
{
    let u = c as u32;
    u == 0x09 || u == 0x0a || u == 0x0b || u == 0x0c || u == 0x0d || u == 0x20 || u == 0x85
        || u == 0xa0 || u == 0x1680 || (0x2000 <= u && u <= 0x200a) || u == 0x2028 || u == 0x2029
        || u == 0x202f || u == 0x205f || u == 0x3000
}

/// String equality on character sequences, proved by scanning.
pub fn str_eq(a: &str, b: &str) -> (r: bool)
    ensures
        r == (a@ == b@),
{
    let a_len = a.unicode_len();
    let b_len = b.unicode_len();
    if a_len != b_len {
        return false;
    }
    let mut i: usize = 0;
    while i < a_len
        invariant
            i <= a_len,
            a_len == a@.len(),
            a_len == b@.len(),
            forall|j: int| 0 <= j < i ==> a@[j] == b@[j],
        decreases a_len - i,
    {
        if a.get_char(i) != b.get_char(i) {
            return false;
        }
        i += 1;
    }
    proof {
        assert(a@ =~= b@);
    }
    true
}

/// Does `p` occur in `s` as the characters starting at `from`?
pub open spec fn has_seq_at(s: Seq<char>, from: int, p: Seq<char>) -> bool {
    &&& 0 <= from
    &&& from + p.len() <= s.len()
    &&& s.subrange(from, from + p.len() as int) == p
}

/// Runtime prefix test at an offset, matching `has_seq_at`.
pub fn str_has_prefix_at(s: &str, from: usize, p: &str) -> (r: bool)
    requires
        from <= s@.len(),
    ensures
        r == has_seq_at(s@, from as int, p@),
{
    let s_len = s.unicode_len();
    let p_len = p.unicode_len();
    if p_len > s_len - from {
        return false;
    }
    let mut i: usize = 0;
    while i < p_len
        invariant
            i <= p_len,
            p_len == p@.len(),
            s_len == s@.len(),
            from + p_len <= s_len,
            forall|j: int| 0 <= j < i ==> s@[from + j] == p@[j],
        decreases p_len - i,
    {
        if s.get_char(from + i) != p.get_char(i) {
            proof {
                assert(s@.subrange(from as int, from + p@.len() as int)[i as int] == s@[from + i]);
            }
            return false;
        }
        i += 1;
    }
    proof {
        assert(s@.subrange(from as int, from + p@.len() as int) =~= p@);
    }
    true
}

/// The least index in `s` at which a non-whitespace character stands,
/// or `s.len()` when every character is whitespace.
pub open spec fn first_non_space(s: Seq<char>) -> int
    decreases s.len(),
{
    if s.len() == 0 {
        0
    } else if !is_space(s[0]) {
        0
    } else {
        1 + first_non_space(s.drop_first())
    }
}

pub proof fn lemma_first_non_space(s: Seq<char>)
    ensures
        0 <= first_non_space(s) <= s.len(),
        forall|j: int| 0 <= j < first_non_space(s) ==> is_space(#[trigger] s[j]),
        first_non_space(s) < s.len() ==> !is_space(s[first_non_space(s)]),
    decreases s.len(),
{
    if s.len() > 0 && is_space(s[0]) {
        lemma_first_non_space(s.drop_first());
        assert forall|j: int| 0 <= j < first_non_space(s) implies is_space(#[trigger] s[j]) by {
            if j > 0 {
                assert(s.drop_first()[j - 1] == s[j]);
            }
        }
        if first_non_space(s) < s.len() {
            assert(s.drop_first()[first_non_space(s.drop_first())] == s[first_non_space(s)]);
        }
    }
}

/// A line is blank when every character is whitespace.
pub open spec fn is_blank(s: Seq<char>) -> bool {
    forall|i: int| 0 <= i < s.len() ==> is_space(#[trigger] s[i])
}

/// Runtime blank-line test.
pub fn is_blank_str(s: &str) -> (r: bool)
    ensures
        r == is_blank(s@),
{
    let n = s.unicode_len();
    let mut i: usize = 0;
    while i < n
        invariant
            i <= n,
            n == s@.len(),
            forall|j: int| 0 <= j < i ==> is_space(#[trigger] s@[j]),
        decreases n - i,
    {
        if !is_space_char(s.get_char(i)) {
            return false;
        }
        i += 1;
    }
    true
}

/// The greatest index bounding the non-whitespace tail: the least `k` such
/// that every character at or past `k` is whitespace.
pub open spec fn last_non_space_end(s: Seq<char>) -> int
    decreases s.len(),
{
    if s.len() == 0 {
        0
    } else if !is_space(s.last()) {
        s.len() as int
    } else {
        last_non_space_end(s.drop_last())
    }
}

pub proof fn lemma_last_non_space_end(s: Seq<char>)
    ensures
        0 <= last_non_space_end(s) <= s.len(),
        forall|j: int| last_non_space_end(s) <= j < s.len() ==> is_space(#[trigger] s[j]),
        last_non_space_end(s) > 0 ==> !is_space(s[last_non_space_end(s) - 1]),
    decreases s.len(),
{
    if s.len() > 0 && is_space(s.last()) {
        lemma_last_non_space_end(s.drop_last());
        assert forall|j: int| last_non_space_end(s) <= j < s.len() implies is_space(
            #[trigger] s[j],
        ) by {
            if j < s.len() - 1 {
                assert(s.drop_last()[j] == s[j]);
            }
        }
        if last_non_space_end(s) > 0 {
            assert(s.drop_last()[last_non_space_end(s) - 1] == s[last_non_space_end(s) - 1]);
        }
    }
}

/// What `s` is with surrounding whitespace removed.
pub open spec fn trimmed(s: Seq<char>) -> Seq<char> {
    if first_non_space(s) == s.len() {
        Seq::empty()
    } else {
        s.subrange(first_non_space(s), last_non_space_end(s))
    }
}

/// Removes leading and trailing whitespace, yielding `trimmed(s@)`.
pub fn trim_str(s: &str) -> (r: String)
    ensures
        r@ == trimmed(s@),
{
    proof {
        lemma_first_non_space(s@);
        lemma_last_non_space_end(s@);
    }
    let n = s.unicode_len();
    let mut start: usize = 0;
    while start < n && is_space_char(s.get_char(start))
        invariant
            start <= n,
            n == s@.len(),
            forall|j: int| 0 <= j < start ==> is_space(#[trigger] s@[j]),
        decreases n - start,
    {
        start += 1;
    }
    if start == n {
        proof {
            lemma_first_non_space_full(s@, start as int);
        }
        return String::new();
    }
    let mut end: usize = n;
    while end > start && is_space_char(s.get_char(end - 1))
        invariant
            start <= end <= n,
            n == s@.len(),
            start < n,
            !is_space(s@[start as int]),
            forall|j: int| end <= j < n ==> is_space(#[trigger] s@[j]),
        decreases end,
    {
        end -= 1;
    }
    proof {
        lemma_first_non_space_at(s@, start as int);
        lemma_last_non_space_end_at(s@, end as int);
    }
    let piece = s.substring_char(start, end);
    String::from_str(piece)
}

/// When every character is whitespace, `first_non_space` reaches the end.
proof fn lemma_first_non_space_full(s: Seq<char>, k: int)
    requires
        k == s.len(),
        forall|j: int| 0 <= j < k ==> is_space(#[trigger] s[j]),
    ensures
        first_non_space(s) == s.len(),
{
    lemma_first_non_space_at(s, k);
}

/// `first_non_space` is pinned by its characteristic facts.
pub proof fn lemma_first_non_space_at(s: Seq<char>, k: int)
    requires
        0 <= k <= s.len(),
        forall|j: int| 0 <= j < k ==> is_space(#[trigger] s[j]),
        k < s.len() ==> !is_space(s[k]),
    ensures
        first_non_space(s) == k,
    decreases s.len(),
{
    if s.len() > 0 {
        if k == 0 {
            if is_space(s[0]) {
                lemma_first_non_space(s.drop_first());
            }
        } else {
            assert(is_space(s[0]));
            assert forall|j: int| 0 <= j < k - 1 implies is_space(#[trigger] s.drop_first()[j]) by {
                assert(s.drop_first()[j] == s[j + 1]);
            }
            if k - 1 < s.drop_first().len() {
                assert(s.drop_first()[k - 1] == s[k]);
            }
            lemma_first_non_space_at(s.drop_first(), k - 1);
        }
    }
}

/// The least index at which a character other than `c` stands, or
/// `s.len()` when the whole text is made of `c`.
pub open spec fn first_not_char(s: Seq<char>, c: char) -> int
    decreases s.len(),
{
    if s.len() == 0 {
        0
    } else if s[0] != c {
        0
    } else {
        1 + first_not_char(s.drop_first(), c)
    }
}

/// The least index past the last character other than `c`, or `0` when
/// the whole text is made of `c`.
pub open spec fn last_not_char_end(s: Seq<char>, c: char) -> int
    decreases s.len(),
{
    if s.len() == 0 {
        0
    } else if s.last() != c {
        s.len() as int
    } else {
        last_not_char_end(s.drop_last(), c)
    }
}

/// What `s` is with every leading and trailing `c` removed.
pub open spec fn trimmed_matches(s: Seq<char>, c: char) -> Seq<char> {
    if first_not_char(s, c) == s.len() {
        Seq::empty()
    } else {
        s.subrange(first_not_char(s, c), last_not_char_end(s, c))
    }
}

/// `first_not_char` is pinned by its characteristic facts.
pub proof fn lemma_first_not_char_at(s: Seq<char>, c: char, k: int)
    requires
        0 <= k <= s.len(),
        forall|j: int| 0 <= j < k ==> s[j] == c,
        k < s.len() ==> s[k] != c,
    ensures
        first_not_char(s, c) == k,
    decreases s.len(),
{
    if s.len() > 0 {
        if k == 0 {
            if s[0] == c {
                assert(false);
            }
        } else {
            assert(s[0] == c);
            assert forall|j: int| 0 <= j < k - 1 implies s.drop_first()[j] == c by {
                assert(s.drop_first()[j] == s[j + 1]);
            }
            if k - 1 < s.drop_first().len() {
                assert(s.drop_first()[k - 1] == s[k]);
            }
            lemma_first_not_char_at(s.drop_first(), c, k - 1);
        }
    }
}

/// `last_not_char_end` is pinned by its characteristic facts.
pub proof fn lemma_last_not_char_end_at(s: Seq<char>, c: char, k: int)
    requires
        0 <= k <= s.len(),
        forall|j: int| k <= j < s.len() ==> s[j] == c,
        k > 0 ==> s[k - 1] != c,
    ensures
        last_not_char_end(s, c) == k,
    decreases s.len(),
{
    if s.len() > 0 {
        if k == s.len() {
            assert(s.last() != c);
        } else {
            assert(s.last() == c);
            assert forall|j: int| k <= j < s.drop_last().len() implies s.drop_last()[j] == c by {
                assert(s.drop_last()[j] == s[j]);
            }
            if k > 0 {
                assert(s.drop_last()[k - 1] == s[k - 1]);
            }
            lemma_last_not_char_end_at(s.drop_last(), c, k);
        }
    }
}

/// Removes every leading and trailing occurrence of `c`, yielding
/// `trimmed_matches(s@, c)`.
pub fn trim_matches_str(s: &str, c: char) -> (r: String)
    ensures
        r@ == trimmed_matches(s@, c),
{
    let n = s.unicode_len();
    let mut start: usize = 0;
    while start < n && s.get_char(start) == c
        invariant
            start <= n,
            n == s@.len(),
            forall|j: int| 0 <= j < start ==> s@[j] == c,
        decreases n - start,
    {
        start += 1;
    }
    if start == n {
        proof {
            lemma_first_not_char_at(s@, c, n as int);
        }
        return String::new();
    }
    let mut end: usize = n;
    while end > start && s.get_char(end - 1) == c
        invariant
            start <= end <= n,
            n == s@.len(),
            start < n,
            s@[start as int] != c,
            forall|j: int| end <= j < n ==> s@[j] == c,
        decreases end,
    {
        end -= 1;
    }
    proof {
        lemma_first_not_char_at(s@, c, start as int);
        lemma_last_not_char_end_at(s@, c, end as int);
    }
    let piece = s.substring_char(start, end);
    String::from_str(piece)
}

/// `last_non_space_end` is pinned by its characteristic facts.
pub proof fn lemma_last_non_space_end_at(s: Seq<char>, k: int)
    requires
        0 <= k <= s.len(),
        forall|j: int| k <= j < s.len() ==> is_space(#[trigger] s[j]),
        k > 0 ==> !is_space(s[k - 1]),
    ensures
        last_non_space_end(s) == k,
    decreases s.len(),
{
    if s.len() > 0 {
        if k == s.len() {
            assert(!is_space(s.last()));
        } else {
            assert(is_space(s.last()));
            assert forall|j: int| k <= j < s.drop_last().len() implies is_space(
                #[trigger] s.drop_last()[j],
            ) by {
                assert(s.drop_last()[j] == s[j]);
            }
            if k > 0 {
                assert(s.drop_last()[k - 1] == s[k - 1]);
            }
            lemma_last_non_space_end_at(s.drop_last(), k);
        }
    }
}

} // verus!
