//! The notebook cleaner: splits source text into lines the way the standard
//! library does (line feeds end a line; a carriage return directly before a
//! line feed is dropped with it), removes platform metadata lines, and
//! collapses runs of blank lines.

use vstd::prelude::*;

use crate::text::{first_non_space, has_seq_at, is_blank, is_space, lemma_first_non_space,
    str_has_prefix_at, is_space_char, is_blank_str};

verus! {

/// The least index of a line feed in `s`, or `s.len()` when there is none.
pub open spec fn first_newline(s: Seq<char>) -> int
    decreases s.len(),
{
    if s.len() == 0 {
        0
    } else if s[0] == '\n' {
        0
    } else {
        1 + first_newline(s.drop_first())
    }
}

pub proof fn lemma_first_newline(s: Seq<char>)
    ensures
        0 <= first_newline(s) <= s.len(),
        forall|j: int| 0 <= j < first_newline(s) ==> s[j] != '\n',
        first_newline(s) < s.len() ==> s[first_newline(s)] == '\n',
    decreases s.len(),
{
    if s.len() > 0 && s[0] != '\n' {
        lemma_first_newline(s.drop_first());
        assert forall|j: int| 0 <= j < first_newline(s) implies s[j] != '\n' by {
            if j > 0 {
                assert(s.drop_first()[j - 1] == s[j]);
            }
        }
        if first_newline(s) < s.len() {
            assert(s.drop_first()[first_newline(s.drop_first())] == s[first_newline(s)]);
        }
    }
}

/// `first_newline` is pinned by its characteristic facts.
pub proof fn lemma_first_newline_at(s: Seq<char>, k: int)
    requires
        0 <= k <= s.len(),
        forall|j: int| 0 <= j < k ==> s[j] != '\n',
        k < s.len() ==> s[k] == '\n',
    ensures
        first_newline(s) == k,
    decreases s.len(),
{
    if s.len() > 0 {
        if k == 0 {
            if s[0] != '\n' {
                lemma_first_newline(s.drop_first());
            }
        } else {
            assert(s[0] != '\n');
            assert forall|j: int| 0 <= j < k - 1 implies s.drop_first()[j] != '\n' by {
                assert(s.drop_first()[j] == s[j + 1]);
            }
            if k - 1 < s.drop_first().len() {
                assert(s.drop_first()[k - 1] == s[k]);
            }
            lemma_first_newline_at(s.drop_first(), k - 1);
        }
    }
}

/// The lines of `s`: pieces ending at each line feed, with a carriage
/// return directly before the line feed dropped along with it; a final
/// piece without a line feed keeps all its characters; the empty text has
/// no lines.
pub open spec fn spec_lines(s: Seq<char>) -> Seq<Seq<char>>
    decreases s.len(),
{
    if s.len() == 0 {
        Seq::empty()
    } else {
        let i = first_newline(s);
        if 0 <= i < s.len() {
            let line = if i > 0 && s[i - 1] == '\r' {
                s.subrange(0, i - 1)
            } else {
                s.subrange(0, i)
            };
            seq![line] + spec_lines(s.skip(i + 1))
        } else {
            seq![s]
        }
    }
}

/// Lines joined back with single line feeds, no terminator at the end.
pub open spec fn spec_join_lines(ls: Seq<Seq<char>>) -> Seq<char>
    decreases ls.len(),
{
    if ls.len() == 0 {
        Seq::empty()
    } else if ls.len() == 1 {
        ls[0]
    } else {
        ls[0] + seq!['\n'] + spec_join_lines(ls.drop_first())
    }
}

/// Appending one line to a join adds a line feed separator, unless the
/// join was empty of lines.
pub proof fn lemma_join_lines_push(ls: Seq<Seq<char>>, l: Seq<char>)
    ensures
        spec_join_lines(ls.push(l)) == if ls.len() == 0 {
            l
        } else {
            spec_join_lines(ls) + seq!['\n'] + l
        },
    decreases ls.len(),
{
    if ls.len() == 0 {
        assert(ls.push(l)[0] == l);
        assert(spec_join_lines(ls.push(l)) == l);
    } else if ls.len() == 1 {
        assert(ls.push(l).drop_first() =~= seq![l]);
        assert(spec_join_lines(seq![l]) == l);
        assert(ls.push(l)[0] == ls[0]);
    } else {
        lemma_join_lines_push(ls.drop_first(), l);
        assert(ls.push(l).drop_first() =~= ls.drop_first().push(l));
        assert(ls.push(l)[0] == ls[0]);
        assert(ls[0] + seq!['\n'] + (spec_join_lines(ls.drop_first()) + seq!['\n'] + l) =~= (ls[0]
            + seq!['\n'] + spec_join_lines(ls.drop_first())) + seq!['\n'] + l);
    }
}

/// A metadata line: after leading whitespace it starts with one of the
/// three marker prefixes.
pub open spec fn spec_is_metadata_line(l: Seq<char>) -> bool {
    let t = first_non_space(l);
    ||| has_seq_at(l, t, "# METADATA"@)
    ||| has_seq_at(l, t, "# META"@)
    ||| has_seq_at(l, t, "# CELL"@)
}

/// The lines that survive metadata stripping, in order.
pub open spec fn spec_kept_lines(ls: Seq<Seq<char>>) -> Seq<Seq<char>>
    decreases ls.len(),
{
    if ls.len() == 0 {
        Seq::empty()
    } else if spec_is_metadata_line(ls[0]) {
        spec_kept_lines(ls.drop_first())
    } else {
        seq![ls[0]] + spec_kept_lines(ls.drop_first())
    }
}

/// What stripping metadata from source text yields.
pub open spec fn spec_strip_metadata(s: Seq<char>) -> Seq<char> {
    spec_join_lines(spec_kept_lines(spec_lines(s)))
}

/// One pass of blank-run collapsing over lines, carrying whether the
/// previously kept line was blank.
pub open spec fn spec_collapse_rec(ls: Seq<Seq<char>>, prev_blank: bool) -> Seq<Seq<char>>
    decreases ls.len(),
{
    if ls.len() == 0 {
        Seq::empty()
    } else if is_blank(ls[0]) && prev_blank {
        spec_collapse_rec(ls.drop_first(), true)
    } else {
        seq![ls[0]] + spec_collapse_rec(ls.drop_first(), is_blank(ls[0]))
    }
}

/// The lines that survive blank-run collapsing: of each run of blank
/// lines only the first remains.
pub open spec fn spec_collapse_lines(ls: Seq<Seq<char>>) -> Seq<Seq<char>> {
    spec_collapse_rec(ls, false)
}

/// What collapsing blank-line runs in source text yields.
pub open spec fn spec_collapse_blank(s: Seq<char>) -> Seq<char> {
    spec_join_lines(spec_collapse_lines(spec_lines(s)))
}

/// A line as the splitter produces it: free of line feeds.
pub open spec fn line_has_no_newline(l: Seq<char>) -> bool {
    forall|j: int| 0 <= j < l.len() ==> l[j] != '\n'
}

/// A line whose last character is a carriage return.
pub open spec fn line_ends_with_cr(l: Seq<char>) -> bool {
    l.len() > 0 && l[l.len() - 1] == '\r'
}

/// Lines that survive a join-and-split round trip: no line but the last
/// ends with a carriage return (the join would pair it with the following
/// line feed and lose it), and when there are several lines the last is
/// not empty (the join would end with a bare line feed and lose it).
pub open spec fn joinable_lines(ls: Seq<Seq<char>>) -> bool {
    &&& forall|i: int| 0 <= i < ls.len() - 1 ==> !line_ends_with_cr(#[trigger] ls[i])
    &&& ls.len() > 1 ==> ls.last().len() > 0
}

/// No two consecutive lines are blank.
pub open spec fn no_adjacent_blanks(ls: Seq<Seq<char>>) -> bool {
    forall|i: int| 0 <= i < ls.len() - 1 ==> !(is_blank(#[trigger] ls[i]) && is_blank(ls[i + 1]))
}

/// Every line the splitter produces is free of line feeds.
pub proof fn lemma_lines_no_newline(s: Seq<char>)
    ensures
        forall|i: int|
            0 <= i < spec_lines(s).len() ==> line_has_no_newline(#[trigger] spec_lines(s)[i]),
    decreases s.len(),
{
    lemma_first_newline(s);
    if s.len() > 0 {
        let k = first_newline(s);
        if 0 <= k < s.len() {
            lemma_lines_no_newline(s.skip(k + 1));
            assert forall|i: int| 0 <= i < spec_lines(s).len() implies line_has_no_newline(
                #[trigger] spec_lines(s)[i],
            ) by {
                if i == 0 {
                    assert forall|j: int| 0 <= j < spec_lines(s)[0].len() implies spec_lines(
                        s,
                    )[0][j] != '\n' by {
                        assert(spec_lines(s)[0][j] == s[j]);
                    }
                } else {
                    assert(spec_lines(s)[i] == spec_lines(s.skip(k + 1))[i - 1]);
                }
            }
        } else {
            assert forall|j: int| 0 <= j < s.len() implies s[j] != '\n' by {}
            assert(spec_lines(s) == seq![s]);
        }
    }
}

/// Splitting the join of well-formed lines yields the lines back.
pub proof fn lemma_lines_of_join(ls: Seq<Seq<char>>)
    requires
        forall|i: int| 0 <= i < ls.len() ==> line_has_no_newline(#[trigger] ls[i]),
        forall|i: int| 0 <= i < ls.len() - 1 ==> !line_ends_with_cr(#[trigger] ls[i]),
        ls.len() > 0 ==> ls.last().len() > 0,
    ensures
        spec_lines(spec_join_lines(ls)) == ls,
    decreases ls.len(),
{
    if ls.len() == 0 {
        assert(spec_lines(spec_join_lines(ls)) =~= ls);
    } else if ls.len() == 1 {
        let j = spec_join_lines(ls);
        assert(j == ls[0]);
        assert(j.len() > 0);
        lemma_first_newline_at(j, j.len() as int);
        assert(spec_lines(j) =~= ls);
    } else {
        let l0 = ls[0];
        let rest = ls.drop_first();
        let jr = spec_join_lines(rest);
        let j = spec_join_lines(ls);
        assert(j == l0 + seq!['\n'] + jr);
        assert(j.len() == l0.len() + 1 + jr.len());
        assert forall|k: int| 0 <= k < l0.len() implies j[k] != '\n' by {
            assert(j[k] == l0[k]);
        }
        assert(j[l0.len() as int] == '\n');
        lemma_first_newline_at(j, l0.len() as int);
        let line = if l0.len() > 0 && j[l0.len() - 1] == '\r' {
            j.subrange(0, l0.len() - 1)
        } else {
            j.subrange(0, l0.len() as int)
        };
        if l0.len() > 0 {
            assert(j[l0.len() - 1] == l0[l0.len() - 1]);
            assert(!line_ends_with_cr(l0));
            assert(j[l0.len() - 1] != '\r');
        }
        assert(line =~= l0);
        assert(j.skip(l0.len() as int + 1) =~= jr);
        assert(spec_lines(j) == seq![l0] + spec_lines(jr));
        assert forall|i: int| 0 <= i < rest.len() - 1 implies !line_ends_with_cr(
            #[trigger] rest[i],
        ) by {
            assert(rest[i] == ls[i + 1]);
        }
        assert(rest.last() == ls.last());
        lemma_lines_of_join(rest);
        assert(seq![l0] + rest =~= ls);
    }
}

/// Splitting a join of lines never yields more lines than went in.
pub proof fn lemma_lines_of_join_count(ls: Seq<Seq<char>>)
    requires
        forall|i: int| 0 <= i < ls.len() ==> line_has_no_newline(#[trigger] ls[i]),
    ensures
        spec_lines(spec_join_lines(ls)).len() <= ls.len(),
    decreases ls.len(),
{
    if ls.len() == 0 {
    } else if ls.len() == 1 {
        let j = spec_join_lines(ls);
        assert(j == ls[0]);
        lemma_first_newline_at(j, j.len() as int);
    } else {
        let l0 = ls[0];
        let rest = ls.drop_first();
        let jr = spec_join_lines(rest);
        let j = spec_join_lines(ls);
        assert(j == l0 + seq!['\n'] + jr);
        assert forall|k: int| 0 <= k < l0.len() implies j[k] != '\n' by {
            assert(j[k] == l0[k]);
        }
        assert(j[l0.len() as int] == '\n');
        lemma_first_newline_at(j, l0.len() as int);
        assert(j.skip(l0.len() as int + 1) =~= jr);
        lemma_lines_of_join_count(rest);
        assert(spec_lines(j).len() == 1 + spec_lines(jr).len());
    }
}

/// Metadata stripping preserves line well-formedness.
pub proof fn lemma_kept_preserves_no_newline(ls: Seq<Seq<char>>)
    requires
        forall|i: int| 0 <= i < ls.len() ==> line_has_no_newline(#[trigger] ls[i]),
    ensures
        forall|i: int|
            0 <= i < spec_kept_lines(ls).len() ==> line_has_no_newline(
                #[trigger] spec_kept_lines(ls)[i],
            ),
    decreases ls.len(),
{
    if ls.len() > 0 {
        assert forall|i: int| 0 <= i < ls.drop_first().len() implies line_has_no_newline(
            #[trigger] ls.drop_first()[i],
        ) by {
            assert(ls.drop_first()[i] == ls[i + 1]);
        }
        lemma_kept_preserves_no_newline(ls.drop_first());
        if spec_is_metadata_line(ls[0]) {
            assert(spec_kept_lines(ls) == spec_kept_lines(ls.drop_first()));
        } else {
            assert forall|i: int| 0 <= i < spec_kept_lines(ls).len() implies line_has_no_newline(
                #[trigger] spec_kept_lines(ls)[i],
            ) by {
                if i > 0 {
                    assert(spec_kept_lines(ls)[i] == spec_kept_lines(ls.drop_first())[i - 1]);
                } else {
                    assert(spec_kept_lines(ls)[0] == ls[0]);
                    assert(line_has_no_newline(ls[0]));
                }
            }
        }
    }
}

/// Every line that survives stripping is a non-metadata line.
pub proof fn lemma_kept_all_pass(ls: Seq<Seq<char>>)
    ensures
        forall|i: int|
            0 <= i < spec_kept_lines(ls).len() ==> !spec_is_metadata_line(
                #[trigger] spec_kept_lines(ls)[i],
            ),
    decreases ls.len(),
{
    if ls.len() > 0 {
        lemma_kept_all_pass(ls.drop_first());
        if !spec_is_metadata_line(ls[0]) {
            assert forall|i: int|
                0 <= i < spec_kept_lines(ls).len() implies !spec_is_metadata_line(
                #[trigger] spec_kept_lines(ls)[i],
            ) by {
                if i > 0 {
                    assert(spec_kept_lines(ls)[i] == spec_kept_lines(ls.drop_first())[i - 1]);
                }
            }
        }
    }
}

/// Stripping lines that are all non-metadata changes nothing.
pub proof fn lemma_kept_identity(ls: Seq<Seq<char>>)
    requires
        forall|i: int| 0 <= i < ls.len() ==> !spec_is_metadata_line(#[trigger] ls[i]),
    ensures
        spec_kept_lines(ls) == ls,
    decreases ls.len(),
{
    if ls.len() > 0 {
        assert forall|i: int| 0 <= i < ls.drop_first().len() implies !spec_is_metadata_line(
            #[trigger] ls.drop_first()[i],
        ) by {
            assert(ls.drop_first()[i] == ls[i + 1]);
        }
        lemma_kept_identity(ls.drop_first());
        assert(seq![ls[0]] + ls.drop_first() =~= ls);
    }
}

/// Collapsing preserves line well-formedness.
pub proof fn lemma_collapse_preserves_no_newline(ls: Seq<Seq<char>>, prev_blank: bool)
    requires
        forall|i: int| 0 <= i < ls.len() ==> line_has_no_newline(#[trigger] ls[i]),
    ensures
        forall|i: int|
            0 <= i < spec_collapse_rec(ls, prev_blank).len() ==> line_has_no_newline(
                #[trigger] spec_collapse_rec(ls, prev_blank)[i],
            ),
    decreases ls.len(),
{
    if ls.len() > 0 {
        assert forall|i: int| 0 <= i < ls.drop_first().len() implies line_has_no_newline(
            #[trigger] ls.drop_first()[i],
        ) by {
            assert(ls.drop_first()[i] == ls[i + 1]);
        }
        lemma_collapse_preserves_no_newline(ls.drop_first(), true);
        lemma_collapse_preserves_no_newline(ls.drop_first(), is_blank(ls[0]));
        if !(is_blank(ls[0]) && prev_blank) {
            assert forall|i: int|
                0 <= i < spec_collapse_rec(ls, prev_blank).len() implies line_has_no_newline(
                #[trigger] spec_collapse_rec(ls, prev_blank)[i],
            ) by {
                if i > 0 {
                    assert(spec_collapse_rec(ls, prev_blank)[i] == spec_collapse_rec(
                        ls.drop_first(),
                        is_blank(ls[0]),
                    )[i - 1]);
                }
            }
        }
    }
}

/// What one collapsing pass leaves: no two adjacent blank lines, and
/// after a blank line nothing blank opens the remainder.
pub proof fn lemma_collapse_wf(ls: Seq<Seq<char>>, prev_blank: bool)
    ensures
        no_adjacent_blanks(spec_collapse_rec(ls, prev_blank)),
        prev_blank ==> (spec_collapse_rec(ls, prev_blank).len() == 0 || !is_blank(
            spec_collapse_rec(ls, prev_blank)[0],
        )),
    decreases ls.len(),
{
    if ls.len() > 0 {
        let b0 = is_blank(ls[0]);
        lemma_collapse_wf(ls.drop_first(), true);
        lemma_collapse_wf(ls.drop_first(), b0);
        if !(b0 && prev_blank) {
            let out = spec_collapse_rec(ls, prev_blank);
            let tail = spec_collapse_rec(ls.drop_first(), b0);
            assert(out == seq![ls[0]] + tail);
            assert forall|i: int| 0 <= i < out.len() - 1 implies !(is_blank(#[trigger] out[i])
                && is_blank(out[i + 1])) by {
                if i == 0 {
                    if b0 {
                        assert(out[1] == tail[0]);
                        assert(!is_blank(tail[0]));
                    }
                } else {
                    assert(out[i] == tail[i - 1]);
                    assert(out[i + 1] == tail[i]);
                }
            }
        }
    }
}

/// Collapsing lines that already carry no adjacent blanks changes
/// nothing.
pub proof fn lemma_collapse_identity(ls: Seq<Seq<char>>, prev_blank: bool)
    requires
        no_adjacent_blanks(ls),
        prev_blank ==> (ls.len() == 0 || !is_blank(ls[0])),
    ensures
        spec_collapse_rec(ls, prev_blank) == ls,
    decreases ls.len(),
{
    if ls.len() > 0 {
        let b0 = is_blank(ls[0]);
        assert(!(b0 && prev_blank));
        assert forall|i: int| 0 <= i < ls.drop_first().len() - 1 implies !(is_blank(
            #[trigger] ls.drop_first()[i],
        ) && is_blank(ls.drop_first()[i + 1])) by {
            assert(ls.drop_first()[i] == ls[i + 1]);
            assert(ls.drop_first()[i + 1] == ls[i + 2]);
        }
        if b0 && ls.len() > 1 {
            assert(!is_blank(ls[1]));
            assert(ls.drop_first()[0] == ls[1]);
        }
        lemma_collapse_identity(ls.drop_first(), b0);
        assert(seq![ls[0]] + ls.drop_first() =~= ls);
    }
}

/// Collapsing never yields more lines than went in.
pub proof fn lemma_collapse_count(ls: Seq<Seq<char>>, prev_blank: bool)
    ensures
        spec_collapse_rec(ls, prev_blank).len() <= ls.len(),
    decreases ls.len(),
{
    if ls.len() > 0 {
        lemma_collapse_count(ls.drop_first(), true);
        lemma_collapse_count(ls.drop_first(), is_blank(ls[0]));
    }
}

/// Stripping metadata is idempotent: a second pass finds only lines the
/// first pass kept, and keeps them all. The requirement holds whenever
/// the surviving lines round-trip through a join: no kept line but the
/// last may end with a carriage return, and a kept trailing line may not
/// be empty unless it is the only one.
pub proof fn lemma_strip_metadata_idempotent(s: Seq<char>)
    requires
        joinable_lines(spec_kept_lines(spec_lines(s))),
    ensures
        spec_strip_metadata(spec_strip_metadata(s)) == spec_strip_metadata(s),
{
    let ks = spec_kept_lines(spec_lines(s));
    lemma_lines_no_newline(s);
    lemma_kept_preserves_no_newline(spec_lines(s));
    lemma_kept_all_pass(spec_lines(s));
    if ks.len() == 0 || (ks.len() == 1 && ks[0].len() == 0) {
        assert(spec_join_lines(ks).len() == 0);
        assert(spec_join_lines(ks) =~= Seq::<char>::empty());
        assert(spec_strip_metadata(s) == Seq::<char>::empty());
        assert(spec_lines(Seq::<char>::empty()) =~= Seq::<Seq<char>>::empty());
        assert(spec_kept_lines(Seq::<Seq<char>>::empty()) =~= Seq::<Seq<char>>::empty());
        assert(spec_strip_metadata(Seq::<char>::empty()) == Seq::<char>::empty());
    } else {
        lemma_lines_of_join(ks);
        lemma_kept_identity(ks);
    }
}

/// Collapsing blank runs is idempotent: a second pass finds no adjacent
/// blank lines left to remove. The requirement is the same join
/// round-trip condition, on the surviving lines of the first pass.
pub proof fn lemma_collapse_blank_idempotent(s: Seq<char>)
    requires
        joinable_lines(spec_collapse_lines(spec_lines(s))),
    ensures
        spec_collapse_blank(spec_collapse_blank(s)) == spec_collapse_blank(s),
{
    let cs = spec_collapse_lines(spec_lines(s));
    lemma_lines_no_newline(s);
    lemma_collapse_preserves_no_newline(spec_lines(s), false);
    lemma_collapse_wf(spec_lines(s), false);
    if cs.len() == 0 || (cs.len() == 1 && cs[0].len() == 0) {
        assert(spec_join_lines(cs).len() == 0);
        assert(spec_join_lines(cs) =~= Seq::<char>::empty());
        assert(spec_collapse_blank(s) == Seq::<char>::empty());
        assert(spec_lines(Seq::<char>::empty()) =~= Seq::<Seq<char>>::empty());
        assert(spec_collapse_blank(Seq::<char>::empty()) == Seq::<char>::empty());
    } else {
        lemma_lines_of_join(cs);
        lemma_collapse_identity(cs, false);
    }
}

/// Collapsing blank runs never increases the line count.
pub proof fn lemma_collapse_blank_line_count(s: Seq<char>)
    ensures
        spec_lines(spec_collapse_blank(s)).len() <= spec_lines(s).len(),
{
    lemma_lines_no_newline(s);
    lemma_collapse_preserves_no_newline(spec_lines(s), false);
    lemma_collapse_count(spec_lines(s), false);
    lemma_lines_of_join_count(spec_collapse_lines(spec_lines(s)));
}

/// Splits text into its lines.
pub fn split_lines<'a>(s: &'a str) -> (r: Vec<&'a str>)
    ensures
        r.deep_view() == spec_lines(s@),
{
    let n = s.unicode_len();
    let mut out: Vec<&'a str> = Vec::new();
    let mut pos: usize = 0;
    proof {
        assert(s@.skip(0) =~= s@);
        assert(out.deep_view() =~= Seq::<Seq<char>>::empty());
        assert(Seq::<Seq<char>>::empty() + spec_lines(s@) =~= spec_lines(s@));
    }
    while pos < n
        invariant
            pos <= n,
            n == s@.len(),
            spec_lines(s@) =~= out.deep_view() + spec_lines(s@.skip(pos as int)),
        decreases n - pos,
    {
        let ghost suffix = s@.skip(pos as int);
        let mut j: usize = pos;
        while j < n && s.get_char(j) != '\n'
            invariant
                pos <= j <= n,
                n == s@.len(),
                forall|k: int| pos <= k < j ==> s@[k] != '\n',
            decreases n - j,
        {
            j += 1;
        }
        proof {
            assert forall|k: int| 0 <= k < j - pos implies suffix[k] != '\n' by {
                assert(suffix[k] == s@[pos + k]);
            }
            if j < n {
                assert(suffix[j - pos] == s@[j as int]);
            }
            lemma_first_newline_at(suffix, j - pos);
        }
        if j < n {
            let chomp_cr = j > pos && s.get_char(j - 1) == '\r';
            let line_end = if chomp_cr {
                j - 1
            } else {
                j
            };
            let piece = s.substring_char(pos, line_end);
            proof {
                if chomp_cr {
                    assert(suffix[j - 1 - pos as int] == s@[j - 1]);
                } else if j > pos {
                    assert(suffix[j - 1 - pos as int] == s@[j - 1]);
                }
                assert(piece@ =~= suffix.subrange(0, line_end - pos as int));
                assert(suffix.skip(j - pos as int + 1) =~= s@.skip(j as int + 1));
                assert(spec_lines(suffix) == seq![piece@] + spec_lines(s@.skip(j as int + 1)));
            }
            let ghost old_out = out.deep_view();
            out.push(piece);
            proof {
                assert(out.deep_view() =~= old_out.push(piece@));
                assert(old_out.push(piece@) + spec_lines(s@.skip(j as int + 1)) =~= old_out + (
                seq![piece@] + spec_lines(s@.skip(j as int + 1))));
            }
            pos = j + 1;
        } else {
            let piece = s.substring_char(pos, n);
            proof {
                assert(piece@ =~= suffix);
                assert(spec_lines(suffix) == seq![suffix]);
            }
            let ghost old_out = out.deep_view();
            out.push(piece);
            proof {
                assert(out.deep_view() =~= old_out.push(piece@));
                assert(s@.skip(n as int) =~= Seq::<char>::empty());
                assert(old_out.push(suffix) + spec_lines(s@.skip(n as int)) =~= old_out + (
                seq![suffix] + Seq::<Seq<char>>::empty()));
            }
            pos = n;
        }
    }
    proof {
        assert(s@.skip(n as int) =~= Seq::<char>::empty());
        assert(out.deep_view() + Seq::<Seq<char>>::empty() =~= out.deep_view());
    }
    out
}

/// Joins lines with single line feeds.
pub fn join_lines(ls: &Vec<&str>) -> (r: String)
    ensures
        r@ == spec_join_lines(ls.deep_view()),
{
    let mut out = String::new();
    let mut i: usize = 0;
    while i < ls.len()
        invariant
            i <= ls@.len(),
            out@ == spec_join_lines(ls.deep_view().take(i as int)),
        decreases ls@.len() - i,
    {
        proof {
            assert(ls.deep_view().take(i as int + 1) =~= ls.deep_view().take(i as int).push(
                ls@[i as int]@,
            ));
            lemma_join_lines_push(ls.deep_view().take(i as int), ls@[i as int]@);
        }
        if i > 0 {
            out.append("\n");
            proof {
                reveal_strlit("\n");
                assert("\n"@ =~= seq!['\n']);
            }
        }
        out.append(ls[i]);
        proof {
            if i == 0 {
                assert(Seq::<char>::empty() + ls@[i as int]@ =~= ls@[i as int]@);
                assert(ls.deep_view().take(0int) =~= Seq::<Seq<char>>::empty());
            }
        }
        i += 1;
    }
    proof {
        assert(ls.deep_view().take(ls@.len() as int) =~= ls.deep_view());
    }
    out
}

/// Is this a platform metadata line? True when, after leading whitespace,
/// the line starts with one of the three marker prefixes.
pub fn is_metadata_line(line: &str) -> (r: bool)
    ensures
        r == spec_is_metadata_line(line@),
{
    proof {
        lemma_first_non_space(line@);
    }
    let n = line.unicode_len();
    let mut start: usize = 0;
    while start < n && is_space_char(line.get_char(start))
        invariant
            start <= n,
            n == line@.len(),
            forall|j: int| 0 <= j < start ==> is_space(#[trigger] line@[j]),
        decreases n - start,
    {
        start += 1;
    }
    proof {
        crate::text::lemma_first_non_space_at(line@, start as int);
    }
    str_has_prefix_at(line, start, "# METADATA") || str_has_prefix_at(line, start, "# META")
        || str_has_prefix_at(line, start, "# CELL")
}

/// Removes every metadata line; all other lines keep their content and
/// order, rejoined with single line feeds.
pub fn strip_notebook_metadata(source: &str) -> (r: String)
    ensures
        r@ == spec_strip_metadata(source@),
{
    let ls = split_lines(source);
    let ghost all = ls.deep_view();
    let mut kept: Vec<&str> = Vec::new();
    let mut i: usize = 0;
    proof {
        assert(all.skip(0) =~= all);
        assert(kept.deep_view() =~= Seq::<Seq<char>>::empty());
        assert(Seq::<Seq<char>>::empty() + spec_kept_lines(all) =~= spec_kept_lines(all));
    }
    while i < ls.len()
        invariant
            i <= ls@.len(),
            all == ls.deep_view(),
            all.len() == ls@.len(),
            spec_kept_lines(all) =~= kept.deep_view() + spec_kept_lines(all.skip(i as int)),
        decreases ls@.len() - i,
    {
        proof {
            assert(all.skip(i as int)[0] == all[i as int]);
            assert(all.skip(i as int).drop_first() =~= all.skip(i as int + 1));
        }
        let ghost old_kept = kept.deep_view();
        if !is_metadata_line(ls[i]) {
            kept.push(ls[i]);
            proof {
                assert(kept.deep_view() =~= old_kept.push(all[i as int]));
                assert(old_kept.push(all[i as int]) + spec_kept_lines(all.skip(i as int + 1))
                    =~= old_kept + (seq![all[i as int]] + spec_kept_lines(
                    all.skip(i as int + 1),
                )));
            }
        }
        i += 1;
    }
    proof {
        assert(all.skip(all.len() as int) =~= Seq::<Seq<char>>::empty());
        assert(kept.deep_view() + Seq::<Seq<char>>::empty() =~= kept.deep_view());
    }
    join_lines(&kept)
}

/// Collapses every run of two or more blank lines to its first line;
/// non-blank lines are never altered or removed.
pub fn collapse_blank_lines(source: &str) -> (r: String)
    ensures
        r@ == spec_collapse_blank(source@),
{
    let ls = split_lines(source);
    let ghost all = ls.deep_view();
    let mut kept: Vec<&str> = Vec::new();
    let mut previous_was_blank = false;
    let mut i: usize = 0;
    proof {
        assert(all.skip(0) =~= all);
        assert(kept.deep_view() =~= Seq::<Seq<char>>::empty());
        assert(Seq::<Seq<char>>::empty() + spec_collapse_rec(all, false) =~= spec_collapse_rec(
            all,
            false,
        ));
    }
    while i < ls.len()
        invariant
            i <= ls@.len(),
            all == ls.deep_view(),
            all.len() == ls@.len(),
            spec_collapse_rec(all, false) =~= kept.deep_view() + spec_collapse_rec(
                all.skip(i as int),
                previous_was_blank,
            ),
        decreases ls@.len() - i,
    {
        proof {
            assert(all.skip(i as int)[0] == all[i as int]);
            assert(all.skip(i as int).drop_first() =~= all.skip(i as int + 1));
        }
        let ghost old_kept = kept.deep_view();
        let blank = is_blank_str(ls[i]);
        if !(blank && previous_was_blank) {
            kept.push(ls[i]);
            proof {
                assert(kept.deep_view() =~= old_kept.push(all[i as int]));
                assert(old_kept.push(all[i as int]) + spec_collapse_rec(
                    all.skip(i as int + 1),
                    is_blank(all[i as int]),
                ) =~= old_kept + (seq![all[i as int]] + spec_collapse_rec(
                    all.skip(i as int + 1),
                    is_blank(all[i as int]),
                )));
            }
            previous_was_blank = blank;
        }
        i += 1;
    }
    proof {
        assert(all.skip(all.len() as int) =~= Seq::<Seq<char>>::empty());
        assert(kept.deep_view() + Seq::<Seq<char>>::empty() =~= kept.deep_view());
    }
    join_lines(&kept)
}

} // verus!
