//! Per-language statistics and their aggregation.
//!
//! The source scanner reports, for each language it detects in the
//! workspace, a name, the number of contributing file reports, and counts of
//! code, comment and blank lines.  This module turns those raw reports into
//! the response shape: one [`Stat`] per language whose `lines` field is the
//! sum of the three line counters, the list sorted by `lines` descending
//! with ties kept in scan order, and a grand total over all languages.

use vstd::prelude::*;

verus! {

use vstd::multiset::Multiset;

/// Line statistics for one language, or the total over all of them.
///
/// A well-formed `Stat` satisfies `lines == codes + comments + blanks`;
/// see [`Stat::wf`].
#[derive(Debug, Clone, Copy, PartialEq, Eq, Structural)]
pub struct Stat {
    pub files: usize,
    pub lines: usize,
    pub codes: usize,
    pub comments: usize,
    pub blanks: usize,
}

impl Stat {
    /// `lines` is derived, not independently settable: it always equals the
    /// sum of the three line counters.
    pub open spec fn wf(self) -> bool {
        self.lines == self.codes + self.comments + self.blanks
    }

    /// The all-zero statistic: the total of an empty scan.
    pub open spec fn zero_spec() -> Stat {
        Stat { files: 0, lines: 0, codes: 0, comments: 0, blanks: 0 }
    }

    /// Builds the all-zero statistic.
    pub fn zero() -> (s: Stat)
        ensures
            s == Stat::zero_spec(),
    {
        Stat { files: 0, lines: 0, codes: 0, comments: 0, blanks: 0 }
    }
}

/// What the source scanner reports for one language: its name, the number
/// of file reports that contributed, and the raw line counts.
#[derive(Debug, Clone)]
pub struct RawLanguage {
    pub name: String,
    pub files: usize,
    pub code: usize,
    pub comments: usize,
    pub blanks: usize,
}

/// Whether the line counts of one raw report can be summed without
/// overflowing the machine word.
pub open spec fn raw_fits(r: RawLanguage) -> bool {
    r.code + r.comments + r.blanks <= usize::MAX
}

/// The statistic that a raw report aggregates to.
pub open spec fn stat_of(r: RawLanguage) -> Stat {
    Stat {
        files: r.files,
        lines: (r.code + r.comments + r.blanks) as usize,
        codes: r.code,
        comments: r.comments,
        blanks: r.blanks,
    }
}

/// Turns one raw scanner report into the response statistic for that
/// language: `lines` becomes the sum of code, comment and blank lines.
pub fn make_stat(lang: &RawLanguage) -> (s: Stat)
    requires
        raw_fits(*lang),
    ensures
        s == stat_of(*lang),
        s.wf(),
{
    Stat {
        files: lang.files,
        lines: lang.code + lang.comments + lang.blanks,
        codes: lang.code,
        comments: lang.comments,
        blanks: lang.blanks,
    }
}

/// The entries are ordered by total line count, largest first.
pub open spec fn sorted_desc(s: Seq<(String, Stat)>) -> bool {
    forall|i: int, j: int|
        0 <= i < j < s.len() ==> (#[trigger] s[i]).1.lines >= (#[trigger] s[j]).1.lines
}

/// Where a stable descending insertion puts `x` into `s`: after every
/// element whose line count is at least `x`'s, before the first strictly
/// smaller one.
pub open spec fn insert_desc(
    s: Seq<(String, Stat)>,
    x: (String, Stat),
) -> Seq<(String, Stat)>
    decreases s.len(),
{
    if s.len() == 0 {
        seq![x]
    } else if s[0].1.lines >= x.1.lines {
        seq![s[0]] + insert_desc(s.drop_first(), x)
    } else {
        seq![x] + s
    }
}

/// The stable descending sort of `s` by line count: each element in turn is
/// inserted after all earlier elements with at least its line count, so
/// entries with equal counts keep the order in which they arrived.
pub open spec fn sort_desc(s: Seq<(String, Stat)>) -> Seq<(String, Stat)>
    decreases s.len(),
{
    if s.len() == 0 {
        Seq::empty()
    } else {
        insert_desc(sort_desc(s.drop_last()), s.last())
    }
}

/// A stable descending insertion is an insertion at the first index whose
/// element has strictly fewer lines than the inserted one.
proof fn lemma_insert_desc_at(s: Seq<(String, Stat)>, x: (String, Stat), j: int)
    requires
        0 <= j <= s.len(),
        forall|k: int| 0 <= k < j ==> (#[trigger] s[k]).1.lines >= x.1.lines,
        j < s.len() ==> s[j].1.lines < x.1.lines,
    ensures
        insert_desc(s, x) == s.insert(j, x),
    decreases s.len(),
{
    if s.len() == 0 {
        assert(insert_desc(s, x) =~= s.insert(j, x));
    } else if j == 0 {
        assert(insert_desc(s, x) =~= s.insert(j, x));
    } else {
        assert(s[0].1.lines >= x.1.lines);
        lemma_insert_desc_at(s.drop_first(), x, j - 1);
        assert(insert_desc(s, x) =~= s.insert(j, x));
    }
}

/// Inserts one entry into the list built so far, after every entry with at
/// least its line count.
fn insert_entry(out: &mut Vec<(String, Stat)>, x: (String, Stat))
    ensures
        final(out)@ == insert_desc(old(out)@, x),
{
    let mut j: usize = 0;
    while j < out.len() && out[j].1.lines >= x.1.lines
        invariant
            j <= out@.len(),
            forall|k: int| 0 <= k < j ==> (#[trigger] out@[k]).1.lines >= x.1.lines,
        decreases out@.len() - j,
    {
        j += 1;
    }
    proof {
        lemma_insert_desc_at(out@, x, j as int);
    }
    out.insert(j, x);
}

/// Sorts the entries by line count, largest first, with a stable insertion:
/// entries with equal counts keep the order in which they arrived.
fn sort_entries(input: Vec<(String, Stat)>) -> (out: Vec<(String, Stat)>)
    ensures
        out@ == sort_desc(input@),
{
    let ghost orig: Seq<(String, Stat)> = input@;
    let mut rest = input;
    let mut out: Vec<(String, Stat)> = Vec::new();
    while rest.len() > 0
        invariant
            rest@.len() <= orig.len(),
            rest@ == orig.subrange(orig.len() - rest@.len(), orig.len() as int),
            out@ == sort_desc(orig.subrange(0, orig.len() - rest@.len())),
        decreases rest@.len(),
    {
        let ghost k = orig.len() - rest@.len();
        let x = rest.remove(0);
        proof {
            assert(x == orig[k]);
            assert(rest@ =~= orig.subrange(orig.len() - rest@.len(), orig.len() as int));
            let t = orig.subrange(0, k + 1);
            assert(t.drop_last() =~= orig.subrange(0, k));
            assert(t.last() == orig[k]);
        }
        insert_entry(&mut out, x);
    }
    proof {
        assert(orig.subrange(0, orig.len() as int) =~= orig);
    }
    out
}

/// Every element of a stable descending insertion is the inserted element
/// or one of the list it was inserted into.
proof fn lemma_insert_desc_contains(s: Seq<(String, Stat)>, x: (String, Stat))
    ensures
        insert_desc(s, x).len() == s.len() + 1,
        forall|i: int|
            0 <= i < insert_desc(s, x).len() ==> (#[trigger] insert_desc(s, x)[i] == x
                || s.contains(insert_desc(s, x)[i])),
    decreases s.len(),
{
    if s.len() == 0 {
    } else if s[0].1.lines >= x.1.lines {
        lemma_insert_desc_contains(s.drop_first(), x);
        let r = insert_desc(s, x);
        assert forall|i: int| 0 <= i < r.len() implies (#[trigger] r[i] == x || s.contains(
            r[i],
        )) by {
            if i == 0 {
                assert(s.contains(s[0]));
            } else {
                let e = insert_desc(s.drop_first(), x)[i - 1];
                assert(r[i] == e);
                if e != x {
                    let j = choose|j: int|
                        0 <= j < s.drop_first().len() && s.drop_first()[j] == e;
                    assert(s[j + 1] == e);
                }
            }
        }
    } else {
        assert forall|i: int| 1 <= i < insert_desc(s, x).len() implies s.contains(
            insert_desc(s, x)[i],
        ) by {
            assert(insert_desc(s, x)[i] == s[i - 1]);
        }
    }
}

/// Inserting into a descending list keeps it descending.
proof fn lemma_insert_desc_sorted(s: Seq<(String, Stat)>, x: (String, Stat))
    requires
        sorted_desc(s),
    ensures
        sorted_desc(insert_desc(s, x)),
    decreases s.len(),
{
    lemma_insert_desc_contains(s, x);
    if s.len() == 0 {
    } else if s[0].1.lines >= x.1.lines {
        assert(sorted_desc(s.drop_first()));
        lemma_insert_desc_sorted(s.drop_first(), x);
        let r = insert_desc(s, x);
        let t = insert_desc(s.drop_first(), x);
        lemma_insert_desc_contains(s.drop_first(), x);
        assert forall|i: int, j: int| 0 <= i < j < r.len() implies (#[trigger] r[i]).1.lines >= (
        #[trigger] r[j]).1.lines by {
            if i == 0 {
                let e = t[j - 1];
                assert(r[j] == e);
                if e == x {
                } else {
                    let m = choose|m: int|
                        0 <= m < s.drop_first().len() && s.drop_first()[m] == e;
                    assert(s[m + 1] == e);
                }
            } else {
                assert(r[i] == t[i - 1] && r[j] == t[j - 1]);
            }
        }
    } else {
        let r = insert_desc(s, x);
        assert forall|i: int, j: int| 0 <= i < j < r.len() implies (#[trigger] r[i]).1.lines >= (
        #[trigger] r[j]).1.lines by {
            if i == 0 {
                assert(r[j] == s[j - 1]);
                if j - 1 > 0 {
                    assert(s[0].1.lines >= s[j - 1].1.lines);
                }
            } else {
                assert(r[i] == s[i - 1] && r[j] == s[j - 1]);
            }
        }
    }
}

/// A stable descending insertion adds exactly the inserted element to the
/// list's contents.
proof fn lemma_insert_desc_multiset(s: Seq<(String, Stat)>, x: (String, Stat))
    ensures
        insert_desc(s, x).to_multiset() == s.to_multiset().insert(x),
    decreases s.len(),
{
    broadcast use vstd::seq_lib::group_to_multiset_ensures;
    broadcast use vstd::multiset::group_multiset_axioms;
    broadcast use vstd::seq_lib::lemma_multiset_commutative;

    if s.len() == 0 {
        assert(seq![x] =~= Seq::<(String, Stat)>::empty().push(x));
        assert(Seq::<(String, Stat)>::empty().push(x).to_multiset() =~= Seq::<(
            String,
            Stat,
        )>::empty().to_multiset().insert(x));
        assert(insert_desc(s, x).to_multiset() =~= s.to_multiset().insert(x));
    } else if s[0].1.lines >= x.1.lines {
        lemma_insert_desc_multiset(s.drop_first(), x);
        assert(s =~= seq![s[0]] + s.drop_first());
        assert((seq![s[0]] + insert_desc(s.drop_first(), x)).to_multiset() == seq![
            s[0],
        ].to_multiset().add(insert_desc(s.drop_first(), x).to_multiset()));
        assert(seq![s[0]].to_multiset().add(s.drop_first().to_multiset().insert(x))
            =~= (seq![s[0]].to_multiset().add(s.drop_first().to_multiset())).insert(x));
        assert(insert_desc(s, x).to_multiset() =~= s.to_multiset().insert(x));
    } else {
        assert((seq![x] + s).to_multiset() == seq![x].to_multiset().add(s.to_multiset()));
        assert(seq![x] =~= Seq::<(String, Stat)>::empty().push(x));
        assert(seq![x].to_multiset() =~= Multiset::<(String, Stat)>::empty().insert(x));
        assert(seq![x].to_multiset().add(s.to_multiset()) =~= s.to_multiset().insert(x));
    }
}

/// The stable descending sort orders its entries by line count, largest
/// first.
pub proof fn lemma_sort_desc_sorted(s: Seq<(String, Stat)>)
    ensures
        sorted_desc(sort_desc(s)),
    decreases s.len(),
{
    if s.len() > 0 {
        lemma_sort_desc_sorted(s.drop_last());
        lemma_insert_desc_sorted(sort_desc(s.drop_last()), s.last());
    }
}

/// The stable descending sort is a permutation: it has exactly the entries
/// it was given, each as often as it was given.
pub proof fn lemma_sort_desc_permutes(s: Seq<(String, Stat)>)
    ensures
        sort_desc(s).to_multiset() == s.to_multiset(),
    decreases s.len(),
{
    broadcast use vstd::seq_lib::group_to_multiset_ensures;

    if s.len() > 0 {
        lemma_sort_desc_permutes(s.drop_last());
        lemma_insert_desc_multiset(sort_desc(s.drop_last()), s.last());
        assert(s =~= s.drop_last().push(s.last()));
        assert(s.drop_last().push(s.last()).to_multiset() =~= s.drop_last().to_multiset().insert(
            s.last(),
        ));
    }
}

/// Every entry of the stable descending sort already stood in its input.
pub proof fn lemma_sort_desc_contains(s: Seq<(String, Stat)>)
    ensures
        sort_desc(s).len() == s.len(),
        forall|i: int|
            0 <= i < sort_desc(s).len() ==> s.contains(#[trigger] sort_desc(s)[i]),
    decreases s.len(),
{
    if s.len() > 0 {
        lemma_sort_desc_contains(s.drop_last());
        lemma_insert_desc_contains(sort_desc(s.drop_last()), s.last());
        let r = sort_desc(s);
        assert forall|i: int| 0 <= i < r.len() implies s.contains(#[trigger] r[i]) by {
            let e = r[i];
            if e == s.last() {
                assert(s[s.len() - 1] == e);
            } else {
                assert(sort_desc(s.drop_last()).contains(e));
                let j = choose|j: int|
                    0 <= j < sort_desc(s.drop_last()).len() && sort_desc(s.drop_last())[j] == e;
                assert(s.drop_last().contains(e));
                let m = choose|m: int|
                    0 <= m < s.drop_last().len() && s.drop_last()[m] == e;
                assert(s[m] == e);
            }
        }
    }
}

/// The predicate that picks the entries with exactly `k` lines.
pub open spec fn has_lines(k: int) -> spec_fn((String, Stat)) -> bool {
    |e: (String, Stat)| e.1.lines == k
}

/// A stable descending insertion into a descending list leaves the
/// subsequence of entries with any given line count intact, except that the
/// inserted entry, if it has that count, is appended to it.
proof fn lemma_insert_desc_filter(s: Seq<(String, Stat)>, x: (String, Stat), k: int)
    requires
        sorted_desc(s),
    ensures
        insert_desc(s, x).filter(has_lines(k)) == if x.1.lines == k {
            s.filter(has_lines(k)).push(x)
        } else {
            s.filter(has_lines(k))
        },
    decreases s.len(),
{
    broadcast use vstd::seq_lib::group_filter_ensures;

    let pk = has_lines(k);
    assert(pk(x) <==> x.1.lines == k);
    if s.len() == 0 {
        reveal(Seq::filter);
        assert(seq![x].drop_last() =~= Seq::<(String, Stat)>::empty());
        assert(seq![x].last() == x);
        assert(Seq::<(String, Stat)>::empty().filter(pk) =~= Seq::<(String, Stat)>::empty());
        assert(s.filter(pk) =~= Seq::<(String, Stat)>::empty());
        if x.1.lines == k {
            assert(insert_desc(s, x).filter(pk) =~= s.filter(pk).push(x));
        } else {
            assert(insert_desc(s, x).filter(pk) =~= s.filter(pk));
        }
    } else if s[0].1.lines >= x.1.lines {
        assert(sorted_desc(s.drop_first()));
        lemma_insert_desc_filter(s.drop_first(), x, k);
        let r = insert_desc(s.drop_first(), x);
        Seq::filter_distributes_over_add(seq![s[0]], r, pk);
        assert(s =~= seq![s[0]] + s.drop_first());
        Seq::filter_distributes_over_add(seq![s[0]], s.drop_first(), pk);
        if x.1.lines == k {
            Seq::push_distributes_over_add(
                seq![s[0]].filter(pk),
                s.drop_first().filter(pk),
                x,
            );
        }
    } else {
        Seq::filter_distributes_over_add(seq![x], s, pk);
        reveal(Seq::filter);
        assert(seq![x].drop_last() =~= Seq::<(String, Stat)>::empty());
        assert(seq![x].last() == x);
        if x.1.lines == k {
            assert forall|i: int| 0 <= i < s.len() implies !pk(#[trigger] s[i]) by {
                if i > 0 {
                    assert(s[0].1.lines >= s[i].1.lines);
                }
            }
            assert(s.all(|e: (String, Stat)| !pk(e)));
            s.lemma_all_neg_filter_empty(pk);
            assert(insert_desc(s, x).filter(pk) =~= s.filter(pk).push(x));
        } else {
            assert(Seq::<(String, Stat)>::empty().filter(pk) =~= Seq::<(String, Stat)>::empty());
            assert(seq![x].filter(pk) =~= Seq::<(String, Stat)>::empty());
            assert(insert_desc(s, x).filter(pk) =~= s.filter(pk));
        }
    }
}

/// The stable descending sort is stable: among the entries with any given
/// line count, the sorted list keeps exactly the order in which they were
/// given.
pub proof fn lemma_sort_desc_stable(s: Seq<(String, Stat)>, k: int)
    ensures
        sort_desc(s).filter(has_lines(k)) == s.filter(has_lines(k)),
    decreases s.len(),
{
    let pk = has_lines(k);
    if s.len() > 0 {
        lemma_sort_desc_stable(s.drop_last(), k);
        lemma_sort_desc_sorted(s.drop_last());
        lemma_insert_desc_filter(sort_desc(s.drop_last()), s.last(), k);
        reveal(Seq::filter);
    }
}

/// The sum of one counter, chosen by `f`, over a list of entries.
pub open spec fn sum_by(s: Seq<(String, Stat)>, f: spec_fn(Stat) -> int) -> int
    decreases s.len(),
{
    if s.len() == 0 {
        0
    } else {
        sum_by(s.drop_last(), f) + f(s.last().1)
    }
}

pub open spec fn sum_files(s: Seq<(String, Stat)>) -> int {
    sum_by(s, |t: Stat| t.files as int)
}

pub open spec fn sum_lines(s: Seq<(String, Stat)>) -> int {
    sum_by(s, |t: Stat| t.lines as int)
}

pub open spec fn sum_codes(s: Seq<(String, Stat)>) -> int {
    sum_by(s, |t: Stat| t.codes as int)
}

pub open spec fn sum_comments(s: Seq<(String, Stat)>) -> int {
    sum_by(s, |t: Stat| t.comments as int)
}

pub open spec fn sum_blanks(s: Seq<(String, Stat)>) -> int {
    sum_by(s, |t: Stat| t.blanks as int)
}

/// The field-wise sums over all entries: the grand total of a response.
pub open spec fn total_of(s: Seq<(String, Stat)>) -> Stat {
    Stat {
        files: sum_files(s) as usize,
        lines: sum_lines(s) as usize,
        codes: sum_codes(s) as usize,
        comments: sum_comments(s) as usize,
        blanks: sum_blanks(s) as usize,
    }
}

/// Whether the grand totals over the entries fit in the machine word.
pub open spec fn totals_fit(s: Seq<(String, Stat)>) -> bool {
    sum_files(s) <= usize::MAX && sum_lines(s) <= usize::MAX && sum_codes(s) <= usize::MAX
        && sum_comments(s) <= usize::MAX && sum_blanks(s) <= usize::MAX
}

/// How a partial sum grows by one entry, and that it never exceeds the sum
/// over the whole list when the counter is non-negative.
proof fn lemma_sum_by_bounds(s: Seq<(String, Stat)>, f: spec_fn(Stat) -> int, i: int)
    requires
        0 <= i < s.len(),
        forall|t: Stat| #[trigger] f(t) >= 0,
    ensures
        sum_by(s.subrange(0, i + 1), f) == sum_by(s.subrange(0, i), f) + f(s[i].1),
        sum_by(s.subrange(0, i + 1), f) <= sum_by(s, f),
        sum_by(s.subrange(0, i), f) >= 0,
    decreases s.len(),
{
    let t = s.subrange(0, i + 1);
    assert(t.drop_last() =~= s.subrange(0, i));
    assert(t.last() == s[i]);
    lemma_sum_by_nonneg(s.subrange(0, i), f);
    lemma_sum_by_prefix_le(s, f, i + 1);
}

/// A sum of non-negative counters is non-negative.
proof fn lemma_sum_by_nonneg(s: Seq<(String, Stat)>, f: spec_fn(Stat) -> int)
    requires
        forall|t: Stat| #[trigger] f(t) >= 0,
    ensures
        sum_by(s, f) >= 0,
    decreases s.len(),
{
    if s.len() > 0 {
        lemma_sum_by_nonneg(s.drop_last(), f);
    }
}

/// With a non-negative counter, the sum over a prefix is at most the sum
/// over the whole list.
proof fn lemma_sum_by_prefix_le(s: Seq<(String, Stat)>, f: spec_fn(Stat) -> int, i: int)
    requires
        0 <= i <= s.len(),
        forall|t: Stat| #[trigger] f(t) >= 0,
    ensures
        sum_by(s.subrange(0, i), f) <= sum_by(s, f),
    decreases s.len() - i,
{
    if i == s.len() {
        assert(s.subrange(0, i) =~= s);
    } else {
        let t = s.subrange(0, i + 1);
        assert(t.drop_last() =~= s.subrange(0, i));
        assert(t.last() == s[i]);
        lemma_sum_by_prefix_le(s, f, i + 1);
    }
}

/// Over well-formed entries the summed line count splits into the summed
/// code, comment and blank counts.
proof fn lemma_sum_lines_split(s: Seq<(String, Stat)>)
    requires
        forall|i: int| 0 <= i < s.len() ==> (#[trigger] s[i]).1.wf(),
    ensures
        sum_lines(s) == sum_codes(s) + sum_comments(s) + sum_blanks(s),
    decreases s.len(),
{
    if s.len() > 0 {
        assert(forall|i: int|
            0 <= i < s.drop_last().len() ==> (#[trigger] s.drop_last()[i]).1.wf());
        lemma_sum_lines_split(s.drop_last());
        assert(s.last().1.wf());
    }
}

/// The grand total over well-formed entries is itself well-formed: its line
/// count is the sum of its code, comment and blank counts.
pub proof fn lemma_total_wf(s: Seq<(String, Stat)>)
    requires
        forall|i: int| 0 <= i < s.len() ==> (#[trigger] s[i]).1.wf(),
        totals_fit(s),
    ensures
        total_of(s).wf(),
{
    lemma_sum_lines_split(s);
    lemma_sum_by_nonneg(s, |t: Stat| t.lines as int);
    lemma_sum_by_nonneg(s, |t: Stat| t.codes as int);
    lemma_sum_by_nonneg(s, |t: Stat| t.comments as int);
    lemma_sum_by_nonneg(s, |t: Stat| t.blanks as int);
}

/// The response entry for each raw report, in scan order.
pub open spec fn entries_of(raw: Seq<RawLanguage>) -> Seq<(String, Stat)> {
    raw.map_values(|r: RawLanguage| (r.name, stat_of(r)))
}

/// Builds the response statistics from the raw scanner output: one entry
/// per language, with `lines` the sum of its three counters, the list
/// sorted by `lines` descending with ties kept in scan order, and the
/// field-wise grand total over all entries.  An empty scan yields an empty
/// list and an all-zero total.
pub fn aggregate(raw: Vec<RawLanguage>) -> (r: (Vec<(String, Stat)>, Stat))
    requires
        forall|i: int| 0 <= i < raw@.len() ==> raw_fits(#[trigger] raw@[i]),
        totals_fit(sort_desc(entries_of(raw@))),
    ensures
        r.0@ == sort_desc(entries_of(raw@)),
        r.1 == total_of(r.0@),
        sorted_desc(r.0@),
        r.0@.to_multiset() == entries_of(raw@).to_multiset(),
        forall|k: int| #[trigger] r.0@.filter(has_lines(k)) == entries_of(raw@).filter(has_lines(k)),
        forall|i: int| 0 <= i < r.0@.len() ==> (#[trigger] r.0@[i]).1.wf(),
        r.1.wf(),
{
    let ghost orig: Seq<RawLanguage> = raw@;
    let mut rest = raw;
    let mut entries: Vec<(String, Stat)> = Vec::new();
    while rest.len() > 0
        invariant
            rest@.len() <= orig.len(),
            rest@ == orig.subrange(orig.len() - rest@.len(), orig.len() as int),
            entries@ == entries_of(orig.subrange(0, orig.len() - rest@.len())),
            forall|i: int| 0 <= i < orig.len() ==> raw_fits(#[trigger] orig[i]),
        decreases rest@.len(),
    {
        let ghost k = orig.len() - rest@.len();
        let x = rest.remove(0);
        proof {
            assert(x == orig[k]);
            assert(rest@ =~= orig.subrange(orig.len() - rest@.len(), orig.len() as int));
        }
        let s = make_stat(&x);
        entries.push((x.name, s));
        proof {
            assert(entries@ =~= entries_of(orig.subrange(0, k + 1)));
        }
    }
    proof {
        assert(orig.subrange(0, orig.len() as int) =~= orig);
    }
    let sorted = sort_entries(entries);
    let mut total = Stat::zero();
    let mut i: usize = 0;
    proof {
        assert(sorted@.subrange(0, 0) =~= Seq::<(String, Stat)>::empty());
    }
    while i < sorted.len()
        invariant
            i <= sorted@.len(),
            totals_fit(sorted@),
            total.files == sum_files(sorted@.subrange(0, i as int)),
            total.lines == sum_lines(sorted@.subrange(0, i as int)),
            total.codes == sum_codes(sorted@.subrange(0, i as int)),
            total.comments == sum_comments(sorted@.subrange(0, i as int)),
            total.blanks == sum_blanks(sorted@.subrange(0, i as int)),
        decreases sorted@.len() - i,
    {
        proof {
            lemma_sum_by_bounds(sorted@, |t: Stat| t.files as int, i as int);
            lemma_sum_by_bounds(sorted@, |t: Stat| t.lines as int, i as int);
            lemma_sum_by_bounds(sorted@, |t: Stat| t.codes as int, i as int);
            lemma_sum_by_bounds(sorted@, |t: Stat| t.comments as int, i as int);
            lemma_sum_by_bounds(sorted@, |t: Stat| t.blanks as int, i as int);
        }
        total = Stat {
            files: total.files + sorted[i].1.files,
            lines: total.lines + sorted[i].1.lines,
            codes: total.codes + sorted[i].1.codes,
            comments: total.comments + sorted[i].1.comments,
            blanks: total.blanks + sorted[i].1.blanks,
        };
        i += 1;
    }
    proof {
        assert(sorted@.subrange(0, sorted@.len() as int) =~= sorted@);
        let es = entries_of(orig);
        lemma_sort_desc_sorted(es);
        lemma_sort_desc_permutes(es);
        lemma_sort_desc_contains(es);
        assert forall|i: int| 0 <= i < sort_desc(es).len() implies (#[trigger] sort_desc(
            es,
        )[i]).1.wf() by {
            let e = sort_desc(es)[i];
            assert(es.contains(e));
            let j = choose|j: int| 0 <= j < es.len() && es[j] == e;
            assert(es[j] == (orig[j].name, stat_of(orig[j])));
            assert(raw_fits(orig[j]));
        }
        assert forall|k: int| #[trigger] sort_desc(es).filter(has_lines(k)) == es.filter(
            has_lines(k),
        ) by {
            lemma_sort_desc_stable(es, k);
        }
        lemma_total_wf(sort_desc(es));
    }
    (sorted, total)
}

} // verus!
