use vstd::prelude::*;
use crate::input::Input;

verus! {

/// The sum of the repeat counts of a sequence of instructions.
pub open spec fn total(s: Seq<(Input, u32)>) -> nat
    decreases s.len(),
{
    if s.len() == 0 {
        0
    } else {
        total(s.drop_last()) + s.last().1 as nat
    }
}

/// Run-length compression: each run of adjacent instructions with the same
/// input becomes one instruction whose count is the run's sum.
pub open spec fn compress(s: Seq<(Input, u32)>) -> Seq<(Input, u32)>
    decreases s.len(),
{
    if s.len() == 0 {
        s
    } else {
        let p = compress(s.drop_last());
        let x = s.last();
        if p.len() > 0 && p.last().0 == x.0 {
            p.drop_last().push((x.0, (p.last().1 + x.1) as u32))
        } else {
            p.push(x)
        }
    }
}

/// No two adjacent instructions share the same input.
pub open spec fn no_adjacent_repeats(s: Seq<(Input, u32)>) -> bool {
    forall|i: int| 0 < i < s.len() ==> s[i - 1].0 != #[trigger] s[i].0
}

/// The runs of a sequence with their exact sums: each run of adjacent
/// instructions with the same input, as its input and the sum of its counts.
pub open spec fn run_sums(s: Seq<(Input, u32)>) -> Seq<(Input, int)>
    decreases s.len(),
{
    if s.len() == 0 {
        seq![]
    } else {
        let p = run_sums(s.drop_last());
        let x = s.last();
        if p.len() > 0 && p.last().0 == x.0 {
            p.drop_last().push((x.0, p.last().1 + x.1))
        } else {
            p.push((x.0, x.1 as int))
        }
    }
}

/// The sum of the counts of each run fits in a `u32`.
pub open spec fn runs_fit(s: Seq<(Input, u32)>) -> bool {
    forall|i: int| 0 <= i < run_sums(s).len() ==> #[trigger] run_sums(s)[i].1 <= u32::MAX
}

proof fn lemma_runs_fit_drop_last(s: Seq<(Input, u32)>)
    requires
        s.len() > 0,
        runs_fit(s),
    ensures
        runs_fit(s.drop_last()),
{
    let p = run_sums(s.drop_last());
    let r = run_sums(s);
    assert forall|i: int| 0 <= i < p.len() implies #[trigger] p[i].1 <= u32::MAX by {
        assert(r[i].1 <= u32::MAX);
    }
}

proof fn lemma_runs_fit_prefix(s: Seq<(Input, u32)>, i: int)
    requires
        0 <= i <= s.len(),
        runs_fit(s),
    ensures
        runs_fit(s.take(i)),
    decreases s.len(),
{
    if i < s.len() {
        assert(s.take(i) =~= s.drop_last().take(i));
        lemma_runs_fit_drop_last(s);
        lemma_runs_fit_prefix(s.drop_last(), i);
    } else {
        assert(s.take(i) =~= s);
    }
}

/// Where each run fits, compression computes the exact run sums.
pub proof fn lemma_compress_run_sums(s: Seq<(Input, u32)>)
    requires
        runs_fit(s),
    ensures
        compress(s).len() == run_sums(s).len(),
        forall|i: int|
            0 <= i < compress(s).len() ==> (#[trigger] compress(s)[i]).0 == run_sums(s)[i].0
                && compress(s)[i].1 as int == run_sums(s)[i].1,
    decreases s.len(),
{
    if s.len() > 0 {
        lemma_runs_fit_drop_last(s);
        lemma_compress_run_sums(s.drop_last());
        let c = compress(s);
        let r = run_sums(s);
        assert forall|i: int| 0 <= i < c.len() implies (#[trigger] c[i]).0 == r[i].0 && c[i].1 as int
            == r[i].1 by {
            assert(r[i].1 <= u32::MAX);
        }
    }
}

proof fn lemma_total_push(a: Seq<(Input, u32)>, x: (Input, u32))
    ensures
        total(a.push(x)) == total(a) + x.1,
{
    assert(a.push(x).drop_last() =~= a);
}

/// Where each run fits, compression keeps the sum of all counts.
pub proof fn lemma_total_compress(s: Seq<(Input, u32)>)
    requires
        runs_fit(s),
    ensures
        total(compress(s)) == total(s),
    decreases s.len(),
{
    if s.len() > 0 {
        let p = compress(s.drop_last());
        let x = s.last();
        lemma_runs_fit_drop_last(s);
        lemma_total_compress(s.drop_last());
        lemma_compress_run_sums(s.drop_last());
        lemma_compress_run_sums(s);
        if p.len() > 0 && p.last().0 == x.0 {
            let y = (x.0, (p.last().1 + x.1) as u32);
            assert(run_sums(s)[p.len() - 1].1 <= u32::MAX);
            assert(p.drop_last().push(y).drop_last() =~= p.drop_last());
            assert(p.drop_last().push(p.last()) =~= p);
            lemma_total_push(p.drop_last(), p.last());
        } else {
            assert(p.push(x).drop_last() =~= p);
        }
    }
}

/// Each run sum is at most the sum of all counts.
proof fn lemma_run_sums_le_total(s: Seq<(Input, u32)>)
    ensures
        forall|i: int| 0 <= i < run_sums(s).len() ==> #[trigger] run_sums(s)[i].1 <= total(s),
    decreases s.len(),
{
    if s.len() > 0 {
        lemma_run_sums_le_total(s.drop_last());
        let p = run_sums(s.drop_last());
        let r = run_sums(s);
        assert forall|i: int| 0 <= i < r.len() implies #[trigger] r[i].1 <= total(s) by {
            if i < p.len() {
                assert(p[i].1 <= total(s.drop_last()));
            }
        }
    }
}

/// Where all counts together fit in a `u32`, so does each run.
pub proof fn lemma_total_fits(s: Seq<(Input, u32)>)
    requires
        total(s) <= u32::MAX,
    ensures
        runs_fit(s),
{
    lemma_run_sums_le_total(s);
}

/// In a sequence with no adjacent repeats every run is one instruction, so
/// each run fits.
pub proof fn lemma_no_adjacent_repeats_fit(s: Seq<(Input, u32)>)
    requires
        no_adjacent_repeats(s),
    ensures
        runs_fit(s),
        run_sums(s).len() == s.len(),
    decreases s.len(),
{
    if s.len() > 0 {
        let d = s.drop_last();
        assert(no_adjacent_repeats(d)) by {
            assert forall|i: int| 0 < i < d.len() implies d[i - 1].0 != #[trigger] d[i].0 by {
                assert(s[i - 1].0 != s[i].0);
            }
        }
        lemma_no_adjacent_repeats_fit(d);
        lemma_run_sums_is_seq(d);
        if d.len() > 0 {
            assert(s[s.len() - 2].0 != s[s.len() - 1].0);
        }
        lemma_run_sums_is_seq(s);
    }
}

proof fn lemma_run_sums_is_seq(s: Seq<(Input, u32)>)
    requires
        no_adjacent_repeats(s),
    ensures
        run_sums(s).len() == s.len(),
        forall|i: int| 0 <= i < s.len() ==> #[trigger] run_sums(s)[i] == (s[i].0, s[i].1 as int),
    decreases s.len(),
{
    if s.len() > 0 {
        let d = s.drop_last();
        assert(no_adjacent_repeats(d)) by {
            assert forall|i: int| 0 < i < d.len() implies d[i - 1].0 != #[trigger] d[i].0 by {
                assert(s[i - 1].0 != s[i].0);
            }
        }
        lemma_run_sums_is_seq(d);
        if d.len() > 0 {
            assert(s[s.len() - 2].0 != s[s.len() - 1].0);
            assert(run_sums(d).last() == (d[d.len() - 1].0, d[d.len() - 1].1 as int));
        }
        let r = run_sums(s);
        assert forall|i: int| 0 <= i < s.len() implies #[trigger] r[i] == (s[i].0, s[i].1 as int) by {
            if i < d.len() {
                assert(run_sums(d)[i] == (d[i].0, d[i].1 as int));
            }
        }
    }
}

/// The last instruction of a compressed sequence has the input of the last
/// instruction of the uncompressed sequence.
pub proof fn lemma_compress_last_input(s: Seq<(Input, u32)>)
    requires
        s.len() > 0,
    ensures
        compress(s).len() > 0,
        compress(s).last().0 == s.last().0,
{
}

/// Where the last two instructions differ in input, compression keeps the
/// last one as it is.
pub proof fn lemma_compress_last(s: Seq<(Input, u32)>)
    requires
        s.len() >= 2,
        s[s.len() - 2].0 != s.last().0,
    ensures
        compress(s).len() > 0,
        compress(s).last() == s.last(),
{
    lemma_compress_last_input(s.drop_last());
}

/// Where the first two instructions differ in input, compression keeps the
/// first one as it is.
pub proof fn lemma_compress_first(s: Seq<(Input, u32)>)
    requires
        s.len() >= 2,
        s[0].0 != s[1].0,
    ensures
        compress(s).len() >= 2,
        compress(s)[0] == s[0],
    decreases s.len(),
{
    let p = compress(s.drop_last());
    if s.len() == 2 {
        let d = s.drop_last();
        assert(d.drop_last() =~= Seq::<(Input, u32)>::empty());
        assert(compress(d.drop_last()).len() == 0);
        assert(p =~= seq![s[0]]);
    } else {
        lemma_compress_first(s.drop_last());
    }
}

/// Compression leaves no two adjacent instructions with the same input.
pub proof fn lemma_compress_no_adjacent_repeats(s: Seq<(Input, u32)>)
    ensures
        no_adjacent_repeats(compress(s)),
    decreases s.len(),
{
    if s.len() > 0 {
        let p = compress(s.drop_last());
        let x = s.last();
        lemma_compress_no_adjacent_repeats(s.drop_last());
        let c = compress(s);
        if p.len() > 0 && p.last().0 == x.0 {
            assert forall|i: int| 0 < i < c.len() implies c[i - 1].0 != #[trigger] c[i].0 by {
                assert(p[i - 1].0 != p[i].0);
            }
        } else {
            assert forall|i: int| 0 < i < c.len() implies c[i - 1].0 != #[trigger] c[i].0 by {
                if i < p.len() {
                    assert(p[i - 1].0 != p[i].0);
                }
            }
        }
    }
}

/// A sequence with no adjacent repeats is its own compression.
pub proof fn lemma_compress_fixed(s: Seq<(Input, u32)>)
    requires
        no_adjacent_repeats(s),
    ensures
        compress(s) == s,
    decreases s.len(),
{
    if s.len() > 0 {
        let d = s.drop_last();
        assert(no_adjacent_repeats(d)) by {
            assert forall|i: int| 0 < i < d.len() implies d[i - 1].0 != #[trigger] d[i].0 by {
                assert(s[i - 1].0 != s[i].0);
            }
        }
        lemma_compress_fixed(d);
        if d.len() > 0 {
            assert(s[s.len() - 2].0 != s[s.len() - 1].0);
        }
        assert(d.push(s.last()) =~= s);
    }
}

/// Compressing twice gives the same result as compressing once, and a
/// compressed sequence always meets the bound that compressing it asks for.
pub proof fn lemma_compress_idempotent(s: Seq<(Input, u32)>)
    ensures
        runs_fit(compress(s)),
        compress(compress(s)) == compress(s),
{
    lemma_compress_no_adjacent_repeats(s);
    lemma_no_adjacent_repeats_fit(compress(s));
    lemma_compress_fixed(compress(s));
}

/// Merges each run of adjacent instructions with the same input into one,
/// whose count is the sum of the run's counts; the sum of all counts is kept.
pub fn dedup_near(items: &mut Vec<(Input, u32)>)
    requires
        runs_fit(old(items)@),
    ensures
        final(items)@ == compress(old(items)@),
        total(final(items)@) == total(old(items)@),
{
    let ghost s = items@;
    let mut out: Vec<(Input, u32)> = Vec::new();
    let n = items.len();
    let mut i: usize = 0;
    proof {
        assert(s.take(0) =~= Seq::<(Input, u32)>::empty());
        lemma_total_compress(s);
    }
    while i < n
        invariant
            n == s.len(),
            s == items@,
            0 <= i <= n,
            runs_fit(s),
            out@ == compress(s.take(i as int)),
        decreases n - i,
    {
        let x = items[i];
        let len = out.len();
        proof {
            let t = s.take(i + 1);
            assert(t.drop_last() =~= s.take(i as int));
            lemma_runs_fit_prefix(s, i + 1);
            lemma_runs_fit_prefix(s, i as int);
            lemma_compress_run_sums(t);
            lemma_compress_run_sums(s.take(i as int));
            if len > 0 && out@[len - 1].0 == x.0 {
                assert(run_sums(t)[len - 1].1 <= u32::MAX);
            }
        }
        if len > 0 && out[len - 1].0 == x.0 {
            let last = out[len - 1];
            out.set(len - 1, (x.0, last.1 + x.1));
            proof {
                assert(out@ =~= compress(s.take(i + 1)));
            }
        } else {
            out.push(x);
        }
        i = i + 1;
    }
    proof {
        assert(s.take(n as int) =~= s);
    }
    *items = out;
}

} // verus!
