//! Aggregation of interpreted resolutions.
//!
//! All tuples the format interpreter yields for one device are collected
//! into a list with no repeated entry, ranked by capture throughput
//! `width * height * frame rate` in descending order. A tuple equal to one
//! already collected leaves the list unchanged; a new tuple is placed before
//! the first entry that ranks strictly below it, so entries of equal rank
//! keep the order in which they were first discovered.

use vstd::prelude::*;

use crate::CaptureDeviceResolution;
use crate::format::FormatDescriptor;
use crate::format::interpreted;
use crate::format::interpret_format;

verus! {

/// A resolution list ranked by throughput: every entry ranks at least as
/// high as every later one.
pub open spec fn ranked(s: Seq<CaptureDeviceResolution>) -> bool {
    forall|i: int, j: int|
        0 <= i < j < s.len() ==> #[trigger] s[i].spec_throughput() >= #[trigger] s[j].spec_throughput()
}

/// A list in which no entry is repeated.
pub open spec fn distinct(s: Seq<CaptureDeviceResolution>) -> bool {
    forall|i: int, j: int| 0 <= i < j < s.len() ==> #[trigger] s[i] != #[trigger] s[j]
}

/// A new entry placed in a ranked list: before the first entry that ranks
/// strictly below it.
pub open spec fn placed(
    s: Seq<CaptureDeviceResolution>,
    x: CaptureDeviceResolution,
) -> Seq<CaptureDeviceResolution>
    decreases s.len(),
{
    if s.len() == 0 {
        seq![x]
    } else if s[0].spec_throughput() >= x.spec_throughput() {
        seq![s[0]] + placed(s.drop_first(), x)
    } else {
        seq![x] + s
    }
}

/// One aggregation step: a tuple already present leaves the list unchanged,
/// a new one is placed by rank.
pub open spec fn collected(
    s: Seq<CaptureDeviceResolution>,
    x: CaptureDeviceResolution,
) -> Seq<CaptureDeviceResolution> {
    if s.contains(x) {
        s
    } else {
        placed(s, x)
    }
}

/// The aggregated resolution list of a run of descriptors: each interpreted
/// tuple collected in turn, in traversal order.
pub open spec fn aggregated(fmts: Seq<FormatDescriptor>) -> Seq<CaptureDeviceResolution>
    decreases fmts.len(),
{
    if fmts.len() == 0 {
        Seq::empty()
    } else {
        let rest = aggregated(fmts.drop_last());
        match interpreted(fmts.last()) {
            Some(r) => collected(rest, r),
            None => rest,
        }
    }
}

/// Placing an entry grows the list by one and adds exactly that entry.
pub proof fn lemma_placed_membership(s: Seq<CaptureDeviceResolution>, x: CaptureDeviceResolution)
    ensures
        placed(s, x).len() == s.len() + 1,
        forall|y: CaptureDeviceResolution|
            #[trigger] placed(s, x).contains(y) <==> (s.contains(y) || y == x),
    decreases s.len(),
{
    broadcast use vstd::seq_lib::lemma_seq_concat_contains_all_elements;
    broadcast use vstd::seq_lib::lemma_seq_contains;

    if s.len() == 0 {
        assert forall|y: CaptureDeviceResolution|
            #[trigger] placed(s, x).contains(y) <==> (s.contains(y) || y == x) by {
            assert(placed(s, x) == seq![x]);
            assert(seq![x][0] == x);
        }
    } else if s[0].spec_throughput() >= x.spec_throughput() {
        lemma_placed_membership(s.drop_first(), x);
        assert forall|y: CaptureDeviceResolution|
            #[trigger] placed(s, x).contains(y) <==> (s.contains(y) || y == x) by {
            assert(placed(s, x) == seq![s[0]] + placed(s.drop_first(), x));
            assert(seq![s[0]][0] == s[0]);
            assert(s == seq![s[0]] + s.drop_first());
        }
    } else {
        assert forall|y: CaptureDeviceResolution|
            #[trigger] placed(s, x).contains(y) <==> (s.contains(y) || y == x) by {
            assert(placed(s, x) == seq![x] + s);
            assert(seq![x][0] == x);
        }
    }
}

/// Placing an entry in a ranked list keeps it ranked.
pub proof fn lemma_placed_ranked(s: Seq<CaptureDeviceResolution>, x: CaptureDeviceResolution)
    requires
        ranked(s),
    ensures
        ranked(placed(s, x)),
    decreases s.len(),
{
    if s.len() == 0 {
    } else if s[0].spec_throughput() >= x.spec_throughput() {
        assert(ranked(s.drop_first()));
        lemma_placed_ranked(s.drop_first(), x);
        lemma_placed_membership(s.drop_first(), x);
        let t = placed(s.drop_first(), x);
        let r = seq![s[0]] + t;
        assert forall|i: int, j: int| 0 <= i < j < r.len() implies
            #[trigger] r[i].spec_throughput() >= #[trigger] r[j].spec_throughput() by {
            if i == 0 {
                assert(t.contains(t[j - 1]));
                if t[j - 1] == x {
                } else {
                    let k = s.drop_first().lemma_contains_to_index(t[j - 1]);
                    assert(s[k + 1] == t[j - 1]);
                }
            } else {
                assert(t[i - 1].spec_throughput() >= t[j - 1].spec_throughput());
            }
        }
    } else {
        let r = seq![x] + s;
        assert forall|i: int, j: int| 0 <= i < j < r.len() implies
            #[trigger] r[i].spec_throughput() >= #[trigger] r[j].spec_throughput() by {
            if i == 0 {
                if j == 1 {
                } else {
                    assert(s[0].spec_throughput() >= s[j - 1].spec_throughput());
                }
            } else {
                assert(s[i - 1].spec_throughput() >= s[j - 1].spec_throughput());
            }
        }
    }
}

/// Placing an entry that is not yet present keeps every entry unrepeated.
pub proof fn lemma_placed_distinct(s: Seq<CaptureDeviceResolution>, x: CaptureDeviceResolution)
    requires
        distinct(s),
        !s.contains(x),
    ensures
        distinct(placed(s, x)),
    decreases s.len(),
{
    broadcast use vstd::seq_lib::lemma_seq_contains;

    if s.len() == 0 {
    } else if s[0].spec_throughput() >= x.spec_throughput() {
        assert(distinct(s.drop_first()));
        assert(!s.drop_first().contains(x)) by {
            if s.drop_first().contains(x) {
                let k = s.drop_first().lemma_contains_to_index(x);
                assert(s[k + 1] == x);
            }
        }
        lemma_placed_distinct(s.drop_first(), x);
        lemma_placed_membership(s.drop_first(), x);
        let t = placed(s.drop_first(), x);
        let r = seq![s[0]] + t;
        assert forall|i: int, j: int| 0 <= i < j < r.len() implies #[trigger] r[i] != #[trigger] r[j] by {
            if i == 0 {
                assert(t.contains(t[j - 1]));
                if t[j - 1] == x {
                    assert(s[0] != x);
                } else {
                    let k = s.drop_first().lemma_contains_to_index(t[j - 1]);
                    assert(s[k + 1] == t[j - 1]);
                }
            } else {
                assert(t[i - 1] != t[j - 1]);
            }
        }
    } else {
        let r = seq![x] + s;
        assert forall|i: int, j: int| 0 <= i < j < r.len() implies #[trigger] r[i] != #[trigger] r[j] by {
            if i == 0 {
                assert(s.contains(s[j - 1]));
            } else {
                assert(s[i - 1] != s[j - 1]);
            }
        }
    }
}

/// The aggregated list of any run of descriptors repeats no entry: of two
/// tuples equal in width, height and rounded frame rate, only one survives.
pub proof fn lemma_aggregated_distinct(fmts: Seq<FormatDescriptor>)
    ensures
        distinct(aggregated(fmts)),
    decreases fmts.len(),
{
    if fmts.len() == 0 {
    } else {
        lemma_aggregated_distinct(fmts.drop_last());
        let rest = aggregated(fmts.drop_last());
        match interpreted(fmts.last()) {
            Some(r) => {
                if !rest.contains(r) {
                    lemma_placed_distinct(rest, r);
                }
            },
            None => {},
        }
    }
}

/// The aggregated list of any run of descriptors is ranked by throughput in
/// descending order.
pub proof fn lemma_aggregated_ranked(fmts: Seq<FormatDescriptor>)
    ensures
        ranked(aggregated(fmts)),
    decreases fmts.len(),
{
    if fmts.len() == 0 {
    } else {
        lemma_aggregated_ranked(fmts.drop_last());
        let rest = aggregated(fmts.drop_last());
        match interpreted(fmts.last()) {
            Some(r) => {
                if !rest.contains(r) {
                    lemma_placed_ranked(rest, r);
                }
            },
            None => {},
        }
    }
}

/// The aggregated list holds a tuple exactly when some descriptor of the run
/// interprets to it: nothing is invented and nothing interpreted is lost.
pub proof fn lemma_aggregated_membership(fmts: Seq<FormatDescriptor>)
    ensures
        forall|y: CaptureDeviceResolution|
            #[trigger] aggregated(fmts).contains(y)
                <==> exists|i: int| 0 <= i < fmts.len() && #[trigger] interpreted(fmts[i]) == Some(y),
    decreases fmts.len(),
{
    if fmts.len() == 0 {
        assert forall|y: CaptureDeviceResolution| !(#[trigger] aggregated(fmts).contains(y)) by {}
    } else {
        lemma_aggregated_membership(fmts.drop_last());
        let rest = aggregated(fmts.drop_last());
        assert forall|y: CaptureDeviceResolution|
            #[trigger] aggregated(fmts).contains(y)
                <==> exists|i: int| 0 <= i < fmts.len() && #[trigger] interpreted(fmts[i]) == Some(y)
        by {
            match interpreted(fmts.last()) {
                Some(r) => {
                    if !rest.contains(r) {
                        lemma_placed_membership(rest, r);
                    }
                    if aggregated(fmts).contains(y) {
                        if rest.contains(y) {
                            let i = choose|i: int|
                                0 <= i < fmts.drop_last().len()
                                    && #[trigger] interpreted(fmts.drop_last()[i]) == Some(y);
                            assert(fmts[i] == fmts.drop_last()[i]);
                            assert(interpreted(fmts[i]) == Some(y));
                        } else {
                            assert(y == r);
                            assert(interpreted(fmts[fmts.len() - 1]) == Some(y));
                        }
                    }
                    if exists|i: int| 0 <= i < fmts.len() && #[trigger] interpreted(fmts[i]) == Some(y) {
                        let i = choose|i: int|
                            0 <= i < fmts.len() && #[trigger] interpreted(fmts[i]) == Some(y);
                        if i < fmts.len() - 1 {
                            assert(fmts.drop_last()[i] == fmts[i]);
                            assert(rest.contains(y));
                        } else {
                            assert(y == r);
                        }
                    }
                },
                None => {
                    if aggregated(fmts).contains(y) {
                        let i = choose|i: int|
                            0 <= i < fmts.drop_last().len()
                                && #[trigger] interpreted(fmts.drop_last()[i]) == Some(y);
                        assert(fmts[i] == fmts.drop_last()[i]);
                        assert(interpreted(fmts[i]) == Some(y));
                    }
                    if exists|i: int| 0 <= i < fmts.len() && #[trigger] interpreted(fmts[i]) == Some(y) {
                        let i = choose|i: int|
                            0 <= i < fmts.len() && #[trigger] interpreted(fmts[i]) == Some(y);
                        if i < fmts.len() - 1 {
                            assert(fmts.drop_last()[i] == fmts[i]);
                            assert(rest.contains(y));
                        } else {
                            assert(interpreted(fmts.last()) == Some(y));
                        }
                    }
                },
            }
        }
    }
}

/// Rounding law: every frame rate the aggregated list stores is the
/// canonical rounding of the frame interval of some recognized descriptor of
/// the run — never an unrounded value.
pub proof fn lemma_aggregated_rates_rounded(fmts: Seq<FormatDescriptor>, y: CaptureDeviceResolution)
    requires
        aggregated(fmts).contains(y),
    ensures
        exists|i: int|
            0 <= i < fmts.len() && crate::format::is_recognized(#[trigger] fmts[i])
                && y.frame_rate_centi == crate::format::rounded_centi_rate(
                fmts[i].avg_time_per_frame as int,
            ),
{
    lemma_aggregated_membership(fmts);
    let i = choose|i: int| 0 <= i < fmts.len() && #[trigger] interpreted(fmts[i]) == Some(y);
    assert(crate::format::is_recognized(fmts[i]));
    crate::format::lemma_rounded_centi_rate_bounds(fmts[i].avg_time_per_frame as int);
    assert(y.frame_rate_centi == crate::format::rounded_centi_rate(
        fmts[i].avg_time_per_frame as int,
    ));
}

/// A placement found by a left-to-right scan is the placement the model
/// describes: if the first `j` entries rank at least as high as the new one
/// and entry `j`, if any, ranks strictly below it, the new entry lands at
/// index `j`.
proof fn lemma_placed_at_index(
    s: Seq<CaptureDeviceResolution>,
    x: CaptureDeviceResolution,
    j: int,
)
    requires
        0 <= j <= s.len(),
        forall|k: int| 0 <= k < j ==> #[trigger] s[k].spec_throughput() >= x.spec_throughput(),
        j == s.len() || s[j].spec_throughput() < x.spec_throughput(),
    ensures
        placed(s, x) == s.insert(j, x),
    decreases j,
{
    if j == 0 {
        if s.len() == 0 {
            assert(placed(s, x) =~= s.insert(0, x));
        } else {
            assert(placed(s, x) == seq![x] + s);
            assert(seq![x] + s =~= s.insert(0, x));
        }
    } else {
        assert(s[0].spec_throughput() >= x.spec_throughput());
        assert forall|k: int| 0 <= k < j - 1 implies
            #[trigger] s.drop_first()[k].spec_throughput() >= x.spec_throughput() by {
            assert(s.drop_first()[k] == s[k + 1]);
        }
        if j < s.len() {
            assert(s.drop_first()[j - 1] == s[j]);
        }
        lemma_placed_at_index(s.drop_first(), x, j - 1);
        assert(seq![s[0]] + s.drop_first().insert(j - 1, x) =~= s.insert(j, x));
    }
}

/// Inserts one interpreted tuple into an aggregated list, keeping the list
/// deduplicated and ranked.
pub fn collect_resolution(list: &mut Vec<CaptureDeviceResolution>, x: CaptureDeviceResolution)
    ensures
        final(list)@ == collected(old(list)@, x),
{
    let ghost s = list@;
    let mut i: usize = 0;
    while i < list.len()
        invariant
            list@ == s,
            0 <= i <= s.len(),
            forall|k: int| 0 <= k < i ==> s[k] != x,
        decreases s.len() - i,
    {
        if list[i] == x {
            proof {
                assert(s.contains(x));
            }
            return ;
        }
        i += 1;
    }
    proof {
        assert(!s.contains(x)) by {
            if s.contains(x) {
                let k = s.lemma_contains_to_index(x);
            }
        }
    }
    let xt: u128 = x.throughput();
    let mut j: usize = 0;
    while j < list.len() && list[j].throughput() >= xt
        invariant
            list@ == s,
            0 <= j <= s.len(),
            xt == x.spec_throughput(),
            forall|k: int| 0 <= k < j ==> #[trigger] s[k].spec_throughput() >= x.spec_throughput(),
        decreases s.len() - j,
    {
        j += 1;
    }
    proof {
        lemma_placed_at_index(s, x, j as int);
    }
    list.insert(j, x);
}

/// Aggregates the descriptors of one device, in traversal order, into its
/// deduplicated, throughput-ranked resolution list.
pub fn aggregate_formats(fmts: &Vec<FormatDescriptor>) -> (r: Vec<CaptureDeviceResolution>)
    ensures
        r@ == aggregated(fmts@),
{
    let mut out: Vec<CaptureDeviceResolution> = Vec::new();
    let mut i: usize = 0;
    while i < fmts.len()
        invariant
            0 <= i <= fmts@.len(),
            out@ == aggregated(fmts@.take(i as int)),
        decreases fmts@.len() - i,
    {
        let ghost prefix = fmts@.take(i as int);
        match interpret_format(&fmts[i]) {
            Some(r) => collect_resolution(&mut out, r),
            None => {},
        }
        proof {
            assert(fmts@.take(i + 1).drop_last() =~= prefix);
            assert(fmts@.take(i + 1).last() == fmts@[i as int]);
        }
        i += 1;
    }
    proof {
        assert(fmts@.take(fmts@.len() as int) =~= fmts@);
    }
    out
}

} // verus!
