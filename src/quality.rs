//! Quality labels: bucketing a bitrate into a label, ranking labels, and the
//! stable ordering of formats by rank.

use vstd::prelude::*;
use crate::model::{
    distinct_ids, distinct_urls, formats_view, has_id, has_url, keep_distinct, FormatView,
    VideoFormat,
};
use crate::text::{contains, decimal, decimal_string, is_infix};

verus! {

/// The label of a stream that declares only its bitrate (bits per second).
pub open spec fn bitrate_label(bitrate: nat) -> Seq<char> {
    if bitrate >= 2_000_000 {
        "1080p"@
    } else if bitrate >= 1_000_000 {
        "720p"@
    } else if bitrate >= 500_000 {
        "480p"@
    } else {
        decimal(bitrate / 1000) + "kbps"@
    }
}

/// The label of a stream that declares only its bitrate (bits per second).
pub fn quality_for_bitrate(bitrate: u64) -> (r: String)
    ensures
        r@ == bitrate_label(bitrate as nat),
{
    if bitrate >= 2_000_000 {
        String::from_str("1080p")
    } else if bitrate >= 1_000_000 {
        String::from_str("720p")
    } else if bitrate >= 500_000 {
        String::from_str("480p")
    } else {
        let mut s = decimal_string(bitrate / 1000);
        s.append("kbps");
        s
    }
}

/// The rank of a quality label: higher sorts first.
pub open spec fn rank(q: Seq<char>) -> nat {
    if is_infix("1080"@, q) {
        4
    } else if is_infix("720"@, q) {
        3
    } else if is_infix("480"@, q) {
        2
    } else if is_infix("360"@, q) {
        1
    } else {
        0
    }
}

/// The rank of a quality label: higher sorts first.
pub fn quality_rank(q: &str) -> (r: u32)
    ensures
        r as nat == rank(q@),
{
    if contains(q, "1080") {
        4
    } else if contains(q, "720") {
        3
    } else if contains(q, "480") {
        2
    } else if contains(q, "360") {
        1
    } else {
        0
    }
}

/// The formats of `fs` whose quality has rank `k`, in their order in `fs`.
pub open spec fn of_rank(fs: Seq<FormatView>, k: nat) -> Seq<FormatView>
    decreases fs.len(),
{
    if fs.len() == 0 {
        fs
    } else if rank(fs.last().quality) == k {
        of_rank(fs.drop_last(), k).push(fs.last())
    } else {
        of_rank(fs.drop_last(), k)
    }
}

/// `fs` ordered by descending rank, keeping the order of formats of equal rank.
pub open spec fn by_rank(fs: Seq<FormatView>) -> Seq<FormatView> {
    of_rank(fs, 4) + of_rank(fs, 3) + of_rank(fs, 2) + of_rank(fs, 1) + of_rank(fs, 0)
}

proof fn lemma_of_rank_is_rank(fs: Seq<FormatView>, k: nat)
    ensures
        forall|i: int| 0 <= i < of_rank(fs, k).len() ==> rank(#[trigger] of_rank(fs, k)[i].quality) == k,
    decreases fs.len(),
{
    if fs.len() > 0 {
        lemma_of_rank_is_rank(fs.drop_last(), k);
    }
}

/// The ranks of formats ordered by rank never rise: every format of a higher
/// rank comes before every format of a lower one.
pub proof fn by_rank_descends(fs: Seq<FormatView>)
    ensures
        forall|i: int, j: int|
            0 <= i < j < by_rank(fs).len() ==> rank((#[trigger] by_rank(fs)[i]).quality) >= rank(
                (#[trigger] by_rank(fs)[j]).quality,
            ),
{
    lemma_of_rank_is_rank(fs, 4);
    lemma_of_rank_is_rank(fs, 3);
    lemma_of_rank_is_rank(fs, 2);
    lemma_of_rank_is_rank(fs, 1);
    lemma_of_rank_is_rank(fs, 0);
    let a4 = of_rank(fs, 4);
    let a3 = of_rank(fs, 3);
    let a2 = of_rank(fs, 2);
    let a1 = of_rank(fs, 1);
    let a0 = of_rank(fs, 0);
    let s = by_rank(fs);
    let l1 = a4.len() as int;
    let l2 = l1 + a3.len();
    let l3 = l2 + a2.len();
    let l4 = l3 + a1.len();
    assert forall|i: int| 0 <= i < s.len() implies rank((#[trigger] s[i]).quality) == (if i < l1 {
        4nat
    } else if i < l2 {
        3
    } else if i < l3 {
        2
    } else if i < l4 {
        1
    } else {
        0
    }) by {
        if i < l1 {
            assert(s[i] == a4[i]);
        } else if i < l2 {
            assert(s[i] == a3[i - l1]);
        } else if i < l3 {
            assert(s[i] == a2[i - l2]);
        } else if i < l4 {
            assert(s[i] == a1[i - l3]);
        } else {
            assert(s[i] == a0[i - l4]);
        }
    }
}

/// Each format of distinct ones has a URL and an identifier of its own.
pub open spec fn distinct(fs: Seq<FormatView>) -> bool {
    distinct_urls(fs) && distinct_ids(fs)
}

proof fn lemma_of_rank_members(fs: Seq<FormatView>, k: nat)
    requires
        distinct(fs),
    ensures
        distinct(of_rank(fs, k)),
        forall|i: int| 0 <= i < of_rank(fs, k).len() ==> fs.contains(#[trigger] of_rank(fs, k)[i]),
    decreases fs.len(),
{
    if fs.len() > 0 {
        let d = fs.drop_last();
        assert forall|i: int, j: int| 0 <= i < j < d.len() implies (#[trigger] d[i]).url != (
        #[trigger] d[j]).url && d[i].format_id != d[j].format_id by {
            assert(d[i] == fs[i] && d[j] == fs[j]);
        }
        lemma_of_rank_members(d, k);
        let prev = of_rank(d, k);
        let r = of_rank(fs, k);
        assert forall|i: int| 0 <= i < prev.len() implies fs.contains(#[trigger] prev[i]) by {
            let p = choose|p: int| 0 <= p < d.len() && d[p] == prev[i];
            assert(fs[p] == prev[i]);
        }
        if r != prev {
            assert(fs[fs.len() - 1] == fs.last());
            assert forall|i: int, j: int| 0 <= i < j < r.len() implies (#[trigger] r[i]).url != (
            #[trigger] r[j]).url && r[i].format_id != r[j].format_id by {
                if j == r.len() - 1 {
                    assert(r[i] == prev[i]);
                    let p = choose|p: int| 0 <= p < d.len() && d[p] == prev[i];
                    assert(fs[p] == prev[i]);
                }
            }
            assert forall|i: int| 0 <= i < r.len() implies fs.contains(#[trigger] r[i]) by {
                if i < prev.len() {
                    assert(r[i] == prev[i]);
                }
            }
        }
    }
}

proof fn lemma_join_distinct(fs: Seq<FormatView>, a: Seq<FormatView>, b: Seq<FormatView>, m: nat)
    requires
        distinct(fs),
        distinct(a),
        distinct(b),
        forall|i: int| 0 <= i < a.len() ==> fs.contains(#[trigger] a[i]) && rank(a[i].quality) > m,
        forall|j: int| 0 <= j < b.len() ==> fs.contains(#[trigger] b[j]) && rank(b[j].quality) == m,
    ensures
        distinct(a + b),
        forall|i: int| 0 <= i < (a + b).len() ==> fs.contains(#[trigger] (a + b)[i]) && rank(
            (a + b)[i].quality,
        ) >= m,
{
    let c = a + b;
    assert forall|i: int, j: int| 0 <= i < j < c.len() implies (#[trigger] c[i]).url != (
    #[trigger] c[j]).url && c[i].format_id != c[j].format_id by {
        if j < a.len() {
            assert(c[i] == a[i] && c[j] == a[j]);
        } else if i >= a.len() {
            assert(c[i] == b[i - a.len()] && c[j] == b[j - a.len()]);
        } else {
            assert(c[i] == a[i] && c[j] == b[j - a.len()]);
            assert(fs.contains(a[i]) && fs.contains(b[j - a.len()]));
            let p = choose|p: int| 0 <= p < fs.len() && fs[p] == a[i];
            let q = choose|q: int| 0 <= q < fs.len() && fs[q] == b[j - a.len()];
            assert(p != q);
            if p < q {
                assert(fs[p].url != fs[q].url && fs[p].format_id != fs[q].format_id);
            } else {
                assert(fs[q].url != fs[p].url && fs[q].format_id != fs[p].format_id);
            }
        }
    }
    assert forall|i: int| 0 <= i < c.len() implies fs.contains(#[trigger] c[i]) && rank(
        c[i].quality,
    ) >= m by {
        if i < a.len() {
            assert(c[i] == a[i]);
        } else {
            assert(c[i] == b[i - a.len()]);
        }
    }
}

proof fn lemma_keep_distinct_keeps_all(fs: Seq<FormatView>)
    requires
        distinct(fs),
    ensures
        keep_distinct(fs) == fs,
    decreases fs.len(),
{
    if fs.len() > 0 {
        let d = fs.drop_last();
        assert forall|i: int, j: int| 0 <= i < j < d.len() implies (#[trigger] d[i]).url != (
        #[trigger] d[j]).url && d[i].format_id != d[j].format_id by {
            assert(d[i] == fs[i] && d[j] == fs[j]);
        }
        lemma_keep_distinct_keeps_all(d);
        let last = fs.last();
        assert(fs[fs.len() - 1] == last);
        assert(!has_url(d, last.url)) by {
            assert forall|i: int| 0 <= i < d.len() implies (#[trigger] d[i]).url != last.url by {
                assert(d[i] == fs[i]);
            }
        }
        assert(!has_id(d, last.format_id)) by {
            assert forall|i: int| 0 <= i < d.len() implies (#[trigger] d[i]).format_id
                != last.format_id by {
                assert(d[i] == fs[i]);
            }
        }
        assert(d.push(last) =~= fs);
    }
}

/// Formats that share no URL and no identifier lose none of themselves to
/// de-duplication once ordered by rank: the result is exactly the stable
/// ordering by descending rank.
pub proof fn ranking_distinct_formats_drops_none(fs: Seq<FormatView>)
    requires
        distinct(fs),
    ensures
        keep_distinct(by_rank(fs)) == by_rank(fs),
{
    lemma_of_rank_is_rank(fs, 4);
    lemma_of_rank_is_rank(fs, 3);
    lemma_of_rank_is_rank(fs, 2);
    lemma_of_rank_is_rank(fs, 1);
    lemma_of_rank_is_rank(fs, 0);
    lemma_of_rank_members(fs, 4);
    lemma_of_rank_members(fs, 3);
    lemma_of_rank_members(fs, 2);
    lemma_of_rank_members(fs, 1);
    lemma_of_rank_members(fs, 0);
    let a4 = of_rank(fs, 4);
    let a3 = of_rank(fs, 3);
    let a2 = of_rank(fs, 2);
    let a1 = of_rank(fs, 1);
    let a0 = of_rank(fs, 0);
    lemma_join_distinct(fs, a4, a3, 3);
    lemma_join_distinct(fs, a4 + a3, a2, 2);
    lemma_join_distinct(fs, a4 + a3 + a2, a1, 1);
    lemma_join_distinct(fs, a4 + a3 + a2 + a1, a0, 0);
    lemma_keep_distinct_keeps_all(by_rank(fs));
}

/// Orders `formats` by descending rank of their quality; formats of equal rank
/// keep their order.
pub fn sort_by_quality(formats: Vec<VideoFormat>) -> (r: Vec<VideoFormat>)
    ensures
        formats_view(r@) == by_rank(formats_view(formats@)),
{
    let ghost orig = formats@;
    let ghost all = formats_view(formats@);
    let mut rest = formats;
    let mut b4: Vec<VideoFormat> = Vec::new();
    let mut b3: Vec<VideoFormat> = Vec::new();
    let mut b2: Vec<VideoFormat> = Vec::new();
    let mut b1: Vec<VideoFormat> = Vec::new();
    let mut b0: Vec<VideoFormat> = Vec::new();
    let ghost mut done: int = 0;
    while rest.len() > 0
        invariant
            0 <= done <= all.len(),
            all == formats_view(orig),
            rest@ == orig.subrange(done, orig.len() as int),
            formats_view(b4@) == of_rank(all.subrange(0, done), 4),
            formats_view(b3@) == of_rank(all.subrange(0, done), 3),
            formats_view(b2@) == of_rank(all.subrange(0, done), 2),
            formats_view(b1@) == of_rank(all.subrange(0, done), 1),
            formats_view(b0@) == of_rank(all.subrange(0, done), 0),
        decreases rest@.len(),
    {
        let f = rest.remove(0);
        let k = quality_rank(f.quality.as_str());
        proof {
            let next = all.subrange(0, done + 1);
            assert(next.drop_last() =~= all.subrange(0, done));
            assert(next.last() == f@);
        }
        let ghost (o4, o3, o2, o1, o0) = (b4@, b3@, b2@, b1@, b0@);
        if k == 4 {
            b4.push(f);
        } else if k == 3 {
            b3.push(f);
        } else if k == 2 {
            b2.push(f);
        } else if k == 1 {
            b1.push(f);
        } else {
            b0.push(f);
        }
        proof {
            assert(formats_view(o4.push(f)) =~= formats_view(o4).push(f@));
            assert(formats_view(o3.push(f)) =~= formats_view(o3).push(f@));
            assert(formats_view(o2.push(f)) =~= formats_view(o2).push(f@));
            assert(formats_view(o1.push(f)) =~= formats_view(o1).push(f@));
            assert(formats_view(o0.push(f)) =~= formats_view(o0).push(f@));
            done = done + 1;
            assert(rest@ =~= orig.subrange(done, orig.len() as int));
        }
    }
    assert(all.subrange(0, done) =~= all);
    let ghost (o4, o3, o2, o1, o0) = (b4@, b3@, b2@, b1@, b0@);
    b4.append(&mut b3);
    b4.append(&mut b2);
    b4.append(&mut b1);
    b4.append(&mut b0);
    assert(formats_view(b4@) =~= formats_view(o4) + formats_view(o3) + formats_view(o2)
        + formats_view(o1) + formats_view(o0));
    b4
}

} // verus!
