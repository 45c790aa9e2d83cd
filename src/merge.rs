//! The order of records (by date text, then by locator, byte by byte) and the
//! sorted merge of cached and fetched records.
use vstd::prelude::*;

use vstd::multiset::Multiset;
use vstd::utf8::encode_utf8;

use crate::apod::Url;

verus! {

/// Lexicographic comparison of byte sequences: negative, zero or positive as
/// `a` orders before, with or after `b`.
pub open spec fn bytes_cmp(a: Seq<u8>, b: Seq<u8>) -> int
    decreases a.len(),
{
    if a.len() == 0 {
        if b.len() == 0 {
            0
        } else {
            -1
        }
    } else if b.len() == 0 {
        1
    } else if a[0] < b[0] {
        -1
    } else if a[0] > b[0] {
        1
    } else {
        bytes_cmp(a.drop_first(), b.drop_first())
    }
}

/// How two records order: by date text first, then by locator.
pub open spec fn url_cmp(a: Url, b: Url) -> int {
    let c = bytes_cmp(encode_utf8(a.date@), encode_utf8(b.date@));
    if c != 0 {
        c
    } else {
        bytes_cmp(encode_utf8(a.url@), encode_utf8(b.url@))
    }
}

/// Each record orders no later than the one after it.
pub open spec fn sorted_urls(s: Seq<Url>) -> bool {
    forall|i: int| 0 <= i < s.len() - 1 ==> url_cmp(#[trigger] s[i], s[i + 1]) <= 0
}

proof fn lemma_bytes_cmp_antisymmetric(a: Seq<u8>, b: Seq<u8>)
    ensures
        bytes_cmp(a, b) == -bytes_cmp(b, a),
        -1 <= bytes_cmp(a, b) <= 1,
    decreases a.len(),
{
    if a.len() > 0 && b.len() > 0 && a[0] == b[0] {
        lemma_bytes_cmp_antisymmetric(a.drop_first(), b.drop_first());
    }
}

/// Moving one record from the back of `rest` into `done` keeps the records
/// that the two hold together.
proof fn lemma_move_one(done: Seq<Url>, rest: Seq<Url>, j: int, x: Url)
    requires
        0 <= j <= done.len(),
    ensures
        done.insert(j, x).to_multiset().add(rest.to_multiset()) == done.to_multiset().add(
            rest.push(x).to_multiset(),
        ),
{
    broadcast use vstd::multiset::group_multiset_axioms;

    vstd::seq_lib::to_multiset_insert(done, j, x);
    vstd::seq_lib::to_multiset_build(rest, x);
    assert(done.insert(j, x).to_multiset().add(rest.to_multiset()) =~= done.to_multiset().add(
        rest.push(x).to_multiset(),
    ));
}

/// When one side is empty, the records of the two are those of their join.
proof fn lemma_join_with_empty(a: Seq<Url>, b: Seq<Url>)
    requires
        a.len() == 0 || b.len() == 0,
    ensures
        a.to_multiset().add(b.to_multiset()) == (a + b).to_multiset(),
{
    broadcast use vstd::multiset::group_multiset_axioms, vstd::seq_lib::group_to_multiset_ensures;

    if a.len() == 0 {
        assert(a + b =~= b);
        assert(a.to_multiset() =~= Multiset::<Url>::empty());
    } else {
        assert(a + b =~= a);
        assert(b.to_multiset() =~= Multiset::<Url>::empty());
    }
    assert(a.to_multiset().add(b.to_multiset()) =~= (a + b).to_multiset());
}

/// Compares two texts byte by byte.
pub fn compare_text(a: &str, b: &str) -> (r: i8)
    ensures
        r as int == bytes_cmp(encode_utf8(a@), encode_utf8(b@)),
{
    let x = a.as_bytes();
    let y = b.as_bytes();
    let ghost xs = x@;
    let ghost ys = y@;
    let mut i: usize = 0;
    assert(xs.skip(0) =~= xs && ys.skip(0) =~= ys);
    while i < x.len() && i < y.len()
        invariant
            xs == x@,
            ys == y@,
            xs == encode_utf8(a@),
            ys == encode_utf8(b@),
            0 <= i <= xs.len(),
            i <= ys.len(),
            bytes_cmp(xs, ys) == bytes_cmp(xs.skip(i as int), ys.skip(i as int)),
        decreases x.len() - i,
    {
        if x[i] < y[i] {
            return -1;
        }
        if x[i] > y[i] {
            return 1;
        }
        assert(xs.skip(i as int).drop_first() =~= xs.skip(i as int + 1));
        assert(ys.skip(i as int).drop_first() =~= ys.skip(i as int + 1));
        i = i + 1;
    }
    if i < x.len() {
        1
    } else if i < y.len() {
        -1
    } else {
        0
    }
}

/// Compares two records: by date text, then by locator.
pub fn compare_urls(a: &Url, b: &Url) -> (r: i8)
    ensures
        r as int == url_cmp(*a, *b),
{
    let c = compare_text(a.date.as_str(), b.date.as_str());
    if c != 0 {
        c
    } else {
        compare_text(a.url.as_str(), b.url.as_str())
    }
}

/// The records of `cached` and `fetched` together, each kept as many times as
/// it occurs, ascending by date and then by locator.
pub fn merge_sorted(cached: Vec<Url>, fetched: Vec<Url>) -> (r: Vec<Url>)
    ensures
        r@.to_multiset() == (cached@ + fetched@).to_multiset(),
        sorted_urls(r@),
{
    let mut pending = cached;
    let mut more = fetched;
    let ghost all = pending@ + more@;
    pending.append(&mut more);
    assert(pending@ =~= all);
    let mut out: Vec<Url> = Vec::new();
    proof {
        lemma_join_with_empty(out@, pending@);
        assert(out@ + pending@ =~= all);
    }
    while pending.len() > 0
        invariant
            out@.to_multiset().add(pending@.to_multiset()) == all.to_multiset(),
            sorted_urls(out@),
        decreases pending.len(),
    {
        let ghost before = pending@;
        let x = pending.pop().unwrap();
        assert(before =~= pending@.push(x));
        let mut j: usize = out.len();
        while j > 0 && compare_urls(&x, &out[j - 1]) < 0
            invariant
                j <= out@.len(),
                forall|k: int| j <= k < out@.len() ==> url_cmp(x, #[trigger] out@[k]) < 0,
            decreases j,
        {
            j = j - 1;
        }
        let ghost prev = out@;
        proof {
            if j > 0 {
                lemma_bytes_cmp_antisymmetric(encode_utf8(x.date@), encode_utf8(prev[j - 1].date@));
                lemma_bytes_cmp_antisymmetric(encode_utf8(x.url@), encode_utf8(prev[j - 1].url@));
            }
        }
        out.insert(j, x);
        proof {
            assert(out@ =~= prev.insert(j as int, x));
            lemma_move_one(prev, pending@, j as int, x);
        }
        assert forall|i: int| 0 <= i < out@.len() - 1 implies url_cmp(#[trigger] out@[i], out@[i + 1]) <= 0 by {
            if i < j as int - 1 {
                assert(out@[i] == prev[i] && out@[i + 1] == prev[i + 1]);
            } else if i == j as int - 1 {
                assert(out@[i] == prev[i] && out@[i + 1] == x);
            } else if i == j as int {
                assert(out@[i] == x && out@[i + 1] == prev[i]);
            } else {
                assert(out@[i] == prev[i - 1] && out@[i + 1] == prev[i]);
            }
        }
    }
    proof {
        lemma_join_with_empty(out@, pending@);
        assert(out@ + pending@ =~= out@);
    }
    out
}

} // verus!
