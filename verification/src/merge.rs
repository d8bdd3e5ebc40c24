//! Merging forwarded media into albums: the messages a session holds are
//! fetched once each, in batches, and sent back in albums of at most ten.
use std::collections::HashSet;
use vstd::prelude::*;

use crate::text::{dec, push_str, u64_to_string};

verus! {

/// Largest number of messages fetched in one request.
pub const FETCH_BATCH: usize = 100;

/// Largest number of media in one album.
pub const ALBUM_SIZE: usize = 10;

/// The elements of `s` in order, each kept at its first occurrence only.
pub open spec fn first_occurrences(s: Seq<i32>) -> Seq<i32>
    decreases s.len(),
{
    if s.len() == 0 {
        Seq::empty()
    } else {
        let r = first_occurrences(s.drop_last());
        if r.contains(s.last()) {
            r
        } else {
            r.push(s.last())
        }
    }
}

/// The message ids of a session without repeats, in the order in which they
/// first occur (see `first_occurrences`).
pub fn unique_ids(ids: &[i32]) -> (res: Vec<i32>)
    ensures
        res@ == first_occurrences(ids@),
{
    broadcast use vstd::std_specs::hash::group_hash_axioms;

    let mut res: Vec<i32> = Vec::new();
    let mut seen: HashSet<i32> = HashSet::new();
    let mut i: usize = 0;
    while i < ids.len()
        invariant
            i <= ids@.len(),
            res@ == first_occurrences(ids@.take(i as int)),
            forall|x: i32| #[trigger] seen@.contains(x) <==> res@.contains(x),
        decreases ids@.len() - i,
    {
        assert(ids@.take(i + 1).drop_last() =~= ids@.take(i as int));
        let x = ids[i];
        let ghost before = res@;
        if seen.insert(x) {
            res.push(x);
            assert forall|y: i32| #[trigger] seen@.contains(y) <==> res@.contains(y) by {
                if y != x && before.contains(y) {
                    let k = choose|k: int| 0 <= k < before.len() && before[k] == y;
                    assert(res@[k] == y);
                }
                if res@.contains(y) && y != x {
                    let k = choose|k: int| 0 <= k < res@.len() && res@[k] == y;
                    assert(k < before.len());
                    assert(before[k] == y);
                }
                if y == x {
                    assert(res@[res@.len() - 1] == x);
                }
            }
        }
        i = i + 1;
    }
    assert(ids@.take(ids@.len() as int) =~= ids@);
    res
}

/// Removing repeats keeps every id and repeats none.
pub proof fn unique_ids_law(s: Seq<i32>)
    ensures
        forall|x: i32| s.contains(x) <==> #[trigger] first_occurrences(s).contains(x),
        forall|i: int, j: int|
            0 <= i < j < first_occurrences(s).len() ==> first_occurrences(s)[i]
                != first_occurrences(s)[j],
    decreases s.len(),
{
    if s.len() > 0 {
        let p = s.drop_last();
        unique_ids_law(p);
        let r = first_occurrences(p);
        let f = first_occurrences(s);
        assert forall|x: i32| s.contains(x) implies f.contains(x) by {
            let k = choose|k: int| 0 <= k < s.len() && s[k] == x;
            if k < s.len() - 1 {
                assert(p[k] == x);
                assert(p.contains(x));
                assert(r.contains(x));
                let m = choose|m: int| 0 <= m < r.len() && r[m] == x;
                assert(f[m] == x);
            } else if r.contains(s.last()) {
                assert(f == r);
            } else {
                assert(f[f.len() - 1] == x);
            }
        }
        assert forall|x: i32| f.contains(x) implies s.contains(x) by {
            let k = choose|k: int| 0 <= k < f.len() && f[k] == x;
            if k < r.len() {
                assert(r[k] == x);
                assert(r.contains(x));
                assert(p.contains(x));
                let m = choose|m: int| 0 <= m < p.len() && p[m] == x;
                assert(s[m] == x);
            } else {
                assert(s[s.len() - 1] == x);
            }
        }
    }
}

/// `s` cut into pieces of `size` elements, the last one possibly shorter.
pub open spec fn chunks_spec(s: Seq<i32>, size: nat) -> Seq<Seq<i32>>
    decreases s.len(),
{
    if s.len() == 0 || size == 0 {
        Seq::empty()
    } else if s.len() <= size {
        seq![s]
    } else {
        seq![s.take(size as int)] + chunks_spec(s.skip(size as int), size)
    }
}

/// Cuts `ids` into pieces of `size` (see `chunks_spec`).
pub fn chunks_of(ids: &[i32], size: usize) -> (res: Vec<Vec<i32>>)
    requires
        size > 0,
    ensures
        res@.len() == chunks_spec(ids@, size as nat).len(),
        forall|r: int| 0 <= r < res@.len() ==> #[trigger] res@[r]@ == chunks_spec(ids@, size as nat)[r],
{
    let mut res: Vec<Vec<i32>> = Vec::new();
    let ghost mut done: Seq<Seq<i32>> = Seq::empty();
    let n = ids.len();
    let mut start: usize = 0;
    assert(ids@.skip(0) =~= ids@);
    while start < n
        invariant
            n == ids@.len(),
            size > 0,
            start <= n,
            res@.len() == done.len(),
            forall|r: int| 0 <= r < res@.len() ==> #[trigger] res@[r]@ == done[r],
            chunks_spec(ids@, size as nat) == done + chunks_spec(ids@.skip(start as int), size as nat),
        decreases n - start,
    {
        let ghost rest = ids@.skip(start as int);
        let end = if n - start > size { start + size } else { n };
        let mut piece: Vec<i32> = Vec::new();
        let mut k = start;
        while k < end
            invariant
                start <= k <= end <= n,
                n == ids@.len(),
                piece@ == ids@.subrange(start as int, k as int),
            decreases end - k,
        {
            piece.push(ids[k]);
            k = k + 1;
            assert(piece@ =~= ids@.subrange(start as int, k as int));
        }
        proof {
            if n - start > size {
                assert(piece@ =~= rest.take(size as int));
                assert(rest.skip(size as int) =~= ids@.skip(end as int));
                assert(chunks_spec(rest, size as nat) == seq![rest.take(size as int)]
                    + chunks_spec(rest.skip(size as int), size as nat));
            } else {
                assert(piece@ =~= rest);
                assert(chunks_spec(rest, size as nat) == seq![rest]);
                assert(ids@.skip(end as int).len() == 0);
                assert(chunks_spec(ids@.skip(end as int), size as nat) =~= Seq::<Seq<i32>>::empty());
            }
            done = done.push(piece@);
            assert(chunks_spec(ids@, size as nat) =~= done + chunks_spec(
                ids@.skip(end as int),
                size as nat,
            ));
        }
        res.push(piece);
        start = end;
    }
    proof {
        assert(ids@.skip(n as int).len() == 0);
        assert(done + chunks_spec(ids@.skip(n as int), size as nat) =~= done);
    }
    res
}

/// Put back together, the pieces give the sequence, and each piece holds
/// between one and `size` elements.
pub proof fn chunks_law(s: Seq<i32>, size: nat)
    requires
        size > 0,
    ensures
        chunks_spec(s, size).flatten() == s,
        forall|r: int|
            0 <= r < chunks_spec(s, size).len() ==> 1 <= #[trigger] chunks_spec(s, size)[r].len()
                <= size,
    decreases s.len(),
{
    if s.len() == 0 {
    } else if s.len() <= size {
        assert(seq![s].drop_first() =~= Seq::<Seq<i32>>::empty());
        assert(seq![s].flatten() =~= s + Seq::<Seq<i32>>::empty().flatten());
    } else {
        let rest = s.skip(size as int);
        chunks_law(rest, size);
        let c = chunks_spec(s, size);
        assert(c.drop_first() =~= chunks_spec(rest, size));
        assert(c.first() == s.take(size as int));
        assert(s.take(size as int) + rest =~= s);
        assert forall|r: int| 0 <= r < c.len() implies 1 <= #[trigger] c[r].len() <= size by {
            if r > 0 {
                assert(c[r] == chunks_spec(rest, size)[r - 1]);
            }
        }
    }
}

/// The ids of `s` that were fetched, in order (repeats kept).
pub open spec fn found_in(s: Seq<i32>, fetched: Set<i32>) -> Seq<i32> {
    s.filter(|x: i32| fetched.contains(x))
}

/// The albums sent for a session: each piece of ten ids reduced to those
/// that were fetched, the pieces left empty dropped.
pub open spec fn albums_spec(ids: Seq<i32>, fetched: Set<i32>) -> Seq<Seq<i32>> {
    chunks_spec(ids, ALBUM_SIZE as nat).map_values(|c: Seq<i32>| found_in(c, fetched)).filter(
        |a: Seq<i32>| a.len() > 0,
    )
}

fn found_ids(chunk: &Vec<i32>, fetched: &HashSet<i32>) -> (res: Vec<i32>)
    ensures
        res@ == found_in(chunk@, fetched@),
{
    broadcast use vstd::std_specs::hash::group_hash_axioms;

    let mut res: Vec<i32> = Vec::new();
    let mut i: usize = 0;
    while i < chunk.len()
        invariant
            i <= chunk@.len(),
            res@ == found_in(chunk@.take(i as int), fetched@),
        decreases chunk@.len() - i,
    {
        proof {
            reveal(Seq::filter);
        }
        assert(chunk@.take(i + 1).drop_last() =~= chunk@.take(i as int));
        let x = chunk[i];
        if fetched.contains(&x) {
            res.push(x);
        }
        i = i + 1;
    }
    assert(chunk@.take(chunk@.len() as int) =~= chunk@);
    res
}

/// The albums to send for the ids of a session, given the ids of the
/// messages that could be fetched (see `albums_spec`).
pub fn albums(message_ids: &[i32], fetched: &HashSet<i32>) -> (res: Vec<Vec<i32>>)
    ensures
        res@.len() == albums_spec(message_ids@, fetched@).len(),
        forall|r: int|
            0 <= r < res@.len() ==> #[trigger] res@[r]@ == albums_spec(message_ids@, fetched@)[r],
{
    let chunks = chunks_of(message_ids, ALBUM_SIZE);
    let ghost cs = chunks_spec(message_ids@, ALBUM_SIZE as nat);
    let ghost mapped = cs.map_values(|c: Seq<i32>| found_in(c, fetched@));
    let ghost pred = |a: Seq<i32>| a.len() > 0;
    let mut res: Vec<Vec<i32>> = Vec::new();
    let mut i: usize = 0;
    while i < chunks.len()
        invariant
            i <= chunks@.len(),
            chunks@.len() == cs.len(),
            mapped.len() == cs.len(),
            forall|r: int| 0 <= r < chunks@.len() ==> #[trigger] chunks@[r]@ == cs[r],
            forall|r: int|
                0 <= r < mapped.len() ==> #[trigger] mapped[r] == found_in(cs[r], fetched@),
            pred == (|a: Seq<i32>| a.len() > 0),
            res@.len() == mapped.take(i as int).filter(pred).len(),
            forall|r: int|
                0 <= r < res@.len() ==> #[trigger] res@[r]@ == mapped.take(i as int).filter(pred)[r],
        decreases chunks@.len() - i,
    {
        proof {
            reveal(Seq::filter);
        }
        assert(mapped.take(i + 1).drop_last() =~= mapped.take(i as int));
        let a = found_ids(&chunks[i], fetched);
        assert(a@ == mapped[i as int]);
        if a.len() > 0 {
            res.push(a);
        }
        i = i + 1;
    }
    assert(mapped.take(chunks@.len() as int) =~= mapped);
    res
}

/// Every album holds between one and ten media.
pub proof fn albums_law(ids: Seq<i32>, fetched: Set<i32>)
    ensures
        forall|r: int|
            0 <= r < albums_spec(ids, fetched).len() ==> 1 <= #[trigger] albums_spec(
                ids,
                fetched,
            )[r].len() <= ALBUM_SIZE,
{
    let cs = chunks_spec(ids, ALBUM_SIZE as nat);
    chunks_law(ids, ALBUM_SIZE as nat);
    let mapped = cs.map_values(|c: Seq<i32>| found_in(c, fetched));
    let pred = |a: Seq<i32>| a.len() > 0;
    assert forall|r: int| 0 <= r < mapped.len() implies #[trigger] mapped[r].len() <= ALBUM_SIZE by {
        cs[r].lemma_filter_len(|x: i32| fetched.contains(x));
    }
    broadcast use vstd::seq_lib::group_filter_ensures;
    let out = mapped.filter(pred);
    assert forall|r: int| 0 <= r < out.len() implies 1 <= #[trigger] out[r].len() <= ALBUM_SIZE by {
        assert(out.contains(out[r]));
        mapped.lemma_filter_contains_rev(pred, out[r]);
        let k = choose|k: int| 0 <= k < mapped.len() && mapped[k] == out[r];
        assert(mapped[k].len() <= ALBUM_SIZE);
        assert(pred(out[r]));
    }
}

proof fn lemma_filter_flatten(cs: Seq<Seq<i32>>, fetched: Set<i32>)
    ensures
        cs.map_values(|c: Seq<i32>| found_in(c, fetched)).flatten() == found_in(
            cs.flatten(),
            fetched,
        ),
    decreases cs.len(),
{
    let m = cs.map_values(|c: Seq<i32>| found_in(c, fetched));
    if cs.len() == 0 {
        assert(found_in(Seq::<i32>::empty(), fetched) =~= Seq::<i32>::empty()) by {
            reveal(Seq::filter);
        }
    } else {
        let rest = cs.drop_first();
        lemma_filter_flatten(rest, fetched);
        assert(m.drop_first() =~= rest.map_values(|c: Seq<i32>| found_in(c, fetched)));
        assert(cs.flatten() == cs[0] + rest.flatten());
        Seq::filter_distributes_over_add(cs[0], rest.flatten(), |x: i32| fetched.contains(x));
    }
}

proof fn lemma_drop_empty_flatten(ms: Seq<Seq<i32>>)
    ensures
        ms.filter(|a: Seq<i32>| a.len() > 0).flatten() == ms.flatten(),
    decreases ms.len(),
{
    reveal(Seq::filter);
    let pred = |a: Seq<i32>| a.len() > 0;
    if ms.len() > 0 {
        let init = ms.drop_last();
        lemma_drop_empty_flatten(init);
        assert(init.push(ms.last()) =~= ms);
        init.lemma_flatten_push(ms.last());
        if pred(ms.last()) {
            init.filter(pred).lemma_flatten_push(ms.last());
        } else {
            assert(ms.last() =~= Seq::<i32>::empty());
            assert(ms.flatten() =~= init.flatten());
        }
    }
}

/// Merging sends every fetched message of the session exactly once, in the
/// order of the session: the albums put together are the session's ids
/// reduced to those that were fetched, so no more media are sent than the
/// session holds.
pub proof fn albums_keep_order(ids: Seq<i32>, fetched: Set<i32>)
    ensures
        albums_spec(ids, fetched).flatten() == found_in(ids, fetched),
        albums_spec(ids, fetched).flatten().len() <= ids.len(),
{
    ids.lemma_filter_len(|x: i32| fetched.contains(x));
    let cs = chunks_spec(ids, ALBUM_SIZE as nat);
    chunks_law(ids, ALBUM_SIZE as nat);
    lemma_filter_flatten(cs, fetched);
    lemma_drop_empty_flatten(cs.map_values(|c: Seq<i32>| found_in(c, fetched)));
}

/// The ids of a session in the batches in which they are fetched: without
/// repeats, a hundred at a time.
pub fn fetch_batches(message_ids: &[i32]) -> (res: Vec<Vec<i32>>)
    ensures
        res@.len() == chunks_spec(first_occurrences(message_ids@), FETCH_BATCH as nat).len(),
        forall|r: int|
            0 <= r < res@.len() ==> #[trigger] res@[r]@ == chunks_spec(
                first_occurrences(message_ids@),
                FETCH_BATCH as nat,
            )[r],
{
    let uniq = unique_ids(message_ids);
    chunks_of(uniq.as_slice(), FETCH_BATCH)
}

/// The answer to a group of media: `收到 {n} 条媒体`.
pub fn received_text(n: usize) -> (res: String)
    ensures
        res@ == "收到 "@ + dec(n as nat) + " 条媒体"@,
{
    let mut res = String::new();
    push_str(&mut res, "收到 ");
    push_str(&mut res, u64_to_string(n as u64).as_str());
    push_str(&mut res, " 条媒体");
    res
}

/// The answer to the "merge" button: `已添加 {n} 条媒体`.
pub fn added_text(n: usize) -> (res: String)
    ensures
        res@ == "已添加 "@ + dec(n as nat) + " 条媒体"@,
{
    let mut res = String::new();
    push_str(&mut res, "已添加 ");
    push_str(&mut res, u64_to_string(n as u64).as_str());
    push_str(&mut res, " 条媒体");
    res
}

/// The answer to the "finish" button: `已成功合并 {sent} / {want} 条媒体`.
pub fn merged_text(sent: usize, want: usize) -> (res: String)
    ensures
        res@ == "已成功合并 "@ + dec(sent as nat) + " / "@ + dec(want as nat) + " 条媒体"@,
{
    let mut res = String::new();
    push_str(&mut res, "已成功合并 ");
    push_str(&mut res, u64_to_string(sent as u64).as_str());
    push_str(&mut res, " / ");
    push_str(&mut res, u64_to_string(want as u64).as_str());
    push_str(&mut res, " 条媒体");
    res
}

} // verus!
