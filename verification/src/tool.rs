//! Small game utilities: chunking and shuffling.

use vstd::prelude::*;

use rand::Rng;
use vstd::multiset::Multiset;

verus! {

broadcast use vstd::seq_lib::group_to_multiset_ensures;

/// The result of one match, as the rating system sees it.
#[derive(Debug, Clone, Copy, PartialEq, Eq, Structural)]
pub enum MatchOutcome {
    Victory,
    Defeat,
}

/// Splits a slice into consecutive chunks of `chunk_size` elements; the
/// last chunk holds whatever remains.
pub fn split_into_chunks<T: Clone>(array: &[T], chunk_size: usize) -> (r: Vec<Vec<T>>)
    requires
        chunk_size > 0,
    ensures
        array@.len() == 0 ==> r@.len() == 0,
        array@.len() > 0 ==> (r@.len() - 1) * chunk_size < array@.len() <= r@.len() * chunk_size,
        forall|ci: int| 0 <= ci < r@.len() ==> #[trigger] r@[ci]@.len() == (
            if array@.len() - ci * chunk_size >= chunk_size {
                chunk_size as int
            } else {
                array@.len() - ci * chunk_size
            }
        ),
        forall|ci: int, j: int|
            0 <= ci < r@.len() && 0 <= j < r@[ci]@.len()
                ==> cloned::<T>(array@[ci * chunk_size + j], #[trigger] r@[ci]@[j]),
{
    let len = array.len();
    let mut r: Vec<Vec<T>> = Vec::new();
    let mut begin: usize = 0;
    proof {
        assert(0 * chunk_size == 0) by (nonlinear_arith);
    }
    while begin < len
        invariant
            chunk_size > 0,
            len == array@.len(),
            begin <= len,
            begin == r@.len() * chunk_size || (begin == len && r@.len() >= 1
                && len < r@.len() * chunk_size),
            r@.len() > 0 ==> (r@.len() - 1) * chunk_size < len,
            forall|ci: int| 0 <= ci < r@.len() ==> #[trigger] r@[ci]@.len() == (
                if len - ci * chunk_size >= chunk_size {
                    chunk_size as int
                } else {
                    len - ci * chunk_size
                }
            ),
            forall|ci: int, j: int|
                0 <= ci < r@.len() && 0 <= j < r@[ci]@.len()
                    ==> cloned::<T>(array@[ci * chunk_size + j], #[trigger] r@[ci]@[j]),
        decreases len - begin,
    {
        let end = if len - begin >= chunk_size {
            begin + chunk_size
        } else {
            len
        };
        let mut chunk: Vec<T> = Vec::new();
        let mut i: usize = begin;
        while i < end
            invariant
                begin <= i <= end <= len,
                len == array@.len(),
                chunk@.len() == i - begin,
                forall|j: int| 0 <= j < chunk@.len()
                    ==> cloned::<T>(array@[begin + j], #[trigger] chunk@[j]),
            decreases end - i,
        {
            chunk.push(array[i].clone());
            i = i + 1;
        }
        let ghost n0 = r@.len() as int;
        r.push(chunk);
        begin = end;
        proof {
            assert((n0 + 1 - 1) * chunk_size == n0 * chunk_size) by (nonlinear_arith);
            assert((n0 + 1) * chunk_size == n0 * chunk_size + chunk_size) by (nonlinear_arith);
            assert(forall|ci: int| 0 <= ci < n0 ==> r@[ci] == r@.subrange(0, n0)[ci]);
        }
    }
    proof {
        assert(begin == len);
        if len > 0 {
            if r@.len() == 0 {
                assert(0 * chunk_size == 0) by (nonlinear_arith);
                assert(false);
            }
            assert((r@.len() - 1) * chunk_size < len);
            if begin == r@.len() * chunk_size {
                assert(len <= r@.len() * chunk_size);
            }
        } else {
            if r@.len() >= 1 {
                assert((r@.len() - 1) * chunk_size >= 0) by (nonlinear_arith)
                    requires r@.len() >= 1 && chunk_size > 0;
                assert(false);
            }
        }
    }
    r
}

/// Relies on rand's Rng::gen_range over the thread rng: some index below
/// the bound; nothing more is promised of a random draw.
#[verifier::external_body]
fn rand_below(n: usize) -> (r: usize)
    requires
        n > 0,
    ensures
        r < n,
{
    rand::thread_rng().gen_range(0..n)
}

/// A uniformly shuffled copy of the slice: the same elements, some order.
pub fn shuffle<T: Copy>(array: &[T]) -> (r: Vec<T>)
    ensures
        r@.len() == array@.len(),
        r@.to_multiset() == array@.to_multiset(),
{
    let mut work: Vec<T> = Vec::new();
    for i in 0..array.len()
        invariant
            work@ =~= array@.take(i as int),
    {
        work.push(array[i]);
        proof {
            assert(array@.take(i + 1) =~= array@.take(i as int).push(array@[i as int]));
        }
    }
    proof {
        assert(array@.take(array@.len() as int) == array@);
    }
    let mut r: Vec<T> = Vec::new();
    while work.len() > 0
        invariant
            work@.to_multiset().add(r@.to_multiset()) =~= array@.to_multiset(),
            work@.len() + r@.len() == array@.len(),
        decreases work@.len(),
    {
        let i = rand_below(work.len());
        let ghost work_before = work@;
        let x = work.remove(i);
        r.push(x);
        proof {
            assert(work@.to_multiset() =~= work_before.to_multiset().remove(x));
            assert(work_before.to_multiset().count(x) > 0) by {
                assert(work_before.contains(x));
            }
            assert(work@.to_multiset().add(r@.to_multiset()) =~= array@.to_multiset());
        }
    }
    proof {
        assert(work@.to_multiset() =~= Multiset::empty());
        assert(Multiset::<T>::empty().add(r@.to_multiset()) =~= r@.to_multiset());
    }
    r
}

} // verus!
