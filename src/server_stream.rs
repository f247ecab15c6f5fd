use vstd::prelude::*;

verus! {

/// The size of the chunks that `chunk_size` asks for: at least one item.
pub open spec fn effective_chunk_size(chunk_size: nat) -> nat {
    if chunk_size == 0 {
        1
    } else {
        chunk_size
    }
}

/// `s` cut into chunks of `n` items, in order, the last one holding what is
/// left; no chunk for an empty `s`.
pub open spec fn chunks_of<T>(s: Seq<T>, n: nat) -> Seq<Seq<T>>
    recommends
        n > 0,
    decreases s.len(),
{
    if s.len() == 0 || n == 0 {
        Seq::empty()
    } else if s.len() <= n {
        seq![s]
    } else {
        seq![s.take(n as int)] + chunks_of(s.skip(n as int), n)
    }
}

/// Cuts the items that a server streams into chunks of `chunk_size` (at
/// least one item each), in order; the last chunk holds what is left.
pub fn split_into_chunks<T>(src: Vec<T>, chunk_size: usize) -> (r: Vec<Vec<T>>)
    ensures
        r@.map_values(|c: Vec<T>| c@) == chunks_of(src@, effective_chunk_size(chunk_size as nat)),
{
    let n: usize = if chunk_size == 0 {
        1
    } else {
        chunk_size
    };
    let ghost all = src@;
    let mut rest = src;
    let mut chunks: Vec<Vec<T>> = Vec::new();
    proof {
        assert(chunks@.map_values(|c: Vec<T>| c@) + chunks_of(rest@, n as nat) =~= chunks_of(
            all,
            n as nat,
        ));
    }
    while rest.len() > n
        invariant
            n > 0,
            n == effective_chunk_size(chunk_size as nat),
            chunks@.map_values(|c: Vec<T>| c@) + chunks_of(rest@, n as nat) == chunks_of(
                all,
                n as nat,
            ),
        decreases rest@.len(),
    {
        let ghost before = rest@;
        let tail = rest.split_off(n);
        proof {
            assert(rest@ =~= before.take(n as int));
            assert(tail@ =~= before.skip(n as int));
        }
        chunks.push(rest);
        rest = tail;
        proof {
            let old_chunks = chunks@.drop_last().map_values(|c: Vec<T>| c@);
            assert(chunks@.map_values(|c: Vec<T>| c@) =~= old_chunks.push(before.take(n as int)));
            assert(old_chunks + chunks_of(before, n as nat) =~= old_chunks.push(
                before.take(n as int),
            ) + chunks_of(before.skip(n as int), n as nat));
        }
    }
    if rest.len() > 0 {
        let ghost last = rest@;
        chunks.push(rest);
        proof {
            assert(chunks@.map_values(|c: Vec<T>| c@) =~= chunks@.drop_last().map_values(
                |c: Vec<T>| c@,
            ) + seq![last]);
        }
    } else {
        proof {
            assert(chunks@.map_values(|c: Vec<T>| c@) + chunks_of(rest@, n as nat)
                =~= chunks@.map_values(|c: Vec<T>| c@));
        }
    }
    chunks
}

} // verus!
