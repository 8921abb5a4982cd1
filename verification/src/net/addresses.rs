//! The order in which a host's addresses are tried: preferred and fallback
//! addresses alternate, so that a host reachable both ways is tried the
//! preferred way first without waiting on every preferred address.
use vstd::prelude::*;
use vstd::seq_lib::lemma_multiset_commutative;

verus! {

/// `first` and `second` taken in turn, one item from each, beginning with
/// `first`; once the list whose turn it is runs out, the rest of the other
/// follows.
pub open spec fn interleaved<T>(first: Seq<T>, second: Seq<T>) -> Seq<T>
    decreases first.len() + second.len(),
{
    if first.len() == 0 {
        second
    } else {
        seq![first[0]] + interleaved(second, first.skip(1))
    }
}

/// Interleaving loses and adds nothing: every address of both lists is
/// tried, each as often as it is listed.
pub proof fn lemma_interleaved_keeps_all<T>(first: Seq<T>, second: Seq<T>)
    ensures
        interleaved(first, second).to_multiset() == first.to_multiset().add(second.to_multiset()),
        interleaved(first, second).len() == first.len() + second.len(),
    decreases first.len() + second.len(),
{
    broadcast use vstd::multiset::group_multiset_axioms;

    if first.len() == 0 {
        lemma_multiset_commutative(first, second);
        assert(first + second =~= second);
    } else {
        let rest = interleaved(second, first.skip(1));
        lemma_interleaved_keeps_all(second, first.skip(1));
        lemma_multiset_commutative(seq![first[0]], rest);
        lemma_multiset_commutative(seq![first[0]], first.skip(1));
        assert(seq![first[0]] + first.skip(1) =~= first);
        assert(interleaved(first, second).to_multiset() =~= first.to_multiset().add(
            second.to_multiset(),
        ));
    }
}

/// The addresses to try, in order: `preferred` (IPv6) and `fallback`
/// (IPv4) addresses in turn, beginning with a preferred one.
pub fn interleave_addresses<T: Copy>(preferred: &Vec<T>, fallback: &Vec<T>) -> (r: Vec<T>)
    ensures
        r@ == interleaved(preferred@, fallback@),
{
    let mut out: Vec<T> = Vec::new();
    let mut i: usize = 0;
    let mut j: usize = 0;
    let mut preferred_turn = true;
    assert(preferred@.skip(0) =~= preferred@);
    assert(fallback@.skip(0) =~= fallback@);
    loop
        invariant
            i <= preferred@.len(),
            j <= fallback@.len(),
            out@ + (if preferred_turn {
                interleaved(preferred@.skip(i as int), fallback@.skip(j as int))
            } else {
                interleaved(fallback@.skip(j as int), preferred@.skip(i as int))
            }) == interleaved(preferred@, fallback@),
        ensures
            i <= preferred@.len(),
            j <= fallback@.len(),
            preferred_turn ==> i == preferred@.len(),
            !preferred_turn ==> j == fallback@.len(),
            out@ + (if preferred_turn {
                interleaved(preferred@.skip(i as int), fallback@.skip(j as int))
            } else {
                interleaved(fallback@.skip(j as int), preferred@.skip(i as int))
            }) == interleaved(preferred@, fallback@),
        decreases preferred@.len() + fallback@.len() - i - j,
    {
        if preferred_turn {
            if i >= preferred.len() {
                break;
            }
            let a = preferred[i];
            let ghost rest = interleaved(fallback@.skip(j as int), preferred@.skip(i + 1));
            assert(preferred@.skip(i as int).skip(1) =~= preferred@.skip(i + 1));
            assert(out@.push(a) + rest =~= out@ + (seq![a] + rest));
            out.push(a);
            i += 1;
        } else {
            if j >= fallback.len() {
                break;
            }
            let b = fallback[j];
            let ghost rest = interleaved(preferred@.skip(i as int), fallback@.skip(j + 1));
            assert(fallback@.skip(j as int).skip(1) =~= fallback@.skip(j + 1));
            assert(out@.push(b) + rest =~= out@ + (seq![b] + rest));
            out.push(b);
            j += 1;
        }
        preferred_turn = !preferred_turn;
    }
    let ghost tail = if preferred_turn {
        fallback@.skip(j as int)
    } else {
        preferred@.skip(i as int)
    };
    let mut k: usize = if preferred_turn {
        j
    } else {
        i
    };
    let src: &Vec<T> = if preferred_turn {
        fallback
    } else {
        preferred
    };
    assert(src@.skip(k as int) == tail);
    while k < src.len()
        invariant
            k <= src@.len(),
            out@ + src@.skip(k as int) == interleaved(preferred@, fallback@),
        decreases src@.len() - k,
    {
        let c = src[k];
        assert(src@.skip(k as int) =~= seq![c] + src@.skip(k + 1));
        assert(out@.push(c) + src@.skip(k + 1) =~= out@ + src@.skip(k as int));
        out.push(c);
        k += 1;
    }
    assert(out@ + src@.skip(k as int) =~= out@);
    out
}

} // verus!
