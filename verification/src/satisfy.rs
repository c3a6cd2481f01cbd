//! Choosing the signatures of a threshold-with-fallback witness.

use vstd::prelude::*;
use crate::pkh::BitcoinSig;

verus! {

/// The byte strings of a stack, in order.
pub open spec fn stack_view(stack: Seq<Vec<u8>>) -> Seq<Seq<u8>> {
    stack.map_values(|v: Vec<u8>| v@)
}

/// The encoded signatures among a signer's answers, in the order of the keys
/// that were asked for.
pub open spec fn collected(answers: Seq<Option<BitcoinSig>>) -> Seq<Seq<u8>>
    decreases answers.len(),
{
    if answers.len() == 0 {
        Seq::empty()
    } else {
        match answers.last() {
            Some(sig) => collected(answers.drop_last()).push(sig.encoded()),
            None => collected(answers.drop_last()),
        }
    }
}

/// `x` put into a sequence behind every element that is no longer than it.
pub open spec fn insert_by_len(sorted: Seq<Seq<u8>>, x: Seq<u8>) -> Seq<Seq<u8>>
    decreases sorted.len(),
{
    if sorted.len() == 0 {
        seq![x]
    } else if sorted.last().len() <= x.len() {
        sorted.push(x)
    } else {
        insert_by_len(sorted.drop_last(), x).push(sorted.last())
    }
}

/// The elements by ascending length, elements of one length in the order in
/// which they came.
pub open spec fn sort_by_len(s: Seq<Seq<u8>>) -> Seq<Seq<u8>>
    decreases s.len(),
{
    if s.len() == 0 {
        Seq::empty()
    } else {
        insert_by_len(sort_by_len(s.drop_last()), s.last())
    }
}

/// Whether no element is longer than one behind it.
pub open spec fn ascending_by_len(s: Seq<Seq<u8>>) -> bool {
    forall|i: int, j: int| 0 <= i <= j < s.len() ==> s[i].len() <= s[j].len()
}

/// The witness of one spending path: where at least `k` signatures are at
/// hand, the `k` shortest and behind them the empty element that the
/// multi-signature opcode consumes; otherwise none.
pub open spec fn path_witness(answers: Seq<Option<BitcoinSig>>, k: nat) -> Option<Seq<Seq<u8>>> {
    let sigs = sort_by_len(collected(answers));
    if sigs.len() >= k {
        Some(sigs.subrange(0, k as int).push(Seq::empty()))
    } else {
        None
    }
}

/// The witness of a federation with a fallback: the federation's path
/// wherever it can be satisfied, the emergency path only where it cannot.
pub open spec fn preferred_witness(
    fed_answers: Seq<Option<BitcoinSig>>,
    fed_k: nat,
    emer_answers: Seq<Option<BitcoinSig>>,
    emer_k: nat,
) -> Option<Seq<Seq<u8>>> {
    match path_witness(fed_answers, fed_k) {
        Some(w) => Some(w),
        None => path_witness(emer_answers, emer_k),
    }
}

/// Where `p` is the place behind the last element no longer than `x`,
/// inserting by length is inserting at `p`.
proof fn lemma_insert_position(sorted: Seq<Seq<u8>>, x: Seq<u8>, p: int)
    requires
        0 <= p <= sorted.len(),
        forall|j: int| p <= j < sorted.len() ==> sorted[j].len() > x.len(),
        p > 0 ==> sorted[p - 1].len() <= x.len(),
    ensures
        insert_by_len(sorted, x) == sorted.insert(p, x),
    decreases sorted.len(),
{
    if sorted.len() == 0 {
        assert(sorted.insert(p, x) =~= seq![x]);
    } else if p == sorted.len() {
        assert(sorted.insert(p, x) =~= sorted.push(x));
    } else {
        lemma_insert_position(sorted.drop_last(), x, p);
        assert(sorted.insert(p, x) =~= sorted.drop_last().insert(p, x).push(sorted.last()));
    }
}

/// Inserting by length adds one element and keeps an ascending sequence
/// ascending.
pub proof fn lemma_insert_by_len(sorted: Seq<Seq<u8>>, x: Seq<u8>)
    requires
        ascending_by_len(sorted),
    ensures
        ascending_by_len(insert_by_len(sorted, x)),
        insert_by_len(sorted, x).len() == sorted.len() + 1,
        insert_by_len(sorted, x).to_multiset() == sorted.to_multiset().insert(x),
    decreases sorted.len(),
{
    broadcast use vstd::seq_lib::group_to_multiset_ensures;

    if sorted.len() == 0 {
        assert(sorted =~= Seq::empty());
        assert(seq![x] =~= Seq::<Seq<u8>>::empty().push(x));
    } else if sorted.last().len() <= x.len() {
    } else {
        let front = sorted.drop_last();
        lemma_insert_by_len(front, x);
        let ins = insert_by_len(front, x);
        assert(sorted =~= front.push(sorted.last()));
        assert forall|i: int| 0 <= i < ins.len() implies ins[i].len() <= sorted.last().len() by {
            assert(ins.to_multiset().count(ins[i]) > 0);
            if ins[i] != x {
                assert(front.to_multiset().count(ins[i]) > 0);
                assert(front.contains(ins[i]));
                let j = choose|j: int| 0 <= j < front.len() && front[j] == ins[i];
                assert(sorted[j] == ins[i]);
            }
        }
        assert(ins.push(sorted.last()).to_multiset() =~= sorted.to_multiset().insert(x));
    }
}

/// Sorting by length keeps every element, and leaves them ascending.
pub proof fn lemma_sort_by_len(s: Seq<Seq<u8>>)
    ensures
        ascending_by_len(sort_by_len(s)),
        sort_by_len(s).len() == s.len(),
        sort_by_len(s).to_multiset() == s.to_multiset(),
    decreases s.len(),
{
    broadcast use vstd::seq_lib::group_to_multiset_ensures;

    if s.len() == 0 {
        assert(s =~= Seq::empty());
    } else {
        lemma_sort_by_len(s.drop_last());
        lemma_insert_by_len(sort_by_len(s.drop_last()), s.last());
        assert(s =~= s.drop_last().push(s.last()));
    }
}

/// The number of signatures among a signer's answers.
pub open spec fn signature_count(answers: Seq<Option<BitcoinSig>>) -> nat {
    collected(answers).len()
}

/// Where every key has a signature, there are as many signatures as keys.
pub proof fn lemma_all_answered(answers: Seq<Option<BitcoinSig>>)
    requires
        forall|i: int| 0 <= i < answers.len() ==> (#[trigger] answers[i]) is Some,
    ensures
        signature_count(answers) == answers.len(),
    decreases answers.len(),
{
    if answers.len() > 0 {
        assert forall|i: int| 0 <= i < answers.drop_last().len() implies (
        #[trigger] answers.drop_last()[i]) is Some by {
            assert(answers.drop_last()[i] == answers[i]);
        }
        lemma_all_answered(answers.drop_last());
    }
}

/// A path whose threshold is reached has a witness of exactly as many
/// signatures as the threshold, the shortest there are, ascending by length,
/// and behind them the empty element. A path whose threshold is not reached
/// has none.
pub proof fn lemma_path_witness(answers: Seq<Option<BitcoinSig>>, k: nat)
    ensures
        signature_count(answers) >= k <==> path_witness(answers, k) is Some,
        path_witness(answers, k) matches Some(w) ==> {
            &&& w.len() == k + 1
            &&& w[k as int] == Seq::<u8>::empty()
            &&& w.subrange(0, k as int) == sort_by_len(collected(answers)).subrange(0, k as int)
            &&& ascending_by_len(w.subrange(0, k as int))
        },
{
    let sorted = sort_by_len(collected(answers));
    lemma_sort_by_len(collected(answers));
    if sorted.len() >= k {
        let w = sorted.subrange(0, k as int).push(Seq::empty());
        assert(w.subrange(0, k as int) =~= sorted.subrange(0, k as int));
    }
}

/// Where the federation reaches its threshold, the witness is the
/// federation's, whatever the emergency keys have signed.
pub proof fn lemma_federation_preferred(
    fed_answers: Seq<Option<BitcoinSig>>,
    fed_k: nat,
    emer_answers: Seq<Option<BitcoinSig>>,
    emer_k: nat,
)
    requires
        signature_count(fed_answers) >= fed_k,
    ensures
        preferred_witness(fed_answers, fed_k, emer_answers, emer_k) is Some,
        preferred_witness(fed_answers, fed_k, emer_answers, emer_k) == path_witness(
            fed_answers,
            fed_k,
        ),
{
    lemma_path_witness(fed_answers, fed_k);
}

/// Where the federation does not reach its threshold and the emergency keys
/// reach theirs, the witness is that of the emergency path.
pub proof fn lemma_emergency_fallback(
    fed_answers: Seq<Option<BitcoinSig>>,
    fed_k: nat,
    emer_answers: Seq<Option<BitcoinSig>>,
    emer_k: nat,
)
    requires
        signature_count(fed_answers) < fed_k,
        signature_count(emer_answers) >= emer_k,
    ensures
        preferred_witness(fed_answers, fed_k, emer_answers, emer_k) is Some,
        preferred_witness(fed_answers, fed_k, emer_answers, emer_k) == path_witness(
            emer_answers,
            emer_k,
        ),
{
    lemma_path_witness(fed_answers, fed_k);
    lemma_path_witness(emer_answers, emer_k);
}

/// Where neither path reaches its threshold there is no witness.
pub proof fn lemma_no_partial_witness(
    fed_answers: Seq<Option<BitcoinSig>>,
    fed_k: nat,
    emer_answers: Seq<Option<BitcoinSig>>,
    emer_k: nat,
)
    requires
        signature_count(fed_answers) < fed_k,
        signature_count(emer_answers) < emer_k,
    ensures
        preferred_witness(fed_answers, fed_k, emer_answers, emer_k) is None,
{
    lemma_path_witness(fed_answers, fed_k);
    lemma_path_witness(emer_answers, emer_k);
}

/// Encodes the signatures among a signer's answers, in order.
pub fn collect_signatures(answers: &Vec<Option<BitcoinSig>>) -> (r: Vec<Vec<u8>>)
    ensures
        stack_view(r@) == collected(answers@),
{
    let mut out: Vec<Vec<u8>> = Vec::new();
    let mut i: usize = 0;
    while i < answers.len()
        invariant
            i <= answers.len(),
            stack_view(out@) == collected(answers@.subrange(0, i as int)),
        decreases answers.len() - i,
    {
        let ghost prev = stack_view(out@);
        proof {
            assert(answers@.subrange(0, i + 1).drop_last() =~= answers@.subrange(0, i as int));
            assert(answers@.subrange(0, i + 1).last() == answers@[i as int]);
        }
        match &answers[i] {
            Some(sig) => {
                let encoded = sig.encode();
                out.push(encoded);
                proof {
                    assert(stack_view(out@) =~= prev.push(sig.encoded()));
                }
            },
            None => {},
        }
        i += 1;
    }
    proof {
        assert(answers@.subrange(0, i as int) =~= answers@);
    }
    out
}

/// Sorts byte strings by ascending length; strings of one length keep their
/// order.
pub fn sort_by_length(items: &Vec<Vec<u8>>) -> (r: Vec<Vec<u8>>)
    ensures
        stack_view(r@) == sort_by_len(stack_view(items@)),
        r@.len() == items@.len(),
        ascending_by_len(stack_view(r@)),
{
    let mut out: Vec<Vec<u8>> = Vec::new();
    let mut i: usize = 0;
    while i < items.len()
        invariant
            i <= items.len(),
            out@.len() == i,
            stack_view(out@) == sort_by_len(stack_view(items@.subrange(0, i as int))),
        decreases items.len() - i,
    {
        let x: Vec<u8> = items[i].clone();
        let mut p: usize = out.len();
        while p > 0 && out[p - 1].len() > x.len()
            invariant
                p <= out@.len(),
                forall|j: int| p <= j < out@.len() ==> out@[j]@.len() > x@.len(),
            decreases p,
        {
            p -= 1;
        }
        let ghost before = stack_view(out@);
        proof {
            lemma_insert_position(before, x@, p as int);
            let next = stack_view(items@.subrange(0, i + 1));
            assert(next.drop_last() =~= stack_view(items@.subrange(0, i as int)));
            assert(next.last() == x@);
        }
        out.insert(p, x);
        proof {
            assert(stack_view(out@) =~= before.insert(p as int, x@));
        }
        i += 1;
    }
    proof {
        assert(items@.subrange(0, i as int) =~= items@);
        lemma_sort_by_len(stack_view(items@));
    }
    out
}

/// The witness of one spending path, from the signer's answers for its keys
/// and its threshold.
pub fn path_witness_of(answers: &Vec<Option<BitcoinSig>>, k: usize) -> (r: Option<Vec<Vec<u8>>>)
    ensures
        match r {
            Some(w) => path_witness(answers@, k as nat) == Some(stack_view(w@)) && w@.len() == k
                + 1,
            None => path_witness(answers@, k as nat) is None,
        },
{
    let sigs = collect_signatures(answers);
    let mut sorted = sort_by_length(&sigs);
    if sorted.len() >= k {
        let ghost all = stack_view(sorted@);
        sorted.truncate(k);
        sorted.push(Vec::new());
        proof {
            assert(stack_view(sorted@) =~= all.subrange(0, k as int).push(Seq::empty()));
        }
        Some(sorted)
    } else {
        None
    }
}

/// The witness of a federation with a fallback. The emergency answers count
/// only where the federation's do not reach its threshold; where neither
/// path reaches its threshold there is no witness, not even a partial one.
pub fn preferred_witness_of(
    fed_answers: &Vec<Option<BitcoinSig>>,
    fed_k: usize,
    emer_answers: &Vec<Option<BitcoinSig>>,
    emer_k: usize,
) -> (r: Option<Vec<Vec<u8>>>)
    ensures
        match r {
            Some(w) => preferred_witness(fed_answers@, fed_k as nat, emer_answers@, emer_k as nat)
                == Some(stack_view(w@)),
            None => preferred_witness(fed_answers@, fed_k as nat, emer_answers@, emer_k as nat)
                is None,
        },
{
    match path_witness_of(fed_answers, fed_k) {
        Some(w) => Some(w),
        None => path_witness_of(emer_answers, emer_k),
    }
}

} // verus!
