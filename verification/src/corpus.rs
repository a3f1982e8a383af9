//! Building a dataset of a wanted size out of a corpus of sample records.

use crate::model::Element;
use crate::model::ElementView;
use vstd::arithmetic::div_mod::lemma_fundamental_div_mod;
use vstd::arithmetic::div_mod::lemma_fundamental_div_mod_converse;
use vstd::arithmetic::div_mod::lemma_small_mod;
use vstd::prelude::*;

verus! {

/// The first `count` items of `corpus` repeated without end: item `i` is
/// item `i` modulo the length of `corpus`. An empty corpus gives nothing.
pub open spec fn cycled(corpus: Seq<ElementView>, count: nat) -> Seq<ElementView> {
    if corpus.len() == 0 {
        Seq::empty()
    } else {
        Seq::new(count, |i: int| corpus[i % corpus.len() as int])
    }
}

/// `corpus` written out `rounds` times in a row.
pub open spec fn repeated(corpus: Seq<ElementView>, rounds: nat) -> Seq<ElementView>
    decreases rounds,
{
    if rounds == 0 {
        Seq::empty()
    } else {
        repeated(corpus, (rounds - 1) as nat) + corpus
    }
}

/// Produces exactly `count` records by going through `corpus` again and again
/// from its start, or no record at all where `corpus` is empty.
pub fn load(corpus: &Vec<Element>, count: usize) -> (data: Vec<Element>)
    ensures
        data.deep_view() == cycled(corpus.deep_view(), count as nat),
{
    let mut data: Vec<Element> = Vec::new();
    if corpus.len() == 0 {
        assert(data.deep_view() =~= cycled(corpus.deep_view(), count as nat));
        return data;
    }
    let mut next: usize = 0;
    let mut i: usize = 0;
    while i < count
        invariant
            corpus.len() > 0,
            i <= count,
            next == i % corpus.len(),
            data.len() == i,
            forall|j: int| 0 <= j < i ==> (#[trigger] data[j])@ == corpus[j % corpus.len() as int]@,
        decreases count - i,
    {
        let ghost len = corpus.len() as int;
        let ghost at = next as int;
        data.push(corpus[next].clone());
        next = next + 1;
        if next == corpus.len() {
            next = 0;
        }
        proof {
            lemma_fundamental_div_mod(i as int, len);
            assert(len * (i as int / len + 1) == len * (i as int / len) + len)
                by (nonlinear_arith);
            if at + 1 == len {
                lemma_fundamental_div_mod_converse(i + 1, len, i as int / len + 1, 0);
            } else {
                lemma_fundamental_div_mod_converse(i + 1, len, i as int / len, at + 1);
            }
        }
        i = i + 1;
    }
    assert(data.deep_view() =~= cycled(corpus.deep_view(), count as nat));
    data
}

/// A count of whole rounds gives the corpus written out that many times, in
/// its order.
pub proof fn lemma_cycle_whole_rounds(corpus: Seq<ElementView>, rounds: nat)
    ensures
        cycled(corpus, rounds * corpus.len()) == repeated(corpus, rounds),
    decreases rounds,
{
    if corpus.len() == 0 {
        lemma_repeated_len(corpus, rounds);
        assert(rounds * corpus.len() == 0) by (nonlinear_arith)
            requires
                corpus.len() == 0,
        ;
        assert(repeated(corpus, rounds) =~= Seq::<ElementView>::empty());
    } else if rounds == 0 {
        assert(rounds * corpus.len() == 0) by (nonlinear_arith)
            requires
                rounds == 0,
        ;
        assert(cycled(corpus, 0) =~= repeated(corpus, 0));
    } else {
        let len = corpus.len() as int;
        let shorter = (rounds - 1) as nat;
        lemma_cycle_whole_rounds(corpus, shorter);
        lemma_repeated_len(corpus, shorter);
        assert(rounds * len == shorter * len + len) by (nonlinear_arith)
            requires
                shorter == rounds - 1,
        ;
        let whole = cycled(corpus, rounds * corpus.len());
        let joined = repeated(corpus, shorter) + corpus;
        assert(whole.len() == joined.len());
        assert forall|i: int| 0 <= i < whole.len() implies whole[i] == joined[i] by {
            if i < shorter * len {
                assert(cycled(corpus, shorter * corpus.len())[i] == corpus[i % len]);
            } else {
                assert((i - shorter * len) == i % len) by (nonlinear_arith)
                    requires
                        len > 0,
                        shorter * len <= i < shorter * len + len,
                ;
            }
        }
        assert(whole =~= joined);
    }
}

/// `repeated` is as long as the corpus times the rounds.
pub proof fn lemma_repeated_len(corpus: Seq<ElementView>, rounds: nat)
    ensures
        repeated(corpus, rounds).len() == rounds * corpus.len(),
    decreases rounds,
{
    let len = corpus.len() as int;
    if rounds > 0 {
        lemma_repeated_len(corpus, (rounds - 1) as nat);
        assert(rounds * len == (rounds - 1) * len + len) by (nonlinear_arith);
    } else {
        assert(rounds * len == 0) by (nonlinear_arith)
            requires
                rounds == 0,
        ;
    }
}

/// A count below the length of the corpus gives its first `count` records
/// unchanged.
pub proof fn lemma_cycle_prefix(corpus: Seq<ElementView>, count: nat)
    requires
        count < corpus.len(),
    ensures
        cycled(corpus, count) == corpus.take(count as int),
{
    let len = corpus.len() as int;
    let cut = cycled(corpus, count);
    assert forall|i: int| 0 <= i < count implies #[trigger] cut[i] == corpus[i] by {
        lemma_small_mod(i as nat, len as nat);
    }
    assert(cycled(corpus, count) =~= corpus.take(count as int));
}

} // verus!
