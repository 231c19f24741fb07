use vstd::prelude::*;
use vstd::multiset::Multiset;
use crate::cards::{Card, FlippableCard};
use crate::cards::card_stack::CardStackView;
use crate::cards::deck::{all_turned, inner_cards};
use crate::cards::tableau::all_cards;

verus! {

broadcast use {
    vstd::seq_lib::group_to_multiset_ensures,
    vstd::seq_lib::lemma_multiset_commutative,
    vstd::multiset::group_multiset_axioms,
    crate::cards::flippable_card::group_flippable_card,
};

/// The cards held in a pile of flippable cards, counted with multiplicity, whichever way they face
pub open spec fn pile<C: Card>(s: Seq<FlippableCard<C>>) -> Multiset<C> {
    inner_cards(s).to_multiset()
}

/// The cards held in a sequence of stacks, counted with multiplicity
pub open spec fn stacks_pile<C: Card>(stacks: Seq<CardStackView<FlippableCard<C>>>) -> Multiset<C>
    decreases stacks.len(),
{
    if stacks.len() == 0 {
        Multiset::empty()
    } else {
        stacks_pile(stacks.drop_last()).add(pile(stacks.last().cards))
    }
}

/// Joining piles adds their counts
pub proof fn lemma_pile_add<C: Card>(a: Seq<FlippableCard<C>>, b: Seq<FlippableCard<C>>)
    ensures
        pile(a + b) == pile(a).add(pile(b)),
{
    assert(inner_cards(a + b) =~= inner_cards(a) + inner_cards(b));
}

/// A pile holds as many cards as it has positions
pub proof fn lemma_pile_len<C: Card>(a: Seq<FlippableCard<C>>)
    ensures
        pile(a).len() == a.len(),
{
}

/// The empty pile holds no card
pub proof fn lemma_pile_empty<C: Card>()
    ensures
        pile(Seq::<FlippableCard<C>>::empty()) == Multiset::<C>::empty(),
{
    assert(inner_cards(Seq::<FlippableCard<C>>::empty()) =~= Seq::<C>::empty());
}

/// Pushing a card onto a pile adds it
pub proof fn lemma_pile_push<C: Card>(a: Seq<FlippableCard<C>>, c: FlippableCard<C>)
    ensures
        pile(a.push(c)) == pile(a).insert(c.inner()),
{
    assert(inner_cards(a.push(c)) =~= inner_cards(a).push(c.inner()));
}

/// Splitting a pile at any point keeps its cards
pub proof fn lemma_pile_split<C: Card>(a: Seq<FlippableCard<C>>, i: int)
    requires
        0 <= i <= a.len(),
    ensures
        pile(a) == pile(a.subrange(0, i)).add(pile(a.subrange(i, a.len() as int))),
{
    assert(a =~= a.subrange(0, i) + a.subrange(i, a.len() as int));
    lemma_pile_add(a.subrange(0, i), a.subrange(i, a.len() as int));
}

/// Dropping the top card of a pile removes it
pub proof fn lemma_pile_drop_last<C: Card>(a: Seq<FlippableCard<C>>)
    requires
        a.len() > 0,
    ensures
        pile(a) == pile(a.drop_last()).insert(a.last().inner()),
{
    assert(a =~= a.drop_last().push(a.last()));
    lemma_pile_push(a.drop_last(), a.last());
}

/// Turning a card over keeps the pile's cards
pub proof fn lemma_pile_turn<C: Card>(a: Seq<FlippableCard<C>>, i: int, up: bool)
    requires
        0 <= i < a.len(),
    ensures
        pile(a.update(i, a[i].with_face(up))) == pile(a),
        inner_cards(a.update(i, a[i].with_face(up))) == inner_cards(a),
{
    assert(inner_cards(a.update(i, a[i].with_face(up))) =~= inner_cards(a));
}

/// Turning every card over keeps the pile's cards
pub proof fn lemma_pile_all_turned<C: Card>(a: Seq<FlippableCard<C>>, up: bool)
    ensures
        pile(all_turned(a, up)) == pile(a),
        inner_cards(all_turned(a, up)) == inner_cards(a),
{
    assert(inner_cards(all_turned(a, up)) =~= inner_cards(a));
}

/// Reversing a pile keeps its cards
pub proof fn lemma_pile_reverse<C: Card>(a: Seq<FlippableCard<C>>)
    ensures
        pile(a.reverse()) == pile(a),
{
    assert(inner_cards(a.reverse()) =~= inner_cards(a).reverse());
    inner_cards(a).lemma_reverse_to_multiset();
}

/// Mapping two sequences that hold the same elements (with multiplicity) gives two sequences
/// that hold the same elements
pub proof fn lemma_map_to_multiset<A, B>(s1: Seq<A>, s2: Seq<A>, f: spec_fn(A) -> B)
    requires
        s1.to_multiset() == s2.to_multiset(),
    ensures
        s1.map_values(f).to_multiset() == s2.map_values(f).to_multiset(),
    decreases s1.len(),
{
    if s1.len() == 0 {
        assert(s1.to_multiset().len() == 0);
        assert(s2.to_multiset().len() == s2.len());
        assert(s2.len() == 0);
        assert(s1.map_values(f) =~= Seq::<B>::empty());
        assert(s2.map_values(f) =~= Seq::<B>::empty());
    } else {
        let x = s1.last();
        assert(s1 =~= s1.drop_last().push(x));
        assert(s1.to_multiset().count(x) > 0);
        assert(s2.contains(x));
        let j = choose|j: int| 0 <= j < s2.len() && s2[j] == x;
        let s2r = s2.remove(j);
        assert(s2r.to_multiset() == s2.to_multiset().remove(x));
        assert(s1.drop_last().to_multiset() =~= s2r.to_multiset());
        lemma_map_to_multiset(s1.drop_last(), s2r, f);
        assert(s1.map_values(f) =~= s1.drop_last().map_values(f).push(f(x)));
        assert(s2r.map_values(f) =~= s2.map_values(f).remove(j));
        assert(s2.map_values(f)[j] == f(x));
        assert(s2.map_values(f).to_multiset().count(f(x)) > 0);
        assert(s2.map_values(f).to_multiset() =~= s2r.map_values(f).to_multiset().insert(f(x)));
    }
}

/// Two piles with the same flippable cards hold the same cards
pub proof fn lemma_pile_permuted<C: Card>(a: Seq<FlippableCard<C>>, b: Seq<FlippableCard<C>>)
    requires
        a.to_multiset() == b.to_multiset(),
    ensures
        pile(a) == pile(b),
{
    lemma_map_to_multiset(a, b, |c: FlippableCard<C>| c.inner());
}

/// Replacing one stack changes the held cards by the difference of the two stacks
pub proof fn lemma_stacks_pile_update<C: Card>(
    stacks: Seq<CardStackView<FlippableCard<C>>>,
    i: int,
    x: CardStackView<FlippableCard<C>>,
)
    requires
        0 <= i < stacks.len(),
    ensures
        stacks_pile(stacks.update(i, x)).add(pile(stacks[i].cards)) == stacks_pile(stacks).add(pile(x.cards)),
    decreases stacks.len(),
{
    let u = stacks.update(i, x);
    assert(stacks_pile(u) == stacks_pile(u.drop_last()).add(pile(u.last().cards)));
    assert(stacks_pile(stacks) == stacks_pile(stacks.drop_last()).add(pile(stacks.last().cards)));
    if i == stacks.len() - 1 {
        assert(u.drop_last() =~= stacks.drop_last());
        assert(stacks_pile(u).add(pile(stacks[i].cards)) =~= stacks_pile(stacks).add(pile(x.cards)));
    } else {
        assert(u.drop_last() =~= stacks.drop_last().update(i, x));
        lemma_stacks_pile_update(stacks.drop_last(), i, x);
        assert(u.last() == stacks.last());
        assert(stacks.drop_last()[i] == stacks[i]);
        let a = stacks_pile(u.drop_last());
        let b = stacks_pile(stacks.drop_last());
        assert forall|v: C| #[trigger] stacks_pile(u).add(pile(stacks[i].cards)).count(v) == stacks_pile(stacks).add(
            pile(x.cards),
        ).count(v) by {
            assert(a.add(pile(stacks[i].cards)).count(v) == b.add(pile(x.cards)).count(v));
        }
        assert(stacks_pile(u).add(pile(stacks[i].cards)) =~= stacks_pile(stacks).add(pile(x.cards)));
    }
}

/// Every stack's cards are part of the cards of all stacks
pub proof fn lemma_stacks_pile_bound<C: Card>(stacks: Seq<CardStackView<FlippableCard<C>>>, i: int)
    requires
        0 <= i < stacks.len(),
    ensures
        stacks[i].cards.len() <= stacks_pile(stacks).len(),
    decreases stacks.len(),
{
    if i < stacks.len() - 1 {
        lemma_stacks_pile_bound(stacks.drop_last(), i);
    }
}

/// All the cards of the stacks, joined, are the cards held by the stacks
pub proof fn lemma_all_cards_pile<C: Card>(stacks: Seq<CardStackView<FlippableCard<C>>>)
    ensures
        pile(all_cards(stacks)) == stacks_pile(stacks),
    decreases stacks.len(),
{
    if stacks.len() == 0 {
        lemma_pile_empty::<C>();
    } else {
        lemma_all_cards_pile(stacks.drop_last());
        lemma_pile_add(all_cards(stacks.drop_last()), stacks.last().cards);
    }
}

/// Stacks that hold no cards hold an empty pile
pub proof fn lemma_stacks_pile_cleared<C: Card>(stacks: Seq<CardStackView<FlippableCard<C>>>)
    requires
        forall|k: int| 0 <= k < stacks.len() ==> (#[trigger] stacks[k]).cards.len() == 0,
    ensures
        stacks_pile(stacks) == Multiset::<C>::empty(),
    decreases stacks.len(),
{
    if stacks.len() > 0 {
        lemma_stacks_pile_cleared(stacks.drop_last());
        assert(stacks.last().cards =~= Seq::<FlippableCard<C>>::empty());
        lemma_pile_empty::<C>();
        assert(stacks_pile(stacks) =~= Multiset::<C>::empty());
    }
}

/// Stacks that hold the same cards in the same order hold the same pile, whatever else differs
pub proof fn lemma_stacks_pile_same_cards<C: Card>(
    a: Seq<CardStackView<FlippableCard<C>>>,
    b: Seq<CardStackView<FlippableCard<C>>>,
)
    requires
        a.len() == b.len(),
        forall|k: int| 0 <= k < a.len() ==> #[trigger] pile(a[k].cards) == pile(b[k].cards),
    ensures
        stacks_pile(a) == stacks_pile(b),
    decreases a.len(),
{
    if a.len() > 0 {
        lemma_stacks_pile_same_cards(a.drop_last(), b.drop_last());
        assert(pile(a.last().cards) == pile(b[b.len() - 1].cards));
    }
}

/// A card at a position of a pile is held by the pile
pub proof fn lemma_pile_contains<C: Card>(a: Seq<FlippableCard<C>>, i: int)
    requires
        0 <= i < a.len(),
    ensures
        pile(a).count(a[i].inner()) > 0,
{
    assert(inner_cards(a)[i] == a[i].inner());
    assert(inner_cards(a).contains(a[i].inner()));
}

/// The cards of one stack are among the cards of all stacks
pub proof fn lemma_stacks_pile_sub<C: Card>(stacks: Seq<CardStackView<FlippableCard<C>>>, i: int, x: C)
    requires
        0 <= i < stacks.len(),
    ensures
        pile(stacks[i].cards).count(x) <= stacks_pile(stacks).count(x),
{
    let e = stacks[i].with_cards(Seq::empty());
    lemma_stacks_pile_update(stacks, i, e);
    lemma_pile_empty::<C>();
    assert(stacks_pile(stacks.update(i, e)).add(pile(stacks[i].cards)).count(x) == stacks_pile(stacks).add(pile(e.cards)).count(x));
}

/// Replacing one stack changes the count of every card by the difference of the two stacks
pub proof fn lemma_stacks_pile_replace<C: Card>(
    stacks: Seq<CardStackView<FlippableCard<C>>>,
    i: int,
    x: CardStackView<FlippableCard<C>>,
)
    requires
        0 <= i < stacks.len(),
    ensures
        forall|v: C|
            #[trigger] stacks_pile(stacks.update(i, x)).count(v) == stacks_pile(stacks).count(v) - pile(
                stacks[i].cards,
            ).count(v) + pile(x.cards).count(v),
{
    lemma_stacks_pile_update(stacks, i, x);
    assert forall|v: C|
        #[trigger] stacks_pile(stacks.update(i, x)).count(v) == stacks_pile(stacks).count(v) - pile(
            stacks[i].cards,
        ).count(v) + pile(x.cards).count(v) by {
        assert(stacks_pile(stacks.update(i, x)).add(pile(stacks[i].cards)).count(v) == stacks_pile(stacks).add(
            pile(x.cards),
        ).count(v));
    }
}

} // verus!
