//! A hand: a set of cards, held as one bit per card.
use vstd::prelude::*;
use vstd::string::StringExecFns;
use crate::cards::{Card, NB_CARDS};

verus! {

/// Whether bit `i` of `bits` is set.
pub open spec fn bit(bits: u128, i: int) -> bool {
    0 <= i < 128 && (bits >> (i as u128)) & 1u128 == 1u128
}

proof fn lemma_bit_set(bits: u128, i: u128, j: u128)
    requires
        i < 128,
        j < 128,
    ensures
        bit(bits | (1u128 << i), j as int) == (i == j || bit(bits, j as int)),
{
    assert(((bits | (1u128 << i)) >> j) & 1u128 == (if i == j {
        1u128
    } else {
        (bits >> j) & 1u128
    })) by (bit_vector)
        requires
            i < 128,
            j < 128,
    ;
}

proof fn lemma_bit_clear(bits: u128, i: u128, j: u128)
    requires
        i < 128,
        j < 128,
    ensures
        bit(bits & !(1u128 << i), j as int) == (i != j && bit(bits, j as int)),
{
    assert(((bits & !(1u128 << i)) >> j) & 1u128 == (if i == j {
        0u128
    } else {
        (bits >> j) & 1u128
    })) by (bit_vector)
        requires
            i < 128,
            j < 128,
    ;
}

proof fn lemma_bit_none(j: u128)
    requires
        j < 128,
    ensures
        !bit(0u128, j as int),
{
    assert((0u128 >> j) & 1u128 == 0u128) by (bit_vector);
}

/// The cards of `bits` with a number under `n`.
pub open spec fn cards_below(bits: u128, n: int) -> Set<Card> {
    Set::new(|c: Card| c.spec_id() < n && bit(bits, c.spec_id()))
}

/// The cards of `bits` with a number under `n`, in the order of their numbers.
pub open spec fn list_below(bits: u128, n: int) -> Seq<Card>
    decreases n,
{
    if n <= 0 {
        Seq::empty()
    } else if bit(bits, n - 1) {
        list_below(bits, n - 1).push(Card::of_id(n - 1))
    } else {
        list_below(bits, n - 1)
    }
}

proof fn lemma_list_below(bits: u128, n: int)
    requires
        0 <= n <= NB_CARDS,
    ensures
        cards_below(bits, n).finite(),
        cards_below(bits, n).len() == list_below(bits, n).len(),
        list_below(bits, n).len() <= n,
        forall|c: Card| list_below(bits, n).contains(c) <==> cards_below(bits, n).contains(c),
        forall|i: int, j: int|
            0 <= i < j < list_below(bits, n).len() ==> list_below(bits, n)[i].spec_id()
                < list_below(bits, n)[j].spec_id(),
        forall|i: int|
            0 <= i < list_below(bits, n).len() ==> (#[trigger] list_below(bits, n)[i]).spec_id()
                < n,
    decreases n,
{
    if n <= 0 {
        assert(cards_below(bits, n) =~= Set::<Card>::empty());
    } else {
        lemma_list_below(bits, n - 1);
        let prev = list_below(bits, n - 1);
        let top = Card::of_id(n - 1);
        assert(top.spec_id() == n - 1);
        assert forall|c: Card| c.spec_id() == n - 1 implies c == top by {
            c.lemma_of_id_spec_id();
        }
        if bit(bits, n - 1) {
            assert(cards_below(bits, n) =~= cards_below(bits, n - 1).insert(top));
            let cur = prev.push(top);
            assert forall|c: Card| cur.contains(c) <==> cards_below(bits, n).contains(c) by {
                if cur.contains(c) {
                    let k = choose|k: int| 0 <= k < cur.len() && cur[k] == c;
                    if k < prev.len() {
                        assert(prev.contains(c));
                    }
                }
                if cards_below(bits, n).contains(c) {
                    if c == top {
                        assert(cur[prev.len() as int] == c);
                    } else {
                        assert(prev.contains(c));
                        let k = choose|k: int| 0 <= k < prev.len() && prev[k] == c;
                        assert(cur[k] == c);
                    }
                }
            }
        } else {
            assert(cards_below(bits, n) =~= cards_below(bits, n - 1));
        }
    }
}

/// A set of cards.
#[derive(Clone, Copy, Debug, PartialEq, Eq, Structural, Hash)]
pub struct Hand(u128);

impl View for Hand {
    type V = Set<Card>;

    closed spec fn view(&self) -> Set<Card> {
        cards_below(self.0, NB_CARDS as int)
    }
}

impl Hand {
    /// The cards of the hand in the order of their numbers.
    pub closed spec fn sorted(self) -> Seq<Card> {
        list_below(self.0, NB_CARDS as int)
    }

    /// How often the hand holds `card`: once or never.
    pub open spec fn count(self, card: Card) -> nat {
        if self@.contains(card) {
            1
        } else {
            0
        }
    }

    /// A hand is finite, and its sorted list holds exactly its cards, each once.
    pub proof fn lemma_sorted(self)
        ensures
            self@.finite(),
            self@.len() == self.sorted().len(),
            self@.len() <= NB_CARDS,
            forall|c: Card| self.sorted().contains(c) <==> self@.contains(c),
            forall|i: int, j: int|
                0 <= i < j < self.sorted().len() ==> self.sorted()[i].spec_id()
                    < self.sorted()[j].spec_id(),
            self.sorted().no_duplicates(),
    {
        lemma_list_below(self.0, NB_CARDS as int);
    }

    /// The empty hand.
    pub fn new() -> (h: Hand)
        ensures
            h@ == Set::<Card>::empty(),
    {
        let h = Hand(0);
        proof {
            assert forall|c: Card| !h@.contains(c) by {
                c.lemma_of_id_spec_id();
                lemma_bit_none(c.spec_id() as u128);
            }
            assert(h@ =~= Set::<Card>::empty());
        }
        h
    }

    /// Adds `card` to the hand; a card already held stays held once.
    pub fn add(&mut self, card: Card)
        ensures
            final(self)@ == old(self)@.insert(card),
    {
        let id: u128 = card.id() as u128;
        let bits: u128 = self.0 | (1u128 << id);
        proof {
            assert forall|c: Card|
                cards_below(bits, NB_CARDS as int).contains(c) == old(self)@.insert(card).contains(
                    c,
                ) by {
                c.lemma_of_id_spec_id();
                card.lemma_of_id_spec_id();
                lemma_bit_set(self.0, id, c.spec_id() as u128);
            }
            assert(cards_below(bits, NB_CARDS as int) =~= old(self)@.insert(card));
        }
        self.0 = bits;
    }

    /// Takes `card` out of the hand, if it is there.
    pub fn remove(&mut self, card: Card)
        ensures
            final(self)@ == old(self)@.remove(card),
    {
        let id: u128 = card.id() as u128;
        let bits: u128 = self.0 & !(1u128 << id);
        proof {
            assert forall|c: Card|
                cards_below(bits, NB_CARDS as int).contains(c) == old(self)@.remove(card).contains(
                    c,
                ) by {
                c.lemma_of_id_spec_id();
                card.lemma_of_id_spec_id();
                lemma_bit_clear(self.0, id, c.spec_id() as u128);
            }
            assert(cards_below(bits, NB_CARDS as int) =~= old(self)@.remove(card));
        }
        self.0 = bits;
    }

    /// Whether the hand holds `card`.
    pub fn has(self, card: Card) -> (b: bool)
        ensures
            b == self@.contains(card),
    {
        let id: u128 = card.id() as u128;
        (self.0 >> id) & 1u128 == 1u128
    }

    /// The cards of the hand in the order of their numbers.
    pub fn list(self) -> (cards: Vec<Card>)
        ensures
            cards@ == self.sorted(),
            forall|c: Card| cards@.contains(c) <==> self@.contains(c),
            forall|i: int, j: int|
                0 <= i < j < cards@.len() ==> cards@[i].spec_id() < cards@[j].spec_id(),
            cards@.len() == self@.len(),
    {
        let mut cards: Vec<Card> = Vec::new();
        let mut id: u32 = 0;
        while id < NB_CARDS as u32
            invariant
                id <= NB_CARDS,
                cards@ == list_below(self.0, id as int),
            decreases NB_CARDS - id,
        {
            let card = Card::from_id(id);
            if (self.0 >> (id as u128)) & 1u128 == 1u128 {
                cards.push(card);
            }
            id = id + 1;
        }
        proof {
            self.lemma_sorted();
        }
        cards
    }

    /// Number of cards in the hand.
    pub fn size(self) -> (n: usize)
        ensures
            n == self@.len(),
            n <= NB_CARDS,
    {
        let mut n: usize = 0;
        let mut id: u32 = 0;
        while id < NB_CARDS as u32
            invariant
                id <= NB_CARDS,
                n == list_below(self.0, id as int).len(),
                n <= id,
            decreases NB_CARDS - id,
        {
            if (self.0 >> (id as u128)) & 1u128 == 1u128 {
                n = n + 1;
            }
            id = id + 1;
        }
        proof {
            self.lemma_sorted();
        }
        n
    }

    /// Whether the hand holds no card.
    pub fn is_empty(self) -> (b: bool)
        ensures
            b == (self@ == Set::<Card>::empty()),
    {
        let n = self.size();
        proof {
            self.lemma_sorted();
            if n == 0 {
                assert(self@ =~= Set::<Card>::empty());
            }
        }
        n == 0
    }

    /// The labels of `cards`, each followed by a space.
    pub open spec fn labels(cards: Seq<Card>) -> Seq<char>
        decreases cards.len(),
    {
        if cards.len() == 0 {
            Seq::empty()
        } else {
            Hand::labels(cards.drop_last()) + cards.last().label() + " "@
        }
    }

    /// The cards of the hand in order, each followed by a space.
    pub fn to_string(self) -> (s: String)
        ensures
            s@ == Hand::labels(self.sorted()),
    {
        let cards = self.list();
        join_labels(&cards)
    }
}

/// The labels of `cards`, each followed by a space.
pub fn join_labels(cards: &Vec<Card>) -> (s: String)
    ensures
        s@ == Hand::labels(cards@),
{
    let mut s = String::new();
    let mut i: usize = 0;
    while i < cards.len()
        invariant
            i <= cards.len(),
            s@ == Hand::labels(cards@.take(i as int)),
        decreases cards.len() - i,
    {
        let label = cards[i].to_string();
        proof {
            assert(cards@.take(i + 1).drop_last() == cards@.take(i as int));
        }
        s.append(label.as_str());
        s.append(" ");
        i = i + 1;
    }
    proof {
        assert(cards@.take(cards.len() as int) == cards@);
    }
    s
}

} // verus!
