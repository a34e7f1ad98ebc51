use thevalley::cards::{Card, Deck, DeckError, Hand, Rank, Suit, DECK_SIZE};
use thevalley::pos::{AbsolutePos, PlayerPos};
use thevalley::trick::Trick;
use thevalley::{deal_from, deal_in_rounds, deal_seeded_hands, strength, SEEDED_DEAL_ROUNDS};

fn card(id: u32) -> Card {
    Card::from_id(id)
}

#[test]
fn card_numbers_follow_suits_then_ranks() {
    assert_eq!(Card::new(Suit::Heart, Rank::Rank1).id(), 0);
    assert_eq!(Card::new(Suit::Heart, Rank::RankK).id(), 12);
    assert_eq!(Card::new(Suit::Spade, Rank::Rank1).id(), 13);
    assert_eq!(Card::new(Suit::Diamond, Rank::Rank10).id(), 35);
    assert_eq!(Card::new(Suit::Club, Rank::Rank5).id(), 43);
    assert_eq!(Card::new(Suit::Club, Rank::RankK).id(), 51);
    assert_eq!(Card::new(Suit::Joker, Rank::Rank1).id(), 52);
    assert_eq!(Card::new(Suit::Joker, Rank::Rank2).id(), 53);
}

#[test]
fn card_from_id_is_the_inverse_of_id() {
    for id in 0..65u32 {
        let c = Card::from_id(id);
        assert_eq!(c.id(), id);
        assert_eq!(Card::new(c.suit(), c.rank()), c);
    }
    assert_eq!(Card::from_id(43).suit(), Suit::Club);
    assert_eq!(Card::from_id(43).rank(), Rank::Rank5);
}

#[test]
fn card_labels() {
    assert_eq!(Card::new(Suit::Club, Rank::Rank5).to_string(), "5C");
    assert_eq!(Card::new(Suit::Heart, Rank::Rank10).to_string(), "10H");
    assert_eq!(Card::new(Suit::Spade, Rank::RankQ).to_string(), "QS");
    assert_eq!(Card::new(Suit::Joker, Rank::Rank1).to_string(), "1*");
    assert_eq!(Suit::Diamond.to_safe_string(), "diamond");
    assert_eq!(Suit::Diamond.to_string(), "D");
    assert_eq!(Rank::RankJ.to_string(), "J");
}

#[test]
fn suit_and_rank_numbers() {
    assert_eq!(Suit::Heart.to_n(), 0);
    assert_eq!(Suit::Joker.to_n(), 4);
    assert_eq!(Suit::from_n(2), Suit::Diamond);
    assert_eq!(Rank::Rank1.to_n(), 0);
    assert_eq!(Rank::RankK.to_n(), 12);
    assert_eq!(Rank::from_n(9), Rank::Rank10);
}

#[test]
fn strength_of_every_rank() {
    let expected = [
        (Rank::Rank1, 1),
        (Rank::Rank2, 2),
        (Rank::Rank3, 3),
        (Rank::Rank4, 4),
        (Rank::Rank5, 5),
        (Rank::Rank6, 6),
        (Rank::Rank7, 7),
        (Rank::Rank8, 8),
        (Rank::Rank9, 9),
        (Rank::Rank10, 10),
        (Rank::RankJ, 1),
        (Rank::RankQ, 2),
        (Rank::RankK, 3),
    ];
    for (rank, s) in expected.iter() {
        for suit in [Suit::Heart, Suit::Spade, Suit::Diamond, Suit::Club].iter() {
            assert_eq!(strength(Card::new(*suit, *rank)), *s);
        }
    }
}

#[test]
fn face_cards_are_weak() {
    let king = Card::new(Suit::Heart, Rank::RankK);
    let four = Card::new(Suit::Club, Rank::Rank4);
    assert!(strength(king) < strength(four));
    assert_eq!(strength(king), strength(Card::new(Suit::Spade, Rank::Rank3)));
}

#[test]
fn hand_adds_and_removes() {
    let mut hand = Hand::new();
    assert!(hand.is_empty());
    assert_eq!(hand.size(), 0);
    hand.add(card(43));
    hand.add(card(0));
    hand.add(card(53));
    hand.add(card(43));
    assert_eq!(hand.size(), 3);
    assert!(hand.has(card(43)));
    assert!(hand.has(card(0)));
    assert!(!hand.has(card(1)));
    assert_eq!(hand.list(), vec![card(0), card(43), card(53)]);
    hand.remove(card(0));
    hand.remove(card(7));
    assert_eq!(hand.size(), 2);
    assert!(!hand.has(card(0)));
    assert_eq!(hand.list(), vec![card(43), card(53)]);
    assert_eq!(hand.to_string(), "5C 2* ");
    assert!(!hand.is_empty());
}

#[test]
fn hand_holds_every_pair() {
    let mut hand = Hand::new();
    for id in 0..65u32 {
        hand.add(card(id));
    }
    assert_eq!(hand.size(), 65);
    for id in 0..65u32 {
        assert!(hand.has(card(id)));
    }
    hand.remove(card(64));
    assert_eq!(hand.size(), 64);
    assert!(!hand.has(card(64)));
}

#[test]
fn new_deck_is_in_order() {
    let deck = Deck::new();
    assert_eq!(deck.len(), DECK_SIZE);
    assert_eq!(deck.len(), 54);
    for (i, c) in deck.iter().enumerate() {
        assert_eq!(c.id() as usize, i);
    }
    assert!(!deck.is_empty());
    assert!(Deck::default().is_empty());
    assert_eq!(Deck::default().len(), 0);
}

#[test]
fn draw_takes_the_top() {
    let mut deck = Deck::from_cards(vec![card(3), card(9), card(20)]);
    assert_eq!(deck.draw(), Ok(card(20)));
    assert_eq!(deck.len(), 2);
    assert_eq!(deck.draw(), Ok(card(9)));
    assert_eq!(deck.draw(), Ok(card(3)));
    assert!(deck.is_empty());
    assert_eq!(deck.draw(), Err(DeckError::Exhausted));
    assert_eq!(deck.len(), 0);
    deck.push(card(5));
    assert_eq!(deck.cards(), &vec![card(5)]);
    assert_eq!(deck.to_string(), "6H ");
}

fn ids(deck: &Deck) -> Vec<u32> {
    deck.iter().map(|c| c.id()).collect()
}

#[test]
fn shuffle_keeps_the_cards() {
    let mut deck = Deck::new();
    deck.shuffle();
    assert_eq!(deck.len(), 54);
    let mut seen = ids(&deck);
    seen.sort();
    assert_eq!(seen, (0..54u32).collect::<Vec<u32>>());
}

#[test]
fn shuffle_changes_the_order() {
    let mut moved = false;
    for _ in 0..4 {
        let mut deck = Deck::new();
        deck.shuffle();
        if ids(&deck) != (0..54u32).collect::<Vec<u32>>() {
            moved = true;
        }
    }
    assert!(moved);
}

#[test]
fn seeded_shuffle_is_reproducible() {
    let mut a = Deck::new();
    let mut b = Deck::new();
    a.shuffle_seeded([7; 32]);
    b.shuffle_seeded([7; 32]);
    assert_eq!(a, b);
    assert_ne!(ids(&a), (0..54u32).collect::<Vec<u32>>());
    let mut seen = ids(&a);
    seen.sort();
    assert_eq!(seen, (0..54u32).collect::<Vec<u32>>());
    let mut c = Deck::new();
    c.shuffle_seeded([8; 32]);
    assert_ne!(a, c);
}

#[test]
fn deal_each_serves_the_first_hand_from_the_top() {
    let mut deck = Deck::from_cards((0..10u32).map(card).collect());
    let mut hands = [Hand::new(); 2];
    deck.deal_each(&mut hands, 3);
    assert_eq!(hands[0].list(), vec![card(7), card(8), card(9)]);
    assert_eq!(hands[1].list(), vec![card(4), card(5), card(6)]);
    assert_eq!(ids(&deck), vec![0, 1, 2, 3]);
}

#[test]
fn deal_from_an_ordered_deck() {
    let (hands, source) = deal_from(Deck::new());
    assert_eq!(source.len(), 36);
    assert_eq!(ids(&source), (0..36u32).collect::<Vec<u32>>());
    assert_eq!(hands[0].list(), (45..54u32).map(card).collect::<Vec<Card>>());
    assert_eq!(hands[1].list(), (36..45u32).map(card).collect::<Vec<Card>>());
}

#[test]
fn deal_in_rounds_alternates() {
    let (hands, source) = deal_in_rounds(Deck::new(), 3);
    assert_eq!(source.len(), 48);
    assert_eq!(hands[0].list(), vec![card(49), card(51), card(53)]);
    assert_eq!(hands[1].list(), vec![card(48), card(50), card(52)]);
}

#[test]
fn seeded_deal_is_reproducible_and_complete() {
    let (hands, source) = deal_seeded_hands([3; 32]);
    let (again, source_again) = deal_seeded_hands([3; 32]);
    assert_eq!(hands, again);
    assert_eq!(source, source_again);
    assert_eq!(source.len(), 34);
    let mut count = [0; 54];
    for c in source.iter() {
        count[c.id() as usize] += 1;
    }
    for hand in hands.iter() {
        assert_eq!(hand.size(), SEEDED_DEAL_ROUNDS);
        assert_eq!(hand.size(), 10);
        for c in hand.list().iter() {
            count[c.id() as usize] += 1;
        }
    }
    for c in count.iter() {
        assert_eq!(*c, 1);
    }
    let (other, _) = deal_seeded_hands([4; 32]);
    assert_ne!(hands, other);
}

#[test]
fn seats_go_round_the_table() {
    let p0 = PlayerPos::from_n(0, 3);
    let p1 = PlayerPos::from_n(1, 3);
    let p2 = PlayerPos::from_n(2, 3);
    assert_eq!(p0.pos, AbsolutePos::P0);
    assert_eq!(p0.count, 3);
    assert_eq!(p0.next(), p1);
    assert_eq!(p1.next(), p2);
    assert_eq!(p2.next(), p0);
    assert_eq!(p0.prev(), p2);
    assert_eq!(p2.prev(), p1);
    assert_eq!(p2.to_n(), 2);
    assert_eq!(PlayerPos::from_n(5, 3), p2);
    assert_eq!(PlayerPos::from_n(4, 4), PlayerPos::from_n(0, 4));
    let alone = PlayerPos::from_n(0, 1);
    assert_eq!(alone.next(), alone);
    assert_eq!(alone.prev(), alone);
    assert_eq!(AbsolutePos::from_n(3), AbsolutePos::P3);
    assert_eq!(AbsolutePos::P2.to_n(), 2);
}

#[test]
fn new_trick_is_empty() {
    let first = PlayerPos::from_n(1, 2);
    let trick = Trick::new(first);
    assert_eq!(trick.first, first);
    assert_eq!(trick.winner, first);
    assert_eq!(trick.cards, [None; 4]);
    assert_eq!(trick.suit(), None);
    assert_eq!(trick.card_played(first), None);
    let default = Trick::default();
    assert_eq!(default.first, PlayerPos::from_n(0, 2));
    assert_eq!(default.winner, PlayerPos::from_n(0, 2));
}

#[test]
fn trick_winner_needs_a_strictly_stronger_card() {
    let p0 = PlayerPos::from_n(0, 3);
    let p1 = PlayerPos::from_n(1, 3);
    let p2 = PlayerPos::from_n(2, 3);
    let mut trick = Trick::new(p0);
    assert!(!trick.play_card(p0, Card::new(Suit::Heart, Rank::Rank5)));
    assert_eq!(trick.winner, p0);
    assert!(!trick.play_card(p1, Card::new(Suit::Spade, Rank::Rank5)));
    assert_eq!(trick.winner, p0);
    assert!(trick.play_card(p2, Card::new(Suit::Club, Rank::Rank6)));
    assert_eq!(trick.winner, p2);
    assert_eq!(trick.suit(), Some(Suit::Heart));
    assert_eq!(trick.card_played(p1), Some(Card::new(Suit::Spade, Rank::Rank5)));
    assert_eq!(trick.player_played(Card::new(Suit::Club, Rank::Rank6)), Some(AbsolutePos::P2));
    assert_eq!(trick.player_played(Card::new(Suit::Club, Rank::Rank7)), None);
    assert!(trick.has(Card::new(Suit::Heart, Rank::Rank5)));
    assert!(!trick.has(Card::new(Suit::Heart, Rank::Rank6)));
}

#[test]
fn trick_king_loses_to_a_four() {
    let p0 = PlayerPos::from_n(0, 2);
    let p1 = PlayerPos::from_n(1, 2);
    let mut trick = Trick::new(p1);
    assert!(!trick.play_card(p1, Card::new(Suit::Heart, Rank::Rank4)));
    assert!(trick.play_card(p0, Card::new(Suit::Heart, Rank::RankK)));
    assert_eq!(trick.winner, p1);
}

#[test]
fn trick_of_one_seat_is_complete_at_once() {
    let alone = PlayerPos::from_n(0, 1);
    let mut trick = Trick::new(alone);
    assert!(trick.play_card(alone, Card::new(Suit::Heart, Rank::Rank4)));
    assert_eq!(trick.winner, alone);
}
