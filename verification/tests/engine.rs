use patience::card::Card;
use patience::card::Face;
use patience::card::Pile;
use patience::card::Rank;
use patience::card::Suit;
use patience::game::Game;
use patience::game::klondike::Draw;
use patience::game::klondike::Foundation;
use patience::game::klondike::Klondike;
use patience::game::klondike::Play;
use patience::game::klondike::Tableau;

fn all_cards(game: &Klondike) -> Vec<Card> {
    let mut cards = Vec::new();
    let mut piles: Vec<&Pile> = vec![&game.stock, &game.waste];
    for pile in &game.foundations {
        piles.push(pile);
    }
    for pile in &game.tableau {
        piles.push(pile);
    }
    for pile in piles {
        for i in 0..pile.count() {
            cards.push(pile.get(i).unwrap().card());
        }
    }
    cards
}

fn assert_full_partition(game: &Klondike) {
    let cards = all_cards(game);
    assert_eq!(cards.len(), 52);
    for i in 0..cards.len() {
        for j in 0..i {
            assert_ne!(cards[i], cards[j]);
        }
    }
}

#[test]
fn fresh_game_holds_the_whole_deck() {
    let game = Klondike::new(Draw::One);
    assert_eq!(game.stock.count(), 52);
    assert!(game.waste.is_empty());
    assert_eq!(game.foundations.len(), 4);
    assert_eq!(game.tableau.len(), 7);
    for pile in &game.foundations {
        assert!(pile.is_empty());
    }
    for pile in &game.tableau {
        assert!(pile.is_empty());
    }
    for i in 0..52 {
        assert!(game.stock.get(i).unwrap().is_down());
    }
    assert_full_partition(&game);
}

#[test]
fn deal_lays_out_the_tableaux() {
    let mut game = Klondike::new(Draw::One);
    game.deal();
    assert_eq!(game.stock.count(), 24);
    assert!(game.waste.is_empty());
    for (i, pile) in game.tableau.iter().enumerate() {
        assert_eq!(pile.count(), i + 1);
        assert!(pile.top().unwrap().is_up());
        for j in 0..i {
            assert!(pile.get(j).unwrap().is_down());
        }
    }
    assert_full_partition(&game);
}

#[test]
fn plays_preserve_the_partition() {
    let mut game = Klondike::new(Draw::One);
    game.deal();
    game.play(&Play::Draw);
    assert_full_partition(&game);
    game.play(&Play::WasteTableau(Tableau::One));
    assert_full_partition(&game);
    game.undo(&Play::WasteTableau(Tableau::One));
    assert_full_partition(&game);
    game.undo(&Play::Draw);
    assert_full_partition(&game);
}

#[test]
fn draw_then_undo_restores_the_game() {
    let mut game = Klondike::new(Draw::Three);
    let stock = game.stock.clone();
    game.play(&Play::Draw);
    assert_eq!(game.stock.count(), 49);
    assert_eq!(game.waste.count(), 3);
    game.undo(&Play::Draw);
    assert_eq!(stock, game.stock);
    assert!(game.waste.is_empty());
}

#[test]
fn saturated_draw_moves_only_what_is_there() {
    let mut game = Klondike::new(Draw::Three);
    let mut short_stock = Pile::new();
    short_stock.push(Face::Down(Card::new(Suit::Heart, Rank::Ace)));
    short_stock.push(Face::Down(Card::new(Suit::Heart, Rank::Two)));
    game.stock = short_stock.clone();
    game.play(&Play::Draw);
    assert!(game.stock.is_empty());
    assert_eq!(game.waste.count(), 2);
    assert_eq!(game.waste.top(), Some(Face::Up(Card::new(Suit::Heart, Rank::Ace))));
    game.undo(&Play::Draw);
    assert_eq!(short_stock, game.stock);
    assert!(game.waste.is_empty());
}

#[test]
fn fresh_one_card_game_draws_and_redeals() {
    let mut game = Klondike::new(Draw::One);
    assert!(game.is_valid(&Play::Draw));
    assert!(!game.is_valid(&Play::Redeal));
    let stock = game.stock.clone();
    while !game.stock.is_empty() {
        game.play(&Play::Draw);
    }
    assert!(game.is_valid(&Play::Redeal));
    game.play(&Play::Redeal);
    assert_eq!(stock, game.stock);
}

#[test]
fn king_moves_between_empty_tableaux_and_back() {
    let mut game = Klondike::new(Draw::One);
    game.tableau[0].push(Face::Up(Card::new(Suit::Club, Rank::King)));
    let before_src = game.tableau[0].clone();
    let before_dest = game.tableau[1].clone();
    assert!(game.is_valid(&Play::TableauTableau(Tableau::One, 1, Tableau::Two)));
    game.play(&Play::TableauTableau(Tableau::One, 1, Tableau::Two));
    assert!(game.tableau[0].is_empty());
    assert_eq!(game.tableau[1].top(), Some(Face::Up(Card::new(Suit::Club, Rank::King))));
    game.undo(&Play::TableauTableau(Tableau::One, 1, Tableau::Two));
    assert_eq!(before_src, game.tableau[0]);
    assert_eq!(before_dest, game.tableau[1]);
}

#[test]
fn reveal_then_undo_restores_the_game() {
    let mut game = Klondike::new(Draw::One);
    game.stock.deal_to(&mut game.tableau[2], 1, false);
    let before = game.tableau[2].clone();
    game.play(&Play::Reveal(Tableau::Three));
    assert!(game.tableau[2].top().unwrap().is_up());
    game.undo(&Play::Reveal(Tableau::Three));
    assert_eq!(before, game.tableau[2]);
}

#[test]
fn foundation_move_then_undo_restores_the_game() {
    let mut game = Klondike::new(Draw::One);
    game.waste.push(Face::Up(Card::new(Suit::Spade, Rank::Ace)));
    game.waste.push(Face::Up(Card::new(Suit::Spade, Rank::Two)));
    game.tableau[0].push(Face::Up(Card::new(Suit::Spade, Rank::Three)));
    game.play(&Play::WasteFoundation(Foundation::One));
    game.play(&Play::WasteFoundation(Foundation::One));
    game.play(&Play::TableauFoundation(Tableau::One, Foundation::One));
    assert_eq!(game.foundations[0].count(), 3);
    assert_eq!(
        game.foundations[0].top(),
        Some(Face::Up(Card::new(Suit::Spade, Rank::Three))),
    );
    game.undo(&Play::TableauFoundation(Tableau::One, Foundation::One));
    assert_eq!(game.tableau[0].top(), Some(Face::Up(Card::new(Suit::Spade, Rank::Three))));
    game.undo(&Play::WasteFoundation(Foundation::One));
    game.undo(&Play::WasteFoundation(Foundation::One));
    assert!(game.foundations[0].is_empty());
    assert_eq!(game.waste.top(), Some(Face::Up(Card::new(Suit::Spade, Rank::Two))));
}

#[test]
fn redeal_then_undo_restores_the_game() {
    let mut game = Klondike::new(Draw::One);
    game.stock.deal_to(&mut game.waste, 52, true);
    let waste = game.waste.clone();
    game.play(&Play::Redeal);
    assert!(game.waste.is_empty());
    assert_eq!(game.stock.count(), 52);
    game.undo(&Play::Redeal);
    assert!(game.stock.is_empty());
    assert_eq!(waste, game.waste);
}

#[test]
fn fresh_game_is_not_won() {
    let game = Klondike::new(Draw::One);
    assert!(!game.is_won());
}

#[test]
fn won_when_stock_waste_and_tableaux_are_empty() {
    let mut game = Klondike::new(Draw::One);
    game.stock = Pile::new();
    assert!(game.is_won());
}

#[test]
fn won_whatever_the_foundations_hold() {
    let mut game = Klondike::new(Draw::One);
    game.stock = Pile::new();
    game.foundations[0].push(Face::Up(Card::new(Suit::Spade, Rank::Ace)));
    game.foundations[2].push(Face::Up(Card::new(Suit::Heart, Rank::Ace)));
    assert!(game.is_won());
}

#[test]
fn not_won_with_waste_or_tableau_cards() {
    let mut game = Klondike::new(Draw::One);
    game.stock = Pile::new();
    game.waste.push(Face::Up(Card::new(Suit::Spade, Rank::Ace)));
    assert!(!game.is_won());

    let mut game = Klondike::new(Draw::One);
    game.stock = Pile::new();
    game.tableau[6].push(Face::Up(Card::new(Suit::Spade, Rank::Ace)));
    assert!(!game.is_won());
}

#[test]
fn clone_copies_the_whole_game() {
    let mut game = Klondike::new(Draw::One);
    game.deal();
    game.play(&Play::Draw);
    let copy = game.clone();
    assert_eq!(copy, game);
    assert_eq!(copy.stock, game.stock);
    assert_eq!(copy.waste, game.waste);
    for i in 0..4 {
        assert_eq!(copy.foundations[i], game.foundations[i]);
    }
    for i in 0..7 {
        assert_eq!(copy.tableau[i], game.tableau[i]);
    }
    game.play(&Play::Draw);
    assert_ne!(copy, game);
    assert_ne!(copy.stock, game.stock);
}
