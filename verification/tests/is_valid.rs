use patience::card::Card;
use patience::card::Face;
use patience::card::Pile;
use patience::card::Rank;
use patience::card::Suit;
use patience::game::Game;
use patience::game::klondike::Draw;
use patience::game::klondike::Foundation;
use patience::game::klondike::Klondike;
use patience::game::klondike::Play;
use patience::game::klondike::Tableau;

#[test]
fn tests_valid_draw_full_stock() {
    let game = Klondike::new(Draw::One);
    assert!(game.is_valid(&Play::Draw));
}

#[test]
fn tests_invalid_draw_empty_stock() {
    let mut game = Klondike::new(Draw::One);
    game.stock = Pile::new();
    assert!(!game.is_valid(&Play::Draw));
}

#[test]
fn tests_valid_redeal_empty_stock() {
    let mut game = Klondike::new(Draw::One);
    game.stock.deal_to(&mut game.waste, 52, true);
    assert!(game.is_valid(&Play::Redeal));
}

#[test]
fn tests_invalid_redeal_empty_waste() {
    let game = Klondike::new(Draw::One);
    assert!(!game.is_valid(&Play::Redeal));
}

#[test]
fn tests_invalid_redeal_non_empty_stock() {
    let mut game = Klondike::new(Draw::One);
    game.stock.deal_to(&mut game.waste, 1, true);
    assert!(!game.is_valid(&Play::Redeal));
}

#[test]
fn tests_invalid_redeal_empty_stock_empty_waste() {
    let mut game = Klondike::new(Draw::One);
    game.stock = Pile::new();
    assert!(!game.is_valid(&Play::Redeal));
}

#[test]
fn valid_reveal() {
    let mut game = Klondike::new(Draw::One);
    game.stock.deal_to(&mut game.tableau[0], 1, false);
    assert!(game.is_valid(&Play::Reveal(Tableau::One)));
}

#[test]
fn invalid_reveal_up() {
    let mut game = Klondike::new(Draw::One);
    game.stock.deal_to(&mut game.tableau[0], 1, true);
    assert!(!game.is_valid(&Play::Reveal(Tableau::One)));
}

#[test]
fn invalid_reveal_empty() {
    let game = Klondike::new(Draw::One);
    assert!(!game.is_valid(&Play::Reveal(Tableau::One)));
}

#[test]
fn tests_valid_waste_tableau_king() {
    let mut game = Klondike::new(Draw::One);
    game.waste.push(Face::Up(Card::new(Suit::Club, Rank::King)));
    assert!(game.is_valid(&Play::WasteTableau(Tableau::One)));
}

#[test]
fn tests_valid_waste_tableau_pred_color() {
    let mut game = Klondike::new(Draw::One);
    game.waste.push(Face::Up(Card::new(Suit::Heart, Rank::Queen)));
    game.tableau[0].push(Face::Up(Card::new(Suit::Club, Rank::King)));
    assert!(game.is_valid(&Play::WasteTableau(Tableau::One)));
}

#[test]
fn tests_invalid_waste_tableau_empty_waste() {
    let game = Klondike::new(Draw::One);
    assert!(!game.is_valid(&Play::WasteTableau(Tableau::One)));
}

#[test]
fn tests_invalid_waste_tableau_non_king() {
    let mut game = Klondike::new(Draw::One);
    game.waste.push(Face::Up(Card::new(Suit::Heart, Rank::Queen)));
    assert!(!game.is_valid(&Play::WasteTableau(Tableau::One)));
}

#[test]
fn tests_invalid_waste_tableau_non_color() {
    let mut game = Klondike::new(Draw::One);
    game.waste.push(Face::Up(Card::new(Suit::Heart, Rank::Queen)));
    game.tableau[0].push(Face::Up(Card::new(Suit::Diamond, Rank::King)));
    assert!(!game.is_valid(&Play::WasteTableau(Tableau::One)));
}

#[test]
fn tests_invalid_waste_tableau_non_pred() {
    let mut game = Klondike::new(Draw::One);
    game.waste.push(Face::Up(Card::new(Suit::Heart, Rank::Jack)));
    game.tableau[0].push(Face::Up(Card::new(Suit::Club, Rank::King)));
    assert!(!game.is_valid(&Play::WasteTableau(Tableau::One)));
}

#[test]
fn valid_waste_foundation_ace() {
    let mut game = Klondike::new(Draw::One);
    game.waste.push(Face::Up(Card::new(Suit::Spade, Rank::Ace)));
    assert!(game.is_valid(&Play::WasteFoundation(Foundation::One)));
}

#[test]
fn valid_waste_foundation_suit_succ() {
    let mut game = Klondike::new(Draw::One);
    game.waste.push(Face::Up(Card::new(Suit::Spade, Rank::Two)));
    game.foundations[0].push(Face::Up(Card::new(Suit::Spade, Rank::Ace)));
    assert!(game.is_valid(&Play::WasteFoundation(Foundation::One)));
}

#[test]
fn invalid_waste_foundation_empty_waste() {
    let game = Klondike::new(Draw::One);
    assert!(!game.is_valid(&Play::WasteFoundation(Foundation::One)));
}

#[test]
fn invalid_waste_foundation_non_ace() {
    let mut game = Klondike::new(Draw::One);
    game.waste.push(Face::Up(Card::new(Suit::Spade, Rank::Two)));
    assert!(!game.is_valid(&Play::WasteFoundation(Foundation::One)));
}

#[test]
fn invalid_waste_foundation_non_succ() {
    let mut game = Klondike::new(Draw::One);
    game.waste.push(Face::Up(Card::new(Suit::Spade, Rank::Three)));
    game.foundations[0].push(Face::Up(Card::new(Suit::Spade, Rank::Ace)));
    assert!(!game.is_valid(&Play::WasteFoundation(Foundation::One)));
}

#[test]
fn invalid_waste_foundation_non_suit() {
    let mut game = Klondike::new(Draw::One);
    game.waste.push(Face::Up(Card::new(Suit::Club, Rank::Two)));
    game.foundations[0].push(Face::Up(Card::new(Suit::Spade, Rank::Ace)));
    assert!(!game.is_valid(&Play::WasteFoundation(Foundation::One)));
}

#[test]
fn valid_tableau_foundation_ace() {
    let mut game = Klondike::new(Draw::One);
    game.tableau[0].push(Face::Up(Card::new(Suit::Spade, Rank::Ace)));
    assert!(game.is_valid(&Play::TableauFoundation(Tableau::One, Foundation::One)));
}

#[test]
fn valid_tableau_foundation_suit_succ() {
    let mut game = Klondike::new(Draw::One);
    game.tableau[0].push(Face::Up(Card::new(Suit::Spade, Rank::Two)));
    game.foundations[0].push(Face::Up(Card::new(Suit::Spade, Rank::Ace)));
    assert!(game.is_valid(&Play::TableauFoundation(Tableau::One, Foundation::One)));
}

#[test]
fn invalid_tableau_foundation_empty_tableau() {
    let game = Klondike::new(Draw::One);
    assert!(!game.is_valid(&Play::TableauFoundation(Tableau::One, Foundation::One)));
}

#[test]
fn invalid_tableau_foundation_non_ace() {
    let mut game = Klondike::new(Draw::One);
    game.tableau[0].push(Face::Up(Card::new(Suit::Spade, Rank::Two)));
    assert!(!game.is_valid(&Play::TableauFoundation(Tableau::One, Foundation::One)));
}

#[test]
fn invalid_tableau_foundation_non_succ() {
    let mut game = Klondike::new(Draw::One);
    game.tableau[0].push(Face::Up(Card::new(Suit::Spade, Rank::Three)));
    game.foundations[0].push(Face::Up(Card::new(Suit::Spade, Rank::Ace)));
    assert!(!game.is_valid(&Play::TableauFoundation(Tableau::One, Foundation::One)));
}

#[test]
fn invalid_tableau_foundation_non_suit() {
    let mut game = Klondike::new(Draw::One);
    game.tableau[0].push(Face::Up(Card::new(Suit::Club, Rank::Two)));
    game.foundations[0].push(Face::Up(Card::new(Suit::Spade, Rank::Ace)));
    assert!(!game.is_valid(&Play::TableauFoundation(Tableau::One, Foundation::One)));
}

#[test]
fn valid_foundation_tableau_king() {
    let mut game = Klondike::new(Draw::One);
    game.foundations[0].push(Face::Up(Card::new(Suit::Club, Rank::King)));
    assert!(game.is_valid(&Play::FoundationTableau(Foundation::One, Tableau::One)));
}

#[test]
fn valid_foundation_tableau_pred_color() {
    let mut game = Klondike::new(Draw::One);
    game.foundations[0].push(Face::Up(Card::new(Suit::Heart, Rank::Queen)));
    game.tableau[0].push(Face::Up(Card::new(Suit::Club, Rank::King)));
    assert!(game.is_valid(&Play::FoundationTableau(Foundation::One, Tableau::One)));
}

#[test]
fn invalid_foundation_tableau_empty_foundation() {
    let game = Klondike::new(Draw::One);
    assert!(!game.is_valid(&Play::FoundationTableau(Foundation::One, Tableau::One)));
}

#[test]
fn invalid_foundation_tableau_non_king() {
    let mut game = Klondike::new(Draw::One);
    game.foundations[0].push(Face::Up(Card::new(Suit::Heart, Rank::Queen)));
    assert!(!game.is_valid(&Play::FoundationTableau(Foundation::One, Tableau::One)));
}

#[test]
fn invalid_foundation_tableau_non_color() {
    let mut game = Klondike::new(Draw::One);
    game.foundations[0].push(Face::Up(Card::new(Suit::Heart, Rank::Queen)));
    game.tableau[0].push(Face::Up(Card::new(Suit::Diamond, Rank::King)));
    assert!(!game.is_valid(&Play::FoundationTableau(Foundation::One, Tableau::One)));
}

#[test]
fn invalid_foundation_tableau_non_pred() {
    let mut game = Klondike::new(Draw::One);
    game.foundations[0].push(Face::Up(Card::new(Suit::Heart, Rank::Jack)));
    game.tableau[0].push(Face::Up(Card::new(Suit::Club, Rank::King)));
    assert!(!game.is_valid(&Play::FoundationTableau(Foundation::One, Tableau::One)));
}

#[test]
fn valid_tableau_tableau_one_king() {
    let mut game = Klondike::new(Draw::One);
    game.tableau[0].push(Face::Up(Card::new(Suit::Club, Rank::King)));
    assert!(game.is_valid(&Play::TableauTableau(Tableau::One, 1, Tableau::Two)));
}

#[test]
fn valid_tableau_tableau_two_king() {
    let mut game = Klondike::new(Draw::One);
    game.tableau[0].push(Face::Up(Card::new(Suit::Club, Rank::King)));
    game.tableau[0].push(Face::Up(Card::new(Suit::Heart, Rank::Queen)));
    assert!(game.is_valid(&Play::TableauTableau(Tableau::One, 2, Tableau::Two)));
}

#[test]
fn valid_tableau_tableau_one_pred_color() {
    let mut game = Klondike::new(Draw::One);
    game.tableau[0].push(Face::Up(Card::new(Suit::Club, Rank::Ace)));
    game.tableau[1].push(Face::Up(Card::new(Suit::Heart, Rank::Two)));
    assert!(game.is_valid(&Play::TableauTableau(Tableau::One, 1, Tableau::Two)));
}

#[test]
fn valid_tableau_tableau_two_pred_color() {
    let mut game = Klondike::new(Draw::One);
    game.tableau[0].push(Face::Up(Card::new(Suit::Club, Rank::Queen)));
    game.tableau[0].push(Face::Up(Card::new(Suit::Heart, Rank::Jack)));
    game.tableau[1].push(Face::Up(Card::new(Suit::Diamond, Rank::King)));
    assert!(game.is_valid(&Play::TableauTableau(Tableau::One, 2, Tableau::Two)));
}

#[test]
fn invalid_tableau_tableau_empty_src() {
    let game = Klondike::new(Draw::One);
    assert!(!game.is_valid(&Play::TableauTableau(Tableau::One, 1, Tableau::Two)));
}

#[test]
fn invalid_tableau_tableau_face_down() {
    let mut game = Klondike::new(Draw::One);
    game.tableau[0].push(Face::Down(Card::new(Suit::Heart, Rank::King)));
    game.tableau[0].push(Face::Up(Card::new(Suit::Spade, Rank::Queen)));
    assert!(!game.is_valid(&Play::TableauTableau(Tableau::One, 2, Tableau::Two)));
}

#[test]
fn invalid_tableau_tableau_count() {
    let mut game = Klondike::new(Draw::One);
    game.tableau[0].push(Face::Up(Card::new(Suit::Spade, Rank::King)));
    assert!(!game.is_valid(&Play::TableauTableau(Tableau::One, 2, Tableau::Two)));
}

#[test]
fn invalid_tableau_tableau_zero() {
    let mut game = Klondike::new(Draw::One);
    game.tableau[0].push(Face::Up(Card::new(Suit::Spade, Rank::King)));
    assert!(!game.is_valid(&Play::TableauTableau(Tableau::One, 0, Tableau::Two)));
}

#[test]
fn invalid_tableau_tableau_same() {
    let mut game = Klondike::new(Draw::One);
    game.tableau[0].push(Face::Up(Card::new(Suit::Heart, Rank::King)));
    assert!(!game.is_valid(&Play::TableauTableau(Tableau::One, 1, Tableau::One)));
}

#[test]
fn invalid_tableau_tableau_one_non_king() {
    let mut game = Klondike::new(Draw::One);
    game.tableau[0].push(Face::Up(Card::new(Suit::Spade, Rank::Queen)));
    assert!(!game.is_valid(&Play::TableauTableau(Tableau::One, 1, Tableau::Two)));
}

#[test]
fn invalid_tableau_tableau_two_non_king() {
    let mut game = Klondike::new(Draw::One);
    game.tableau[0].push(Face::Up(Card::new(Suit::Spade, Rank::Queen)));
    game.tableau[0].push(Face::Up(Card::new(Suit::Heart, Rank::Jack)));
    assert!(!game.is_valid(&Play::TableauTableau(Tableau::One, 2, Tableau::Two)));
}

#[test]
fn invalid_tableau_tableau_one_non_color() {
    let mut game = Klondike::new(Draw::One);
    game.tableau[0].push(Face::Up(Card::new(Suit::Spade, Rank::Queen)));
    game.tableau[1].push(Face::Up(Card::new(Suit::Club, Rank::King)));
    assert!(!game.is_valid(&Play::TableauTableau(Tableau::One, 1, Tableau::Two)));
}

#[test]
fn invalid_tableau_tableau_two_non_color() {
    let mut game = Klondike::new(Draw::One);
    game.tableau[0].push(Face::Up(Card::new(Suit::Spade, Rank::Queen)));
    game.tableau[0].push(Face::Up(Card::new(Suit::Heart, Rank::Jack)));
    game.tableau[1].push(Face::Up(Card::new(Suit::Club, Rank::King)));
    assert!(!game.is_valid(&Play::TableauTableau(Tableau::One, 2, Tableau::Two)));
}

#[test]
fn invalid_tableau_tableau_one_non_pred() {
    let mut game = Klondike::new(Draw::One);
    game.tableau[0].push(Face::Up(Card::new(Suit::Spade, Rank::Jack)));
    game.tableau[1].push(Face::Up(Card::new(Suit::Heart, Rank::King)));
    assert!(!game.is_valid(&Play::TableauTableau(Tableau::One, 1, Tableau::Two)));
}

#[test]
fn invalid_tableau_tableau_two_non_pred() {
    let mut game = Klondike::new(Draw::One);
    game.tableau[0].push(Face::Up(Card::new(Suit::Spade, Rank::Jack)));
    game.tableau[0].push(Face::Up(Card::new(Suit::Diamond, Rank::Ten)));
    game.tableau[1].push(Face::Up(Card::new(Suit::Heart, Rank::King)));
    assert!(!game.is_valid(&Play::TableauTableau(Tableau::One, 2, Tableau::Two)));
}
