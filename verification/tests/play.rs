use patience::card::Face;
use patience::game::Game;
use patience::game::klondike::Draw;
use patience::game::klondike::Foundation;
use patience::game::klondike::Klondike;
use patience::game::klondike::Play;
use patience::game::klondike::Tableau;

#[test]
fn draw_one() {
    let mut game = Klondike::new(Draw::One);
    let top = game.stock.top();
    game.play(&Play::Draw);
    assert_eq!(top.map(Face::flipped), game.waste.top());
}

#[test]
fn draw_three() {
    let mut game = Klondike::new(Draw::Three);
    let (a, b, c) = (game.stock.get_back(1), game.stock.get_back(2), game.stock.get_back(3));
    game.play(&Play::Draw);
    assert_eq!(a.map(Face::flipped), game.waste.get_back(3));
    assert_eq!(b.map(Face::flipped), game.waste.get_back(2));
    assert_eq!(c.map(Face::flipped), game.waste.get_back(1));
}

#[test]
fn redeal() {
    let mut game = Klondike::new(Draw::Three);
    let stock = game.stock.clone();
    while !game.stock.is_empty() {
        game.play(&Play::Draw);
    }
    game.play(&Play::Redeal);
    assert_eq!(stock, game.stock);
}

#[test]
fn reveal_play() {
    let mut game = Klondike::new(Draw::One);
    game.stock.deal_to(&mut game.tableau[0], 1, false);
    game.play(&Play::Reveal(Tableau::One));
    assert!(game.tableau[0].top().unwrap().is_up());
}

#[test]
fn waste_tableau() {
    let mut game = Klondike::new(Draw::One);
    game.play(&Play::Draw);
    let card = game.waste.top();
    game.play(&Play::WasteTableau(Tableau::One));
    assert_eq!(card, game.tableau[0].top());
}

#[test]
fn waste_foundation() {
    let mut game = Klondike::new(Draw::One);
    game.play(&Play::Draw);
    let card = game.waste.top();
    game.play(&Play::WasteFoundation(Foundation::One));
    assert_eq!(card, game.foundations[0].top());
}

#[test]
fn tableau_foundation() {
    let mut game = Klondike::new(Draw::One);
    game.deal();
    let card = game.tableau[1].top();
    game.play(&Play::TableauFoundation(Tableau::Two, Foundation::One));
    assert_eq!(card, game.foundations[0].top());
}

#[test]
fn foundation_tableau() {
    let mut game = Klondike::new(Draw::One);
    game.play(&Play::Draw);
    game.play(&Play::WasteFoundation(Foundation::One));
    let card = game.foundations[0].top();
    game.play(&Play::FoundationTableau(Foundation::One, Tableau::One));
    assert_eq!(card, game.tableau[0].top());
}

#[test]
fn tableau_tableau() {
    let mut game = Klondike::new(Draw::One);
    game.deal();
    game.play(&Play::Draw);
    game.play(&Play::WasteTableau(Tableau::Two));
    let (a, b) = (game.tableau[1].get_back(2), game.tableau[1].get_back(1));
    game.play(&Play::TableauTableau(Tableau::Two, 2, Tableau::One));
    assert_eq!(a, game.tableau[0].get_back(2));
    assert_eq!(b, game.tableau[0].get_back(1));
}
