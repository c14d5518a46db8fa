use petits_chevaux::game::Game;

#[test]
fn dice_stays_on_the_die() {
    let game = Game::new();
    for _ in 0..1000 {
        let thrown = game.roll_dice();
        assert!(1 <= thrown && thrown <= 6);
    }
}

#[test]
fn dice_shows_every_face() {
    let game = Game::new();
    let mut seen = [false; 6];
    for _ in 0..1000 {
        seen[game.roll_dice() - 1] = true;
    }
    assert_eq!(seen, [true; 6]);
}
