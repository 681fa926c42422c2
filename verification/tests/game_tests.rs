use tictactoe::board::GameState;
use tictactoe::game::{Game, Turn};
use tictactoe::mark::Mark;
use tictactoe::player::Player;
use tictactoe::search::AIPlayer;

#[test]
fn new_game_is_empty_with_x_to_move() {
    let game = Game::new();
    assert_eq!(game.to_move(), Mark::X);
    assert_eq!(game.state(), GameState::Ongoing);
    for r in 0..3 {
        for c in 0..3 {
            assert_eq!(game.board().cell(r, c), Mark::Empty);
        }
    }
}

#[test]
fn played_move_passes_the_turn() {
    let mut game = Game::new();
    assert_eq!(game.play(Some((1, 1))), Turn::Played);
    assert_eq!(game.board().cell(1, 1), Mark::X);
    assert_eq!(game.to_move(), Mark::O);
    assert_eq!(game.play(Some((0, 0))), Turn::Played);
    assert_eq!(game.board().cell(0, 0), Mark::O);
    assert_eq!(game.to_move(), Mark::X);
}

#[test]
fn surrender_changes_nothing() {
    let mut game = Game::new();
    assert_eq!(game.play(Some((1, 1))), Turn::Played);
    assert_eq!(game.play(None), Turn::Surrendered);
    assert_eq!(game.to_move(), Mark::O);
    assert_eq!(game.board().cell(1, 1), Mark::X);
    assert_eq!(game.state(), GameState::Ongoing);
}

#[test]
fn illegal_move_is_banned_and_changes_nothing() {
    let mut game = Game::new();
    assert_eq!(game.play(Some((1, 1))), Turn::Played);
    assert_eq!(game.play(Some((1, 1))), Turn::Banned);
    assert_eq!(game.play(Some((3, 0))), Turn::Banned);
    assert_eq!(game.play(Some((0, 7))), Turn::Banned);
    assert_eq!(game.to_move(), Mark::O);
    assert_eq!(game.board().cell(1, 1), Mark::X);
    assert_eq!(game.board().cell(0, 0), Mark::Empty);
}

#[test]
fn game_is_over_when_a_line_is_filled() {
    let mut game = Game::new();
    for position in [(0, 0), (1, 0), (0, 1), (1, 1)] {
        assert_eq!(game.play(Some(position)), Turn::Played);
        assert_eq!(game.state(), GameState::Ongoing);
    }
    assert_eq!(game.play(Some((0, 2))), Turn::Played);
    assert_eq!(game.state(), GameState::Winner(Mark::X));
}

#[test]
fn two_automated_players_draw() {
    let mut game = Game::new();
    let x = AIPlayer::new(Mark::X);
    let o = AIPlayer::new(Mark::O);
    let mut turns = 0;
    while game.state() == GameState::Ongoing {
        let choice = if game.to_move() == Mark::X {
            x.turn(game.board())
        } else {
            o.turn(game.board())
        };
        assert!(choice.is_some());
        assert_eq!(game.play(choice), Turn::Played);
        turns += 1;
    }
    assert_eq!(turns, 9);
    assert_eq!(game.state(), GameState::Draw);
}
