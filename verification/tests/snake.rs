use rpi4_kernel::gpio::PullMode;
use rpi4_kernel::snake::{Dir, DrawOp, ScreenText, SnakeGame, SnakeRunner};

fn body(g: &SnakeGame) -> Vec<(i8, i8)> {
    (0..g.body_len()).map(|i| g.segment(i)).collect()
}

#[test]
fn new_game() {
    let g = SnakeGame::new();
    assert_eq!(body(&g), vec![(12, 10), (11, 10), (10, 10)]);
    assert_eq!(g.direction(), Dir::Right);
    assert_eq!(g.food(), (20, 15));
    assert_eq!(g.score(), 0);
    assert!(!g.is_over());
}

#[test]
fn snake_moves_and_tail_follows() {
    let mut g = SnakeGame::new();
    g.update();
    assert_eq!(body(&g), vec![(13, 10), (12, 10), (11, 10)]);
    g.input(Dir::Up);
    g.update();
    assert_eq!(body(&g), vec![(13, 9), (13, 10), (12, 10)]);
    assert_eq!(g.score(), 0);
}

#[test]
fn reversal_is_ignored() {
    let mut g = SnakeGame::new();
    g.input(Dir::Left);
    assert_eq!(g.direction(), Dir::Right);
    g.input(Dir::Down);
    assert_eq!(g.direction(), Dir::Down);
    g.input(Dir::Up);
    assert_eq!(g.direction(), Dir::Down);
    g.input(Dir::Right);
    assert_eq!(g.direction(), Dir::Right);
}

#[test]
fn eating_grows_and_scores() {
    let mut g = SnakeGame::new();
    for _ in 0..8 {
        g.update();
    }
    assert_eq!(g.segment(0), (20, 10));
    g.input(Dir::Down);
    for _ in 0..4 {
        g.update();
    }
    assert_eq!(g.body_len(), 3);
    g.update();
    assert_eq!(g.segment(0), (20, 15));
    assert_eq!(body(&g), vec![(20, 15), (20, 14), (20, 13), (20, 12)]);
    assert_eq!(g.score(), 10);
    // Food cell 15 * 51 + 20 = 785 moves to (785 * 301 + 7) % 1530 = 672 = (9, 13).
    assert_eq!(g.food(), (9, 13));
    g.update();
    assert_eq!(body(&g), vec![(20, 16), (20, 15), (20, 14), (20, 13)]);
}

#[test]
fn wall_ends_game_for_good() {
    let mut g = SnakeGame::new();
    for _ in 0..38 {
        g.update();
    }
    assert_eq!(g.segment(0), (50, 10));
    assert!(!g.is_over());
    g.update();
    assert!(g.is_over());
    assert_eq!(g.segment(0), (50, 10));
    let before = body(&g);
    g.input(Dir::Up);
    g.update();
    assert!(g.is_over());
    assert_eq!(body(&g), before);
}

#[test]
fn running_into_itself_ends_game() {
    let mut g = SnakeGame::new();
    // Eat the food to get four cells, then turn into the body.
    for _ in 0..8 {
        g.update();
    }
    g.input(Dir::Down);
    for _ in 0..5 {
        g.update();
    }
    assert_eq!(g.body_len(), 4);
    g.input(Dir::Left);
    g.update();
    g.input(Dir::Up);
    g.update();
    assert!(!g.is_over());
    g.input(Dir::Right);
    g.update();
    assert!(g.is_over());
}

#[test]
fn runner_steps_every_tenth_pass() {
    let mut r = SnakeRunner::new();
    assert!(r.frame());
    assert_eq!(r.game.segment(0), (13, 10));
    for _ in 1..10 {
        assert!(!r.frame());
        r.buttons(true, true, true, true, true);
    }
    assert_eq!(r.tick, 10);
    assert_eq!(r.game.segment(0), (13, 10));
    assert!(r.frame());
    assert_eq!(r.game.segment(0), (14, 10));
}

#[test]
fn runner_buttons() {
    let mut r = SnakeRunner::new();
    // Up and right pressed together: up is taken, then right, which comes
    // last; then up alone turns the snake.
    r.buttons(false, true, true, false, true);
    assert_eq!(r.game.direction(), Dir::Right);
    r.buttons(false, true, true, true, true);
    assert_eq!(r.game.direction(), Dir::Up);
    // Left then down: down is taken last.
    r.buttons(true, false, false, true, true);
    assert_eq!(r.game.direction(), Dir::Down);
    // Restart does nothing while the game runs.
    r.tick = 5;
    r.buttons(true, true, true, true, false);
    assert_eq!(r.tick, 5);
}

#[test]
fn runner_restarts_finished_game() {
    let mut r = SnakeRunner::new();
    while !r.game.is_over() {
        r.frame();
    }
    r.buttons(true, true, true, true, true);
    assert!(r.game.is_over());
    r.buttons(true, true, true, true, false);
    assert!(!r.game.is_over());
    assert_eq!(r.tick, 0);
    assert_eq!(r.game.segment(0), (12, 10));
}

#[test]
fn screen_of_running_game() {
    let g = SnakeGame::new();
    assert_eq!(
        g.draw(),
        vec![
            DrawOp::Clear,
            DrawOp::Text { x: 450, y: 0, text: ScreenText::Score(0) },
            DrawOp::Block { x: 400, y: 300, food: true },
            DrawOp::Block { x: 240, y: 200, food: false },
            DrawOp::Block { x: 220, y: 200, food: false },
            DrawOp::Block { x: 200, y: 200, food: false },
        ]
    );
}

#[test]
fn screen_of_finished_game() {
    let mut g = SnakeGame::new();
    for _ in 0..39 {
        g.update();
    }
    assert!(g.is_over());
    assert_eq!(
        g.draw(),
        vec![
            DrawOp::Clear,
            DrawOp::Text { x: 450, y: 0, text: ScreenText::Score(0) },
            DrawOp::Text { x: 450, y: 280, text: ScreenText::GameOver },
            DrawOp::Text { x: 410, y: 300, text: ScreenText::PressToRestart },
        ]
    );
}

#[test]
fn buttons_are_pulled_up() {
    let up = PullMode::PullUp;
    assert_eq!(SnakeRunner::button_pulls(), vec![(0, up), (1, up), (2, up), (3, up), (8, up)]);
}
