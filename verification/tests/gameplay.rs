use beautiful_tetris::ai::{AiAction, AiPlan};
use beautiful_tetris::features::board_features;
use beautiful_tetris::search::placements;
use beautiful_tetris::{shape_cells, Board, Game, Kind};

#[test]
fn every_piece_has_four_cells() {
    for kind in Kind::ALL {
        for rotation in 0..4 {
            assert_eq!(shape_cells(kind, rotation).len(), 4);
        }
    }
}

#[test]
fn hard_drop_locks_a_piece() {
    let mut game = Game::new(1);
    game.hard_drop();

    assert_eq!(game.pieces(), 1);
    assert!(game.board().iter().filter(|cell| cell.is_some()).count() >= 4);
}

#[test]
fn hold_can_only_be_used_once_per_piece() {
    let mut game = Game::new(2);
    let first = game.current().kind;
    game.hold_piece();
    assert_eq!(game.hold(), Some(first));
    let after_first_hold = game.current().kind;
    game.hold_piece();
    assert_eq!(game.current().kind, after_first_hold);
}

#[test]
fn ghost_is_never_above_current_piece() {
    let game = Game::new(3);
    assert!(game.ghost_piece().y >= game.current().y);
}

// The placement search weighs the integer board measurements with floating
// point weights; the weighting is done here, as the game program does it.
fn evaluate_board(board: &Board, cleared: u32) -> f32 {
    let f = board_features(board);
    cleared as f32 * 12.5
        - f.aggregate_height as f32 * 0.48
        - f.holes as f32 * 7.2
        - f.bumpiness as f32 * 0.38
        - f.wells as f32 * 0.18
        - f.max_height as f32 * 0.92
        - f.danger as f32 * 3.5
}

fn best_score_for_kind(board: &Board, kind: Kind) -> Option<f32> {
    let mut best: Option<f32> = None;
    for p in placements(board, kind, -1) {
        let score = evaluate_board(&p.board, p.cleared);
        if best.is_none_or(|current| score > current) {
            best = Some(score);
        }
    }
    best
}

fn best_plan_for_kind(
    board: &Board,
    kind: Kind,
    start_y: i32,
    lookahead: Kind,
    use_hold: bool,
) -> Option<(AiPlan, f32)> {
    let mut best: Option<(AiPlan, f32)> = None;
    for p in placements(board, kind, start_y) {
        let board_score = evaluate_board(&p.board, p.cleared);
        let lookahead_score = best_score_for_kind(&p.board, lookahead).unwrap_or(-500.0);
        let score = board_score + lookahead_score * 0.46 - if use_hold { 0.08 } else { 0.0 };
        let candidate = AiPlan { use_hold, target_x: p.x, target_rotation: p.rotation };
        if best.is_none_or(|(_, s)| score > s) {
            best = Some((candidate, score));
        }
    }
    best
}

fn ai_plan(game: &Game) -> Option<AiPlan> {
    let current = game.current();
    let mut best = best_plan_for_kind(game.board(), current.kind, current.y, game.next()[0], false);
    if let Some((kind, next_after)) = game.hold_preview() {
        if let Some(plan) = best_plan_for_kind(game.board(), kind, -1, next_after, true) {
            if best.is_none_or(|(_, s)| plan.1 > s + 0.35) {
                best = Some(plan);
            }
        }
    }
    best.map(|(plan, _)| plan)
}

fn apply_ai_action(game: &mut Game, action: AiAction) {
    match action {
        AiAction::MoveLeft => game.move_left(),
        AiAction::MoveRight => game.move_right(),
        AiAction::SoftDrop => game.soft_drop(),
        AiAction::RotateCw => game.rotate_cw(),
        AiAction::RotateCcw => game.rotate_ccw(),
        AiAction::HardDrop => game.hard_drop(),
        AiAction::Hold => game.hold_piece(),
    }
}

#[test]
fn ai_can_autoplay_a_short_game() {
    let mut game = Game::new(42);
    let mut steps = 0;

    while game.pieces() < 40 && !game.is_game_over() && steps < 2_000 {
        if let Some(action) = game.ai_action(ai_plan(&game)) {
            apply_ai_action(&mut game, action);
        } else {
            game.gravity_step();
        }
        steps += 1;
    }

    assert!(!game.is_game_over());
    assert!(game.pieces() >= 40);
}

#[test]
fn board_books_balance_during_autoplay() {
    let mut game = Game::new(42);
    let mut steps = 0;
    while game.pieces() < 60 && !game.is_game_over() && steps < 3_000 {
        let (lines, pieces, score) = (game.lines(), game.pieces(), game.score());
        if let Some(action) = game.ai_action(ai_plan(&game)) {
            apply_ai_action(&mut game, action);
        } else {
            game.gravity_step();
        }
        assert!(!(game.is_paused() && game.is_game_over()));
        assert!(lines <= game.lines() && game.lines() <= lines + 4);
        assert!(pieces <= game.pieces() && game.pieces() <= pieces + 1);
        assert!(score <= game.score());
        if !game.is_game_over() {
            let blocks = game.board().iter().filter(|c| c.is_some()).count() as u32;
            assert_eq!(blocks, 4 * game.pieces() - 10 * game.lines());
            for y in 0..20 {
                assert!((0..10).any(|x| game.block_at(x, y).is_none()));
            }
        }
        steps += 1;
    }
    assert!(game.lines() > 0);
}

#[test]
fn soft_drop_is_a_gravity_step_and_a_point() {
    let mut a = Game::new(31);
    for _ in 0..60 {
        let mut b = a.clone();
        let moves = a.current() != a.ghost_piece();
        a.soft_drop();
        b.gravity_step();
        assert_eq!(a.board(), b.board());
        assert_eq!(a.current(), b.current());
        assert_eq!(a.next(), b.next());
        assert_eq!(a.pieces(), b.pieces());
        assert_eq!(a.lines(), b.lines());
        assert_eq!(a.can_hold(), b.can_hold());
        assert_eq!(a.score(), b.score() + if moves { 1 } else { 0 });
    }
}
