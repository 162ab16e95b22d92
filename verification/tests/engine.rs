use beautiful_tetris::ai::{AiAction, AiPlan};
use beautiful_tetris::board::{
    clear_lines_on_board, collides_on_board, landing_piece, lock_piece_on_board,
};
use beautiful_tetris::feedback::{
    input_sound_for, outcome_cue, snapshot, trail_step, Cue, InputSound, TrailStep,
};
use beautiful_tetris::features::{board_features, column_heights, count_holes, count_wells};
use beautiful_tetris::game::line_score;
use beautiful_tetris::rng::random_kind;
use beautiful_tetris::search::placements;
use beautiful_tetris::wav::wav_from_i16;
use beautiful_tetris::{shape_cells, Block, Board, Game, Kind, Piece, Rng, COLS};

fn empty_board() -> Board {
    [None; 200]
}

fn fill(board: &mut Board, x: usize, y: usize, kind: Kind) {
    board[y * COLS + x] = Some(Block { kind });
}

fn draw(state: &mut u64) -> Kind {
    *state = state
        .wrapping_mul(6_364_136_223_846_793_005)
        .wrapping_add(1_442_695_040_888_963_407);
    Kind::ALL[((*state >> 32) as u32 % 7) as usize]
}

#[test]
fn line_score_table() {
    assert_eq!(line_score(0), 0);
    assert_eq!(line_score(1), 100);
    assert_eq!(line_score(2), 300);
    assert_eq!(line_score(3), 500);
    assert_eq!(line_score(4), 800);
    assert_eq!(line_score(5), 0);
}

#[test]
fn shapes_match_the_rotation_table() {
    assert_eq!(shape_cells(Kind::T, 1), [(0, -1), (0, 0), (0, 1), (1, 0)]);
    assert_eq!(shape_cells(Kind::I, 3), [(0, -1), (0, 0), (0, 1), (0, 2)]);
    assert_eq!(shape_cells(Kind::L, 6), [(-1, 0), (0, 0), (1, 0), (-1, -1)]);
    assert_eq!(shape_cells(Kind::O, 2), [(0, 0), (1, 0), (0, 1), (1, 1)]);
}

#[test]
fn every_shape_has_four_distinct_cells() {
    for kind in Kind::ALL {
        for rotation in 0..4 {
            let cells = shape_cells(kind, rotation);
            for i in 0..4 {
                for j in 0..4 {
                    if i != j {
                        assert_ne!(cells[i], cells[j]);
                    }
                }
            }
        }
    }
}

#[test]
fn spawned_piece_and_its_cells() {
    let p = Piece::spawn(Kind::T);
    assert_eq!(p, Piece { kind: Kind::T, rotation: 0, x: 4, y: -1 });
    assert_eq!(p.cells(), [(3, -1), (4, -1), (5, -1), (4, 0)]);
}

#[test]
fn generator_draws_follow_the_recurrence() {
    let seed = 1234u64;
    let mut state = seed | 1;
    let mut rng = Rng::new(seed);
    for _ in 0..20 {
        assert_eq!(random_kind(&mut rng), draw(&mut state));
    }
}

#[test]
fn new_game_draws_current_then_queue() {
    let seed = 99u64;
    let game = Game::new(seed);
    let mut state = seed | 1;
    let first = draw(&mut state);
    assert_eq!(game.current(), Piece::spawn(first));
    for i in 0..5 {
        assert_eq!(game.next()[i], draw(&mut state));
    }
    assert_eq!(game.score(), 0);
    assert_eq!(game.lines(), 0);
    assert_eq!(game.pieces(), 0);
    assert_eq!(game.level(), 1);
    assert_eq!(game.hold(), None);
    assert!(game.can_hold());
    assert!(!game.is_paused());
    assert!(!game.is_game_over());
    assert!(game.board().iter().all(|c| c.is_none()));
}

#[test]
fn same_seed_same_game() {
    let mut a = Game::new(7);
    let mut b = Game::new(7);
    for _ in 0..10 {
        a.hard_drop();
        b.hard_drop();
    }
    assert_eq!(a.board(), b.board());
    assert_eq!(a.score(), b.score());
    assert_eq!(a.current(), b.current());
    assert_eq!(a.next(), b.next());
}

#[test]
fn reset_starts_over() {
    let mut game = Game::new(5);
    game.hard_drop();
    game.reset(11);
    let fresh = Game::new(11);
    assert_eq!(game.board(), fresh.board());
    assert_eq!(game.current(), fresh.current());
    assert_eq!(game.next(), fresh.next());
    assert_eq!(game.pieces(), 0);
}

#[test]
fn clearing_removes_full_rows_and_drops_the_rest() {
    let mut board = empty_board();
    for x in 0..10 {
        fill(&mut board, x, 19, Kind::I);
        fill(&mut board, x, 17, Kind::O);
    }
    fill(&mut board, 3, 18, Kind::T);
    fill(&mut board, 5, 16, Kind::S);
    let cleared = clear_lines_on_board(&mut board);
    assert_eq!(cleared, 2);
    let mut expected = empty_board();
    fill(&mut expected, 3, 19, Kind::T);
    fill(&mut expected, 5, 18, Kind::S);
    assert_eq!(board, expected);
    assert_eq!(clear_lines_on_board(&mut board), 0);
    assert_eq!(board, expected);
}

#[test]
fn collision_with_walls_floor_and_blocks() {
    let mut board = empty_board();
    let t = Piece { kind: Kind::T, rotation: 0, x: 4, y: 5 };
    assert!(!collides_on_board(&board, t));
    assert!(collides_on_board(&board, Piece { x: 0, ..t }));
    assert!(collides_on_board(&board, Piece { x: 9, ..t }));
    assert!(collides_on_board(&board, Piece { y: 19, ..t }));
    assert!(!collides_on_board(&board, Piece { y: -1, ..t }));
    fill(&mut board, 4, 6, Kind::Z);
    assert!(collides_on_board(&board, t));
}

#[test]
fn landing_and_locking() {
    let board = empty_board();
    let t = Piece::spawn(Kind::T);
    assert_eq!(landing_piece(&board, t), Some(Piece { y: 18, ..t }));
    let mut blocked = empty_board();
    fill(&mut blocked, 4, 0, Kind::J);
    assert_eq!(landing_piece(&blocked, t), None);

    assert_eq!(lock_piece_on_board(&board, t), None);
    let (next, cleared) = lock_piece_on_board(&board, Piece { y: 18, ..t }).unwrap();
    assert_eq!(cleared, 0);
    assert_eq!(next.iter().filter(|c| c.is_some()).count(), 4);
    assert_eq!(next[18 * COLS + 3], Some(Block { kind: Kind::T }));
    assert_eq!(next[19 * COLS + 4], Some(Block { kind: Kind::T }));
}

#[test]
fn locking_that_completes_a_row_clears_it() {
    let mut board = empty_board();
    for x in 0..10 {
        if x != 4 && x != 5 {
            fill(&mut board, x, 19, Kind::L);
        }
    }
    let o = Piece { kind: Kind::O, rotation: 0, x: 4, y: 18 };
    let (next, cleared) = lock_piece_on_board(&board, o).unwrap();
    assert_eq!(cleared, 1);
    let mut expected = empty_board();
    fill(&mut expected, 4, 19, Kind::O);
    fill(&mut expected, 5, 19, Kind::O);
    assert_eq!(next, expected);
}

#[test]
fn board_measurements() {
    let mut board = empty_board();
    fill(&mut board, 0, 15, Kind::I);
    fill(&mut board, 0, 18, Kind::I);
    fill(&mut board, 2, 19, Kind::I);
    fill(&mut board, 3, 2, Kind::I);
    let heights = column_heights(&board);
    assert_eq!(heights, [5, 0, 1, 18, 0, 0, 0, 0, 0, 0]);
    assert_eq!(count_holes(&board), 3 + 17);
    assert_eq!(count_wells(&heights), 1);
    assert_eq!(count_wells(&[0, 4, 0, 0, 9, 2, 2, 2, 2, 3]), 4);
    let f = board_features(&board);
    assert_eq!(f.aggregate_height, 24);
    assert_eq!(f.max_height, 18);
    assert_eq!(f.holes, 20);
    assert_eq!(f.bumpiness, 5 + 1 + 17 + 18);
    assert_eq!(f.wells, 1);
    assert_eq!(f.danger, 1);
}

#[test]
fn placements_on_an_empty_board() {
    let board = empty_board();
    let o = placements(&board, Kind::O, -1);
    assert_eq!(o.len(), 36);
    assert_eq!((o[0].rotation, o[0].x, o[0].cleared), (0, 0, 0));
    assert_eq!(o[0].board[18 * COLS], Some(Block { kind: Kind::O }));
    assert_eq!(o[0].board[19 * COLS + 1], Some(Block { kind: Kind::O }));
    assert_eq!((o[9].rotation, o[9].x), (1, 0));
    let i = placements(&board, Kind::I, -1);
    assert_eq!(i.len(), 7 + 10 + 7 + 10);
    assert_eq!((i[7].rotation, i[7].x), (1, 0));
    assert_eq!(i[7].board[17 * COLS], Some(Block { kind: Kind::I }));
}

#[test]
fn soft_drop_moves_down_for_a_point() {
    let mut game = Game::new(3);
    let before = game.current();
    game.soft_drop();
    assert_eq!(game.current(), Piece { y: before.y + 1, ..before });
    assert_eq!(game.score(), 1);
}

#[test]
fn hard_drop_scores_two_points_per_row() {
    let mut game = Game::new(4);
    let start = game.current();
    let ghost = game.ghost_piece();
    assert_eq!(ghost, Piece { y: ghost.y, ..start });
    game.hard_drop();
    assert_eq!(game.score(), 2 * (ghost.y - start.y) as u32);
    assert_eq!(game.pieces(), 1);
    assert!(game.can_hold());
    for (x, y) in ghost.cells() {
        assert!(game.block_at(x as usize, y as usize).is_some());
    }
}

#[test]
fn sideways_moves_undo_each_other() {
    let mut game = Game::new(8);
    let start = game.current();
    game.move_left();
    assert_eq!(game.current().x, start.x - 1);
    game.move_right();
    assert_eq!(game.current(), start);
}

#[test]
fn walls_stop_sideways_moves() {
    let mut game = Game::new(8);
    for _ in 0..15 {
        game.move_left();
    }
    let at_wall = game.current();
    game.move_left();
    assert_eq!(game.current(), at_wall);
    assert!(at_wall.cells().iter().any(|&(x, _)| x == 0));
}

#[test]
fn rotations_undo_each_other_in_open_space() {
    let mut game = Game::new(12);
    for _ in 0..5 {
        game.soft_drop();
    }
    let start = game.current();
    game.rotate_cw();
    assert_eq!(game.current().rotation, (start.rotation + 1) % 4);
    game.rotate_ccw();
    assert_eq!(game.current(), start);
}

#[test]
fn pausing_freezes_the_game() {
    let mut game = Game::new(9);
    let start = game.current();
    game.toggle_pause();
    assert!(game.is_paused());
    game.move_left();
    game.soft_drop();
    game.hard_drop();
    game.gravity_step();
    game.rotate_cw();
    game.hold_piece();
    assert_eq!(game.current(), start);
    assert_eq!(game.pieces(), 0);
    assert_eq!(game.hold(), None);
    assert_eq!(game.ai_action(Some(AiPlan { use_hold: false, target_x: 0, target_rotation: 0 })), None);
    game.toggle_pause();
    assert!(!game.is_paused());
}

#[test]
fn hold_swaps_with_the_held_kind() {
    let mut game = Game::new(21);
    let first = game.current().kind;
    let queued = game.next()[0];
    assert_eq!(game.hold_preview(), Some((game.next()[0], game.next()[1])));
    game.hold_piece();
    assert_eq!(game.hold(), Some(first));
    assert_eq!(game.current(), Piece::spawn(queued));
    assert!(!game.can_hold());
    assert_eq!(game.hold_preview(), None);
    game.hard_drop();
    assert!(game.can_hold());
    let falling = game.current().kind;
    assert_eq!(game.hold_preview(), Some((first, game.next()[0])));
    game.hold_piece();
    assert_eq!(game.current(), Piece::spawn(first));
    assert_eq!(game.hold(), Some(falling));
}

#[test]
fn gravity_moves_down_then_locks() {
    let mut game = Game::new(13);
    let ghost = game.ghost_piece();
    while game.pieces() == 0 {
        game.gravity_step();
    }
    assert_eq!(game.score(), 0);
    for (x, y) in ghost.cells() {
        assert!(game.block_at(x as usize, y as usize).is_some());
    }
}

#[test]
fn active_cells_are_the_falling_piece() {
    let mut game = Game::new(14);
    game.soft_drop();
    game.soft_drop();
    let cells = game.current().cells();
    for y in 0..20 {
        for x in 0..10 {
            let expected = cells.iter().any(|&(cx, cy)| cx == x as i32 && cy == y as i32);
            assert_eq!(game.active_at(x, y), expected);
        }
    }
}

#[test]
fn stacking_in_one_column_ends_the_game_and_freezes_it() {
    let mut game = Game::new(15);
    let mut drops = 0;
    while !game.is_game_over() && drops < 100 {
        game.hard_drop();
        drops += 1;
    }
    assert!(game.is_game_over());
    let board = *game.board();
    let current = game.current();
    let score = game.score();
    game.move_left();
    game.rotate_cw();
    game.hold_piece();
    game.soft_drop();
    game.hard_drop();
    game.gravity_step();
    game.toggle_pause();
    assert!(!game.is_paused());
    assert_eq!(*game.board(), board);
    assert_eq!(game.current(), current);
    assert_eq!(game.score(), score);
    assert_eq!(game.ai_action(Some(AiPlan { use_hold: false, target_x: 0, target_rotation: 0 })), None);
}

#[test]
fn bot_actions_toward_a_plan() {
    let game = Game::new(16);
    let x = game.current().x;
    let plan = |use_hold: bool, target_x: i32, target_rotation: usize| {
        Some(AiPlan { use_hold, target_x, target_rotation })
    };
    assert_eq!(game.ai_action(None), None);
    assert_eq!(game.ai_action(plan(true, x, 0)), Some(AiAction::Hold));
    assert_eq!(game.ai_action(plan(false, x, 1)), Some(AiAction::RotateCw));
    assert_eq!(game.ai_action(plan(false, x, 2)), Some(AiAction::RotateCw));
    assert_eq!(game.ai_action(plan(false, x, 3)), Some(AiAction::RotateCcw));
    assert_eq!(game.ai_action(plan(false, x, 4)), Some(AiAction::HardDrop));
    assert_eq!(game.ai_action(plan(false, x + 2, 0)), Some(AiAction::MoveRight));
    assert_eq!(game.ai_action(plan(false, x - 2, 0)), Some(AiAction::MoveLeft));
}

#[test]
fn wave_file_layout() {
    let samples = [0i16, -1, 258, i16::MIN];
    let bytes = wav_from_i16(&samples, 44_100);
    let mut expected: Vec<u8> = Vec::new();
    expected.extend_from_slice(b"RIFF");
    expected.extend_from_slice(&(36u32 + 8).to_le_bytes());
    expected.extend_from_slice(b"WAVEfmt ");
    expected.extend_from_slice(&16u32.to_le_bytes());
    expected.extend_from_slice(&1u16.to_le_bytes());
    expected.extend_from_slice(&1u16.to_le_bytes());
    expected.extend_from_slice(&44_100u32.to_le_bytes());
    expected.extend_from_slice(&88_200u32.to_le_bytes());
    expected.extend_from_slice(&2u16.to_le_bytes());
    expected.extend_from_slice(&16u16.to_le_bytes());
    expected.extend_from_slice(b"data");
    expected.extend_from_slice(&8u32.to_le_bytes());
    for s in samples {
        expected.extend_from_slice(&s.to_le_bytes());
    }
    assert_eq!(bytes.len(), 44 + 8);
    assert_eq!(bytes, expected);
    assert_eq!(&bytes[44..], &[0, 0, 0xff, 0xff, 2, 1, 0, 0x80]);
}

#[test]
fn sounds_follow_the_change_of_state() {
    let mut game = Game::new(17);
    let start = snapshot(&game);
    assert_eq!(input_sound_for(AiAction::MoveLeft), Some(InputSound::Move));
    assert_eq!(input_sound_for(AiAction::RotateCcw), Some(InputSound::Rotate));
    assert_eq!(input_sound_for(AiAction::HardDrop), Some(InputSound::Lock));
    assert_eq!(input_sound_for(AiAction::Hold), Some(InputSound::Hold));
    assert_eq!(outcome_cue(start, start, Some(InputSound::Move)), None);
    game.move_left();
    let moved = snapshot(&game);
    assert_eq!(outcome_cue(start, moved, Some(InputSound::Move)), Some(Cue::Move));
    assert_eq!(outcome_cue(start, moved, Some(InputSound::Rotate)), Some(Cue::Rotate));
    assert_eq!(outcome_cue(start, moved, Some(InputSound::Hold)), None);
    assert_eq!(outcome_cue(start, moved, Some(InputSound::Lock)), None);
    game.hard_drop();
    let locked = snapshot(&game);
    assert_eq!(outcome_cue(moved, locked, Some(InputSound::Lock)), Some(Cue::Lock));
    let cleared = beautiful_tetris::feedback::Snapshot { lines: locked.lines + 1, ..locked };
    assert_eq!(outcome_cue(locked, cleared, None), Some(Cue::Clear));
    let over = beautiful_tetris::feedback::Snapshot { game_over: true, ..cleared };
    assert_eq!(outcome_cue(locked, over, None), Some(Cue::GameOver));
    game.hold_piece();
    assert_eq!(outcome_cue(locked, snapshot(&game), Some(InputSound::Hold)), Some(Cue::Hold));
}

#[test]
fn trail_steps() {
    let p = Piece { kind: Kind::S, rotation: 0, x: 4, y: 10 };
    assert_eq!(trail_step(false, 3, p, p, 3), TrailStep::Keep);
    assert_eq!(trail_step(false, 3, Piece { y: 11, ..p }, p, 3), TrailStep::Record);
    assert_eq!(trail_step(false, 3, Piece { y: 7, ..p }, p, 3), TrailStep::Record);
    assert_eq!(trail_step(false, 3, Piece { y: 6, ..p }, p, 3), TrailStep::Reset);
    assert_eq!(trail_step(false, 4, p, p, 3), TrailStep::Reset);
    assert_eq!(trail_step(true, 3, p, p, 3), TrailStep::Reset);
    assert_eq!(trail_step(false, 3, Piece { kind: Kind::Z, ..p }, p, 3), TrailStep::Reset);
}
