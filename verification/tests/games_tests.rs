use kanitomo::games::breakout::{BreakoutGame, Brick, HitSide};
use kanitomo::games::crab_catch::{CrabCatchGame, CrabFacing};
use kanitomo::games::game_2048::{slide_line, Game2048, Game2048Move};
use kanitomo::games::snake::{Direction, SnakeGame};
use kanitomo::games::tetris::{
    blocks_for_piece, get_i_kicks, get_jlstz_kicks, Piece, PieceType, RotationState, TetrisGame, TetrisMode,
};
use kanitomo::games::vsrg::{points_for, vsrg_lane_count, VsrgGame, VsrgJudgment};
use std::collections::VecDeque;

#[test]
fn slide_merges_pairs_once() {
    assert_eq!(slide_line([2, 2, 2, 2]), ([4, 4, 0, 0], true, 8));
    assert_eq!(slide_line([0, 2, 0, 2]), ([4, 0, 0, 0], true, 4));
    assert_eq!(slide_line([4, 0, 0, 0]), ([4, 0, 0, 0], false, 0));
    assert_eq!(slide_line([2, 4, 8, 16]), ([2, 4, 8, 16], false, 0));
    assert_eq!(slide_line([0, 0, 0, 8]), ([8, 0, 0, 0], true, 0));
    assert_eq!(slide_line([4, 4, 8, 0]), ([8, 8, 0, 0], true, 8));
}

#[test]
fn a_2048_move_on_a_set_board() {
    let mut g = Game2048::new();
    g.board = [[2, 2, 0, 0], [0, 0, 0, 0], [4, 0, 4, 0], [0, 0, 0, 0]];
    g.score = 0;
    g.game_over = false;
    assert!(g.make_move(Game2048Move::Left));
    assert_eq!(g.score, 12);
    assert_eq!(g.board[0][0], 4);
    assert_eq!(g.board[2][0], 8);
    let tiles: usize = g.board.iter().flatten().filter(|&&t| t != 0).count();
    assert_eq!(tiles, 3);
    assert_eq!(g.max_tile(), 8);
}

#[test]
fn a_blocked_2048_board_is_over() {
    let mut g = Game2048::new();
    g.board = [[2, 4, 2, 4], [4, 2, 4, 2], [2, 4, 2, 4], [4, 2, 4, 2]];
    g.game_over = false;
    assert!(!g.make_move(Game2048Move::Left));
    g.reset();
    assert_eq!(g.score, 0);
    assert!(!g.is_finished());
    let tiles: usize = g.board.iter().flatten().filter(|&&t| t != 0).count();
    assert_eq!(tiles, 2);
}

#[test]
fn tetris_pieces_and_kicks() {
    assert_eq!(PieceType::all().len(), 7);
    assert_eq!(RotationState::from_u8(5), RotationState::from_u8(1));
    assert_eq!(RotationState::from_u8(3).to_u8(), 3);
    assert_eq!(blocks_for_piece(PieceType::I, RotationState::from_u8(0)), vec![(0, 1), (1, 1), (2, 1), (3, 1)]);
    assert_eq!(blocks_for_piece(PieceType::O, RotationState::from_u8(2)).len(), 4);
    let p = Piece::new(PieceType::T);
    assert_eq!(p.blocks().len(), 4);
    assert_eq!(get_jlstz_kicks(RotationState::from_u8(0), RotationState::from_u8(1))[0], (0, 0));
    assert_eq!(get_i_kicks(RotationState::from_u8(0), RotationState::from_u8(1))[1], (-2, 0));
    assert_eq!(TetrisMode::Sprint.name(), "Sprint");
}

#[test]
fn tetris_new_games() {
    let g = TetrisGame::new(TetrisMode::Sprint);
    assert_eq!(g.target_lines, 40);
    assert_eq!(g.level, 0);
    assert!(g.current_piece.is_some());
    let s = TetrisGame::new(TetrisMode::Survival);
    assert_eq!(s.level, 5);
    let d = TetrisGame::new(TetrisMode::Dig);
    let filled_rows = d.grid.iter().filter(|r| r.iter().any(|c| c.is_some())).count();
    assert_eq!(filled_rows, 10);
    for row in d.grid.iter().skip(10) {
        assert_eq!(row.iter().filter(|c| c.is_none()).count(), 1);
    }
}

#[test]
fn tetris_hard_drop_lands_at_the_ghost() {
    let mut g = TetrisGame::new(TetrisMode::Zen);
    let ghost = g.get_ghost_position().unwrap();
    let before = g.grid.iter().flatten().filter(|c| c.is_some()).count();
    g.hard_drop();
    let after = g.grid.iter().flatten().filter(|c| c.is_some()).count();
    assert_eq!(after, before + 4);
    for (x, y) in ghost {
        assert!(g.grid[y as usize][x as usize].is_some());
    }
    assert_eq!(g.score, 0);
}

#[test]
fn tetris_piece_moves_and_holds() {
    let mut g = TetrisGame::new(TetrisMode::Normal);
    let x0 = g.current_piece.unwrap().x;
    assert!(g.move_piece(-1, 0));
    assert_eq!(g.current_piece.unwrap().x, x0 - 1);
    let first = g.current_piece.unwrap().piece_type;
    g.hold();
    assert_eq!(g.hold_piece, Some(first));
    assert!(!g.can_hold);
    g.hold();
    assert_eq!(g.hold_piece, Some(first));
    for _ in 0..30 {
        g.move_piece(-1, 0);
    }
    let blocks = g.current_piece.unwrap().blocks();
    assert!(blocks.iter().all(|&(x, _)| x >= 0));
    assert!(!g.is_finished());
}

#[test]
fn snake_directions() {
    assert!(Direction::Up.is_opposite(&Direction::Down));
    assert!(!Direction::Up.is_opposite(&Direction::Left));
    assert_eq!(Direction::Left.delta(), (-1, 0));
    assert_eq!(Direction::Down.delta(), (0, 1));
}

#[test]
fn snake_starts_in_the_middle() {
    let g = SnakeGame::new((80, 24));
    assert_eq!(g.bounds, (32, 16));
    assert_eq!(g.snake, VecDeque::from(vec![(16, 8), (15, 8), (14, 8)]));
    assert!(!g.snake.contains(&g.food));
    assert!(g.food.0 >= 0 && g.food.0 < 32 && g.food.1 >= 0 && g.food.1 < 16);
    let small = SnakeGame::new((5, 3));
    assert_eq!(small.bounds, (10, 6));
}

#[test]
fn snake_moves_turns_and_dies_at_a_wall() {
    let mut g = SnakeGame::new((80, 24));
    g.food = (0, 0);
    g.set_direction(Direction::Left);
    assert_eq!(g.next_direction, Direction::Right);
    g.set_direction(Direction::Up);
    g.move_snake();
    assert_eq!(g.direction, Direction::Up);
    assert_eq!(g.snake, VecDeque::from(vec![(16, 7), (16, 8), (15, 8)]));
    assert!(!g.game_over);
    g.snake = VecDeque::from(vec![(16, 0), (16, 1), (16, 2)]);
    g.move_snake();
    assert!(g.game_over);
    assert_eq!(g.snake, VecDeque::from(vec![(16, 0), (16, 1), (16, 2)]));
    assert_eq!(g.score, 0);
}

#[test]
fn snake_running_off_the_right_edge_ends_the_game() {
    let mut g = SnakeGame::new((80, 24));
    g.food = (0, 0);
    g.snake = VecDeque::from(vec![(31, 4), (30, 4), (29, 4)]);
    g.move_snake();
    assert!(g.game_over);
    assert_eq!(g.snake[0], (31, 4));
}

#[test]
fn snake_eats_and_grows() {
    let mut g = SnakeGame::new((80, 24));
    g.food = (17, 8);
    g.move_snake();
    assert_eq!(g.score, 1);
    assert_eq!(g.snake.len(), 4);
    assert_eq!(g.snake[0], (17, 8));
    assert!(!g.snake.contains(&g.food));
}

#[test]
fn snake_biting_itself_ends_the_game() {
    let mut g = SnakeGame::new((80, 24));
    g.food = (0, 0);
    g.snake = VecDeque::from(vec![(5, 5), (6, 5), (6, 6), (5, 6), (4, 6)]);
    g.score = 2;
    g.direction = Direction::Left;
    g.next_direction = Direction::Down;
    g.move_snake();
    assert!(g.game_over);
    assert!(g.is_finished());
    assert_eq!(g.snake.len(), 5);
}

#[test]
fn snake_resize_pulls_segments_in() {
    let mut g = SnakeGame::new((80, 24));
    g.food = (30, 14);
    g.update_bounds((20, 12));
    assert_eq!(g.bounds, (16, 10));
    assert_eq!(g.snake, VecDeque::from(vec![(15, 8), (15, 8), (14, 8)]));
    assert!(g.food.0 < 16 && g.food.1 < 10);
}

#[test]
fn breakout_wall_layout() {
    let g = BreakoutGame::new((80, 24));
    assert_eq!(g.bounds, (40, 20));
    assert_eq!(g.lives, 3);
    assert_eq!(g.bricks.len(), 45);
    assert_eq!(g.total_bricks, 45);
    assert_eq!(g.bricks[0], Brick { x: 2, y: 2, width: 3, points: 50 });
    assert_eq!(g.bricks[9], Brick { x: 2, y: 3, width: 3, points: 40 });
    assert_eq!(g.bricks[44], Brick { x: 34, y: 6, width: 3, points: 10 });
    let small = BreakoutGame::new((10, 10));
    assert_eq!(small.bounds, (20, 12));
    assert_eq!(small.bricks.len(), 16);
}

#[test]
fn breakout_hits_score_and_bounce() {
    let mut g = BreakoutGame::new((80, 24));
    assert_eq!(g.check_brick_collisions(20, 15), None);
    let hit = g.check_brick_collisions(3, 1).unwrap();
    assert_eq!(hit.side, HitSide::Vertical);
    assert!(!hit.speed_up);
    assert_eq!(g.score, 50);
    assert_eq!(g.bricks.len(), 44);
    let side = g.check_brick_collisions(6, 1).unwrap();
    assert_eq!(side.side, HitSide::Horizontal);
    assert_eq!(g.score, 100);
}

#[test]
fn breakout_every_fifth_brick_speeds_up() {
    let mut g = BreakoutGame::new((80, 24));
    let mut speed_ups = 0;
    for _ in 0..10 {
        let b = g.bricks[0];
        let hit = g.check_brick_collisions(b.x as i32 + 1, b.y as i32).unwrap();
        if hit.speed_up {
            speed_ups += 1;
        }
    }
    assert_eq!(speed_ups, 2);
    while !g.bricks.is_empty() {
        let b = g.bricks[0];
        g.check_brick_collisions(b.x as i32 + 1, b.y as i32);
    }
    assert!(g.victory);
    assert!(g.is_finished());
}

#[test]
fn breakout_lives_and_launch() {
    let mut g = BreakoutGame::new((80, 24));
    assert!(g.launch_ball());
    assert!(!g.launch_ball());
    assert!(g.lose_life());
    assert!(!g.ball_launched);
    assert!(g.lose_life());
    assert!(!g.lose_life());
    assert!(g.game_over);
    assert_eq!(g.lives, 0);
    assert!(!g.launch_ball());
}

#[test]
fn breakout_shrinking_rebuilds_the_wall() {
    let mut g = BreakoutGame::new((80, 24));
    g.update_bounds((40, 24));
    assert_eq!(g.bounds, (36, 20));
    assert_eq!(g.bricks.len(), 40);
    assert!(g.bricks.iter().all(|b| b.x + b.width <= 36));
    g.update_bounds((44, 24));
    assert_eq!(g.bricks.len(), 40);
}

#[test]
fn crab_catch_moves_and_catches() {
    let mut g = CrabCatchGame::new((80, 24));
    assert_eq!(g.bounds, (32, 24));
    assert_eq!(g.crab_x, 12);
    assert_eq!(g.move_step, 4);
    assert_eq!(g.crab_sprite(false), ">('_')<");
    g.move_crab(1);
    assert_eq!(g.crab_x, 16);
    assert_eq!(g.facing, CrabFacing::Right);
    assert_eq!(g.crab_sprite(true), "(<^_^)<");
    for _ in 0..10 {
        g.move_crab(1);
    }
    assert_eq!(g.crab_x, 25);
    g.move_crab(-1);
    assert_eq!(g.facing, CrabFacing::Left);
    assert_eq!(g.crab_sprite(false), ">('_'>)");
    assert!(g.catch_food(21));
    assert!(g.catch_food(27));
    assert!(!g.catch_food(28));
    assert_eq!(g.score, 2);
    assert_eq!(g.misses, 1);
}

#[test]
fn crab_catch_step_is_a_seventh_of_the_travel() {
    for width in 0u16..200 {
        let g = CrabCatchGame::new((width, 20));
        let travel = g.bounds.0.saturating_sub(7).max(1);
        let expected = ((travel as f32 / 7.0).ceil().max(1.0)) as i32;
        assert_eq!(g.move_step, expected);
    }
    let mut g = CrabCatchGame::new((80, 24));
    g.crab_x = 25;
    g.update_bounds((12, 24));
    assert_eq!(g.bounds, (10, 24));
    assert_eq!(g.crab_x, 3);
    assert_eq!(g.move_step, 1);
}

#[test]
fn rhythm_game_scoring() {
    assert_eq!(vsrg_lane_count(), 4);
    assert_eq!(points_for(VsrgJudgment::Perfect), 300);
    assert_eq!(points_for(VsrgJudgment::Okay), 100);
    let mut g = VsrgGame::new((80, 24));
    g.register_hit(VsrgJudgment::Perfect, 2);
    assert_eq!(g.combo, 1);
    assert_eq!(g.score, 300 + 2 + 2);
    g.register_hit(VsrgJudgment::Great, 2);
    assert_eq!(g.score, 304 + 200 + 4 + 2);
    assert_eq!(g.max_combo, 2);
    g.register_miss(3);
    assert_eq!(g.combo, 0);
    assert_eq!(g.total_judged, 5);
    assert_eq!(g.total_points, 500);
    assert_eq!(g.max_combo, 2);
    g.score = u32::MAX - 10;
    g.register_hit(VsrgJudgment::Okay, 2);
    assert_eq!(g.score, u32::MAX);
    g.update_bounds((100, 30));
    assert_eq!(g.bounds, (100, 30));
}

#[test]
fn tetris_bag_holds_each_piece_once() {
    for _ in 0..10 {
        let g = TetrisGame::new(TetrisMode::Normal);
        let mut pieces: Vec<PieceType> = g.bag.clone();
        pieces.push(g.next_piece);
        pieces.push(g.current_piece.unwrap().piece_type);
        for p in PieceType::all() {
            assert_eq!(pieces.iter().filter(|&&q| q == p).count(), 1);
        }
    }
}

#[test]
fn four_turns_bring_a_piece_back() {
    let mut g = TetrisGame::new(TetrisMode::Zen);
    g.move_piece(0, 5);
    let before = g.current_piece.unwrap();
    for _ in 0..4 {
        g.rotate_piece_cw();
    }
    let after = g.current_piece.unwrap();
    assert_eq!(after.rotation, before.rotation);
    assert_eq!(after.blocks(), before.blocks());
}

#[test]
fn sliding_keeps_the_tile_sum() {
    for line in [[2u32, 2, 4, 4], [0, 8, 8, 8], [16, 0, 0, 16], [2, 4, 2, 4]] {
        let (next, _, gained) = slide_line(line);
        assert_eq!(next.iter().sum::<u32>(), line.iter().sum::<u32>());
        let packed = next.iter().position(|&t| t == 0).unwrap_or(4);
        assert!(next[packed..].iter().all(|&t| t == 0));
        let merged_pairs: u32 = gained;
        assert!(merged_pairs <= line.iter().sum::<u32>());
    }
}

#[test]
fn bags_come_shuffled() {
    let mut firsts = Vec::new();
    for _ in 0..60 {
        let g = TetrisGame::new(TetrisMode::Zen);
        let p = g.current_piece.unwrap().piece_type;
        if !firsts.contains(&p) {
            firsts.push(p);
        }
    }
    assert!(firsts.len() >= 2);
}

#[test]
fn breakout_points_move_from_bricks_to_score() {
    let mut g = BreakoutGame::new((80, 24));
    let total: u32 = g.bricks.iter().map(|b| b.points).sum();
    assert_eq!(total, 9 * (50 + 40 + 30 + 20 + 10));
    for (x, y) in [(3, 1), (20, 4), (6, 2), (39, 7), (0, 0)] {
        g.check_brick_collisions(x, y);
        let left: u32 = g.bricks.iter().map(|b| b.points).sum();
        assert_eq!(g.score + left, total);
    }
}

#[test]
fn tetris_line_clears_score_by_count() {
    let mut g = TetrisGame::new(TetrisMode::Zen);
    for x in 0..10 {
        if !(3..=6).contains(&x) {
            g.grid[19][x] = Some(PieceType::L);
        }
    }
    g.current_piece = Some(Piece::new(PieceType::I));
    g.hard_drop();
    assert_eq!(g.lines_cleared, 1);
    assert_eq!(g.score, 100);
    assert!(g.grid[19].iter().all(|c| c.is_none()));

    let mut g = TetrisGame::new(TetrisMode::Zen);
    for y in 16..20 {
        for x in 1..10 {
            g.grid[y][x] = Some(PieceType::L);
        }
    }
    g.current_piece = Some(Piece { piece_type: PieceType::I, x: -2, y: 0, rotation: RotationState::from_u8(1) });
    g.hard_drop();
    assert_eq!(g.lines_cleared, 4);
    assert_eq!(g.score, 800);
    assert!(g.grid.iter().flatten().all(|c| c.is_none()));
}

#[test]
fn tetris_normal_levels_every_ten_lines() {
    let mut g = TetrisGame::new(TetrisMode::Normal);
    g.lines_cleared = 8;
    for y in 18..20 {
        for x in 1..10 {
            g.grid[y][x] = Some(PieceType::L);
        }
    }
    g.current_piece = Some(Piece { piece_type: PieceType::I, x: -2, y: 0, rotation: RotationState::from_u8(1) });
    g.hard_drop();
    assert_eq!(g.lines_cleared, 10);
    assert_eq!(g.level, 1);
    assert_eq!(g.score, 300);
}

/// A T resting at the bottom in spawn orientation, turned into place, with
/// row 19 full apart from its three cells.
fn t_slot(front_left: bool, front_right: bool) -> TetrisGame {
    let mut g = TetrisGame::new(TetrisMode::Zen);
    for x in 0..10 {
        if !(3..=5).contains(&x) {
            g.grid[19][x] = Some(PieceType::L);
        }
    }
    if front_left {
        g.grid[18][3] = Some(PieceType::L);
    }
    if front_right {
        g.grid[18][5] = Some(PieceType::L);
    }
    g.current_piece = Some(Piece { piece_type: PieceType::T, x: 3, y: 18, rotation: RotationState::Zero });
    g.last_action_was_rotation = true;
    g.last_kick_index = 0;
    g
}

#[test]
fn tetris_t_spin_score_replaces_the_line_score() {
    let mut g = t_slot(true, true);
    g.hard_drop();
    assert_eq!(g.lines_cleared, 1);
    assert_eq!(g.score, 800);

    let mut g = t_slot(true, false);
    g.hard_drop();
    assert_eq!(g.lines_cleared, 1);
    assert_eq!(g.score, 200);

    let mut g = t_slot(true, true);
    g.level = 2;
    g.hard_drop();
    assert_eq!(g.score, 800 * 3);

    let mut g = t_slot(true, true);
    g.last_action_was_rotation = false;
    g.hard_drop();
    assert_eq!(g.score, 100);
}

#[test]
fn tetris_shapes_draw_the_spawn_cells() {
    for t in PieceType::all() {
        let shape = t.shape();
        let blocks = blocks_for_piece(t, RotationState::Zero);
        let mut drawn = Vec::new();
        for (r, row) in shape.iter().enumerate() {
            for (c, &set) in row.iter().enumerate() {
                if set {
                    drawn.push((c as i32, r as i32));
                }
            }
        }
        let mut spawn = blocks.clone();
        spawn.sort();
        drawn.sort();
        assert_eq!(drawn, spawn);
    }
}

#[test]
fn moves_and_locks_are_checked_against_the_limits() {
    let mut g = Game2048::new();
    g.board = [[2, 2, 4, 4], [0; 4], [0; 4], [0; 4]];
    assert!(g.move_fits(Game2048Move::Left));
    g.board = [[0x8000_0000, 0x8000_0000, 0, 0], [0; 4], [0; 4], [0; 4]];
    assert!(!g.move_fits(Game2048Move::Left));
    assert!(g.move_fits(Game2048Move::Up));
    let big = [0x7000_0000u32; 4];
    g.board = [big, [0; 4], [0; 4], [0; 4]];
    assert!(g.move_fits(Game2048Move::Left));
    g.board = [big, big, [0; 4], [0; 4]];
    assert!(!g.move_fits(Game2048Move::Left));
    g.board = [[0x4000_0000, 0x4000_0000, 0, 0], [0; 4], [0; 4], [0; 4]];
    assert!(g.move_fits(Game2048Move::Right));

    let mut t = t_slot(true, true);
    assert!(t.drop_fits());
    assert!(t.lock_fits_now());
    t.score = u32::MAX - 700;
    assert!(!t.drop_fits());
    assert!(!t.lock_fits_now());
    t.score = u32::MAX - 800;
    assert!(t.drop_fits());
    t.current_piece = Some(Piece::new(PieceType::O));
    t.score = u32::MAX;
    assert!(t.drop_fits());
}

#[test]
fn every_orientation_covers_four_cells() {
    for t in PieceType::all() {
        for r in 0..4u8 {
            let p = Piece { piece_type: t, x: 2, y: 5, rotation: RotationState::from_u8(r) };
            let mut b = p.blocks();
            b.sort();
            b.dedup();
            assert_eq!(b.len(), 4);
        }
    }
}

#[test]
fn a_refused_hold_changes_nothing() {
    let mut g = TetrisGame::new(TetrisMode::Zen);
    g.hold();
    g.last_kick_index = 4;
    g.last_action_was_rotation = true;
    let piece = g.current_piece;
    g.hold();
    assert_eq!(g.current_piece, piece);
    assert_eq!(g.last_kick_index, 4);
    assert!(g.last_action_was_rotation);
}
