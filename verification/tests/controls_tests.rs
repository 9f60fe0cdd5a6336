use kanitomo::controls::{
    game_command, game_from_name, handle_key, menu_action, parse_args, tetris_mode_action, AppCommand, GameChoice,
    GameCommand, Key, MenuAction, ModeAction, PlayingGame, ViewState,
};
use kanitomo::games::game_2048::Game2048Move;
use kanitomo::games::snake::Direction;
use kanitomo::games::tetris::TetrisMode;

fn args(list: &[&str]) -> Vec<String> {
    list.iter().map(|s| s.to_string()).collect()
}

#[test]
fn command_line_flags() {
    let o = parse_args(&args(&["kanitomo", "--debug"]));
    assert!(o.debug);
    assert!(!o.reset);
    assert!(o.game.is_none());
    let o = parse_args(&args(&["kanitomo", "-g", "snake", "-d"]));
    assert!(o.debug);
    assert_eq!(o.game, Some(Some("snake".to_string())));
    let o = parse_args(&args(&["kanitomo", "--game=2048"]));
    assert_eq!(o.game, Some(Some("2048".to_string())));
    let o = parse_args(&args(&["kanitomo", "--game", "--debug"]));
    assert_eq!(o.game, Some(None));
    let o = parse_args(&args(&["kanitomo", "--game"]));
    assert_eq!(o.game, Some(None));
    let o = parse_args(&args(&["kanitomo", "--reset"]));
    assert!(o.reset);
}

#[test]
fn game_names() {
    assert_eq!(game_from_name("snake"), Some(GameChoice::Snake));
    assert_eq!(game_from_name("2048"), Some(GameChoice::Game2048));
    assert_eq!(game_from_name("kanitomo"), Some(GameChoice::Kanitomo));
    assert_eq!(game_from_name("Snake"), None);
    assert_eq!(game_from_name(""), None);
}

#[test]
fn menu_keys() {
    assert_eq!(menu_action(Key::Char('3')), MenuAction::Start(GameChoice::Snake));
    assert_eq!(menu_action(Key::Char('8')), MenuAction::Start(GameChoice::Vsrg));
    assert_eq!(menu_action(Key::Esc), MenuAction::Quit);
    assert_eq!(menu_action(Key::Char(' ')), MenuAction::Quit);
    assert_eq!(menu_action(Key::Char('9')), MenuAction::Nothing);
    assert_eq!(tetris_mode_action(Key::Char('4')), ModeAction::Start(TetrisMode::Dig));
    assert_eq!(tetris_mode_action(Key::Char('q')), ModeAction::Back);
    assert_eq!(tetris_mode_action(Key::Left), ModeAction::Nothing);
}

#[test]
fn game_keys() {
    assert_eq!(game_command(PlayingGame::Snake, Key::Char('k')), Some(GameCommand::Turn(Direction::Up)));
    assert_eq!(game_command(PlayingGame::CrabCatch, Key::Left), Some(GameCommand::MoveCrab(-1)));
    assert_eq!(game_command(PlayingGame::Breakout, Key::Char(' ')), Some(GameCommand::Launch));
    assert_eq!(game_command(PlayingGame::Tetris, Key::Enter), Some(GameCommand::HardDrop));
    assert_eq!(game_command(PlayingGame::Tetris, Key::Char('z')), Some(GameCommand::RotateCcw));
    assert_eq!(game_command(PlayingGame::Dash, Key::Up), Some(GameCommand::Jump));
    assert_eq!(game_command(PlayingGame::Game2048, Key::Char('a')), Some(GameCommand::Push(Game2048Move::Left)));
    assert_eq!(game_command(PlayingGame::Vsrg, Key::Char('j')), Some(GameCommand::HitLane(2)));
    assert_eq!(game_command(PlayingGame::Vsrg, Key::Char('q')), Some(GameCommand::Quit));
    assert_eq!(game_command(PlayingGame::Dash, Key::Char('x')), None);
}

#[test]
fn crab_screen_keys() {
    let mut v = ViewState { show_repo_list: false, show_details: false, show_help: false, show_stats: true, should_quit: false };
    assert_eq!(handle_key(&mut v, Key::Char('a'), false, false), AppCommand::Nothing);
    assert!(!v.show_repo_list);
    handle_key(&mut v, Key::Char('a'), false, true);
    assert!(v.show_repo_list);
    handle_key(&mut v, Key::Char('d'), false, true);
    assert!(v.show_details && !v.show_repo_list);
    handle_key(&mut v, Key::Char('?'), false, true);
    assert!(v.show_help);
    handle_key(&mut v, Key::Esc, false, true);
    assert!(!v.show_help && v.show_details);
    handle_key(&mut v, Key::Esc, false, true);
    assert!(!v.show_details && !v.should_quit);
    handle_key(&mut v, Key::Char('s'), false, true);
    assert!(!v.show_stats);
    assert_eq!(handle_key(&mut v, Key::Char('f'), false, true), AppCommand::Nothing);
    assert_eq!(handle_key(&mut v, Key::Char('f'), true, true), AppCommand::AddDebugCommit);
    assert_eq!(handle_key(&mut v, Key::Char('x'), true, true), AppCommand::ToggleFreeze);
    assert_eq!(handle_key(&mut v, Key::Char('g'), true, true), AppCommand::CycleGround);
    assert_eq!(handle_key(&mut v, Key::Char('r'), false, true), AppCommand::Refresh);
    assert_eq!(handle_key(&mut v, Key::Char(' '), false, true), AppCommand::OpenMenu);
    handle_key(&mut v, Key::Char('q'), false, true);
    assert!(v.should_quit);
}
