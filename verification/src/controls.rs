//! What each key does: on the command line, in the game menu, in each game and
//! on the crab's screen. The caller reads the keys and carries out the commands.
use vstd::prelude::*;
use crate::games::game_2048::Game2048Move;
use crate::games::snake::Direction;
use crate::games::tetris::TetrisMode;

verus! {

/// A key press, as far as the screens tell keys apart.
#[derive(Debug, Clone, Copy, PartialEq, Eq, Structural)]
pub enum Key {
    Char(char),
    Left,
    Right,
    Up,
    Down,
    Enter,
    Esc,
    Other,
}

/// The games that can be started on their own.
#[derive(Debug, Clone, Copy, PartialEq, Eq, Structural)]
pub enum GameChoice {
    /// The crab itself.
    Kanitomo,
    CrabCatch,
    Snake,
    Breakout,
    /// Tetris, by way of its mode menu.
    Tetris,
    Dash,
    Game2048,
    Vsrg,
}

/// The game named on the command line.
pub open spec fn game_named(name: Seq<char>) -> Option<GameChoice> {
    if name == "kanitomo"@ {
        Some(GameChoice::Kanitomo)
    } else if name == "crabcatch"@ {
        Some(GameChoice::CrabCatch)
    } else if name == "snake"@ {
        Some(GameChoice::Snake)
    } else if name == "breakout"@ {
        Some(GameChoice::Breakout)
    } else if name == "tetris"@ {
        Some(GameChoice::Tetris)
    } else if name == "dash"@ {
        Some(GameChoice::Dash)
    } else if name == "2048"@ {
        Some(GameChoice::Game2048)
    } else if name == "vsrg"@ {
        Some(GameChoice::Vsrg)
    } else {
        None
    }
}

/// Whether two strings hold the same characters.
fn same_text(a: &str, b: &str) -> (r: bool)
    ensures
        r == (a@ == b@),
{
    let n = a.unicode_len();
    if n != b.unicode_len() {
        return false;
    }
    let mut i: usize = 0;
    while i < n
        invariant
            n == a@.len(),
            n == b@.len(),
            i <= n,
            forall|k: int| 0 <= k < i ==> a@[k] == b@[k],
        decreases n - i,
    {
        if a.get_char(i) != b.get_char(i) {
            return false;
        }
        i += 1;
    }
    assert(a@ =~= b@);
    true
}

/// Whether `s` begins with `prefix`.
fn starts_with(s: &str, prefix: &str) -> (r: bool)
    ensures
        r == (prefix@.len() <= s@.len() && s@.subrange(0, prefix@.len() as int) == prefix@),
{
    let n = prefix.unicode_len();
    if n > s.unicode_len() {
        return false;
    }
    let mut i: usize = 0;
    while i < n
        invariant
            n == prefix@.len(),
            n <= s@.len(),
            i <= n,
            forall|k: int| 0 <= k < i ==> s@[k] == prefix@[k],
        decreases n - i,
    {
        if s.get_char(i) != prefix.get_char(i) {
            assert(s@.subrange(0, n as int)[i as int] != prefix@[i as int]);
            return false;
        }
        i += 1;
    }
    assert(s@.subrange(0, n as int) =~= prefix@);
    true
}

/// The game of a name given on the command line.
pub fn game_from_name(name: &str) -> (g: Option<GameChoice>)
    ensures
        g == game_named(name@),
{
    proof {
        reveal_strlit("kanitomo");
        reveal_strlit("crabcatch");
        reveal_strlit("snake");
        reveal_strlit("breakout");
        reveal_strlit("tetris");
        reveal_strlit("dash");
        reveal_strlit("2048");
        reveal_strlit("vsrg");
    }
    if same_text(name, "kanitomo") {
        Some(GameChoice::Kanitomo)
    } else if same_text(name, "crabcatch") {
        Some(GameChoice::CrabCatch)
    } else if same_text(name, "snake") {
        Some(GameChoice::Snake)
    } else if same_text(name, "breakout") {
        Some(GameChoice::Breakout)
    } else if same_text(name, "tetris") {
        Some(GameChoice::Tetris)
    } else if same_text(name, "dash") {
        Some(GameChoice::Dash)
    } else if same_text(name, "2048") {
        Some(GameChoice::Game2048)
    } else if same_text(name, "vsrg") {
        Some(GameChoice::Vsrg)
    } else {
        None
    }
}

/// What the command line asks for.
#[derive(Debug)]
pub struct CliOptions {
    /// `--debug` or `-d`: the debug keys are on.
    pub debug: bool,
    /// `--reset`: the stats are reset.
    pub reset: bool,
    /// `--game`, `-g` or `--game=NAME`: a game is played on its own. The inner
    /// value is the name given, if any (without one the game menu opens).
    pub game: Option<Option<String>>,
}

/// The argument is one of the two spellings.
pub open spec fn is_flag(arg: Seq<char>, long: Seq<char>, short: Seq<char>) -> bool {
    arg == long || arg == short
}

/// The argument asks for a game: `--game`, `-g`, or starts with `--game=`.
pub open spec fn is_game_flag(arg: Seq<char>) -> bool {
    arg == "--game"@ || arg == "-g"@ || ("--game="@.len() <= arg.len() && arg.subrange(0, 7) == "--game="@)
}

/// The name that goes with the game flag at `idx`: what follows `--game=`, or
/// the next argument unless it starts with `-`.
pub open spec fn game_name_at(args: Seq<String>, idx: int) -> Option<Seq<char>> {
    let arg = args[idx]@;
    if 7 <= arg.len() && arg.subrange(0, 7) == "--game="@ {
        Some(arg.subrange(7, arg.len() as int))
    } else if idx + 1 < args.len() && !(1 <= args[idx + 1]@.len() && args[idx + 1]@[0] == '-') {
        Some(args[idx + 1]@)
    } else {
        None
    }
}

/// Reads the command-line arguments (the program's name first).
pub fn parse_args(args: &Vec<String>) -> (o: CliOptions)
    ensures
        o.debug == exists|i: int| 0 <= i < args@.len() && is_flag(#[trigger] args@[i]@, "--debug"@, "-d"@),
        o.reset == exists|i: int| 0 <= i < args@.len() && #[trigger] args@[i]@ == "--reset"@,
        (forall|i: int| 0 <= i < args@.len() ==> !is_game_flag(#[trigger] args@[i]@)) ==> o.game is None,
        forall|idx: int|
            0 <= idx < args@.len() && is_game_flag(#[trigger] args@[idx]@) && (forall|j: int|
                0 <= j < idx ==> !is_game_flag(#[trigger] args@[j]@)) ==> match o.game {
                Some(name) => match game_name_at(args@, idx) {
                    Some(n) => name matches Some(s) && s@ == n,
                    None => name is None,
                },
                None => false,
            },
{
    proof {
        reveal_strlit("--debug");
        reveal_strlit("-d");
        reveal_strlit("--reset");
        reveal_strlit("--game");
        reveal_strlit("-g");
        reveal_strlit("--game=");
        reveal_strlit("-");
    }
    let mut debug = false;
    let mut reset = false;
    let mut game_index: Option<usize> = None;
    let mut i: usize = 0;
    while i < args.len()
        invariant
            i <= args@.len(),
            debug == exists|k: int| 0 <= k < i && is_flag(#[trigger] args@[k]@, "--debug"@, "-d"@),
            reset == exists|k: int| 0 <= k < i && #[trigger] args@[k]@ == "--reset"@,
            match game_index {
                Some(g) => g < i && is_game_flag(args@[g as int]@) && forall|j: int|
                    0 <= j < g ==> !is_game_flag(#[trigger] args@[j]@),
                None => forall|j: int| 0 <= j < i ==> !is_game_flag(#[trigger] args@[j]@),
            },
        decreases args@.len() - i,
    {
        proof {
            reveal_strlit("--debug");
            reveal_strlit("-d");
            reveal_strlit("--reset");
            reveal_strlit("--game");
            reveal_strlit("-g");
            reveal_strlit("--game=");
        }
        let arg = args[i].as_str();
        assert(arg@ == args@[i as int]@);
        if same_text(arg, "--debug") || same_text(arg, "-d") {
            debug = true;
        }
        if same_text(arg, "--reset") {
            reset = true;
        }
        let flag = same_text(arg, "--game") || same_text(arg, "-g") || starts_with(arg, "--game=");
        assert(flag == is_game_flag(args@[i as int]@));
        if game_index.is_none() && flag {
            game_index = Some(i);
        }
        i += 1;
    }
    let game = match game_index {
        None => None,
        Some(idx) => {
            let arg = args[idx].as_str();
            assert(arg@ == args@[idx as int]@);
            if starts_with(arg, "--game=") {
                let n = arg.unicode_len();
                let name = arg.substring_char(7, n);
                Some(Some(String::from_str(name)))
            } else if idx + 1 < args.len() && !starts_with(args[idx + 1].as_str(), "-") {
                let ghost next = args@[idx + 1]@;
                assert(next.len() >= 1 && next[0] == '-' ==> next.subrange(0, 1) =~= "-"@);
                Some(Some(args[idx + 1].clone()))
            } else {
                proof {
                    if idx + 1 < args@.len() {
                        let next = args@[idx + 1]@;
                        assert(next.subrange(0, 1)[0] == next[0]);
                    }
                }
                Some(None)
            }
        },
    };
    CliOptions { debug, reset, game }
}

/// What a key does in the game menu.
#[derive(Debug, Clone, Copy, PartialEq, Eq, Structural)]
pub enum MenuAction {
    Start(GameChoice),
    Quit,
    Nothing,
}

/// What a key does in the game menu: `1` to `8` start a game, `q`, Esc or
/// space leave.
pub fn menu_action(key: Key) -> (a: MenuAction)
    ensures
        a == match key {
            Key::Char('1') => MenuAction::Start(GameChoice::Kanitomo),
            Key::Char('2') => MenuAction::Start(GameChoice::CrabCatch),
            Key::Char('3') => MenuAction::Start(GameChoice::Snake),
            Key::Char('4') => MenuAction::Start(GameChoice::Breakout),
            Key::Char('5') => MenuAction::Start(GameChoice::Tetris),
            Key::Char('6') => MenuAction::Start(GameChoice::Dash),
            Key::Char('7') => MenuAction::Start(GameChoice::Game2048),
            Key::Char('8') => MenuAction::Start(GameChoice::Vsrg),
            Key::Char('q') | Key::Esc | Key::Char(' ') => MenuAction::Quit,
            _ => MenuAction::Nothing,
        },
{
    match key {
        Key::Char('1') => MenuAction::Start(GameChoice::Kanitomo),
        Key::Char('2') => MenuAction::Start(GameChoice::CrabCatch),
        Key::Char('3') => MenuAction::Start(GameChoice::Snake),
        Key::Char('4') => MenuAction::Start(GameChoice::Breakout),
        Key::Char('5') => MenuAction::Start(GameChoice::Tetris),
        Key::Char('6') => MenuAction::Start(GameChoice::Dash),
        Key::Char('7') => MenuAction::Start(GameChoice::Game2048),
        Key::Char('8') => MenuAction::Start(GameChoice::Vsrg),
        Key::Char('q') | Key::Esc | Key::Char(' ') => MenuAction::Quit,
        _ => MenuAction::Nothing,
    }
}

/// What a key does in the tetris mode menu.
#[derive(Debug, Clone, Copy, PartialEq, Eq, Structural)]
pub enum ModeAction {
    Start(TetrisMode),
    Back,
    Nothing,
}

/// What a key does in the tetris mode menu: `1` to `5` pick normal, sprint,
/// zen, dig or survival; `q`, Esc or space go back.
pub fn tetris_mode_action(key: Key) -> (a: ModeAction)
    ensures
        a == match key {
            Key::Char('1') => ModeAction::Start(TetrisMode::Normal),
            Key::Char('2') => ModeAction::Start(TetrisMode::Sprint),
            Key::Char('3') => ModeAction::Start(TetrisMode::Zen),
            Key::Char('4') => ModeAction::Start(TetrisMode::Dig),
            Key::Char('5') => ModeAction::Start(TetrisMode::Survival),
            Key::Char('q') | Key::Esc | Key::Char(' ') => ModeAction::Back,
            _ => ModeAction::Nothing,
        },
{
    match key {
        Key::Char('1') => ModeAction::Start(TetrisMode::Normal),
        Key::Char('2') => ModeAction::Start(TetrisMode::Sprint),
        Key::Char('3') => ModeAction::Start(TetrisMode::Zen),
        Key::Char('4') => ModeAction::Start(TetrisMode::Dig),
        Key::Char('5') => ModeAction::Start(TetrisMode::Survival),
        Key::Char('q') | Key::Esc | Key::Char(' ') => ModeAction::Back,
        _ => ModeAction::Nothing,
    }
}

/// A command inside a game.
#[derive(Debug, Clone, Copy, PartialEq, Eq, Structural)]
pub enum GameCommand {
    /// Leave the game for the menu.
    Quit,
    /// Crab catch: move the crab this many steps (negative: left).
    MoveCrab(i32),
    /// Snake: turn.
    Turn(Direction),
    /// Breakout: move the paddle left (-1) or right (1).
    MovePaddle(i8),
    /// Breakout: send the ball off.
    Launch,
    /// Tetris: shift the piece sideways (-1 left, 1 right).
    Shift(i32),
    /// Tetris: one row down.
    SoftDrop,
    /// Tetris: all the way down.
    HardDrop,
    /// Tetris: turn clockwise.
    RotateCw,
    /// Tetris: turn counter-clockwise.
    RotateCcw,
    /// Tetris: swap with the held piece.
    Hold,
    /// Dash: jump.
    Jump,
    /// 2048: push the tiles.
    Push(Game2048Move),
    /// 2048: start over.
    Restart,
    /// Rhythm game: hit a lane.
    HitLane(usize),
}

/// The game being played.
#[derive(Debug, Clone, Copy, PartialEq, Eq, Structural)]
pub enum PlayingGame {
    CrabCatch,
    Snake,
    Breakout,
    Tetris,
    Dash,
    Game2048,
    Vsrg,
}

/// What a key does in a game. `q` leaves every game; arrows and `h j k l` move;
/// 2048 also takes `w a s d`; the rhythm game hits its lanes with `d f j k`.
pub open spec fn command_for(game: PlayingGame, key: Key) -> Option<GameCommand> {
    match game {
        PlayingGame::CrabCatch => match key {
            Key::Left | Key::Char('h') => Some(GameCommand::MoveCrab(-1i32)),
            Key::Right | Key::Char('l') => Some(GameCommand::MoveCrab(1i32)),
            Key::Char('q') => Some(GameCommand::Quit),
            _ => None,
        },
        PlayingGame::Snake => match key {
            Key::Left | Key::Char('h') => Some(GameCommand::Turn(Direction::Left)),
            Key::Right | Key::Char('l') => Some(GameCommand::Turn(Direction::Right)),
            Key::Up | Key::Char('k') => Some(GameCommand::Turn(Direction::Up)),
            Key::Down | Key::Char('j') => Some(GameCommand::Turn(Direction::Down)),
            Key::Char('q') => Some(GameCommand::Quit),
            _ => None,
        },
        PlayingGame::Breakout => match key {
            Key::Left | Key::Char('h') => Some(GameCommand::MovePaddle(-1i8)),
            Key::Right | Key::Char('l') => Some(GameCommand::MovePaddle(1i8)),
            Key::Char(' ') => Some(GameCommand::Launch),
            Key::Char('q') => Some(GameCommand::Quit),
            _ => None,
        },
        PlayingGame::Tetris => match key {
            Key::Left | Key::Char('h') => Some(GameCommand::Shift(-1i32)),
            Key::Right | Key::Char('l') => Some(GameCommand::Shift(1i32)),
            Key::Down | Key::Char('j') => Some(GameCommand::SoftDrop),
            Key::Up | Key::Char('k') => Some(GameCommand::RotateCw),
            Key::Char('z') | Key::Char('i') => Some(GameCommand::RotateCcw),
            Key::Char('c') => Some(GameCommand::Hold),
            Key::Char(' ') | Key::Enter => Some(GameCommand::HardDrop),
            Key::Char('q') => Some(GameCommand::Quit),
            _ => None,
        },
        PlayingGame::Dash => match key {
            Key::Char(' ') | Key::Up | Key::Char('k') => Some(GameCommand::Jump),
            Key::Char('q') => Some(GameCommand::Quit),
            _ => None,
        },
        PlayingGame::Game2048 => match key {
            Key::Up | Key::Char('k') | Key::Char('w') => Some(GameCommand::Push(Game2048Move::Up)),
            Key::Down | Key::Char('j') | Key::Char('s') => Some(GameCommand::Push(Game2048Move::Down)),
            Key::Left | Key::Char('h') | Key::Char('a') => Some(GameCommand::Push(Game2048Move::Left)),
            Key::Right | Key::Char('l') | Key::Char('d') => Some(GameCommand::Push(Game2048Move::Right)),
            Key::Char('r') => Some(GameCommand::Restart),
            Key::Char('q') => Some(GameCommand::Quit),
            _ => None,
        },
        PlayingGame::Vsrg => match key {
            Key::Char('d') => Some(GameCommand::HitLane(0usize)),
            Key::Char('f') => Some(GameCommand::HitLane(1usize)),
            Key::Char('j') => Some(GameCommand::HitLane(2usize)),
            Key::Char('k') => Some(GameCommand::HitLane(3usize)),
            Key::Char('q') => Some(GameCommand::Quit),
            _ => None,
        },
    }
}

/// What a key does in a game (see `command_for`).
pub fn game_command(game: PlayingGame, key: Key) -> (c: Option<GameCommand>)
    ensures
        c == command_for(game, key),
{
    match game {
        PlayingGame::CrabCatch => match key {
            Key::Left | Key::Char('h') => Some(GameCommand::MoveCrab(-1i32)),
            Key::Right | Key::Char('l') => Some(GameCommand::MoveCrab(1i32)),
            Key::Char('q') => Some(GameCommand::Quit),
            _ => None,
        },
        PlayingGame::Snake => match key {
            Key::Left | Key::Char('h') => Some(GameCommand::Turn(Direction::Left)),
            Key::Right | Key::Char('l') => Some(GameCommand::Turn(Direction::Right)),
            Key::Up | Key::Char('k') => Some(GameCommand::Turn(Direction::Up)),
            Key::Down | Key::Char('j') => Some(GameCommand::Turn(Direction::Down)),
            Key::Char('q') => Some(GameCommand::Quit),
            _ => None,
        },
        PlayingGame::Breakout => match key {
            Key::Left | Key::Char('h') => Some(GameCommand::MovePaddle(-1i8)),
            Key::Right | Key::Char('l') => Some(GameCommand::MovePaddle(1i8)),
            Key::Char(' ') => Some(GameCommand::Launch),
            Key::Char('q') => Some(GameCommand::Quit),
            _ => None,
        },
        PlayingGame::Tetris => match key {
            Key::Left | Key::Char('h') => Some(GameCommand::Shift(-1i32)),
            Key::Right | Key::Char('l') => Some(GameCommand::Shift(1i32)),
            Key::Down | Key::Char('j') => Some(GameCommand::SoftDrop),
            Key::Up | Key::Char('k') => Some(GameCommand::RotateCw),
            Key::Char('z') | Key::Char('i') => Some(GameCommand::RotateCcw),
            Key::Char('c') => Some(GameCommand::Hold),
            Key::Char(' ') | Key::Enter => Some(GameCommand::HardDrop),
            Key::Char('q') => Some(GameCommand::Quit),
            _ => None,
        },
        PlayingGame::Dash => match key {
            Key::Char(' ') | Key::Up | Key::Char('k') => Some(GameCommand::Jump),
            Key::Char('q') => Some(GameCommand::Quit),
            _ => None,
        },
        PlayingGame::Game2048 => match key {
            Key::Up | Key::Char('k') | Key::Char('w') => Some(GameCommand::Push(Game2048Move::Up)),
            Key::Down | Key::Char('j') | Key::Char('s') => Some(GameCommand::Push(Game2048Move::Down)),
            Key::Left | Key::Char('h') | Key::Char('a') => Some(GameCommand::Push(Game2048Move::Left)),
            Key::Right | Key::Char('l') | Key::Char('d') => Some(GameCommand::Push(Game2048Move::Right)),
            Key::Char('r') => Some(GameCommand::Restart),
            Key::Char('q') => Some(GameCommand::Quit),
            _ => None,
        },
        PlayingGame::Vsrg => match key {
            Key::Char('d') => Some(GameCommand::HitLane(0usize)),
            Key::Char('f') => Some(GameCommand::HitLane(1usize)),
            Key::Char('j') => Some(GameCommand::HitLane(2usize)),
            Key::Char('k') => Some(GameCommand::HitLane(3usize)),
            Key::Char('q') => Some(GameCommand::Quit),
            _ => None,
        },
    }
}

/// Which overlays and panels the crab's screen shows, and whether the app is leaving.
#[derive(Debug, Clone, Copy, PartialEq, Eq, Structural)]
pub struct ViewState {
    pub show_repo_list: bool,
    pub show_details: bool,
    pub show_help: bool,
    pub show_stats: bool,
    pub should_quit: bool,
}

/// What a key on the crab's screen asks of the app besides the overlays.
#[derive(Debug, Clone, Copy, PartialEq, Eq, Structural)]
pub enum AppCommand {
    Nothing,
    /// Read the repositories again.
    Refresh,
    /// Leave for the mini-game menu.
    OpenMenu,
    /// Debug: add a hand-made commit.
    AddDebugCommit,
    /// Debug: remove the most recent hand-made commit.
    RemoveDebugCommit,
    /// Debug: stop or restart the crab's walking.
    ToggleFreeze,
    /// Debug: switch to the next ground style.
    CycleGround,
}

/// The crab's screen after a key: `q` or Esc closes the open overlay (help,
/// then the repository list, then the details) or else quits; `?` toggles the
/// help; `a` toggles the repository list when more than one repository is
/// watched, `d` the details (each closes the other); `s` shows or hides the
/// stats; `r` refreshes; space opens the mini-game menu. With debug keys on,
/// `f` adds a debug commit, `p` removes one, `x` freezes the crab and `g` changes the ground.
pub open spec fn view_after(v: ViewState, key: Key, debug: bool, multi_repo: bool) -> (ViewState, AppCommand) {
    match key {
        Key::Char('q') | Key::Esc => if v.show_help {
            (ViewState { show_help: false, ..v }, AppCommand::Nothing)
        } else if v.show_repo_list {
            (ViewState { show_repo_list: false, ..v }, AppCommand::Nothing)
        } else if v.show_details {
            (ViewState { show_details: false, ..v }, AppCommand::Nothing)
        } else {
            (ViewState { should_quit: true, ..v }, AppCommand::Nothing)
        },
        Key::Char('?') => (ViewState { show_help: !v.show_help, ..v }, AppCommand::Nothing),
        Key::Char('a') => if multi_repo {
            (ViewState { show_repo_list: !v.show_repo_list, show_details: false, ..v }, AppCommand::Nothing)
        } else {
            (v, AppCommand::Nothing)
        },
        Key::Char('d') => (
            ViewState { show_details: !v.show_details, show_repo_list: false, ..v },
            AppCommand::Nothing,
        ),
        Key::Char('s') => (ViewState { show_stats: !v.show_stats, ..v }, AppCommand::Nothing),
        Key::Char('r') => (v, AppCommand::Refresh),
        Key::Char(' ') => (v, AppCommand::OpenMenu),
        Key::Char('f') => (v, if debug { AppCommand::AddDebugCommit } else { AppCommand::Nothing }),
        Key::Char('p') => (v, if debug { AppCommand::RemoveDebugCommit } else { AppCommand::Nothing }),
        Key::Char('x') => (v, if debug { AppCommand::ToggleFreeze } else { AppCommand::Nothing }),
        Key::Char('g') => (v, if debug { AppCommand::CycleGround } else { AppCommand::Nothing }),
        _ => (v, AppCommand::Nothing),
    }
}

/// Handles a key on the crab's screen (see `view_after`).
pub fn handle_key(view: &mut ViewState, key: Key, debug: bool, multi_repo: bool) -> (c: AppCommand)
    ensures
        (*final(view), c) == view_after(*old(view), key, debug, multi_repo),
{
    match key {
        Key::Char('q') | Key::Esc => {
            if view.show_help {
                view.show_help = false;
            } else if view.show_repo_list {
                view.show_repo_list = false;
            } else if view.show_details {
                view.show_details = false;
            } else {
                view.should_quit = true;
            }
            AppCommand::Nothing
        },
        Key::Char('?') => {
            view.show_help = !view.show_help;
            AppCommand::Nothing
        },
        Key::Char('a') => {
            if multi_repo {
                view.show_repo_list = !view.show_repo_list;
                view.show_details = false;
            }
            AppCommand::Nothing
        },
        Key::Char('d') => {
            view.show_details = !view.show_details;
            view.show_repo_list = false;
            AppCommand::Nothing
        },
        Key::Char('s') => {
            view.show_stats = !view.show_stats;
            AppCommand::Nothing
        },
        Key::Char('r') => AppCommand::Refresh,
        Key::Char(' ') => AppCommand::OpenMenu,
        Key::Char('f') => if debug { AppCommand::AddDebugCommit } else { AppCommand::Nothing },
        Key::Char('p') => if debug { AppCommand::RemoveDebugCommit } else { AppCommand::Nothing },
        Key::Char('x') => if debug { AppCommand::ToggleFreeze } else { AppCommand::Nothing },
        Key::Char('g') => if debug { AppCommand::CycleGround } else { AppCommand::Nothing },
        _ => AppCommand::Nothing,
    }
}

} // verus!
