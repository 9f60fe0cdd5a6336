pub mod breakout;
pub mod crab_catch;
pub mod dash;
pub mod field;
pub mod game_2048;
pub mod snake;
pub mod tetris;
pub mod vsrg;
