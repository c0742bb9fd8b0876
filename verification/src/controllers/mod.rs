pub mod errors;
pub mod turns_controller;
pub mod words_controller;
pub mod game_init_controller;
pub mod pages_controller;
pub mod periodic_checks_controller;
pub mod players_controller;
