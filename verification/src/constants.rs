use vstd::prelude::*;

verus! {

/// Game ids are drawn from `0..MAX_GAME_ID`.
pub const MAX_GAME_ID: i32 = 100000;
/// Milliseconds on the clock at the start of a turn.
pub const TIMER_START_VALUE: i32 = 60000;
/// How many words the turn player may hold at once.
pub const MAX_WORDS_IN_PLAY: usize = 2;
/// Bounds on the number of words each player must add.
pub const MIN_WORDS_PER_PLAYER: usize = 4;
pub const MAX_WORDS_PER_PLAYER: usize = 7;
/// Rounds in a game.
pub const NUM_ROUNDS: i32 = 3;

pub const NEW_PLAYER_EVENT_PREFIX: &'static str = "new_player:";
pub const NEW_WORD_EVENT_PREFIX: &'static str = "new_word:";
pub const WORD_REMOVED_EVENT_PREFIX: &'static str = "word_removed:";
pub const PLAYER_LEFT_EVENT_PREFIX: &'static str = "player_left:";
pub const PLAYER_KICKED_EVENT_PREFIX: &'static str = "player_kicked:";
pub const TIMER_UPDATE_EVENT_PREFIX: &'static str = "timer_update:";
pub const WORD_GUESSED_EVENT_PREFIX: &'static str = "word_guessed:";
pub const UNDO_GUESS_EVENT_PREFIX: &'static str = "undo_guess:";
pub const OUT_OF_WORDS_EVENT: &'static str = "out_of_words";
pub const NEXT_TURN_EVENT: &'static str = "next_turn";
pub const NEXT_ROUND_EVENT: &'static str = "next_round";
pub const START_GAME_EVENT: &'static str = "start_game";

} // verus!
