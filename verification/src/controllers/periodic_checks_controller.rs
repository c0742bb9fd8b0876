use vstd::prelude::*;

use crate::controllers::errors::GameError;
use crate::extentions::arc_string::ArcString;
use crate::extentions::name_map::texts;
use crate::extentions::vec_utils::find_text;
use crate::models::game::Game;

verus! {

/// Whether the game has started; asked every few seconds by players who may have
/// missed the start event.
pub fn has_game_started(game: &Game) -> (b: bool)
    ensures
        b == game.game_state.has_game_started,
{
    game.game_state.has_game_started
}

/// Where a player of the game stands: whether the game is under way, and whether they
/// host it.
pub struct InGameStatus {
    pub is_game_active: bool,
    pub is_host: bool,
}

/// For a player who comes back to the home page: whether their game is under way
/// (started and not finished) and whether they are its host.
pub fn is_in_game(game: &Game, name: &str) -> (r: Result<InGameStatus, GameError>)
    ensures
        !texts(game.players@).contains(name@) ==> r is Err && r->Err_0
            == GameError::PlayerDoesNotExistInGame,
        texts(game.players@).contains(name@) ==> {
            &&& r is Ok
            &&& r->Ok_0.is_game_active == (game.game_state.has_game_started
                && !game.game_state.is_game_finished)
            &&& r->Ok_0.is_host == (game.host_name@ == name@)
        },
{
    let name_arc = ArcString::from_str(name);
    if find_text(&game.players, &name_arc).is_none() {
        return Err(GameError::PlayerDoesNotExistInGame);
    }
    let is_game_active = game.game_state.has_game_started && !game.game_state.is_game_finished;
    let is_host = game.host_name.same_text(&name_arc);
    Ok(InGameStatus { is_game_active, is_host })
}

} // verus!
