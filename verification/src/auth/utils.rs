use vstd::prelude::*;

use crate::extentions::text::{concat_text, i32_to_decimal, int_decimal};

verus! {

/// The page that a request with a token that is not valid is sent to.
pub const FORBIDDEN_URI: &'static str = "/forbidden";
/// The page that a request without a token is sent to.
pub const UNAUTHORIZED_URI: &'static str = "/unauthorized";

/// The token of a player of a game: the game's id in decimal, the player's name and the
/// game's secret, joined by `/`. It ties the bearer to the game, the player and the
/// secret that the game drew when it was made.
pub open spec fn token_for(game_id: i32, player_name: Seq<char>, game_auth_secret: Seq<char>) -> Seq<
    char,
> {
    int_decimal(game_id as int) + "/"@ + player_name + "/"@ + game_auth_secret
}

/// The token that the game's player gets when they create or join it.
pub fn generate_token(game_id: i32, player_name: String, game_auth_secret: String) -> (token: String)
    ensures
        token@ == token_for(game_id, player_name@, game_auth_secret@),
{
    let id = i32_to_decimal(game_id);
    let with_id = concat_text(id.as_str(), "/");
    let with_name = concat_text(with_id.as_str(), player_name.as_str());
    let with_slash = concat_text(with_name.as_str(), "/");
    let token = concat_text(with_slash.as_str(), game_auth_secret.as_str());
    assert(token@ =~= token_for(game_id, player_name@, game_auth_secret@));
    token
}

/// Whether the token lets its bearer act in the game as the player: it is the token
/// that the player was given for the game and its secret.
pub fn authorize_token(token: String, game_id: i32, player_name: String, game_auth_secret: String) -> (ok: bool)
    ensures
        ok == (token@ == token_for(game_id, player_name@, game_auth_secret@)),
{
    let expected = generate_token(game_id, player_name, game_auth_secret);
    token == expected
}

} // verus!
