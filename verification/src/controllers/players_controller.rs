use vstd::prelude::*;

use crate::extentions::arc_string::ArcString;
use crate::extentions::name_map::{string_texts, texts};
use crate::models::game::Game;

verus! {

/// The names of the players in a list, with the name of the game's host.
pub struct PlayerList {
    pub names: Vec<String>,
    pub host: String,
}

fn copy_texts(v: &Vec<ArcString>) -> (r: Vec<String>)
    ensures
        string_texts(r@) == texts(v@),
{
    let mut r: Vec<String> = Vec::new();
    let mut i: usize = 0;
    while i < v.len()
        invariant
            i <= v@.len(),
            r@.len() == i,
            string_texts(r@) == texts(v@).take(i as int),
        decreases v@.len() - i,
    {
        let ghost before = r@;
        let s = v[i].to_owned_string();
        r.push(s);
        assert(string_texts(r@) =~= texts(v@).take(i + 1)) by {
            assert forall|j: int| 0 <= j < i + 1 implies #[trigger] string_texts(r@)[j]
                == texts(v@).take(i + 1)[j] by {
                if j < i {
                    assert(r@[j] == before[j]);
                    assert(string_texts(before)[j] == texts(v@).take(i as int)[j]);
                }
            }
        }
        i = i + 1;
    }
    assert(texts(v@).take(v@.len() as int) =~= texts(v@));
    r
}

/// The players of the game, in order, and its host.
pub fn fetch_players(game: &Game) -> (r: PlayerList)
    ensures
        string_texts(r.names@) == texts(game.players@),
        r.host@ == game.host_name@,
{
    PlayerList { names: copy_texts(&game.players), host: game.host_name.to_owned_string() }
}

/// The words that a player of the game has added, in order, and its host.
pub fn fetch_player_words(game: &Game, name: &str) -> (r: PlayerList)
    requires
        game.wf(),
        game.game_state.words_per_player@.dom().contains(name@),
    ensures
        string_texts(r.names@) == texts(game.game_state.words_per_player@[name@]@),
        r.host@ == game.host_name@,
{
    let name_arc = ArcString::from_str(name);
    let words = game.game_state.words_per_player.get(&name_arc).unwrap();
    PlayerList { names: copy_texts(words), host: game.host_name.to_owned_string() }
}

} // verus!
