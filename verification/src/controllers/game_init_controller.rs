use vstd::multiset::Multiset;
use vstd::prelude::*;

use crate::auth::utils::{generate_token, token_for};
use crate::constants::{
    MAX_GAME_ID, MAX_WORDS_PER_PLAYER, MIN_WORDS_PER_PLAYER, NEW_PLAYER_EVENT_PREFIX, PLAYER_KICKED_EVENT_PREFIX,
    PLAYER_LEFT_EVENT_PREFIX,
};
use crate::controllers::errors::GameError;
use crate::extentions::arc_string::ArcString;
use crate::extentions::name_map::{lemma_push_to_set, lemma_remove_to_set, texts};
use crate::extentions::random::random_in_range;
use crate::extentions::text::concat_text;
use crate::extentions::vec_utils::{
    find_text, first_text_index, lemma_first_text_index, lemma_remove_first_text_counts,
    lemma_remove_first_text_distinct,
    lemma_remove_first_text_pushed, remove_first_text, RemoveElem,
};
use crate::models::game::{players_consistent, init_game, is_guid_text, is_initial_state, same_but_words_per_player, Game};

verus! {

/// `s` without the first element of each text of `ws`, removed in the order of `ws`.
pub open spec fn remove_each_text(s: Seq<ArcString>, ws: Seq<ArcString>) -> Seq<ArcString>
    decreases ws.len(),
{
    if ws.len() == 0 {
        s
    } else {
        remove_first_text(remove_each_text(s, ws.drop_last()), ws.last()@)
    }
}

/// Whether a game may be created with this word limit per player.
pub fn validate_word_limit(word_limit: usize) -> (r: Result<(), GameError>)
    ensures
        word_limit < MIN_WORDS_PER_PLAYER ==> r == Err::<(), GameError>(GameError::WordLimitTooLow),
        word_limit > MAX_WORDS_PER_PLAYER ==> r == Err::<(), GameError>(
            GameError::WordLimitTooHigh,
        ),
        MIN_WORDS_PER_PLAYER <= word_limit <= MAX_WORDS_PER_PLAYER ==> r == Ok::<(), GameError>(()),
{
    if word_limit < MIN_WORDS_PER_PLAYER {
        Err(GameError::WordLimitTooLow)
    } else if word_limit > MAX_WORDS_PER_PLAYER {
        Err(GameError::WordLimitTooHigh)
    } else {
        Ok(())
    }
}

/// A game id drawn at random from `0..MAX_GAME_ID`; the server draws again while the id
/// is taken.
pub fn random_game_id() -> (id: i32)
    ensures
        0 <= id < MAX_GAME_ID,
{
    random_in_range(0, MAX_GAME_ID)
}

/// A game just created, with what its creator is sent back.
pub struct CreatedGame {
    pub game: Game,
    pub name: String,
    pub game_id: i32,
    pub auth_token: String,
}

/// Creates the game with this id for a player and a word limit per player, where the
/// limit is within the bounds; the player is its host.
pub fn create_game(player_name: &str, word_limit: usize, id: i32) -> (r: Result<CreatedGame, GameError>)
    ensures
        word_limit < MIN_WORDS_PER_PLAYER ==> r is Err && r->Err_0 == GameError::WordLimitTooLow,
        word_limit > MAX_WORDS_PER_PLAYER ==> r is Err && r->Err_0 == GameError::WordLimitTooHigh,
        MIN_WORDS_PER_PLAYER <= word_limit <= MAX_WORDS_PER_PLAYER ==> {
            let c = r->Ok_0;
            &&& r is Ok
            &&& c.name@ == player_name@
            &&& c.game_id == id
            &&& c.auth_token@ == token_for(id, player_name@, c.game.auth_secret@)
            &&& c.game.wf()
            &&& c.game.id == id
            &&& c.game.players@.len() == 1
            &&& c.game.players@[0]@ == player_name@
            &&& c.game.words@.len() == 0
            &&& c.game.words_per_player_limit == word_limit
            &&& c.game.num_words_per_player@ == Map::<Seq<char>, usize>::empty()
            &&& is_initial_state(c.game.game_state, player_name@)
            &&& c.game.host_name@ == player_name@
            &&& is_guid_text(c.game.auth_secret@)
            &&& players_consistent(c.game)
        },
{
    validate_word_limit(word_limit)?;
    let game = init_game(id, player_name, word_limit);
    let auth_token = generate_token(id, player_name.to_owned(), game.auth_secret.clone());
    Ok(CreatedGame { game, name: player_name.to_owned(), game_id: id, auth_token })
}

/// What a player who joined is sent back, with the event to send.
pub struct JoinedGame {
    pub name: String,
    pub game_id: i32,
    pub auth_token: String,
    pub event: String,
}

/// `a` is `b` once a player has joined under the name `name`: they are the last of the
/// players, and they have an empty list of words; nothing else changes.
pub open spec fn player_joined(b: Game, a: Game, name: Seq<char>) -> bool {
    &&& a.players@.drop_last() == b.players@
    &&& a.players@.len() == b.players@.len() + 1
    &&& a.players@.last()@ == name
    &&& a.game_state.words_per_player@ == b.game_state.words_per_player@.insert(
        name,
        a.game_state.words_per_player@[name],
    )
    &&& a.game_state.words_per_player@[name]@.len() == 0
    &&& same_but_words_per_player(b.game_state, a.game_state)
    &&& a.id == b.id
    &&& a.words == b.words
    &&& a.num_words_per_player == b.num_words_per_player
    &&& a.words_per_player_limit == b.words_per_player_limit
    &&& a.host_name == b.host_name
    &&& a.auth_secret == b.auth_secret
}

/// A player joins the game under a name that no player of it has yet; they start
/// with no words.
pub fn join_game(game: &mut Game, name: &str) -> (r: Result<JoinedGame, GameError>)
    requires
        old(game).wf(),
    ensures
        players_consistent(*old(game)) ==> players_consistent(*final(game)),
        final(game).wf(),
        texts(old(game).players@).no_duplicates() ==> texts(final(game).players@).no_duplicates(),
        texts(old(game).players@).contains(name@) ==> r is Err && r->Err_0
            == GameError::NameAlreadyExists && *final(game) == *old(game),
        !texts(old(game).players@).contains(name@) ==> {
            let j = r->Ok_0;
            &&& r is Ok
            &&& j.name@ == name@
            &&& j.game_id == old(game).id
            &&& j.auth_token@ == token_for(old(game).id, name@, old(game).auth_secret@)
            &&& j.event@ == NEW_PLAYER_EVENT_PREFIX@ + name@
            &&& player_joined(*old(game), *final(game), name@)
        },
{
    let name_arc = ArcString::from_str(name);
    if find_text(&game.players, &name_arc).is_some() {
        return Err(GameError::NameAlreadyExists);
    }
    let ghost players_before = game.players@;
    game.players.push(name_arc.clone());
    proof {
        assert(texts(game.players@) =~= texts(players_before).push(name@));
        assert forall|a: int, b: int|
            0 <= a < texts(game.players@).len() && 0 <= b < texts(game.players@).len() && a != b
                && texts(players_before).no_duplicates()
            implies texts(game.players@)[a] != texts(game.players@)[b] by {
            if a == players_before.len() {
                assert(texts(players_before)[b] != name@);
            } else if b == players_before.len() {
                assert(texts(players_before)[a] != name@);
            }
        }
    }

    // Tell all other people in the game that a new player has joined
    let event = concat_text(NEW_PLAYER_EVENT_PREFIX, name);
    let auth_token = generate_token(game.id, name.to_owned(), game.auth_secret.clone());
    game.game_state.words_per_player.insert(name_arc, Vec::new());
    proof {
        lemma_push_to_set(texts(players_before), name@);
        assert(game.game_state.words_per_player@.dom() =~= old(
            game,
        ).game_state.words_per_player@.dom().insert(name@));
    }
    assert(game.players@.drop_last() =~= players_before);
    assert(game.game_state.words_per_player@ =~= old(game).game_state.words_per_player@.insert(
        name@,
        game.game_state.words_per_player@[name@],
    ));
    Ok(JoinedGame { name: name.to_owned(), game_id: game.id, auth_token, event })
}

/// The game without the player `name`: they leave the players, and the words they
/// added leave the game's words, as do their entry in the words per player and their
/// count of words added.
pub open spec fn without_player(before: Game, after: Game, name: Seq<char>) -> bool {
    let wpp = before.game_state.words_per_player@;
    &&& after.wf()
    &&& after.players@ == remove_first_text(before.players@, name)
    &&& texts(before.players@).no_duplicates() ==> texts(after.players@).no_duplicates()
    &&& wpp.dom().contains(name) ==> after.words@ == remove_each_text(before.words@, wpp[name]@)
    &&& !wpp.dom().contains(name) ==> after.words == before.words
    &&& after.game_state.words_per_player@ == wpp.remove(name)
    &&& after.num_words_per_player@ == before.num_words_per_player@.remove(name)
    &&& after.id == before.id
    &&& after.words_per_player_limit == before.words_per_player_limit
    &&& after.host_name == before.host_name
    &&& after.auth_secret == before.auth_secret
    &&& same_but_words_per_player(before.game_state, after.game_state)
}

fn remove_player(game: &mut Game, name: &ArcString)
    requires
        old(game).wf(),
    ensures
        without_player(*old(game), *final(game), name@),
        players_consistent(*old(game)) && texts(old(game).players@).contains(name@)
            ==> players_consistent(*final(game)),
{
    // Remove the player
    game.players.remove_element(name.clone());
    proof {
        if texts(old(game).players@).no_duplicates() {
            lemma_remove_first_text_distinct(old(game).players@, name@);
        }
        if texts(old(game).players@).contains(name@) {
            lemma_first_text_index(old(game).players@, name@);
            let i = first_text_index(old(game).players@, name@);
            assert(texts(game.players@) =~= texts(old(game).players@).remove(i));
            if texts(old(game).players@).no_duplicates() {
                lemma_remove_to_set(texts(old(game).players@), i);
            }
        }
    }

    // Their count of words goes with their words
    game.num_words_per_player.remove_entry(name);

    // If player has added words, get rid of them
    match game.game_state.words_per_player.remove_entry(name) {
        Some((_, words)) => {
            let ghost start = game.words@;
            let ghost snapshot = *game;
            let mut i: usize = 0;
            while i < words.len()
                invariant
                    i <= words@.len(),
                    game.wf(),
                    game.words@ == remove_each_text(start, words@.take(i as int)),
                    game.players == snapshot.players,
                    game.game_state == snapshot.game_state,
                    game.id == snapshot.id,
                    game.num_words_per_player == snapshot.num_words_per_player,
                    game.words_per_player_limit == snapshot.words_per_player_limit,
                    game.host_name == snapshot.host_name,
                    game.auth_secret == snapshot.auth_secret,
                decreases words@.len() - i,
            {
                game.words.remove_element(words[i].clone());
                proof {
                    assert(words@.take(i + 1).drop_last() =~= words@.take(i as int));
                }
                i = i + 1;
            }
            assert(words@.take(words@.len() as int) =~= words@);
        },
        None => {},
    }
}

/// What a player leaving or being kicked gives back: the game id and the event to send.
pub struct PlayerGone {
    pub game_id: i32,
    pub event: String,
}

/// A player of the game who is not its host leaves it, with the words they added.
pub fn leave_game(game: &mut Game, name: &str) -> (r: Result<PlayerGone, GameError>)
    requires
        old(game).wf(),
    ensures
        players_consistent(*old(game)) ==> players_consistent(*final(game)),
        final(game).wf(),
        !texts(old(game).players@).contains(name@) ==> r is Err && r->Err_0
            == GameError::PlayerNotInGame && *final(game) == *old(game),
        texts(old(game).players@).contains(name@) && old(game).host_name@ == name@ ==> r is Err
            && r->Err_0 == GameError::HostCannotLeave && *final(game) == *old(game),
        texts(old(game).players@).contains(name@) && old(game).host_name@ != name@ ==> {
            &&& r is Ok
            &&& r->Ok_0.game_id == old(game).id
            &&& r->Ok_0.event@ == PLAYER_LEFT_EVENT_PREFIX@ + name@
            &&& without_player(*old(game), *final(game), name@)
        },
{
    let name_arc = ArcString::from_str(name);
    if find_text(&game.players, &name_arc).is_none() {
        return Err(GameError::PlayerNotInGame);
    }
    // Only a player who is not the host can leave the game
    if game.host_name.same_text(&name_arc) {
        return Err(GameError::HostCannotLeave);
    }
    remove_player(game, &name_arc);

    // Tell all other people in the game that a player has left
    let event = concat_text(PLAYER_LEFT_EVENT_PREFIX, name);
    Ok(PlayerGone { game_id: game.id, event })
}

/// The host removes a player of the game, with the words they added.
pub fn kick_player(game: &mut Game, name: &str, player_to_kick: &str) -> (r: Result<
    PlayerGone,
    GameError,
>)
    requires
        old(game).wf(),
    ensures
        players_consistent(*old(game)) ==> players_consistent(*final(game)),
        final(game).wf(),
        old(game).host_name@ != name@ ==> r is Err && r->Err_0 == GameError::OnlyHostCanKick
            && *final(game) == *old(game),
        old(game).host_name@ == name@ && !texts(old(game).players@).contains(player_to_kick@) ==> r is Err
            && r->Err_0 == GameError::PlayerNotInGame && *final(game) == *old(game),
        old(game).host_name@ == name@ && texts(old(game).players@).contains(player_to_kick@) ==> {
            &&& r is Ok
            &&& r->Ok_0.game_id == old(game).id
            &&& r->Ok_0.event@ == PLAYER_KICKED_EVENT_PREFIX@ + player_to_kick@
            &&& without_player(*old(game), *final(game), player_to_kick@)
        },
{
    let name_arc = ArcString::from_str(name);
    if !game.host_name.same_text(&name_arc) {
        return Err(GameError::OnlyHostCanKick);
    }
    let kicked = ArcString::from_str(player_to_kick);
    if find_text(&game.players, &kicked).is_none() {
        return Err(GameError::PlayerNotInGame);
    }
    remove_player(game, &kicked);

    // Tell all other people in the game that a player was kicked
    let event = concat_text(PLAYER_KICKED_EVENT_PREFIX, player_to_kick);
    Ok(PlayerGone { game_id: game.id, event })
}

/// Leaving right after joining gives the game back: the same players, words and words
/// per player, and the same counts of words but for the name, which has none, where the
/// name was new to the game and had no list of words.
pub proof fn law_leave_undoes_join(g0: Game, g1: Game, g2: Game, name: Seq<char>)
    requires
        !texts(g0.players@).contains(name),
        !g0.game_state.words_per_player@.dom().contains(name),
        player_joined(g0, g1, name),
        without_player(g1, g2, name),
    ensures
        g2.players@ == g0.players@,
        g2.words@ == g0.words@,
        g2.game_state.words_per_player@ == g0.game_state.words_per_player@,
        g2.num_words_per_player@ == g0.num_words_per_player@.remove(name),
        same_but_words_per_player(g0.game_state, g2.game_state),
        g2.id == g0.id,
        g2.words_per_player_limit == g0.words_per_player_limit,
        g2.host_name == g0.host_name,
        g2.auth_secret == g0.auth_secret,
{
    let x = g1.players@.last();
    assert(g1.players@ =~= g0.players@.push(x));
    lemma_remove_first_text_pushed(g0.players@, x);
    let own = g1.game_state.words_per_player@[name]@;
    assert(own.len() == 0);
    assert(remove_each_text(g1.words@, own) == g1.words@);
    assert(g2.game_state.words_per_player@ =~= g0.game_state.words_per_player@);
}

/// Removing the first element with each text of `ws`, one after the other, takes away
/// one occurrence of each of those texts, as far as there are any, and leaves every
/// other text as often as it was.
pub proof fn lemma_remove_each_text_counts(s: Seq<ArcString>, ws: Seq<ArcString>)
    ensures
        texts(remove_each_text(s, ws)).to_multiset() == texts(s).to_multiset().sub(
            texts(ws).to_multiset(),
        ),
    decreases ws.len(),
{
    broadcast use vstd::seq_lib::group_to_multiset_ensures, vstd::multiset::group_multiset_axioms;

    if ws.len() == 0 {
        assert(texts(ws).to_multiset() =~= Multiset::empty());
        assert(texts(s).to_multiset().sub(texts(ws).to_multiset()) =~= texts(s).to_multiset());
    } else {
        let rest = ws.drop_last();
        let x = ws.last();
        lemma_remove_each_text_counts(s, rest);
        lemma_remove_first_text_counts(remove_each_text(s, rest), x@);
        assert(texts(ws) =~= texts(rest).push(x@));
        let t = texts(s).to_multiset();
        let w0 = texts(rest).to_multiset();
        assert(texts(ws).to_multiset() =~= w0.insert(x@));
        assert(t.sub(w0).remove(x@) =~= t.sub(w0.insert(x@)));
    }
}

/// When a player leaves or is kicked, exactly one word of the game is taken out for each
/// word the player added (as far as the game holds it), so the words the other players
/// added stay, each text as often as it was less those of the player's words.
pub proof fn law_leaving_removes_each_own_word_once(before: Game, after: Game, name: Seq<char>)
    requires
        without_player(before, after, name),
        before.game_state.words_per_player@.dom().contains(name),
    ensures
        texts(after.words@).to_multiset() == texts(before.words@).to_multiset().sub(
            texts(before.game_state.words_per_player@[name]@).to_multiset(),
        ),
        forall|t: Seq<char>|
            #[trigger] texts(before.game_state.words_per_player@[name]@).to_multiset().count(t) == 0
                ==> texts(after.words@).to_multiset().count(t) == texts(
                before.words@,
            ).to_multiset().count(t),
{
    broadcast use vstd::multiset::group_multiset_axioms;

    lemma_remove_each_text_counts(before.words@, before.game_state.words_per_player@[name]@);
}

} // verus!
