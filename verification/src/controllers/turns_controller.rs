use std::collections::HashMap;
use vstd::prelude::*;

use crate::constants::{
    MAX_WORDS_IN_PLAY, NEXT_ROUND_EVENT, NEXT_TURN_EVENT, NUM_ROUNDS, OUT_OF_WORDS_EVENT,
    START_GAME_EVENT, TIMER_START_VALUE, TIMER_UPDATE_EVENT_PREFIX, UNDO_GUESS_EVENT_PREFIX,
    WORD_GUESSED_EVENT_PREFIX,
};
use crate::controllers::errors::GameError;
use crate::extentions::arc_string::ArcString;
use crate::extentions::name_map::{lemma_permutation_keeps_distinct_texts, texts};
use crate::extentions::random::shuffle;
use crate::extentions::text::{concat_text, i32_to_decimal, int_decimal};
use crate::extentions::vec_utils::{
    find_last_text, find_text, first_text_index, last_text_index, lemma_first_text_index,
    lemma_last_text_index_unique,
};
use crate::models::game::{players_consistent, 
    word_pool, init_teams, same_clock, same_setup, same_teams, same_words, split_into_teams, Game, GameState,
};

verus! {

broadcast use vstd::std_specs::hash::group_hash_axioms, vstd::seq_lib::group_to_multiset_ensures, vstd::seq_lib::lemma_multiset_commutative;

/// The rotation index after `i` in a rotation of `n` players: the next one, back to
/// the start after the last.
pub open spec fn next_turn_index(i: int, n: int) -> int {
    if i + 1 == n {
        0
    } else {
        i + 1
    }
}

/// `after` is `before` with the turn passed to the next player of the rotation.
pub open spec fn turn_rotated(before: GameState, after: GameState) -> bool {
    &&& after.turn_player_index == next_turn_index(
        before.turn_player_index as int,
        before.player_rotation@.len() as int,
    )
    &&& after.turn_player == before.player_rotation@[after.turn_player_index as int]
}

/// The words that a team has guessed in a round, as recorded in `m` (none if no entry).
pub open spec fn team_guesses(m: Map<i32, Vec<ArcString>>, team: i32) -> Seq<ArcString> {
    if m.contains_key(team) {
        m[team]@
    } else {
        Seq::empty()
    }
}

/// Passes the turn to the next player of the rotation, back to the first after the last.
pub fn rotate_to_next_turn_player(game_state: &mut GameState)
    requires
        old(game_state).turn_player_index < old(game_state).player_rotation@.len(),
    ensures
        turn_rotated(*old(game_state), *final(game_state)),
        final(game_state).turn_player_index < final(game_state).player_rotation@.len(),
        same_words(*old(game_state), *final(game_state)),
        same_clock(*old(game_state), *final(game_state)),
        same_teams(*old(game_state), *final(game_state)),
{
    let rotation_len = game_state.player_rotation.len();
    let mut turn_player_index = game_state.turn_player_index;
    turn_player_index += 1;
    if turn_player_index == rotation_len {
        turn_player_index = 0;
    }
    game_state.turn_player_index = turn_player_index;
    let turn_player = game_state.player_rotation[turn_player_index].clone();
    game_state.turn_player = turn_player;
}

/// Starts the game: with an even number of players who have all added their words,
/// splits them in teams and makes all the words, shuffled, words to guess.
/// Gives back the event to send.
pub fn start_game(game: &mut Game) -> (r: Result<String, GameError>)
    requires
        old(game).wf(),
        old(game).players@.len() * old(game).words_per_player_limit <= usize::MAX,
        old(game).players@.len() % 2 == 0 && old(game).words@.len() >= old(game).players@.len()
            * old(game).words_per_player_limit ==> {
            &&& old(game).players@.len() + old(game).game_state.player_rotation@.len() > 0
            &&& old(game).players@.len() / 2 <= i32::MAX
        },
    ensures
        players_consistent(*old(game)) ==> players_consistent(*final(game)),
        final(game).wf(),
        r is Ok ==> word_pool(final(game).game_state) == word_pool(old(game).game_state).add(
            old(game).words@.to_multiset(),
        ),
        r is Err ==> word_pool(final(game).game_state) == word_pool(old(game).game_state),
        old(game).players@.len() % 2 != 0 ==> r == Err::<String, GameError>(
            GameError::OddNumberOfPlayers,
        ) && *final(game) == *old(game),
        old(game).players@.len() % 2 == 0 && old(game).words@.len() < old(game).players@.len()
            * old(game).words_per_player_limit ==> r == Err::<String, GameError>(
            GameError::PlayersStillNeedToAddWords,
        ) && *final(game) == *old(game),
        old(game).players@.len() % 2 == 0 && old(game).words@.len() >= old(game).players@.len()
            * old(game).words_per_player_limit ==> {
            let (b, a) = (old(game).game_state, final(game).game_state);
            &&& r matches Ok(e) && e@ == START_GAME_EVENT@
            &&& final(game).players@.to_multiset() == old(game).players@.to_multiset()
            &&& split_into_teams(b, a, final(game).players@)
            &&& final(game).words@.len() == 0
            &&& a.words_to_guess@.subrange(0, b.words_to_guess@.len() as int) == b.words_to_guess@
            &&& a.words_to_guess@.subrange(
                b.words_to_guess@.len() as int,
                a.words_to_guess@.len() as int,
            ).to_multiset() == old(game).words@.to_multiset()
            &&& a.words_guessed_per_team_per_round == b.words_guessed_per_team_per_round
            &&& a.words_guessed == b.words_guessed
            &&& a.words_in_play == b.words_in_play
            &&& same_clock(b, a)
            &&& a.words_per_player == b.words_per_player
            &&& final(game).id == old(game).id
            &&& final(game).words_per_player_limit == old(game).words_per_player_limit
            &&& final(game).num_words_per_player == old(game).num_words_per_player
            &&& final(game).host_name == old(game).host_name
            &&& final(game).auth_secret == old(game).auth_secret
        },
{
    if game.players.len() % 2 != 0 {
        return Err(GameError::OddNumberOfPlayers);
    }
    if game.words.len() < game.players.len() * game.words_per_player_limit {
        return Err(GameError::PlayersStillNeedToAddWords);
    }

    // Split people into teams
    init_teams(&mut game.game_state, &mut game.players);

    // Shuffle words
    let ghost words_before = game.words@;
    shuffle(&mut game.words);
    let ghost shuffled = game.words@;
    let ghost to_guess_before = game.game_state.words_to_guess@;

    // All words are to be guessed
    game.game_state.words_to_guess.append(&mut game.words);
    assert(game.game_state.words_to_guess@.subrange(0, to_guess_before.len() as int)
        =~= to_guess_before);
    assert(game.game_state.words_to_guess@.subrange(
        to_guess_before.len() as int,
        game.game_state.words_to_guess@.len() as int,
    ) =~= shuffled);
    proof {
        lemma_permutation_keeps_distinct_texts(old(game).players@, game.players@);
    }

    Ok(START_GAME_EVENT.to_owned())
}

/// Records the timer and the turn and round flags sent by the turn player.
/// Gives back the event to send, `timer_update:` and the milliseconds.
pub fn update_timer_state(
    game: &mut Game,
    millis: i32,
    turn_active: bool,
    round_active: bool,
    round: i32,
) -> (event: String)
    ensures
        old(game).wf() ==> final(game).wf(),
        players_consistent(*old(game)) ==> players_consistent(*final(game)),
        final(game).game_state.timer == millis,
        final(game).game_state.is_turn_active == turn_active,
        final(game).game_state.is_round_active == round_active,
        final(game).game_state.round == round,
        final(game).game_state.is_game_finished == old(game).game_state.is_game_finished,
        same_words(old(game).game_state, final(game).game_state),
        same_teams(old(game).game_state, final(game).game_state),
        final(game).game_state.turn_player == old(game).game_state.turn_player,
        final(game).game_state.turn_player_index == old(game).game_state.turn_player_index,
        same_setup(*old(game), *final(game)),
        event@ == TIMER_UPDATE_EVENT_PREFIX@ + int_decimal(millis as int),
{
    game.game_state.timer = millis;
    game.game_state.is_turn_active = turn_active;
    game.game_state.is_round_active = round_active;
    game.game_state.round = round;

    let millis_text = i32_to_decimal(millis);
    concat_text(TIMER_UPDATE_EVENT_PREFIX, millis_text.as_str())
}

/// Hands the turn player one more word to explain: the last of the words to guess
/// becomes the last word in play.
pub fn fetch_word_to_guess(game: &mut Game, name: &str) -> (r: Result<ArcString, GameError>)
    ensures
        old(game).wf() ==> final(game).wf(),
        players_consistent(*old(game)) ==> players_consistent(*final(game)),
        word_pool(final(game).game_state) == word_pool(old(game).game_state),
        old(game).game_state.words_in_play@.len() <= MAX_WORDS_IN_PLAY ==> final(game).game_state.words_in_play@.len() <= MAX_WORDS_IN_PLAY,
        ({
            let (b, a) = (old(game).game_state, final(game).game_state);
            &&& b.turn_player@ != name@ ==> r == Err::<ArcString, GameError>(GameError::NotTurnPlayer)
                && *final(game) == *old(game)
            &&& b.turn_player@ == name@ && b.words_in_play@.len() >= MAX_WORDS_IN_PLAY ==> r == Err::<
                ArcString,
                GameError,
            >(GameError::EnoughWordsInPlay) && *final(game) == *old(game)
            &&& b.turn_player@ == name@ && b.words_in_play@.len() < MAX_WORDS_IN_PLAY
                && b.words_to_guess@.len() == 0 ==> r == Err::<ArcString, GameError>(
                GameError::NoWordsLeft,
            ) && *final(game) == *old(game)
            &&& b.turn_player@ == name@ && b.words_in_play@.len() < MAX_WORDS_IN_PLAY
                && b.words_to_guess@.len() > 0 ==> {
                &&& r == Ok::<ArcString, GameError>(b.words_to_guess@.last())
                &&& a.words_to_guess@ == b.words_to_guess@.drop_last()
                &&& a.words_in_play@ == b.words_in_play@.push(b.words_to_guess@.last())
                &&& a.words_guessed == b.words_guessed
                &&& a.words_guessed_per_team_per_round == b.words_guessed_per_team_per_round
                &&& same_clock(b, a)
                &&& same_teams(b, a)
                &&& a.turn_player == b.turn_player
                &&& a.turn_player_index == b.turn_player_index
                &&& same_setup(*old(game), *final(game))
            }
        }),
{
    if !game.game_state.turn_player.as_string().eq(&name.to_owned()) {
        return Err(GameError::NotTurnPlayer);
    }
    if game.game_state.words_in_play.len() >= MAX_WORDS_IN_PLAY {
        return Err(GameError::EnoughWordsInPlay);
    }
    if game.game_state.words_to_guess.len() == 0 {
        return Err(GameError::NoWordsLeft);
    }
    // Get the last word from the words to guess list and move it to the words in play
    let ghost to_guess = game.game_state.words_to_guess@;
    let word = game.game_state.words_to_guess.pop().unwrap();
    game.game_state.words_in_play.push(word.clone());
    proof {
        assert(to_guess =~= to_guess.drop_last().push(word));
        assert(word_pool(game.game_state) =~= word_pool(old(game).game_state));
    }
    Ok(word)
}

/// `a` is `b` once the turn player `name` has guessed the word with text `word`, the
/// first such word in play: it leaves the words in play and joins the words guessed,
/// overall and by the player's team in this round; when no word is left to guess or in
/// play in the last round, the game is finished.
pub open spec fn word_guessed(b: GameState, a: GameState, name: Seq<char>, word: Seq<char>) -> bool {
    let i = first_text_index(b.words_in_play@, word);
    let w = b.words_in_play@[i];
    let team = b.team_member_to_team_index@[name];
    let guesses = b.words_guessed_per_team_per_round@[b.round]@;
    let out_of_words = b.words_to_guess@.len() == 0 && a.words_in_play@.len() == 0;
    &&& a.words_in_play@ =~= b.words_in_play@.remove(i)
    &&& a.words_guessed@ =~= b.words_guessed@.push(w)
    &&& a.words_to_guess == b.words_to_guess
    &&& a.words_guessed_per_team_per_round@ =~= b.words_guessed_per_team_per_round@.insert(
        b.round,
        a.words_guessed_per_team_per_round@[b.round],
    )
    &&& a.words_guessed_per_team_per_round@[b.round]@ =~= guesses.insert(
        team,
        a.words_guessed_per_team_per_round@[b.round]@[team],
    )
    &&& a.words_guessed_per_team_per_round@[b.round]@[team]@ =~= team_guesses(
        guesses,
        team,
    ).push(w)
    &&& a.is_game_finished == (b.is_game_finished || (out_of_words && b.round
        == NUM_ROUNDS))
    &&& a.timer == b.timer
    &&& a.round == b.round
    &&& a.is_turn_active == b.is_turn_active
    &&& a.is_round_active == b.is_round_active
    &&& a.turn_player == b.turn_player
    &&& a.turn_player_index == b.turn_player_index
    &&& same_teams(b, a)
}

/// What a guess gives back: the guessed word and the events to send.
pub struct GuessOutcome {
    pub word: ArcString,
    pub events: Vec<String>,
}

/// The turn player marks a word in play as guessed: it leaves the words in play and
/// joins the words guessed, overall and by the player's team in this round. When no
/// word is left to guess or in play, the round is out of words, and in the last round
/// the game is finished.
pub fn guess_word(game: &mut Game, name: &str, word: &str) -> (r: Result<GuessOutcome, GameError>)
    requires
        old(game).wf(),
        ({
            let b = old(game).game_state;
            b.turn_player@ == name@ && texts(b.words_in_play@).contains(word@) ==> {
                &&& b.team_member_to_team_index@.dom().contains(name@)
                &&& b.words_guessed_per_team_per_round@.dom().contains(b.round)
            }
        }),
    ensures
        players_consistent(*old(game)) ==> players_consistent(*final(game)),
        final(game).wf(),
        word_pool(final(game).game_state) == word_pool(old(game).game_state),
        final(game).game_state.words_in_play@.len() <= old(game).game_state.words_in_play@.len(),
        ({
            let (b, a) = (old(game).game_state, final(game).game_state);
            &&& b.turn_player@ != name@ ==> r is Err && r->Err_0 == GameError::NotTurnPlayer
                && *final(game) == *old(game)
            &&& b.turn_player@ == name@ && !texts(b.words_in_play@).contains(word@) ==> r is Err
                && r->Err_0 == GameError::WordNotInPlay && *final(game) == *old(game)
            &&& b.turn_player@ == name@ && texts(b.words_in_play@).contains(word@) ==> {
                let i = first_text_index(b.words_in_play@, word@);
                let w = b.words_in_play@[i];
                let team = b.team_member_to_team_index@[name@];
                let guesses = b.words_guessed_per_team_per_round@[b.round]@;
                let out_of_words = b.words_to_guess@.len() == 0 && a.words_in_play@.len() == 0;
                &&& r is Ok
                &&& r->Ok_0.word == w
                &&& r->Ok_0.events@.len() == if out_of_words { 2int } else { 1int }
                &&& r->Ok_0.events@[0]@ == WORD_GUESSED_EVENT_PREFIX@ + word@
                &&& out_of_words ==> r->Ok_0.events@[1]@ == OUT_OF_WORDS_EVENT@
                &&& word_guessed(b, a, name@, word@)
                &&& same_setup(*old(game), *final(game))
            }
        }),
{
    let name_arc = ArcString::from_str(name);
    let word_arc = ArcString::from_str(word);

    if !game.game_state.turn_player.same_text(&name_arc) {
        return Err(GameError::NotTurnPlayer);
    }
    let index = match find_text(&game.game_state.words_in_play, &word_arc) {
        Some(i) => i,
        None => return Err(GameError::WordNotInPlay),
    };

    // Remove the word from words in play
    let guessed_word = game.game_state.words_in_play.remove(index);

    // Update guessed words per round per team
    let round: i32 = game.game_state.round;
    let team_index: i32 = *game.game_state.team_member_to_team_index.get(&name_arc).unwrap();
    let ghost guesses = game.game_state.words_guessed_per_team_per_round@[round]@;
    let mut words_per_team = game.game_state.words_guessed_per_team_per_round.remove(&round).unwrap();
    let mut team_words: Vec<ArcString> = match words_per_team.remove(&team_index) {
        Some(v) => v,
        None => Vec::new(),
    };
    assert(team_words@ == team_guesses(guesses, team_index));
    team_words.push(guessed_word.clone());
    words_per_team.insert(team_index, team_words);
    game.game_state.words_guessed_per_team_per_round.insert(round, words_per_team);

    // Update game state words guessed
    game.game_state.words_guessed.push(guessed_word.clone());

    let mut events: Vec<String> = Vec::new();
    events.push(concat_text(WORD_GUESSED_EVENT_PREFIX, word));

    // If there are no more words to guess, round is over
    if game.game_state.words_to_guess.len() == 0 && game.game_state.words_in_play.len() == 0 {
        if game.game_state.round == NUM_ROUNDS {
            game.game_state.is_game_finished = true;
        }
        events.push(OUT_OF_WORDS_EVENT.to_owned());
    }
    proof {
        assert(game.game_state.words_guessed_per_team_per_round@[round]@ =~= guesses.insert(
            team_index,
            game.game_state.words_guessed_per_team_per_round@[round]@[team_index],
        ));
    }
    Ok(GuessOutcome { word: guessed_word, events })
}

/// The word that an undone guess puts back in play: the last of the words guessed with
/// the text of the team's last guess `w`, or `w` itself where no word guessed has it.
pub open spec fn undone_word(guessed: Seq<ArcString>, w: ArcString) -> ArcString {
    if texts(guessed).contains(w@) {
        guessed[last_text_index(guessed, w@)]
    } else {
        w
    }
}

/// The state that the guess which finishes a game leaves: the last round, with no word
/// left to guess or in play.
pub open spec fn last_round_out_of_words(s: GameState) -> bool {
    &&& s.round == NUM_ROUNDS
    &&& s.words_to_guess@.len() == 0
    &&& s.words_in_play@.len() == 0
}

/// `a` is `b` once the turn player `name` has taken back the last word that their team
/// guessed in this round: it leaves the team's guesses, the last word guessed with its
/// text leaves the words guessed, and that word is in play again, after the last word
/// in play went back to the words to guess where two were in play. Where the guess
/// taken back is the one that finished the game (the last round is out of words), the
/// game is not finished any more; otherwise whether it is finished stays.
pub open spec fn guess_undone(b: GameState, a: GameState, name: Seq<char>) -> bool {
    let per_round = b.words_guessed_per_team_per_round@;
    let team = b.team_member_to_team_index@[name];
    let guesses = per_round[b.round]@;
    let w = guesses[team]@.last();
    let x = undone_word(b.words_guessed@, w);
    &&& a.words_guessed_per_team_per_round@ =~= per_round.insert(
        b.round,
        a.words_guessed_per_team_per_round@[b.round],
    )
    &&& a.words_guessed_per_team_per_round@[b.round]@ =~= guesses.insert(
        team,
        a.words_guessed_per_team_per_round@[b.round]@[team],
    )
    &&& a.words_guessed_per_team_per_round@[b.round]@[team]@
        =~= guesses[team]@.drop_last()
    &&& a.words_guessed@ =~= if texts(b.words_guessed@).contains(w@) {
        b.words_guessed@.remove(last_text_index(b.words_guessed@, w@))
    } else {
        b.words_guessed@
    }
    &&& b.words_in_play@.len() >= MAX_WORDS_IN_PLAY ==> {
        &&& a.words_to_guess@ =~= b.words_to_guess@.push(b.words_in_play@.last())
        &&& a.words_in_play@ =~= b.words_in_play@.drop_last().push(x)
    }
    &&& b.words_in_play@.len() < MAX_WORDS_IN_PLAY ==> {
        &&& a.words_to_guess == b.words_to_guess
        &&& a.words_in_play@ =~= b.words_in_play@.push(x)
    }
    &&& a.is_game_finished == (b.is_game_finished && !last_round_out_of_words(b))
    &&& a.timer == b.timer
    &&& a.round == b.round
    &&& a.is_turn_active == b.is_turn_active
    &&& a.is_round_active == b.is_round_active
    &&& same_teams(b, a)
    &&& a.turn_player == b.turn_player
    &&& a.turn_player_index == b.turn_player_index
}

/// What an undone guess gives back: the word back in play and the event to send.
pub struct UndoOutcome {
    pub word: ArcString,
    pub event: String,
}

/// The turn player takes back the last word that their team guessed in this round:
/// it leaves the team's guesses, the last word guessed with its text leaves the words
/// guessed, and that word is in play again. Where two words are in play already, the
/// last of them goes back to the words to guess first. Taking back the guess that
/// finished the game lets the game go on.
pub fn undo_last_guess(game: &mut Game, name: &str) -> (r: Result<UndoOutcome, GameError>)
    requires
        old(game).wf(),
    ensures
        players_consistent(*old(game)) ==> players_consistent(*final(game)),
        final(game).wf(),
        old(game).game_state.words_in_play@.len() <= MAX_WORDS_IN_PLAY ==> final(game).game_state.words_in_play@.len() <= MAX_WORDS_IN_PLAY,
        r is Ok && texts(old(game).game_state.words_guessed@).contains(r->Ok_0.word@) ==> word_pool(
            final(game).game_state,
        ) == word_pool(old(game).game_state),
        r is Ok && !texts(old(game).game_state.words_guessed@).contains(r->Ok_0.word@) ==> word_pool(
            final(game).game_state,
        ) == word_pool(old(game).game_state).insert(r->Ok_0.word),
        r is Err ==> word_pool(final(game).game_state) == word_pool(old(game).game_state),
        ({
            let (b, a) = (old(game).game_state, final(game).game_state);
            let per_round = b.words_guessed_per_team_per_round@;
            let team = b.team_member_to_team_index@[name@];
            let guesses = per_round[b.round]@;
            &&& b.turn_player@ != name@ ==> r is Err && r->Err_0 == GameError::NotTurnPlayer
                && *final(game) == *old(game)
            &&& b.turn_player@ == name@ && !b.team_member_to_team_index@.dom().contains(name@)
                ==> r is Err && r->Err_0 == GameError::TeamIndexNotFound && *final(game)
                == *old(game)
            &&& b.turn_player@ == name@ && b.team_member_to_team_index@.dom().contains(name@)
                && !per_round.dom().contains(b.round) ==> r is Err && r->Err_0
                == GameError::RoundNotFound && *final(game) == *old(game)
            &&& b.turn_player@ == name@ && b.team_member_to_team_index@.dom().contains(name@)
                && per_round.dom().contains(b.round) && !guesses.dom().contains(team) ==> r is Err
                && r->Err_0 == GameError::TeamIndexNotFoundInRound && *final(game) == *old(game)
            &&& b.turn_player@ == name@ && b.team_member_to_team_index@.dom().contains(name@)
                && per_round.dom().contains(b.round) && guesses.dom().contains(team)
                && guesses[team]@.len() == 0 ==> r is Err && r->Err_0
                == GameError::NoWordsGuessedThisRound && *final(game) == *old(game)
            &&& b.turn_player@ == name@ && b.team_member_to_team_index@.dom().contains(name@)
                && per_round.dom().contains(b.round) && guesses.dom().contains(team)
                && guesses[team]@.len() > 0 ==> {
                let w = guesses[team]@.last();
                &&& r is Ok
                &&& r->Ok_0.word == undone_word(b.words_guessed@, w)
                &&& r->Ok_0.word@ == w@
                &&& r->Ok_0.event@ == UNDO_GUESS_EVENT_PREFIX@ + w@
                &&& guess_undone(b, a, name@)
                &&& same_setup(*old(game), *final(game))
            }
        }),
{
    let name_arc = ArcString::from_str(name);

    if !game.game_state.turn_player.same_text(&name_arc) {
        return Err(GameError::NotTurnPlayer);
    }

    let round: i32 = game.game_state.round;
    let team_index: i32 = match game.game_state.team_member_to_team_index.get(&name_arc) {
        Some(index) => *index,
        None => return Err(GameError::TeamIndexNotFound),
    };
    match game.game_state.words_guessed_per_team_per_round.get(&round) {
        Some(words_per_team) => {
            match words_per_team.get(&team_index) {
                Some(guessed_words_by_player) => {
                    if guessed_words_by_player.len() == 0 {
                        return Err(GameError::NoWordsGuessedThisRound);
                    }
                },
                None => return Err(GameError::TeamIndexNotFoundInRound),
            }
        },
        None => return Err(GameError::RoundNotFound),
    }

    // Whether the guess taken back is the one that finished the game
    let reopens = game.game_state.round == NUM_ROUNDS && game.game_state.words_to_guess.len() == 0
        && game.game_state.words_in_play.len() == 0;

    // Take the word back from the team's guesses of this round
    let ghost before = game.game_state;
    let ghost guesses = game.game_state.words_guessed_per_team_per_round@[round]@;
    let mut words_per_team = game.game_state.words_guessed_per_team_per_round.remove(&round).unwrap();
    let mut guessed_words_by_player = words_per_team.remove(&team_index).unwrap();
    let team_word = guessed_words_by_player.pop().unwrap();
    words_per_team.insert(team_index, guessed_words_by_player);
    game.game_state.words_guessed_per_team_per_round.insert(round, words_per_team);

    // The same word leaves the words guessed: the last one with its text
    let last_word = match find_last_text(&game.game_state.words_guessed, &team_word) {
        Some(j) => game.game_state.words_guessed.remove(j),
        None => team_word,
    };

    // If we have too many words in play, get rid of the last one and put it back in words_to_guess
    if game.game_state.words_in_play.len() >= MAX_WORDS_IN_PLAY {
        let last_fetched_word = game.game_state.words_in_play.pop().unwrap();
        game.game_state.words_to_guess.push(last_fetched_word);
    }

    // Add the undone word into the words in play
    game.game_state.words_in_play.push(last_word.clone());

    // Taking back the guess that finished the game lets the game go on
    if reopens {
        game.game_state.is_game_finished = false;
    }

    let event = concat_text(UNDO_GUESS_EVENT_PREFIX, last_word.as_string().as_str());
    proof {
        let b = before;
        let a = game.game_state;
        let w = guesses[team_index]@.last();
        if texts(b.words_guessed@).contains(w@) {
            let j = last_text_index(b.words_guessed@, w@);
            assert(b.words_guessed@.remove(j).to_multiset() == b.words_guessed@.to_multiset().remove(
                last_word,
            ));
            if b.words_in_play@.len() >= MAX_WORDS_IN_PLAY {
                assert(b.words_in_play@ =~= b.words_in_play@.drop_last().push(
                    b.words_in_play@.last(),
                ));
            }
            assert(word_pool(a) =~= word_pool(b));
        } else {
            if b.words_in_play@.len() >= MAX_WORDS_IN_PLAY {
                assert(b.words_in_play@ =~= b.words_in_play@.drop_last().push(
                    b.words_in_play@.last(),
                ));
            }
            assert(word_pool(a) =~= word_pool(b).insert(last_word));
        }
        assert(game.game_state.words_guessed_per_team_per_round@[round]@ =~= guesses.insert(
            team_index,
            game.game_state.words_guessed_per_team_per_round@[round]@[team_index],
        ));
    }
    Ok(UndoOutcome { word: last_word, event })
}

/// Ends the turn: the next player of the rotation has the turn, the clock is back at
/// its start, and the words in play go back, shuffled, to the words to guess.
/// Gives back the event to send.
pub fn next_turn(game: &mut Game) -> (event: String)
    requires
        old(game).game_state.turn_player_index < old(game).game_state.player_rotation@.len(),
    ensures
        old(game).wf() ==> final(game).wf(),
        players_consistent(*old(game)) ==> players_consistent(*final(game)),
        word_pool(final(game).game_state) == word_pool(old(game).game_state),
        ({
            let (b, a) = (old(game).game_state, final(game).game_state);
            &&& turn_rotated(b, a)
            &&& a.turn_player_index < a.player_rotation@.len()
            &&& a.timer == TIMER_START_VALUE
            &&& a.words_in_play@.len() == 0
            &&& a.words_to_guess@.to_multiset() == (b.words_to_guess@
                + b.words_in_play@).to_multiset()
            &&& a.words_guessed == b.words_guessed
            &&& a.words_guessed_per_team_per_round == b.words_guessed_per_team_per_round
            &&& a.round == b.round
            &&& a.is_turn_active == b.is_turn_active
            &&& a.is_round_active == b.is_round_active
            &&& a.is_game_finished == b.is_game_finished
            &&& same_teams(b, a)
        }),
        same_setup(*old(game), *final(game)),
        event@ == NEXT_TURN_EVENT@,
{
    // Figure out which the next turn player is
    rotate_to_next_turn_player(&mut game.game_state);

    // Reset timer and words in play
    game.game_state.timer = TIMER_START_VALUE;
    let mut removed_words_in_play: Vec<ArcString> = Vec::new();
    removed_words_in_play.append(&mut game.game_state.words_in_play);
    game.game_state.words_to_guess.append(&mut removed_words_in_play);
    shuffle(&mut game.game_state.words_to_guess);

    NEXT_TURN_EVENT.to_owned()
}

/// Starts the next round: all the words guessed go back, shuffled, to the words to
/// guess. With less than a second left on the clock, the turn passes too and the clock
/// starts again. Gives back the event to send.
pub fn next_round(game: &mut Game) -> (event: String)
    requires
        old(game).game_state.round < i32::MAX,
        old(game).game_state.timer < 1000 ==> old(game).game_state.turn_player_index < old(game).game_state.player_rotation@.len(),
    ensures
        old(game).wf() ==> final(game).wf(),
        old(game).wf() && 1 <= old(game).game_state.round < NUM_ROUNDS
            ==> final(game).game_state.words_guessed_per_team_per_round@.contains_key(
            final(game).game_state.round,
        ),
        players_consistent(*old(game)) ==> players_consistent(*final(game)),
        word_pool(final(game).game_state) == word_pool(old(game).game_state),
        ({
            let (b, a) = (old(game).game_state, final(game).game_state);
            &&& a.words_guessed@.len() == 0
            &&& a.words_to_guess@.to_multiset() == (b.words_to_guess@
                + b.words_guessed@).to_multiset()
            &&& a.words_in_play == b.words_in_play
            &&& a.words_guessed_per_team_per_round == b.words_guessed_per_team_per_round
            &&& a.round == b.round + 1
            &&& a.is_round_active
            &&& a.is_turn_active == b.is_turn_active
            &&& a.is_game_finished == b.is_game_finished
            &&& b.timer < 1000 ==> a.timer == TIMER_START_VALUE && turn_rotated(b, a)
            &&& b.timer >= 1000 ==> a.timer == b.timer && a.turn_player == b.turn_player
                && a.turn_player_index == b.turn_player_index
            &&& same_teams(b, a)
        }),
        same_setup(*old(game), *final(game)),
        event@ == NEXT_ROUND_EVENT@,
{
    // Reset words
    let mut guessed_words: Vec<ArcString> = Vec::new();
    guessed_words.append(&mut game.game_state.words_guessed);
    game.game_state.words_to_guess.append(&mut guessed_words);
    shuffle(&mut game.game_state.words_to_guess);

    // Shift round
    game.game_state.round += 1;
    game.game_state.is_round_active = true;

    // If less than a second left in round, don't bother
    if game.game_state.timer < 1000 {
        game.game_state.timer = TIMER_START_VALUE;
        rotate_to_next_turn_player(&mut game.game_state);
    }

    NEXT_ROUND_EVENT.to_owned()
}

/// Taking back a guess right after it was made gives back the words to guess and the
/// words guessed, the same words in play (perhaps in another order), the same guesses
/// of every team in every round, and the same teams, clock (whether the game is
/// finished included) and turn. Left out: a game already finished whose last round
/// had one word in play and none to guess, where that guess leaves the last round out
/// of words and taking it back lets the game go on.
pub proof fn law_undo_after_guess(s0: GameState, s1: GameState, s2: GameState, name: Seq<char>, word: Seq<char>)
    requires
        s0.turn_player@ == name,
        texts(s0.words_in_play@).contains(word),
        s0.team_member_to_team_index@.dom().contains(name),
        s0.words_guessed_per_team_per_round@.dom().contains(s0.round),
        s0.words_in_play@.len() <= MAX_WORDS_IN_PLAY,
        !(s0.is_game_finished && s0.round == NUM_ROUNDS && s0.words_to_guess@.len() == 0
            && s0.words_in_play@.len() == 1),
        word_guessed(s0, s1, name, word),
        guess_undone(s1, s2, name),
    ensures
        s2.words_to_guess == s0.words_to_guess,
        s2.words_guessed@ == s0.words_guessed@,
        s2.words_in_play@.to_multiset() == s0.words_in_play@.to_multiset(),
        s2.words_guessed_per_team_per_round@.dom() == s0.words_guessed_per_team_per_round@.dom(),
        forall|r: i32| #[trigger] s2.words_guessed_per_team_per_round@.contains_key(r) && r != s0.round
            ==> s2.words_guessed_per_team_per_round@[r] == s0.words_guessed_per_team_per_round@[r],
        forall|t: i32| #[trigger] team_guesses(s2.words_guessed_per_team_per_round@[s0.round]@, t)
            == team_guesses(s0.words_guessed_per_team_per_round@[s0.round]@, t),
        same_teams(s0, s2),
        same_clock(s0, s2),
        s2.turn_player == s0.turn_player,
        s2.turn_player_index == s0.turn_player_index,
{
    lemma_first_text_index(s0.words_in_play@, word);
    let i = first_text_index(s0.words_in_play@, word);
    let w = s0.words_in_play@[i];
    let team = s0.team_member_to_team_index@[name];
    let g0 = s0.words_guessed_per_team_per_round@[s0.round]@;
    let g1 = s1.words_guessed_per_team_per_round@[s0.round]@;
    let g2 = s2.words_guessed_per_team_per_round@[s0.round]@;
    assert(g1[team]@ == team_guesses(g0, team).push(w));
    assert(g1[team]@.drop_last() =~= team_guesses(g0, team));
    let n = s0.words_guessed@.len() as int;
    assert(s1.words_guessed@[n] == w);
    assert(texts(s1.words_guessed@)[n] == w@);
    lemma_last_text_index_unique(s1.words_guessed@, w@, n);
    assert(s1.words_guessed@.remove(n) =~= s0.words_guessed@);
    assert(s1.words_in_play@.len() < MAX_WORDS_IN_PLAY);
    assert(s2.words_in_play@ == s0.words_in_play@.remove(i).push(w));
    assert forall|t: i32| #[trigger] team_guesses(g2, t) == team_guesses(g0, t) by {
        if t != team {
            assert(g2.contains_key(t) == g0.contains_key(t));
        }
    }
    assert(s2.words_guessed_per_team_per_round@.dom() =~= s0.words_guessed_per_team_per_round@.dom());
}

/// The rotation index after `k` passes of the turn from index `i` in a rotation of `n`.
pub open spec fn rotated_index(i: int, n: int, k: nat) -> int
    decreases k,
{
    if k == 0 {
        i
    } else {
        next_turn_index(rotated_index(i, n, (k - 1) as nat), n)
    }
}

/// The turn goes round the rotation in order: after `k` passes from index `i`, the
/// turn is at index `(i + k) % n`, so every player of the rotation gets the turn
/// once every `n` passes.
pub proof fn law_rotation_cycles(i: int, n: int, k: nat)
    requires
        0 <= i < n,
    ensures
        rotated_index(i, n, k) == (i + k) % n,
    decreases k,
{
    if k == 0 {
        vstd::arithmetic::div_mod::lemma_small_mod(i as nat, n as nat);
    } else {
        law_rotation_cycles(i, n, (k - 1) as nat);
        let x = i + k - 1;
        let q = x / n;
        let j = x % n;
        vstd::arithmetic::div_mod::lemma_fundamental_div_mod(x, n);
        assert(0 <= j < n) by {
            vstd::arithmetic::div_mod::lemma_mod_pos_bound(x, n);
        }
        assert(x == q * n + j) by (nonlinear_arith)
            requires
                x == n * q + j,
        ;
        if j + 1 < n {
            vstd::arithmetic::div_mod::lemma_fundamental_div_mod_converse(x + 1, n, q, j + 1);
        } else {
            assert(x + 1 == (q + 1) * n + 0) by (nonlinear_arith)
                requires
                    x == q * n + j,
                    j + 1 == n,
            ;
            vstd::arithmetic::div_mod::lemma_fundamental_div_mod_converse(x + 1, n, q + 1, 0);
        }
    }
}

/// Each state of `ss` is the one before with the turn passed, in the same rotation.
pub open spec fn turn_passes(ss: Seq<GameState>) -> bool {
    forall|j: int|
        0 <= j < ss.len() - 1 ==> #[trigger] turn_rotated(ss[j], ss[j + 1])
            && ss[j + 1].player_rotation == ss[j].player_rotation
}

proof fn lemma_rotation_steps(ss: Seq<GameState>, k: int)
    requires
        ss.len() >= 1,
        0 <= k < ss.len(),
        ss[0].player_rotation@.len() > 0,
        ss[0].turn_player_index < ss[0].player_rotation@.len(),
        turn_passes(ss),
    ensures
        ss[k].player_rotation == ss[0].player_rotation,
        ss[k].turn_player_index == rotated_index(
            ss[0].turn_player_index as int,
            ss[0].player_rotation@.len() as int,
            k as nat,
        ),
    decreases k,
{
    if k > 0 {
        lemma_rotation_steps(ss, k - 1);
        let j = k - 1;
        assert(turn_rotated(ss[j], ss[j + 1]) && ss[j + 1].player_rotation == ss[j].player_rotation);
    }
}

/// Passing the turn once for each player of the rotation, from any player, gives each
/// player of the rotation the turn exactly once, in the rotation's order, and brings the
/// turn back to where it started: after `k` passes the turn is at index `(i + k) % n`.
pub proof fn law_rotation_round_trip(ss: Seq<GameState>)
    requires
        ss[0].player_rotation@.len() > 0,
        ss.len() == ss[0].player_rotation@.len() + 1,
        ss[0].turn_player_index < ss[0].player_rotation@.len(),
        turn_passes(ss),
    ensures
        ({
            let n = ss[0].player_rotation@.len() as int;
            let i = ss[0].turn_player_index as int;
            &&& forall|k: int|
                1 <= k <= n ==> #[trigger] ss[k].turn_player_index == (i + k) % n
                    && ss[k].turn_player == ss[0].player_rotation@[(i + k) % n]
            &&& forall|j: int, k: int|
                1 <= j < k <= n ==> #[trigger] ss[j].turn_player_index
                    != #[trigger] ss[k].turn_player_index
            &&& ss[n].turn_player_index == ss[0].turn_player_index
        }),
{
    let n = ss[0].player_rotation@.len() as int;
    let i = ss[0].turn_player_index as int;
    assert forall|k: int| 1 <= k <= n implies #[trigger] ss[k].turn_player_index == (i + k) % n
        && ss[k].turn_player == ss[0].player_rotation@[(i + k) % n] by {
        lemma_rotation_steps(ss, k);
        law_rotation_cycles(i, n, k as nat);
        let j = k - 1;
        assert(turn_rotated(ss[j], ss[j + 1]));
        lemma_rotation_steps(ss, j);
    }
    assert forall|j: int, k: int| 1 <= j < k <= n implies #[trigger] ss[j].turn_player_index
        != #[trigger] ss[k].turn_player_index by {
        assert(ss[j].turn_player_index == (i + j) % n);
        assert(ss[k].turn_player_index == (i + k) % n);
        vstd::arithmetic::div_mod::lemma_fundamental_div_mod(i + j, n);
        vstd::arithmetic::div_mod::lemma_fundamental_div_mod(i + k, n);
        let qj = (i + j) / n;
        let qk = (i + k) / n;
        if (i + j) % n == (i + k) % n {
            assert(k - j == n * (qk - qj)) by (nonlinear_arith)
                requires
                    i + j == n * qj + (i + j) % n,
                    i + k == n * qk + (i + k) % n,
                    (i + j) % n == (i + k) % n,
            ;
            assert(false) by (nonlinear_arith)
                requires
                    k - j == n * (qk - qj),
                    0 < k - j < n,
            ;
        }
    }
    lemma_rotation_steps(ss, n);
    law_rotation_cycles(i, n, n as nat);
    vstd::arithmetic::div_mod::lemma_mod_add_multiples_vanish(i, n);
    vstd::arithmetic::div_mod::lemma_small_mod(i as nat, n as nat);
}

} // verus!
