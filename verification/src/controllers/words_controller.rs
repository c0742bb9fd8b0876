use vstd::prelude::*;

use crate::constants::{NEW_WORD_EVENT_PREFIX, WORD_REMOVED_EVENT_PREFIX};
use crate::controllers::errors::GameError;
use crate::extentions::arc_string::ArcString;
use crate::extentions::name_map::texts;
use crate::extentions::text::concat_text;
use crate::extentions::vec_utils::{
    find_text, lemma_remove_first_text_counts, lemma_remove_first_text_pushed,
    lemma_remove_first_text_pushed_texts,
    remove_first_text, RemoveElem,
};
use crate::models::game::{players_consistent, same_but_words_per_player, Game};

verus! {

/// How many words the player has added, as counted in `m` (none if no entry).
pub open spec fn words_added(m: Map<Seq<char>, usize>, name: Seq<char>) -> usize {
    if m.contains_key(name) {
        m[name]
    } else {
        0
    }
}

/// What an added or removed word gives back: the word, the player's word limit and
/// the event to send.
pub struct WordOutcome {
    pub word: String,
    pub word_limit: usize,
    pub event: String,
}

/// The text of the events about a player's word: the prefix, the name, `/`, the word.
pub open spec fn word_event(prefix: Seq<char>, name: Seq<char>, word: Seq<char>) -> Seq<char> {
    prefix + name + "/"@ + word
}

fn word_event_text(prefix: &str, name: &str, word: &str) -> (e: String)
    ensures
        e@ == word_event(prefix@, name@, word@),
{
    let name_and_slash = concat_text(name, "/");
    let tail = concat_text(name_and_slash.as_str(), word);
    let e = concat_text(prefix, tail.as_str());
    assert(e@ =~= word_event(prefix@, name@, word@));
    e
}

/// `a` is `b` once the player `name` has added a word with text `word`: it is the last
/// of the game's words and of the player's words, and the player's count goes up by one.
pub open spec fn word_added_to(b: Game, a: Game, name: Seq<char>, word: Seq<char>) -> bool {
    let count = words_added(b.num_words_per_player@, name);
    let wpp = b.game_state.words_per_player@;
    &&& a.words@.len() == b.words@.len() + 1
    &&& a.words@.drop_last() =~= b.words@
    &&& a.words@.last()@ == word
    &&& a.game_state.words_per_player@ =~= wpp.insert(name, a.game_state.words_per_player@[name])
    &&& a.game_state.words_per_player@[name]@ =~= wpp[name]@.push(a.words@.last())
    &&& a.num_words_per_player@ =~= b.num_words_per_player@.insert(name, (count + 1) as usize)
    &&& same_but_words_per_player(b.game_state, a.game_state)
    &&& a.id == b.id
    &&& a.players == b.players
    &&& a.words_per_player_limit == b.words_per_player_limit
    &&& a.host_name == b.host_name
    &&& a.auth_secret == b.auth_secret
}

/// `a` is `b` once the player `name` has removed a word with text `word`: the first
/// such word leaves the player's words and the first such word leaves the game's
/// words, and the player's count goes down by one.
pub open spec fn word_deleted_from(b: Game, a: Game, name: Seq<char>, word: Seq<char>) -> bool {
    let nums = b.num_words_per_player@;
    let wpp = b.game_state.words_per_player@;
    &&& a.game_state.words_per_player@ =~= wpp.insert(name, a.game_state.words_per_player@[name])
    &&& a.game_state.words_per_player@[name]@ =~= remove_first_text(wpp[name]@, word)
    &&& a.words@ =~= remove_first_text(b.words@, word)
    &&& a.num_words_per_player@ =~= nums.insert(name, (nums[name] - 1) as usize)
    &&& same_but_words_per_player(b.game_state, a.game_state)
    &&& a.id == b.id
    &&& a.players == b.players
    &&& a.words_per_player_limit == b.words_per_player_limit
    &&& a.host_name == b.host_name
    &&& a.auth_secret == b.auth_secret
}

/// Before the start, a player of the game adds a word, up to the game's limit per
/// player; once the game has started, no word is added. A player's count of words starts at zero on their first try.
pub fn add_word(game: &mut Game, name: &str, word: &str) -> (r: Result<WordOutcome, GameError>)
    requires
        old(game).wf(),
        !old(game).game_state.has_game_started && texts(old(game).players@).contains(name@)
            && words_added(old(game).num_words_per_player@, name@) < old(
            game,
        ).words_per_player_limit ==> old(game).game_state.words_per_player@.dom().contains(name@),
    ensures
        players_consistent(*old(game)) ==> players_consistent(*final(game)),
        final(game).wf(),
        final(game).words_per_player_limit == old(game).words_per_player_limit,
        forall|n: Seq<char>|
            #[trigger] words_added(old(game).num_words_per_player@, n)
                <= old(game).words_per_player_limit ==> words_added(
                final(game).num_words_per_player@,
                n,
            ) <= final(game).words_per_player_limit,
        old(game).game_state.has_game_started ==> r is Err && r->Err_0
            == GameError::GameAlreadyStarted && *final(game) == *old(game),
        !old(game).game_state.has_game_started && !texts(old(game).players@).contains(name@) ==> r is Err
            && r->Err_0 == GameError::PlayerNotInGame && *final(game) == *old(game),
        !old(game).game_state.has_game_started && texts(old(game).players@).contains(name@) ==> {
            let count = words_added(old(game).num_words_per_player@, name@);
            let wpp = old(game).game_state.words_per_player@;
            &&& count >= old(game).words_per_player_limit ==> {
                &&& r is Err && r->Err_0 == GameError::CannotAddMoreWords
                &&& final(game).num_words_per_player@ == old(game).num_words_per_player@.insert(
                    name@,
                    count,
                )
                &&& final(game).words == old(game).words
                &&& final(game).game_state == old(game).game_state
            }
            &&& count < old(game).words_per_player_limit ==> {
                &&& r is Ok
                &&& r->Ok_0.word@ == word@
                &&& r->Ok_0.word_limit == old(game).words_per_player_limit
                &&& r->Ok_0.event@ == word_event(NEW_WORD_EVENT_PREFIX@, name@, word@)
                &&& word_added_to(*old(game), *final(game), name@, word@)
            }
            &&& final(game).id == old(game).id
            &&& final(game).players == old(game).players
            &&& final(game).words_per_player_limit == old(game).words_per_player_limit
            &&& final(game).host_name == old(game).host_name
            &&& final(game).auth_secret == old(game).auth_secret
        },
{
    // Words are added before the start of the game
    if game.game_state.has_game_started {
        return Err(GameError::GameAlreadyStarted);
    }
    let name_arc = ArcString::from_str(name);
    if find_text(&game.players, &name_arc).is_none() {
        return Err(GameError::PlayerNotInGame);
    }

    // Init number of words added per player if necessary
    if !game.num_words_per_player.contains_key(&name_arc) {
        game.num_words_per_player.insert(name_arc.clone(), 0);
    }
    let count: usize = *game.num_words_per_player.get(&name_arc).unwrap();

    if count < game.words_per_player_limit {
        // Add the word
        let word_arc = ArcString::from_str(word);
        game.words.push(word_arc.clone());

        let (key, mut player_words) = game.game_state.words_per_player.remove_entry(&name_arc).unwrap();
        player_words.push(word_arc);
        game.game_state.words_per_player.insert(key, player_words);

        let event = word_event_text(NEW_WORD_EVENT_PREFIX, name, word);
        game.num_words_per_player.insert(name_arc, count + 1);

        let ghost wpp = old(game).game_state.words_per_player@;
        assert(game.game_state.words_per_player@ =~= wpp.insert(
            name@,
            game.game_state.words_per_player@[name@],
        ));
        assert(game.num_words_per_player@ =~= old(game).num_words_per_player@.insert(
            name@,
            (count + 1) as usize,
        ));
        Ok(WordOutcome { word: word.to_owned(), word_limit: game.words_per_player_limit, event })
    } else {
        assert(game.num_words_per_player@ =~= old(game).num_words_per_player@.insert(
            name@,
            count,
        ));
        Err(GameError::CannotAddMoreWords)
    }
}

/// Before the start, a player removes a word they added; it leaves their words and the
/// game's words, and their count goes down by one.
pub fn delete_word(game: &mut Game, name: &str, word: &str) -> (r: Result<WordOutcome, GameError>)
    requires
        old(game).wf(),
        words_added(old(game).num_words_per_player@, name@) > 0 ==> old(game).game_state.words_per_player@.dom().contains(name@),
    ensures
        players_consistent(*old(game)) ==> players_consistent(*final(game)),
        final(game).wf(),
        final(game).words_per_player_limit == old(game).words_per_player_limit,
        forall|n: Seq<char>|
            #[trigger] words_added(old(game).num_words_per_player@, n)
                <= old(game).words_per_player_limit ==> words_added(
                final(game).num_words_per_player@,
                n,
            ) <= final(game).words_per_player_limit,
        ({
            let nums = old(game).num_words_per_player@;
            let wpp = old(game).game_state.words_per_player@;
            &&& !nums.contains_key(name@) ==> r is Err && r->Err_0 == GameError::PlayerDoesNotExist
                && *final(game) == *old(game)
            &&& nums.contains_key(name@) && nums[name@] == 0 ==> r is Err && r->Err_0
                == GameError::PlayerHasNoWords && *final(game) == *old(game)
            &&& nums.contains_key(name@) && nums[name@] > 0 && !texts(wpp[name@]@).contains(word@)
                ==> r is Err && r->Err_0 == GameError::WordNotFound && *final(game) == *old(game)
            &&& nums.contains_key(name@) && nums[name@] > 0 && texts(wpp[name@]@).contains(word@)
                ==> {
                &&& r is Ok
                &&& r->Ok_0.word@ == word@
                &&& r->Ok_0.word_limit == old(game).words_per_player_limit
                &&& r->Ok_0.event@ == word_event(WORD_REMOVED_EVENT_PREFIX@, name@, word@)
                &&& word_deleted_from(*old(game), *final(game), name@, word@)
            }
        }),
{
    let name_arc = ArcString::from_str(name);
    let word_arc = ArcString::from_str(word);

    // Decrease number of words added per player if necessary
    let num: usize = match game.num_words_per_player.get(&name_arc) {
        Some(num) => *num,
        None => return Err(GameError::PlayerDoesNotExist),
    };
    if num == 0 {
        return Err(GameError::PlayerHasNoWords);
    }
    if find_text(game.game_state.words_per_player.get(&name_arc).unwrap(), &word_arc).is_none() {
        return Err(GameError::WordNotFound);
    }

    // Remove the word from player's list
    let (key, mut player_words) = game.game_state.words_per_player.remove_entry(&name_arc).unwrap();
    player_words.remove_element(word_arc.clone());
    game.game_state.words_per_player.insert(key, player_words);

    // Remove the word from all game words
    game.words.remove_element(word_arc);
    game.num_words_per_player.insert(name_arc, num - 1);

    let ghost wpp = old(game).game_state.words_per_player@;
    assert(game.game_state.words_per_player@ =~= wpp.insert(
        name@,
        game.game_state.words_per_player@[name@],
    ));
    assert(game.num_words_per_player@ =~= old(game).num_words_per_player@.insert(
        name@,
        (num - 1) as usize,
    ));

    // Tell everyone a word was removed
    let event = word_event_text(WORD_REMOVED_EVENT_PREFIX, name, word);
    Ok(WordOutcome { word: word.to_owned(), word_limit: game.words_per_player_limit, event })
}

/// Removing a word right after adding it gives back the game's words and the player's
/// words, each text as often as before (the very same sequences where no word had that
/// text before), the other players' words, and the player's count as it was (a count of
/// zero where there was none).
pub proof fn law_delete_undoes_add(g0: Game, g1: Game, g2: Game, name: Seq<char>, word: Seq<char>)
    requires
        words_added(g0.num_words_per_player@, name) < g0.words_per_player_limit,
        g0.game_state.words_per_player@.dom().contains(name),
        word_added_to(g0, g1, name, word),
        word_deleted_from(g1, g2, name, word),
    ensures
        texts(g2.words@).to_multiset() == texts(g0.words@).to_multiset(),
        !texts(g0.words@).contains(word) ==> g2.words@ == g0.words@,
        g2.game_state.words_per_player@.dom() == g0.game_state.words_per_player@.dom(),
        forall|n: Seq<char>| #[trigger] g2.game_state.words_per_player@.contains_key(n) && n != name
            ==> g2.game_state.words_per_player@[n] == g0.game_state.words_per_player@[n],
        texts(g2.game_state.words_per_player@[name]@).to_multiset() == texts(
            g0.game_state.words_per_player@[name]@,
        ).to_multiset(),
        !texts(g0.game_state.words_per_player@[name]@).contains(word)
            ==> g2.game_state.words_per_player@[name]@ == g0.game_state.words_per_player@[name]@,
        g2.num_words_per_player@ == g0.num_words_per_player@.insert(
            name,
            words_added(g0.num_words_per_player@, name),
        ),
        same_but_words_per_player(g0.game_state, g2.game_state),
        g2.players == g0.players,
{
    let w = g1.words@.last();
    assert(g1.words@ =~= g0.words@.push(w));
    lemma_remove_first_text_pushed_texts(g0.words@, w);
    if !texts(g0.words@).contains(word) {
        lemma_remove_first_text_pushed(g0.words@, w);
    }
    let own = g0.game_state.words_per_player@[name]@;
    lemma_remove_first_text_pushed_texts(own, w);
    if !texts(own).contains(word) {
        lemma_remove_first_text_pushed(own, w);
    }
    assert(g2.game_state.words_per_player@.dom() =~= g0.game_state.words_per_player@.dom());
    assert(g2.num_words_per_player@ =~= g0.num_words_per_player@.insert(
        name,
        words_added(g0.num_words_per_player@, name),
    ));
}

/// Removing a word takes exactly one word with its text out of the game's words, where
/// there is one, whichever word was added last, and leaves every other text as often as
/// it was; the same holds of the player's own words.
pub proof fn law_delete_removes_one_occurrence(b: Game, a: Game, name: Seq<char>, word: Seq<char>)
    requires
        word_deleted_from(b, a, name, word),
    ensures
        texts(a.words@).to_multiset() == texts(b.words@).to_multiset().remove(word),
        texts(b.words@).contains(word) ==> texts(a.words@).to_multiset().count(word)
            == texts(b.words@).to_multiset().count(word) - 1,
        forall|t: Seq<char>| t != word ==> #[trigger] texts(a.words@).to_multiset().count(t)
            == texts(b.words@).to_multiset().count(t),
        texts(a.game_state.words_per_player@[name]@).to_multiset() == texts(
            b.game_state.words_per_player@[name]@,
        ).to_multiset().remove(word),
{
    broadcast use vstd::seq_lib::group_to_multiset_ensures, vstd::multiset::group_multiset_axioms;

    lemma_remove_first_text_counts(b.words@, word);
    lemma_remove_first_text_counts(b.game_state.words_per_player@[name]@, word);
    if texts(b.words@).contains(word) {
        assert(texts(b.words@).to_multiset().count(word) > 0);
    }
}

} // verus!
