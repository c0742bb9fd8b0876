use std::collections::HashMap;
use vstd::prelude::*;

use crate::constants::TIMER_START_VALUE;
use crate::extentions::arc_string::ArcString;
use crate::extentions::name_map::NameMap;
use crate::extentions::random::shuffle;
use crate::models::game::{
    first_players_upto, paired_team_index, paired_teammates, second_players_upto, team_seqs,
    teams_upto,
};

verus! {

broadcast use vstd::std_specs::hash::group_hash_axioms;

/// The first form of the game state, with plain strings and a count of guesses per team.
pub struct GameState {
    /// Milliseconds left in the turn, from 0 to `TIMER_START_VALUE`.
    pub timer: i32,
    pub turn_player: String,
    pub turn_player_index: usize,
    pub num_words_guessed_per_team: HashMap<i32, i32>,
    pub teams: Vec<Vec<String>>,
    pub teammates: NameMap<String>,
    pub team_member_to_team_index: NameMap<i32>,
    pub player_rotation: Vec<String>,
    pub words_guessed: Vec<String>,
    pub words_in_play: Vec<String>,
    pub words_to_guess: Vec<String>,
    pub round: i32,
    pub is_turn_active: bool,
    pub is_round_active: bool,
}

impl GameState {
    pub open spec fn wf(&self) -> bool {
        &&& self.teammates.wf()
        &&& self.team_member_to_team_index.wf()
    }
}

/// The first form of a game: its players and words, and its state.
pub struct Game {
    pub id: i32,
    pub players: Vec<String>,
    pub words: Vec<String>,
    pub words_per_player_limit: usize,
    pub num_words_per_player: NameMap<usize>,
    pub game_state: GameState,
}

/// The state of a game that has not started and has no turn player yet.
pub open spec fn is_initial_state(s: GameState) -> bool {
    &&& s.wf()
    &&& s.timer == TIMER_START_VALUE
    &&& s.turn_player@.len() == 0
    &&& s.turn_player_index == 0
    &&& s.num_words_guessed_per_team@ == Map::<i32, i32>::empty()
    &&& s.teams@.len() == 0
    &&& s.teammates@ == Map::<Seq<char>, String>::empty()
    &&& s.team_member_to_team_index@ == Map::<Seq<char>, i32>::empty()
    &&& s.player_rotation@.len() == 0
    &&& s.words_guessed@.len() == 0
    &&& s.words_in_play@.len() == 0
    &&& s.words_to_guess@.len() == 0
    &&& s.round == 1
    &&& !s.is_turn_active
    &&& s.is_round_active
}

/// The state of a game before its start.
pub fn init_game_state() -> (s: GameState)
    ensures
        is_initial_state(s),
{
    GameState {
        timer: TIMER_START_VALUE,
        turn_player: String::new(),
        turn_player_index: 0,
        num_words_guessed_per_team: HashMap::new(),
        teams: Vec::new(),
        teammates: NameMap::new(),
        team_member_to_team_index: NameMap::new(),
        player_rotation: Vec::new(),
        words_guessed: Vec::new(),
        words_in_play: Vec::new(),
        words_to_guess: Vec::new(),
        round: 1,
        is_turn_active: false,
        is_round_active: true,
    }
}

/// A game whose only player is its owner, with a word limit per player.
pub fn init_game(id: i32, owner_name: &str, words_per_player_limit: usize) -> (game: Game)
    ensures
        game.id == id,
        game.players@.len() == 1,
        game.players@[0]@ == owner_name@,
        game.words@.len() == 0,
        game.words_per_player_limit == words_per_player_limit,
        game.num_words_per_player.wf(),
        game.num_words_per_player@ == Map::<Seq<char>, usize>::empty(),
        is_initial_state(game.game_state),
{
    let mut game = Game {
        id,
        players: Vec::new(),
        words: Vec::new(),
        words_per_player_limit,
        num_words_per_player: NameMap::new(),
        game_state: init_game_state(),
    };
    game.players.push(owner_name.to_owned());
    game
}

/// Shuffles the players and splits them in teams of two neighbours (a last player
/// alone where their number is odd), records teammates and team indices, and sets the
/// rotation: the first players of the teams, then the second ones; its first player
/// has the turn.
pub fn init_teams(game_state: &mut GameState, players: &mut Vec<String>)
    requires
        old(game_state).wf(),
        old(players)@.len() + old(game_state).player_rotation@.len() > 0,
        old(players)@.len() / 2 <= i32::MAX,
    ensures
        final(game_state).wf(),
        final(players)@.to_multiset() == old(players)@.to_multiset(),
        ({
            let p = final(players)@;
            let n = p.len() as int;
            let (b, a) = (*old(game_state), *final(game_state));
            &&& team_seqs(a.teams@) == team_seqs(b.teams@) + teams_upto(p, n)
            &&& a.teammates@ == paired_teammates(b.teammates@, p, (n / 2) as nat)
            &&& a.team_member_to_team_index@ == paired_team_index(
                b.team_member_to_team_index@,
                p,
                (n / 2) as nat,
            )
            &&& a.player_rotation@ == b.player_rotation@ + first_players_upto(p, n)
                + second_players_upto(p, n)
            &&& a.player_rotation@.len() > 0
            &&& a.turn_player == a.player_rotation@[0]
            &&& a.turn_player_index == 0
            &&& a.timer == b.timer
            &&& a.num_words_guessed_per_team == b.num_words_guessed_per_team
            &&& a.words_guessed == b.words_guessed
            &&& a.words_in_play == b.words_in_play
            &&& a.words_to_guess == b.words_to_guess
            &&& a.round == b.round
            &&& a.is_turn_active == b.is_turn_active
            &&& a.is_round_active == b.is_round_active
        }),
{
    shuffle(players);
    let ghost p = players@;
    let ghost old_teams = team_seqs(game_state.teams@);
    let ghost old_teammates = game_state.teammates@;
    let ghost old_index = game_state.team_member_to_team_index@;

    let mut first_players: Vec<String> = Vec::new();
    let mut second_players: Vec<String> = Vec::new();
    let mut is_first_player_in_team: bool = true;
    let mut current_player: String = String::new();
    let mut team_index: i32 = 0;
    let mut i: usize = 0;
    while i < players.len()
        invariant
            players@ == p,
            p.len() / 2 <= i32::MAX,
            i <= p.len(),
            game_state.wf(),
            is_first_player_in_team <==> i % 2 == 0,
            team_index == i / 2,
            i % 2 == 1 ==> current_player == p[i - 1],
            team_seqs(game_state.teams@) == old_teams + teams_upto(p, i as int),
            first_players@ == first_players_upto(p, i as int),
            second_players@ == second_players_upto(p, i as int),
            game_state.teammates@ == paired_teammates(old_teammates, p, (i / 2) as nat),
            game_state.team_member_to_team_index@ == paired_team_index(old_index, p, (i / 2) as nat),
            game_state.player_rotation == old(game_state).player_rotation,
            game_state.timer == old(game_state).timer,
            game_state.num_words_guessed_per_team == old(game_state).num_words_guessed_per_team,
            game_state.words_guessed == old(game_state).words_guessed,
            game_state.words_in_play == old(game_state).words_in_play,
            game_state.words_to_guess == old(game_state).words_to_guess,
            game_state.round == old(game_state).round,
            game_state.is_turn_active == old(game_state).is_turn_active,
            game_state.is_round_active == old(game_state).is_round_active,
        decreases p.len() - i,
    {
        let player = players[i].clone();
        if is_first_player_in_team {
            let ghost teams_before = game_state.teams@;
            let mut team: Vec<String> = Vec::new();
            team.push(player.clone());
            game_state.teams.push(team);
            is_first_player_in_team = false;
            current_player = player.clone();
            first_players.push(player);
            proof {
                let n = i as int;
                assert(teams_upto(p, n + 1) =~= teams_upto(p, n).push(seq![p[n]]));
                assert(team_seqs(game_state.teams@) =~= team_seqs(teams_before).push(seq![p[n]]));
                assert(first_players@ =~= first_players_upto(p, n + 1));
                assert(second_players_upto(p, n) =~= second_players_upto(p, n + 1));
            }
        } else {
            let ghost teams_before = game_state.teams@;
            assert(team_seqs(teams_before).len() == teams_before.len());
            let last = game_state.teams.len() - 1;
            game_state.teams[last].push(player.clone());
            is_first_player_in_team = true;

            game_state.teammates.insert(ArcString::new(player.clone()), current_player.clone());
            game_state.teammates.insert(ArcString::new(current_player.clone()), player.clone());
            game_state.team_member_to_team_index.insert(ArcString::new(player.clone()), team_index);
            game_state.team_member_to_team_index.insert(
                ArcString::new(current_player.clone()),
                team_index,
            );
            team_index += 1;

            second_players.push(player);
            proof {
                let n = i as int;
                assert(teams_upto(p, n + 1) =~= teams_upto(p, n).update(
                    (n - 1) / 2,
                    seq![p[n - 1], p[n]],
                ));
                let last_i = last as int;
                assert(team_seqs(teams_before)[last_i] == teams_upto(p, n)[(n - 1) / 2]);
                assert(team_seqs(game_state.teams@) =~= team_seqs(teams_before).update(
                    last_i,
                    teams_before[last_i]@.push(p[n]),
                ));
                assert(teams_before[last_i]@.push(p[n]) =~= seq![p[n - 1], p[n]]);
                assert(team_seqs(game_state.teams@) =~= old_teams + teams_upto(p, n + 1));
                assert(first_players_upto(p, n) =~= first_players_upto(p, n + 1));
                assert(second_players@ =~= second_players_upto(p, n + 1));
            }
        }
        i = i + 1;
    }

    game_state.player_rotation.append(&mut first_players);
    game_state.player_rotation.append(&mut second_players);
    let starting_player = game_state.player_rotation[0].clone();
    game_state.turn_player = starting_player;
    game_state.turn_player_index = 0;
}

} // verus!
