use std::collections::HashMap;
use vstd::multiset::Multiset;
use vstd::prelude::*;

use crate::constants::{NUM_ROUNDS, TIMER_START_VALUE};
use crate::extentions::arc_string::ArcString;
use crate::extentions::name_map::{texts, NameMap};
use crate::extentions::random::shuffle;

verus! {

broadcast use vstd::std_specs::hash::group_hash_axioms, vstd::seq_lib::group_to_multiset_ensures, vstd::seq_lib::lemma_multiset_commutative;

/// Words guessed, per round and then per team index.
pub type GuessesPerRound = HashMap<i32, HashMap<i32, Vec<ArcString>>>;

/// Everything needed to run the turns of a game.
pub struct GameState {
    /// Milliseconds left in the turn, from 0 to `TIMER_START_VALUE`.
    pub timer: i32,
    pub turn_player: ArcString,
    pub turn_player_index: usize,
    pub words_guessed_per_team_per_round: GuessesPerRound,
    pub words_per_player: NameMap<Vec<ArcString>>,
    pub teams: Vec<Vec<ArcString>>,
    pub teammates: NameMap<ArcString>,
    pub team_member_to_team_index: NameMap<i32>,
    pub player_rotation: Vec<ArcString>,
    pub words_guessed: Vec<ArcString>,
    /// At most `MAX_WORDS_IN_PLAY` words.
    pub words_in_play: Vec<ArcString>,
    pub words_to_guess: Vec<ArcString>,
    /// From 1 to `NUM_ROUNDS`.
    pub round: i32,
    pub is_turn_active: bool,
    pub is_round_active: bool,
    pub is_game_finished: bool,
    pub has_game_started: bool,
}

impl GameState {
    /// The name maps are well formed, and the words guessed are kept for each round of
    /// the game, from 1 to `NUM_ROUNDS`, and no other.
    pub open spec fn wf(&self) -> bool {
        &&& self.words_per_player.wf()
        &&& self.teammates.wf()
        &&& self.team_member_to_team_index.wf()
        &&& forall|r: i32| #[trigger] self.words_guessed_per_team_per_round@.dom().contains(r)
            <==> 1 <= r <= NUM_ROUNDS
    }
}

/// A game: its players and their words before the start, and its state.
pub struct Game {
    pub id: i32,
    pub players: Vec<ArcString>,
    pub words: Vec<ArcString>,
    pub words_per_player_limit: usize,
    pub num_words_per_player: NameMap<usize>,
    pub game_state: GameState,
    pub host_name: ArcString,
    /// Random string used for the auth tokens of the game's players.
    pub auth_secret: String,
}

impl Game {
    pub open spec fn wf(&self) -> bool {
        &&& self.num_words_per_player.wf()
        &&& self.game_state.wf()
    }
}

/// The words guessed per round right after initialization: an empty map per round.
pub open spec fn fresh_guesses(m: Map<i32, HashMap<i32, Vec<ArcString>>>) -> bool {
    &&& forall|r: i32| m.dom().contains(r) <==> 1 <= r <= NUM_ROUNDS
    &&& forall|r: i32| #[trigger] m.dom().contains(r) ==> m[r]@ == Map::<i32, Vec<ArcString>>::empty()
}

/// The state of a game that has not started, with its owner to play first.
pub open spec fn is_initial_state(s: GameState, owner: Seq<char>) -> bool {
    &&& s.wf()
    &&& s.timer == TIMER_START_VALUE
    &&& s.turn_player@ == owner
    &&& s.turn_player_index == 0
    &&& fresh_guesses(s.words_guessed_per_team_per_round@)
    &&& s.words_per_player@.dom() == set![owner]
    &&& s.words_per_player@[owner]@.len() == 0
    &&& s.teams@.len() == 0
    &&& s.teammates@ == Map::<Seq<char>, ArcString>::empty()
    &&& s.team_member_to_team_index@ == Map::<Seq<char>, i32>::empty()
    &&& s.player_rotation@.len() == 0
    &&& s.words_guessed@.len() == 0
    &&& s.words_in_play@.len() == 0
    &&& s.words_to_guess@.len() == 0
    &&& s.round == 1
    &&& !s.is_turn_active
    &&& s.is_round_active
    &&& !s.is_game_finished
    &&& !s.has_game_started
}

/// An upper-case hexadecimal digit.
pub open spec fn is_upper_hex_digit(c: char) -> bool {
    ('0' <= c && c <= '9') || ('A' <= c && c <= 'F')
}

/// Text in the form `XXXXXXXX-XXXX-XXXX-XXXX-XXXXXXXXXXXX`: 36 characters, dashes at
/// indices 8, 13, 18 and 23, and upper-case hexadecimal digits elsewhere.
pub open spec fn is_guid_text(s: Seq<char>) -> bool {
    &&& s.len() == 36
    &&& forall|i: int|
        0 <= i < 36 ==> if i == 8 || i == 13 || i == 18 || i == 23 {
            #[trigger] s[i] == '-'
        } else {
            is_upper_hex_digit(s[i])
        }
}

/// `GUID::rand().to_string()` (guid-create): sixteen random bytes written through its
/// `Display` as `{:08X}-{:04X}-{:04X}-{:04X}-{:08X}{:04X}` of the bytes read as big-endian
/// numbers of 4, 2, 2, 2, 4 and 2 bytes; which digits come out rests on chance.
#[verifier::external_body]
fn new_auth_secret() -> (s: String)
    ensures
        is_guid_text(s@),
{
    guid_create::GUID::rand().to_string()
}

/// Initializes the game state with its owner as the first turn player.
pub fn init_game_state(owner_name: ArcString) -> (s: GameState)
    ensures
        is_initial_state(s, owner_name@),
{
    let mut words_guessed_per_team_per_round: GuessesPerRound = HashMap::new();
    let mut i: i32 = 1;
    while i < NUM_ROUNDS + 1
        invariant
            1 <= i <= NUM_ROUNDS + 1,
            forall|r: i32| words_guessed_per_team_per_round@.dom().contains(r) <==> 1 <= r < i,
            forall|r: i32| #[trigger] words_guessed_per_team_per_round@.dom().contains(r)
                ==> words_guessed_per_team_per_round@[r]@ == Map::<i32, Vec<ArcString>>::empty(),
        decreases NUM_ROUNDS + 1 - i,
    {
        words_guessed_per_team_per_round.insert(i, HashMap::new());
        i = i + 1;
    }

    let mut words_per_player: NameMap<Vec<ArcString>> = NameMap::new();
    words_per_player.insert(owner_name.clone(), Vec::new());

    GameState {
        timer: TIMER_START_VALUE,
        turn_player: owner_name,
        turn_player_index: 0,
        words_guessed_per_team_per_round,
        words_per_player,
        teams: Vec::new(),
        teammates: NameMap::new(),
        team_member_to_team_index: NameMap::new(),
        player_rotation: Vec::new(),
        words_guessed: Vec::new(),
        words_in_play: Vec::new(),
        words_to_guess: Vec::new(),
        round: 1,
        is_turn_active: false,
        is_round_active: true,
        is_game_finished: false,
        has_game_started: false,
    }
}

/// Initializes a game with its owner (the host) as its only player and a word limit per player.
pub fn init_game(id: i32, owner_name: &str, words_per_player_limit: usize) -> (game: Game)
    ensures
        game.wf(),
        game.id == id,
        game.players@.len() == 1,
        game.players@[0]@ == owner_name@,
        game.words@.len() == 0,
        game.words_per_player_limit == words_per_player_limit,
        game.num_words_per_player@ == Map::<Seq<char>, usize>::empty(),
        is_initial_state(game.game_state, owner_name@),
        game.host_name@ == owner_name@,
        is_guid_text(game.auth_secret@),
        players_consistent(game),
{
    let owner = ArcString::from_str(owner_name);
    let mut game = Game {
        id,
        players: vec![owner.clone()],
        words: Vec::new(),
        words_per_player_limit,
        num_words_per_player: NameMap::new(),
        game_state: init_game_state(owner.clone()),
        host_name: owner.clone(),
        auth_secret: new_auth_secret(),
    };
    game.game_state.words_per_player.insert(owner, Vec::new());
    assert(game.game_state.words_per_player@.dom() =~= set![owner_name@]);
    assert(texts(game.players@) =~= seq![owner_name@]);
    assert(texts(game.players@).to_set() =~= set![owner_name@]) by {
        assert(texts(game.players@)[0] == owner_name@);
    }
    game
}

/// Team `k` when the first `n` players of `p` are split in pairs of neighbours:
/// the players at `2k` and `2k + 1`, or the one at `2k` alone where the players end there.
pub open spec fn team_at<A>(p: Seq<A>, n: int, k: int) -> Seq<A> {
    if 2 * k + 1 < n {
        seq![p[2 * k], p[2 * k + 1]]
    } else {
        seq![p[2 * k]]
    }
}

/// The teams formed by the first `n` players of `p`.
pub open spec fn teams_upto<A>(p: Seq<A>, n: int) -> Seq<Seq<A>> {
    Seq::new(((n + 1) / 2) as nat, |k: int| team_at(p, n, k))
}

/// The first player of each team formed by the first `n` players of `p`.
pub open spec fn first_players_upto<A>(p: Seq<A>, n: int) -> Seq<A> {
    Seq::new(((n + 1) / 2) as nat, |k: int| p[2 * k])
}

/// The second player of each full team formed by the first `n` players of `p`.
pub open spec fn second_players_upto<A>(p: Seq<A>, n: int) -> Seq<A> {
    Seq::new((n / 2) as nat, |k: int| p[2 * k + 1])
}

/// `m` after recording, for each of the first `n` pairs of `p`, each player of the pair
/// as the teammate of the other.
pub open spec fn paired_teammates<A: View<V = Seq<char>>>(m: Map<Seq<char>, A>, p: Seq<A>, n: nat) -> Map<
    Seq<char>,
    A,
>
    decreases n,
{
    if n == 0 {
        m
    } else {
        let k = n - 1;
        paired_teammates(m, p, k as nat).insert(p[2 * k + 1]@, p[2 * k]).insert(
            p[2 * k]@,
            p[2 * k + 1],
        )
    }
}

/// `m` after recording, for each of the first `n` pairs of `p`, the pair's index
/// as the team index of both its players.
pub open spec fn paired_team_index<A: View<V = Seq<char>>>(m: Map<Seq<char>, i32>, p: Seq<A>, n: nat) -> Map<
    Seq<char>,
    i32,
>
    decreases n,
{
    if n == 0 {
        m
    } else {
        let k = n - 1;
        paired_team_index(m, p, k as nat).insert(p[2 * k + 1]@, k as i32).insert(p[2 * k]@, k as i32)
    }
}

/// `after` is `before` once the players `p`, in this order, have been split in teams:
/// the teams, teammates and team indices of `p` are added, the rotation is extended
/// by the first players of the teams and then the second ones, its first player has
/// the turn, and the game has started.
pub open spec fn split_into_teams(before: GameState, after: GameState, p: Seq<ArcString>) -> bool {
    let n = p.len() as int;
    &&& after.wf()
    &&& team_seqs(after.teams@) == team_seqs(before.teams@) + teams_upto(p, n)
    &&& after.teammates@ == paired_teammates(before.teammates@, p, (n / 2) as nat)
    &&& after.team_member_to_team_index@ == paired_team_index(
        before.team_member_to_team_index@,
        p,
        (n / 2) as nat,
    )
    &&& after.player_rotation@ == before.player_rotation@ + first_players_upto(p, n)
        + second_players_upto(p, n)
    &&& after.player_rotation@.len() > 0
    &&& after.turn_player == after.player_rotation@[0]
    &&& after.turn_player_index == 0
    &&& after.has_game_started
}

/// The words of the two states stand where they stood.
pub open spec fn same_words(a: GameState, b: GameState) -> bool {
    &&& a.words_guessed_per_team_per_round == b.words_guessed_per_team_per_round
    &&& a.words_guessed == b.words_guessed
    &&& a.words_in_play == b.words_in_play
    &&& a.words_to_guess == b.words_to_guess
}

/// The two states agree on the timer, the round and the turn and round flags.
pub open spec fn same_clock(a: GameState, b: GameState) -> bool {
    &&& a.timer == b.timer
    &&& a.round == b.round
    &&& a.is_turn_active == b.is_turn_active
    &&& a.is_round_active == b.is_round_active
    &&& a.is_game_finished == b.is_game_finished
}

/// The two states agree on the teams, the rotation, whose turn it is, the words of
/// each player and whether the game has started.
pub open spec fn same_teams(a: GameState, b: GameState) -> bool {
    &&& a.teams == b.teams
    &&& a.teammates == b.teammates
    &&& a.team_member_to_team_index == b.team_member_to_team_index
    &&& a.player_rotation == b.player_rotation
    &&& a.words_per_player == b.words_per_player
    &&& a.has_game_started == b.has_game_started
}

/// All the words of a game in play, wherever they stand: to guess, in play, or guessed.
pub open spec fn word_pool(s: GameState) -> Multiset<ArcString> {
    s.words_to_guess@.to_multiset().add(s.words_in_play@.to_multiset()).add(
        s.words_guessed@.to_multiset(),
    )
}

/// The players have distinct names and each of them, and only they, have a list of words.
pub open spec fn players_consistent(g: Game) -> bool {
    &&& texts(g.players@).no_duplicates()
    &&& texts(g.players@).to_set() == g.game_state.words_per_player@.dom()
}

/// The two states agree on everything but the words per player.
pub open spec fn same_but_words_per_player(a: GameState, b: GameState) -> bool {
    &&& same_words(a, b)
    &&& same_clock(a, b)
    &&& a.teams == b.teams
    &&& a.teammates == b.teammates
    &&& a.team_member_to_team_index == b.team_member_to_team_index
    &&& a.player_rotation == b.player_rotation
    &&& a.turn_player == b.turn_player
    &&& a.turn_player_index == b.turn_player_index
    &&& a.has_game_started == b.has_game_started
}

/// The two games agree on everything but their game state.
pub open spec fn same_setup(a: Game, b: Game) -> bool {
    &&& a.id == b.id
    &&& a.players == b.players
    &&& a.words == b.words
    &&& a.words_per_player_limit == b.words_per_player_limit
    &&& a.num_words_per_player == b.num_words_per_player
    &&& a.host_name == b.host_name
    &&& a.auth_secret == b.auth_secret
}

/// The teams as sequences of players.
pub open spec fn team_seqs<A>(t: Seq<Vec<A>>) -> Seq<Seq<A>> {
    t.map_values(|v: Vec<A>| v@)
}

/// Shuffles the players, splits them in teams of two neighbours (a last player alone
/// where their number is odd), records teammates and team indices, and sets the
/// rotation: the first players of the teams, then the second players. Marks the game
/// as started.
pub fn init_teams(game_state: &mut GameState, players: &mut Vec<ArcString>)
    requires
        old(game_state).wf(),
        old(players)@.len() + old(game_state).player_rotation@.len() > 0,
        old(players)@.len() / 2 <= i32::MAX,
    ensures
        final(players)@.to_multiset() == old(players)@.to_multiset(),
        split_into_teams(*old(game_state), *final(game_state), final(players)@),
        same_words(*old(game_state), *final(game_state)),
        same_clock(*old(game_state), *final(game_state)),
        final(game_state).words_per_player == old(game_state).words_per_player,
{
    // the game starts with the split in teams
    game_state.has_game_started = true;

    shuffle(players);
    let ghost p = players@;
    let ghost old_teams = team_seqs(game_state.teams@);
    let ghost old_teammates = game_state.teammates@;
    let ghost old_index = game_state.team_member_to_team_index@;

    let mut first_players: Vec<ArcString> = Vec::new();
    let mut second_players: Vec<ArcString> = Vec::new();
    let mut is_first_player_in_team: bool = true;
    let mut current_player: ArcString = ArcString::new(String::new());
    let mut team_index: i32 = 0;
    let mut i: usize = 0;
    while i < players.len()
        invariant
            players@ == p,
            p.len() / 2 <= i32::MAX,
            i <= p.len(),
            game_state.wf(),
            is_first_player_in_team <==> i % 2 == 0,
            team_index == i / 2,
            i % 2 == 1 ==> current_player == p[i - 1],
            team_seqs(game_state.teams@) == old_teams + teams_upto(p, i as int),
            first_players@ == first_players_upto(p, i as int),
            second_players@ == second_players_upto(p, i as int),
            game_state.teammates@ == paired_teammates(old_teammates, p, (i / 2) as nat),
            game_state.team_member_to_team_index@ == paired_team_index(old_index, p, (i / 2) as nat),
            game_state.player_rotation == old(game_state).player_rotation,
            game_state.turn_player_index == old(game_state).turn_player_index,
            game_state.turn_player == old(game_state).turn_player,
            game_state.has_game_started,
            game_state.timer == old(game_state).timer,
            game_state.words_guessed_per_team_per_round == old(game_state).words_guessed_per_team_per_round,
            game_state.words_per_player == old(game_state).words_per_player,
            game_state.words_guessed == old(game_state).words_guessed,
            game_state.words_in_play == old(game_state).words_in_play,
            game_state.words_to_guess == old(game_state).words_to_guess,
            game_state.round == old(game_state).round,
            game_state.is_turn_active == old(game_state).is_turn_active,
            game_state.is_round_active == old(game_state).is_round_active,
            game_state.is_game_finished == old(game_state).is_game_finished,
        decreases p.len() - i,
    {
        let player = players[i].clone();
        if is_first_player_in_team {
            let ghost teams_before = game_state.teams@;
            let mut team: Vec<ArcString> = Vec::new();
            team.push(player.clone());
            game_state.teams.push(team);
            is_first_player_in_team = false;
            current_player = player.clone();
            first_players.push(player.clone());
            proof {
                let n = i as int;
                assert(teams_upto(p, n + 1) =~= teams_upto(p, n).push(seq![p[n]]));
                assert(team_seqs(game_state.teams@) =~= team_seqs(teams_before).push(seq![p[n]]));
                assert(first_players@ =~= first_players_upto(p, n + 1));
                assert(second_players_upto(p, n) =~= second_players_upto(p, n + 1));
            }
        } else {
            let ghost teams_before = game_state.teams@;
            assert(team_seqs(teams_before).len() == teams_before.len());
            let last = game_state.teams.len() - 1;
            game_state.teams[last].push(player.clone());
            is_first_player_in_team = true;

            game_state.teammates.insert(player.clone(), current_player.clone());
            game_state.teammates.insert(current_player.clone(), player.clone());
            game_state.team_member_to_team_index.insert(player.clone(), team_index);
            game_state.team_member_to_team_index.insert(current_player.clone(), team_index);
            team_index += 1;

            second_players.push(player.clone());
            proof {
                let n = i as int;
                assert(teams_upto(p, n + 1) =~= teams_upto(p, n).update(
                    (n - 1) / 2,
                    seq![p[n - 1], p[n]],
                ));
                let last_i = last as int;
                assert(team_seqs(teams_before)[last_i] == teams_upto(p, n)[(n - 1) / 2]);
                assert(team_seqs(game_state.teams@) =~= team_seqs(teams_before).update(
                    last_i,
                    teams_before[last_i]@.push(p[n]),
                ));
                assert(teams_before[last_i]@.push(p[n]) =~= seq![p[n - 1], p[n]]);
                assert(team_seqs(game_state.teams@) =~= old_teams + teams_upto(p, n + 1));
                assert(first_players_upto(p, n) =~= first_players_upto(p, n + 1));
                assert(second_players@ =~= second_players_upto(p, n + 1));
            }
        }
        i = i + 1;
    }
    assert(team_seqs(game_state.teams@) == old_teams + teams_upto(p, p.len() as int));

    game_state.player_rotation.append(&mut first_players);
    game_state.player_rotation.append(&mut second_players);
    let starting_player = game_state.player_rotation[0].clone();
    game_state.turn_player = starting_player;
    game_state.turn_player_index = 0;
}

proof fn lemma_paired_teammates(p: Seq<ArcString>, m: nat)
    requires
        texts(p).no_duplicates(),
        2 * m <= p.len(),
        m <= i32::MAX,
    ensures
        ({
            let tm = paired_teammates(Map::empty(), p, m);
            let ti = paired_team_index(Map::empty(), p, m);
            &&& forall|j: int|
                0 <= j < m ==> {
                    &&& #[trigger] tm.contains_key(p[2 * j]@)
                    &&& tm[p[2 * j]@] == p[2 * j + 1]
                    &&& tm.contains_key(p[2 * j + 1]@)
                    &&& tm[p[2 * j + 1]@] == p[2 * j]
                    &&& ti.contains_key(p[2 * j]@)
                    &&& ti[p[2 * j]@] == j
                    &&& ti.contains_key(p[2 * j + 1]@)
                    &&& ti[p[2 * j + 1]@] == j
                }
            &&& forall|x: Seq<char>| #[trigger] tm.contains_key(x) ==> exists|j: int|
                0 <= j < 2 * m && p[j]@ == x
            &&& forall|x: Seq<char>| #[trigger] tm.contains_key(x) <==> ti.contains_key(x)
        }),
    decreases m,
{
    if m > 0 {
        let k = m - 1;
        lemma_paired_teammates(p, k as nat);
        let tm = paired_teammates(Map::empty(), p, m);
        let ti = paired_team_index(Map::empty(), p, m);
        let tm0 = paired_teammates(Map::empty(), p, k as nat);
        let ti0 = paired_team_index(Map::empty(), p, k as nat);
        assert forall|j: int| 0 <= j < k implies #[trigger] p[2 * j]@ != p[2 * k]@ && p[2 * j]@ != p[2 * k + 1]@
            && p[2 * j + 1]@ != p[2 * k]@ && p[2 * j + 1]@ != p[2 * k + 1]@ by {
            assert(texts(p)[2 * j] != texts(p)[2 * k]);
            assert(texts(p)[2 * j] != texts(p)[2 * k + 1]);
            assert(texts(p)[2 * j + 1] != texts(p)[2 * k]);
            assert(texts(p)[2 * j + 1] != texts(p)[2 * k + 1]);
        }
        assert(texts(p)[2 * k] != texts(p)[2 * k + 1]);
        assert forall|j: int| 0 <= j < m implies {
            &&& #[trigger] tm.contains_key(p[2 * j]@)
            &&& tm[p[2 * j]@] == p[2 * j + 1]
            &&& tm.contains_key(p[2 * j + 1]@)
            &&& tm[p[2 * j + 1]@] == p[2 * j]
            &&& ti.contains_key(p[2 * j]@)
            &&& ti[p[2 * j]@] == j
            &&& ti.contains_key(p[2 * j + 1]@)
            &&& ti[p[2 * j + 1]@] == j
        } by {
            if j < k {
                assert(p[2 * j]@ != p[2 * k]@ && p[2 * j]@ != p[2 * k + 1]@ && p[2 * j + 1]@ != p[2
                    * k]@ && p[2 * j + 1]@ != p[2 * k + 1]@);
                assert(tm0.contains_key(p[2 * j]@));
                assert(ti0[p[2 * j]@] == j);
            }
        }
        assert forall|x: Seq<char>| #[trigger] tm.contains_key(x) implies exists|j: int|
            0 <= j < 2 * m && p[j]@ == x by {
            if x == p[2 * k]@ {
                assert(p[2 * k]@ == x);
            } else if x == p[2 * k + 1]@ {
                assert(p[2 * k + 1]@ == x);
            } else {
                assert(tm0.contains_key(x));
            }
        }
        assert forall|x: Seq<char>| #[trigger] tm.contains_key(x) <==> ti.contains_key(x) by {
            assert(tm0.contains_key(x) <==> ti0.contains_key(x));
        }
    }
}

/// Once players with distinct names are split in teams, teammates are mutual: the
/// teammate of a player's teammate is the player, and both have the same team index.
/// Every player of a full pair has a teammate, and only they do.
pub proof fn law_teammates_are_mutual(p: Seq<ArcString>)
    requires
        texts(p).no_duplicates(),
        p.len() / 2 <= i32::MAX,
    ensures
        ({
            let tm = paired_teammates(Map::empty(), p, (p.len() / 2) as nat);
            let ti = paired_team_index(Map::empty(), p, (p.len() / 2) as nat);
            &&& forall|x: Seq<char>| #[trigger] tm.contains_key(x) ==> {
                &&& tm.contains_key(tm[x]@)
                &&& tm[tm[x]@]@ == x
                &&& tm[x]@ != x
                &&& ti.contains_key(x)
                &&& ti.contains_key(tm[x]@)
                &&& ti[tm[x]@] == ti[x]
            }
            &&& forall|j: int| 0 <= j < 2 * (p.len() / 2) ==> #[trigger] tm.contains_key(p[j]@)
        }),
{
    let m = (p.len() / 2) as nat;
    lemma_paired_teammates(p, m);
    let tm = paired_teammates(Map::empty(), p, m);
    let ti = paired_team_index(Map::empty(), p, m);
    assert forall|x: Seq<char>| #[trigger] tm.contains_key(x) implies {
        &&& tm.contains_key(tm[x]@)
        &&& tm[tm[x]@]@ == x
        &&& tm[x]@ != x
        &&& ti.contains_key(x)
        &&& ti.contains_key(tm[x]@)
        &&& ti[tm[x]@] == ti[x]
    } by {
        let j = choose|j: int| 0 <= j < 2 * m && p[j]@ == x;
        let k = j / 2;
        assert(texts(p)[2 * k] != texts(p)[2 * k + 1]);
        if j % 2 == 0 {
            assert(j == 2 * k);
            assert(tm.contains_key(p[2 * k]@));
        } else {
            assert(j == 2 * k + 1);
            assert(tm.contains_key(p[2 * k]@));
        }
    }
    assert forall|j: int| 0 <= j < 2 * (p.len() / 2) implies #[trigger] tm.contains_key(p[j]@) by {
        let k = j / 2;
        assert(tm.contains_key(p[2 * k]@));
    }
}

/// The rotation made from the teams holds every player exactly once: the first
/// players of the teams, then the second ones, are the players in another order.
pub proof fn law_rotation_holds_every_player(p: Seq<ArcString>)
    ensures
        (first_players_upto(p, p.len() as int) + second_players_upto(
            p,
            p.len() as int,
        )).to_multiset() == p.to_multiset(),
{
    lemma_rotation_prefix(p, p.len() as int);
    assert(p.take(p.len() as int) =~= p);
}

proof fn lemma_rotation_prefix(p: Seq<ArcString>, n: int)
    requires
        0 <= n <= p.len(),
    ensures
        (first_players_upto(p, n) + second_players_upto(p, n)).to_multiset() == p.take(n).to_multiset(),
    decreases n,
{
    if n > 0 {
        lemma_rotation_prefix(p, n - 1);
        let f0 = first_players_upto(p, n - 1);
        let s0 = second_players_upto(p, n - 1);
        let f1 = first_players_upto(p, n);
        let s1 = second_players_upto(p, n);
        assert(p.take(n) =~= p.take(n - 1).push(p[n - 1]));
        if (n - 1) % 2 == 0 {
            assert(f1 =~= f0.push(p[n - 1]));
            assert(s1 =~= s0);
        } else {
            assert(f1 =~= f0);
            assert(s1 =~= s0.push(p[n - 1]));
        }
        assert((f1 + s1).to_multiset() =~= (f0 + s0).to_multiset().insert(p[n - 1]));
    }
}

} // verus!
