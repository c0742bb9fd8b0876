use vstd::prelude::*;

use crate::auth::utils::{authorize_token, token_for};
use crate::extentions::arc_string::ArcString;

verus! {

/// The endpoints whose requests must carry a valid token: those whose path names the
/// player after the game id, and those whose path names only the game.
pub struct Authenticator {
    auth_endpoints_with_player_name: Vec<String>,
    auth_endpoints_without_player_name: Vec<String>,
}

/// The endpoints whose path is `/<endpoint>/<game id>/<player name>`.
pub open spec fn endpoints_with_player_name() -> Set<Seq<char>> {
    set![
        "add_word"@,
        "delete_word"@,
        "authorize"@,
        "leave_game"@,
        "fetch_word"@,
        "guess_word"@,
        "host"@,
        "await"@,
        "game"@,
        "is_game_active"@,
        "kick_player"@,
    ]
}

/// The endpoints whose path is `/<endpoint>/<game id>`.
pub open spec fn endpoints_without_player_name() -> Set<Seq<char>> {
    set![
        "fetch_players"@,
        "start_game"@,
        "fetch_game_state"@,
        "update_timer_state"@,
        "next_turn"@,
        "next_round"@,
        "has_game_started"@,
    ]
}

/// Which check a request to an endpoint needs.
#[derive(Debug, Clone, Copy, PartialEq, Eq, Structural)]
pub enum AuthScope {
    /// The endpoint is open.
    Open,
    /// The token must be valid for the game and the player in the path.
    GameAndPlayer,
    /// The token must be valid for the game in the path.
    GameOnly,
}

/// What becomes of a request after the token check.
#[derive(Debug, Clone, Copy, PartialEq, Eq, Structural)]
pub enum AuthOutcome {
    /// The request goes on to its endpoint.
    Proceed,
    /// The request carries no token: it goes to the unauthorized page.
    Unauthorized,
    /// The token is not valid: the request goes to the forbidden page.
    Forbidden,
}

/// The texts of a vector of strings, as a set.
pub open spec fn text_set(v: Seq<String>) -> Set<Seq<char>> {
    v.map_values(|s: String| s@).to_set()
}

fn contains_text(v: &Vec<String>, t: &String) -> (b: bool)
    ensures
        b == text_set(v@).contains(t@),
{
    let mut i: usize = 0;
    while i < v.len()
        invariant
            i <= v@.len(),
            forall|j: int| 0 <= j < i ==> v@[j]@ != t@,
        decreases v@.len() - i,
    {
        if v[i] == *t {
            assert(v@.map_values(|s: String| s@)[i as int] == t@);
            return true;
        }
        i = i + 1;
    }
    assert(!text_set(v@).contains(t@)) by {
        if text_set(v@).contains(t@) {
            let w = v@.map_values(|s: String| s@);
            let j = choose|j: int| 0 <= j < w.len() && #[trigger] w[j] == t@;
            assert(v@[j]@ == t@);
        }
    }
    false
}

impl Authenticator {
    /// The endpoints that check the token for the game and the player.
    pub closed spec fn with_player_name(&self) -> Set<Seq<char>> {
        text_set(self.auth_endpoints_with_player_name@)
    }

    /// The endpoints that check the token for the game only.
    pub closed spec fn without_player_name(&self) -> Set<Seq<char>> {
        text_set(self.auth_endpoints_without_player_name@)
    }

    /// The authenticator of this server's endpoints.
    pub fn new() -> (a: Self)
        ensures
            a.with_player_name() == endpoints_with_player_name(),
            a.without_player_name() == endpoints_without_player_name(),
    {
        let auth_endpoints_with_player_name: Vec<String> = vec![
            "add_word".to_owned(),
            "delete_word".to_owned(),
            "authorize".to_owned(),
            "leave_game".to_owned(),
            "fetch_word".to_owned(),
            "guess_word".to_owned(),
            "host".to_owned(),
            "await".to_owned(),
            "game".to_owned(),
            "is_game_active".to_owned(),
            "kick_player".to_owned(),
        ];
        let auth_endpoints_without_player_name: Vec<String> = vec![
            "fetch_players".to_owned(),
            "start_game".to_owned(),
            "fetch_game_state".to_owned(),
            "update_timer_state".to_owned(),
            "next_turn".to_owned(),
            "next_round".to_owned(),
            "has_game_started".to_owned(),
        ];
        let a = Self { auth_endpoints_with_player_name, auth_endpoints_without_player_name };
        proof {
            let w = a.auth_endpoints_with_player_name@.map_values(|s: String| s@);
            assert(w =~= seq![
                "add_word"@,
                "delete_word"@,
                "authorize"@,
                "leave_game"@,
                "fetch_word"@,
                "guess_word"@,
                "host"@,
                "await"@,
                "game"@,
                "is_game_active"@,
                "kick_player"@,
            ]);
            assert(w.to_set() =~= endpoints_with_player_name()) by {
                assert forall|x: Seq<char>| endpoints_with_player_name().contains(x) implies w.contains(x) by {
                    if x == "add_word"@ { assert(w[0] == x); }
                    else if x == "delete_word"@ { assert(w[1] == x); }
                    else if x == "authorize"@ { assert(w[2] == x); }
                    else if x == "leave_game"@ { assert(w[3] == x); }
                    else if x == "fetch_word"@ { assert(w[4] == x); }
                    else if x == "guess_word"@ { assert(w[5] == x); }
                    else if x == "host"@ { assert(w[6] == x); }
                    else if x == "await"@ { assert(w[7] == x); }
                    else if x == "game"@ { assert(w[8] == x); }
                    else if x == "is_game_active"@ { assert(w[9] == x); }
                    else { assert(w[10] == x); }
                }
            }
            let o = a.auth_endpoints_without_player_name@.map_values(|s: String| s@);
            assert(o =~= seq![
                "fetch_players"@,
                "start_game"@,
                "fetch_game_state"@,
                "update_timer_state"@,
                "next_turn"@,
                "next_round"@,
                "has_game_started"@,
            ]);
            assert(o.to_set() =~= endpoints_without_player_name()) by {
                assert forall|x: Seq<char>| endpoints_without_player_name().contains(x) implies o.contains(x) by {
                    if x == "fetch_players"@ { assert(o[0] == x); }
                    else if x == "start_game"@ { assert(o[1] == x); }
                    else if x == "fetch_game_state"@ { assert(o[2] == x); }
                    else if x == "update_timer_state"@ { assert(o[3] == x); }
                    else if x == "next_turn"@ { assert(o[4] == x); }
                    else if x == "next_round"@ { assert(o[5] == x); }
                    else { assert(o[6] == x); }
                }
            }
        }
        a
    }

    /// Which check a request to the endpoint (the first segment of its path) needs.
    pub fn scope(&self, endpoint: &str) -> (r: AuthScope)
        ensures
            r == if self.with_player_name().contains(endpoint@) {
                AuthScope::GameAndPlayer
            } else if self.without_player_name().contains(endpoint@) {
                AuthScope::GameOnly
            } else {
                AuthScope::Open
            },
    {
        let e = endpoint.to_owned();
        if contains_text(&self.auth_endpoints_with_player_name, &e) {
            AuthScope::GameAndPlayer
        } else if contains_text(&self.auth_endpoints_without_player_name, &e) {
            AuthScope::GameOnly
        } else {
            AuthScope::Open
        }
    }

    /// The token check of a request to an endpoint of the scope, for an existing game
    /// whose players and secret are given. An open endpoint needs no token. Otherwise,
    /// without a token the request is unauthorized; with one, it goes on where the token
    /// is accepted (see `token_accepted`) and is forbidden where it is not.
    #[verifier::loop_isolation(false)]
    pub fn check_token(
        &self,
        scope: AuthScope,
        token: Option<String>,
        game_id: i32,
        player_name: Option<String>,
        players: &Vec<ArcString>,
        game_auth_secret: String,
    ) -> (r: AuthOutcome)
        ensures
            r == if scope == AuthScope::Open {
                AuthOutcome::Proceed
            } else if token is None {
                AuthOutcome::Unauthorized
            } else if token_accepted(
                scope,
                token->0@,
                game_id,
                player_name,
                players@,
                game_auth_secret@,
            ) {
                AuthOutcome::Proceed
            } else {
                AuthOutcome::Forbidden
            },
    {
        if scope == AuthScope::Open {
            return AuthOutcome::Proceed;
        }
        let token = match token {
            None => return AuthOutcome::Unauthorized,
            Some(token) => token,
        };
        if scope == AuthScope::GameAndPlayer {
            match player_name {
                Some(p) => {
                    if authorize_token(token, game_id, p, game_auth_secret) {
                        AuthOutcome::Proceed
                    } else {
                        AuthOutcome::Forbidden
                    }
                },
                None => AuthOutcome::Forbidden,
            }
        } else {
            assert(scope == AuthScope::GameOnly);
            let mut i: usize = 0;
            while i < players.len()
                invariant
                    scope == AuthScope::GameOnly,
                    i <= players@.len(),
                    forall|j: int| 0 <= j < i ==> #[trigger] token_for(game_id, players@[j]@, game_auth_secret@)
                        != token@,
                decreases players@.len() - i,
            {
                if authorize_token(token.clone(), game_id, players[i].to_owned_string(), game_auth_secret.clone()) {
                    assert(token@ == token_for(game_id, players@[i as int]@, game_auth_secret@));
                    assert(token_accepted(scope, token@, game_id, player_name, players@, game_auth_secret@));
                    return AuthOutcome::Proceed;
                }
                i = i + 1;
            }
            assert(!token_accepted(scope, token@, game_id, player_name, players@, game_auth_secret@));
            AuthOutcome::Forbidden
        }
    }
}

/// Whether a token lets a request to an endpoint of the scope through: for an endpoint
/// that names the player, it is that player's token for the game; for one that names
/// only the game, it is the token of one of the game's players.
pub open spec fn token_accepted(
    scope: AuthScope,
    token: Seq<char>,
    game_id: i32,
    player_name: Option<String>,
    players: Seq<ArcString>,
    game_auth_secret: Seq<char>,
) -> bool {
    match scope {
        AuthScope::Open => true,
        AuthScope::GameAndPlayer => player_name matches Some(p) && token == token_for(
            game_id,
            p@,
            game_auth_secret,
        ),
        AuthScope::GameOnly => exists|j: int|
            0 <= j < players.len() && token == #[trigger] token_for(
                game_id,
                players[j]@,
                game_auth_secret,
            ),
    }
}

/// Which tokens a request gets through with: to an endpoint that names only the game,
/// the token that any player of the game was given, at whatever place in the players,
/// and no other; to an endpoint that names the player, that player's own token and no
/// other, so that another player's token is refused.
pub proof fn law_tokens_accepted(
    token: Seq<char>,
    game_id: i32,
    player_name: Option<String>,
    players: Seq<ArcString>,
    game_auth_secret: Seq<char>,
)
    ensures
        forall|j: int|
            0 <= j < players.len() ==> #[trigger] token_accepted(
                AuthScope::GameOnly,
                token_for(game_id, players[j]@, game_auth_secret),
                game_id,
                player_name,
                players,
                game_auth_secret,
            ),
        token_accepted(AuthScope::GameOnly, token, game_id, player_name, players, game_auth_secret)
            ==> exists|j: int|
            0 <= j < players.len() && token == #[trigger] token_for(
                game_id,
                players[j]@,
                game_auth_secret,
            ),
        forall|p: String|
            #[trigger] token_accepted(
                AuthScope::GameAndPlayer,
                token,
                game_id,
                Some(p),
                players,
                game_auth_secret,
            ) <==> token == token_for(game_id, p@, game_auth_secret),
        !token_accepted(AuthScope::GameAndPlayer, token, game_id, None, players, game_auth_secret),
{
    assert forall|j: int| 0 <= j < players.len() implies #[trigger] token_accepted(
        AuthScope::GameOnly,
        token_for(game_id, players[j]@, game_auth_secret),
        game_id,
        player_name,
        players,
        game_auth_secret,
    ) by {
        let t = token_for(game_id, players[j]@, game_auth_secret);
        assert(t == token_for(game_id, players[j]@, game_auth_secret));
    }
}

} // verus!
