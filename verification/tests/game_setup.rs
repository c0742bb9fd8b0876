use shapka::constants::{MAX_GAME_ID, TIMER_START_VALUE};
use shapka::controllers::errors::GameError;
use shapka::controllers::game_init_controller::{
    create_game, join_game, kick_player, leave_game, random_game_id, validate_word_limit,
};
use shapka::controllers::pages_controller::{await_game, host, in_game, results, Page};
use shapka::controllers::periodic_checks_controller::{has_game_started, is_in_game};
use shapka::controllers::players_controller::{fetch_player_words, fetch_players};
use shapka::controllers::words_controller::{add_word, delete_word};
use shapka::extentions::arc_string::ArcString;
use shapka::game;
use shapka::models::game::{init_game, init_game_state, Game};

fn names(v: &[ArcString]) -> Vec<String> {
    v.iter().map(|a| a.to_owned_string()).collect()
}

fn words_of(game: &Game, name: &str) -> Vec<String> {
    names(game.game_state.words_per_player.get(&ArcString::from_str(name)).unwrap())
}

#[test]
fn init_game_has_host_as_only_player() {
    let game = init_game(42, "ana", 5);
    assert_eq!(game.id, 42);
    assert_eq!(names(&game.players), vec!["ana".to_string()]);
    assert_eq!(game.host_name.to_owned_string(), "ana");
    assert_eq!(game.words_per_player_limit, 5);
    assert!(game.words.is_empty());
    assert_eq!(game.num_words_per_player.len(), 0);
    // the auth secret is a GUID: 36 characters, dashes between upper-case hex groups
    assert_eq!(game.auth_secret.chars().count(), 36);
    for (i, c) in game.auth_secret.chars().enumerate() {
        if i == 8 || i == 13 || i == 18 || i == 23 {
            assert_eq!(c, '-');
        } else {
            assert!(c.is_ascii_digit() || ('A'..='F').contains(&c));
        }
    }
    assert_eq!(words_of(&game, "ana"), Vec::<String>::new());
}

#[test]
fn init_game_state_starts_with_owner_and_three_empty_rounds() {
    let s = init_game_state(ArcString::from_str("bo"));
    assert_eq!(s.timer, TIMER_START_VALUE);
    assert_eq!(s.turn_player.to_owned_string(), "bo");
    assert_eq!(s.turn_player_index, 0);
    assert_eq!(s.round, 1);
    assert!(!s.is_turn_active);
    assert!(s.is_round_active);
    assert!(!s.is_game_finished);
    assert!(!s.has_game_started);
    let mut rounds: Vec<i32> = s.words_guessed_per_team_per_round.keys().copied().collect();
    rounds.sort();
    assert_eq!(rounds, vec![1, 2, 3]);
    assert!(s.words_guessed_per_team_per_round.values().all(|m| m.is_empty()));
    assert_eq!(s.words_per_player.len(), 1);
    assert!(s.teams.is_empty() && s.player_rotation.is_empty());
}

#[test]
fn two_games_get_different_secrets() {
    let a = init_game(1, "x", 4);
    let b = init_game(2, "x", 4);
    assert_ne!(a.auth_secret, b.auth_secret);
}

#[test]
fn word_limit_bounds() {
    assert_eq!(validate_word_limit(3), Err(GameError::WordLimitTooLow));
    assert_eq!(validate_word_limit(4), Ok(()));
    assert_eq!(validate_word_limit(7), Ok(()));
    assert_eq!(validate_word_limit(8), Err(GameError::WordLimitTooHigh));
    assert_eq!(
        GameError::WordLimitTooLow.message(),
        "Word count per player is too low. Lower limit is 4"
    );
    assert_eq!(
        GameError::WordLimitTooHigh.message(),
        "Word count per player is too high. Upper limit is 7"
    );
}

#[test]
fn create_game_gives_host_and_token() {
    let created = create_game("host", 5, 77).ok().unwrap();
    assert_eq!(created.name, "host");
    assert_eq!(created.game_id, 77);
    assert_eq!(created.auth_token, format!("77/host/{}", created.game.auth_secret));
    assert_eq!(created.game.id, 77);
    assert_eq!(names(&created.game.players), vec!["host".to_string()]);
    assert!(matches!(create_game("host", 2, 1), Err(GameError::WordLimitTooLow)));
    assert!(matches!(create_game("host", 9, 1), Err(GameError::WordLimitTooHigh)));
}

#[test]
fn join_game_adds_player_and_event() {
    let mut game = init_game(3, "ana", 4);
    let joined = join_game(&mut game, "bo").ok().unwrap();
    assert_eq!(joined.name, "bo");
    assert_eq!(joined.game_id, 3);
    assert_eq!(joined.auth_token, format!("3/bo/{}", game.auth_secret));
    assert_eq!(joined.event, "new_player:bo");
    assert_eq!(names(&game.players), vec!["ana".to_string(), "bo".to_string()]);
    assert_eq!(words_of(&game, "bo"), Vec::<String>::new());
}

#[test]
fn join_game_refuses_taken_name() {
    let mut game = init_game(3, "ana", 4);
    let r = join_game(&mut game, "ana");
    assert!(matches!(r, Err(GameError::NameAlreadyExists)));
    assert_eq!(GameError::NameAlreadyExists.message(), "Name already exists");
    assert_eq!(game.players.len(), 1);
}

#[test]
fn leave_game_removes_player_and_their_words() {
    let mut game = init_game(5, "ana", 4);
    join_game(&mut game, "bo").ok().unwrap();
    add_word(&mut game, "bo", "cat").ok().unwrap();
    add_word(&mut game, "ana", "dog").ok().unwrap();
    add_word(&mut game, "bo", "sun").ok().unwrap();
    let gone = leave_game(&mut game, "bo").ok().unwrap();
    assert_eq!(gone.game_id, 5);
    assert_eq!(gone.event, "player_left:bo");
    assert_eq!(names(&game.players), vec!["ana".to_string()]);
    assert_eq!(names(&game.words), vec!["dog".to_string()]);
    assert!(!game.game_state.words_per_player.contains_key(&ArcString::from_str("bo")));
}

#[test]
fn leave_game_refuses_stranger() {
    let mut game = init_game(5, "ana", 4);
    assert!(matches!(leave_game(&mut game, "zed"), Err(GameError::PlayerNotInGame)));
    assert_eq!(GameError::PlayerNotInGame.message(), "Player not in game");
}

#[test]
fn kick_player_only_by_host() {
    let mut game = init_game(6, "ana", 4);
    join_game(&mut game, "bo").ok().unwrap();
    join_game(&mut game, "cy").ok().unwrap();
    assert!(matches!(kick_player(&mut game, "bo", "cy"), Err(GameError::OnlyHostCanKick)));
    assert_eq!(GameError::OnlyHostCanKick.message(), "Only the host can kick people");
    assert!(matches!(kick_player(&mut game, "ana", "zed"), Err(GameError::PlayerNotInGame)));
    let gone = kick_player(&mut game, "ana", "cy").ok().unwrap();
    assert_eq!(gone.event, "player_kicked:cy");
    assert_eq!(names(&game.players), vec!["ana".to_string(), "bo".to_string()]);
}

#[test]
fn players_stay_unique_through_join_and_leave() {
    let mut game = init_game(6, "ana", 4);
    join_game(&mut game, "bo").ok().unwrap();
    assert!(join_game(&mut game, "bo").is_err());
    leave_game(&mut game, "bo").ok().unwrap();
    join_game(&mut game, "bo").ok().unwrap();
    let mut all = names(&game.players);
    all.sort();
    all.dedup();
    assert_eq!(all.len(), game.players.len());
}

#[test]
fn leave_game_undoes_join_game() {
    let mut game = init_game(8, "ana", 4);
    add_word(&mut game, "ana", "moon").ok().unwrap();
    let players_before = names(&game.players);
    let words_before = names(&game.words);
    join_game(&mut game, "bo").ok().unwrap();
    leave_game(&mut game, "bo").ok().unwrap();
    assert_eq!(names(&game.players), players_before);
    assert_eq!(names(&game.words), words_before);
    assert_eq!(game.game_state.words_per_player.len(), 1);
    assert_eq!(words_of(&game, "ana"), vec!["moon".to_string()]);
    assert!(!game.game_state.words_per_player.contains_key(&ArcString::from_str("bo")));
}

#[test]
fn host_cannot_leave() {
    let mut game = init_game(9, "ana", 4);
    join_game(&mut game, "bo").ok().unwrap();
    assert!(matches!(leave_game(&mut game, "ana"), Err(GameError::HostCannotLeave)));
    assert_eq!(GameError::HostCannotLeave.message(), "The host cannot leave the game");
    assert_eq!(names(&game.players), vec!["ana".to_string(), "bo".to_string()]);
}

#[test]
fn leaving_clears_the_word_count_so_a_return_can_add_all_words() {
    let mut game = init_game(10, "ana", 4);
    join_game(&mut game, "bo").ok().unwrap();
    for i in 0..4 {
        add_word(&mut game, "bo", &format!("w{}", i)).ok().unwrap();
    }
    leave_game(&mut game, "bo").ok().unwrap();
    assert!(game.words.is_empty());
    assert!(!game.num_words_per_player.contains_key(&ArcString::from_str("bo")));
    join_game(&mut game, "bo").ok().unwrap();
    for i in 0..4 {
        add_word(&mut game, "bo", &format!("v{}", i)).ok().unwrap();
    }
    assert_eq!(game.words.len(), 4);
}

#[test]
fn add_word_refused_after_start() {
    let mut game = init_game(11, "ana", 4);
    join_game(&mut game, "bo").ok().unwrap();
    for p in ["ana", "bo"] {
        for i in 0..4 {
            add_word(&mut game, p, &format!("{}{}", p, i)).ok().unwrap();
        }
    }
    shapka::controllers::turns_controller::start_game(&mut game).ok().unwrap();
    let words_to_guess = game.game_state.words_to_guess.len();
    assert!(matches!(add_word(&mut game, "ana", "late"), Err(GameError::GameAlreadyStarted)));
    assert_eq!(GameError::GameAlreadyStarted.message(), "The game has already started");
    assert!(game.words.is_empty());
    assert_eq!(game.game_state.words_to_guess.len(), words_to_guess);
}

#[test]
fn add_word_counts_up_to_limit() {
    let mut game = init_game(7, "ana", 4);
    for (i, w) in ["a", "b", "c", "d"].iter().enumerate() {
        let added = add_word(&mut game, "ana", w).ok().unwrap();
        assert_eq!(added.word, *w);
        assert_eq!(added.word_limit, 4);
        assert_eq!(added.event, format!("new_word:ana/{}", w));
        assert_eq!(
            *game.num_words_per_player.get(&ArcString::from_str("ana")).unwrap(),
            i + 1
        );
    }
    assert!(matches!(add_word(&mut game, "ana", "e"), Err(GameError::CannotAddMoreWords)));
    assert_eq!(GameError::CannotAddMoreWords.message(), "You can't add more words");
    assert_eq!(names(&game.words), vec!["a", "b", "c", "d"]);
    assert_eq!(words_of(&game, "ana"), vec!["a", "b", "c", "d"]);
}

#[test]
fn add_word_refuses_stranger() {
    let mut game = init_game(7, "ana", 4);
    assert!(matches!(add_word(&mut game, "zed", "x"), Err(GameError::PlayerNotInGame)));
    assert!(game.words.is_empty());
}

#[test]
fn delete_word_undoes_add_word() {
    let mut game = init_game(8, "ana", 4);
    add_word(&mut game, "ana", "old").ok().unwrap();
    let words_before = names(&game.words);
    add_word(&mut game, "ana", "moon").ok().unwrap();
    let removed = delete_word(&mut game, "ana", "moon").ok().unwrap();
    assert_eq!(removed.word, "moon");
    assert_eq!(removed.word_limit, 4);
    assert_eq!(removed.event, "word_removed:ana/moon");
    assert_eq!(names(&game.words), words_before);
    assert_eq!(words_of(&game, "ana"), vec!["old"]);
    assert_eq!(*game.num_words_per_player.get(&ArcString::from_str("ana")).unwrap(), 1);
}

#[test]
fn delete_after_add_keeps_each_word_as_often_with_repeated_words() {
    let mut game = init_game(12, "ana", 5);
    join_game(&mut game, "bo").ok().unwrap();
    add_word(&mut game, "bo", "sea").ok().unwrap();
    add_word(&mut game, "ana", "sea").ok().unwrap();
    add_word(&mut game, "ana", "sky").ok().unwrap();
    let mut before = names(&game.words);
    add_word(&mut game, "ana", "sea").ok().unwrap();
    delete_word(&mut game, "ana", "sea").ok().unwrap();
    let mut after = names(&game.words);
    before.sort();
    after.sort();
    assert_eq!(after, before);
    assert_eq!(words_of(&game, "ana"), vec!["sky".to_string(), "sea".to_string()]);
}

#[test]
fn delete_word_errors() {
    let mut game = init_game(8, "ana", 4);
    assert!(matches!(delete_word(&mut game, "ana", "x"), Err(GameError::PlayerDoesNotExist)));
    assert_eq!(GameError::PlayerDoesNotExist.message(), "Player doesn't exist");
    add_word(&mut game, "ana", "x").ok().unwrap();
    assert!(matches!(delete_word(&mut game, "ana", "y"), Err(GameError::WordNotFound)));
    assert_eq!(GameError::WordNotFound.message(), "Word not found");
    delete_word(&mut game, "ana", "x").ok().unwrap();
    assert!(matches!(delete_word(&mut game, "ana", "x"), Err(GameError::PlayerHasNoWords)));
    assert_eq!(GameError::PlayerHasNoWords.message(), "Player has no words");
}

#[test]
fn periodic_checks() {
    let mut game = init_game(9, "ana", 4);
    join_game(&mut game, "bo").ok().unwrap();
    assert!(!has_game_started(&game));
    let st = is_in_game(&game, "ana").ok().unwrap();
    assert!(!st.is_game_active);
    assert!(st.is_host);
    let st = is_in_game(&game, "bo").ok().unwrap();
    assert!(!st.is_host);
    assert!(matches!(is_in_game(&game, "zed"), Err(GameError::PlayerDoesNotExistInGame)));
    assert_eq!(GameError::PlayerDoesNotExistInGame.message(), "Player does not exist in game");
    game.game_state.has_game_started = true;
    assert!(has_game_started(&game));
    assert!(is_in_game(&game, "bo").ok().unwrap().is_game_active);
    game.game_state.is_game_finished = true;
    assert!(!is_in_game(&game, "bo").ok().unwrap().is_game_active);
}

#[test]
fn fetch_players_and_words() {
    let mut game = init_game(10, "ana", 4);
    join_game(&mut game, "bo").ok().unwrap();
    add_word(&mut game, "bo", "tree").ok().unwrap();
    let list = fetch_players(&game);
    assert_eq!(list.names, vec!["ana", "bo"]);
    assert_eq!(list.host, "ana");
    let words = fetch_player_words(&game, "bo");
    assert_eq!(words.names, vec!["tree"]);
    assert_eq!(words.host, "ana");
}

#[test]
fn pages_for_players() {
    let mut game = init_game(11, "ana", 4);
    assert_eq!(host(&game, "ana"), Some(Page::Host));
    assert_eq!(await_game(&game, "ana"), Some(Page::Await));
    assert_eq!(in_game(&game, "ana"), Some(Page::Game));
    assert_eq!(results(&game, "ana"), Some(Page::Results));
    assert_eq!(host(&game, "zed"), None);
    assert_eq!(await_game(&game, "zed"), None);
    assert_eq!(in_game(&game, "zed"), None);
    assert_eq!(results(&game, "zed"), None);
    game.game_state.is_game_finished = true;
    assert_eq!(host(&game, "ana"), Some(Page::Results));
    assert_eq!(await_game(&game, "ana"), Some(Page::Results));
    assert_eq!(Page::Host.path(), "static/html/host.html");
    assert_eq!(Page::Home.path(), "static/html/home.html");
    assert_eq!(Page::Results.path(), "static/html/results.html");
}

#[test]
fn arc_string_clone_shares_text() {
    let a = ArcString::from_str("word");
    let b = a.clone();
    assert!(a.same_text(&b));
    assert_eq!(b.to_owned_string(), "word");
    assert!(!a.same_text(&ArcString::from_str("other")));
    assert_eq!(ArcString::new("w".to_string()).as_string(), "w");
}

#[test]
fn first_model_game_and_state() {
    let g = game::init_game(4, "ana", 6);
    assert_eq!(g.id, 4);
    assert_eq!(g.players, vec!["ana".to_string()]);
    assert_eq!(g.words_per_player_limit, 6);
    assert!(g.words.is_empty());
    let s = game::init_game_state();
    assert_eq!(s.timer, TIMER_START_VALUE);
    assert_eq!(s.turn_player, "");
    assert_eq!(s.round, 1);
    assert!(s.is_round_active && !s.is_turn_active);
    assert!(s.num_words_guessed_per_team.is_empty());
}

#[test]
fn first_model_teams() {
    let mut g = game::init_game(4, "ana", 6);
    for p in ["bo", "cy", "di"] {
        g.players.push(p.to_string());
    }
    game::init_teams(&mut g.game_state, &mut g.players);
    let p = g.players.clone();
    let mut sorted_players = p.clone();
    sorted_players.sort();
    assert_eq!(sorted_players, vec!["ana", "bo", "cy", "di"]);
    assert_eq!(g.game_state.teams, vec![vec![p[0].clone(), p[1].clone()], vec![p[2].clone(), p[3].clone()]]);
    assert_eq!(g.game_state.player_rotation, vec![p[0].clone(), p[2].clone(), p[1].clone(), p[3].clone()]);
    assert_eq!(g.game_state.turn_player, p[0]);
    assert_eq!(g.game_state.teammates.get(&ArcString::from_str(&p[3])), Some(&p[2]));
    assert_eq!(g.game_state.team_member_to_team_index.get(&ArcString::from_str(&p[1])), Some(&0));
}

#[test]
fn random_game_ids_are_in_range_and_vary() {
    let ids: Vec<i32> = (0..50).map(|_| random_game_id()).collect();
    assert!(ids.iter().all(|id| (0..MAX_GAME_ID).contains(id)));
    assert!(ids.iter().any(|id| *id != ids[0]));
}
