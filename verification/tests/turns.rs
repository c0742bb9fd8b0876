use std::collections::HashMap;

use shapka::constants::{NUM_ROUNDS, TIMER_START_VALUE};
use shapka::controllers::errors::GameError;
use shapka::controllers::game_init_controller::join_game;
use shapka::controllers::turns_controller::{
    fetch_word_to_guess, guess_word, next_round, next_turn, rotate_to_next_turn_player, start_game,
    undo_last_guess, update_timer_state,
};
use shapka::controllers::words_controller::add_word;
use shapka::extentions::arc_string::ArcString;
use shapka::models::game::{init_game, init_teams, Game};

fn names(v: &[ArcString]) -> Vec<String> {
    v.iter().map(|a| a.to_owned_string()).collect()
}

fn sorted(mut v: Vec<String>) -> Vec<String> {
    v.sort();
    v
}

/// A game of four players who have added their four words each.
fn ready_game() -> Game {
    let mut game = init_game(1, "ana", 4);
    for p in ["bo", "cy", "di"] {
        join_game(&mut game, p).ok().unwrap();
    }
    for p in ["ana", "bo", "cy", "di"] {
        for i in 0..4 {
            add_word(&mut game, p, &format!("{}{}", p, i)).ok().unwrap();
        }
    }
    game
}

fn pool(game: &Game) -> Vec<String> {
    let s = &game.game_state;
    let mut all = names(&s.words_to_guess);
    all.extend(names(&s.words_in_play));
    all.extend(names(&s.words_guessed));
    sorted(all)
}

fn turn_player(game: &Game) -> String {
    game.game_state.turn_player.to_owned_string()
}

#[test]
fn start_game_needs_even_players() {
    let mut game = init_game(1, "ana", 4);
    join_game(&mut game, "bo").ok().unwrap();
    join_game(&mut game, "cy").ok().unwrap();
    assert!(matches!(start_game(&mut game), Err(GameError::OddNumberOfPlayers)));
    assert_eq!(
        GameError::OddNumberOfPlayers.message(),
        "Game cannot start with an odd number of players"
    );
    assert!(!game.game_state.has_game_started);
}

#[test]
fn start_game_needs_all_words() {
    let mut game = init_game(1, "ana", 4);
    join_game(&mut game, "bo").ok().unwrap();
    add_word(&mut game, "ana", "a").ok().unwrap();
    assert!(matches!(start_game(&mut game), Err(GameError::PlayersStillNeedToAddWords)));
    assert_eq!(GameError::PlayersStillNeedToAddWords.message(), "Players still need to add words");
    assert_eq!(names(&game.words), vec!["a"]);
}

#[test]
fn start_game_splits_teams_and_deals_words() {
    let mut game = ready_game();
    let all_words = sorted(names(&game.words));
    let event = start_game(&mut game).ok().unwrap();
    assert_eq!(event, "start_game");
    let s = &game.game_state;
    assert!(s.has_game_started);
    assert!(game.words.is_empty());
    // every word is to be guessed, shuffled
    assert_eq!(sorted(names(&s.words_to_guess)), all_words);
    // teams are neighbours in the shuffled players
    let p = names(&game.players);
    assert_eq!(sorted(p.clone()), vec!["ana", "bo", "cy", "di"]);
    let teams: Vec<Vec<String>> = s.teams.iter().map(|t| names(t)).collect();
    assert_eq!(teams, vec![vec![p[0].clone(), p[1].clone()], vec![p[2].clone(), p[3].clone()]]);
    // the rotation: first players, then second players
    assert_eq!(names(&s.player_rotation), vec![p[0].clone(), p[2].clone(), p[1].clone(), p[3].clone()]);
    assert_eq!(turn_player(&game), p[0]);
    assert_eq!(s.turn_player_index, 0);
    // teammates are mutual and share their team index
    for x in &p {
        let mate = s.teammates.get(&ArcString::from_str(x)).unwrap().to_owned_string();
        let back = s.teammates.get(&ArcString::from_str(&mate)).unwrap().to_owned_string();
        assert_eq!(&back, x);
        assert_eq!(
            s.team_member_to_team_index.get(&ArcString::from_str(x)),
            s.team_member_to_team_index.get(&ArcString::from_str(&mate))
        );
    }
    assert_eq!(*s.team_member_to_team_index.get(&ArcString::from_str(&p[2])).unwrap(), 1);
}

#[test]
fn init_teams_with_odd_players_leaves_last_alone() {
    let mut game = init_game(1, "ana", 4);
    join_game(&mut game, "bo").ok().unwrap();
    join_game(&mut game, "cy").ok().unwrap();
    init_teams(&mut game.game_state, &mut game.players);
    let p = names(&game.players);
    let s = &game.game_state;
    assert_eq!(s.teams.len(), 2);
    assert_eq!(names(&s.teams[1]), vec![p[2].clone()]);
    assert_eq!(s.teammates.len(), 2);
    assert!(!s.teammates.contains_key(&ArcString::from_str(&p[2])));
    assert_eq!(names(&s.player_rotation), vec![p[0].clone(), p[2].clone(), p[1].clone()]);
}

#[test]
fn fetch_word_moves_last_word_into_play() {
    let mut game = ready_game();
    start_game(&mut game).ok().unwrap();
    let tp = turn_player(&game);
    let last = game.game_state.words_to_guess.last().unwrap().to_owned_string();
    let w = fetch_word_to_guess(&mut game, &tp).ok().unwrap();
    assert_eq!(w.to_owned_string(), last);
    assert_eq!(names(&game.game_state.words_in_play), vec![last]);
    assert_eq!(game.game_state.words_to_guess.len(), 15);
    fetch_word_to_guess(&mut game, &tp).ok().unwrap();
    assert!(matches!(fetch_word_to_guess(&mut game, &tp), Err(GameError::EnoughWordsInPlay)));
    assert_eq!(GameError::EnoughWordsInPlay.message(), "You already have enough words in play");
    let other = game.game_state.player_rotation[1].to_owned_string();
    assert!(matches!(fetch_word_to_guess(&mut game, &other), Err(GameError::NotTurnPlayer)));
    assert_eq!(GameError::NotTurnPlayer.message(), "You are not the turn player");
}

#[test]
fn fetch_word_with_nothing_left() {
    let mut game = init_game(1, "ana", 4);
    assert!(matches!(fetch_word_to_guess(&mut game, "ana"), Err(GameError::NoWordsLeft)));
    assert_eq!(GameError::NoWordsLeft.message(), "No words left");
}

#[test]
fn guess_word_records_team_guess() {
    let mut game = ready_game();
    start_game(&mut game).ok().unwrap();
    let tp = turn_player(&game);
    let w = fetch_word_to_guess(&mut game, &tp).ok().unwrap().to_owned_string();
    let before = pool(&game);
    let outcome = guess_word(&mut game, &tp, &w).ok().unwrap();
    assert_eq!(outcome.word.to_owned_string(), w);
    assert_eq!(outcome.events, vec![format!("word_guessed:{}", w)]);
    let s = &game.game_state;
    assert!(s.words_in_play.is_empty());
    assert_eq!(names(&s.words_guessed), vec![w.clone()]);
    let team = *s.team_member_to_team_index.get(&ArcString::from_str(&tp)).unwrap();
    assert_eq!(names(&s.words_guessed_per_team_per_round[&1][&team]), vec![w]);
    assert_eq!(pool(&game), before);
}

#[test]
fn guess_word_refusals() {
    let mut game = ready_game();
    start_game(&mut game).ok().unwrap();
    let tp = turn_player(&game);
    assert!(matches!(guess_word(&mut game, &tp, "nope"), Err(GameError::WordNotInPlay)));
    assert_eq!(GameError::WordNotInPlay.message(), "This word is not in play");
    let other = game.game_state.player_rotation[1].to_owned_string();
    assert!(matches!(guess_word(&mut game, &other, "nope"), Err(GameError::NotTurnPlayer)));
}

#[test]
fn last_guess_of_last_round_finishes_game() {
    let mut game = ready_game();
    start_game(&mut game).ok().unwrap();
    game.game_state.round = NUM_ROUNDS;
    let tp = turn_player(&game);
    let mut events = Vec::new();
    while !game.game_state.words_to_guess.is_empty() {
        let w = fetch_word_to_guess(&mut game, &tp).ok().unwrap().to_owned_string();
        events = guess_word(&mut game, &tp, &w).ok().unwrap().events;
    }
    assert_eq!(events.len(), 2);
    assert_eq!(events[1], "out_of_words");
    assert!(game.game_state.is_game_finished);
    assert_eq!(game.game_state.words_guessed.len(), 16);
}

#[test]
fn out_of_words_before_last_round_does_not_finish() {
    let mut game = ready_game();
    start_game(&mut game).ok().unwrap();
    let tp = turn_player(&game);
    let mut events = Vec::new();
    while !game.game_state.words_to_guess.is_empty() {
        let w = fetch_word_to_guess(&mut game, &tp).ok().unwrap().to_owned_string();
        events = guess_word(&mut game, &tp, &w).ok().unwrap().events;
    }
    assert_eq!(events[1], "out_of_words");
    assert!(!game.game_state.is_game_finished);
}

#[test]
fn undo_after_guess_gives_word_back() {
    let mut game = ready_game();
    start_game(&mut game).ok().unwrap();
    let tp = turn_player(&game);
    let w1 = fetch_word_to_guess(&mut game, &tp).ok().unwrap().to_owned_string();
    let w2 = fetch_word_to_guess(&mut game, &tp).ok().unwrap().to_owned_string();
    let to_guess = names(&game.game_state.words_to_guess);
    let guessed = names(&game.game_state.words_guessed);
    guess_word(&mut game, &tp, &w1).ok().unwrap();
    let undone = undo_last_guess(&mut game, &tp).ok().unwrap();
    assert_eq!(undone.word.to_owned_string(), w1);
    assert_eq!(undone.event, format!("undo_guess:{}", w1));
    let s = &game.game_state;
    assert_eq!(names(&s.words_to_guess), to_guess);
    assert_eq!(names(&s.words_guessed), guessed);
    assert_eq!(sorted(names(&s.words_in_play)), sorted(vec![w1, w2]));
    let team = *s.team_member_to_team_index.get(&ArcString::from_str(&tp)).unwrap();
    assert!(s.words_guessed_per_team_per_round[&1][&team].is_empty());
}

#[test]
fn undo_with_two_words_in_play_puts_one_back() {
    let mut game = ready_game();
    start_game(&mut game).ok().unwrap();
    let tp = turn_player(&game);
    let w1 = fetch_word_to_guess(&mut game, &tp).ok().unwrap().to_owned_string();
    guess_word(&mut game, &tp, &w1).ok().unwrap();
    let w2 = fetch_word_to_guess(&mut game, &tp).ok().unwrap().to_owned_string();
    let w3 = fetch_word_to_guess(&mut game, &tp).ok().unwrap().to_owned_string();
    let undone = undo_last_guess(&mut game, &tp).ok().unwrap();
    assert_eq!(undone.word.to_owned_string(), w1);
    let s = &game.game_state;
    assert_eq!(names(&s.words_in_play), vec![w2, w1]);
    assert_eq!(s.words_to_guess.last().unwrap().to_owned_string(), w3);
    assert!(s.words_in_play.len() <= 2);
}

#[test]
fn undo_refusals() {
    let mut game = ready_game();
    assert!(matches!(undo_last_guess(&mut game, "ana"), Err(GameError::TeamIndexNotFound)));
    assert_eq!(GameError::TeamIndexNotFound.message(), "Team index not found");
    start_game(&mut game).ok().unwrap();
    let tp = turn_player(&game);
    assert!(matches!(undo_last_guess(&mut game, &tp), Err(GameError::TeamIndexNotFoundInRound)));
    assert_eq!(GameError::TeamIndexNotFoundInRound.message(), "Team index not found in round");
    let other = game.game_state.player_rotation[1].to_owned_string();
    assert!(matches!(undo_last_guess(&mut game, &other), Err(GameError::NotTurnPlayer)));
    let w = fetch_word_to_guess(&mut game, &tp).ok().unwrap().to_owned_string();
    guess_word(&mut game, &tp, &w).ok().unwrap();
    undo_last_guess(&mut game, &tp).ok().unwrap();
    assert!(matches!(undo_last_guess(&mut game, &tp), Err(GameError::NoWordsGuessedThisRound)));
    assert_eq!(GameError::NoWordsGuessedThisRound.message(), "No words guessed this round");
    game.game_state.round = 9;
    assert!(matches!(undo_last_guess(&mut game, &tp), Err(GameError::RoundNotFound)));
    assert_eq!(GameError::RoundNotFound.message(), "Round not found");
}

#[test]
fn next_turn_rotates_and_returns_words() {
    let mut game = ready_game();
    start_game(&mut game).ok().unwrap();
    let rotation = names(&game.game_state.player_rotation);
    let tp = turn_player(&game);
    fetch_word_to_guess(&mut game, &tp).ok().unwrap();
    game.game_state.timer = 1234;
    let before = pool(&game);
    let event = next_turn(&mut game);
    assert_eq!(event, "next_turn");
    let s = &game.game_state;
    assert_eq!(s.turn_player_index, 1);
    assert_eq!(turn_player(&game), rotation[1]);
    assert_eq!(game.game_state.timer, TIMER_START_VALUE);
    assert!(game.game_state.words_in_play.is_empty());
    assert_eq!(game.game_state.words_to_guess.len(), 16);
    assert_eq!(pool(&game), before);
}

#[test]
fn rotation_goes_round() {
    let mut game = ready_game();
    start_game(&mut game).ok().unwrap();
    let rotation = names(&game.game_state.player_rotation);
    let mut seen = Vec::new();
    for _ in 0..4 {
        rotate_to_next_turn_player(&mut game.game_state);
        seen.push(turn_player(&game));
    }
    assert_eq!(seen, vec![rotation[1].clone(), rotation[2].clone(), rotation[3].clone(), rotation[0].clone()]);
    assert_eq!(game.game_state.turn_player_index, 0);
}

#[test]
fn next_round_returns_guessed_words() {
    let mut game = ready_game();
    start_game(&mut game).ok().unwrap();
    let tp = turn_player(&game);
    let w = fetch_word_to_guess(&mut game, &tp).ok().unwrap().to_owned_string();
    guess_word(&mut game, &tp, &w).ok().unwrap();
    game.game_state.timer = 5000;
    let before = pool(&game);
    let event = next_round(&mut game);
    assert_eq!(event, "next_round");
    let s = &game.game_state;
    assert_eq!(s.round, 2);
    assert!(s.is_round_active);
    assert!(s.words_guessed.is_empty());
    assert_eq!(s.words_to_guess.len(), 16);
    assert_eq!(s.timer, 5000);
    assert_eq!(turn_player(&game), tp);
    assert_eq!(pool(&game), before);
}

#[test]
fn next_round_with_little_time_passes_turn() {
    let mut game = ready_game();
    start_game(&mut game).ok().unwrap();
    let rotation = names(&game.game_state.player_rotation);
    game.game_state.timer = 999;
    next_round(&mut game);
    assert_eq!(game.game_state.timer, TIMER_START_VALUE);
    assert_eq!(turn_player(&game), rotation[1]);
}

#[test]
fn update_timer_state_sets_fields_and_event() {
    let mut game = init_game(1, "ana", 4);
    let event = update_timer_state(&mut game, 41999, true, false, 2);
    assert_eq!(event, "timer_update:41999");
    assert_eq!(game.game_state.timer, 41999);
    assert!(game.game_state.is_turn_active);
    assert!(!game.game_state.is_round_active);
    assert_eq!(game.game_state.round, 2);
    let event = update_timer_state(&mut game, -7, false, true, 1);
    assert_eq!(event, "timer_update:-7");
    let event = update_timer_state(&mut game, 0, false, true, 1);
    assert_eq!(event, "timer_update:0");
}

#[test]
fn guesses_are_kept_per_round_and_team() {
    let mut game = ready_game();
    start_game(&mut game).ok().unwrap();
    let tp = turn_player(&game);
    let team = *game.game_state.team_member_to_team_index.get(&ArcString::from_str(&tp)).unwrap();
    let w = fetch_word_to_guess(&mut game, &tp).ok().unwrap().to_owned_string();
    guess_word(&mut game, &tp, &w).ok().unwrap();
    let per_round: &HashMap<i32, HashMap<i32, Vec<ArcString>>> =
        &game.game_state.words_guessed_per_team_per_round;
    assert_eq!(per_round[&1].len(), 1);
    assert!(per_round[&2].is_empty());
    assert_eq!(names(&per_round[&1][&team]), vec![w]);
}

#[test]
fn start_game_shuffles_words_and_players() {
    let mut words_moved = false;
    let mut players_moved = false;
    for _ in 0..10 {
        let mut game = ready_game();
        let words_in_order = names(&game.words);
        start_game(&mut game).ok().unwrap();
        if names(&game.game_state.words_to_guess) != words_in_order {
            words_moved = true;
        }
        if names(&game.players) != vec!["ana", "bo", "cy", "di"] {
            players_moved = true;
        }
    }
    assert!(words_moved);
    assert!(players_moved);
}

#[test]
fn undoing_the_last_guess_of_the_game_reopens_it() {
    let mut game = ready_game();
    start_game(&mut game).ok().unwrap();
    game.game_state.round = NUM_ROUNDS;
    let tp = turn_player(&game);
    while !game.game_state.words_to_guess.is_empty() {
        let w = fetch_word_to_guess(&mut game, &tp).ok().unwrap().to_owned_string();
        guess_word(&mut game, &tp, &w).ok().unwrap();
    }
    assert!(game.game_state.is_game_finished);
    let undone = undo_last_guess(&mut game, &tp).ok().unwrap();
    assert_eq!(names(&game.game_state.words_in_play), vec![undone.word.to_owned_string()]);
    assert!(!game.game_state.is_game_finished);
}

#[test]
fn undo_takes_back_the_teams_own_word() {
    let mut game = ready_game();
    start_game(&mut game).ok().unwrap();
    // the rotation is the first players of the two teams, then the second players
    let first = turn_player(&game);
    let w1 = fetch_word_to_guess(&mut game, &first).ok().unwrap().to_owned_string();
    guess_word(&mut game, &first, &w1).ok().unwrap();
    next_turn(&mut game);
    let other_team = turn_player(&game);
    let w2 = fetch_word_to_guess(&mut game, &other_team).ok().unwrap().to_owned_string();
    guess_word(&mut game, &other_team, &w2).ok().unwrap();
    next_turn(&mut game);
    let teammate = turn_player(&game);
    assert_eq!(
        game.game_state.teammates.get(&ArcString::from_str(&teammate)).unwrap().to_owned_string(),
        first
    );
    let before = pool(&game);
    let undone = undo_last_guess(&mut game, &teammate).ok().unwrap();
    assert_eq!(undone.word.to_owned_string(), w1);
    assert_eq!(names(&game.game_state.words_guessed), vec![w2]);
    assert_eq!(names(&game.game_state.words_in_play), vec![w1]);
    assert_eq!(pool(&game), before);
}

#[test]
fn undo_in_a_game_finished_before_keeps_it_finished() {
    let mut game = ready_game();
    start_game(&mut game).ok().unwrap();
    game.game_state.round = NUM_ROUNDS;
    let tp = turn_player(&game);
    while !game.game_state.words_to_guess.is_empty() {
        let w = fetch_word_to_guess(&mut game, &tp).ok().unwrap().to_owned_string();
        guess_word(&mut game, &tp, &w).ok().unwrap();
    }
    assert!(game.game_state.is_game_finished);
    // the words come back and the round is set back to the last one
    game.game_state.timer = 5000;
    next_round(&mut game);
    update_timer_state(&mut game, 5000, true, true, NUM_ROUNDS);
    let w = fetch_word_to_guess(&mut game, &tp).ok().unwrap().to_owned_string();
    guess_word(&mut game, &tp, &w).ok().unwrap();
    undo_last_guess(&mut game, &tp).ok().unwrap();
    assert!(game.game_state.is_game_finished);
}

#[test]
fn next_round_has_a_place_for_the_guesses_of_the_new_round() {
    let mut game = ready_game();
    start_game(&mut game).ok().unwrap();
    for round in 2..=NUM_ROUNDS {
        game.game_state.timer = 5000;
        next_round(&mut game);
        assert_eq!(game.game_state.round, round);
        assert!(game.game_state.words_guessed_per_team_per_round.contains_key(&round));
    }
}
