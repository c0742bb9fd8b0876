use vstd::prelude::*;

verus! {

/// Why a request about a game was refused.
#[derive(Debug, Clone, Copy, PartialEq, Eq, Structural)]
pub enum GameError {
    GameNotFound,
    WordLimitTooLow,
    WordLimitTooHigh,
    NameAlreadyExists,
    PlayerNotInGame,
    HostCannotLeave,
    GameAlreadyStarted,
    OnlyHostCanKick,
    PlayerDoesNotExistInGame,
    CannotAddMoreWords,
    WordNotFound,
    PlayerHasNoWords,
    PlayerDoesNotExist,
    OddNumberOfPlayers,
    PlayersStillNeedToAddWords,
    NotTurnPlayer,
    EnoughWordsInPlay,
    NoWordsLeft,
    WordNotInPlay,
    TeamIndexNotFound,
    RoundNotFound,
    TeamIndexNotFoundInRound,
    NoWordsGuessedThisRound,
}

/// The text sent back with a refusal.
pub open spec fn error_text(e: GameError) -> Seq<char> {
    match e {
        GameError::GameNotFound => "Game not found"@,
        GameError::WordLimitTooLow => "Word count per player is too low. Lower limit is 4"@,
        GameError::WordLimitTooHigh => "Word count per player is too high. Upper limit is 7"@,
        GameError::NameAlreadyExists => "Name already exists"@,
        GameError::PlayerNotInGame => "Player not in game"@,
        GameError::HostCannotLeave => "The host cannot leave the game"@,
        GameError::GameAlreadyStarted => "The game has already started"@,
        GameError::OnlyHostCanKick => "Only the host can kick people"@,
        GameError::PlayerDoesNotExistInGame => "Player does not exist in game"@,
        GameError::CannotAddMoreWords => "You can't add more words"@,
        GameError::WordNotFound => "Word not found"@,
        GameError::PlayerHasNoWords => "Player has no words"@,
        GameError::PlayerDoesNotExist => "Player doesn't exist"@,
        GameError::OddNumberOfPlayers => "Game cannot start with an odd number of players"@,
        GameError::PlayersStillNeedToAddWords => "Players still need to add words"@,
        GameError::NotTurnPlayer => "You are not the turn player"@,
        GameError::EnoughWordsInPlay => "You already have enough words in play"@,
        GameError::NoWordsLeft => "No words left"@,
        GameError::WordNotInPlay => "This word is not in play"@,
        GameError::TeamIndexNotFound => "Team index not found"@,
        GameError::RoundNotFound => "Round not found"@,
        GameError::TeamIndexNotFoundInRound => "Team index not found in round"@,
        GameError::NoWordsGuessedThisRound => "No words guessed this round"@,
    }
}

impl GameError {
    /// The text sent back with the refusal.
    pub fn message(&self) -> (m: &'static str)
        ensures
            m@ == error_text(*self),
    {
        match self {
            GameError::GameNotFound => "Game not found",
            GameError::WordLimitTooLow => "Word count per player is too low. Lower limit is 4",
            GameError::WordLimitTooHigh => "Word count per player is too high. Upper limit is 7",
            GameError::NameAlreadyExists => "Name already exists",
            GameError::PlayerNotInGame => "Player not in game",
            GameError::HostCannotLeave => "The host cannot leave the game",
            GameError::GameAlreadyStarted => "The game has already started",
            GameError::OnlyHostCanKick => "Only the host can kick people",
            GameError::PlayerDoesNotExistInGame => "Player does not exist in game",
            GameError::CannotAddMoreWords => "You can't add more words",
            GameError::WordNotFound => "Word not found",
            GameError::PlayerHasNoWords => "Player has no words",
            GameError::PlayerDoesNotExist => "Player doesn't exist",
            GameError::OddNumberOfPlayers => "Game cannot start with an odd number of players",
            GameError::PlayersStillNeedToAddWords => "Players still need to add words",
            GameError::NotTurnPlayer => "You are not the turn player",
            GameError::EnoughWordsInPlay => "You already have enough words in play",
            GameError::NoWordsLeft => "No words left",
            GameError::WordNotInPlay => "This word is not in play",
            GameError::TeamIndexNotFound => "Team index not found",
            GameError::RoundNotFound => "Round not found",
            GameError::TeamIndexNotFoundInRound => "Team index not found in round",
            GameError::NoWordsGuessedThisRound => "No words guessed this round",
        }
    }
}

} // verus!
