use vstd::prelude::*;

use crate::extentions::arc_string::ArcString;
use crate::extentions::name_map::texts;
use crate::extentions::vec_utils::find_text;
use crate::models::game::Game;

verus! {

/// The pages of the site.
#[derive(Debug, Clone, Copy, PartialEq, Eq, Structural)]
pub enum Page {
    Home,
    Join,
    Create,
    Host,
    Await,
    Game,
    Results,
}

/// The path of a page's file.
pub open spec fn page_path(page: Page) -> Seq<char> {
    match page {
        Page::Home => "static/html/home.html"@,
        Page::Join => "static/html/join.html"@,
        Page::Create => "static/html/create.html"@,
        Page::Host => "static/html/host.html"@,
        Page::Await => "static/html/await.html"@,
        Page::Game => "static/html/game.html"@,
        Page::Results => "static/html/results.html"@,
    }
}

impl Page {
    /// The path of the page's file.
    pub fn path(&self) -> (p: &'static str)
        ensures
            p@ == page_path(*self),
    {
        match self {
            Page::Home => "static/html/home.html",
            Page::Join => "static/html/join.html",
            Page::Create => "static/html/create.html",
            Page::Host => "static/html/host.html",
            Page::Await => "static/html/await.html",
            Page::Game => "static/html/game.html",
            Page::Results => "static/html/results.html",
        }
    }
}

fn is_player(game: &Game, name: &str) -> (b: bool)
    ensures
        b == texts(game.players@).contains(name@),
{
    find_text(&game.players, &ArcString::from_str(name)).is_some()
}

/// The host's page for a player of the game; the results once the game is finished.
pub fn host(game: &Game, name: &str) -> (r: Option<Page>)
    ensures
        r == if !texts(game.players@).contains(name@) {
            None
        } else if game.game_state.is_game_finished {
            Some(Page::Results)
        } else {
            Some(Page::Host)
        },
{
    if !is_player(game, name) {
        return None;
    }
    if game.game_state.is_game_finished {
        return Some(Page::Results);
    }
    Some(Page::Host)
}

/// The waiting page for a player of the game; the results once the game is finished.
pub fn await_game(game: &Game, name: &str) -> (r: Option<Page>)
    ensures
        r == if !texts(game.players@).contains(name@) {
            None
        } else if game.game_state.is_game_finished {
            Some(Page::Results)
        } else {
            Some(Page::Await)
        },
{
    if !is_player(game, name) {
        return None;
    }
    if game.game_state.is_game_finished {
        return Some(Page::Results);
    }
    Some(Page::Await)
}

/// The game's page for a player of the game.
pub fn in_game(game: &Game, name: &str) -> (r: Option<Page>)
    ensures
        r == if texts(game.players@).contains(name@) {
            Some(Page::Game)
        } else {
            None
        },
{
    if !is_player(game, name) {
        return None;
    }
    Some(Page::Game)
}

/// The results page for a player of the game.
pub fn results(game: &Game, name: &str) -> (r: Option<Page>)
    ensures
        r == if texts(game.players@).contains(name@) {
            Some(Page::Results)
        } else {
            None
        },
{
    if !is_player(game, name) {
        return None;
    }
    Some(Page::Results)
}

} // verus!
