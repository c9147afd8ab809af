//! The game's interface mode.
use vstd::prelude::*;

use crate::text::{chars_of, eq_exec};

verus! {

/// The interface mode the console reports.
#[derive(Debug, Clone, Copy, PartialEq, Eq, Structural)]
pub enum UIState {
    MainMenu,
    LoadingScreen,
    InGame,
    PauseMenu,
}

/// The mode a console token names, if it names one.
pub open spec fn ui_state_of(s: Seq<char>) -> Option<UIState> {
    if s == "CSGO_GAME_UI_STATE_MAINMENU"@ {
        Some(UIState::MainMenu)
    } else if s == "CSGO_GAME_UI_STATE_LOADINGSCREEN"@ {
        Some(UIState::LoadingScreen)
    } else if s == "CSGO_GAME_UI_STATE_INGAME"@ {
        Some(UIState::InGame)
    } else if s == "CSGO_GAME_UI_STATE_PAUSEMENU"@ {
        Some(UIState::PauseMenu)
    } else {
        None
    }
}

impl UIState {
    /// Reads a token given as characters.
    pub fn from_chars(value: &[char]) -> (r: Option<UIState>)
        ensures
            r == ui_state_of(value@),
    {
        if eq_exec(value, chars_of("CSGO_GAME_UI_STATE_MAINMENU").as_slice()) {
            Some(UIState::MainMenu)
        } else if eq_exec(value, chars_of("CSGO_GAME_UI_STATE_LOADINGSCREEN").as_slice()) {
            Some(UIState::LoadingScreen)
        } else if eq_exec(value, chars_of("CSGO_GAME_UI_STATE_INGAME").as_slice()) {
            Some(UIState::InGame)
        } else if eq_exec(value, chars_of("CSGO_GAME_UI_STATE_PAUSEMENU").as_slice()) {
            Some(UIState::PauseMenu)
        } else {
            None
        }
    }

    /// Reads a console token; an unknown token is handed back as the error.
    pub fn try_from(value: &str) -> (r: Result<UIState, String>)
        ensures
            match ui_state_of(value@) {
                Some(u) => r == Ok::<UIState, String>(u),
                None => r is Err && r->Err_0@ == value@,
            },
    {
        let chars = chars_of(value);
        match UIState::from_chars(chars.as_slice()) {
            Some(u) => Ok(u),
            None => Err(value.to_owned()),
        }
    }
}

} // verus!
