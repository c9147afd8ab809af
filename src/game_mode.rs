//! Game type and game mode, decoded from the console's integer codes.
use vstd::prelude::*;

verus! {

#[derive(Debug, Clone, Copy, PartialEq, Eq, Structural)]
pub enum GameType {
    Classic,
    GunGame,
    Training,
    Custom,
    Cooperative,
    Skirmish,
    FreeForAll,
}

/// The game type a `game_type` code stands for.
pub open spec fn game_type_of(code: u8) -> Option<GameType> {
    if code == 0 {
        Some(GameType::Classic)
    } else if code == 1 {
        Some(GameType::GunGame)
    } else if code == 2 {
        Some(GameType::Training)
    } else if code == 3 {
        Some(GameType::Custom)
    } else if code == 4 {
        Some(GameType::Cooperative)
    } else if code == 5 {
        Some(GameType::Skirmish)
    } else if code == 6 {
        Some(GameType::FreeForAll)
    } else {
        None
    }
}

impl GameType {
    pub fn try_from(value: u8) -> (r: Option<GameType>)
        ensures
            r == game_type_of(value),
    {
        match value {
            0 => Some(GameType::Classic),
            1 => Some(GameType::GunGame),
            2 => Some(GameType::Training),
            3 => Some(GameType::Custom),
            4 => Some(GameType::Cooperative),
            5 => Some(GameType::Skirmish),
            6 => Some(GameType::FreeForAll),
            _ => None,
        }
    }
}

#[derive(Debug, Clone, Copy, PartialEq, Eq, Structural)]
pub enum GameMode {
    Casual,
    Competitive,
    ScrimComp2v2,
    ScrimComp5v5,
    GunGameProgressive,
    GunGameTrBomb,
    Deathmatch,
    Training,
    Custom,
    Cooperative,
    CoopMission,
    Skirmish,
    Survival,
}

/// The game mode a `game_mode` code stands for under a game type: the same code
/// names different modes under different types.
pub open spec fn game_mode_of(game_type: GameType, code: u8) -> Option<GameMode> {
    match game_type {
        GameType::Classic => if code == 0 {
            Some(GameMode::Casual)
        } else if code == 1 {
            Some(GameMode::Competitive)
        } else if code == 2 {
            Some(GameMode::ScrimComp2v2)
        } else if code == 3 {
            Some(GameMode::ScrimComp5v5)
        } else {
            None
        },
        GameType::GunGame => if code == 0 {
            Some(GameMode::GunGameProgressive)
        } else if code == 1 {
            Some(GameMode::GunGameTrBomb)
        } else if code == 2 {
            Some(GameMode::Deathmatch)
        } else {
            None
        },
        GameType::Training => if code == 0 {
            Some(GameMode::Training)
        } else {
            None
        },
        GameType::Custom => if code == 0 {
            Some(GameMode::Custom)
        } else {
            None
        },
        GameType::Cooperative => if code == 0 {
            Some(GameMode::Cooperative)
        } else if code == 1 {
            Some(GameMode::CoopMission)
        } else {
            None
        },
        GameType::Skirmish => if code == 0 {
            Some(GameMode::Skirmish)
        } else {
            None
        },
        GameType::FreeForAll => if code == 0 {
            Some(GameMode::Survival)
        } else {
            None
        },
    }
}

/// The label shown for a mode; modes without one have an empty label.
pub open spec fn game_mode_label(mode: GameMode) -> Seq<char> {
    match mode {
        GameMode::Casual => "Casual"@,
        GameMode::Competitive => "Competitive"@,
        GameMode::ScrimComp2v2 => "Wingman"@,
        GameMode::Custom => "Custom"@,
        _ => ""@,
    }
}

impl GameMode {
    pub fn try_from(value: (GameType, u8)) -> (r: Option<GameMode>)
        ensures
            r == game_mode_of(value.0, value.1),
    {
        let (game_type, code) = value;
        match game_type {
            GameType::Classic => match code {
                0 => Some(GameMode::Casual),
                1 => Some(GameMode::Competitive),
                2 => Some(GameMode::ScrimComp2v2),
                3 => Some(GameMode::ScrimComp5v5),
                _ => None,
            },
            GameType::GunGame => match code {
                0 => Some(GameMode::GunGameProgressive),
                1 => Some(GameMode::GunGameTrBomb),
                2 => Some(GameMode::Deathmatch),
                _ => None,
            },
            GameType::Training => match code {
                0 => Some(GameMode::Training),
                _ => None,
            },
            GameType::Custom => match code {
                0 => Some(GameMode::Custom),
                _ => None,
            },
            GameType::Cooperative => match code {
                0 => Some(GameMode::Cooperative),
                1 => Some(GameMode::CoopMission),
                _ => None,
            },
            GameType::Skirmish => match code {
                0 => Some(GameMode::Skirmish),
                _ => None,
            },
            GameType::FreeForAll => match code {
                0 => Some(GameMode::Survival),
                _ => None,
            },
        }
    }

    /// The label shown for this mode.
    pub fn to_string(&self) -> (r: String)
        ensures
            r@ == game_mode_label(*self),
    {
        match self {
            GameMode::Casual => "Casual".to_owned(),
            GameMode::Competitive => "Competitive".to_owned(),
            GameMode::ScrimComp2v2 => "Wingman".to_owned(),
            GameMode::Custom => "Custom".to_owned(),
            _ => "".to_owned(),
        }
    }
}

} // verus!
