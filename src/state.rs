//! The session state and the reducer that folds events into it.
use vstd::prelude::*;

use crate::damage::DamageDirection;
use crate::event::{Event, EventModel};
use crate::game_mode::{game_mode_of, game_type_of, GameMode, GameType};
use crate::status::{opt_view, Status, StatusModel};
use crate::text::{chars_of, eq_exec, parse_bounded, parse_bounded_exec};
use crate::ui_state::UIState;

verus! {

/// The command that asks the game for a status block.
pub const STATUS_COMMAND: &'static str = "status";

/// The command sent on each heartbeat while playing with automation enabled.
pub const TICK_COMMAND: &'static str = "clan;incrementvar cl_hud_color 0 5 1";

/// The least damage a single report counts for.
pub const DAMAGE_FLOOR: u8 = 100;

/// The adapter's view of the game session.
#[derive(Debug, Clone)]
pub struct State {
    pub ui_state: UIState,
    pub status: Status,
    pub map: Option<String>,
    pub round: u8,
    pub total_damage_given: u64,
    pub total_damage_taken: u64,
    pub game_type: GameType,
    pub game_mode: GameMode,
    pub enabled: bool,
}

/// A `State` as plain values; a status is `None` when not connected.
pub struct StateModel {
    pub ui_state: UIState,
    pub status: Option<StatusModel>,
    pub map: Option<Seq<char>>,
    pub round: u8,
    pub total_damage_given: u64,
    pub total_damage_taken: u64,
    pub game_type: GameType,
    pub game_mode: GameMode,
    pub enabled: bool,
}

pub open spec fn status_view(s: Status) -> Option<StatusModel> {
    match s {
        Status::NotConnected => None,
        Status::Connected(d) => Some(d.model()),
    }
}

impl View for State {
    type V = StateModel;

    open spec fn view(&self) -> StateModel {
        StateModel {
            ui_state: self.ui_state,
            status: status_view(self.status),
            map: opt_view(self.map),
            round: self.round,
            total_damage_given: self.total_damage_given,
            total_damage_taken: self.total_damage_taken,
            game_type: self.game_type,
            game_mode: self.game_mode,
            enabled: self.enabled,
        }
    }
}

/// The state of a fresh session: main menu, not connected, nothing counted.
pub open spec fn initial_state() -> StateModel {
    StateModel {
        ui_state: UIState::MainMenu,
        status: None,
        map: None,
        round: 0,
        total_damage_given: 0,
        total_damage_taken: 0,
        game_type: GameType::Classic,
        game_mode: GameMode::Casual,
        enabled: false,
    }
}

/// `s` with a new map and round, and both damage totals, back to zero.
pub open spec fn cleared(s: StateModel, map: Option<Seq<char>>) -> StateModel {
    StateModel { map, round: 0, total_damage_given: 0, total_damage_taken: 0, ..s }
}

/// What one damage report adds: its amount, but at least the floor.
pub open spec fn damage_weight(amount: u8) -> u64 {
    if amount < DAMAGE_FLOOR {
        DAMAGE_FLOOR as u64
    } else {
        amount as u64
    }
}

pub open spec fn sat_add(a: u64, b: u64) -> u64 {
    if a + b > u64::MAX {
        u64::MAX
    } else {
        (a + b) as u64
    }
}

/// What the reducer does besides changing the state.
pub struct Reaction {
    /// The state changed: listeners are to be handed a copy.
    pub notify: bool,
    /// A command for the game, to be sent on a connection of its own.
    pub command: Option<String>,
}

/// A `Reaction` as plain values.
pub type ReactionModel = (bool, Option<Seq<char>>);

impl Reaction {
    pub open spec fn model(&self) -> ReactionModel {
        (self.notify, opt_view(self.command))
    }
}

/// The state after one event, and the reaction to it.
pub open spec fn reduce(s: StateModel, e: EventModel) -> (StateModel, ReactionModel) {
    match e {
        EventModel::Command(c) => if c == "toggle"@ {
            (StateModel { enabled: !s.enabled, ..s }, (true, None))
        } else {
            (s, (false, Some(c)))
        },
        EventModel::ChangeUIState(_, to) => {
            let t = StateModel { ui_state: to, ..s };
            let t = if to == UIState::MainMenu {
                cleared(t, None)
            } else {
                t
            };
            let cmd = if to == UIState::InGame && s.status is None {
                Some(STATUS_COMMAND@)
            } else {
                None
            };
            (t, (true, cmd))
        },
        EventModel::Status(st) => {
            let t = StateModel { status: st, ..s };
            match st {
                Some(d) => (StateModel { map: Some(d.map), ..t }, (true, None)),
                None => (cleared(t, None), (true, None)),
            }
        },
        EventModel::MapChange(m) => (cleared(s, Some(m)), (true, None)),
        EventModel::EnterBuyPeriod => (
            StateModel { round: if s.round == u8::MAX { s.round } else { (s.round + 1) as u8 }, ..s },
            (true, None),
        ),
        EventModel::Damage((dir, _, amount, _)) => if dir == DamageDirection::Given {
            (
                StateModel {
                    total_damage_given: sat_add(s.total_damage_given, damage_weight(amount)),
                    ..s
                },
                (true, None),
            )
        } else {
            (
                StateModel {
                    total_damage_taken: sat_add(s.total_damage_taken, damage_weight(amount)),
                    ..s
                },
                (true, None),
            )
        },
        EventModel::ConVar(name, value) => if name == "game_type"@ {
            match parse_bounded(value, 255) {
                Some(code) => match game_type_of(code as u8) {
                    Some(gt) => (StateModel { game_type: gt, ..s }, (true, None)),
                    None => (s, (false, None)),
                },
                None => (s, (false, None)),
            }
        } else if name == "game_mode"@ {
            match parse_bounded(value, 255) {
                Some(code) => match game_mode_of(s.game_type, code as u8) {
                    Some(gm) => (StateModel { game_mode: gm, ..s }, (true, None)),
                    None => (s, (false, None)),
                },
                None => (s, (false, None)),
            }
        } else {
            (s, (false, None))
        },
        EventModel::Tick(_) => if s.enabled && s.ui_state == UIState::InGame && s.status is Some {
            (s, (false, Some(TICK_COMMAND@)))
        } else {
            (s, (false, None))
        },
        EventModel::PlayerConnected(_) => (s, (false, None)),
    }
}

impl State {
    pub fn default() -> (r: State)
        ensures
            r@ == initial_state(),
    {
        State {
            ui_state: UIState::MainMenu,
            status: Status::NotConnected,
            map: None,
            round: 0,
            total_damage_given: 0,
            total_damage_taken: 0,
            game_type: GameType::Classic,
            game_mode: GameMode::Casual,
            enabled: false,
        }
    }

    /// Sets the map and zeroes the round and both damage totals.
    pub fn clear_game_data(&mut self, map: Option<String>)
        ensures
            final(self)@ == cleared(old(self)@, opt_view(map)),
    {
        self.map = map;
        self.round = 0;
        self.total_damage_given = 0;
        self.total_damage_taken = 0;
    }

    /// Folds one event into the state.
    pub fn apply(&mut self, event: Event) -> (r: Reaction)
        ensures
            (final(self)@, r.model()) == reduce(old(self)@, event.model()),
    {
        match event {
            Event::Command(c) => {
                if eq_exec(chars_of(c.as_str()).as_slice(), chars_of("toggle").as_slice()) {
                    self.enabled = !self.enabled;
                    Reaction { notify: true, command: None }
                } else {
                    Reaction { notify: false, command: Some(c) }
                }
            },
            Event::ChangeUIState(_, to) => {
                self.ui_state = to;
                if to == UIState::MainMenu {
                    self.clear_game_data(None);
                }
                let command = if to == UIState::InGame && self.status.is_variant(
                    crate::status::StatusDiscriminants::NotConnected,
                ) {
                    Some(STATUS_COMMAND.to_owned())
                } else {
                    None
                };
                Reaction { notify: true, command }
            },
            Event::Status(new_status) => {
                match new_status {
                    Status::Connected(data) => {
                        let map = data.map.clone();
                        self.status = Status::Connected(data);
                        self.map = Some(map);
                    },
                    Status::NotConnected => {
                        self.status = Status::NotConnected;
                        self.clear_game_data(None);
                    },
                }
                Reaction { notify: true, command: None }
            },
            Event::MapChange(map) => {
                self.clear_game_data(Some(map));
                Reaction { notify: true, command: None }
            },
            Event::EnterBuyPeriod => {
                self.round = self.round.saturating_add(1);
                Reaction { notify: true, command: None }
            },
            Event::Damage(damage) => {
                let weight: u64 = if damage.amount < DAMAGE_FLOOR {
                    DAMAGE_FLOOR as u64
                } else {
                    damage.amount as u64
                };
                if damage.direction == DamageDirection::Given {
                    self.total_damage_given = self.total_damage_given.saturating_add(weight);
                } else {
                    self.total_damage_taken = self.total_damage_taken.saturating_add(weight);
                }
                Reaction { notify: true, command: None }
            },
            Event::ConVar(name, value) => {
                let name = chars_of(name.as_str());
                let value = chars_of(value.as_str());
                if eq_exec(name.as_slice(), chars_of("game_type").as_slice()) {
                    if let Some(code) = parse_bounded_exec(value.as_slice(), 255) {
                        if let Some(gt) = GameType::try_from(code as u8) {
                            self.game_type = gt;
                            return Reaction { notify: true, command: None };
                        }
                    }
                    Reaction { notify: false, command: None }
                } else if eq_exec(name.as_slice(), chars_of("game_mode").as_slice()) {
                    if let Some(code) = parse_bounded_exec(value.as_slice(), 255) {
                        if let Some(gm) = GameMode::try_from((self.game_type, code as u8)) {
                            self.game_mode = gm;
                            return Reaction { notify: true, command: None };
                        }
                    }
                    Reaction { notify: false, command: None }
                } else {
                    Reaction { notify: false, command: None }
                }
            },
            Event::Tick(_) => {
                if self.enabled && self.ui_state == UIState::InGame && self.status.is_variant(
                    crate::status::StatusDiscriminants::Connected,
                ) {
                    Reaction { notify: false, command: Some(TICK_COMMAND.to_owned()) }
                } else {
                    Reaction { notify: false, command: None }
                }
            },
            Event::PlayerConnected(_) => Reaction { notify: false, command: None },
        }
    }
}

/// Entering the main menu forgets the map, the round and both damage totals,
/// whatever the state before.
pub proof fn lemma_main_menu_clears(s: StateModel, from: UIState)
    ensures
        ({
            let t = reduce(s, EventModel::ChangeUIState(from, UIState::MainMenu)).0;
            &&& t.map is None
            &&& t.round == 0
            &&& t.total_damage_given == 0
            &&& t.total_damage_taken == 0
        }),
{
}

/// A damage report of one's own raises the given total by its amount, but by
/// at least 100; the taken total stays.
pub proof fn lemma_damage_given_floor(s: StateModel, target: Seq<char>, amount: u8, hits: u8)
    requires
        s.total_damage_given + 255 <= u64::MAX,
    ensures
        ({
            let t = reduce(
                s,
                EventModel::Damage((DamageDirection::Given, target, amount, hits)),
            ).0;
            &&& t.total_damage_given == s.total_damage_given + if amount < 100 {
                100
            } else {
                amount as int
            }
            &&& t.total_damage_taken == s.total_damage_taken
        }),
{
}

/// A `game_mode` report is decoded under the current game type: the mode set is
/// the one its code names under that type, and nothing changes where the type
/// has no mode of that code. The same code names different modes under
/// different types.
pub proof fn lemma_game_mode_by_type(s: StateModel, value: Seq<char>)
    ensures
        reduce(s, EventModel::ConVar("game_mode"@, value)).0.game_mode == match parse_bounded(
            value,
            255,
        ) {
            Some(code) => match game_mode_of(s.game_type, code as u8) {
                Some(m) => m,
                None => s.game_mode,
            },
            None => s.game_mode,
        },
        game_mode_of(GameType::GunGame, 1) == Some(GameMode::GunGameTrBomb),
        game_mode_of(GameType::Classic, 1) == Some(GameMode::Competitive),
{
    reveal_strlit("game_mode");
    reveal_strlit("game_type");
    assert("game_mode"@[5] != "game_type"@[5]);
}

} // verus!
