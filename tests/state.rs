use csgo_console::damage::{Damage, DamageDirection};
use csgo_console::event::Event;
use csgo_console::game_mode::{GameMode, GameType};
use csgo_console::state::{State, STATUS_COMMAND, TICK_COMMAND};
use csgo_console::status::{HostType, Players, Status, StatusData};
use csgo_console::ui_state::UIState;

fn damage(direction: DamageDirection, amount: u8) -> Event {
    Event::Damage(Damage { direction, target: "X".to_string(), amount, hits: 1 })
}

fn connected(map: &str) -> Status {
    Status::Connected(StatusData {
        hostname: "h".to_string(),
        host_type: HostType::Unofficial,
        version: "1".to_string(),
        address: None,
        os: "Linux".to_string(),
        server_type: "community".to_string(),
        map: map.to_string(),
        players: Players { humans: 1, bots: 0, max: 10 },
        player_list: Vec::new(),
    })
}

#[test]
fn default_state() {
    let s = State::default();
    assert_eq!(s.ui_state, UIState::MainMenu);
    assert!(matches!(s.status, Status::NotConnected));
    assert_eq!(s.map, None);
    assert_eq!(s.round, 0);
    assert_eq!(s.game_type, GameType::Classic);
    assert_eq!(s.game_mode, GameMode::Casual);
    assert!(!s.enabled);
}

#[test]
fn main_menu_clears_game_data() {
    let mut s = State::default();
    s.apply(Event::MapChange("de_dust2".to_string()));
    s.apply(Event::EnterBuyPeriod);
    s.apply(Event::EnterBuyPeriod);
    s.apply(damage(DamageDirection::Given, 150));
    s.apply(damage(DamageDirection::Taken, 20));
    assert_eq!(s.round, 2);
    let r = s.apply(Event::ChangeUIState(UIState::InGame, UIState::MainMenu));
    assert!(r.notify);
    assert_eq!(s.map, None);
    assert_eq!(s.round, 0);
    assert_eq!(s.total_damage_given, 0);
    assert_eq!(s.total_damage_taken, 0);
    assert_eq!(s.ui_state, UIState::MainMenu);
}

#[test]
fn damage_floor_of_one_hundred() {
    let mut s = State::default();
    s.apply(damage(DamageDirection::Given, 5));
    assert_eq!(s.total_damage_given, 100);
    s.apply(damage(DamageDirection::Given, 250));
    assert_eq!(s.total_damage_given, 350);
    s.apply(damage(DamageDirection::Taken, 100));
    assert_eq!(s.total_damage_taken, 100);
    assert_eq!(s.total_damage_given, 350);
}

#[test]
fn game_mode_depends_on_game_type() {
    let mut s = State::default();
    s.apply(Event::ConVar("game_type".to_string(), "1".to_string()));
    assert_eq!(s.game_type, GameType::GunGame);
    s.apply(Event::ConVar("game_mode".to_string(), "1".to_string()));
    assert_eq!(s.game_mode, GameMode::GunGameTrBomb);
    s.apply(Event::ConVar("game_type".to_string(), "0".to_string()));
    s.apply(Event::ConVar("game_mode".to_string(), "1".to_string()));
    assert_eq!(s.game_mode, GameMode::Competitive);
    let r = s.apply(Event::ConVar("game_mode".to_string(), "9".to_string()));
    assert!(!r.notify);
    assert_eq!(s.game_mode, GameMode::Competitive);
    let r = s.apply(Event::ConVar("game_type".to_string(), "x".to_string()));
    assert!(!r.notify);
    assert_eq!(s.game_type, GameType::Classic);
}

#[test]
fn game_mode_tables() {
    assert_eq!(GameType::try_from(6), Some(GameType::FreeForAll));
    assert_eq!(GameType::try_from(7), None);
    assert_eq!(GameMode::try_from((GameType::Cooperative, 1)), Some(GameMode::CoopMission));
    assert_eq!(GameMode::try_from((GameType::Training, 1)), None);
    assert_eq!(GameMode::ScrimComp2v2.to_string(), "Wingman");
    assert_eq!(GameMode::Deathmatch.to_string(), "");
}

#[test]
fn status_sets_and_clears_map() {
    let mut s = State::default();
    s.apply(Event::EnterBuyPeriod);
    s.apply(Event::Status(connected("de_vertigo")));
    assert_eq!(s.map.as_deref(), Some("de_vertigo"));
    assert_eq!(s.round, 1);
    s.apply(Event::Status(Status::NotConnected));
    assert_eq!(s.map, None);
    assert_eq!(s.round, 0);
}

#[test]
fn commands_and_ticks() {
    let mut s = State::default();
    let r = s.apply(Event::ChangeUIState(UIState::LoadingScreen, UIState::InGame));
    assert_eq!(r.command.as_deref(), Some(STATUS_COMMAND));
    let r = s.apply(Event::Tick(0));
    assert_eq!(r.command, None);
    let r = s.apply(Event::Command("toggle".to_string()));
    assert!(s.enabled);
    assert!(r.notify);
    s.apply(Event::Status(connected("de_train")));
    let r = s.apply(Event::Tick(1));
    assert_eq!(r.command.as_deref(), Some(TICK_COMMAND));
    assert!(!r.notify);
    let r = s.apply(Event::ChangeUIState(UIState::InGame, UIState::InGame));
    assert_eq!(r.command, None);
    let r = s.apply(Event::Command("say hi".to_string()));
    assert_eq!(r.command.as_deref(), Some("say hi"));
    assert!(!r.notify);
}

#[test]
fn round_counter_saturates() {
    let mut s = State::default();
    for _ in 0..300 {
        s.apply(Event::EnterBuyPeriod);
    }
    assert_eq!(s.round, 255);
}

#[test]
fn clear_game_data_sets_map() {
    let mut s = State::default();
    s.round = 4;
    s.total_damage_given = 9;
    s.clear_game_data(Some("de_cache".to_string()));
    assert_eq!(s.map.as_deref(), Some("de_cache"));
    assert_eq!(s.round, 0);
    assert_eq!(s.total_damage_given, 0);
}

#[test]
fn players_total() {
    assert_eq!(Players { humans: 3, bots: 4, max: 10 }.total(), 7);
}
