use csgo_console::classify::{classify_line, LineClass};
use csgo_console::damage::{Damage, DamageDirection};
use csgo_console::event::{Event, EventDiscriminants};
use csgo_console::status::Status;
use csgo_console::ui_state::UIState;

fn emitted(line: &str) -> Event {
    match classify_line(line) {
        LineClass::Emit(e) => e,
        other => panic!("expected one event from {:?}, got {:?}", line, other),
    }
}

#[test]
fn damage_given_line() {
    let e = emitted("Damage Given to \"Bob\" - 25 in 2 hits");
    assert_eq!(
        e,
        Event::Damage(Damage {
            direction: DamageDirection::Given,
            target: "Bob".to_string(),
            amount: 25,
            hits: 2,
        })
    );
}

#[test]
fn damage_taken_line() {
    let e = emitted("  Damage Taken from \"Some One\" - 100 in 4 hits  ");
    assert_eq!(
        e,
        Event::Damage(Damage {
            direction: DamageDirection::Taken,
            target: "Some One".to_string(),
            amount: 100,
            hits: 4,
        })
    );
}

#[test]
fn bogus_damage_line_is_malformed() {
    assert!(matches!(classify_line("Damage Bogus"), LineClass::Malformed));
    assert!(matches!(
        classify_line("Damage Given to \"Bob\" - 300 in 2 hits"),
        LineClass::Malformed
    ));
}

#[test]
fn damage_try_from_errors() {
    assert!(Damage::try_from("Damage Given to \"Bob\" - x in 2 hits").is_err());
    assert!(Damage::try_from("Damage Given to \"Bob\" - 25 in 2").is_err());
    assert!(Damage::try_from("Damage Sideways \"Bob\" - 25 in 2 hits").is_err());
    let d = Damage::try_from("Damage Given to \"Bob\" - +7 in 1 hit").unwrap();
    assert_eq!(d.amount, 7);
}

#[test]
fn ui_state_change() {
    let e = emitted("ChangeGameUIState: CSGO_GAME_UI_STATE_LOADINGSCREEN -> CSGO_GAME_UI_STATE_INGAME");
    assert_eq!(e, Event::ChangeUIState(UIState::LoadingScreen, UIState::InGame));
    assert!(matches!(
        classify_line("ChangeGameUIState: CSGO_GAME_UI_STATE_BOGUS -> CSGO_GAME_UI_STATE_INGAME"),
        LineClass::Malformed
    ));
    assert!(matches!(classify_line("ChangeGameUIState: nothing"), LineClass::Malformed));
}

#[test]
fn ui_state_tokens() {
    assert_eq!(UIState::try_from("CSGO_GAME_UI_STATE_MAINMENU"), Ok(UIState::MainMenu));
    assert_eq!(UIState::try_from("CSGO_GAME_UI_STATE_PAUSEMENU"), Ok(UIState::PauseMenu));
    assert_eq!(UIState::try_from("menu"), Err("menu".to_string()));
}

#[test]
fn simple_rules() {
    assert_eq!(emitted("Map: de_inferno"), Event::MapChange("de_inferno".to_string()));
    assert_eq!(emitted("Bob connected."), Event::PlayerConnected("Bob".to_string()));
    assert_eq!(emitted("EVERYONE CAN BUY!"), Event::EnterBuyPeriod);
    let e = emitted("Not connected to server");
    assert!(e.is_variant(EventDiscriminants::Status));
    assert!(matches!(e, Event::Status(Status::NotConnected)));
}

#[test]
fn hostname_starts_status_block() {
    match classify_line("hostname: Valve CS:GO EU West Server (srcds123)") {
        LineClass::StatusBlock(h) => assert_eq!(h, "Valve CS:GO EU West Server (srcds123)"),
        other => panic!("{:?}", other),
    }
}

#[test]
fn convar_forms() {
    assert_eq!(
        emitted("\"game_mode\" = \"1\" ( def. \"0\" )"),
        Event::ConVar("game_mode".to_string(), "1".to_string())
    );
    assert_eq!(
        emitted("game_type - 0"),
        Event::ConVar("game_type".to_string(), "0".to_string())
    );
    assert!(matches!(classify_line("\"\" = \"1\""), LineClass::Nothing));
    assert!(matches!(classify_line("two words - value"), LineClass::Nothing));
}

#[test]
fn command_marker() {
    assert_eq!(emitted("??? toggle"), Event::Command("toggle".to_string()));
    match classify_line("??? - x") {
        LineClass::EmitTwo(a, b) => {
            assert_eq!(a, Event::ConVar("???".to_string(), "x".to_string()));
            assert_eq!(b, Event::Command("- x".to_string()));
        }
        other => panic!("{:?}", other),
    }
}

#[test]
fn unmatched_and_empty_lines() {
    assert!(matches!(classify_line("   "), LineClass::Nothing));
    assert!(matches!(classify_line("some chatter"), LineClass::Nothing));
}

#[test]
fn event_is_variant() {
    assert!(Event::Tick(3).is_variant(EventDiscriminants::Tick));
    assert!(!Event::Tick(3).is_variant(EventDiscriminants::Command));
}
