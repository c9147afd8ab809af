use csgo_console::console::ConsoleParser;
use csgo_console::event::Event;
use csgo_console::status::{
    HostType, Players, Status, StatusData, StatusDiscriminants, StatusError, StatusField,
    StatusParser, StatusStep,
};

fn block() -> Vec<String> {
    [
        "version : 1.38.2.2/13822 1575/8012 secure  [G:1:3853483] ",
        "udp/ip  : 155.133.248.39:27015  (public ip: 155.133.248.39)",
        "os      :  Linux",
        "type    :  official dedicated",
        "map     : de_mirage",
        "players : 2 humans, 8 bots (10/0 max) (not hibernating)",
        "# userid name uniqueid connected ping loss state rate",
        "# 2 1 \"Alice\" STEAM_1:0:1111 05:12 40 0 active 196608",
        "# 3 2 \"Bob Two\" STEAM_1:1:2222 04:01 55 0 active 196608",
        "#end",
    ]
    .iter()
    .map(|s| s.to_string())
    .collect()
}

const HOST: &str = "Valve CS:GO EU West Server (srcds1234-sto1.123.45)";

#[test]
fn well_formed_block_round_trip() {
    let data = StatusData::parse(HOST.to_string(), &block())
        .expect("block ends")
        .expect("block is complete");
    assert_eq!(data.hostname, HOST);
    assert!(matches!(&data.host_type, HostType::Official(r) if r == "EU West"));
    assert_eq!(data.version, "1.38.2.2/13822 1575/8012 secure  [G:1:3853483]");
    assert_eq!(
        data.address.as_deref(),
        Some("155.133.248.39:27015  (public ip: 155.133.248.39)")
    );
    assert_eq!(data.os, "Linux");
    assert_eq!(data.server_type, "official dedicated");
    assert_eq!(data.map, "de_mirage");
    assert_eq!(data.players, Players { humans: 2, bots: 8, max: 10 });
    assert_eq!(data.players.total(), 10);
    assert_eq!(data.player_list.len(), 2);
    assert_eq!(data.player_list[0].id, "2 1");
    assert_eq!(data.player_list[0].name, "Alice");
    assert_eq!(data.player_list[0].steam_id, "STEAM_1:0:1111");
    assert_eq!(data.player_list[1].name, "Bob Two");
    assert_eq!(data.player_list[1].steam_id, "STEAM_1:1:2222");
}

#[test]
fn block_without_end_never_yields_status() {
    let mut lines = block();
    lines.pop();
    let mut parser = StatusParser::new(HOST.to_string());
    for _ in 0..50 {
        for l in &lines {
            assert!(matches!(parser.feed(l), StatusStep::Pending));
        }
    }
    assert!(StatusData::parse(HOST.to_string(), &lines).is_none());
}

#[test]
fn unofficial_server_and_map_decoration() {
    let lines: Vec<String> = [
        "version : 1.0",
        "os      : Windows",
        "type    : community dedicated",
        "map     : cs_office at: 0 x, 0 y, 0 z",
        "players : 1 humans, 0 bots (12/0 max)",
        "#end",
    ]
    .iter()
    .map(|s| s.to_string())
    .collect();
    let data = StatusData::parse("My server".to_string(), &lines).unwrap().unwrap();
    assert!(matches!(data.host_type, HostType::Unofficial));
    assert_eq!(data.address, None);
    assert_eq!(data.map, "cs_office");
    assert!(data.player_list.is_empty());
}

#[test]
fn missing_field_is_an_error() {
    let lines: Vec<String> = ["version : 1.0", "os      : Linux", "#end"]
        .iter()
        .map(|s| s.to_string())
        .collect();
    let r = StatusData::parse(HOST.to_string(), &lines).unwrap();
    assert_eq!(r.err(), Some(StatusError::MissingField(StatusField::ServerType)));
    let r = StatusData::parse(HOST.to_string(), &["#end".to_string()]).unwrap();
    assert_eq!(r.err(), Some(StatusError::MissingField(StatusField::Version)));
}

#[test]
fn malformed_players_line_aborts() {
    let lines: Vec<String> = ["version : 1.0", "players : lots of people", "#end"]
        .iter()
        .map(|s| s.to_string())
        .collect();
    let r = StatusData::parse(HOST.to_string(), &lines).unwrap();
    assert_eq!(r.err(), Some(StatusError::MalformedPlayers));
}

#[test]
fn malformed_player_rows_are_skipped() {
    let mut lines = block();
    lines.insert(7, "# broken row".to_string());
    let data = StatusData::parse(HOST.to_string(), &lines).unwrap().unwrap();
    assert_eq!(data.player_list.len(), 2);
}

#[test]
fn console_parser_reads_status_block_inline() {
    let mut console = ConsoleParser::new();
    assert!(console.feed_line(&format!("hostname: {}", HOST)).is_empty());
    assert!(console.in_status_block());
    let lines = block();
    for l in &lines[..lines.len() - 1] {
        assert!(console.feed_line(l).is_empty());
    }
    let events = console.feed_line("#end");
    assert_eq!(events.len(), 1);
    match &events[0] {
        Event::Status(Status::Connected(d)) => {
            assert_eq!(d.map, "de_mirage");
            assert_eq!(d.player_list.len(), 2);
        }
        other => panic!("{:?}", other),
    }
    assert!(!console.in_status_block());
    assert_eq!(console.feed_line("Map: de_nuke"), vec![Event::MapChange("de_nuke".to_string())]);
}

#[test]
fn console_parser_emits_two_events_and_drops_failed_blocks() {
    let mut console = ConsoleParser::new();
    assert_eq!(console.feed_line("??? - x").len(), 2);
    assert!(console.feed_line("hostname: x").is_empty());
    assert!(console.feed_line("#end").is_empty());
    assert!(!console.in_status_block());
}

#[test]
fn status_equality_and_variant() {
    assert!(Status::NotConnected.is_variant(StatusDiscriminants::NotConnected));
    assert!(Status::NotConnected == Status::NotConnected);
}
