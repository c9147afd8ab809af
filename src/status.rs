//! Server status snapshots and the parser for the status block that reports them.
use vstd::prelude::*;

use crate::text::{
    chars_of, contains, eq_exec, find_exec, parse_bounded, parse_bounded_exec, split_once,
    split_once_exec, strip_prefix, strip_prefix_exec, string_from_chars, trim, trim_chars,
};

verus! {

/// Whether the game is connected to a server, and what the server reported.
#[derive(Debug, Clone)]
pub enum Status {
    NotConnected,
    Connected(StatusData),
}

/// The variant of a `Status`, without its data.
#[derive(Debug, Clone, Copy, PartialEq, Eq, Structural)]
pub enum StatusDiscriminants {
    NotConnected,
    Connected,
}

impl Status {
    pub open spec fn kind(&self) -> StatusDiscriminants {
        match self {
            Status::NotConnected => StatusDiscriminants::NotConnected,
            Status::Connected(_) => StatusDiscriminants::Connected,
        }
    }

    pub fn discriminant(&self) -> (r: StatusDiscriminants)
        ensures
            r == self.kind(),
    {
        match self {
            Status::NotConnected => StatusDiscriminants::NotConnected,
            Status::Connected(_) => StatusDiscriminants::Connected,
        }
    }

    pub fn is_variant(&self, discriminant: StatusDiscriminants) -> (r: bool)
        ensures
            r == (self.kind() == discriminant),
    {
        self.discriminant() == discriminant
    }
}

/// Two statuses are equal when they are the same variant.
impl PartialEq for Status {
    fn eq(&self, other: &Status) -> (r: bool)
        ensures
            r == (self.kind() == other.kind()),
    {
        self.discriminant() == other.discriminant()
    }
}

impl vstd::std_specs::cmp::PartialEqSpecImpl for Status {
    open spec fn obeys_eq_spec() -> bool {
        true
    }

    open spec fn eq_spec(&self, other: &Status) -> bool {
        self.kind() == other.kind()
    }
}

#[derive(Debug, Clone)]
pub enum HostType {
    Official(String),
    Unofficial,
}

#[derive(Debug, Clone, Copy, PartialEq, Eq, Structural)]
pub struct Players {
    pub humans: u32,
    pub bots: u32,
    pub max: u32,
}

impl Players {
    /// Humans and bots together.
    pub fn total(&self) -> (r: u32)
        requires
            self.humans + self.bots <= u32::MAX,
        ensures
            r == self.humans + self.bots,
    {
        self.humans + self.bots
    }
}

#[derive(Debug, Clone)]
pub struct Player {
    pub id: String,
    pub name: String,
    pub steam_id: String,
}

/// A player row as plain values: id, name, steam id.
pub type PlayerModel = (Seq<char>, Seq<char>, Seq<char>);

impl Player {
    pub open spec fn model(&self) -> PlayerModel {
        (self.id@, self.name@, self.steam_id@)
    }
}

/// What a status block reports about the server.
#[derive(Debug, Clone)]
pub struct StatusData {
    pub hostname: String,
    pub host_type: HostType,
    pub version: String,
    pub address: Option<String>,
    pub os: String,
    pub server_type: String,
    pub map: String,
    pub players: Players,
    pub player_list: Vec<Player>,
}

/// A `StatusData` as plain values; `official` is the region of an official server.
pub struct StatusModel {
    pub hostname: Seq<char>,
    pub official: Option<Seq<char>>,
    pub version: Seq<char>,
    pub address: Option<Seq<char>>,
    pub os: Seq<char>,
    pub server_type: Seq<char>,
    pub map: Seq<char>,
    pub players: Players,
    pub player_list: Seq<PlayerModel>,
}

pub open spec fn opt_view(o: Option<String>) -> Option<Seq<char>> {
    match o {
        Some(s) => Some(s@),
        None => None,
    }
}

pub open spec fn players_view(v: Seq<Player>) -> Seq<PlayerModel> {
    v.map_values(|p: Player| p.model())
}

impl StatusData {
    pub open spec fn model(&self) -> StatusModel {
        StatusModel {
            hostname: self.hostname@,
            official: match self.host_type {
                HostType::Official(r) => Some(r@),
                HostType::Unofficial => None,
            },
            version: self.version@,
            address: opt_view(self.address),
            os: self.os@,
            server_type: self.server_type@,
            map: self.map@,
            players: self.players,
            player_list: players_view(self.player_list@),
        }
    }
}

/// A field that a status block must report.
#[derive(Debug, Clone, Copy, PartialEq, Eq, Structural)]
pub enum StatusField {
    Version,
    Os,
    ServerType,
    MapName,
    Players,
}

/// Why a status block gave no snapshot.
#[derive(Debug, Clone, Copy, PartialEq, Eq, Structural)]
pub enum StatusError {
    /// The block ended without reporting this field.
    MissingField(StatusField),
    /// The `players` line did not have the shape `<h> humans, <b> bots (<max>/...`.
    MalformedPlayers,
}

/// What a status block has reported so far.
pub struct StatusProgress {
    pub hostname: Seq<char>,
    pub official: Option<Seq<char>>,
    pub version: Option<Seq<char>>,
    pub address: Option<Seq<char>>,
    pub os: Option<Seq<char>>,
    pub server_type: Option<Seq<char>>,
    pub map: Option<Seq<char>>,
    pub players: Option<Players>,
    pub player_list: Seq<PlayerModel>,
}

/// Nothing reported yet for the server named `hostname`.
pub open spec fn progress_start(hostname: Seq<char>) -> StatusProgress {
    StatusProgress {
        hostname,
        official: None,
        version: None,
        address: None,
        os: None,
        server_type: None,
        map: None,
        players: None,
        player_list: Seq::empty(),
    }
}

/// The region in a hostname of the form `Valve CS:GO <region> Server...`.
pub open spec fn official_region(hostname: Seq<char>) -> Option<Seq<char>> {
    match strip_prefix(hostname, "Valve CS:GO "@) {
        Some(rest) => match split_once(rest, " Server"@) {
            Some((region, _)) => Some(region),
            None => None,
        },
        None => None,
    }
}

/// The map name: the text before the first space, or all of it trimmed.
pub open spec fn map_name(v: Seq<char>) -> Seq<char> {
    match split_once(v, " "@) {
        Some((name, _)) => name,
        None => trim(v),
    }
}

/// The player counts of `<humans> humans, <bots> bots (<max>/...`.
pub open spec fn players_of(v: Seq<char>) -> Option<Players> {
    match split_once(v, "humans, "@) {
        None => None,
        Some((h, v)) => match split_once(v, " bots ("@) {
            None => None,
            Some((b, v)) => match split_once(v, "/"@) {
                None => None,
                Some((m, _)) => match (
                    parse_bounded(trim(h), u32::MAX as nat),
                    parse_bounded(trim(b), u32::MAX as nat),
                    parse_bounded(trim(m), u32::MAX as nat),
                ) {
                    (Some(h), Some(b), Some(m)) => Some(
                        Players { humans: h as u32, bots: b as u32, max: m as u32 },
                    ),
                    _ => None,
                },
            },
        },
    }
}

/// A player row after its `#`: `<id>"<name>" <steam_id> ...`.
pub open spec fn player_row(v: Seq<char>) -> Option<PlayerModel> {
    match split_once(v, "\""@) {
        None => None,
        Some((id, v)) => match split_once(v, "\" "@) {
            None => None,
            Some((name, v)) => match split_once(v, " "@) {
                None => None,
                Some((steam_id, _)) => Some((trim(id), trim(name), trim(steam_id))),
            },
        },
    }
}

/// The trimmed line that ends a status block.
pub open spec fn is_block_end(l: Seq<char>) -> bool {
    l == "#end"@
}

/// What one trimmed line of a block does to what was reported.
pub enum StepModel {
    Continue(StatusProgress),
    Finished(Result<StatusModel, StatusError>),
}

/// One trimmed line of a block: `#end` finishes it, a `players` line whose counts
/// cannot be read ends it with an error, and any other line may add a field.
pub open spec fn progress_step(p: StatusProgress, l: Seq<char>) -> StepModel {
    if is_block_end(l) {
        StepModel::Finished(progress_finish(p))
    } else {
        match strip_prefix(l, "version : "@) {
            Some(v) => StepModel::Continue(StatusProgress { version: Some(trim(v)), ..p }),
            None => match strip_prefix(l, "udp/ip  : "@) {
                Some(v) => StepModel::Continue(StatusProgress { address: Some(trim(v)), ..p }),
                None => match strip_prefix(l, "os      : "@) {
                    Some(v) => StepModel::Continue(StatusProgress { os: Some(trim(v)), ..p }),
                    None => match strip_prefix(l, "type    : "@) {
                        Some(v) => StepModel::Continue(
                            StatusProgress {
                                server_type: Some(trim(v)),
                                official: if contains(v, "official"@) && official_region(
                                    p.hostname,
                                ) is Some {
                                    official_region(p.hostname)
                                } else {
                                    p.official
                                },
                                ..p
                            },
                        ),
                        None => match strip_prefix(l, "map     : "@) {
                            Some(v) => StepModel::Continue(
                                StatusProgress { map: Some(map_name(v)), ..p },
                            ),
                            None => match strip_prefix(l, "players : "@) {
                                Some(v) => match players_of(v) {
                                    Some(pl) => StepModel::Continue(
                                        StatusProgress { players: Some(pl), ..p },
                                    ),
                                    None => StepModel::Finished(
                                        Err(StatusError::MalformedPlayers),
                                    ),
                                },
                                None => match strip_prefix(l, "#"@) {
                                    Some(v) => match player_row(v) {
                                        Some(row) => StepModel::Continue(
                                            StatusProgress {
                                                player_list: p.player_list.push(row),
                                                ..p
                                            },
                                        ),
                                        None => StepModel::Continue(p),
                                    },
                                    None => StepModel::Continue(p),
                                },
                            },
                        },
                    },
                },
            },
        }
    }
}

/// The snapshot a block ending now yields, or the first required field it lacks.
pub open spec fn progress_finish(p: StatusProgress) -> Result<StatusModel, StatusError> {
    if p.version is None {
        Err(StatusError::MissingField(StatusField::Version))
    } else if p.os is None {
        Err(StatusError::MissingField(StatusField::Os))
    } else if p.server_type is None {
        Err(StatusError::MissingField(StatusField::ServerType))
    } else if p.map is None {
        Err(StatusError::MissingField(StatusField::MapName))
    } else if p.players is None {
        Err(StatusError::MissingField(StatusField::Players))
    } else {
        Ok(
            StatusModel {
                hostname: p.hostname,
                official: p.official,
                version: p.version->0,
                address: p.address,
                os: p.os->0,
                server_type: p.server_type->0,
                map: p.map->0,
                players: p.players->0,
                player_list: p.player_list,
            },
        )
    }
}

pub open spec fn outcome_model(r: Result<StatusData, StatusError>) -> Result<
    StatusModel,
    StatusError,
> {
    match r {
        Ok(d) => Ok(d.model()),
        Err(e) => Err(e),
    }
}

/// What the lines of a block yield, read from `p` on: `None` while the block
/// has not ended.
pub open spec fn block_outcome(p: StatusProgress, lines: Seq<Seq<char>>) -> Option<
    Result<StatusModel, StatusError>,
>
    decreases lines.len(),
{
    if lines.len() == 0 {
        None
    } else {
        match progress_step(p, trim(lines[0])) {
            StepModel::Finished(r) => Some(r),
            StepModel::Continue(q) => block_outcome(q, lines.subrange(1, lines.len() as int)),
        }
    }
}


fn official_region_exec(hostname: &[char]) -> (r: Option<String>)
    ensures
        opt_view(r) == official_region(hostname@),
{
    match strip_prefix_exec(hostname, chars_of("Valve CS:GO ").as_slice()) {
        Some(rest) => match split_once_exec(rest.as_slice(), chars_of(" Server").as_slice()) {
            Some((region, _)) => Some(string_from_chars(region)),
            None => None,
        },
        None => None,
    }
}

fn map_name_exec(v: &[char]) -> (r: String)
    ensures
        r@ == map_name(v@),
{
    match split_once_exec(v, chars_of(" ").as_slice()) {
        Some((name, _)) => string_from_chars(name),
        None => string_from_chars(trim_chars(v)),
    }
}

fn count_exec(v: &[char]) -> (r: Option<u32>)
    ensures
        match r {
            Some(n) => parse_bounded(trim(v@), u32::MAX as nat) == Some(n as nat),
            None => parse_bounded(trim(v@), u32::MAX as nat) is None,
        },
{
    match parse_bounded_exec(trim_chars(v).as_slice(), u32::MAX as u64) {
        Some(n) => Some(n as u32),
        None => None,
    }
}

fn players_of_exec(v: &[char]) -> (r: Option<Players>)
    ensures
        r == players_of(v@),
{
    let (h, v) = match split_once_exec(v, chars_of("humans, ").as_slice()) {
        Some(p) => p,
        None => return None,
    };
    let (b, v) = match split_once_exec(v.as_slice(), chars_of(" bots (").as_slice()) {
        Some(p) => p,
        None => return None,
    };
    let (m, _) = match split_once_exec(v.as_slice(), chars_of("/").as_slice()) {
        Some(p) => p,
        None => return None,
    };
    match (count_exec(h.as_slice()), count_exec(b.as_slice()), count_exec(m.as_slice())) {
        (Some(humans), Some(bots), Some(max)) => Some(Players { humans, bots, max }),
        _ => None,
    }
}

fn player_row_exec(v: &[char]) -> (r: Option<Player>)
    ensures
        match r {
            Some(p) => player_row(v@) == Some(p.model()),
            None => player_row(v@) is None,
        },
{
    let (id, v) = match split_once_exec(v, chars_of("\"").as_slice()) {
        Some(p) => p,
        None => return None,
    };
    let (name, v) = match split_once_exec(v.as_slice(), chars_of("\" ").as_slice()) {
        Some(p) => p,
        None => return None,
    };
    let (steam_id, _) = match split_once_exec(v.as_slice(), chars_of(" ").as_slice()) {
        Some(p) => p,
        None => return None,
    };
    Some(
        Player {
            id: string_from_chars(trim_chars(id.as_slice())),
            name: string_from_chars(trim_chars(name.as_slice())),
            steam_id: string_from_chars(trim_chars(steam_id.as_slice())),
        },
    )
}

/// One step of a status block.
#[derive(Debug)]
pub enum StatusStep {
    /// The block goes on: hand the parser the next line.
    Pending,
    /// The block has ended, with a snapshot or the reason there is none.
    Done(Result<StatusData, StatusError>),
}

/// Reads a status block line by line, after its `hostname: ` line.
pub struct StatusParser {
    hostname: String,
    hostname_chars: Vec<char>,
    official: Option<String>,
    version: Option<String>,
    address: Option<String>,
    os: Option<String>,
    server_type: Option<String>,
    map: Option<String>,
    players: Option<Players>,
    player_list: Vec<Player>,
}

impl View for StatusParser {
    type V = StatusProgress;

    closed spec fn view(&self) -> StatusProgress {
        StatusProgress {
            hostname: self.hostname@,
            official: opt_view(self.official),
            version: opt_view(self.version),
            address: opt_view(self.address),
            os: opt_view(self.os),
            server_type: opt_view(self.server_type),
            map: opt_view(self.map),
            players: self.players,
            player_list: players_view(self.player_list@),
        }
    }
}

impl StatusParser {
    pub closed spec fn wf(&self) -> bool {
        self.hostname_chars@ == self.hostname@
    }

    /// A parser for the block of the server named `hostname`.
    pub fn new(hostname: String) -> (r: StatusParser)
        ensures
            r.wf(),
            r@ == progress_start(hostname@),
    {
        let hostname_chars = chars_of(hostname.as_str());
        let r = StatusParser {
            hostname,
            hostname_chars,
            official: None,
            version: None,
            address: None,
            os: None,
            server_type: None,
            map: None,
            players: None,
            player_list: Vec::new(),
        };
        assert(players_view(r.player_list@) =~= Seq::empty());
        r
    }

    fn finish(&mut self) -> (r: Result<StatusData, StatusError>)
        requires
            old(self).wf(),
        ensures
            final(self).wf(),
            outcome_model(r) == progress_finish(old(self)@),
    {
        let version = match &self.version {
            Some(v) => v.clone(),
            None => return Err(StatusError::MissingField(StatusField::Version)),
        };
        let os = match &self.os {
            Some(v) => v.clone(),
            None => return Err(StatusError::MissingField(StatusField::Os)),
        };
        let server_type = match &self.server_type {
            Some(v) => v.clone(),
            None => return Err(StatusError::MissingField(StatusField::ServerType)),
        };
        let map = match &self.map {
            Some(v) => v.clone(),
            None => return Err(StatusError::MissingField(StatusField::MapName)),
        };
        let players = match self.players {
            Some(v) => v,
            None => return Err(StatusError::MissingField(StatusField::Players)),
        };
        let host_type = match &self.official {
            Some(region) => HostType::Official(region.clone()),
            None => HostType::Unofficial,
        };
        let address = match &self.address {
            Some(a) => Some(a.clone()),
            None => None,
        };
        let mut player_list: Vec<Player> = Vec::new();
        std::mem::swap(&mut player_list, &mut self.player_list);
        Ok(
            StatusData {
                hostname: self.hostname.clone(),
                host_type,
                version,
                address,
                os,
                server_type,
                map,
                players,
                player_list,
            },
        )
    }

    /// Takes the next line of the block.
    pub fn feed(&mut self, line: &str) -> (r: StatusStep)
        requires
            old(self).wf(),
        ensures
            final(self).wf(),
            match progress_step(old(self)@, trim(line@)) {
                StepModel::Continue(q) => r is Pending && final(self)@ == q,
                StepModel::Finished(res) => r matches StatusStep::Done(x) && outcome_model(x)
                    == res,
            },
    {
        let l = trim_chars(chars_of(line).as_slice());
        let l = l.as_slice();
        if eq_exec(l, chars_of("#end").as_slice()) {
            return StatusStep::Done(self.finish());
        }
        if let Some(v) = strip_prefix_exec(l, chars_of("version : ").as_slice()) {
            self.version = Some(string_from_chars(trim_chars(v.as_slice())));
            return StatusStep::Pending;
        }
        if let Some(v) = strip_prefix_exec(l, chars_of("udp/ip  : ").as_slice()) {
            self.address = Some(string_from_chars(trim_chars(v.as_slice())));
            return StatusStep::Pending;
        }
        if let Some(v) = strip_prefix_exec(l, chars_of("os      : ").as_slice()) {
            self.os = Some(string_from_chars(trim_chars(v.as_slice())));
            return StatusStep::Pending;
        }
        if let Some(v) = strip_prefix_exec(l, chars_of("type    : ").as_slice()) {
            self.server_type = Some(string_from_chars(trim_chars(v.as_slice())));
            if find_exec(v.as_slice(), chars_of("official").as_slice()).is_some() {
                if let Some(region) = official_region_exec(self.hostname_chars.as_slice()) {
                    self.official = Some(region);
                }
            }
            return StatusStep::Pending;
        }
        if let Some(v) = strip_prefix_exec(l, chars_of("map     : ").as_slice()) {
            self.map = Some(map_name_exec(v.as_slice()));
            return StatusStep::Pending;
        }
        if let Some(v) = strip_prefix_exec(l, chars_of("players : ").as_slice()) {
            match players_of_exec(v.as_slice()) {
                Some(p) => {
                    self.players = Some(p);
                    return StatusStep::Pending;
                },
                None => return StatusStep::Done(Err(StatusError::MalformedPlayers)),
            }
        }
        if let Some(v) = strip_prefix_exec(l, chars_of("#").as_slice()) {
            if let Some(row) = player_row_exec(v.as_slice()) {
                self.player_list.push(row);
                assert(players_view(self.player_list@) =~= players_view(
                    old(self).player_list@,
                ).push(row.model()));
            }
        }
        StatusStep::Pending
    }
}

pub open spec fn lines_view(lines: Seq<String>) -> Seq<Seq<char>> {
    lines.map_values(|l: String| l@)
}

impl StatusData {
    /// Reads the status block of the server named `hostname` from `lines`, the
    /// lines that follow its `hostname: ` line. `None`: the lines end before the
    /// block does.
    pub fn parse(hostname: String, lines: &[String]) -> (r: Option<Result<StatusData, StatusError>>)
        ensures
            match r {
                Some(x) => block_outcome(progress_start(hostname@), lines_view(lines@)) == Some(
                    outcome_model(x),
                ),
                None => block_outcome(progress_start(hostname@), lines_view(lines@)) is None,
            },
    {
        let ghost all = lines_view(lines@);
        let mut parser = StatusParser::new(hostname);
        let n = lines.len();
        let mut i: usize = 0;
        assert(all.subrange(0, n as int) =~= all);
        while i < n
            invariant
                n == lines@.len(),
                i <= n,
                all == lines_view(lines@),
                parser.wf(),
                block_outcome(progress_start(hostname@), all) == block_outcome(
                    parser@,
                    all.subrange(i as int, n as int),
                ),
            decreases n - i,
        {
            let ghost before = parser@;
            let step = parser.feed(lines[i].as_str());
            assert(all.subrange(i as int, n as int).subrange(1, (n - i) as int) =~= all.subrange(
                i + 1,
                n as int,
            ));
            assert(all.subrange(i as int, n as int)[0] == lines@[i as int]@);
            match step {
                StatusStep::Done(x) => {
                    return Some(x);
                },
                StatusStep::Pending => {},
            }
            i = i + 1;
        }
        None
    }
}

/// A status block yields a snapshot only once a line that trims to `#end` has
/// come: however many lines come without one, no snapshot is published.
pub proof fn lemma_no_snapshot_without_end(p: StatusProgress, lines: Seq<Seq<char>>)
    requires
        forall|i: int| 0 <= i < lines.len() ==> !is_block_end(#[trigger] trim(lines[i])),
    ensures
        !(block_outcome(p, lines) matches Some(Ok(_))),
    decreases lines.len(),
{
    if lines.len() > 0 {
        assert(!is_block_end(trim(lines[0])));
        match progress_step(p, trim(lines[0])) {
            StepModel::Finished(_) => {},
            StepModel::Continue(q) => {
                let rest = lines.subrange(1, lines.len() as int);
                assert forall|i: int| 0 <= i < rest.len() implies !is_block_end(
                    #[trigger] trim(rest[i]),
                ) by {
                    assert(rest[i] == lines[i + 1]);
                }
                lemma_no_snapshot_without_end(q, rest);
            },
        }
    }
}

} // verus!
