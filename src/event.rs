//! The events the console stream and the heartbeat produce.
use vstd::prelude::*;

use crate::damage::{Damage, DamageModel};
use crate::status::{Status, StatusModel};
use crate::ui_state::UIState;

verus! {

#[derive(Debug, PartialEq)]
pub enum Event {
    Command(String),
    ChangeUIState(UIState, UIState),
    Damage(Damage),
    MapChange(String),
    PlayerConnected(String),
    EnterBuyPeriod,
    Status(Status),
    ConVar(String, String),
    Tick(u8),
}

/// The variant of an `Event`, without its data.
#[derive(Debug, Clone, Copy, PartialEq, Eq, Structural)]
pub enum EventDiscriminants {
    Command,
    ChangeUIState,
    Damage,
    MapChange,
    PlayerConnected,
    EnterBuyPeriod,
    Status,
    ConVar,
    Tick,
}

/// An `Event` as plain values; a status is `None` when not connected.
pub enum EventModel {
    Command(Seq<char>),
    ChangeUIState(UIState, UIState),
    Damage(DamageModel),
    MapChange(Seq<char>),
    PlayerConnected(Seq<char>),
    EnterBuyPeriod,
    Status(Option<StatusModel>),
    ConVar(Seq<char>, Seq<char>),
    Tick(u8),
}

impl Event {
    pub open spec fn model(&self) -> EventModel {
        match self {
            Event::Command(c) => EventModel::Command(c@),
            Event::ChangeUIState(a, b) => EventModel::ChangeUIState(*a, *b),
            Event::Damage(d) => EventModel::Damage(d.model()),
            Event::MapChange(m) => EventModel::MapChange(m@),
            Event::PlayerConnected(p) => EventModel::PlayerConnected(p@),
            Event::EnterBuyPeriod => EventModel::EnterBuyPeriod,
            Event::Status(Status::NotConnected) => EventModel::Status(None),
            Event::Status(Status::Connected(d)) => EventModel::Status(Some(d.model())),
            Event::ConVar(n, v) => EventModel::ConVar(n@, v@),
            Event::Tick(t) => EventModel::Tick(*t),
        }
    }

    pub open spec fn kind(&self) -> EventDiscriminants {
        match self {
            Event::Command(_) => EventDiscriminants::Command,
            Event::ChangeUIState(_, _) => EventDiscriminants::ChangeUIState,
            Event::Damage(_) => EventDiscriminants::Damage,
            Event::MapChange(_) => EventDiscriminants::MapChange,
            Event::PlayerConnected(_) => EventDiscriminants::PlayerConnected,
            Event::EnterBuyPeriod => EventDiscriminants::EnterBuyPeriod,
            Event::Status(_) => EventDiscriminants::Status,
            Event::ConVar(_, _) => EventDiscriminants::ConVar,
            Event::Tick(_) => EventDiscriminants::Tick,
        }
    }

    pub fn discriminant(&self) -> (r: EventDiscriminants)
        ensures
            r == self.kind(),
    {
        match self {
            Event::Command(_) => EventDiscriminants::Command,
            Event::ChangeUIState(_, _) => EventDiscriminants::ChangeUIState,
            Event::Damage(_) => EventDiscriminants::Damage,
            Event::MapChange(_) => EventDiscriminants::MapChange,
            Event::PlayerConnected(_) => EventDiscriminants::PlayerConnected,
            Event::EnterBuyPeriod => EventDiscriminants::EnterBuyPeriod,
            Event::Status(_) => EventDiscriminants::Status,
            Event::ConVar(_, _) => EventDiscriminants::ConVar,
            Event::Tick(_) => EventDiscriminants::Tick,
        }
    }

    pub fn is_variant(&self, discriminant: EventDiscriminants) -> (r: bool)
        ensures
            r == (self.kind() == discriminant),
    {
        self.discriminant() == discriminant
    }
}

} // verus!
