//! The client-facing packet vocabulary: requests into a session, responses
//! and pushes out of it. Parsing the wire encoding happens outside the
//! library; these are the parsed shapes.
use vstd::prelude::*;
use crate::deck::Deck;
use crate::game::{CardResult, GameBundle};
use crate::id::UserId;

verus! {

pub struct Table {
    pub name: String,
    pub values: Vec<Value>,
}

pub struct Value {
    pub value: String,
    pub tags: Vec<String>,
}

pub struct State {
    pub value: i32,
}

/// The typed protocol errors a session answers bad requests with.
#[derive(Clone, Copy, PartialEq, Eq, Structural, Debug)]
pub enum PacketError {
    CipaChuj,
    GameManagerError,
}

/// A packet addressed to a session, or pushed from it.
pub enum Packet {
    // API -> CLIENT
    UpdateState { new_state: GameBundle },
    PlayersUpdate {},
    CardResult { card: CardResult, bundle: GameBundle },
    // API <-> CLIENT
    AdminToken { token: u128 },
    TestError {},
    TestPacketWithString { string: String },
    // API <- CLIENT
    SetDeck { deck: Deck },
    PlayerLeft { id: UserId },
    PlayerDoneChoise { chosen: u128 },
    PlayerDone {},
    CloseSession {},
    FinishGame {},
    GetPlayers {},
}

/// A session's answer to one packet.
pub enum PacketResponse {
    // API -> CLIENT
    UpdateStateOk { bundle: GameBundle },
    CardResultOk { card: CardResult, bundle: GameBundle },
    FinishGameOk,
    // API <-> CLIENT
    AdminTokenOk,
    TestPacketWithStringOk { string: String },
    // API <- CLIENT
    SetDeckOk { bundle: GameBundle },
    PlayerLeftOk { bundle: GameBundle },
    PlayerDoneChoiseOk { bundle: GameBundle },
    CloseSessionOk,
    PlayerDoneOk { bundle: GameBundle },
    GetPlayersOk { players: Vec<String>, bundle: GameBundle },
    PlayersUpdateOk { players: Vec<String>, bundle: GameBundle },
}

impl PacketResponse {
    /// The snapshot a response carries, where it carries one.
    pub open spec fn spec_get_bundle(self) -> Option<GameBundle> {
        match self {
            PacketResponse::SetDeckOk { bundle } => Some(bundle),
            PacketResponse::PlayerLeftOk { bundle } => Some(bundle),
            PacketResponse::PlayerDoneChoiseOk { bundle } => Some(bundle),
            PacketResponse::PlayerDoneOk { bundle } => Some(bundle),
            PacketResponse::GetPlayersOk { bundle, .. } => Some(bundle),
            PacketResponse::PlayersUpdateOk { bundle, .. } => Some(bundle),
            PacketResponse::UpdateStateOk { bundle } => Some(bundle),
            PacketResponse::CardResultOk { bundle, .. } => Some(bundle),
            _ => None,
        }
    }

    pub fn get_bundle(&self) -> (r: Option<&GameBundle>)
        ensures
            r is Some <==> self.spec_get_bundle() is Some,
            r matches Some(b) ==> Some(*b) == self.spec_get_bundle(),
    {
        match self {
            PacketResponse::SetDeckOk { bundle } => Some(bundle),
            PacketResponse::PlayerLeftOk { bundle } => Some(bundle),
            PacketResponse::PlayerDoneChoiseOk { bundle } => Some(bundle),
            PacketResponse::PlayerDoneOk { bundle } => Some(bundle),
            PacketResponse::GetPlayersOk { bundle, .. } => Some(bundle),
            PacketResponse::PlayersUpdateOk { bundle, .. } => Some(bundle),
            PacketResponse::UpdateStateOk { bundle } => Some(bundle),
            PacketResponse::CardResultOk { bundle, .. } => Some(bundle),
            _ => None,
        }
    }
}

} // verus!
