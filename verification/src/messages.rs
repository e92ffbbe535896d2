//! The plain message payloads exchanged between the session, its
//! connections and the registry. The transport wrapping lives outside the
//! library.
use vstd::prelude::*;
use crate::id::SessionId;
use crate::packet::Packet;

verus! {

pub struct TemplateDontUse();

pub struct TestMessage(pub String);

pub struct VerifyExistence(pub SessionId);

pub struct GetHostId();

pub struct GetSessionId();

pub struct BroadcastMessage(pub String);

pub struct SendToClient(pub String);

pub struct SendPacket(pub Packet);

pub struct CloseSessionConnection;

pub struct CloseSession(pub SessionId);

pub struct PlayerUpdate(pub Vec<String>);

} // verus!
