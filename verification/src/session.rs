//! The per-match session coordinator: the lifecycle state machine, the
//! roster and connection set, the lazily created card engine, and the packet
//! handling that serializes every mutation of a running match.
use vstd::prelude::*;
use vstd::string::StringExecFns;
use crate::deck::{Deck, RenderedScoreBoard};
use crate::game::{bundle_ok, draw_rel, resolve_rel, CardOption, CardResult, GameBundle,
    GameManager};
use crate::id::{ConnectionId, SessionId, UserId};
use crate::packet::{Packet, PacketError, PacketResponse};
use crate::player::{keeps_player, Player, Players};
use crate::rng::{fresh_id, rand_below};
use crate::state::reconciled_entry;
use crate::text::digit_char;

verus! {

/// Whether a character can appear in a join code.
pub open spec fn is_code_char(c: char) -> bool {
    ('a' <= c && c <= 'z') || ('0' <= c && c <= '9')
}

fn code_char_str(i: usize) -> (r: &'static str)
    requires
        i < 36,
    ensures
        r@.len() == 1,
        is_code_char(r@[0]),
{
    if i == 0 {
        proof {
            reveal_strlit("a");
        }
        "a"
    } else if i == 1 {
        proof {
            reveal_strlit("b");
        }
        "b"
    } else if i == 2 {
        proof {
            reveal_strlit("c");
        }
        "c"
    } else if i == 3 {
        proof {
            reveal_strlit("d");
        }
        "d"
    } else if i == 4 {
        proof {
            reveal_strlit("e");
        }
        "e"
    } else if i == 5 {
        proof {
            reveal_strlit("f");
        }
        "f"
    } else if i == 6 {
        proof {
            reveal_strlit("g");
        }
        "g"
    } else if i == 7 {
        proof {
            reveal_strlit("h");
        }
        "h"
    } else if i == 8 {
        proof {
            reveal_strlit("i");
        }
        "i"
    } else if i == 9 {
        proof {
            reveal_strlit("j");
        }
        "j"
    } else if i == 10 {
        proof {
            reveal_strlit("k");
        }
        "k"
    } else if i == 11 {
        proof {
            reveal_strlit("l");
        }
        "l"
    } else if i == 12 {
        proof {
            reveal_strlit("m");
        }
        "m"
    } else if i == 13 {
        proof {
            reveal_strlit("n");
        }
        "n"
    } else if i == 14 {
        proof {
            reveal_strlit("o");
        }
        "o"
    } else if i == 15 {
        proof {
            reveal_strlit("p");
        }
        "p"
    } else if i == 16 {
        proof {
            reveal_strlit("q");
        }
        "q"
    } else if i == 17 {
        proof {
            reveal_strlit("r");
        }
        "r"
    } else if i == 18 {
        proof {
            reveal_strlit("s");
        }
        "s"
    } else if i == 19 {
        proof {
            reveal_strlit("t");
        }
        "t"
    } else if i == 20 {
        proof {
            reveal_strlit("u");
        }
        "u"
    } else if i == 21 {
        proof {
            reveal_strlit("v");
        }
        "v"
    } else if i == 22 {
        proof {
            reveal_strlit("w");
        }
        "w"
    } else if i == 23 {
        proof {
            reveal_strlit("x");
        }
        "x"
    } else if i == 24 {
        proof {
            reveal_strlit("y");
        }
        "y"
    } else if i == 25 {
        proof {
            reveal_strlit("z");
        }
        "z"
    } else {
        let d = crate::text::digit_str((i - 26) as u32);
        proof {
            assert(d@[0] == digit_char((i - 26) as int));
        }
        d
    }
}

/// A random lowercase-alphanumeric string of the given length.
pub fn generate_random_string(length: usize) -> (r: String)
    ensures
        r@.len() == length,
        forall|i: int| 0 <= i < length ==> is_code_char(#[trigger] r@[i]),
{
    let mut s = String::new();
    let mut i: usize = 0;
    while i < length
        invariant
            0 <= i <= length,
            s@.len() == i,
            forall|j: int| 0 <= j < i ==> is_code_char(#[trigger] s@[j]),
        decreases length - i,
    {
        s.append(code_char_str(rand_below(36)));
        i = i + 1;
    }
    s
}

/// The lifecycle states a session moves through.
#[derive(Clone, Copy, PartialEq, Eq, Structural, Debug)]
pub enum SessionState {
    Lobby,
    PreGame,
    Game,
    PostGame,
}

/// A human-shareable join code.
pub struct SessionCode {
    pub code: String,
}

impl SessionCode {
    /// A fresh six-character random code.
    pub fn gen() -> (r: Self)
        ensures
            r.code@.len() == 6,
            forall|i: int| 0 <= i < 6 ==> is_code_char(#[trigger] r.code@[i]),
    {
        SessionCode { code: generate_random_string(6) }
    }

    /// Replaces the code with a fresh six-character random one.
    pub fn regen(&mut self)
        ensures
            final(self).code@.len() == 6,
            forall|i: int| 0 <= i < 6 ==> is_code_char(#[trigger] final(self).code@[i]),
    {
        self.code = generate_random_string(6);
    }

    pub fn from(str: String) -> (r: Self)
        ensures
            r.code == str,
    {
        SessionCode { code: str }
    }
}

impl Clone for SessionCode {
    fn clone(&self) -> (r: Self)
        ensures
            r == *self,
    {
        SessionCode { code: self.code.clone() }
    }
}

/// The set of live client connections, by connection id; the transport maps
/// ids to channels outside the library.
pub struct Connections {
    pub connections: Vec<ConnectionId>,
}

impl Connections {
    pub fn new() -> (r: Self)
        ensures
            r.connections@ == Seq::<ConnectionId>::empty(),
    {
        Connections { connections: Vec::new() }
    }

    pub fn add_connection(&mut self, connection: ConnectionId)
        ensures
            final(self).connections@ == old(self).connections@.push(connection),
    {
        self.connections.push(connection);
    }
}

/// What a session does besides answering: push a packet to every live
/// connection, close those connections, deregister itself. The transport
/// performs these.
pub struct SessionEffects {
    pub broadcast: Option<Packet>,
    pub close_connections: bool,
    pub deregister: bool,
}

/// No broadcast, nothing closed, nothing deregistered.
pub open spec fn no_effects() -> SessionEffects {
    SessionEffects { broadcast: None, close_connections: false, deregister: false }
}

fn no_fx() -> (r: SessionEffects)
    ensures
        r == no_effects(),
{
    SessionEffects { broadcast: None, close_connections: false, deregister: false }
}

/// One running match: roster, connections, lifecycle state, join code, and
/// the card engine once a deck has been set. `closed` records that the
/// session has signaled closure and takes no further packets.
pub struct Session {
    pub id: SessionId,
    pub connections: Connections,
    pub host_id: UserId,
    pub players: Players,
    pub admin_token: u128,
    pub game_manager: Option<GameManager>,
    pub session_state: SessionState,
    pub code: SessionCode,
    pub closed: bool,
}

/// A correct but empty snapshot, for a session with no engine yet.
pub open spec fn empty_bundle_ok(players: Players, b: GameBundle) -> bool {
    &&& b.score_board.ident@ == Seq::<char>::empty()
    &&& b.score_board.data@.len() == 0
    &&& b.states@.len() == 0
    &&& b.current_idx == players.idx
}

/// The snapshot a session serves: the engine's, or the empty one.
pub open spec fn snap_ok(gm: Option<GameManager>, players: Players, b: GameBundle) -> bool {
    match gm {
        Some(g) => bundle_ok(g.game_state, players, b),
        None => empty_bundle_ok(players, b),
    }
}

/// The fields no packet ever touches.
pub open spec fn same_frame(pre: Session, post: Session) -> bool {
    &&& post.id == pre.id
    &&& post.connections == pre.connections
    &&& post.admin_token == pre.admin_token
    &&& post.code == pre.code
}

/// How the engine option relates across a roster reconciliation.
pub open spec fn engine_reconciled(
    pre: Option<GameManager>,
    ids: Seq<UserId>,
    post: Option<GameManager>,
) -> bool {
    match pre {
        None => post is None,
        Some(g0) => post matches Some(g1) && {
            &&& g1.game_state.states@.len() == g0.game_state.states@.len()
            &&& forall|j: int|
                0 <= j < g0.game_state.states@.len() ==> reconciled_entry(
                    g0.game_state.states@[j],
                    ids,
                    #[trigger] g1.game_state.states@[j],
                )
            &&& g1.game_state.tables == g0.game_state.tables
            &&& g1.game_state.cards == g0.game_state.cards
            &&& g1.game_state.score_state == g0.game_state.score_state
            &&& g1.game_state.card_count == g0.game_state.card_count
            &&& g1.awaited_states == g0.awaited_states
        },
    }
}

/// How the engine option relates across a deck swap: the compiled bundle
/// moves in, the draw counter and the outstanding batch survive where an
/// engine already ran.
pub open spec fn engine_set(pre: Option<GameManager>, deck: Deck, post: Option<GameManager>) -> bool {
    post matches Some(gm) && {
        &&& gm.game_state.tables == deck.tables
        &&& gm.game_state.cards == deck.cards
        &&& gm.game_state.score_state == deck.meta.scoreboard
        &&& gm.game_state.states@.len() == deck.states@.len()
        &&& forall|i: int|
            0 <= i < deck.states@.len() ==> crate::deck::compiled_state_ok(
                deck.states@[i],
                #[trigger] gm.game_state.states@[i],
            )
        &&& gm.game_state.card_count == (match pre {
            Some(g0) => g0.game_state.card_count,
            None => 0u64,
        })
        &&& gm.awaited_states@ == (match pre {
            Some(g0) => g0.awaited_states@,
            None => Seq::<CardOption>::empty(),
        })
    }
}

/// The whole packet contract: what each packet does to the session, what it
/// answers, and what it asks the transport to do. A closed session answers
/// every packet with a protocol error and changes nothing.
pub open spec fn handle_rel(
    pre: Session,
    packet: Packet,
    post: Session,
    r: Result<PacketResponse, PacketError>,
    fx: SessionEffects,
) -> bool {
    if pre.closed {
        post == pre && r == Err::<PacketResponse, PacketError>(PacketError::CipaChuj) && fx
            == no_effects()
    } else {
        match packet {
            Packet::TestError {  } => post == pre && r == Err::<PacketResponse, PacketError>(
                PacketError::CipaChuj,
            ) && fx == no_effects(),
            Packet::TestPacketWithString { string } => post == pre && r == Ok::<
                PacketResponse,
                PacketError,
            >(PacketResponse::TestPacketWithStringOk { string }) && fx == no_effects(),
            Packet::SetDeck { deck } => {
                &&& same_frame(pre, post)
                &&& post.host_id == pre.host_id
                &&& post.players == pre.players
                &&& post.session_state == pre.session_state
                &&& post.closed == false
                &&& engine_set(pre.game_manager, deck, post.game_manager)
                &&& r matches Ok(resp) && resp matches PacketResponse::SetDeckOk { bundle }
                    && snap_ok(post.game_manager, post.players, bundle)
                &&& fx.broadcast matches Some(Packet::UpdateState { new_state }) && snap_ok(
                    post.game_manager,
                    post.players,
                    new_state,
                )
                &&& !fx.close_connections && !fx.deregister
            },
            Packet::PlayerLeft { id } => {
                let remaining = pre.players.players@.filter(keeps_player(id));
                &&& same_frame(pre, post)
                &&& post.players.players@ == remaining
                &&& post.players.idx == if remaining.len() == 0 {
                    0int
                } else if pre.players.idx < remaining.len() {
                    pre.players.idx as int
                } else {
                    0int
                }
                &&& engine_reconciled(
                    pre.game_manager,
                    crate::state::roster_ids(remaining),
                    post.game_manager,
                )
                &&& if remaining.len() == 0 {
                    &&& post.session_state == SessionState::Lobby
                    &&& post.closed == true
                    &&& post.host_id == pre.host_id
                    &&& r == Ok::<PacketResponse, PacketError>(PacketResponse::CloseSessionOk)
                    &&& fx.close_connections && fx.deregister && fx.broadcast is None
                } else {
                    &&& post.session_state == pre.session_state
                    &&& post.closed == false
                    &&& post.host_id == remaining[0].id
                    &&& r matches Ok(resp) && resp matches PacketResponse::PlayerLeftOk { bundle }
                        && snap_ok(post.game_manager, post.players, bundle)
                    &&& fx.broadcast matches Some(Packet::UpdateState { new_state }) && snap_ok(
                        post.game_manager,
                        post.players,
                        new_state,
                    )
                    &&& !fx.close_connections && !fx.deregister
                }
            },
            Packet::PlayerDoneChoise { chosen } => {
                &&& same_frame(pre, post)
                &&& post.host_id == pre.host_id
                &&& post.session_state == pre.session_state
                &&& post.closed == false
                &&& match pre.game_manager {
                    None => post == pre && r == Err::<PacketResponse, PacketError>(
                        PacketError::GameManagerError,
                    ) && fx == no_effects(),
                    Some(g0) => exists|g1: GameManager|
                        {
                            &&& #[trigger] resolve_rel(g0, chosen, pre.players, g1)
                            &&& post.game_manager matches Some(g2) && (r matches Ok(resp) && resp
                                matches PacketResponse::CardResultOk { card, bundle } && {
                                &&& draw_rel(g1, pre.players, g2, post.players, card)
                                &&& bundle_ok(g2.game_state, post.players, bundle)
                                &&& fx.broadcast matches Some(
                                    Packet::CardResult { card: bc, bundle: bb },
                                ) && bc.text == card.text && crate::game::opts_eq(
                                    bc.state_options@,
                                    card.state_options@,
                                ) && bundle_ok(g2.game_state, post.players, bb)
                            })
                            &&& !fx.close_connections && !fx.deregister
                        },
                }
            },
            Packet::PlayerDone {  } => {
                &&& same_frame(pre, post)
                &&& post.host_id == pre.host_id
                &&& post.session_state == pre.session_state
                &&& post.closed == false
                &&& match pre.game_manager {
                    None => post == pre && r == Err::<PacketResponse, PacketError>(
                        PacketError::GameManagerError,
                    ) && fx == no_effects(),
                    Some(g0) => {
                        &&& post.game_manager matches Some(g2) && (r matches Ok(resp) && resp
                            matches PacketResponse::CardResultOk { card, bundle } && {
                            &&& draw_rel(g0, pre.players, g2, post.players, card)
                            &&& bundle_ok(g2.game_state, post.players, bundle)
                            &&& fx.broadcast matches Some(
                                Packet::CardResult { card: bc, bundle: bb },
                            ) && bc.text == card.text && crate::game::opts_eq(
                                bc.state_options@,
                                card.state_options@,
                            ) && bundle_ok(g2.game_state, post.players, bb)
                        })
                        &&& !fx.close_connections && !fx.deregister
                    },
                }
            },
            Packet::CloseSession {  } => {
                &&& same_frame(pre, post)
                &&& post.host_id == pre.host_id
                &&& post.players == pre.players
                &&& post.game_manager == pre.game_manager
                &&& post.session_state == pre.session_state
                &&& post.closed == true
                &&& r == Ok::<PacketResponse, PacketError>(PacketResponse::CloseSessionOk)
                &&& fx.close_connections && fx.deregister && fx.broadcast is None
            },
            Packet::FinishGame {  } => {
                &&& same_frame(pre, post)
                &&& post.host_id == pre.host_id
                &&& post.players.players == pre.players.players
                &&& post.players.idx == 0
                &&& post.session_state == SessionState::Lobby
                &&& post.closed == false
                &&& match pre.game_manager {
                    None => post.game_manager is None,
                    Some(g0) => post.game_manager matches Some(g1) && {
                        &&& g1.game_state.card_count == 0
                        &&& g1.game_state.tables == g0.game_state.tables
                        &&& g1.game_state.states == g0.game_state.states
                        &&& g1.game_state.cards == g0.game_state.cards
                        &&& g1.game_state.score_state == g0.game_state.score_state
                        &&& g1.awaited_states == g0.awaited_states
                    },
                }
                &&& r == Ok::<PacketResponse, PacketError>(PacketResponse::FinishGameOk)
                &&& fx == no_effects()
            },
            Packet::GetPlayers {  } => {
                &&& post == pre
                &&& fx == no_effects()
                &&& r matches Ok(resp) && resp matches PacketResponse::GetPlayersOk {
                    players: names,
                    bundle,
                } && names@.len() == pre.players.players@.len() && (forall|i: int|
                    0 <= i < names@.len() ==> #[trigger] names@[i]
                        == pre.players.players@[i].username) && snap_ok(
                    pre.game_manager,
                    pre.players,
                    bundle,
                )
            },
            _ => post == pre && r == Err::<PacketResponse, PacketError>(PacketError::CipaChuj) && fx
                == no_effects(),
        }
    }
}

/// Copies a draw result for the broadcast alongside the response.
fn clone_card_result(c: &CardResult) -> (r: CardResult)
    ensures
        r.text == c.text,
        crate::game::opts_eq(r.state_options@, c.state_options@),
{
    let state_options = c.state_options.clone();
    proof {
        assert(crate::game::opts_eq(state_options@, c.state_options@));
    }
    CardResult { state_options, text: c.text.clone() }
}

impl Session {
    /// The invariant every packet preserves: a valid turn index and a
    /// roster small enough to rank.
    pub open spec fn wf(self) -> bool {
        self.players.wf() && self.players.players@.len() <= i32::MAX
    }

    /// A fresh session in the lobby, with no engine until a deck arrives.
    pub fn init(host_id: UserId, _username: String, code: SessionCode) -> (r: Self)
        ensures
            r.host_id == host_id,
            r.code == code,
            r.players.players@ == Seq::<Player>::empty(),
            r.players.idx == 0,
            r.game_manager is None,
            r.session_state == SessionState::Lobby,
            r.closed == false,
            r.connections.connections@ == Seq::<ConnectionId>::empty(),
            r.wf(),
    {
        Session {
            id: fresh_id(),
            connections: Connections::new(),
            host_id,
            players: Players::new(),
            admin_token: fresh_id(),
            game_manager: None,
            session_state: SessionState::Lobby,
            code,
            closed: false,
        }
    }

    pub fn verify_existence(&self, id: SessionId) -> (r: bool)
        ensures
            r == (self.id == id),
    {
        self.id == id
    }

    pub fn get_host_id(&self) -> (r: UserId)
        ensures
            r == self.host_id,
    {
        self.host_id
    }

    pub fn get_session_id(&self) -> (r: SessionId)
        ensures
            r == self.id,
    {
        self.id
    }

    /// The engine snapshot, or the empty one while no deck has been set.
    fn snapshot_or_empty(&self) -> (r: GameBundle)
        requires
            self.wf(),
        ensures
            snap_ok(self.game_manager, self.players, r),
    {
        match &self.game_manager {
            Some(gm) => gm.bundle_state(&self.players),
            None => GameBundle {
                score_board: RenderedScoreBoard { ident: String::new(), data: Vec::new() },
                current_idx: self.players.idx,
                states: Vec::new(),
            },
        }
    }

    /// Admits a player: the roster grows (and is reshuffled), the engine's
    /// individual states are reconciled against the new roster, and the
    /// answer carries the fresh roster and snapshot for broadcasting.
    pub fn add_player(&mut self, id: UserId, username: String, is_host: bool) -> (r: PacketResponse)
        requires
            old(self).wf(),
            old(self).players.players@.len() < i32::MAX,
        ensures
            final(self).wf(),
            same_frame(*old(self), *final(self)),
            final(self).host_id == old(self).host_id,
            final(self).session_state == old(self).session_state,
            final(self).closed == old(self).closed,
            final(self).players.players@.len() == old(self).players.players@.len() + 1,
            final(self).players.players@.to_multiset() == old(
                self,
            ).players.players@.to_multiset().insert(Player { username, id, is_host }),
            engine_reconciled(
                old(self).game_manager,
                crate::state::roster_ids(final(self).players.players@),
                final(self).game_manager,
            ),
            r matches PacketResponse::PlayersUpdateOk { players: names, bundle } && names@.len()
                == final(self).players.players@.len() && (forall|i: int|
                0 <= i < names@.len() ==> #[trigger] names@[i]
                    == final(self).players.players@[i].username) && snap_ok(
                final(self).game_manager,
                final(self).players,
                bundle,
            ),
    {
        let player = Player::new(id, username, is_host);
        self.players.add_player(player);
        let mut tmp: Option<GameManager> = None;
        core::mem::swap(&mut self.game_manager, &mut tmp);
        match tmp {
            Some(mut gm) => {
                gm.regen_states(&self.players);
                self.game_manager = Some(gm);
            },
            None => {},
        }
        let names = self.players.get_players();
        let bundle = self.snapshot_or_empty();
        PacketResponse::PlayersUpdateOk { players: names, bundle }
    }

    /// Handles one packet to completion, as `handle_rel` specifies.
    pub fn handle_packet(&mut self, packet: Packet) -> (r: (
        Result<PacketResponse, PacketError>,
        SessionEffects,
    ))
        requires
            old(self).wf(),
        ensures
            final(self).wf(),
            handle_rel(*old(self), packet, *final(self), r.0, r.1),
    {
        if self.closed {
            return (Err(PacketError::CipaChuj), no_fx());
        }
        match packet {
            Packet::TestError {  } => (Err(PacketError::CipaChuj), no_fx()),
            Packet::TestPacketWithString { string } => (
                Ok(PacketResponse::TestPacketWithStringOk { string }),
                no_fx(),
            ),
            Packet::SetDeck { deck } => {
                let bundle = deck.into_bundle();
                let mut tmp: Option<GameManager> = None;
                core::mem::swap(&mut self.game_manager, &mut tmp);
                let gm = match tmp {
                    Some(mut g0) => {
                        g0.change_deck(bundle);
                        g0
                    },
                    None => GameManager::init(bundle),
                };
                let resp_bundle = gm.bundle_state(&self.players);
                let bcast_bundle = gm.bundle_state(&self.players);
                self.game_manager = Some(gm);
                (
                    Ok(PacketResponse::SetDeckOk { bundle: resp_bundle }),
                    SessionEffects {
                        broadcast: Some(Packet::UpdateState { new_state: bcast_bundle }),
                        close_connections: false,
                        deregister: false,
                    },
                )
            },
            Packet::PlayerLeft { id } => {
                self.players.remove_player(id);
                let mut tmp: Option<GameManager> = None;
                core::mem::swap(&mut self.game_manager, &mut tmp);
                match tmp {
                    Some(mut gm) => {
                        gm.regen_states(&self.players);
                        self.game_manager = Some(gm);
                    },
                    None => {},
                }
                if self.players.players.len() == 0 {
                    self.session_state = SessionState::Lobby;
                    self.closed = true;
                    (
                        Ok(PacketResponse::CloseSessionOk),
                        SessionEffects {
                            broadcast: None,
                            close_connections: true,
                            deregister: true,
                        },
                    )
                } else {
                    self.host_id = self.players.players[0].id;
                    let bundle = self.snapshot_or_empty();
                    let bcast = self.snapshot_or_empty();
                    (
                        Ok(PacketResponse::PlayerLeftOk { bundle }),
                        SessionEffects {
                            broadcast: Some(Packet::UpdateState { new_state: bcast }),
                            close_connections: false,
                            deregister: false,
                        },
                    )
                }
            },
            Packet::PlayerDoneChoise { chosen } => {
                let mut tmp: Option<GameManager> = None;
                core::mem::swap(&mut self.game_manager, &mut tmp);
                match tmp {
                    None => (Err(PacketError::GameManagerError), no_fx()),
                    Some(mut gm) => {
                        let ghost g0 = gm;
                        gm.resolve_state(chosen, &self.players);
                        let ghost g1 = gm;
                        let card = gm.get_next_card(&mut self.players).unwrap();
                        let resp_bundle = gm.bundle_state(&self.players);
                        let bcast_bundle = gm.bundle_state(&self.players);
                        let bcast_card = clone_card_result(&card);
                        self.game_manager = Some(gm);
                        proof {
                            assert(resolve_rel(g0, chosen, old(self).players, g1));
                        }
                        (
                            Ok(PacketResponse::CardResultOk { card, bundle: resp_bundle }),
                            SessionEffects {
                                broadcast: Some(
                                    Packet::CardResult { card: bcast_card, bundle: bcast_bundle },
                                ),
                                close_connections: false,
                                deregister: false,
                            },
                        )
                    },
                }
            },
            Packet::PlayerDone {  } => {
                let mut tmp: Option<GameManager> = None;
                core::mem::swap(&mut self.game_manager, &mut tmp);
                match tmp {
                    None => (Err(PacketError::GameManagerError), no_fx()),
                    Some(mut gm) => {
                        let card = gm.get_next_card(&mut self.players).unwrap();
                        let resp_bundle = gm.bundle_state(&self.players);
                        let bcast_bundle = gm.bundle_state(&self.players);
                        let bcast_card = clone_card_result(&card);
                        self.game_manager = Some(gm);
                        (
                            Ok(PacketResponse::CardResultOk { card, bundle: resp_bundle }),
                            SessionEffects {
                                broadcast: Some(
                                    Packet::CardResult { card: bcast_card, bundle: bcast_bundle },
                                ),
                                close_connections: false,
                                deregister: false,
                            },
                        )
                    },
                }
            },
            Packet::CloseSession {  } => {
                self.closed = true;
                (
                    Ok(PacketResponse::CloseSessionOk),
                    SessionEffects { broadcast: None, close_connections: true, deregister: true },
                )
            },
            Packet::FinishGame {  } => {
                self.session_state = SessionState::Lobby;
                self.players.idx = 0;
                let mut tmp: Option<GameManager> = None;
                core::mem::swap(&mut self.game_manager, &mut tmp);
                match tmp {
                    Some(mut gm) => {
                        gm.reset_game_state();
                        self.game_manager = Some(gm);
                    },
                    None => {},
                }
                (Ok(PacketResponse::FinishGameOk), no_fx())
            },
            Packet::GetPlayers {  } => {
                let names = self.players.get_players();
                let bundle = self.snapshot_or_empty();
                (Ok(PacketResponse::GetPlayersOk { players: names, bundle }), no_fx())
            },
            _ => (Err(PacketError::CipaChuj), no_fx()),
        }
    }
}

/// Once the last player's departure has closed a session, no further packet
/// is answered with anything but a protocol error, and the session state no
/// longer moves: the closure was already signaled when the roster emptied.
pub proof fn lemma_last_leave_closes_for_good(
    pre: Session,
    id: UserId,
    post: Session,
    r: Result<PacketResponse, PacketError>,
    fx: SessionEffects,
    next: Packet,
    post2: Session,
    r2: Result<PacketResponse, PacketError>,
    fx2: SessionEffects,
)
    requires
        !pre.closed,
        handle_rel(pre, Packet::PlayerLeft { id }, post, r, fx),
        pre.players.players@.filter(keeps_player(id)).len() == 0,
        handle_rel(post, next, post2, r2, fx2),
    ensures
        r == Ok::<PacketResponse, PacketError>(PacketResponse::CloseSessionOk),
        fx.close_connections && fx.deregister,
        post.closed,
        post2 == post,
        r2 == Err::<PacketResponse, PacketError>(PacketError::CipaChuj),
        fx2 == no_effects(),
{
}

} // verus!
