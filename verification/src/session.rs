//! A peer's session in the mesh: the peers it shows, the direction in which
//! the other peer's screen lies, and how it reacts to each incoming message.
use vstd::prelude::*;
use vstd::utf8::{decode_utf8, encode_utf8, valid_utf8};

use crate::clipboard::{bytes_text, lemma_text_round_trip};
use crate::ids::{short_id, short_text};
use crate::protocol::{CursorColor, CursorPosition, FlowMessage, OsType, PeerId, PeerInfo};
use crate::text::{str_eq, u8_text, u8_to_text};
use crate::transfer::{after_chunk, chunk_reply, ReceiveState};
use std::collections::HashSet;

verus! {

/// The direction the other peer's screen lies in, as seen from the other
/// side: right and left swap, above and below swap; an unknown direction is
/// taken as "right".
pub open spec fn inverted(dir: Seq<char>) -> Seq<char> {
    if dir == "right"@ {
        "left"@
    } else if dir == "left"@ {
        "right"@
    } else if dir == "above"@ {
        "below"@
    } else if dir == "below"@ {
        "above"@
    } else {
        "right"@
    }
}

/// The direction the peer that set `dir` lies in, seen from this side.
pub fn invert_direction(dir: &str) -> (r: &'static str)
    ensures
        r@ == inverted(dir@),
{
    if str_eq(dir, "right") {
        "left"
    } else if str_eq(dir, "left") {
        "right"
    } else if str_eq(dir, "above") {
        "below"
    } else if str_eq(dir, "below") {
        "above"
    } else {
        "right"
    }
}

/// The four directions a peer's screen can lie in.
pub open spec fn is_direction(dir: Seq<char>) -> bool {
    dir == "right"@ || dir == "left"@ || dir == "above"@ || dir == "below"@
}

/// Seen from the other side and back, a direction is itself again.
pub proof fn lemma_invert_involutive(dir: Seq<char>)
    requires
        is_direction(dir),
    ensures
        is_direction(inverted(dir)),
        inverted(inverted(dir)) == dir,
        inverted(dir) != dir,
{
    reveal_strlit("right");
    reveal_strlit("left");
    reveal_strlit("above");
    reveal_strlit("below");
    assert("left"@.len() != "right"@.len());
    assert("left"@.len() != "above"@.len());
    assert("left"@.len() != "below"@.len());
    assert("right"@[0] != "above"@[0]);
    assert("right"@[0] != "below"@[0]);
    assert("above"@[0] != "below"@[0]);
}

/// The name shown for an operating system.
pub open spec fn os_text(os: OsType) -> Seq<char> {
    match os {
        OsType::MacOS => "MacOS"@,
        OsType::Windows => "Windows"@,
        OsType::Linux => "Linux"@,
    }
}

/// The name shown for an operating system, as its `Debug` form writes it.
pub fn os_name(os: OsType) -> (s: String)
    ensures
        s@ == os_text(os),
{
    match os {
        OsType::MacOS => String::from_str("MacOS"),
        OsType::Windows => String::from_str("Windows"),
        OsType::Linux => String::from_str("Linux"),
    }
}

/// A colour in CSS notation, `rgb(r,g,b)`.
pub open spec fn color_text(c: CursorColor) -> Seq<char> {
    "rgb("@ + u8_text(c.r) + ","@ + u8_text(c.g) + ","@ + u8_text(c.b) + ")"@
}

/// A colour in CSS notation.
pub fn css_color(c: CursorColor) -> (s: String)
    ensures
        s@ == color_text(c),
{
    let r = u8_to_text(c.r);
    let g = u8_to_text(c.g);
    let b = u8_to_text(c.b);
    let s = String::from_str("rgb(").concat(r.as_str()).concat(",").concat(g.as_str()).concat(
        ",",
    ).concat(b.as_str()).concat(")");
    s
}

/// A peer as the user interface lists it.
#[derive(Debug)]
pub struct PeerUi {
    pub name: String,
    pub os: String,
    pub color: String,
    pub peer_id: String,
}

/// The texts of a listed peer.
pub struct PeerUiView {
    pub name: Seq<char>,
    pub os: Seq<char>,
    pub color: Seq<char>,
    pub peer_id: Seq<char>,
}

impl View for PeerUi {
    type V = PeerUiView;

    open spec fn view(&self) -> PeerUiView {
        PeerUiView { name: self.name@, os: self.os@, color: self.color@, peer_id: self.peer_id@ }
    }
}

impl Clone for PeerUi {
    fn clone(&self) -> (r: Self)
        ensures
            r@ == self@,
    {
        PeerUi {
            name: self.name.clone(),
            os: self.os.clone(),
            color: self.color.clone(),
            peer_id: self.peer_id.clone(),
        }
    }
}

/// How a peer is listed: its name, operating system, cursor colour and short
/// id.
pub open spec fn listing(p: PeerInfo) -> PeerUiView {
    PeerUiView {
        name: p.name@,
        os: os_text(p.os),
        color: color_text(p.color),
        peer_id: short_text(p.id.0),
    }
}

/// The listing of a peer.
pub fn peer_ui(p: &PeerInfo) -> (u: PeerUi)
    ensures
        u@ == listing(*p),
{
    PeerUi {
        name: p.name.clone(),
        os: os_name(p.os),
        color: css_color(p.color),
        peer_id: short_id(p.id.0),
    }
}

/// What the application does in reaction to a message.
#[derive(Debug)]
pub enum SessionAction {
    /// Show a newly joined peer.
    PeerJoined(PeerUi),
    /// Announce this peer to the mesh.
    AnnounceSelf,
    /// Put text received from a peer on the local clipboard.
    ClipboardReceived(String),
    /// Show the remote cursor overlay at a position.
    ShowOverlay { position: CursorPosition, name: String, color: CursorColor },
    /// Hide the remote cursor overlay.
    HideOverlay,
    /// The direction of the other peer's screen changed.
    DirectionChanged(String),
    /// Prepare to receive a file.
    ReceiveFile { transfer_id: u128, file_name: String, file_size: u64 },
    /// Write a chunk of a file being received.
    WriteChunk { transfer_id: u128, offset: u64, data: Vec<u8>, is_last: bool },
    /// A peer finished sending a file.
    FileComplete(String),
}

/// The contents of a `SessionAction`.
pub enum ActionView {
    PeerJoined(PeerUiView),
    AnnounceSelf,
    ClipboardReceived(Seq<char>),
    ShowOverlay { position: CursorPosition, name: Seq<char>, color: CursorColor },
    HideOverlay,
    DirectionChanged(Seq<char>),
    ReceiveFile { transfer_id: u128, file_name: Seq<char>, file_size: u64 },
    WriteChunk { transfer_id: u128, offset: u64, data: Seq<u8>, is_last: bool },
    FileComplete(Seq<char>),
}

impl View for SessionAction {
    type V = ActionView;

    open spec fn view(&self) -> ActionView {
        match self {
            SessionAction::PeerJoined(u) => ActionView::PeerJoined(u@),
            SessionAction::AnnounceSelf => ActionView::AnnounceSelf,
            SessionAction::ClipboardReceived(t) => ActionView::ClipboardReceived(t@),
            SessionAction::ShowOverlay { position, name, color } => ActionView::ShowOverlay {
                position: *position,
                name: name@,
                color: *color,
            },
            SessionAction::HideOverlay => ActionView::HideOverlay,
            SessionAction::DirectionChanged(d) => ActionView::DirectionChanged(d@),
            SessionAction::ReceiveFile { transfer_id, file_name, file_size } => ActionView::ReceiveFile {
                transfer_id: *transfer_id,
                file_name: file_name@,
                file_size: *file_size,
            },
            SessionAction::WriteChunk { transfer_id, offset, data, is_last } => ActionView::WriteChunk {
                transfer_id: *transfer_id,
                offset: *offset,
                data: data@,
                is_last: *is_last,
            },
            SessionAction::FileComplete(n) => ActionView::FileComplete(n@),
        }
    }
}

/// The contents of a session's state.
pub struct SessionView {
    pub connected: Seq<PeerUiView>,
    pub announced: Set<u128>,
    pub direction: Seq<char>,
}

/// Some listed peer has this short id.
pub open spec fn is_listed(connected: Seq<PeerUiView>, short: Seq<char>) -> bool {
    exists|i: int| 0 <= i < connected.len() && #[trigger] connected[i].peer_id == short
}

/// How a session with identity `me` in state `s` reacts to `msg`: its next
/// state and the actions, in order. Messages that come from this peer itself
/// are ignored.
pub open spec fn reaction(me: PeerId, s: SessionView, msg: FlowMessage) -> (SessionView, Seq<ActionView>) {
    match msg {
        FlowMessage::Announce(peer) => {
            if peer.id == me {
                (s, seq![])
            } else {
                let ui = listing(peer);
                let listed = is_listed(s.connected, ui.peer_id);
                let greeted = s.announced.contains(peer.id.0);
                let connected = if listed {
                    s.connected
                } else {
                    s.connected.push(ui)
                };
                let announced = if greeted {
                    s.announced
                } else {
                    s.announced.insert(peer.id.0)
                };
                let joined: Seq<ActionView> = if listed {
                    seq![]
                } else {
                    seq![ActionView::PeerJoined(ui)]
                };
                let answer: Seq<ActionView> = if greeted {
                    seq![]
                } else {
                    seq![ActionView::AnnounceSelf]
                };
                (SessionView { connected, announced, direction: s.direction }, joined + answer)
            }
        },
        FlowMessage::ClipboardData { peer_id, data, .. } => {
            if peer_id == me || !valid_utf8(data@) {
                (s, seq![])
            } else {
                (s, seq![ActionView::ClipboardReceived(decode_utf8(data@))])
            }
        },
        FlowMessage::CursorMove { peer_id, name, color, position, visible, .. } => {
            if peer_id == me {
                (s, seq![])
            } else if visible {
                (s, seq![ActionView::ShowOverlay { position, name: name@, color }])
            } else {
                (s, seq![ActionView::HideOverlay])
            }
        },
        FlowMessage::CursorReturn { peer_id } => {
            if peer_id == me {
                (s, seq![])
            } else {
                (s, seq![ActionView::HideOverlay])
            }
        },
        FlowMessage::DirectionSet { peer_id, direction } => {
            if peer_id == me {
                (s, seq![])
            } else {
                let inv = inverted(direction@);
                (SessionView { direction: inv, ..s }, seq![ActionView::DirectionChanged(inv)])
            }
        },
        FlowMessage::FileOffer { transfer_id, from_peer, file_name, file_size } => {
            if from_peer == me {
                (s, seq![])
            } else {
                (
                    s,
                    seq![
                        ActionView::ReceiveFile {
                            transfer_id,
                            file_name: file_name@,
                            file_size,
                        },
                    ],
                )
            }
        },
        FlowMessage::FileChunk { transfer_id, offset, data, is_last } => (
            s,
            seq![ActionView::WriteChunk { transfer_id, offset, data: data@, is_last }],
        ),
        FlowMessage::FileComplete { file_name, .. } => (
            s,
            seq![ActionView::FileComplete(file_name@)],
        ),
        _ => (s, seq![]),
    }
}

/// The views of a list of actions.
pub open spec fn action_views(v: Seq<SessionAction>) -> Seq<ActionView> {
    v.map_values(|a: SessionAction| a@)
}

/// The views of a list of listed peers.
pub open spec fn listing_views(v: Seq<PeerUi>) -> Seq<PeerUiView> {
    v.map_values(|u: PeerUi| u@)
}

/// A peer's session.
pub struct FlowSession {
    /// What this peer announces about itself.
    pub my_info: PeerInfo,
    /// The peers shown, in the order they joined.
    pub connected_peers: Vec<PeerUi>,
    /// The peers (by id) this peer has announced itself to in answer to
    /// theirs.
    pub announced_to: HashSet<u128>,
    /// Where the other peer's screen lies: "right", "left", "above" or
    /// "below".
    pub peer_direction: String,
}

impl FlowSession {
    pub open spec fn state(&self) -> SessionView {
        SessionView {
            connected: listing_views(self.connected_peers@),
            announced: self.announced_to@,
            direction: self.peer_direction@,
        }
    }

    /// A session for the peer `my_info`, with no peers shown and the other
    /// screen to the right.
    pub fn new(my_info: PeerInfo) -> (s: FlowSession)
        ensures
            s.my_info == my_info,
            s.connected_peers@.len() == 0,
            s.announced_to@ == Set::<u128>::empty(),
            s.peer_direction@ == "right"@,
    {
        FlowSession {
            my_info,
            connected_peers: Vec::new(),
            announced_to: HashSet::new(),
            peer_direction: String::from_str("right"),
        }
    }

    /// The user chose where the other peer's screen lies: it is recorded and
    /// the message telling the other peers is returned.
    pub fn set_direction(&mut self, direction: String) -> (m: FlowMessage)
        ensures
            final(self).my_info == old(self).my_info,
            final(self).connected_peers == old(self).connected_peers,
            final(self).announced_to == old(self).announced_to,
            final(self).peer_direction@ == direction@,
            m matches FlowMessage::DirectionSet { peer_id, direction: d } && peer_id
                == old(self).my_info.id && d@ == direction@,
    {
        self.peer_direction = direction.clone();
        FlowMessage::DirectionSet { peer_id: self.my_info.id, direction }
    }

    /// A peer found by discovery was connected to: it is shown (whether or
    /// not it already was) and its listing returned.
    pub fn add_discovered(&mut self, peer: &PeerInfo) -> (u: PeerUi)
        ensures
            final(self).my_info == old(self).my_info,
            final(self).announced_to == old(self).announced_to,
            final(self).peer_direction == old(self).peer_direction,
            u@ == listing(*peer),
            listing_views(final(self).connected_peers@) == listing_views(old(self).connected_peers@).push(
                listing(*peer),
            ),
    {
        let u = peer_ui(peer);
        let ghost before = self.connected_peers@;
        self.connected_peers.push(u.clone());
        assert(listing_views(self.connected_peers@) =~= listing_views(before).push(listing(*peer)));
        u
    }

    /// Whether a peer with this short id is shown.
    fn is_shown(&self, short: &String) -> (r: bool)
        ensures
            r == is_listed(listing_views(self.connected_peers@), short@),
    {
        let n = self.connected_peers.len();
        let mut i: usize = 0;
        while i < n
            invariant
                n == self.connected_peers@.len(),
                i <= n,
                forall|j: int| 0 <= j < i ==> #[trigger] self.connected_peers@[j].peer_id@ != short@,
            decreases n - i,
        {
            if self.connected_peers[i].peer_id == *short {
                assert(listing_views(self.connected_peers@)[i as int].peer_id == short@);
                return true;
            }
            i = i + 1;
        }
        assert forall|j: int| 0 <= j < n implies #[trigger] listing_views(self.connected_peers@)[j].peer_id
            != short@ by {
            assert(listing_views(self.connected_peers@)[j] == self.connected_peers@[j]@);
        }
        false
    }

    /// Reacts to a message from the mesh, see `reaction`.
    pub fn on_message(&mut self, msg: FlowMessage) -> (actions: Vec<SessionAction>)
        ensures
            final(self).my_info == old(self).my_info,
            (final(self).state(), action_views(actions@)) == reaction(
                old(self).my_info.id,
                old(self).state(),
                msg,
            ),
    {
        broadcast use vstd::std_specs::hash::group_hash_axioms;

        let me = self.my_info.id;
        let ghost s0 = self.state();
        let ghost m = msg;
        let mut actions: Vec<SessionAction> = Vec::new();
        match msg {
            FlowMessage::Announce(peer) => {
                if peer.id == me {
                    assert(action_views(actions@) =~= seq![]);
                    return actions;
                }
                let ui = peer_ui(&peer);
                let listed = self.is_shown(&ui.peer_id);
                let greeted = self.announced_to.contains(&peer.id.0);
                if !listed {
                    let ghost before = self.connected_peers@;
                    self.connected_peers.push(ui.clone());
                    assert(listing_views(self.connected_peers@) =~= listing_views(before).push(
                        listing(peer),
                    ));
                    actions.push(SessionAction::PeerJoined(ui));
                }
                if !greeted {
                    self.announced_to.insert(peer.id.0);
                    actions.push(SessionAction::AnnounceSelf);
                }
                proof {
                    let r = reaction(me, s0, m);
                    assert(action_views(actions@) =~= r.1);
                    assert(self.state().connected =~= r.0.connected);
                    assert(self.state().announced =~= r.0.announced);
                }
            },
            FlowMessage::ClipboardData { peer_id, data, .. } => {
                if peer_id != me {
                    match bytes_text(data) {
                        Some(text) => {
                            actions.push(SessionAction::ClipboardReceived(text));
                        },
                        None => {},
                    }
                }
            },
            FlowMessage::CursorMove { peer_id, name, color, position, visible, .. } => {
                if peer_id != me {
                    if visible {
                        actions.push(SessionAction::ShowOverlay { position, name, color });
                    } else {
                        actions.push(SessionAction::HideOverlay);
                    }
                }
            },
            FlowMessage::CursorReturn { peer_id } => {
                if peer_id != me {
                    actions.push(SessionAction::HideOverlay);
                }
            },
            FlowMessage::DirectionSet { peer_id, direction } => {
                if peer_id != me {
                    let inv = invert_direction(direction.as_str());
                    self.peer_direction = String::from_str(inv);
                    actions.push(SessionAction::DirectionChanged(String::from_str(inv)));
                }
            },
            FlowMessage::FileOffer { transfer_id, from_peer, file_name, file_size } => {
                if from_peer != me {
                    actions.push(SessionAction::ReceiveFile { transfer_id, file_name, file_size });
                }
            },
            FlowMessage::FileChunk { transfer_id, offset, data, is_last } => {
                actions.push(SessionAction::WriteChunk { transfer_id, offset, data, is_last });
            },
            FlowMessage::FileComplete { file_name, .. } => {
                actions.push(SessionAction::FileComplete(file_name));
            },
            _ => {},
        }
        proof {
            let r = reaction(me, s0, m);
            assert(action_views(actions@) =~= r.1);
        }
        actions
    }
}

/// No short id is listed twice.
pub open spec fn listing_unique(c: Seq<PeerUiView>) -> bool {
    forall|i: int, j: int|
        0 <= i < c.len() && 0 <= j < c.len() && i != j ==> #[trigger] c[i].peer_id != #[trigger] c[j].peer_id
}

/// However often peers announce themselves, each short id is listed once.
pub proof fn lemma_reaction_keeps_listing_unique(me: PeerId, s: SessionView, msg: FlowMessage)
    requires
        listing_unique(s.connected),
    ensures
        listing_unique(reaction(me, s, msg).0.connected),
{
    match msg {
        FlowMessage::Announce(peer) => {
            if peer.id != me {
                let ui = listing(peer);
                let c = reaction(me, s, msg).0.connected;
                if !is_listed(s.connected, ui.peer_id) {
                    assert forall|i: int, j: int|
                        0 <= i < c.len() && 0 <= j < c.len() && i != j implies #[trigger] c[i].peer_id
                        != #[trigger] c[j].peer_id by {
                        if i < s.connected.len() && j < s.connected.len() {
                        } else if i == s.connected.len() {
                            assert(c[j] == s.connected[j]);
                        } else {
                            assert(c[i] == s.connected[i]);
                        }
                    }
                }
            }
        },
        _ => {},
    }
}

/// The session after a run of messages, and all the actions taken, in order.
pub open spec fn run(me: PeerId, s: SessionView, msgs: Seq<FlowMessage>) -> (SessionView, Seq<ActionView>)
    decreases msgs.len(),
{
    if msgs.len() == 0 {
        (s, seq![])
    } else {
        let before = run(me, s, msgs.drop_last());
        let step = reaction(me, before.0, msgs.last());
        (step.0, before.1 + step.1)
    }
}

/// How many of the actions announce this peer.
pub open spec fn answers(acts: Seq<ActionView>) -> nat
    decreases acts.len(),
{
    if acts.len() == 0 {
        0
    } else {
        answers(acts.drop_last()) + if acts.last() is AnnounceSelf {
            1nat
        } else {
            0nat
        }
    }
}

/// The message is an announcement by the peer with id `pid`.
pub open spec fn is_announce_from(msg: FlowMessage, pid: u128) -> bool {
    msg matches FlowMessage::Announce(p) && p.id.0 == pid
}

/// `pid` announced itself in one of the messages.
pub open spec fn announced_in(msgs: Seq<FlowMessage>, pid: u128) -> bool {
    exists|i: int| 0 <= i < msgs.len() && is_announce_from(#[trigger] msgs[i], pid)
}

/// Counting answers over two runs of actions.
proof fn lemma_answers_concat(a: Seq<ActionView>, b: Seq<ActionView>)
    ensures
        answers(a + b) == answers(a) + answers(b),
    decreases b.len(),
{
    if b.len() == 0 {
        assert(a + b =~= a);
    } else {
        assert((a + b).drop_last() =~= a + b.drop_last());
        lemma_answers_concat(a, b.drop_last());
    }
}

/// The answers among the actions of one step: one where a peer not yet
/// answered announces itself, none otherwise.
proof fn lemma_step_answers(me: PeerId, s: SessionView, msg: FlowMessage)
    requires
        s.announced.finite(),
    ensures
        reaction(me, s, msg).0.announced.finite(),
        answers(reaction(me, s, msg).1) + s.announced.len() == reaction(me, s, msg).0.announced.len(),
        forall|pid: u128|
            reaction(me, s, msg).0.announced.contains(pid) <==> (s.announced.contains(pid) || (pid
                != me.0 && is_announce_from(msg, pid))),
{
    reveal_with_fuel(answers, 2);
    let r = reaction(me, s, msg);
    match msg {
        FlowMessage::Announce(peer) => {
            if peer.id == me {
                assert(answers(r.1) == 0);
            } else {
                let ui = listing(peer);
                let listed = is_listed(s.connected, ui.peer_id);
                let greeted = s.announced.contains(peer.id.0);
                let joined: Seq<ActionView> = if listed {
                    seq![]
                } else {
                    seq![ActionView::PeerJoined(ui)]
                };
                let answer: Seq<ActionView> = if greeted {
                    seq![]
                } else {
                    seq![ActionView::AnnounceSelf]
                };
                assert(r.1 == joined + answer);
                lemma_answers_concat(joined, answer);
                if !listed {
                    assert(joined.drop_last() =~= Seq::<ActionView>::empty());
                    assert(joined.last() == ActionView::PeerJoined(ui));
                }
                assert(answers(joined) == 0);
                if !greeted {
                    assert(answer.drop_last() =~= Seq::<ActionView>::empty());
                    assert(answer.last() == ActionView::AnnounceSelf);
                    assert(answers(answer) == 1);
                } else {
                    assert(answers(answer) == 0);
                }
                vstd::set::axiom_set_insert_len(s.announced, peer.id.0);
                assert(peer.id.0 != me.0) by {
                    if peer.id.0 == me.0 {
                        assert(peer.id == me);
                    }
                }
            }
        },
        FlowMessage::ClipboardData { peer_id, data, .. } => {
            if !(peer_id == me || !valid_utf8(data@)) {
                assert(seq![ActionView::ClipboardReceived(decode_utf8(data@))].drop_last() =~= Seq::<ActionView>::empty());
            }
        },
        FlowMessage::CursorMove { peer_id, name, color, position, visible, .. } => {
            if peer_id != me {
                if visible {
                    assert(seq![ActionView::ShowOverlay { position, name: name@, color }].drop_last() =~= Seq::<ActionView>::empty());
                } else {
                    assert(seq![ActionView::HideOverlay].drop_last() =~= Seq::<ActionView>::empty());
                }
            }
        },
        FlowMessage::CursorReturn { peer_id } => {
            assert(seq![ActionView::HideOverlay].drop_last() =~= Seq::<ActionView>::empty());
        },
        FlowMessage::DirectionSet { peer_id, direction } => {
            assert(seq![ActionView::DirectionChanged(inverted(direction@))].drop_last() =~= Seq::<ActionView>::empty());
        },
        FlowMessage::FileOffer { transfer_id, from_peer, file_name, file_size } => {
            assert(seq![ActionView::ReceiveFile { transfer_id, file_name: file_name@, file_size }].drop_last() =~= Seq::<ActionView>::empty());
        },
        FlowMessage::FileChunk { transfer_id, offset, data, is_last } => {
            assert(seq![ActionView::WriteChunk { transfer_id, offset, data: data@, is_last }].drop_last() =~= Seq::<ActionView>::empty());
        },
        FlowMessage::FileComplete { file_name, .. } => {
            assert(seq![ActionView::FileComplete(file_name@)].drop_last() =~= Seq::<ActionView>::empty());
        },
        _ => {},
    }
}

/// Over a run of messages, the peers answered are those answered before and
/// every other peer that announced itself.
proof fn lemma_answered_iff(me: PeerId, s: SessionView, msgs: Seq<FlowMessage>, pid: u128)
    requires
        s.announced.finite(),
    ensures
        run(me, s, msgs).0.announced.finite(),
        run(me, s, msgs).0.announced.contains(pid) <==> (s.announced.contains(pid) || (pid != me.0
            && announced_in(msgs, pid))),
    decreases msgs.len(),
{
    if msgs.len() == 0 {
        assert(!announced_in(msgs, pid));
    } else {
        let init = msgs.drop_last();
        lemma_answered_iff(me, s, init, pid);
        let before = run(me, s, init);
        lemma_step_answers(me, before.0, msgs.last());
        if announced_in(init, pid) {
            let i = choose|i: int| 0 <= i < init.len() && is_announce_from(#[trigger] init[i], pid);
            assert(msgs[i] == init[i]);
        }
        if is_announce_from(msgs.last(), pid) {
            assert(is_announce_from(msgs[msgs.len() - 1], pid));
        }
        if announced_in(msgs, pid) {
            let i = choose|i: int| 0 <= i < msgs.len() && is_announce_from(#[trigger] msgs[i], pid);
            if i < init.len() {
                assert(init[i] == msgs[i]);
            }
        }
    }
}

/// Over a run of messages, there are as many answers as peers newly
/// answered.
proof fn lemma_answer_count(me: PeerId, s: SessionView, msgs: Seq<FlowMessage>)
    requires
        s.announced.finite(),
    ensures
        run(me, s, msgs).0.announced.finite(),
        answers(run(me, s, msgs).1) + s.announced.len() == run(me, s, msgs).0.announced.len(),
    decreases msgs.len(),
{
    if msgs.len() == 0 {
        assert(answers(Seq::<ActionView>::empty()) == 0);
    } else {
        let init = msgs.drop_last();
        lemma_answer_count(me, s, init);
        let before = run(me, s, init);
        lemma_step_answers(me, before.0, msgs.last());
        lemma_answers_concat(before.1, reaction(me, before.0, msgs.last()).1);
    }
}

/// Over any run of messages, this peer answers each other peer's
/// announcement exactly once: the peers answered are those answered before
/// and every other peer that announced itself, and there are as many
/// answers as peers newly answered.
pub proof fn lemma_each_peer_answered_once(me: PeerId, s: SessionView, msgs: Seq<FlowMessage>)
    requires
        s.announced.finite(),
    ensures
        run(me, s, msgs).0.announced.finite(),
        forall|pid: u128|
            #[trigger] run(me, s, msgs).0.announced.contains(pid) <==> (s.announced.contains(pid) || (pid
                != me.0 && announced_in(msgs, pid))),
        answers(run(me, s, msgs).1) + s.announced.len() == run(me, s, msgs).0.announced.len(),
{
    lemma_answer_count(me, s, msgs);
    assert forall|pid: u128|
        #[trigger] run(me, s, msgs).0.announced.contains(pid) <==> (s.announced.contains(pid) || (pid
            != me.0 && announced_in(msgs, pid))) by {
        lemma_answered_iff(me, s, msgs, pid);
    }
}

/// A peer learns the direction of the other screen from a peer that set
/// it: the directions of the two agree, each seeing the other on the
/// opposite side.
pub proof fn lemma_direction_agrees(me: PeerId, s: SessionView, from: PeerId, direction: String)
    requires
        from != me,
        is_direction(direction@),
    ensures
        inverted(reaction(me, s, FlowMessage::DirectionSet { peer_id: from, direction }).0.direction)
            == direction@,
{
    lemma_invert_involutive(direction@);
}

/// A received file chunk is passed on whole: the session writes exactly that
/// chunk, with the message's transfer id, offset, data and last-chunk flag,
/// and its own state does not change.
pub proof fn lemma_file_chunk_passed_on(me: PeerId, s: SessionView, msg: FlowMessage)
    requires
        msg is FileChunk,
    ensures
        reaction(me, s, msg).0 == s,
        reaction(me, s, msg).1.len() == 1,
        match msg {
            FlowMessage::FileChunk { transfer_id, offset, data, is_last } => match reaction(me, s, msg).1[0] {
                ActionView::WriteChunk { transfer_id: t, offset: o, data: d, is_last: l } => t
                    == transfer_id && o == offset && d == data@ && l == is_last,
                _ => false,
            },
            _ => false,
        },
{
}

/// The last chunk of a file being received completes it, and no other chunk
/// does: writing the chunk the session asks for, into the records of the
/// transfers under way, closes the transfer and reports the file exactly
/// when the message was the transfer's last chunk.
pub proof fn lemma_last_chunk_completes_transfer(
    me: PeerId,
    s: SessionView,
    msg: FlowMessage,
    m: Map<u128, ReceiveState>,
)
    requires
        msg matches FlowMessage::FileChunk { transfer_id, .. } && m.contains_key(transfer_id),
    ensures
        match (msg, reaction(me, s, msg).1[0]) {
            (
                FlowMessage::FileChunk { transfer_id, is_last, .. },
                ActionView::WriteChunk { transfer_id: t, data: d, is_last: l, .. },
            ) => {
                &&& t == transfer_id
                &&& (chunk_reply(m, t, d.len() as u64, l) is Some <==> is_last)
                &&& (after_chunk(m, t, d.len() as u64, l).contains_key(transfer_id) <==> !is_last)
            },
            _ => false,
        },
{
}

/// Clipboard text sent by another peer is delivered as that same text, and
/// the session's state does not change.
pub proof fn lemma_clipboard_text_delivered(me: PeerId, s: SessionView, msg: FlowMessage, text: Seq<char>)
    requires
        msg matches FlowMessage::ClipboardData { peer_id, data, .. } && peer_id != me && data@
            == encode_utf8(text),
    ensures
        reaction(me, s, msg) == (s, seq![ActionView::ClipboardReceived(text)]),
{
    lemma_text_round_trip(text);
}

/// Another peer's cursor is shown where it says it is, with its name and
/// colour, while it is visible, and hidden otherwise; the session's state
/// does not change.
pub proof fn lemma_remote_cursor_shown(me: PeerId, s: SessionView, msg: FlowMessage)
    requires
        msg matches FlowMessage::CursorMove { peer_id, .. } && peer_id != me,
    ensures
        reaction(me, s, msg).0 == s,
        match msg {
            FlowMessage::CursorMove { name, color, position, visible, .. } => if visible {
                reaction(me, s, msg).1 == seq![ActionView::ShowOverlay { position, name: name@, color }]
            } else {
                reaction(me, s, msg).1 == seq![ActionView::HideOverlay]
            },
            _ => false,
        },
{
}

/// A file offered by another peer is prepared for with the offered
/// transfer id, file name and size; the session's state does not change.
pub proof fn lemma_file_offer_received(me: PeerId, s: SessionView, msg: FlowMessage)
    requires
        msg matches FlowMessage::FileOffer { from_peer, .. } && from_peer != me,
    ensures
        match msg {
            FlowMessage::FileOffer { transfer_id, file_name, file_size, .. } => reaction(me, s, msg) == (
                s,
                seq![ActionView::ReceiveFile { transfer_id, file_name: file_name@, file_size }],
            ),
            _ => false,
        },
{
}

/// Messages that this peer sent itself change nothing and ask for nothing.
pub proof fn lemma_own_messages_ignored(me: PeerId, s: SessionView, msg: FlowMessage)
    requires
        match msg {
            FlowMessage::Announce(p) => p.id == me,
            FlowMessage::ClipboardData { peer_id, .. } => peer_id == me,
            FlowMessage::CursorMove { peer_id, .. } => peer_id == me,
            FlowMessage::CursorReturn { peer_id } => peer_id == me,
            FlowMessage::DirectionSet { peer_id, .. } => peer_id == me,
            FlowMessage::FileOffer { from_peer, .. } => from_peer == me,
            _ => false,
        },
    ensures
        reaction(me, s, msg) == (s, Seq::<ActionView>::empty()),
{
    assert(seq![] =~= Seq::<ActionView>::empty());
}

} // verus!
