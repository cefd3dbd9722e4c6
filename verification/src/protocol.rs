//! The data exchanged between FLOW peers.
use vstd::prelude::*;

use crate::ids::{is_v4, random_v4};

verus! {

/// Identity of a peer: a UUID, held as its 128-bit value (the big-endian
/// reading of its sixteen bytes).
#[derive(Clone, Copy, Debug, PartialEq, Eq, Structural)]
pub struct PeerId(pub u128);

impl PeerId {
    /// A fresh random (version 4) identity.
    pub fn new() -> (id: PeerId)
        ensures
            is_v4(id.0),
    {
        PeerId(random_v4())
    }
}

/// The operating system a peer runs.
#[derive(Clone, Copy, Debug, PartialEq, Eq, Structural)]
pub enum OsType {
    MacOS,
    Windows,
    Linux,
}

/// The operating system named by a compilation target's `target_os` value:
/// "macos" and "windows" are recognised, everything else counts as Linux.
pub open spec fn os_for_target(target_os: Seq<char>) -> OsType {
    if target_os == "macos"@ {
        OsType::MacOS
    } else if target_os == "windows"@ {
        OsType::Windows
    } else {
        OsType::Linux
    }
}

impl OsType {
    /// The operating system of the running build, given the `target_os` value
    /// it was compiled for.
    pub fn current(target_os: &str) -> (os: OsType)
        ensures
            os == os_for_target(target_os@),
    {
        if crate::text::str_eq(target_os, "macos") {
            OsType::MacOS
        } else if crate::text::str_eq(target_os, "windows") {
            OsType::Windows
        } else {
            OsType::Linux
        }
    }
}

/// Position of a monitor in the shared virtual desktop.
#[derive(Clone, Copy, Debug, Default, PartialEq, Eq, Structural)]
pub struct GridPosition {
    pub x: i32,
    pub y: i32,
}

/// Colour of a peer's cursor.
#[derive(Clone, Copy, Debug, PartialEq, Eq, Structural)]
pub struct CursorColor {
    pub r: u8,
    pub g: u8,
    pub b: u8,
}

/// The colours handed out to peers, in order.
pub open spec fn palette_colors() -> Seq<CursorColor> {
    seq![
        CursorColor { r: 239, g: 68, b: 68 },
        CursorColor { r: 59, g: 130, b: 246 },
        CursorColor { r: 34, g: 197, b: 94 },
        CursorColor { r: 168, g: 85, b: 247 },
        CursorColor { r: 249, g: 115, b: 22 },
        CursorColor { r: 236, g: 72, b: 153 },
    ]
}

impl CursorColor {
    pub fn red() -> (c: CursorColor)
        ensures
            c == palette_colors()[0],
    {
        CursorColor { r: 239, g: 68, b: 68 }
    }

    pub fn blue() -> (c: CursorColor)
        ensures
            c == palette_colors()[1],
    {
        CursorColor { r: 59, g: 130, b: 246 }
    }

    pub fn green() -> (c: CursorColor)
        ensures
            c == palette_colors()[2],
    {
        CursorColor { r: 34, g: 197, b: 94 }
    }

    pub fn purple() -> (c: CursorColor)
        ensures
            c == palette_colors()[3],
    {
        CursorColor { r: 168, g: 85, b: 247 }
    }

    pub fn orange() -> (c: CursorColor)
        ensures
            c == palette_colors()[4],
    {
        CursorColor { r: 249, g: 115, b: 22 }
    }

    pub fn pink() -> (c: CursorColor)
        ensures
            c == palette_colors()[5],
    {
        CursorColor { r: 236, g: 72, b: 153 }
    }

    /// The six cursor colours: red, blue, green, purple, orange, pink.
    pub fn palette() -> (p: [CursorColor; 6])
        ensures
            p@ == palette_colors(),
    {
        let p = [
            CursorColor::red(),
            CursorColor::blue(),
            CursorColor::green(),
            CursorColor::purple(),
            CursorColor::orange(),
            CursorColor::pink(),
        ];
        assert(p@ =~= palette_colors());
        p
    }

    /// The colour for the `index`-th peer; the palette repeats.
    pub fn pick(index: usize) -> (c: CursorColor)
        ensures
            c == palette_colors()[(index % 6) as int],
    {
        let palette = CursorColor::palette();
        palette[index % 6]
    }
}

/// A monitor of a peer. `scale_factor_bits` holds the bit pattern of the
/// monitor's floating-point scale factor.
#[derive(Debug)]
pub struct MonitorInfo {
    pub monitor_id: u32,
    pub name: String,
    pub width: u32,
    pub height: u32,
    pub scale_factor_bits: u64,
    pub position: GridPosition,
}

impl Clone for MonitorInfo {
    fn clone(&self) -> (r: Self)
        ensures
            r == *self,
    {
        MonitorInfo {
            monitor_id: self.monitor_id,
            name: self.name.clone(),
            width: self.width,
            height: self.height,
            scale_factor_bits: self.scale_factor_bits,
            position: self.position,
        }
    }
}

/// What a peer tells the others about itself.
#[derive(Debug)]
pub struct PeerInfo {
    pub id: PeerId,
    pub name: String,
    pub color: CursorColor,
    pub monitors: Vec<MonitorInfo>,
    pub os: OsType,
}

/// The contents of a `PeerInfo`.
pub struct PeerInfoView {
    pub id: PeerId,
    pub name: Seq<char>,
    pub color: CursorColor,
    pub monitors: Seq<MonitorInfo>,
    pub os: OsType,
}

impl View for PeerInfo {
    type V = PeerInfoView;

    open spec fn view(&self) -> PeerInfoView {
        PeerInfoView {
            id: self.id,
            name: self.name@,
            color: self.color,
            monitors: self.monitors@,
            os: self.os,
        }
    }
}

impl Clone for PeerInfo {
    fn clone(&self) -> (r: Self)
        ensures
            r@ == self@,
    {
        let monitors = self.monitors.clone();
        assert(monitors@ =~= self.monitors@);
        PeerInfo {
            id: self.id,
            name: self.name.clone(),
            color: self.color,
            monitors,
            os: self.os,
        }
    }
}

/// A cursor position; the two fields hold the bit patterns of the
/// floating-point coordinates.
#[derive(Clone, Copy, Debug, PartialEq, Eq, Structural)]
pub struct CursorPosition {
    pub x_bits: u64,
    pub y_bits: u64,
}

/// Presence of a peer.
#[derive(Clone, Copy, Debug, PartialEq, Eq, Structural)]
pub enum PeerStatus {
    Active,
    Idle,
    Away,
}

/// Kind of clipboard content on offer.
#[derive(Clone, Debug)]
pub enum ClipboardContentType {
    PlainText,
    RichText,
    Image,
    Files(Vec<String>),
}

/// A side of a monitor.
#[derive(Clone, Copy, Debug, PartialEq, Eq, Structural)]
pub enum Edge {
    Left,
    Right,
    Top,
    Bottom,
}

/// A message of the mesh protocol. Transfer identifiers are UUIDs held as
/// their 128-bit value.
#[derive(Clone, Debug)]
pub enum FlowMessage {
    Announce(PeerInfo),
    CursorMove {
        peer_id: PeerId,
        name: String,
        color: CursorColor,
        monitor_id: u32,
        position: CursorPosition,
        visible: bool,
    },
    CursorHandoff {
        from_peer: PeerId,
        to_peer: PeerId,
        to_monitor: u32,
        position: CursorPosition,
    },
    CursorReturn {
        peer_id: PeerId,
    },
    ClipboardOffer {
        peer_id: PeerId,
        content_type: ClipboardContentType,
        size_bytes: u64,
    },
    ClipboardRequest {
        from_peer: PeerId,
        to_peer: PeerId,
    },
    ClipboardData {
        peer_id: PeerId,
        content_type: ClipboardContentType,
        data: Vec<u8>,
    },
    StatusUpdate {
        peer_id: PeerId,
        status: PeerStatus,
    },
    DirectionSet {
        peer_id: PeerId,
        direction: String,
    },
    FileOffer {
        transfer_id: u128,
        from_peer: PeerId,
        file_name: String,
        file_size: u64,
    },
    FileChunk {
        transfer_id: u128,
        offset: u64,
        data: Vec<u8>,
        is_last: bool,
    },
    FileComplete {
        transfer_id: u128,
        file_name: String,
    },
    Goodbye(PeerId),
}

/// The palette repeats every six peers.
pub proof fn lemma_pick_cycles(index: int)
    requires
        index >= 0,
    ensures
        palette_colors()[index % 6] == palette_colors()[(index + 6) % 6],
{
}

/// Six peers in a row get six different colours.
pub proof fn lemma_palette_distinct(a: int, b: int)
    requires
        0 <= a < 6,
        0 <= b < 6,
        a != b,
    ensures
        palette_colors()[a] != palette_colors()[b],
{
}

} // verus!
