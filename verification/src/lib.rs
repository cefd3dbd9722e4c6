//! Core logic of FLOW, a tool that lets several machines on one network share
//! a cursor, the clipboard and files: the wire types, the spatial layout of the
//! peers' monitors, framing of mesh messages, peer discovery bookkeeping, file
//! transfer bookkeeping, clipboard change detection and the reactions of a
//! session to incoming messages.

pub mod clipboard;
pub mod cursor;
pub mod discovery;
pub mod framing;
pub mod ids;
pub mod input;
pub mod layout;
pub mod monitor;
pub mod protocol;
pub mod scan;
pub mod search;
pub mod session;
pub mod text;
pub mod transfer;
