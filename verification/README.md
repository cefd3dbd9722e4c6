# flow

FLOW lets several machines on one local network behave like one desktop:
the cursor moves from one machine's screen onto the next, the clipboard is
shared, and files are sent from one to another. Peers find each other over
mDNS and talk over a TCP mesh of length-framed JSON messages.

This crate is the logic of FLOW, written in Verus and verified:

- `protocol`: the messages and the data they carry.
- `ids`: identities (UUIDs) and their text, through the `uuid` crate.
- `layout`, `cursor`: the shared desktop and where the cursor lands when it
  leaves a monitor.
- `framing`: the length prefix of mesh messages and the size limit.
- `discovery`: the mDNS properties a peer advertises and the table of peers
  found.
- `transfer`: sending a file in chunks and counting what is received.
- `clipboard`: which clipboard changes are sent, and clipboard text as bytes.
- `session`: how a peer reacts to each message of the mesh.
- `scan`, `monitor`, `input`: the network scan, the fallback display and the
  mouse-button events injected for remote clicks.
- `text`, `search`: text helpers and first-match search.

`app/` holds the program around it: the agent (`main.rs`), the mesh over
tokio, mDNS registration and browsing, the system clipboard, platform cursor
capture, overlay and input injection, file I/O and the desktop session. The
Tauri window (`desktop.rs`) needs the Tauri crates and is left out of this
build.
