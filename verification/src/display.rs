//! Which display server the desktop session runs, and which display-client
//! binary to invoke for it. The session type is read from the environment
//! once at process start and passed in.

use vstd::prelude::*;
use crate::text::str_eq;

verus! {

/// The desktop session's display server.
#[derive(Debug, Clone, Copy, PartialEq, Eq, Structural)]
pub enum DisplayServer {
    Wayland,
    X11,
    Unknown,
}

/// The display server a session-type value names: `wayland` and `x11` are
/// recognized (the environment reports them in lower case); anything else —
/// or no value at all — is unknown.
pub open spec fn spec_display_server(session_type: Option<Seq<char>>) -> DisplayServer {
    match session_type {
        Some(v) => if v == "wayland"@ {
            DisplayServer::Wayland
        } else if v == "x11"@ {
            DisplayServer::X11
        } else {
            DisplayServer::Unknown
        },
        None => DisplayServer::Unknown,
    }
}

/// Classify the session-type value read from the environment.
pub fn get_display_server(session_type: Option<&str>) -> (r: DisplayServer)
    ensures
        r == spec_display_server(
            match session_type {
                Some(v) => Some(v@),
                None => None,
            },
        ),
{
    match session_type {
        Some(v) => {
            if str_eq(v, "wayland") {
                DisplayServer::Wayland
            } else if str_eq(v, "x11") {
                DisplayServer::X11
            } else {
                DisplayServer::Unknown
            }
        },
        None => DisplayServer::Unknown,
    }
}

/// The display-client binary to invoke. The Wayland-native client is
/// deprecated, so every session goes through the X11 client (under XWayland
/// where needed).
pub fn get_freerdp_executable(server: DisplayServer) -> (r: &'static str)
    ensures
        r@ == "xfreerdp3"@,
{
    match server {
        DisplayServer::Wayland => "xfreerdp3",
        DisplayServer::X11 => "xfreerdp3",
        DisplayServer::Unknown => "xfreerdp3",
    }
}

} // verus!
