//! Whether there is a native dialog to open a file with.
use vstd::prelude::*;
use vstd::utf8;

use crate::path::{self, FilePath, PathView};
use crate::probe::{self, first_that, name_in_each};

verus! {

/// What this session can offer.
#[derive(Debug, Clone, Copy, PartialEq, Eq)]
pub enum Availability {
    /// A native dialog.
    Native,
    /// None, and why: the built-in browser is used.
    Unavailable(&'static str),
}

/// What the decision is made from.
#[derive(Debug, Clone, Copy, PartialEq, Eq, Structural)]
pub struct Probe {
    /// The platform's dialog needs no service.
    pub built_in: bool,
    /// There is a session bus, where the desktop portal is.
    pub session_bus: bool,
    /// There is a `zenity` on `PATH`.
    pub zenity: bool,
}

impl Default for Probe {
    fn default() -> (r: Probe)
        ensures
            !r.built_in,
            !r.session_bus,
            !r.zenity,
    {
        Probe { built_in: false, session_bus: false, zenity: false }
    }
}

/// Whether there is a file called `name` in one of `dirs`. That it can be run is not
/// asked: it is enough that there is something to start.
pub fn on_path<F: Fn(&FilePath) -> bool>(dirs: &Vec<FilePath>, name: &str, is_file: F) -> (r: bool)
    requires
        probe::askable(is_file),
    ensures
        exists|found: Option<PathView>|
            r == (found is Some) && #[trigger] probe::first_found(
                probe::in_each(path::path_bytes(dirs@), utf8::encode_utf8(name@)),
                is_file,
                found,
            ),
{
    let name = FilePath::new(name);
    let found = first_that(name_in_each(dirs, &name), is_file);
    assert(probe::first_found(
        probe::in_each(path::path_bytes(dirs@), name@.bytes),
        is_file,
        path::opt_path(found),
    ));
    found.is_some()
}

/// Why the built-in browser is used.
pub const NO_DIALOG: &'static str =
    "no desktop portal (no DBus session bus) and no zenity on PATH — using the built-in browser";

/// Whether any of the ways to show a dialog is there.
pub open spec fn has_dialog(probe: Probe) -> bool {
    probe.built_in || probe.session_bus || probe.zenity
}

/// Whether there is a native dialog to show.
pub fn availability_from(probe: Probe) -> (r: Availability)
    ensures
        r is Native <==> has_dialog(probe),
        r is Unavailable ==> r->Unavailable_0@ == NO_DIALOG@,
{
    if probe.built_in || probe.session_bus || probe.zenity {
        Availability::Native
    } else {
        Availability::Unavailable(NO_DIALOG)
    }
}

/// One line on what there is.
pub fn describe(availability: Availability) -> (r: &'static str)
    ensures
        r@ == (match availability {
            Availability::Native => "yes — a native file dialog can be shown"@,
            Availability::Unavailable(reason) => reason@,
        }),
{
    match availability {
        Availability::Native => "yes — a native file dialog can be shown",
        Availability::Unavailable(reason) => reason,
    }
}

/// What was looked at, and what was found.
pub fn evidence(probe: Probe) -> (r: [(&'static str, &'static str); 2])
    ensures
        r@[0].0@ == "portal"@,
        r@[0].1@ == (if probe.built_in {
            "not needed on this platform"@
        } else if probe.session_bus {
            "a DBus session bus is reachable"@
        } else {
            "no DBus session bus"@
        }),
        r@[1].0@ == "zenity"@,
        r@[1].1@ == (if probe.zenity {
            "on PATH (rfd's fallback)"@
        } else {
            "not on PATH"@
        }),
{
    let portal = if probe.built_in {
        "not needed on this platform"
    } else if probe.session_bus {
        "a DBus session bus is reachable"
    } else {
        "no DBus session bus"
    };
    let zenity = if probe.zenity {
        "on PATH (rfd's fallback)"
    } else {
        "not on PATH"
    };
    [("portal", portal), ("zenity", zenity)]
}

} // verus!
