//! The menu of the tray icon.
use vstd::prelude::*;

use super::labels::{self, tray_recent};
use crate::path::{self, FilePath, PathView};
use crate::text::{self, copy_text, same_text};

verus! {

/// What the menu shows that can change.
#[derive(Debug)]
pub struct TrayMenu {
    /// The combination that is held, which is ticked.
    pub hotkey: Option<String>,
    /// The recent files that are offered.
    pub recent: Vec<FilePath>,
}

/// Whether two lists hold the same paths, one by one.
pub open spec fn same_paths(a: Seq<PathView>, b: Seq<PathView>) -> bool {
    &&& a.len() == b.len()
    &&& forall|i: int| 0 <= i < a.len() ==> path::same_path(#[trigger] a[i], b[i])
}

impl TrayMenu {
    /// Whether `self` and `other` show the same.
    pub open spec fn alike(&self, other: &TrayMenu) -> bool {
        &&& text::opt_text(self.hotkey) == text::opt_text(other.hotkey)
        &&& same_paths(path::path_bytes(self.recent@), path::path_bytes(other.recent@))
    }

    /// The menu while `hotkey` is held and `shown` are the recent files: it offers
    /// the newest few.
    pub fn new(hotkey: &Option<String>, shown: &[FilePath]) -> (r: TrayMenu)
        ensures
            text::opt_text(r.hotkey) == text::opt_text(*hotkey),
            path::path_bytes(r.recent@) == path::path_bytes(shown@).take(
                if shown.len() < labels::TRAY_RECENT {
                    shown.len() as int
                } else {
                    labels::TRAY_RECENT as int
                },
            ),
    {
        TrayMenu { hotkey: copy_text(hotkey), recent: tray_recent(shown) }
    }

    /// Whether the menu is to be sent, after `sent` was: only where something in it
    /// changed, and the first one always.
    pub fn is_news(&self, sent: Option<&TrayMenu>) -> (r: bool)
        ensures
            r == match sent {
                Some(sent) => !self.alike(sent),
                None => true,
            },
    {
        let last = match sent {
            Some(last) => last,
            None => {
                return true;
            },
        };
        let ticked = match (&self.hotkey, &last.hotkey) {
            (Some(a), Some(b)) => same_text(a.as_str(), b.as_str()),
            (None, None) => true,
            _ => false,
        };
        let ghost a = path::path_bytes(self.recent@);
        let ghost b = path::path_bytes(last.recent@);
        assert(a.len() == self.recent.len() && b.len() == last.recent.len());
        if !ticked || self.recent.len() != last.recent.len() {
            return true;
        }
        let mut i: usize = 0;
        while i < self.recent.len()
            invariant
                sent == Some(last),
                i <= self.recent.len(),
                self.recent.len() == last.recent.len(),
                a == path::path_bytes(self.recent@),
                b == path::path_bytes(last.recent@),
                forall|k: int| 0 <= k < i ==> path::same_path(#[trigger] a[k], b[k]),
            decreases self.recent.len() - i,
        {
            if !self.recent[i].same(&last.recent[i]) {
                assert(!path::same_path(a[i as int], b[i as int]));
                return true;
            }
            i = i + 1;
        }
        false
    }
}

/// A menu like itself is no news; one with another combination ticked, with more or fewer
/// files, or with another file in any place is.
pub proof fn law_a_menu_that_differs_is_news(a: TrayMenu, b: TrayMenu)
    ensures
        a.alike(&a),
        a.alike(&b) ==> b.alike(&a),
        text::opt_text(a.hotkey) != text::opt_text(b.hotkey) ==> !a.alike(&b),
        a.recent@.len() != b.recent@.len() ==> !a.alike(&b),
        forall|i: int|
            0 <= i < a.recent@.len() && i < b.recent@.len() && !path::same_path(
                (#[trigger] a.recent@[i])@,
                b.recent@[i]@,
            ) ==> !a.alike(&b),
{
    let x = path::path_bytes(a.recent@);
    let y = path::path_bytes(b.recent@);
    assert(x.len() == a.recent@.len() && y.len() == b.recent@.len());
    assert forall|i: int| 0 <= i < x.len() implies path::same_path(#[trigger] x[i], x[i]) by {
        path::law_same_path_is_an_equivalence(x[i], x[i], x[i]);
    }
    if a.alike(&b) {
        assert forall|i: int| 0 <= i < y.len() implies path::same_path(#[trigger] y[i], x[i]) by {
            assert(path::same_path(x[i], y[i]));
            path::law_same_path_is_an_equivalence(x[i], y[i], x[i]);
        }
    }
    assert forall|i: int|
        0 <= i < a.recent@.len() && i < b.recent@.len() && !path::same_path(
            (#[trigger] a.recent@[i])@,
            b.recent@[i]@,
        ) implies !a.alike(&b) by {
        assert(x[i] == a.recent@[i]@ && y[i] == b.recent@[i]@);
    }
}

} // verus!
