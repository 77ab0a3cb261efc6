//! The menu-bar status item, as the state its menu shows.
//!
//! The platform objects (status item, menu, menu items) mirror this state;
//! the functions here decide what it becomes. Before `install` and after
//! `uninstall` there is no tray, and every update is a no-op.

use vstd::prelude::*;
use crate::text::string_from_str;

verus! {

/// A request raised by a menu click, or by a language switch asking for the
/// whole menu to be re-localised.
#[derive(Clone, Copy, Debug, PartialEq, Eq, Structural)]
pub enum TrayEvent {
    Open,
    Quit,
    /// Re-title Open / Quit and the device rows for the current locale.
    Refresh,
}

/// How many device rows the menu can show at once.
pub const MAX_DEVICE_ROWS: usize = 8;

/// One device row of the menu.
#[derive(Debug)]
pub struct MenuRow {
    pub title: String,
    pub hidden: bool,
}

/// What an installed tray shows.
#[derive(Debug)]
pub struct TrayItems {
    /// Whether the status-item icon is shown.
    pub visible: bool,
    pub open_title: String,
    pub quit_title: String,
    /// One per device row; spare rows hidden.
    pub rows: Vec<MenuRow>,
}

/// The tray slot: `None` before `install` and after `uninstall`.
#[derive(Debug)]
pub struct Tray {
    pub state: Option<TrayItems>,
}

impl Tray {
    /// No tray installed yet.
    pub fn new() -> (r: Tray)
        ensures
            r.state is None,
    {
        Tray { state: None }
    }

    /// An installed tray has exactly [`MAX_DEVICE_ROWS`] rows.
    pub open spec fn wf(&self) -> bool {
        self.state matches Some(s) ==> s.rows@.len() == MAX_DEVICE_ROWS
    }
}

/// Row `i` after a device-lines update with `lines` (`idle` shown when there
/// are none), given its title before.
pub open spec fn row_after(lines: Seq<Seq<char>>, idle: Seq<char>, i: int, old_title: Seq<char>) -> (
    Seq<char>,
    bool,
) {
    if lines.len() == 0 {
        if i == 0 {
            (idle, false)
        } else {
            (old_title, true)
        }
    } else if i < lines.len() {
        (lines[i], false)
    } else {
        (old_title, true)
    }
}

/// Builds and shows the status item and its menu: the first row shows
/// `idle`, the other rows are empty and hidden. A no-op if already installed.
pub fn install(tray: &mut Tray, idle: &str, open_title: &str, quit_title: &str)
    requires
        old(tray).wf(),
    ensures
        final(tray).wf(),
        old(tray).state is Some ==> final(tray).state == old(tray).state,
        old(tray).state is None ==> (final(tray).state matches Some(s) && {
            &&& s.visible
            &&& s.open_title@ == open_title@
            &&& s.quit_title@ == quit_title@
            &&& s.rows@[0].title@ == idle@ && !s.rows@[0].hidden
            &&& forall|i: int|
                1 <= i < MAX_DEVICE_ROWS ==> #[trigger] s.rows@[i].title@ == Seq::<char>::empty()
                    && s.rows@[i].hidden
        }),
{
    if tray.state.is_some() {
        return;
    }
    let mut rows: Vec<MenuRow> = Vec::new();
    let mut i: usize = 0;
    while i < MAX_DEVICE_ROWS
        invariant
            i <= MAX_DEVICE_ROWS,
            rows@.len() == i,
            i > 0 ==> rows@[0].title@ == idle@ && !rows@[0].hidden,
            forall|k: int| 1 <= k < i ==> #[trigger] rows@[k].title@ == Seq::<char>::empty() && rows@[k].hidden,
        decreases MAX_DEVICE_ROWS - i,
    {
        if i == 0 {
            rows.push(MenuRow { title: string_from_str(idle), hidden: false });
        } else {
            rows.push(MenuRow { title: String::new(), hidden: true });
        }
        i += 1;
    }
    tray.state = Some(
        TrayItems {
            visible: true,
            open_title: string_from_str(open_title),
            quit_title: string_from_str(quit_title),
            rows,
        },
    );
}

/// Removes the status item; every later update is a no-op until the next
/// `install`.
pub fn uninstall(tray: &mut Tray)
    ensures
        final(tray).state is None,
{
    tray.state = None;
}

/// Shows or hides the status-item icon without tearing it down.
pub fn set_visible(tray: &mut Tray, visible: bool)
    requires
        old(tray).wf(),
    ensures
        final(tray).wf(),
        old(tray).state is None ==> final(tray).state is None,
        old(tray).state matches Some(o) ==> (final(tray).state matches Some(s) && s.visible == visible
            && s.rows == o.rows && s.open_title == o.open_title && s.quit_title == o.quit_title),
{
    if let Some(state) = &mut tray.state {
        state.visible = visible;
    }
}

/// Updates the device rows: one per line, spare rows hidden; without lines
/// the first row shows `idle` and the rest are hidden.
pub fn set_device_lines(tray: &mut Tray, lines: &Vec<String>, idle: &str)
    requires
        old(tray).wf(),
    ensures
        final(tray).wf(),
        old(tray).state is None ==> final(tray).state is None,
        old(tray).state matches Some(o) ==> (final(tray).state matches Some(s) && {
            &&& s.visible == o.visible
            &&& s.open_title == o.open_title
            &&& s.quit_title == o.quit_title
            &&& forall|i: int|
                0 <= i < MAX_DEVICE_ROWS ==> (#[trigger] s.rows@[i].title@, s.rows@[i].hidden)
                    == row_after(lines@.map_values(|l: String| l@), idle@, i, o.rows@[i].title@)
        }),
{
    if let Some(state) = &mut tray.state {
        let ghost ls = lines@.map_values(|l: String| l@);
        let ghost old_rows = state.rows@;
        let ghost old_visible = state.visible;
        let ghost old_open = state.open_title;
        let ghost old_quit = state.quit_title;
        let n = state.rows.len();
        let mut i: usize = 0;
        while i < n
            invariant
                n == MAX_DEVICE_ROWS,
                state.rows@.len() == n,
                old_rows.len() == n,
                state.visible == old_visible,
                state.open_title == old_open,
                state.quit_title == old_quit,
                ls == lines@.map_values(|l: String| l@),
                i <= n,
                forall|k: int|
                    0 <= k < i ==> (#[trigger] state.rows@[k].title@, state.rows@[k].hidden)
                        == row_after(ls, idle@, k, old_rows[k].title@),
                forall|k: int| i <= k < n ==> #[trigger] state.rows@[k] == old_rows[k],
            decreases n - i,
        {
            let (title, hidden) = if lines.len() == 0 {
                if i == 0 {
                    (string_from_str(idle), false)
                } else {
                    (string_from_str(state.rows[i].title.as_str()), true)
                }
            } else if i < lines.len() {
                (string_from_str(lines[i].as_str()), false)
            } else {
                (string_from_str(state.rows[i].title.as_str()), true)
            };
            state.rows.set(i, MenuRow { title, hidden });
            i += 1;
        }
        proof {
            assert(state.rows@.len() == MAX_DEVICE_ROWS);
        }
    }
}

/// Re-titles the Open / Quit items for the current locale.
pub fn refresh_labels(tray: &mut Tray, open_title: &str, quit_title: &str)
    requires
        old(tray).wf(),
    ensures
        final(tray).wf(),
        old(tray).state is None ==> final(tray).state is None,
        old(tray).state matches Some(o) ==> (final(tray).state matches Some(s) && s.open_title@
            == open_title@ && s.quit_title@ == quit_title@ && s.rows == o.rows && s.visible
            == o.visible),
{
    if let Some(state) = &mut tray.state {
        state.open_title = string_from_str(open_title);
        state.quit_title = string_from_str(quit_title);
    }
}

/// The event that asks for a full re-localisation: `Refresh` while a tray is
/// installed, nothing otherwise.
pub fn request_refresh(tray: &Tray) -> (r: Option<TrayEvent>)
    ensures
        r == if tray.state is Some {
            Some(TrayEvent::Refresh)
        } else {
            None::<TrayEvent>
        },
{
    if tray.state.is_some() {
        Some(TrayEvent::Refresh)
    } else {
        None
    }
}

/// macOS application activation policies.
#[derive(Clone, Copy, Debug, PartialEq, Eq, Structural)]
pub enum ActivationPolicy {
    /// Dock and app menu-bar presence.
    Regular,
    /// Hidden from the Dock and app menu bar; the status item stays.
    Accessory,
}

impl ActivationPolicy {
    /// The AppKit `NSApplicationActivationPolicy` value.
    pub fn as_raw(self) -> (r: i64)
        ensures
            r == match self {
                ActivationPolicy::Regular => 0i64,
                ActivationPolicy::Accessory => 1i64,
            },
    {
        match self {
            ActivationPolicy::Regular => 0,
            ActivationPolicy::Accessory => 1,
        }
    }
}


/// After a device-lines update with at least one line, exactly the first
/// `min(lines, MAX_DEVICE_ROWS)` rows are shown, each with its line.
pub proof fn lemma_rows_shown(lines: Seq<Seq<char>>, idle: Seq<char>, i: int, old_title: Seq<char>)
    requires
        lines.len() > 0,
        0 <= i < MAX_DEVICE_ROWS,
    ensures
        !row_after(lines, idle, i, old_title).1 <==> i < lines.len(),
        i < lines.len() ==> row_after(lines, idle, i, old_title).0 == lines[i],
{
}

/// Without lines, only the first row is shown, and it shows the idle text.
pub proof fn lemma_idle_row(idle: Seq<char>, i: int, old_title: Seq<char>)
    requires
        0 <= i < MAX_DEVICE_ROWS,
    ensures
        !row_after(Seq::empty(), idle, i, old_title).1 <==> i == 0,
        i == 0 ==> row_after(Seq::empty(), idle, i, old_title).0 == idle,
{
}

} // verus!
