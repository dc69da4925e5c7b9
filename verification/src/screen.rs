//! What the picker draws where: the message or grid above the footer, which
//! card is highlighted as the client's session, how many preview lines a card
//! shows, how a window's panes are tiled, and the text of a card's titles.
use vstd::prelude::*;

use crate::model::{App, Session, opt_view};
use crate::text::push_char;
use crate::ui::{min_int, sat_sub, truncate};

verus! {

/// The smallest screen the picker draws cards on: narrower than 20 columns or
/// lower than 6 rows, it only says that the terminal is too small.
pub fn too_small(width: u16, height: u16) -> (r: bool)
    ensures
        r == (width < 20 || height < 6),
{
    width < 20 || height < 6
}

/// What the area above the footer shows.
#[derive(Debug, Clone, PartialEq, Eq)]
pub enum GridContent {
    /// A centred message in place of the cards.
    Message(String),
    /// The cards of the zoomed-in session's windows.
    Windows,
    /// The cards of the sessions that match the search.
    Sessions,
}

/// The message shown when tmux lists no session.
pub open spec fn no_sessions_text() -> Seq<char> {
    "No tmux sessions found.\nPress q or Esc to quit."@
}

/// The message shown when the zoomed-in session has no window listed.
pub open spec fn no_windows_text() -> Seq<char> {
    "No windows in session"@
}

/// The message shown when the search matches no session.
pub open spec fn no_matches_text() -> Seq<char> {
    "No matching sessions"@
}

/// The content for `app`: the error where there is one; else a message where
/// there is no session, no listed window when zoomed in, or no matching
/// session; else the window or session cards.
pub open spec fn content_of(app: App) -> Option<Seq<char>> {
    match app.error {
        Some(e) => Some(e@),
        None => if app.sessions@.len() == 0 {
            Some(no_sessions_text())
        } else if app.zoomed() && app.windows@.len() == 0 {
            Some(no_windows_text())
        } else if !app.zoomed() && app.visible().len() == 0 {
            Some(no_matches_text())
        } else {
            None
        },
    }
}

/// Decides what the area above the footer shows.
pub fn grid_content(app: &App) -> (r: GridContent)
    ensures
        match content_of(*app) {
            Some(m) => r matches GridContent::Message(t) && t@ == m,
            None => if app.zoomed() {
                r == GridContent::Windows
            } else {
                r == GridContent::Sessions
            },
        },
{
    match &app.error {
        Some(e) => return GridContent::Message(e.clone()),
        None => {},
    }
    if app.sessions.len() == 0 {
        return GridContent::Message(String::from_str("No tmux sessions found.\nPress q or Esc to quit."));
    }
    if app.is_zoomed() {
        if app.windows.len() == 0 {
            return GridContent::Message(String::from_str("No windows in session"));
        }
        GridContent::Windows
    } else {
        if app.visible_session_count() == 0 {
            return GridContent::Message(String::from_str("No matching sessions"));
        }
        GridContent::Sessions
    }
}

/// Whether a session card is highlighted as the client's session: it is
/// attached and has the name of the session the picker runs in.
pub fn is_current_attached(session: &Session, current_session_name: &Option<String>) -> (r: bool)
    ensures
        r == (session.attached && opt_view(*current_session_name) == Some(session.name@)),
{
    if !session.attached {
        return false;
    }
    match current_session_name {
        Some(name) => crate::text::same_text(name.as_str(), session.name.as_str()),
        None => false,
    }
}

/// The index of the first preview line a card of `height` lines shows: only
/// the last lines that fit are shown.
pub fn tail_start(len: usize, height: usize) -> (r: usize)
    ensures
        r == sat_sub(len as int, height as int),
{
    if len > height {
        len - height
    } else {
        0
    }
}

/// The columns and rows a window's `count` panes are tiled in: one column for
/// one pane, two for up to four, else three; as many rows as needed.
pub open spec fn pane_columns(count: int) -> int {
    if count <= 1 {
        1
    } else if count <= 4 {
        2
    } else {
        3
    }
}

/// The tiling of a window's panes: columns, and rows enough for every pane.
pub fn pane_grid(count: usize) -> (r: (usize, usize))
    ensures
        r.0 == pane_columns(count as int),
        r.1 * r.0 >= count,
        r.1 * r.0 < count + r.0,
{
    let columns: usize = if count <= 1 {
        1
    } else if count <= 4 {
        2
    } else {
        3
    };
    let q = count / columns;
    let extra: usize = if count % columns != 0 {
        1
    } else {
        0
    };
    assert(count == columns * q + count % columns && count % columns < columns) by (nonlinear_arith)
        requires
            columns >= 1,
            q == count / columns,
    ;
    assert((q + extra) * columns == q * columns + extra * columns) by (nonlinear_arith);
    assert(q * columns <= count) by (nonlinear_arith)
        requires
            count == columns * q + count % columns,
    ;
    let rows = q + extra;
    (columns, rows)
}

/// A card's title: the name cut to leave room for the border and the icons
/// (`width - 12` characters), with a space on each side.
pub fn card_title(name: &str, width: u16) -> (r: String)
    ensures
        r@ == seq![' '] + name@.take(min_int(sat_sub(width as int, 12), name@.len() as int)) + seq![' '],
{
    let room: usize = if width > 12 {
        (width - 12) as usize
    } else {
        0
    };
    let cut = truncate(name, room);
    let mut r = String::new();
    push_char(&mut r, ' ');
    r.append(cut.as_str());
    push_char(&mut r, ' ');
    r
}

/// The glyph that stands for one window of a session or one pane of a window.
pub open spec fn icon() -> char {
    '\u{eb7f}'
}

/// `n` icons separated by spaces.
pub open spec fn icons(n: nat) -> Seq<char>
    decreases n,
{
    if n == 0 {
        Seq::empty()
    } else if n == 1 {
        seq![icon()]
    } else {
        icons((n - 1) as nat) + seq![' ', icon()]
    }
}

/// The top-right title of a card: one icon per window (or pane), separated by
/// spaces, with a space on each side.
pub fn icon_row(n: usize) -> (r: String)
    ensures
        r@ == seq![' '] + icons(n as nat) + seq![' '],
{
    let mut r = String::new();
    push_char(&mut r, ' ');
    let mut i: usize = 0;
    while i < n
        invariant
            i <= n,
            r@ == seq![' '] + icons(i as nat),
        decreases n - i,
    {
        if i > 0 {
            push_char(&mut r, ' ');
        }
        push_char(&mut r, '\u{eb7f}');
        i += 1;
        assert(r@ == seq![' '] + icons(i as nat));
    }
    push_char(&mut r, ' ');
    r
}

/// What a card shows inside its border.
#[derive(Debug, Clone, PartialEq, Eq)]
pub enum CardBody {
    /// A message in place of the preview; `alert` marks a failed capture.
    Message { text: String, alert: bool },
    /// The last lines of the session's preview.
    Lines,
    /// The window's panes, tiled.
    Panes,
}

/// The body of a card: "Preview unavailable" (an alert) where the capture
/// failed; else, with nothing captured, "No visible panes" on a window card
/// and "No visible content" on a session card; else the preview.
pub fn card_body(has_error: bool, is_window: bool, count: usize) -> (r: CardBody)
    ensures
        has_error ==> (r matches CardBody::Message { text, alert } && alert && text@
            == "Preview unavailable"@),
        !has_error && count == 0 && is_window ==> (r matches CardBody::Message { text, alert } && !alert
            && text@ == "No visible panes"@),
        !has_error && count == 0 && !is_window ==> (r matches CardBody::Message { text, alert } && !alert
            && text@ == "No visible content"@),
        !has_error && count > 0 ==> r == if is_window {
            CardBody::Panes
        } else {
            CardBody::Lines
        },
{
    if has_error {
        CardBody::Message { text: String::from_str("Preview unavailable"), alert: true }
    } else if count == 0 {
        if is_window {
            CardBody::Message { text: String::from_str("No visible panes"), alert: false }
        } else {
            CardBody::Message { text: String::from_str("No visible content"), alert: false }
        }
    } else if is_window {
        CardBody::Panes
    } else {
        CardBody::Lines
    }
}

/// How many preview lines, and how many characters of each, a card of the
/// given size shows: five rows go to the border, title and padding, four
/// columns to the border and margins.
pub fn card_text_limits(width: u16, height: u16) -> (r: (usize, usize))
    ensures
        r.0 == sat_sub(height as int, 5),
        r.1 == sat_sub(width as int, 4),
{
    let lines: usize = if height > 5 { (height - 5) as usize } else { 0 };
    let columns: usize = if width > 4 { (width - 4) as usize } else { 0 };
    (lines, columns)
}

/// How many lines, and how many characters of each, a pane's tile of the
/// given size shows inside its border.
pub fn pane_text_limits(width: u16, height: u16) -> (r: (usize, usize))
    ensures
        r.0 == sat_sub(height as int, 2),
        r.1 == sat_sub(width as int, 2),
{
    let lines: usize = if height > 2 { (height - 2) as usize } else { 0 };
    let columns: usize = if width > 2 { (width - 2) as usize } else { 0 };
    (lines, columns)
}

/// The character of a decimal digit.
pub open spec fn digit_char(d: int) -> char {
    if d == 0 {
        '0'
    } else if d == 1 {
        '1'
    } else if d == 2 {
        '2'
    } else if d == 3 {
        '3'
    } else if d == 4 {
        '4'
    } else if d == 5 {
        '5'
    } else if d == 6 {
        '6'
    } else if d == 7 {
        '7'
    } else if d == 8 {
        '8'
    } else {
        '9'
    }
}

/// The decimal digits of `n`, without leading zeros.
pub open spec fn decimal(n: nat) -> Seq<char>
    decreases n,
{
    if n < 10 {
        seq![digit_char(n as int)]
    } else {
        decimal(n / 10).push(digit_char((n % 10) as int))
    }
}

fn digit(d: u32) -> (c: char)
    requires
        d < 10,
    ensures
        c == digit_char(d as int),
{
    if d == 0 {
        '0'
    } else if d == 1 {
        '1'
    } else if d == 2 {
        '2'
    } else if d == 3 {
        '3'
    } else if d == 4 {
        '4'
    } else if d == 5 {
        '5'
    } else if d == 6 {
        '6'
    } else if d == 7 {
        '7'
    } else if d == 8 {
        '8'
    } else {
        '9'
    }
}

/// Appends the decimal digits of `n`.
pub fn push_decimal(s: &mut String, n: u32)
    ensures
        final(s)@ == old(s)@ + decimal(n as nat),
    decreases n,
{
    if n >= 10 {
        push_decimal(s, n / 10);
    }
    push_char(s, digit(n % 10));
}

/// A window's label: its index, a colon, and its name, as tmux writes it.
pub open spec fn window_label(index: u32, name: Seq<char>) -> Seq<char> {
    decimal(index as nat) + seq![':'] + name
}

/// A window card's title: the window's index and name (`3:editor`), cut to
/// leave room for the border and the icons, with a space on each side.
pub fn window_card_title(index: u32, name: &str, width: u16) -> (r: String)
    ensures
        r@ == seq![' '] + window_label(index, name@).take(
            min_int(sat_sub(width as int, 12), window_label(index, name@).len() as int),
        ) + seq![' '],
{
    let mut label = String::new();
    push_decimal(&mut label, index);
    push_char(&mut label, ':');
    label.append(name);
    assert(label@ =~= window_label(index, name@));
    card_title(label.as_str(), width)
}

} // verus!
