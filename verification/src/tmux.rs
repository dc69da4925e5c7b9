//! Reading what tmux prints: the session and window listings (one record per
//! line, fields separated by U+001F or, from older formats, `:`), pane
//! captures, and the messages for failed tmux commands.
use vstd::prelude::*;

use crate::model::{PanePreview, Session, SessionView, Window, WindowView, lines_view, session_views};
use crate::text::{
    clone_opt, from_chars, index_of, line_ranges, lines, parse_decimal, parse_u32, same_text, split_ranges,
    splitn, to_chars, trim, trim_end, trim_end_range, trim_range,
};

verus! {

/// The field separator of the current listing formats.
pub const FIELD_SEPARATOR: char = '\u{1f}';

/// The field separator of older listing formats.
pub const LEGACY_FIELD_SEPARATOR: char = ':';

/// The separator a line uses: U+001F where the line holds one, else `:`.
pub open spec fn separator_of(line: Seq<char>) -> char {
    if line.contains(FIELD_SEPARATOR) {
        FIELD_SEPARATOR
    } else {
        LEGACY_FIELD_SEPARATOR
    }
}

/// A flag field reads as set unless it is `0` or `false`.
pub open spec fn flag_set(field: Seq<char>) -> bool {
    field != "0"@ && field != "false"@
}

/// The session a line of `list-sessions` output describes, if any: fields id,
/// name, attached, window count, created, last activity; a blank line or one
/// without a non-empty name describes none.
pub open spec fn session_line(raw: Seq<char>) -> Option<SessionView> {
    let line = trim(raw);
    let p = splitn(line, 6, separator_of(line));
    if line.len() == 0 || p.len() < 2 || p[1].len() == 0 {
        None
    } else {
        Some(
            SessionView {
                id: p[0],
                name: p[1],
                attached: p.len() > 2 && flag_set(p[2]),
                window_count: if p.len() > 3 {
                    match parse_u32(p[3]) {
                        Some(v) => v,
                        None => 0,
                    }
                } else {
                    0
                },
                current_window: None,
                last_activity: if p.len() > 5 && p[5].len() > 0 {
                    Some(p[5])
                } else {
                    None
                },
                preview: Seq::empty(),
                preview_error: None,
            },
        )
    }
}

/// The window a line of `list-windows` output describes, if any: fields id,
/// name, active, index; a blank line or one without a non-empty name describes
/// none.
pub open spec fn window_line(raw: Seq<char>) -> Option<WindowView> {
    let line = trim(raw);
    let p = splitn(line, 5, separator_of(line));
    if line.len() == 0 || p.len() < 2 || p[1].len() == 0 {
        None
    } else {
        Some(
            WindowView {
                id: p[0],
                index: if p.len() > 3 {
                    match parse_u32(p[3]) {
                        Some(v) => v,
                        None => 0,
                    }
                } else {
                    0
                },
                name: p[1],
                active: p.len() > 2 && flag_set(p[2]) && p[2].len() > 0,
                last_activity: None,
                panes: Seq::empty(),
                preview_error: None,
            },
        )
    }
}

/// The views of a sequence of windows.
pub open spec fn window_views(s: Seq<Window>) -> Seq<WindowView> {
    s.map_values(|w: Window| w@)
}

/// Whether `v[lo..hi]` holds the characters of `lit`.
fn range_is(v: &Vec<char>, lo: usize, hi: usize, lit: &str) -> (r: bool)
    requires
        lo <= hi <= v.len(),
    ensures
        r == (v@.subrange(lo as int, hi as int) == lit@),
{
    let l = to_chars(lit);
    if hi - lo != l.len() {
        return false;
    }
    let mut i: usize = 0;
    while i < l.len()
        invariant
            lo <= hi <= v.len(),
            hi - lo == l@.len(),
            l@ == lit@,
            i <= l@.len(),
            forall|j: int| 0 <= j < i ==> v@[lo + j] == l@[j],
        decreases l@.len() - i,
    {
        if v[lo + i] != l[i] {
            assert(v@.subrange(lo as int, hi as int)[i as int] != lit@[i as int]);
            return false;
        }
        i += 1;
    }
    assert(v@.subrange(lo as int, hi as int) =~= lit@);
    true
}

/// The separator `v[lo..hi]` uses, as `separator_of` states it.
fn separator_in(v: &Vec<char>, lo: usize, hi: usize) -> (c: char)
    requires
        lo <= hi <= v.len(),
    ensures
        c == separator_of(v@.subrange(lo as int, hi as int)),
{
    let mut i = lo;
    while i < hi
        invariant
            lo <= i <= hi <= v.len(),
            forall|j: int| lo <= j < i ==> v@[j] != FIELD_SEPARATOR,
        decreases hi - i,
    {
        if v[i] == FIELD_SEPARATOR {
            assert(v@.subrange(lo as int, hi as int)[i - lo] == FIELD_SEPARATOR);
            return FIELD_SEPARATOR;
        }
        i += 1;
    }
    assert forall|j: int| 0 <= j < hi - lo implies v@.subrange(lo as int, hi as int)[j]
        != FIELD_SEPARATOR by {
        assert(v@.subrange(lo as int, hi as int)[j] == v@[lo + j]);
    }
    LEGACY_FIELD_SEPARATOR
}

/// The separator a line uses: U+001F where the line holds one, else `:`.
pub fn detect_separator(line: &str) -> (c: char)
    ensures
        c == separator_of(line@),
{
    let v = to_chars(line);
    let c = separator_in(&v, 0, v.len());
    assert(v@.subrange(0, v@.len() as int) =~= v@);
    c
}

/// The session that `v[lo..hi]`, one line of `list-sessions` output, describes.
fn parse_session_line(v: &Vec<char>, lo: usize, hi: usize) -> (r: Option<Session>)
    requires
        lo <= hi <= v.len(),
    ensures
        match r {
            Some(s) => session_line(v@.subrange(lo as int, hi as int)) == Some(s@),
            None => session_line(v@.subrange(lo as int, hi as int)) is None,
        },
{
    let (a, b) = trim_range(v, lo, hi);
    if a == b {
        return None;
    }
    let sep = separator_in(v, a, b);
    let parts = split_ranges(v, a, b, 6, sep);
    let ghost line = v@.subrange(a as int, b as int);
    let ghost p = splitn(line, 6, sep);
    if parts.len() < 2 || parts[1].0 == parts[1].1 {
        return None;
    }
    let id = from_chars(v, parts[0].0, parts[0].1);
    let name = from_chars(v, parts[1].0, parts[1].1);
    let attached = parts.len() > 2 && !range_is(v, parts[2].0, parts[2].1, "0") && !range_is(
        v,
        parts[2].0,
        parts[2].1,
        "false",
    );
    let window_count = if parts.len() > 3 {
        match parse_decimal(v, parts[3].0, parts[3].1, u32::MAX) {
            Some(n) => n,
            None => 0,
        }
    } else {
        0
    };
    let last_activity = if parts.len() > 5 && parts[5].0 < parts[5].1 {
        Some(from_chars(v, parts[5].0, parts[5].1))
    } else {
        None
    };
    let s = Session {
        id,
        name,
        attached,
        window_count,
        current_window: None,
        last_activity,
        preview: Vec::new(),
        preview_error: None,
    };
    assert(s@.preview =~= Seq::<Seq<char>>::empty());
    Some(s)
}

/// The window that `v[lo..hi]`, one line of `list-windows` output, describes.
fn parse_window_line(v: &Vec<char>, lo: usize, hi: usize) -> (r: Option<Window>)
    requires
        lo <= hi <= v.len(),
    ensures
        match r {
            Some(w) => window_line(v@.subrange(lo as int, hi as int)) == Some(w@),
            None => window_line(v@.subrange(lo as int, hi as int)) is None,
        },
{
    let (a, b) = trim_range(v, lo, hi);
    if a == b {
        return None;
    }
    let sep = separator_in(v, a, b);
    let parts = split_ranges(v, a, b, 5, sep);
    if parts.len() < 2 || parts[1].0 == parts[1].1 {
        return None;
    }
    let id = from_chars(v, parts[0].0, parts[0].1);
    let name = from_chars(v, parts[1].0, parts[1].1);
    let active = parts.len() > 2 && !range_is(v, parts[2].0, parts[2].1, "0") && !range_is(
        v,
        parts[2].0,
        parts[2].1,
        "false",
    ) && parts[2].0 < parts[2].1;
    let index = if parts.len() > 3 {
        match parse_decimal(v, parts[3].0, parts[3].1, u32::MAX) {
            Some(n) => n,
            None => 0,
        }
    } else {
        0
    };
    let w = Window {
        id,
        index,
        name,
        active,
        last_activity: None,
        panes: Vec::new(),
        preview_error: None,
    };
    assert(w@.panes =~= Seq::<crate::model::PanePreviewView>::empty());
    Some(w)
}

/// The sessions that `list-sessions` output describes, one per line that
/// describes one, in order.
pub fn parse_sessions(output: &str) -> (r: Vec<Session>)
    ensures
        session_views(r@) == lines(output@).filter_map(|l: Seq<char>| session_line(l)),
{
    let v = to_chars(output);
    let ranges = line_ranges(&v);
    let ghost ls = lines(output@);
    let ghost f = |l: Seq<char>| session_line(l);
    let mut r: Vec<Session> = Vec::new();
    let mut k: usize = 0;
    assert(ls.take(0).filter_map(f) =~= Seq::<SessionView>::empty());
    while k < ranges.len()
        invariant
            v@ == output@,
            ls == lines(output@),
            f == (|l: Seq<char>| session_line(l)),
            ranges@.len() == ls.len(),
            forall|j: int|
                0 <= j < ranges@.len() ==> {
                    &&& (#[trigger] ranges@[j]).0 <= ranges@[j].1 <= v@.len()
                    &&& ls[j] == v@.subrange(ranges@[j].0 as int, ranges@[j].1 as int)
                },
            k <= ranges@.len(),
            session_views(r@) == ls.take(k as int).filter_map(f),
        decreases ranges@.len() - k,
    {
        let (lo, hi) = ranges[k];
        let parsed = parse_session_line(&v, lo, hi);
        let ghost old_r = r@;
        assert(ls.take(k + 1).drop_last() =~= ls.take(k as int));
        assert(ls.take(k + 1).last() == ls[k as int]);
        match parsed {
            Some(s) => {
                r.push(s);
                assert(session_views(r@) =~= session_views(old_r) + seq![s@]);
            },
            None => {},
        }
        k += 1;
    }
    assert(ls.take(k as int) =~= ls);
    r
}

/// The windows that `list-windows` output describes, one per line that
/// describes one, in order.
pub fn parse_windows(output: &str) -> (r: Vec<Window>)
    ensures
        window_views(r@) == lines(output@).filter_map(|l: Seq<char>| window_line(l)),
{
    let v = to_chars(output);
    let ranges = line_ranges(&v);
    let ghost ls = lines(output@);
    let ghost f = |l: Seq<char>| window_line(l);
    let mut r: Vec<Window> = Vec::new();
    let mut k: usize = 0;
    assert(ls.take(0).filter_map(f) =~= Seq::<WindowView>::empty());
    while k < ranges.len()
        invariant
            v@ == output@,
            ls == lines(output@),
            f == (|l: Seq<char>| window_line(l)),
            ranges@.len() == ls.len(),
            forall|j: int|
                0 <= j < ranges@.len() ==> {
                    &&& (#[trigger] ranges@[j]).0 <= ranges@[j].1 <= v@.len()
                    &&& ls[j] == v@.subrange(ranges@[j].0 as int, ranges@[j].1 as int)
                },
            k <= ranges@.len(),
            window_views(r@) == ls.take(k as int).filter_map(f),
        decreases ranges@.len() - k,
    {
        let (lo, hi) = ranges[k];
        let parsed = parse_window_line(&v, lo, hi);
        let ghost old_r = r@;
        assert(ls.take(k + 1).drop_last() =~= ls.take(k as int));
        assert(ls.take(k + 1).last() == ls[k as int]);
        match parsed {
            Some(w) => {
                r.push(w);
                assert(window_views(r@) =~= window_views(old_r) + seq![w@]);
            },
            None => {},
        }
        k += 1;
    }
    assert(ls.take(k as int) =~= ls);
    r
}

/// `s` without its trailing empty lines.
pub open spec fn drop_trailing_blank(s: Seq<Seq<char>>) -> Seq<Seq<char>>
    decreases s.len(),
{
    if s.len() > 0 && s.last().len() == 0 {
        drop_trailing_blank(s.drop_last())
    } else {
        s
    }
}

/// The preview of captured pane output: its lines without trailing
/// whitespace, without trailing empty lines, and at most the last `max_lines`
/// of them.
pub open spec fn preview_lines(output: Seq<char>, max_lines: nat) -> Seq<Seq<char>> {
    let kept = drop_trailing_blank(lines(output).map_values(|l: Seq<char>| trim_end(l)));
    kept.skip(
        if kept.len() > max_lines {
            kept.len() - max_lines
        } else {
            0
        },
    )
}

proof fn lemma_drop_trailing_blank_len(s: Seq<Seq<char>>)
    ensures
        drop_trailing_blank(s).len() <= s.len(),
        drop_trailing_blank(s) == s.take(drop_trailing_blank(s).len() as int),
    decreases s.len(),
{
    if s.len() > 0 && s.last().len() == 0 {
        lemma_drop_trailing_blank_len(s.drop_last());
        let d = drop_trailing_blank(s.drop_last());
        assert(s.drop_last().take(d.len() as int) =~= s.take(d.len() as int));
    } else {
        assert(s.take(s.len() as int) =~= s);
    }
}

/// The preview of captured pane output: its lines without trailing
/// whitespace, without trailing empty lines, and at most the last `max_lines`
/// of them.
pub fn trim_preview(output: &str, max_lines: usize) -> (r: Vec<String>)
    ensures
        lines_view(r@) == preview_lines(output@, max_lines as nat),
{
    let v = to_chars(output);
    let ranges = line_ranges(&v);
    let ghost t = lines(output@).map_values(|l: Seq<char>| trim_end(l));
    let n = ranges.len();
    let mut ends: Vec<usize> = Vec::new();
    let mut k: usize = 0;
    while k < n
        invariant
            v@ == output@,
            n == ranges@.len(),
            n == lines(output@).len(),
            t == lines(output@).map_values(|l: Seq<char>| trim_end(l)),
            forall|j: int|
                0 <= j < ranges@.len() ==> {
                    &&& (#[trigger] ranges@[j]).0 <= ranges@[j].1 <= v@.len()
                    &&& lines(output@)[j] == v@.subrange(ranges@[j].0 as int, ranges@[j].1 as int)
                },
            k <= n,
            ends@.len() == k,
            forall|j: int|
                0 <= j < k ==> ranges@[j].0 <= #[trigger] ends@[j] <= ranges@[j].1 && t[j]
                    == v@.subrange(ranges@[j].0 as int, ends@[j] as int),
        decreases n - k,
    {
        let e = trim_end_range(&v, ranges[k].0, ranges[k].1);
        ends.push(e);
        k += 1;
    }
    let mut m = n;
    assert(t.take(n as int) =~= t);
    while m > 0 && ranges[m - 1].0 == ends[m - 1]
        invariant
            m <= n,
            n == t.len(),
            ends@.len() == n,
            ranges@.len() == n,
            forall|j: int|
                0 <= j < n ==> ranges@[j].0 <= #[trigger] ends@[j] <= ranges@[j].1 && t[j]
                    == v@.subrange(ranges@[j].0 as int, ends@[j] as int),
            forall|j: int| 0 <= j < n ==> (#[trigger] ranges@[j]).1 <= v@.len(),
            drop_trailing_blank(t) == drop_trailing_blank(t.take(m as int)),
        decreases m,
    {
        assert(t.take(m as int).drop_last() =~= t.take(m - 1));
        assert(t.take(m as int).last() == t[m - 1]);
        assert(t[m - 1] == v@.subrange(ranges@[m - 1].0 as int, ends@[m - 1] as int));
        m -= 1;
    }
    proof {
        if m > 0 {
            assert(t.take(m as int).last() == t[m - 1]);
        }
        assert(drop_trailing_blank(t.take(m as int)) == t.take(m as int));
    }
    let start = if m > max_lines {
        m - max_lines
    } else {
        0
    };
    let mut r: Vec<String> = Vec::new();
    let mut i = start;
    while i < m
        invariant
            start <= i <= m <= n,
            n == t.len(),
            ends@.len() == n,
            ranges@.len() == n,
            forall|j: int|
                0 <= j < n ==> ranges@[j].0 <= #[trigger] ends@[j] <= ranges@[j].1 && t[j]
                    == v@.subrange(ranges@[j].0 as int, ends@[j] as int),
            forall|j: int| 0 <= j < n ==> (#[trigger] ranges@[j]).1 <= v@.len(),
            lines_view(r@) == t.take(m as int).subrange(start as int, i as int),
        decreases m - i,
    {
        let line = from_chars(&v, ranges[i].0, ends[i]);
        assert(t[i as int] == v@.subrange(ranges@[i as int].0 as int, ends@[i as int] as int));
        assert(t.take(m as int)[i as int] == line@);
        let ghost old_r = r@;
        r.push(line);
        assert(lines_view(r@) =~= lines_view(old_r).push(line@));
        assert(lines_view(r@) =~= t.take(m as int).subrange(start as int, i + 1));
        i += 1;
    }
    assert(t.take(m as int).subrange(start as int, m as int) =~= t.take(m as int).skip(start as int));
    r
}

/// Why the session listing could not be read.
#[derive(Debug, Clone, Copy, PartialEq, Eq)]
pub enum ListingError {
    /// The output is not blank, yet no line of it describes a session.
    UnexpectedFormat,
}

impl ListingError {
    /// The message for this error.
    pub fn message(&self) -> (r: String)
        ensures
            r@ == "tmux list-sessions returned output in an unexpected format"@,
    {
        String::from_str("tmux list-sessions returned output in an unexpected format")
    }
}

/// The sessions of `list-sessions` output, or an error where the output is not
/// blank but describes no session.
pub fn parse_sessions_output(output: &str) -> (r: Result<Vec<Session>, ListingError>)
    ensures
        match r {
            Ok(sessions) => session_views(sessions@) == lines(output@).filter_map(
                |l: Seq<char>| session_line(l),
            ) && !(sessions@.len() == 0 && trim(output@).len() > 0),
            Err(e) => e == ListingError::UnexpectedFormat && lines(output@).filter_map(
                |l: Seq<char>| session_line(l),
            ).len() == 0 && trim(output@).len() > 0,
        },
{
    let sessions = parse_sessions(output);
    let v = to_chars(output);
    let (a, b) = trim_range(&v, 0, v.len());
    assert(v@.subrange(0, v@.len() as int) =~= output@);
    if sessions.len() == 0 && a < b {
        return Err(ListingError::UnexpectedFormat);
    }
    Ok(sessions)
}

/// Whether a preview should be captured for the session `session_id`: not for
/// the session the picker itself runs in.
pub fn should_capture_preview(session_id: &str, current_session_id: Option<&str>) -> (r: bool)
    ensures
        r == !(current_session_id matches Some(c) && c@ == session_id@),
{
    match current_session_id {
        None => true,
        Some(c) => !same_text(c, session_id),
    }
}

/// The message for a failed tmux command: `message`, followed by `": "` and
/// the command's error output where that is not blank once trimmed.
pub fn command_error_message(message: &str, stderr: &str) -> (r: String)
    ensures
        r@ == if trim(stderr@).len() == 0 {
            message@
        } else {
            message@ + ": "@ + trim(stderr@)
        },
{
    let v = to_chars(stderr);
    let (a, b) = trim_range(&v, 0, v.len());
    assert(v@.subrange(0, v@.len() as int) =~= stderr@);
    let mut r = String::from_str(message);
    if a < b {
        let detail = from_chars(&v, a, b);
        r.append(": ");
        r.append(detail.as_str());
    }
    r
}

/// The text shown in place of the preview of the session the picker runs in.
pub fn preview_disabled_message() -> (r: String)
    ensures
        r@ == "Current session preview disabled"@,
{
    String::from_str("Current session preview disabled")
}

/// Fills in a listed session: its active window, and its preview from a pane
/// capture (`None` where the capture was skipped because the picker runs in
/// that session, else the captured lines or the capture's error message).
pub fn fill_session(
    session: &mut Session,
    current_window: Option<String>,
    capture: Option<Result<Vec<String>, String>>,
)
    ensures
        final(session).id == old(session).id,
        final(session).name == old(session).name,
        final(session).attached == old(session).attached,
        final(session).window_count == old(session).window_count,
        final(session).last_activity == old(session).last_activity,
        final(session).current_window == current_window,
        match capture {
            None => final(session)@.preview.len() == 0 && opt_seq(final(session).preview_error) == Some(
                "Current session preview disabled"@,
            ),
            Some(Ok(lines)) => final(session).preview@ == lines@ && final(session).preview_error is None,
            Some(Err(e)) => final(session)@.preview.len() == 0 && final(session).preview_error == Some(e),
        },
{
    session.current_window = current_window;
    match capture {
        None => {
            session.preview = Vec::new();
            session.preview_error = Some(preview_disabled_message());
        },
        Some(Ok(lines)) => {
            session.preview = lines;
            session.preview_error = None;
        },
        Some(Err(e)) => {
            session.preview = Vec::new();
            session.preview_error = Some(e);
        },
    }
}

/// Fills in a listed window's preview from its pane captures: `None` where
/// the capture was skipped because the window belongs to the session the
/// picker runs in (see `should_capture_preview`), else the captured panes or
/// the capture's error message.
pub fn fill_window(window: &mut Window, capture: Option<Result<Vec<PanePreview>, String>>)
    ensures
        final(window).id == old(window).id,
        final(window).name == old(window).name,
        final(window).index == old(window).index,
        final(window).active == old(window).active,
        final(window).last_activity == old(window).last_activity,
        match capture {
            None => final(window).panes@.len() == 0 && opt_seq(final(window).preview_error) == Some(
                "Current session preview disabled"@,
            ),
            Some(Ok(panes)) => final(window).panes@ == panes@ && final(window).preview_error is None,
            Some(Err(e)) => final(window).panes@.len() == 0 && final(window).preview_error == Some(e),
        },
{
    match capture {
        None => {
            window.panes = Vec::new();
            window.preview_error = Some(preview_disabled_message());
        },
        Some(Ok(panes)) => {
            window.panes = panes;
            window.preview_error = None;
        },
        Some(Err(e)) => {
            window.panes = Vec::new();
            window.preview_error = Some(e);
        },
    }
}

/// The view of an optional string.
pub open spec fn opt_seq(o: Option<String>) -> Option<Seq<char>> {
    match o {
        Some(s) => Some(s@),
        None => None,
    }
}

} // verus!
