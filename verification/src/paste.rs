//! Where a bracketed paste goes: leaked key reports are replayed as keys,
//! an open form takes the text, a searchable select appends it to its query
//! (control characters dropped, the query capped), and otherwise the
//! composer inserts it with its line structure kept.
use vstd::prelude::*;
use crate::keys::{decode_leaked_csi_u_keys, leaked_keys, KeyEvent, KeyEventKind};
use crate::text::{chars_of, char_is_control, is_control, string_from};

verus! {

/// The longest a select's search query grows by pasting.
pub const QUERY_LIMIT: usize = 256;

/// Where a paste goes.
pub enum PasteRoute {
    /// The paste was key reports: handle these keys (releases left out).
    Keys(Vec<KeyEvent>),
    /// The open form takes the text.
    Form(String),
    /// Append this to the searchable select's query.
    Search(String),
    /// A select without search takes nothing.
    Dropped,
    /// Insert this into the composer.
    Composer(String),
}

/// `s` with every CRLF pair and every lone CR turned into LF.
pub open spec fn unix_newlines(s: Seq<char>) -> Seq<char>
    decreases s.len(),
{
    if s.len() == 0 {
        Seq::empty()
    } else if s[0] == '\r' && s.len() > 1 && s[1] == '\n' {
        seq!['\n'] + unix_newlines(s.skip(2))
    } else if s[0] == '\r' {
        seq!['\n'] + unix_newlines(s.skip(1))
    } else {
        seq![s[0]] + unix_newlines(s.skip(1))
    }
}

/// The characters of `s` that are not control characters.
pub open spec fn printable(s: Seq<char>) -> Seq<char>
    decreases s.len(),
{
    if s.len() == 0 {
        Seq::empty()
    } else {
        let rest = printable(s.drop_last());
        if is_control(s.last()) { rest } else { rest.push(s.last()) }
    }
}

/// The keys of a replayed paste that are not releases.
pub open spec fn pressed(keys: Seq<KeyEvent>) -> Seq<KeyEvent>
    decreases keys.len(),
{
    if keys.len() == 0 {
        Seq::empty()
    } else {
        let rest = pressed(keys.drop_last());
        if keys.last().kind == KeyEventKind::Release { rest } else { rest.push(keys.last()) }
    }
}

/// What a paste of `text` does. `select` describes an open select overlay:
/// whether it searches, and how many characters its query holds.
pub open spec fn paste_of(text: Seq<char>, form_open: bool, select: Option<(bool, nat)>) -> PasteView {
    if text.len() > 0 && leaked_keys(text) is Some {
        PasteView::Keys(pressed(leaked_keys(text)->0))
    } else if form_open {
        PasteView::Form(text)
    } else {
        match select {
            Some((true, used)) => {
                let room = if used >= QUERY_LIMIT { 0 } else { (QUERY_LIMIT - used) as nat };
                let p = printable(text);
                PasteView::Search(if p.len() <= room { p } else { p.take(room as int) })
            },
            Some((false, _)) => PasteView::Dropped,
            None => PasteView::Composer(unix_newlines(text)),
        }
    }
}

pub enum PasteView {
    Keys(Seq<KeyEvent>),
    Form(Seq<char>),
    Search(Seq<char>),
    Dropped,
    Composer(Seq<char>),
}

pub open spec fn route_view(r: PasteRoute) -> PasteView {
    match r {
        PasteRoute::Keys(k) => PasteView::Keys(k@),
        PasteRoute::Form(t) => PasteView::Form(t@),
        PasteRoute::Search(t) => PasteView::Search(t@),
        PasteRoute::Dropped => PasteView::Dropped,
        PasteRoute::Composer(t) => PasteView::Composer(t@),
    }
}

fn to_unix_newlines(text: &str) -> (r: String)
    ensures
        r@ == unix_newlines(text@),
{
    let v = chars_of(text);
    let mut out: Vec<char> = Vec::new();
    let mut i: usize = 0;
    assert(v@.skip(0) =~= v@);
    assert(out@ + unix_newlines(v@) =~= unix_newlines(v@));
    while i < v.len()
        invariant
            i <= v.len(),
            out@ + unix_newlines(v@.skip(i as int)) == unix_newlines(v@),
        decreases v.len() - i,
    {
        let ghost rest = v@.skip(i as int);
        assert(rest[0] == v@[i as int]);
        if v[i] == '\r' && i + 1 < v.len() && v[i + 1] == '\n' {
            assert(rest[1] == v@[i + 1]);
            assert(rest.skip(2) =~= v@.skip(i + 2));
            out.push('\n');
            i = i + 2;
        } else {
            assert(rest.skip(1) =~= v@.skip(i + 1));
            if v[i] == '\r' {
                out.push('\n');
            } else {
                out.push(v[i]);
            }
            i = i + 1;
        }
    }
    assert(v@.skip(i as int) =~= Seq::<char>::empty());
    assert(out@ + Seq::<char>::empty() =~= out@);
    string_from(out.as_slice())
}

fn search_text(text: &str, used: usize) -> (r: String)
    ensures
        ({
            let room = if used >= QUERY_LIMIT { 0 } else { (QUERY_LIMIT - used) as nat };
            let p = printable(text@);
            r@ == (if p.len() <= room { p } else { p.take(room as int) })
        }),
{
    let room: usize = if used >= QUERY_LIMIT { 0 } else { QUERY_LIMIT - used };
    let v = chars_of(text);
    let mut kept: Vec<char> = Vec::new();
    let mut i: usize = 0;
    while i < v.len()
        invariant
            i <= v.len(),
            kept@ == printable(v@.take(i as int)),
        decreases v.len() - i,
    {
        assert(v@.take(i + 1).drop_last() =~= v@.take(i as int));
        if !char_is_control(v[i]) {
            kept.push(v[i]);
        }
        i = i + 1;
    }
    assert(v@.take(v.len() as int) =~= v@);
    if kept.len() <= room {
        string_from(kept.as_slice())
    } else {
        let mut cut: Vec<char> = Vec::new();
        let mut j: usize = 0;
        while j < room
            invariant
                j <= room < kept.len(),
                cut@ == kept@.take(j as int),
            decreases room - j,
        {
            cut.push(kept[j]);
            assert(kept@.take(j + 1) =~= kept@.take(j as int).push(kept@[j as int]));
            j = j + 1;
        }
        string_from(cut.as_slice())
    }
}

fn keep_pressed(keys: Vec<KeyEvent>) -> (r: Vec<KeyEvent>)
    ensures
        r@ == pressed(keys@),
{
    let mut out: Vec<KeyEvent> = Vec::new();
    let mut i: usize = 0;
    while i < keys.len()
        invariant
            i <= keys.len(),
            out@ == pressed(keys@.take(i as int)),
        decreases keys.len() - i,
    {
        assert(keys@.take(i + 1).drop_last() =~= keys@.take(i as int));
        let k = keys[i];
        if k.kind != KeyEventKind::Release {
            out.push(k);
        }
        i = i + 1;
    }
    assert(keys@.take(keys.len() as int) =~= keys@);
    out
}

/// Where a paste of `text` goes, given whether a form is open and, for an
/// open select overlay, whether it searches and how long its query is.
pub fn paste_route(text: &str, form_open: bool, select: Option<(bool, usize)>) -> (r: PasteRoute)
    ensures
        route_view(r) == paste_of(text@, form_open, match select {
            Some((s, n)) => Some((s, n as nat)),
            None => None,
        }),
{
    match decode_leaked_csi_u_keys(text) {
        Some(keys) => {
            return PasteRoute::Keys(keep_pressed(keys));
        },
        None => {},
    }
    if form_open {
        return PasteRoute::Form(text.to_owned());
    }
    match select {
        Some((true, used)) => PasteRoute::Search(search_text(text, used)),
        Some((false, _)) => PasteRoute::Dropped,
        None => PasteRoute::Composer(to_unix_newlines(text)),
    }
}

} // verus!
