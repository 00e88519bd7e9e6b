use vstd::prelude::*;

use crate::colour::Colour;
use crate::colour::bg_escape;
use crate::colour::fg_escape;
use crate::text::dec_seq;

verus! {

/// One drawing command of the physical output stream.
///
/// `MoveTo` carries the 1-indexed physical column and row, exactly as the
/// cursor-positioning escape sequence does. `Write` carries the characters
/// handed to the stream at the current cursor position.
pub ghost enum Command {
    SetFg(Colour),
    SetBg(Colour),
    MoveTo { col: int, row: int },
    Write(Seq<char>),
}

/// The escape bytes one command puts on the stream.
pub open spec fn render_cmd(c: Command) -> Seq<char> {
    match c {
        Command::SetFg(col) => fg_escape(col),
        Command::SetBg(col) => bg_escape(col),
        Command::MoveTo { col, row } => seq!['\u{1b}', '['] + dec_seq(row as nat) + seq![';']
            + dec_seq(col as nat) + seq!['H'],
        Command::Write(text) => text,
    }
}

/// The escape bytes a whole command history puts on the stream.
pub open spec fn render_cmds(cmds: Seq<Command>) -> Seq<char>
    decreases cmds.len(),
{
    if cmds.len() == 0 {
        Seq::empty()
    } else {
        render_cmds(cmds.drop_last()) + render_cmd(cmds.last())
    }
}

pub proof fn lemma_render_push(cmds: Seq<Command>, c: Command)
    ensures
        render_cmds(cmds.push(c)) == render_cmds(cmds) + render_cmd(c),
{
    assert(cmds.push(c).drop_last() =~= cmds);
}

/// The physical cursor, 0-indexed.
#[verifier::ext_equal]
pub ghost struct Cursor {
    pub x: int,
    pub y: int,
}

/// One run of characters arriving on the grid: `text` written leftwards from
/// the 0-indexed cell `(x, y)`.
#[verifier::ext_equal]
pub ghost struct Event {
    pub x: int,
    pub y: int,
    pub text: Seq<char>,
}

/// How one command moves the cursor: a cursor move goes to the named cell,
/// and a write advances the cursor by the characters written, as the
/// terminal does.
pub open spec fn step(cur: Cursor, c: Command) -> Cursor {
    match c {
        Command::SetFg(_) => cur,
        Command::SetBg(_) => cur,
        Command::MoveTo { col, row } => Cursor { x: col - 1, y: row - 1 },
        Command::Write(text) => Cursor { x: cur.x + text.len(), y: cur.y },
    }
}

/// The cursor after a command history runs, starting from `cur`.
pub open spec fn cursor_after(cmds: Seq<Command>, cur: Cursor) -> Cursor
    decreases cmds.len(),
{
    if cmds.len() == 0 {
        cur
    } else {
        cursor_after(cmds.drop_first(), step(cur, cmds.first()))
    }
}

/// The runs of characters a command history writes to the grid, in order,
/// each with the cell it starts at.
pub open spec fn events_from(cmds: Seq<Command>, cur: Cursor) -> Seq<Event>
    decreases cmds.len(),
{
    if cmds.len() == 0 {
        Seq::empty()
    } else {
        let rest = events_from(cmds.drop_first(), step(cur, cmds.first()));
        match cmds.first() {
            Command::Write(text) => seq![Event { x: cur.x, y: cur.y, text }] + rest,
            _ => rest,
        }
    }
}

/// Interpretation distributes over concatenation of histories.
pub proof fn lemma_interp_concat(a: Seq<Command>, b: Seq<Command>, cur: Cursor)
    ensures
        cursor_after(a + b, cur) == cursor_after(b, cursor_after(a, cur)),
        events_from(a + b, cur) == events_from(a, cur) + events_from(b, cursor_after(a, cur)),
    decreases a.len(),
{
    if a.len() == 0 {
        assert(a + b =~= b);
        assert(events_from(a, cur) + events_from(b, cur) =~= events_from(b, cur));
    } else {
        assert((a + b).first() == a.first());
        assert((a + b).drop_first() =~= a.drop_first() + b);
        lemma_interp_concat(a.drop_first(), b, step(cur, a.first()));
        assert(events_from(a + b, cur) =~= events_from(a, cur) + events_from(
            b,
            cursor_after(a, cur),
        ));
    }
}

/// The cells one run of characters covers.
pub open spec fn event_cells(e: Event) -> Set<(int, int)> {
    Set::new(|p: (int, int)| p.1 == e.y && e.x <= p.0 < e.x + e.text.len())
}

/// All cells a sequence of runs covers.
pub open spec fn cells_of(events: Seq<Event>) -> Set<(int, int)> {
    Set::new(
        |p: (int, int)|
            exists|i: int| 0 <= i < events.len() && event_cells(#[trigger] events[i]).contains(p),
    )
}

/// The cells a command history paints, starting from any cursor.
pub open spec fn painted(cmds: Seq<Command>, cur: Cursor) -> Set<(int, int)> {
    cells_of(events_from(cmds, cur))
}

/// Covered cells distribute over concatenation of runs.
pub proof fn lemma_cells_concat(a: Seq<Event>, b: Seq<Event>)
    ensures
        cells_of(a + b) == cells_of(a) + cells_of(b),
{
    assert forall|p: (int, int)| cells_of(a + b).contains(p) implies (cells_of(a) + cells_of(
        b,
    )).contains(p) by {
        let i = choose|i: int| 0 <= i < (a + b).len() && event_cells(#[trigger] (a + b)[i]).contains(
            p,
        );
        if i < a.len() {
            assert(event_cells(a[i]).contains(p));
        } else {
            assert(event_cells(b[i - a.len()]).contains(p));
        }
    }
    assert forall|p: (int, int)| (cells_of(a) + cells_of(b)).contains(p) implies cells_of(
        a + b,
    ).contains(p) by {
        if cells_of(a).contains(p) {
            let i = choose|i: int| 0 <= i < a.len() && event_cells(#[trigger] a[i]).contains(p);
            assert(event_cells((a + b)[i]).contains(p));
        } else {
            let i = choose|i: int| 0 <= i < b.len() && event_cells(#[trigger] b[i]).contains(p);
            assert(event_cells((a + b)[a.len() + i]).contains(p));
        }
    }
    assert(cells_of(a + b) =~= cells_of(a) + cells_of(b));
}

/// The cells of a single run.
pub proof fn lemma_cells_single(e: Event)
    ensures
        cells_of(seq![e]) == event_cells(e),
{
    assert forall|p: (int, int)| event_cells(e).contains(p) implies cells_of(seq![e]).contains(
        p,
    ) by {
        assert(event_cells(seq![e][0]).contains(p));
    }
    assert(cells_of(seq![e]) =~= event_cells(e));
}

/// A horizontal run of cells: row `y`, columns `x` up to but not including
/// `x + len`.
pub open spec fn hseg(x: int, y: int, len: int) -> Set<(int, int)> {
    Set::new(|p: (int, int)| p.1 == y && x <= p.0 < x + len)
}

/// A vertical run of cells: column `x`, rows `y` up to but not including
/// `y + h`.
pub open spec fn vseg(x: int, y: int, h: int) -> Set<(int, int)> {
    Set::new(|p: (int, int)| p.0 == x && y <= p.1 < y + h)
}

/// The runs a one-cell-wide column of blank writes produces: one per row.
pub open spec fn col_events(x: int, y: int, h: nat) -> Seq<Event> {
    Seq::new(h as nat, |i: int| Event { x, y: y + i, text: seq![' '] })
}

/// A column of single-cell runs covers exactly a vertical segment.
pub proof fn lemma_col_cells(x: int, y: int, h: nat)
    ensures
        cells_of(col_events(x, y, h)) == vseg(x, y, h as int),
{
    assert forall|p: (int, int)| vseg(x, y, h as int).contains(p) implies cells_of(
        col_events(x, y, h),
    ).contains(p) by {
        let i = p.1 - y;
        assert(event_cells(col_events(x, y, h)[i]).contains(p));
    }
    assert(cells_of(col_events(x, y, h)) =~= vseg(x, y, h as int));
}

} // verus!
