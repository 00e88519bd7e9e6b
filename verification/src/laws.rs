use vstd::prelude::*;

use crate::colour::Colour;
use crate::colours;
use crate::renderer::Panel;
use crate::renderer::col_cmds;
use crate::renderer::line_h_cmds;
use crate::renderer::line_v_cmds;
use crate::terminal::Command;
use crate::terminal::Cursor;
use crate::terminal::Event;
use crate::terminal::cells_of;
use crate::terminal::col_events;
use crate::terminal::cursor_after;
use crate::terminal::event_cells;
use crate::terminal::events_from;
use crate::terminal::hseg;
use crate::terminal::lemma_cells_concat;
use crate::terminal::lemma_cells_single;
use crate::terminal::lemma_col_cells;
use crate::terminal::lemma_interp_concat;
use crate::terminal::painted;
use crate::terminal::step;
use crate::terminal::vseg;
use crate::text::spaces_seq;
use crate::vector::Vector2D;

verus! {

/// Law: for any panel and local position, `set_cursor` is the exact
/// translation `start_point + position + (2, 1)`: from any cursor state it
/// leaves the cursor on exactly that absolute cell, and writes nothing.
pub proof fn lemma_set_cursor_translation(p: Panel, position: Vector2D<u32>, cur: Cursor)
    ensures
        cursor_after(seq![p.cursor_cmd(position)], cur) == (Cursor {
            x: p.start_point.x + position.x + 2,
            y: p.start_point.y + position.y + 1,
        }),
        events_from(seq![p.cursor_cmd(position)], cur) == Seq::<Event>::empty(),
{
    reveal_with_fuel(events_from, 6);
    reveal_with_fuel(cursor_after, 6);
    assert(seq![p.cursor_cmd(position)].drop_first() =~= Seq::<Command>::empty());
}

/// Law: in `draw_string`, a vertical position equal to the panel's content
/// height always faults, and the last content row (height minus one) never
/// does, whenever the height is at least one.
pub proof fn lemma_vertical_fault_boundary(p: Panel, position: Vector2D<u32>)
    ensures
        position.y == p.size.y ==> p.vertical_fault(position),
        p.size.y >= 1 && position.y + 1 == p.size.y ==> !p.vertical_fault(position),
{
}

/// A horizontal run writes exactly one event: its blank cells, leftwards
/// from `(x, y)`.
pub proof fn lemma_line_h_interp(colour: Colour, x: int, y: int, length: nat, cur: Cursor)
    ensures
        events_from(line_h_cmds(colour, x, y, length), cur) == seq![
            Event { x, y, text: spaces_seq(length) },
        ],
{
    reveal_with_fuel(events_from, 6);
    reveal_with_fuel(cursor_after, 6);
    let c1 = Command::SetBg(colour);
    let c2 = Command::MoveTo { col: x + 1, row: y + 1 };
    let c3 = Command::Write(spaces_seq(length));
    let c4 = Command::SetBg(colours::spec_clear_colour());
    let s0 = line_h_cmds(colour, x, y, length);
    let s1 = seq![c2, c3, c4];
    let s2 = seq![c3, c4];
    let s3 = seq![c4];
    assert(s0.first() == c1 && s0.drop_first() =~= s1);
    assert(s1.first() == c2 && s1.drop_first() =~= s2);
    assert(s2.first() == c3 && s2.drop_first() =~= s3);
    assert(s3.first() == c4 && s3.drop_first() =~= Seq::<Command>::empty());
    let m = Cursor { x, y };
    assert(step(cur, c1) == cur);
    assert(step(cur, c2) == m);
    assert(events_from(s3, step(m, c3)) =~= Seq::<Event>::empty());
    assert(events_from(s2, m) =~= seq![Event { x, y, text: spaces_seq(length) }]);
    assert(events_from(s0, cur) =~= seq![Event { x, y, text: spaces_seq(length) }]);
}

/// The per-row commands of a vertical run write one single-cell event per
/// row, top to bottom.
pub proof fn lemma_col_interp(x: int, y: int, height: nat, cur: Cursor)
    ensures
        events_from(col_cmds(x, y, height), cur) == col_events(x, y, height),
    decreases height,
{
    reveal_with_fuel(events_from, 6);
    reveal_with_fuel(cursor_after, 6);
    if height == 0 {
        assert(col_events(x, y, 0) =~= Seq::<Event>::empty());
    } else {
        let hm1 = (height - 1) as nat;
        let a = col_cmds(x, y, hm1);
        let c1 = Command::MoveTo { col: x + 1, row: y + height };
        let c2 = Command::Write(seq![' ']);
        let tail = seq![c1, c2];
        lemma_col_interp(x, y, hm1, cur);
        lemma_interp_concat(a, tail, cur);
        let cc = cursor_after(a, cur);
        let m = Cursor { x, y: y + height - 1 };
        assert(tail.first() == c1 && tail.drop_first() =~= seq![c2]);
        assert(step(cc, c1) == m);
        assert(seq![c2].drop_first() =~= Seq::<Command>::empty());
        assert(events_from(seq![c2], m) =~= seq![Event { x, y: y + height - 1, text: seq![' '] }]);
        assert(events_from(tail, cc) =~= seq![Event { x, y: y + height - 1, text: seq![' '] }]);
        assert(col_events(x, y, height) =~= col_events(x, y, hm1).push(
            Event { x, y: y + height - 1, text: seq![' '] },
        ));
        assert(events_from(col_cmds(x, y, height), cur) =~= col_events(x, y, height));
    }
}

/// A vertical run writes one single-cell event per row, top to bottom.
pub proof fn lemma_line_v_interp(colour: Colour, x: int, y: int, height: nat, cur: Cursor)
    ensures
        events_from(line_v_cmds(colour, x, y, height), cur) == col_events(x, y, height),
{
    reveal_with_fuel(events_from, 6);
    reveal_with_fuel(cursor_after, 6);
    let s0 = line_v_cmds(colour, x, y, height);
    let a = col_cmds(x, y, height);
    let tail = seq![Command::SetBg(colours::spec_clear_colour())];
    assert(s0.first() == Command::SetBg(colour));
    assert(s0.drop_first() =~= a + tail);
    lemma_interp_concat(a, tail, cur);
    lemma_col_interp(x, y, height, cur);
    let cc = cursor_after(a, cur);
    assert(tail.drop_first() =~= Seq::<Command>::empty());
    assert(events_from(tail, cc) =~= Seq::<Event>::empty());
    assert(events_from(s0, cur) =~= col_events(x, y, height));
}

/// The cells of the panel's whole footprint: the `(w + 4) x (h + 2)`
/// bounding box, border margin included.
pub open spec fn frame_cells(p: Panel) -> Set<(int, int)> {
    Set::new(
        |q: (int, int)|
            {
                &&& p.start_point.x <= q.0 < p.start_point.x + p.size.x + 4
                &&& p.start_point.y <= q.1 < p.start_point.y + p.size.y + 2
            },
    )
}

/// The cells of the panel's content area: the `w x h` box at the `(2, 1)`
/// margin offset inside the footprint.
pub open spec fn content_cells(p: Panel) -> Set<(int, int)> {
    Set::new(
        |q: (int, int)|
            {
                &&& p.start_point.x + 2 <= q.0 < p.start_point.x + 2 + p.size.x
                &&& p.start_point.y + 1 <= q.1 < p.start_point.y + 1 + p.size.y
            },
    )
}

/// Law: `border` on a panel of size `(w, h)` touches exactly the perimeter
/// cells of the `(w + 4) x (h + 2)` bounding box — every footprint cell
/// outside the content area — and no content cell, from any cursor state.
pub proof fn lemma_border_touches_margin(p: Panel, cur: Cursor)
    ensures
        painted(p.border_cmds(), cur) == frame_cells(p).difference(content_cells(p)),
{
    let x = p.start_point.x as int;
    let y = p.start_point.y as int;
    let w = p.size.x as int;
    let h = p.size.y as int;
    let b = colours::spec_border_colour();
    let a1 = line_h_cmds(b, x, y, (w + 2) as nat);
    let a2 = line_v_cmds(b, x, y, (h + 2) as nat);
    let a3 = line_v_cmds(b, x + 1, y, (h + 2) as nat);
    let a4 = line_h_cmds(b, x, y + h + 1, (w + 2) as nat);
    let a5 = line_v_cmds(b, x + w + 2, y, (h + 2) as nat);
    let a6 = line_v_cmds(b, x + w + 3, y, (h + 2) as nat);
    let e1 = seq![Event { x, y, text: spaces_seq((w + 2) as nat) }];
    let e2 = col_events(x, y, (h + 2) as nat);
    let e3 = col_events(x + 1, y, (h + 2) as nat);
    let e4 = seq![Event { x, y: y + h + 1, text: spaces_seq((w + 2) as nat) }];
    let e5 = col_events(x + w + 2, y, (h + 2) as nat);
    let e6 = col_events(x + w + 3, y, (h + 2) as nat);

    lemma_line_h_interp(b, x, y, (w + 2) as nat, cur);
    let s2 = a1 + a2;
    lemma_interp_concat(a1, a2, cur);
    lemma_line_v_interp(b, x, y, (h + 2) as nat, cursor_after(a1, cur));
    assert(events_from(s2, cur) =~= e1 + e2);
    let s3 = s2 + a3;
    lemma_interp_concat(s2, a3, cur);
    lemma_line_v_interp(b, x + 1, y, (h + 2) as nat, cursor_after(s2, cur));
    assert(events_from(s3, cur) =~= e1 + e2 + e3);
    let s4 = s3 + a4;
    lemma_interp_concat(s3, a4, cur);
    lemma_line_h_interp(b, x, y + h + 1, (w + 2) as nat, cursor_after(s3, cur));
    assert(events_from(s4, cur) =~= e1 + e2 + e3 + e4);
    let s5 = s4 + a5;
    lemma_interp_concat(s4, a5, cur);
    lemma_line_v_interp(b, x + w + 2, y, (h + 2) as nat, cursor_after(s4, cur));
    assert(events_from(s5, cur) =~= e1 + e2 + e3 + e4 + e5);
    let s6 = s5 + a6;
    lemma_interp_concat(s5, a6, cur);
    lemma_line_v_interp(b, x + w + 3, y, (h + 2) as nat, cursor_after(s5, cur));
    assert(events_from(s6, cur) =~= e1 + e2 + e3 + e4 + e5 + e6);
    assert(p.border_cmds() =~= s6);

    lemma_cells_single(Event { x, y, text: spaces_seq((w + 2) as nat) });
    assert(cells_of(e1) =~= hseg(x, y, w + 2));
    lemma_col_cells(x, y, (h + 2) as nat);
    lemma_col_cells(x + 1, y, (h + 2) as nat);
    lemma_cells_single(Event { x, y: y + h + 1, text: spaces_seq((w + 2) as nat) });
    assert(cells_of(e4) =~= hseg(x, y + h + 1, w + 2));
    lemma_col_cells(x + w + 2, y, (h + 2) as nat);
    lemma_col_cells(x + w + 3, y, (h + 2) as nat);
    lemma_cells_concat(e1, e2);
    lemma_cells_concat(e1 + e2, e3);
    lemma_cells_concat(e1 + e2 + e3, e4);
    lemma_cells_concat(e1 + e2 + e3 + e4, e5);
    lemma_cells_concat(e1 + e2 + e3 + e4 + e5, e6);
    let u = hseg(x, y, w + 2) + vseg(x, y, h + 2) + vseg(x + 1, y, h + 2) + hseg(
        x,
        y + h + 1,
        w + 2,
    ) + vseg(x + w + 2, y, h + 2) + vseg(x + w + 3, y, h + 2);
    assert(painted(p.border_cmds(), cur) =~= u);
    assert(u =~= frame_cells(p).difference(content_cells(p)));
}

/// A stack of `h` blank rows of width `w`, each one cell below the last,
/// covers exactly the `w x h` box whose top-left cell is `(x, y)`.
proof fn lemma_row_stack_cells(x: int, y: int, w: nat, h: nat)
    ensures
        cells_of(Seq::new(h, |i: int| Event { x, y: y + i, text: spaces_seq(w) })) == Set::new(
            |q: (int, int)| x <= q.0 < x + w && y <= q.1 < y + h,
        ),
{
    let events = Seq::new(h, |i: int| Event { x, y: y + i, text: spaces_seq(w) });
    let grid = Set::new(|q: (int, int)| x <= q.0 < x + w && y <= q.1 < y + h);
    assert forall|q: (int, int)| grid.contains(q) implies cells_of(events).contains(q) by {
        let i = q.1 - y;
        assert(event_cells(events[i]).contains(q));
    }
    assert(cells_of(events) =~= grid);
}

/// Drawing the first `n` blank rows of `clear` writes one full-width event
/// per row, top to bottom, at the content area's absolute position.
proof fn lemma_clear_rows_interp(p: Panel, n: nat, cur: Cursor)
    requires
        n <= p.size.y,
    ensures
        events_from(p.rows_cmds(n), cur) == Seq::new(
            n,
            |i: int| Event {
                x: p.start_point.x + 2,
                y: p.start_point.y + 1 + i,
                text: spaces_seq(p.size.x as nat),
            },
        ),
    decreases n,
{
    let rows = |n: nat|
        Seq::new(
            n,
            |i: int| Event {
                x: p.start_point.x + 2,
                y: p.start_point.y + 1 + i,
                text: spaces_seq(p.size.x as nat),
            },
        );
    if n == 0 {
        assert(rows(0) =~= Seq::<Event>::empty());
    } else {
        let nm1 = (n - 1) as nat;
        let a = p.rows_cmds(nm1);
        let pos_n = Vector2D { x: 0u32, y: (n - 1) as u32 };
        let tail = p.string_cmds(spaces_seq(p.size.x as nat), pos_n);
        lemma_clear_rows_interp(p, nm1, cur);
        lemma_interp_concat(a, tail, cur);
        lemma_string_interp(p, spaces_seq(p.size.x as nat), pos_n, cursor_after(a, cur));
        assert(p.abs_x(pos_n) == p.start_point.x + 2);
        assert(p.abs_y(pos_n) == p.start_point.y + 1 + n - 1);
        assert(rows(n) =~= rows(nm1).push(
            Event {
                x: p.start_point.x + 2,
                y: p.start_point.y + 1 + n - 1,
                text: spaces_seq(p.size.x as nat),
            },
        ));
        assert(events_from(p.rows_cmds(n), cur) =~= rows(n));
    }
}

/// Law: `clear` fills exactly the content area — every content cell and no
/// cell of the border margin or beyond — from any cursor state.
pub proof fn lemma_clear_fills_content(p: Panel, colour: Colour, cur: Cursor)
    ensures
        painted(p.clear_cmds(colour), cur) == content_cells(p),
{
    reveal_with_fuel(events_from, 3);
    let s0 = p.clear_cmds(colour);
    let a = p.rows_cmds(p.size.y as nat);
    assert(s0.first() == Command::SetBg(colour));
    assert(s0.drop_first() =~= a);
    lemma_clear_rows_interp(p, p.size.y as nat, cur);
    lemma_row_stack_cells(
        p.start_point.x + 2,
        p.start_point.y + 1,
        p.size.x as nat,
        p.size.y as nat,
    );
    assert(painted(s0, cur) =~= content_cells(p));
}

/// One `draw_string` writes exactly one event: its text at the absolute
/// translation of its local position.
pub proof fn lemma_string_interp(p: Panel, text: Seq<char>, position: Vector2D<u32>, cur: Cursor)
    ensures
        events_from(p.string_cmds(text, position), cur) == seq![
            Event { x: p.abs_x(position), y: p.abs_y(position), text },
        ],
{
    reveal_with_fuel(events_from, 6);
    reveal_with_fuel(cursor_after, 6);
    let c1 = p.cursor_cmd(position);
    let c2 = Command::Write(text);
    let s0 = p.string_cmds(text, position);
    let m = Cursor { x: p.abs_x(position), y: p.abs_y(position) };
    assert(s0.first() == c1 && s0.drop_first() =~= seq![c2]);
    assert(step(cur, c1) == m);
    assert(seq![c2].drop_first() =~= Seq::<Command>::empty());
    assert(events_from(seq![c2], m) =~= seq![Event { x: m.x, y: m.y, text }]);
    assert(events_from(s0, cur) =~= seq![Event { x: m.x, y: m.y, text }]);
}

/// Drawing the first `n` sprite rows writes one event per row: row `i`'s
/// text at the absolute translation of `position + (0, i)`.
pub proof fn lemma_sprite_rows_interp(
    p: Panel,
    position: Vector2D<u32>,
    lines: Seq<Seq<char>>,
    n: nat,
    cur: Cursor,
)
    requires
        position.y + n <= u32::MAX,
        n <= lines.len(),
    ensures
        events_from(p.sprite_rows_cmds(position, lines, n), cur) == Seq::new(
            n,
            |i: int| Event { x: p.abs_x(position), y: p.abs_y(position) + i, text: lines[i] },
        ),
    decreases n,
{
    let rows = |n: nat|
        Seq::new(
            n,
            |i: int| Event { x: p.abs_x(position), y: p.abs_y(position) + i, text: lines[i] },
        );
    if n == 0 {
        assert(rows(0) =~= Seq::<Event>::empty());
    } else {
        let nm1 = (n - 1) as nat;
        let a = p.sprite_rows_cmds(position, lines, nm1);
        let pos_n = Vector2D { x: position.x, y: (position.y + n - 1) as u32 };
        let tail = p.string_cmds(lines[n - 1], pos_n);
        lemma_sprite_rows_interp(p, position, lines, nm1, cur);
        lemma_interp_concat(a, tail, cur);
        lemma_string_interp(p, lines[n - 1], pos_n, cursor_after(a, cur));
        assert(p.abs_x(pos_n) == p.abs_x(position));
        assert(p.abs_y(pos_n) == p.abs_y(position) + n - 1);
        assert(rows(n) =~= rows(nm1).push(
            Event {
                x: p.abs_x(position),
                y: p.abs_y(position) + n - 1,
                text: lines[n - 1],
            },
        ));
        assert(events_from(p.sprite_rows_cmds(position, lines, n), cur) =~= rows(n));
    }
}

/// Drawing the first `n` sprite rows emits exactly the commands of `n`
/// sequential `draw_string` calls, one per row, concatenated in order.
proof fn lemma_sprite_rows_flatten(
    p: Panel,
    position: Vector2D<u32>,
    lines: Seq<Seq<char>>,
    n: nat,
)
    ensures
        p.sprite_rows_cmds(position, lines, n) == Seq::new(
            n,
            |i: int|
                p.string_cmds(lines[i], Vector2D { x: position.x, y: (position.y + i) as u32 }),
        ).flatten_alt(),
    decreases n,
{
    let f = |i: int|
        p.string_cmds(lines[i], Vector2D { x: position.x, y: (position.y + i) as u32 });
    if n == 0 {
        assert(Seq::new(0, f).flatten_alt() =~= Seq::<Command>::empty());
    } else {
        lemma_sprite_rows_flatten(p, position, lines, (n - 1) as nat);
        assert(Seq::new(n, f).drop_last() =~= Seq::new((n - 1) as nat, f));
        assert(Seq::new(n, f).last() == f(n - 1));
        assert(p.sprite_rows_cmds(position, lines, n) =~= Seq::new(n, f).flatten_alt());
    }
}

/// Law: `draw_sprite` with an N-row sprite at local position `pos` emits
/// exactly the commands of N sequential `draw_string` calls at
/// `pos, pos + (0, 1), ..., pos + (0, N - 1)`, in order — the same cursor
/// placements and the same bytes, with nothing before, between or after.
pub proof fn lemma_sprite_matches_strings(p: Panel, position: Vector2D<u32>, lines: Seq<Seq<char>>)
    ensures
        p.sprite_cmds(position, lines) == Seq::new(
            lines.len(),
            |i: int|
                p.string_cmds(lines[i], Vector2D { x: position.x, y: (position.y + i) as u32 }),
        ).flatten(),
{
    let rows = Seq::new(
        lines.len(),
        |i: int|
            p.string_cmds(lines[i], Vector2D { x: position.x, y: (position.y + i) as u32 }),
    );
    lemma_sprite_rows_flatten(p, position, lines, lines.len());
    rows.lemma_flatten_and_flatten_alt_are_equivalent();
}

} // verus!
