use term_render::colour::Colour;
use term_render::colours;
use term_render::renderer::Panel;
use term_render::renderer::Renderer;
use term_render::sprite::Sprite;
use term_render::vector::Vector2D;

fn fresh_renderer() -> Renderer {
    let mut r = Renderer::new(Vector2D::new(8u32, 4u32));
    r.take_output();
    r
}

#[test]
fn vector_new_and_zero() {
    let v = Vector2D::new(3u32, 9u32);
    assert_eq!(v.x, 3);
    assert_eq!(v.y, 9);
    let z = Vector2D::<u32>::zero();
    assert_eq!(z, Vector2D::new(0u32, 0u32));
    let zi = Vector2D::<i32>::zero();
    assert_eq!(zi, Vector2D::new(0i32, 0i32));
}

#[test]
fn vector_add_is_componentwise() {
    let a = Vector2D::new(3u32, 9u32);
    let b = Vector2D::new(10u32, 20u32);
    assert_eq!(a.add(b), Vector2D::new(13u32, 29u32));

    let c = Vector2D::new(-5i32, 7i32);
    let d = Vector2D::new(2i32, -9i32);
    assert_eq!(c.add(d), Vector2D::new(-3i32, -2i32));
}

#[test]
fn vector_add_assign_is_componentwise() {
    let mut a = Vector2D::new(1u32, 2u32);
    a.add_assign(Vector2D::new(4u32, 5u32));
    assert_eq!(a, Vector2D::new(5u32, 7u32));

    let mut b = Vector2D::new(20i32, 25i32);
    b.add_assign(Vector2D::new(-1i32, 3i32));
    assert_eq!(b, Vector2D::new(19i32, 28i32));
}

#[test]
fn colour_bg_escape_golden() {
    // The fixed, documented escape literal for the clear background colour.
    let s = Colour::new(25, 20, 70).ansi_bg_string();
    assert_eq!(s, "\u{1b}[48;2;25;20;70m");
}

#[test]
fn colour_fg_escape_golden() {
    let s = Colour::new(0, 255, 7).ansi_text_string();
    assert_eq!(s, "\u{1b}[38;2;0;255;7m");
}

#[test]
fn colour_constants() {
    assert_eq!(colours::clear_colour(), Colour::new(25, 20, 70));
    assert_eq!(colours::border_colour(), Colour::new(20, 20, 20));
}

#[test]
fn renderer_new_registers_main_and_debug() {
    // An (80, 24) renderer holds exactly the two fixed panels, and the debug
    // panel sits immediately to the right of the main panel's footprint.
    let r = Renderer::new(Vector2D::new(80u32, 24u32));
    assert_eq!(r.panels.len(), 2);
    let main = *r.panel("main");
    assert_eq!(main.start_point, Vector2D::new(0u32, 0u32));
    assert_eq!(main.size, Vector2D::new(80u32, 24u32));
    let debug = *r.panel("debug");
    assert_eq!(debug.start_point.x, 82);
    assert_eq!(debug.start_point.y, 0);
    assert_eq!(debug.size, Vector2D::new(20u32, 24u32));
}

#[test]
fn renderer_new_emits_output() {
    let mut r = Renderer::new(Vector2D::new(8u32, 4u32));
    let out = r.take_output();
    // construction clears both panels first: the stream opens with the clear
    // background escape, and draining leaves the buffer empty
    assert!(out.starts_with("\u{1b}[48;2;25;20;70m"));
    assert!(!out.is_empty());
    assert!(r.take_output().is_empty());
}

#[test]
fn add_panel_last_insert_wins() {
    let mut r = fresh_renderer();
    let replacement = Panel::new(Vector2D::new(3u32, 3u32), Vector2D::new(2u32, 2u32));
    r.add_panel("main", replacement);
    // re-registering a name replaces its panel and keeps names unique
    assert_eq!(r.panels.len(), 2);
    assert_eq!(*r.panel("main"), replacement);
    let other = Panel::new(Vector2D::new(1u32, 0u32), Vector2D::new(4u32, 4u32));
    r.add_panel("side", other);
    assert_eq!(r.panels.len(), 3);
    assert_eq!(*r.panel("side"), other);
    assert_eq!(*r.panel("main"), replacement);
}

#[test]
fn set_cursor_location_is_one_indexed() {
    let mut r = fresh_renderer();
    r.set_cursor_location(Vector2D::new(4u32, 9u32));
    assert_eq!(r.take_output(), "\u{1b}[10;5H");
}

#[test]
fn set_text_and_bg_colour_emit_escapes() {
    let mut r = fresh_renderer();
    r.set_text_colour(&Colour::new(1, 2, 3));
    r.set_bg_colour(&Colour::new(200, 0, 50));
    assert_eq!(r.take_output(), "\u{1b}[38;2;1;2;3m\u{1b}[48;2;200;0;50m");
}

#[test]
fn set_cursor_applies_margin_translation() {
    // absolute = start_point + position + (2, 1), then 1-indexed on the wire
    let mut r = fresh_renderer();
    let p = Panel::new(Vector2D::new(5u32, 3u32), Vector2D::new(10u32, 10u32));
    p.set_cursor(&mut r, Vector2D::new(2u32, 4u32));
    assert_eq!(r.take_output(), "\u{1b}[9;10H");
}

#[test]
fn draw_string_moves_then_writes() {
    let mut r = fresh_renderer();
    let p = Panel::new(Vector2D::new(0u32, 0u32), Vector2D::new(10u32, 5u32));
    p.draw_string(&mut r, "hi", Vector2D::new(0u32, 0u32));
    assert_eq!(r.take_output(), "\u{1b}[2;3Hhi");
}

#[test]
fn draw_string_on_last_row_never_faults() {
    // position.y == size.y - 1 is in bounds for any height >= 1
    let mut r = fresh_renderer();
    let p = Panel::new(Vector2D::new(0u32, 0u32), Vector2D::new(10u32, 1u32));
    p.draw_string(&mut r, "edge", Vector2D::new(0u32, 0u32));
    assert_eq!(r.take_output(), "\u{1b}[2;3Hedge");
}

#[test]
fn draw_line_h_exact_bytes() {
    let mut r = fresh_renderer();
    let p = Panel::new(Vector2D::new(0u32, 0u32), Vector2D::new(4u32, 4u32));
    p.draw_line_h(&mut r, &Colour::new(1, 2, 3), Vector2D::new(0u32, 0u32), 3);
    assert_eq!(
        r.take_output(),
        "\u{1b}[48;2;1;2;3m\u{1b}[1;1H   \u{1b}[48;2;25;20;70m"
    );
}

#[test]
fn draw_line_v_exact_bytes() {
    let mut r = fresh_renderer();
    let p = Panel::new(Vector2D::new(0u32, 0u32), Vector2D::new(4u32, 4u32));
    p.draw_line_v(&mut r, &Colour::new(9, 8, 7), Vector2D::new(2u32, 1u32), 2);
    assert_eq!(
        r.take_output(),
        "\u{1b}[48;2;9;8;7m\u{1b}[2;3H \u{1b}[3;3H \u{1b}[48;2;25;20;70m"
    );
}

#[test]
fn border_is_the_six_documented_lines() {
    // top, two left edges, bottom, two right edges, in that order, in the
    // border colour, each restoring the clear background
    let mut drawn = fresh_renderer();
    let p = Panel::new(Vector2D::new(1u32, 2u32), Vector2D::new(3u32, 2u32));
    p.border(&mut drawn);

    let mut expected = fresh_renderer();
    let b = colours::border_colour();
    let (w, h) = (p.size.x, p.size.y);
    let sp = p.start_point;
    p.draw_line_h(&mut expected, &b, sp, w + 2);
    p.draw_line_v(&mut expected, &b, sp, h + 2);
    p.draw_line_v(&mut expected, &b, sp.add(Vector2D::new(1, 0)), h + 2);
    p.draw_line_h(&mut expected, &b, sp.add(Vector2D::new(0, h + 1)), w + 2);
    p.draw_line_v(&mut expected, &b, sp.add(Vector2D::new(w + 2, 0)), h + 2);
    p.draw_line_v(&mut expected, &b, sp.add(Vector2D::new(w + 3, 0)), h + 2);

    assert_eq!(drawn.take_output(), expected.take_output());
}

#[test]
fn clear_blanks_every_content_row() {
    let mut r = fresh_renderer();
    let p = Panel::new(Vector2D::new(0u32, 0u32), Vector2D::new(2u32, 2u32));
    p.clear(&mut r, &Colour::new(5, 6, 7));
    assert_eq!(
        r.take_output(),
        "\u{1b}[48;2;5;6;7m\u{1b}[2;3H  \u{1b}[3;3H  "
    );
}

#[test]
fn draw_sprite_matches_sequential_draw_strings() {
    // an N-row sprite produces exactly the cursor placements and text of N
    // draw_string calls at p, p+(0,1), ..., p+(0,N-1)
    let p = Panel::new(Vector2D::new(2u32, 1u32), Vector2D::new(10u32, 6u32));
    let pos = Vector2D::new(1u32, 2u32);
    let lines = vec![String::from("<o>"), String::from("/|\\"), String::from(" W ")];
    let sprite = Sprite::new(pos, lines.clone());

    let mut drawn = fresh_renderer();
    p.draw_sprite(&mut drawn, &sprite);

    let mut expected = fresh_renderer();
    for (i, line) in lines.iter().enumerate() {
        p.draw_string(&mut expected, line, pos.add(Vector2D::new(0, i as u32)));
    }

    assert_eq!(drawn.take_output(), expected.take_output());
}

#[test]
fn draw_sprite_with_no_rows_draws_nothing() {
    // a sprite without rows emits nothing, wherever it is positioned
    let mut r = fresh_renderer();
    let p = Panel::new(Vector2D::new(0u32, 0u32), Vector2D::new(4u32, 4u32));
    let sprite = Sprite::new(Vector2D::new(0u32, 100u32), Vec::new());
    p.draw_sprite(&mut r, &sprite);
    assert!(r.take_output().is_empty());
}

#[test]
fn sprite_keeps_position_and_rows() {
    let sprite = Sprite::new(Vector2D::new(4u32, 5u32), vec![String::from("ab")]);
    assert_eq!(sprite.position, Vector2D::new(4u32, 5u32));
    assert_eq!(sprite.render_data().len(), 1);
    assert_eq!(sprite.render_data()[0], "ab");
}

#[test]
fn output_keeps_bytes_until_taken() {
    let mut r = fresh_renderer();
    r.set_cursor_location(Vector2D::new(0u32, 0u32));
    assert_eq!(r.output().as_str(), "\u{1b}[1;1H");
    r.set_cursor_location(Vector2D::new(1u32, 0u32));
    assert_eq!(r.output().as_str(), "\u{1b}[1;1H\u{1b}[1;2H");
    assert_eq!(r.take_output(), "\u{1b}[1;1H\u{1b}[1;2H");
    assert_eq!(r.output().as_str(), "");
}
