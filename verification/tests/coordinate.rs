use hermito::coordinate::{
    byte_to_cell, byte_to_grapheme, byte_to_line_col, byte_to_utf16_position, cell_to_byte,
    cell_to_grapheme, editor_mouse_to_byte, grapheme_to_byte, grapheme_to_cell,
    gutter_width_for_lines, line_col_to_byte, move_left, move_right, move_vertical,
    snap_to_grapheme_start, utf16_position_to_byte, CellPos, TAB_CELL_WIDTH,
};
use hermito::layout::Rect;
use hermito::rope::rope_is_char_boundary;
use ropey::Rope;

fn rope(s: &str) -> Rope {
    Rope::from_str(s)
}

#[test]
fn tab_cell_width_is_four() {
    assert_eq!(TAB_CELL_WIDTH, 4);
}

#[test]
fn byte_to_cell_and_back_ascii() {
    let r = rope("hello\nworld");
    for b in 0..=r.len_bytes() {
        let c = byte_to_cell(&r, b);
        let b2 = cell_to_byte(&r, c);
        assert_eq!(b2, snap_to_grapheme_start(&r, b2));
    }
}

#[test]
fn byte_to_cell_and_back_emoji_cjk_combining() {
    let r = rope("a😀文\u{0301}b");
    for b in 0..=r.len_bytes() {
        let c = byte_to_cell(&r, b);
        let b2 = cell_to_byte(&r, c);
        assert!(rope_is_char_boundary(&r, b2));
        let c2 = byte_to_cell(&r, b2);
        let _ = c2;
    }
}

#[test]
fn tab_advances_four_cells_and_roundtrips() {
    let r = rope("a\tb\nx\ty");
    assert_eq!(byte_to_cell(&r, 0), CellPos::new(0, 0));
    let tab_cell = byte_to_cell(&r, 1);
    assert_eq!(tab_cell.column, 1);
    let b_after_tab = byte_to_cell(&r, 2);
    assert_eq!(b_after_tab.column, 1 + TAB_CELL_WIDTH);
    for dc in 1..=TAB_CELL_WIDTH {
        let p = CellPos::new(0, dc);
        let bb = cell_to_byte(&r, p);
        assert_eq!(bb, 1, "col {} inside tab must snap to tab start", dc);
    }
    assert_eq!(cell_to_byte(&r, CellPos::new(0, 1 + TAB_CELL_WIDTH)), 2);
}

#[test]
fn grapheme_cell_roundtrip_with_tabs_and_wide() {
    let r = rope("\t😀\t文");
    for g in 0..=byte_to_grapheme(&r, r.len_bytes()) {
        let c = grapheme_to_cell(&r, g);
        let g2 = cell_to_grapheme(&r, c);
        assert_eq!(g2, g);
        let b = cell_to_byte(&r, c);
        assert_eq!(b, grapheme_to_byte(&r, g));
    }
}

#[test]
fn editor_mouse_to_byte_header_and_tab_snap() {
    let rect = Rect::new(10, 5, 50, 10);
    let r = rope("line0\n\thello\nend");
    let b0 = editor_mouse_to_byte(&r, rect, 0, 15, 6);
    assert_eq!(b0, 0);
    let gutter_click = editor_mouse_to_byte(&r, rect, 0, 11, 9);
    assert_eq!(gutter_click, 6);
    let total_l = r.len_lines();
    let gw = gutter_width_for_lines(total_l);
    let tab_start_content_x = 11 + gw;
    for off in 0..=3u16 {
        let mx = tab_start_content_x + off;
        let mb = editor_mouse_to_byte(&r, rect, 0, mx, 9);
        assert_eq!(mb, 6, "inside tab visual must snap to tab byte");
    }
}

#[test]
fn editor_mouse_to_byte_no_breadcrumb_small_rect() {
    let rect = Rect::new(0, 0, 20, 4);
    let r = rope("abc\n\tde");
    let b = editor_mouse_to_byte(&r, rect, 0, 3, 2);
    assert!(b <= r.len_bytes());
    let cpos = byte_to_cell(&r, b);
    assert_eq!(cpos.line, 0);
}

#[test]
fn move_left_right_never_enters_grapheme_interiors_emoji_cjk_tab_combining() {
    let r = rope("a😀b\t文\u{0301}c\nx");
    let mut p = 0usize;
    let len = r.len_bytes();
    for _ in 0..40 {
        p = move_right(&r, p);
        assert!(p <= len);
        assert_eq!(p, snap_to_grapheme_start(&r, p));
        p = move_left(&r, p);
        assert_eq!(p, snap_to_grapheme_start(&r, p));
    }
    let mid = 6;
    let l = move_left(&r, mid);
    let rr = move_right(&r, mid);
    assert_eq!(l, snap_to_grapheme_start(&r, l));
    assert_eq!(rr, snap_to_grapheme_start(&r, rr));
}

#[test]
fn move_vertical_preserves_display_column_across_variable_lengths_and_wide() {
    let r = rope("ab\n😀\t文\nshort");
    let start = 1usize;
    let down = move_vertical(&r, start, 1);
    let cd = byte_to_cell(&r, down);
    assert_eq!(cd.line, 1);
    assert!(cd.column <= 1);
    let d2 = move_vertical(&r, 3, 1);
    let c2 = byte_to_cell(&r, d2);
    assert_eq!(c2.line, 2);
    assert!(c2.column <= 6);
}

#[test]
fn move_left_right_vertical_always_return_grapheme_starts() {
    let r = rope("😀\n文\n\t");
    for b in 0..=r.len_bytes() {
        assert_eq!(
            move_left(&r, b),
            snap_to_grapheme_start(&r, move_left(&r, b))
        );
        assert_eq!(
            move_right(&r, b),
            snap_to_grapheme_start(&r, move_right(&r, b))
        );
        assert_eq!(
            move_vertical(&r, b, 1),
            snap_to_grapheme_start(&r, move_vertical(&r, b, 1))
        );
        assert_eq!(
            move_vertical(&r, b, -1),
            snap_to_grapheme_start(&r, move_vertical(&r, b, -1))
        );
    }
}

#[test]
fn clusters_are_snapped_to_their_start() {
    // The woman with a laptop is one cluster of three characters, eleven bytes.
    let r = rope("x👩\u{200d}💻y");
    assert_eq!(r.len_bytes(), 13);
    for b in 1..12 {
        assert_eq!(snap_to_grapheme_start(&r, b), 1);
    }
    assert_eq!(snap_to_grapheme_start(&r, 12), 12);
    assert_eq!(snap_to_grapheme_start(&r, 99), 13);
    assert_eq!(move_right(&r, 1), 12);
    assert_eq!(move_left(&r, 12), 1);
    assert_eq!(byte_to_grapheme(&r, 13), 3);
}

#[test]
fn wide_and_narrow_clusters_have_their_widths() {
    let r = rope("a文b");
    assert_eq!(byte_to_cell(&r, 0), CellPos::new(0, 0));
    assert_eq!(byte_to_cell(&r, 1), CellPos::new(0, 1));
    assert_eq!(byte_to_cell(&r, 4), CellPos::new(0, 3));
    assert_eq!(cell_to_byte(&r, CellPos::new(0, 2)), 1);
    assert_eq!(cell_to_byte(&r, CellPos::new(7, 0)), 0);
}

#[test]
fn lines_and_columns_round_trip() {
    let r = rope("ab\ncdé\nf");
    assert_eq!(byte_to_line_col(&r, 4), (1, 1));
    assert_eq!(line_col_to_byte(&r, 1, 1), 4);
    for b in [0, 1, 2, 3, 4, 5, 7, 8, 9] {
        let (line, col) = byte_to_line_col(&r, b);
        assert_eq!(line_col_to_byte(&r, line, col), b);
    }
}

#[test]
fn utf16_columns_count_surrogates() {
    let r = rope("a😀b");
    assert_eq!(byte_to_utf16_position(&r, 5), (0, 3));
    assert_eq!(utf16_position_to_byte(&r, 0, 3), 5);
    assert_eq!(utf16_position_to_byte(&r, 0, 1), 1);
}

#[test]
fn gutters_grow_with_the_number_of_lines() {
    assert_eq!(gutter_width_for_lines(9), gutter_width_for_lines(1));
    assert!(gutter_width_for_lines(100_000) > gutter_width_for_lines(10));
}

#[test]
fn snapping_finds_the_last_stop() {
    let r = rope("a👨‍👩‍👧b\r\n文\n\n");
    let stops = [0, 1, 19, 20, 22, 25, 26, 27];
    for byte in 0..=r.len_bytes() + 1 {
        let p = snap_to_grapheme_start(&r, byte);
        assert_eq!(Some(&p), stops.iter().filter(|stop| **stop <= byte).last());
    }
}

#[test]
fn moves_never_stand_still_within_the_text() {
    let r = rope("\n\na👨‍👩‍👧\r\n文\n\n");
    for byte in 0..=r.len_bytes() {
        let p = snap_to_grapheme_start(&r, byte);
        assert!(move_right(&r, byte) > p || p == r.len_bytes());
        assert!(move_left(&r, byte) < p || p == 0);
    }
}

#[test]
fn utf16_positions_stand_for_their_byte() {
    let r = rope("a👨‍👩‍👧b\r\n𝄞文\n\n");
    for byte in 0..=r.len_bytes() {
        let (line, column) = byte_to_utf16_position(&r, byte);
        assert_eq!(utf16_position_to_byte(&r, line, column), snap_to_grapheme_start(&r, byte));
    }
}
