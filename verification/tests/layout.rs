use hermito::layout::{Landmark, Rect, WorkbenchLayout};
use ratatui::layout::{Constraint, Direction, Layout};

#[test]
fn stripe_width_canonical_at_key_widths() {
    assert_eq!(WorkbenchLayout::stripe_width(60), 3);
    assert_eq!(WorkbenchLayout::stripe_width(69), 3);
    assert_eq!(WorkbenchLayout::stripe_width(70), 4);
    assert_eq!(WorkbenchLayout::stripe_width(80), 4);
    assert_eq!(WorkbenchLayout::stripe_width(120), 4);
    assert_eq!(WorkbenchLayout::stripe_width(160), 4);
    assert_eq!(WorkbenchLayout::stripe_width(1000), 4);
}

fn make_layout(w: u16, h: u16) -> WorkbenchLayout {
    let mut l = WorkbenchLayout::default();
    l.resize(w, h);
    l.primary_visible = true;
    l.left_width = 24;
    l.context_visible = false;
    l.recompute();
    l
}

#[test]
fn rect_editor_at_80_120_160_matches_stripe_calc() {
    for total_w in [80u16, 120, 160] {
        let l = make_layout(total_w, 40);
        let stripe = WorkbenchLayout::stripe_width(total_w);
        assert_eq!(
            l.stripe_w, stripe,
            "stripe must be canonical at {}",
            total_w
        );

        let r = l.rect_editor();
        assert_eq!(r.x, stripe + l.left_width);
        let expected_w = total_w
            .saturating_sub(stripe)
            .saturating_sub(l.left_width)
            .saturating_sub(stripe)
            .max(l.min_editor_w);
        assert_eq!(r.width, expected_w);
        assert_eq!(r.y, l.toolbar_h + l.authority_h);
        assert!(r.height > 0);
    }
}

#[test]
fn rect_editor_width_uses_one_formula_no_duplicate_stripe() {
    let mut l = make_layout(120, 36);
    let r1 = l.rect_editor();
    l.stripe_w = WorkbenchLayout::stripe_width(120);
    l.recompute();
    let r2 = l.rect_editor();
    assert_eq!(r1, r2);

    l.resize(80, 36);
    let r80 = l.rect_editor();
    assert_eq!(l.stripe_w, 4);
    assert!(r80.x > 0);
    assert!(r80.width >= l.min_editor_w);
}

#[test]
fn bottom_visible_at_80x24_uses_exact_height_in_rects_no_cap() {
    let mut l = make_layout(80, 24);
    l.bottom_visible = true;
    l.recompute();
    assert_eq!(l.bottom_height, 4);
    assert_eq!(l.rect_bottom().height, 4);
    assert_eq!(l.rect_editor().height, 15);
    assert_eq!(l.rect_authority().height, 2);
}

#[test]
fn restore_fixed_fields_roundtrip_keeps_authority_detail_and_bottom() {
    let mut l = make_layout(80, 24);
    l.bottom_visible = true;
    l.bottom_height = 6;
    l.recompute();
    let saved_bottom = l.bottom_height;
    l.toolbar_h = 0;
    l.authority_h = 0;
    l.status_h = 0;
    l.bottom_header_h = 0;
    l.stripe_w = 0;
    l.min_editor_w = 0;
    l.restore_fixed_fields();
    l.recompute();
    assert_eq!(l.toolbar_h, 1);
    assert_eq!(l.authority_h, 2);
    assert_eq!(l.bottom_height, saved_bottom);
    assert_eq!(l.rect_authority().height, 2);
    assert_eq!(l.rect_bottom().height, saved_bottom);
}

fn cells(r: ratatui::layout::Rect) -> Rect {
    Rect::new(r.x, r.y, r.width, r.height)
}

#[test]
fn render_split_rects_align_with_layout_hit_test_rects_at_80x24() {
    let mut l = make_layout(80, 24);
    l.bottom_visible = true;
    l.recompute();
    let area = ratatui::layout::Rect::new(0, 0, 80, 24);
    let bottom_body_height = if l.bottom_visible { l.bottom_height } else { 0 };
    let main_h = area.height.saturating_sub(
        l.toolbar_h + l.authority_h + l.status_h + l.bottom_header_h + bottom_body_height,
    );
    let [toolbar_a, auth_a, main_a, bheader_a, bbody_a, status_a] = Layout::default()
        .direction(Direction::Vertical)
        .constraints([
            Constraint::Length(l.toolbar_h),
            Constraint::Length(l.authority_h),
            Constraint::Length(main_h),
            Constraint::Length(l.bottom_header_h),
            Constraint::Length(bottom_body_height),
            Constraint::Length(l.status_h),
        ])
        .areas(area);
    assert_eq!(cells(toolbar_a), l.rect_toolbar());
    assert_eq!(cells(auth_a), l.rect_authority());
    assert_eq!(cells(status_a), l.rect_status());
    assert_eq!(main_a.y, l.rect_editor().y);
    assert_eq!(main_a.height, l.rect_editor().height);
    assert_eq!(bbody_a.y, l.rect_bottom().y);
    assert_eq!(bbody_a.height, l.rect_bottom().height);
    assert_eq!(bheader_a.y + bheader_a.height, bbody_a.y);
    assert_eq!(bheader_a.height, 1u16);
    assert_eq!(l.rect_authority().height, 2);
}

#[test]
fn required_sizes_render_current_and_align_after_restore() {
    let mut l = WorkbenchLayout::default();
    l.resize(80, 24);
    l.toolbar_h = 0;
    l.authority_h = 0;
    l.status_h = 0;
    l.bottom_header_h = 0;
    l.stripe_w = 0;
    l.min_editor_w = 0;
    l.restore_fixed_fields();
    l.bottom_visible = true;
    l.recompute();
    assert_eq!(l.toolbar_h, 1);
    assert_eq!(l.authority_h, 2);
    assert_eq!(l.rect_authority().height, 2);
    let area = ratatui::layout::Rect::new(0, 0, 80, 24);
    let bottom_body_height = if l.bottom_visible { l.bottom_height } else { 0 };
    let main_h = area.height.saturating_sub(
        l.toolbar_h + l.authority_h + l.status_h + l.bottom_header_h + bottom_body_height,
    );
    let [_toolbar_a, auth_a, main_a, _bheader_a, bbody_a, _status_a] = Layout::default()
        .direction(Direction::Vertical)
        .constraints([
            Constraint::Length(l.toolbar_h),
            Constraint::Length(l.authority_h),
            Constraint::Length(main_h),
            Constraint::Length(l.bottom_header_h),
            Constraint::Length(bottom_body_height),
            Constraint::Length(l.status_h),
        ])
        .areas(area);
    assert_eq!(auth_a.height, 2);
    assert_eq!(main_a.height, l.rect_editor().height);
    assert_eq!(bbody_a.height, l.rect_bottom().height);
}

#[test]
fn the_focus_cycle_passes_over_a_hidden_context_pane() {
    assert_eq!(Landmark::Editor.next(false), Landmark::RightStripe);
    assert_eq!(Landmark::Editor.next(true), Landmark::ContextPane);
    assert_eq!(Landmark::RightStripe.prev(false), Landmark::Editor);
    assert_eq!(Landmark::StatusBar.next(false), Landmark::Toolbar);
    let mut at = Landmark::Toolbar;
    for _ in 0..8 {
        assert_eq!(at.next(false).prev(false), at);
        at = at.next(false);
    }
    assert_eq!(at, Landmark::Toolbar);
}

#[test]
fn fitting_twice_is_fitting_once() {
    let mut l = WorkbenchLayout::default();
    l.resize(63, 21);
    let before = (l.left_width, l.context_width, l.bottom_height, l.stripe_w);
    l.recompute();
    assert_eq!((l.left_width, l.context_width, l.bottom_height, l.stripe_w), before);
}

#[test]
fn the_active_tab_can_be_changed_in_place() {
    let mut l = WorkbenchLayout::default();
    assert!(l.current_editor_mut().is_none());
    l.open_or_focus_editor(hermito::document::DocumentId(3));
    l.current_editor_mut().unwrap().scroll_line = 12;
    assert_eq!(l.editor_tabs[0].scroll_line, 12);
}
