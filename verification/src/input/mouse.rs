//! What the mouse stands for.
use ropey::Rope;
use vstd::prelude::*;
use vstd::utf8::*;

use super::crossterm_adapter::{MouseButton, MouseEvent, MouseEventKind};
use crate::action::Action;
use crate::app::dispatch::action_applied;
use crate::app::editing::{is_shown, lemma_shown};
use crate::app::snapshot::{AppSnapshot, EditorTabSnapshot};
use crate::app::{App, Effects};
use crate::coordinate::{
    clicks_follow_the_scrolling, clicks_stay_in_the_text, editor_mouse_to_byte, lines_cut,
    mouse_byte, plain_breaks, snapping_leads_to_the_last_stop,
};
use crate::layout::{
    authority_rect, bottom_rect, context_rect, covers, editor_rect, left_stripe_rect,
    primary_rect, right_stripe_rect, status_rect, toolbar_rect, Geometry, Landmark,
    WorkbenchLayout,
};
use crate::rope::{line_breaks_before, line_count};

verus! {

/// The landmark under a cell; another one where there is none.
pub open spec fn landmark_under(g: Geometry, x: u16, y: u16, default: Landmark) -> Landmark {
    if covers(toolbar_rect(g), x, y) {
        Landmark::Toolbar
    } else if covers(authority_rect(g), x, y) {
        Landmark::Authority
    } else if covers(left_stripe_rect(g), x, y) {
        Landmark::LeftStripe
    } else if covers(primary_rect(g), x, y) {
        Landmark::PrimaryPane
    } else if covers(editor_rect(g), x, y) {
        Landmark::Editor
    } else if covers(context_rect(g), x, y) {
        Landmark::ContextPane
    } else if covers(right_stripe_rect(g), x, y) {
        Landmark::RightStripe
    } else if covers(bottom_rect(g), x, y) {
        Landmark::BottomPane
    } else if covers(status_rect(g), x, y) {
        Landmark::StatusBar
    } else {
        default
    }
}

/// The byte under a cell of the text that is shown.
pub open spec fn byte_under(s: AppSnapshot, x: u16, y: u16) -> int {
    let rect = editor_rect(s.layout.geometry());
    match s.current_buffer {
        Some(b) => mouse_byte(
            encode_utf8(b.text@),
            rect,
            b.scroll_line as int,
            x as int,
            y as int,
        ),
        None => mouse_byte(Seq::empty(), rect, 0, x as int, y as int),
    }
}

/// Where a selection by dragging starts: where it started before, else at the
/// cursor.
pub open spec fn drag_anchor(current: Option<EditorTabSnapshot>) -> usize {
    match current {
        Some(b) => match b.selection {
            Some((anchor, _)) => anchor,
            None => b.cursor_byte,
        },
        None => 0,
    }
}

/// The number of a mouse button.
pub open spec fn button_number(button: MouseButton) -> u8 {
    match button {
        MouseButton::Left => 0,
        MouseButton::Right => 1,
        MouseButton::Middle => 2,
    }
}

/// What a press of a button stands for. A press on the authority row asks for a
/// review of its trust.
pub open spec fn press_action(s: AppSnapshot, x: u16, y: u16, button: MouseButton) -> Action {
    let g = s.layout.geometry();
    if covers(authority_rect(g), x, y) {
        Action::ReviewTrust
    } else if covers(editor_rect(g), x, y) {
        Action::EditorSetCursor { byte: byte_under(s, x, y) as usize }
    } else if covers(left_stripe_rect(g), x, y) {
        Action::FocusLandmark(Landmark::LeftStripe)
    } else if covers(primary_rect(g), x, y) {
        Action::FocusLandmark(Landmark::PrimaryPane)
    } else if covers(right_stripe_rect(g), x, y) {
        Action::FocusLandmark(Landmark::RightStripe)
    } else if covers(bottom_rect(g), x, y) {
        Action::FocusLandmark(Landmark::BottomPane)
    } else if covers(context_rect(g), x, y) {
        Action::FocusLandmark(Landmark::ContextPane)
    } else {
        Action::MouseDown { x, y, button: button_number(button) }
    }
}

pub const WHEEL_UP: i32 = -3;

pub const WHEEL_DOWN: i32 = 3;

/// What a mouse event stands for.
pub open spec fn mouse_action(m: MouseEvent, s: AppSnapshot) -> Option<Action> {
    let g = s.layout.geometry();
    let (x, y) = (m.column, m.row);
    match m.kind {
        MouseEventKind::Down(button) => Some(press_action(s, x, y, button)),
        MouseEventKind::Drag(_) => if covers(editor_rect(g), x, y) {
            Some(
                Action::EditorSetSelection {
                    anchor: drag_anchor(s.current_buffer),
                    cursor: byte_under(s, x, y) as usize,
                },
            )
        } else {
            None
        },
        MouseEventKind::Up(_) => Some(Action::MouseUp),
        MouseEventKind::ScrollUp => Some(
            Action::Wheel { landmark: landmark_under(g, x, y, s.focus), lines: WHEEL_UP },
        ),
        MouseEventKind::ScrollDown => Some(
            Action::Wheel { landmark: landmark_under(g, x, y, s.focus), lines: WHEEL_DOWN },
        ),
        _ => None,
    }
}

/// The landmark under a cell; another one where there is none.
pub fn landmark_at(layout: &WorkbenchLayout, x: u16, y: u16, default: Landmark) -> (l: Landmark)
    requires
        layout.wf(),
    ensures
        l == landmark_under(layout.geometry(), x, y, default),
{
    if layout.rect_toolbar().contains(x, y) {
        Landmark::Toolbar
    } else if layout.rect_authority().contains(x, y) {
        Landmark::Authority
    } else if layout.rect_left_stripe().contains(x, y) {
        Landmark::LeftStripe
    } else if layout.rect_primary().contains(x, y) {
        Landmark::PrimaryPane
    } else if layout.rect_editor().contains(x, y) {
        Landmark::Editor
    } else if layout.rect_context().contains(x, y) {
        Landmark::ContextPane
    } else if layout.rect_right_stripe().contains(x, y) {
        Landmark::RightStripe
    } else if layout.rect_bottom().contains(x, y) {
        Landmark::BottomPane
    } else if layout.rect_status().contains(x, y) {
        Landmark::StatusBar
    } else {
        default
    }
}

fn byte_at(s: &AppSnapshot, x: u16, y: u16) -> (byte: usize)
    requires
        s.layout.wf(),
    ensures
        byte == byte_under(*s, x, y),
{
    let rect = s.layout.rect_editor();
    match &s.current_buffer {
        Some(b) => {
            let rope = Rope::from_str(b.text.as_str());
            editor_mouse_to_byte(&rope, rect, b.scroll_line, x, y)
        },
        None => {
            proof {
                reveal_strlit("");
            }
            assert(""@ =~= Seq::<char>::empty());
            let rope = Rope::from_str("");
            assert(encode_utf8(Seq::<char>::empty()) =~= Seq::<u8>::empty());
            editor_mouse_to_byte(&rope, rect, 0, x, y)
        },
    }
}

fn map_press(s: &AppSnapshot, x: u16, y: u16, button: MouseButton) -> (action: Action)
    requires
        s.layout.wf(),
    ensures
        action == press_action(*s, x, y, button),
{
    let layout = &s.layout;
    if layout.rect_authority().contains(x, y) {
        Action::ReviewTrust
    } else if layout.rect_editor().contains(x, y) {
        Action::EditorSetCursor { byte: byte_at(s, x, y) }
    } else if layout.rect_left_stripe().contains(x, y) {
        Action::FocusLandmark(Landmark::LeftStripe)
    } else if layout.rect_primary().contains(x, y) {
        Action::FocusLandmark(Landmark::PrimaryPane)
    } else if layout.rect_right_stripe().contains(x, y) {
        Action::FocusLandmark(Landmark::RightStripe)
    } else if layout.rect_bottom().contains(x, y) {
        Action::FocusLandmark(Landmark::BottomPane)
    } else if layout.rect_context().contains(x, y) {
        Action::FocusLandmark(Landmark::ContextPane)
    } else {
        Action::MouseDown {
            x,
            y,
            button: match button {
                MouseButton::Left => 0,
                MouseButton::Right => 1,
                MouseButton::Middle => 2,
            },
        }
    }
}

/// What a mouse event stands for.
pub fn map_mouse(event: MouseEvent, snapshot: &AppSnapshot) -> (action: Option<Action>)
    requires
        snapshot.layout.wf(),
    ensures
        action == mouse_action(event, *snapshot),
{
    let x: u16 = event.column;
    let y: u16 = event.row;
    match event.kind {
        MouseEventKind::Down(button) => Some(map_press(snapshot, x, y, button)),
        MouseEventKind::Drag(_) => {
            if snapshot.layout.rect_editor().contains(x, y) {
                let anchor: usize = match &snapshot.current_buffer {
                    Some(b) => match b.selection {
                        Some((anchor, _)) => anchor,
                        None => b.cursor_byte,
                    },
                    None => 0,
                };
                Some(Action::EditorSetSelection { anchor, cursor: byte_at(snapshot, x, y) })
            } else {
                None
            }
        },
        MouseEventKind::Up(_) => Some(Action::MouseUp),
        MouseEventKind::ScrollUp => Some(
            Action::Wheel {
                landmark: landmark_at(&snapshot.layout, x, y, snapshot.focus),
                lines: WHEEL_UP,
            },
        ),
        MouseEventKind::ScrollDown => Some(
            Action::Wheel {
                landmark: landmark_at(&snapshot.layout, x, y, snapshot.focus),
                lines: WHEEL_DOWN,
            },
        ),
        _ => None,
    }
}

/// A press on a row of text in the editor puts the cursor on the line that is shown
/// there: the first line shown and as many more as the row lies below the first row of
/// text. The editor gets the focus, nothing is selected and no text changes.
pub proof fn presses_put_the_cursor_on_the_line_shown(
    m: MouseEvent,
    s: AppSnapshot,
    button: MouseButton,
    text: EditorTabSnapshot,
    r: int,
    action: Option<Action>,
    before: App,
    after: App,
    effects: Effects,
    i: int,
)
    requires
        m.kind == MouseEventKind::Down(button),
        action == mouse_action(m, s),
        !covers(authority_rect(s.layout.geometry()), m.column, m.row),
        covers(editor_rect(s.layout.geometry()), m.column, m.row),
        m.column > editor_rect(s.layout.geometry()).x,
        r >= 0,
        editor_rect(s.layout.geometry()).height >= 6 ==> m.row == editor_rect(
            s.layout.geometry(),
        ).y + 3 + r,
        editor_rect(s.layout.geometry()).height < 6 ==> m.row == editor_rect(
            s.layout.geometry(),
        ).y + 2 + r,
        s.current_buffer == Some(text),
        is_shown(before, i),
        before.buffers@[i]@.text == text.text@,
        encode_utf8(text.text@).len() <= usize::MAX,
        before.layout.tabs().active_editor_tab < before.layout.tabs().editor_tabs.len(),
        text.scroll_line + r < line_count(encode_utf8(text.text@)),
    ensures
        action matches Some(Action::EditorSetCursor { .. }),
        lines_cut(encode_utf8(text.text@)) && action_applied(before, action->0, after, effects)
            ==> {
            let bytes = encode_utf8(text.text@);
            let tabs = after.layout.tabs();
            let cursor = tabs.editor_tabs[tabs.active_editor_tab as int].cursor_byte as int;
            &&& after.focus == Landmark::Editor
            &&& after.buffers == before.buffers
            &&& tabs.editor_tabs[tabs.active_editor_tab as int].selection_anchor is None
            &&& plain_breaks(bytes) ==> line_breaks_before(bytes, cursor) == text.scroll_line + r
        },
{
    let bytes = encode_utf8(text.text@);
    encode_utf8_valid_utf8(text.text@);
    let rect = editor_rect(s.layout.geometry());
    lemma_shown(before, i);
    clicks_follow_the_scrolling(bytes, rect, text.scroll_line, m.column, m.row, r);
    let b = mouse_byte(
        bytes,
        rect,
        text.scroll_line as int,
        m.column as int,
        m.row as int,
    );
    clicks_stay_in_the_text(bytes, rect, text.scroll_line, m.column, m.row);
    if lines_cut(bytes) {
        snapping_leads_to_the_last_stop(bytes, b);
    }
}

/// Dragging selects from where the selection started, or else from the cursor, to the
/// place under the mouse.
pub proof fn drags_select_up_to_the_mouse(
    m: MouseEvent,
    s: AppSnapshot,
    button: MouseButton,
    text: EditorTabSnapshot,
)
    requires
        m.kind == MouseEventKind::Drag(button),
        s.current_buffer == Some(text),
    ensures
        !covers(editor_rect(s.layout.geometry()), m.column, m.row) ==> mouse_action(m, s) is None,
        covers(editor_rect(s.layout.geometry()), m.column, m.row) ==> (mouse_action(
            m,
            s,
        ) matches Some(Action::EditorSetSelection { anchor, cursor }) && (
        text.selection matches Some(kept) ==> anchor == kept.0) && (text.selection is None
            ==> anchor == text.cursor_byte) && cursor == mouse_byte(
            encode_utf8(text.text@),
            editor_rect(s.layout.geometry()),
            text.scroll_line as int,
            m.column as int,
            m.row as int,
        ) as usize),
{
}

/// The wheel scrolls what is under the mouse: up towards the top and down away from it,
/// by as many lines, so that one step of each kind in turn changes nothing once there
/// is room. No text and no cursor changes.
pub proof fn the_wheel_scrolls_both_ways(
    up: MouseEvent,
    down: MouseEvent,
    s: AppSnapshot,
    before: App,
    after: App,
    effects: Effects,
)
    requires
        up.kind == MouseEventKind::ScrollUp,
        down.kind == MouseEventKind::ScrollDown,
        up.column == down.column,
        up.row == down.row,
    ensures
        mouse_action(up, s) matches Some(Action::Wheel { landmark, lines }) && lines < 0 && (
        mouse_action(down, s) matches Some(Action::Wheel { landmark: same, lines: back }) && same
            == landmark && back == -lines),
        action_applied(before, mouse_action(up, s)->0, after, effects) ==> after.buffers
            == before.buffers,
{
}

/// The landmark under a cell covers the cell, where there is one.
pub proof fn landmarks_cover_their_cells(g: Geometry, x: u16, y: u16, default: Landmark)
    ensures
        ({
            let l = landmark_under(g, x, y, default);
            l != default ==> {
                &&& l == Landmark::Toolbar ==> covers(toolbar_rect(g), x, y)
                &&& l == Landmark::Authority ==> covers(authority_rect(g), x, y)
                &&& l == Landmark::LeftStripe ==> covers(left_stripe_rect(g), x, y)
                &&& l == Landmark::PrimaryPane ==> covers(primary_rect(g), x, y)
                &&& l == Landmark::Editor ==> covers(editor_rect(g), x, y)
                &&& l == Landmark::ContextPane ==> covers(context_rect(g), x, y)
                &&& l == Landmark::RightStripe ==> covers(right_stripe_rect(g), x, y)
                &&& l == Landmark::BottomPane ==> covers(bottom_rect(g), x, y)
                &&& l == Landmark::StatusBar ==> covers(status_rect(g), x, y)
            }
        }),
        covers(toolbar_rect(g), x, y) || covers(authority_rect(g), x, y) || covers(
            left_stripe_rect(g),
            x,
            y,
        ) || covers(primary_rect(g), x, y) || covers(editor_rect(g), x, y) || covers(
            context_rect(g),
            x,
            y,
        ) || covers(right_stripe_rect(g), x, y) || covers(bottom_rect(g), x, y) || covers(
            status_rect(g),
            x,
            y,
        ) || landmark_under(g, x, y, default) == default,
{
}

/// A press gives the focus only to what covers its cell, asks for a review of the trust
/// exactly on the authority row, and moves the cursor only inside the editor.
pub proof fn presses_reach_what_they_hit(
    m: MouseEvent,
    s: AppSnapshot,
    button: MouseButton,
    action: Action,
)
    requires
        m.kind == MouseEventKind::Down(button),
        mouse_action(m, s) == Some(action),
    ensures
        ({
            let g = s.layout.geometry();
            let (x, y) = (m.column, m.row);
            &&& action == Action::ReviewTrust <==> covers(authority_rect(g), x, y)
            &&& action is EditorSetCursor ==> covers(editor_rect(g), x, y)
            &&& action == Action::FocusLandmark(Landmark::LeftStripe) ==> covers(
                left_stripe_rect(g),
                x,
                y,
            )
            &&& action == Action::FocusLandmark(Landmark::PrimaryPane) ==> covers(
                primary_rect(g),
                x,
                y,
            )
            &&& action == Action::FocusLandmark(Landmark::RightStripe) ==> covers(
                right_stripe_rect(g),
                x,
                y,
            )
            &&& action == Action::FocusLandmark(Landmark::BottomPane) ==> covers(
                bottom_rect(g),
                x,
                y,
            )
            &&& action == Action::FocusLandmark(Landmark::ContextPane) ==> covers(
                context_rect(g),
                x,
                y,
            )
            &&& action matches Action::MouseDown { x: a, y: b, .. } ==> a == x && b == y && !covers(
                editor_rect(g),
                x,
                y,
            ) && !covers(primary_rect(g), x, y) && !covers(bottom_rect(g), x, y)
            &&& action is ReviewTrust || action is EditorSetCursor || action is FocusLandmark
                || action is MouseDown
        }),
{
}

} // verus!
