//! Placement of the workbench panels on the terminal.
use vstd::prelude::*;

use crate::document::DocumentId;

verus! {

/// A rectangle of terminal cells.
#[derive(Clone, Copy, PartialEq, Eq, Debug, Hash, Structural)]
pub struct Rect {
    pub x: u16,
    pub y: u16,
    pub width: u16,
    pub height: u16,
}

/// The smaller of two numbers.
pub open spec fn min2(a: int, b: int) -> int {
    if a <= b {
        a
    } else {
        b
    }
}

/// The difference of two numbers, or zero.
pub open spec fn minus(a: int, b: int) -> int {
    if a >= b {
        a - b
    } else {
        0
    }
}

/// A rectangle cut so that its far edges stay on the coordinate grid.
pub open spec fn rect_at(x: int, y: int, width: int, height: int) -> Rect {
    Rect {
        x: x as u16,
        y: y as u16,
        width: min2(width, u16::MAX - x) as u16,
        height: min2(height, u16::MAX - y) as u16,
    }
}

/// The rectangle that covers no cell.
pub open spec fn no_rect() -> Rect {
    Rect { x: 0, y: 0, width: 0, height: 0 }
}

/// Whether a rectangle covers a cell.
pub open spec fn covers(r: Rect, x: u16, y: u16) -> bool {
    r.x <= x < r.x + r.width && r.y <= y < r.y + r.height
}

impl Rect {
    /// Whether the rectangle covers a cell.
    pub fn contains(&self, x: u16, y: u16) -> (yes: bool)
        ensures
            yes == covers(*self, x, y),
    {
        x >= self.x && x - self.x < self.width && y >= self.y && y - self.y < self.height
    }

    /// A rectangle; its size is cut so that the far edges stay on the grid.
    pub fn new(x: u16, y: u16, width: u16, height: u16) -> (r: Self)
        ensures
            r == rect_at(x as int, y as int, width as int, height as int),
    {
        let max_width: u16 = u16::MAX - x;
        let max_height: u16 = u16::MAX - y;
        Rect {
            x,
            y,
            width: if width > max_width { max_width } else { width },
            height: if height > max_height { max_height } else { height },
        }
    }
}

impl Default for Rect {
    fn default() -> (r: Self)
        ensures
            r == no_rect(),
    {
        Rect { x: 0, y: 0, width: 0, height: 0 }
    }
}

/// The places that the focus can go to, in the order of the focus cycle.
#[derive(Clone, Copy, Debug, PartialEq, Eq, Hash, Structural)]
pub enum Landmark {
    Toolbar,
    Authority,
    LeftStripe,
    PrimaryPane,
    Editor,
    ContextPane,
    RightStripe,
    BottomPane,
    StatusBar,
}

impl Default for Landmark {
    fn default() -> (landmark: Self)
        ensures
            landmark == Landmark::Toolbar,
    {
        Landmark::Toolbar
    }
}

/// Whether a landmark is part of the focus cycle.
pub open spec fn landmark_in_cycle(landmark: Landmark, context_visible: bool) -> bool {
    landmark != Landmark::ContextPane || context_visible
}

/// The landmark after another one in the focus cycle; the context pane is passed
/// over while it is hidden.
pub open spec fn next_landmark(landmark: Landmark, context_visible: bool) -> Landmark {
    match landmark {
        Landmark::Toolbar => Landmark::Authority,
        Landmark::Authority => Landmark::LeftStripe,
        Landmark::LeftStripe => Landmark::PrimaryPane,
        Landmark::PrimaryPane => Landmark::Editor,
        Landmark::Editor => if context_visible {
            Landmark::ContextPane
        } else {
            Landmark::RightStripe
        },
        Landmark::ContextPane => Landmark::RightStripe,
        Landmark::RightStripe => Landmark::BottomPane,
        Landmark::BottomPane => Landmark::StatusBar,
        Landmark::StatusBar => Landmark::Toolbar,
    }
}

/// The landmark before another one in the focus cycle.
pub open spec fn prev_landmark(landmark: Landmark, context_visible: bool) -> Landmark {
    match landmark {
        Landmark::Toolbar => Landmark::StatusBar,
        Landmark::Authority => Landmark::Toolbar,
        Landmark::LeftStripe => Landmark::Authority,
        Landmark::PrimaryPane => Landmark::LeftStripe,
        Landmark::Editor => Landmark::PrimaryPane,
        Landmark::ContextPane => Landmark::Editor,
        Landmark::RightStripe => if context_visible {
            Landmark::ContextPane
        } else {
            Landmark::Editor
        },
        Landmark::BottomPane => Landmark::RightStripe,
        Landmark::StatusBar => Landmark::BottomPane,
    }
}

/// The landmark reached after a number of steps through the focus cycle.
pub open spec fn landmark_after(landmark: Landmark, context_visible: bool, steps: nat) -> Landmark
    decreases steps,
{
    if steps == 0 {
        landmark
    } else {
        next_landmark(
            landmark_after(landmark, context_visible, (steps - 1) as nat),
            context_visible,
        )
    }
}

/// Cycling forward and backward undo each other on the landmarks of the cycle.
pub proof fn landmark_cycle_inverse(landmark: Landmark, context_visible: bool)
    requires
        landmark_in_cycle(landmark, context_visible),
    ensures
        prev_landmark(next_landmark(landmark, context_visible), context_visible) == landmark,
        next_landmark(prev_landmark(landmark, context_visible), context_visible) == landmark,
{
}

/// The cycle has nine landmarks while the context pane is shown and eight while
/// it is hidden: that many steps lead back, and fewer do not.
pub proof fn landmark_cycle_length(landmark: Landmark, context_visible: bool, steps: nat)
    requires
        landmark_in_cycle(landmark, context_visible),
        0 < steps <= if context_visible {
            9nat
        } else {
            8nat
        },
    ensures
        landmark_after(landmark, context_visible, steps) == landmark <==> steps
            == if context_visible {
            9nat
        } else {
            8nat
        },
        landmark_in_cycle(landmark_after(landmark, context_visible, steps), context_visible),
{
    reveal_with_fuel(landmark_after, 10);
}

impl Landmark {
    /// The next landmark in the focus cycle.
    pub fn next(self, context_visible: bool) -> (landmark: Self)
        ensures
            landmark == next_landmark(self, context_visible),
    {
        match self {
            Landmark::Toolbar => Landmark::Authority,
            Landmark::Authority => Landmark::LeftStripe,
            Landmark::LeftStripe => Landmark::PrimaryPane,
            Landmark::PrimaryPane => Landmark::Editor,
            Landmark::Editor => if context_visible {
                Landmark::ContextPane
            } else {
                Landmark::RightStripe
            },
            Landmark::ContextPane => Landmark::RightStripe,
            Landmark::RightStripe => Landmark::BottomPane,
            Landmark::BottomPane => Landmark::StatusBar,
            Landmark::StatusBar => Landmark::Toolbar,
        }
    }

    /// The previous landmark in the focus cycle.
    pub fn prev(self, context_visible: bool) -> (landmark: Self)
        ensures
            landmark == prev_landmark(self, context_visible),
    {
        match self {
            Landmark::Toolbar => Landmark::StatusBar,
            Landmark::Authority => Landmark::Toolbar,
            Landmark::LeftStripe => Landmark::Authority,
            Landmark::PrimaryPane => Landmark::LeftStripe,
            Landmark::Editor => Landmark::PrimaryPane,
            Landmark::ContextPane => Landmark::Editor,
            Landmark::RightStripe => if context_visible {
                Landmark::ContextPane
            } else {
                Landmark::Editor
            },
            Landmark::BottomPane => Landmark::RightStripe,
            Landmark::StatusBar => Landmark::BottomPane,
        }
    }
}

#[derive(Clone, Copy, Debug, PartialEq, Eq, Structural)]
pub enum Pane {
    Primary,
    Context,
    Bottom,
}

#[derive(Clone, Copy, Debug, PartialEq, Eq, Structural)]
pub enum Separator {
    PrimaryRight,
    ContextLeft,
    BottomTop,
}

/// An open editor tab and what it shows of its document.
#[derive(Clone, Copy, Debug, PartialEq, Eq, Structural)]
pub struct EditorTabState {
    pub doc_id: DocumentId,
    pub scroll_line: u16,
    pub cursor_byte: usize,
    /// The fixed end of the selection; `None` while nothing is selected.
    pub selection_anchor: Option<usize>,
}

/// Sizes and visibility of the panels, and the open editor tabs.
#[derive(Debug)]
pub struct WorkbenchLayout {
    pub width: u16,
    pub height: u16,
    pub primary_visible: bool,
    pub context_visible: bool,
    pub bottom_visible: bool,
    pub left_width: u16,
    pub context_width: u16,
    pub bottom_height: u16,
    pub primary_active_tab: usize,
    pub context_active_tab: usize,
    pub bottom_active_tab: usize,
    pub editor_tabs: Vec<EditorTabState>,
    pub active_editor_tab: usize,
    pub toolbar_h: u16,
    pub authority_h: u16,
    pub status_h: u16,
    pub bottom_header_h: u16,
    pub stripe_w: u16,
    pub min_editor_w: u16,
}

/// The sizes and visibility of the panels, without the tabs.
pub struct Geometry {
    pub width: u16,
    pub height: u16,
    pub primary_visible: bool,
    pub context_visible: bool,
    pub bottom_visible: bool,
    pub left_width: u16,
    pub context_width: u16,
    pub bottom_height: u16,
    pub toolbar_h: u16,
    pub authority_h: u16,
    pub status_h: u16,
    pub bottom_header_h: u16,
    pub stripe_w: u16,
    pub min_editor_w: u16,
}

/// The selected tabs of the panes and the editor.
pub struct TabChoice {
    pub primary_active_tab: usize,
    pub context_active_tab: usize,
    pub bottom_active_tab: usize,
    pub active_editor_tab: usize,
    pub editor_tabs: Seq<EditorTabState>,
}

/// The width of each side stripe.
pub open spec fn stripe_width_of(total_width: u16) -> u16 {
    if total_width >= 70 {
        4
    } else {
        3
    }
}

/// The columns between the two stripes.
pub open spec fn columns_between_stripes(g: Geometry) -> int {
    minus(g.width as int, 2 * stripe_width_of(g.width) as int)
}

/// The sizes after the panels are fitted: the editor keeps its least width, the
/// context pane and then the primary pane take what is left of it, and both are
/// hidden if the editor alone does not fit. The bottom pane leaves four rows
/// and takes at least four.
pub open spec fn fitted(g: Geometry) -> Geometry {
    let avail = columns_between_stripes(g);
    let fits = avail >= g.min_editor_w;
    let context_visible = fits && g.context_visible;
    let primary_visible = fits && g.primary_visible;
    let context_width = if context_visible {
        min2(g.context_width as int, avail - g.min_editor_w)
    } else {
        0
    };
    let left_width = if primary_visible {
        min2(g.left_width as int, avail - context_width - g.min_editor_w)
    } else {
        0
    };
    let rows = minus(g.height as int, g.toolbar_h + g.authority_h + g.status_h);
    let bottom = min2(g.bottom_height as int, minus(rows, 4));
    Geometry {
        context_visible,
        primary_visible,
        context_width: context_width as u16,
        left_width: left_width as u16,
        bottom_height: if !g.bottom_visible {
            0
        } else if bottom >= 4 {
            bottom as u16
        } else {
            4
        },
        stripe_w: stripe_width_of(g.width),
        ..g
    }
}

/// The rows of the panes between the authority bar and the bottom pane.
pub open spec fn main_height(g: Geometry) -> int {
    minus(
        minus(
            g.height as int,
            g.toolbar_h + g.authority_h + g.status_h + g.bottom_header_h,
        ),
        if g.bottom_visible {
            g.bottom_height as int
        } else {
            0
        },
    )
}

pub open spec fn main_top(g: Geometry) -> int {
    g.toolbar_h + g.authority_h
}

pub open spec fn toolbar_rect(g: Geometry) -> Rect {
    rect_at(0, 0, g.width as int, g.toolbar_h as int)
}

pub open spec fn authority_rect(g: Geometry) -> Rect {
    rect_at(0, g.toolbar_h as int, g.width as int, g.authority_h as int)
}

pub open spec fn left_stripe_rect(g: Geometry) -> Rect {
    rect_at(0, main_top(g), stripe_width_of(g.width) as int, main_height(g))
}

pub open spec fn primary_rect(g: Geometry) -> Rect {
    if g.primary_visible {
        rect_at(stripe_width_of(g.width) as int, main_top(g), g.left_width as int, main_height(g))
    } else {
        no_rect()
    }
}

/// Where the editor starts: right of the left stripe and the primary pane.
pub open spec fn editor_left(g: Geometry) -> int {
    stripe_width_of(g.width) + if g.primary_visible {
        g.left_width as int
    } else {
        0
    }
}

/// The columns right of the editor: the context pane and the right stripe.
pub open spec fn editor_right_margin(g: Geometry) -> int {
    stripe_width_of(g.width) + if g.context_visible {
        g.context_width as int
    } else {
        0
    }
}

/// The editor takes what the other panes leave, and at least its least width.
pub open spec fn editor_width(g: Geometry) -> int {
    let w = minus(minus(g.width as int, editor_left(g)), editor_right_margin(g));
    if w >= g.min_editor_w {
        w
    } else {
        g.min_editor_w as int
    }
}

pub open spec fn editor_rect(g: Geometry) -> Rect {
    rect_at(editor_left(g), main_top(g), editor_width(g), main_height(g))
}

pub open spec fn right_stripe_rect(g: Geometry) -> Rect {
    rect_at(
        minus(g.width as int, stripe_width_of(g.width) as int),
        main_top(g),
        stripe_width_of(g.width) as int,
        main_height(g),
    )
}

pub open spec fn context_rect(g: Geometry) -> Rect {
    if g.context_visible {
        rect_at(
            minus(g.width as int, stripe_width_of(g.width) + g.context_width),
            main_top(g),
            g.context_width as int,
            main_height(g),
        )
    } else {
        no_rect()
    }
}

pub open spec fn bottom_rect(g: Geometry) -> Rect {
    if g.bottom_visible {
        rect_at(
            stripe_width_of(g.width) as int,
            minus(g.height as int, g.status_h + g.bottom_height),
            columns_between_stripes(g),
            g.bottom_height as int,
        )
    } else {
        no_rect()
    }
}

pub open spec fn status_rect(g: Geometry) -> Rect {
    rect_at(0, g.height - g.status_h, g.width as int, g.status_h as int)
}

/// Whether the rows of the bars can be counted, and the status bar has its place on
/// the screen. Fitted panels then have theirs too.
pub open spec fn bars_fit(g: Geometry) -> bool {
    &&& g.toolbar_h + g.authority_h + g.status_h + g.bottom_header_h + 4 <= u16::MAX
    &&& g.status_h <= g.height
}

/// Whether the sizes add up on the coordinate grid.
pub open spec fn geometry_wf(g: Geometry) -> bool {
    &&& bars_fit(g)
    &&& g.status_h + g.bottom_height <= u16::MAX
    &&& 4 + g.left_width <= u16::MAX
    &&& 4 + g.context_width <= u16::MAX
}

/// Fitting twice is fitting once.
pub proof fn fitting_is_stable(g: Geometry)
    requires
        geometry_wf(g),
    ensures
        fitted(fitted(g)) == fitted(g),
{
}

/// On a terminal wide enough for the editor, the fitted panes lie side by side
/// without gaps: left stripe, primary pane, editor, context pane, right stripe.
pub proof fn panes_tile_the_width(g: Geometry)
    requires
        geometry_wf(g),
        columns_between_stripes(g) >= g.min_editor_w,
        g.width >= 6,
    ensures
        ({
            let f = fitted(g);
            &&& left_stripe_rect(f).x == 0
            &&& f.primary_visible ==> primary_rect(f).x == left_stripe_rect(f).width
                && editor_rect(f).x == primary_rect(f).x + primary_rect(f).width
            &&& !f.primary_visible ==> editor_rect(f).x == left_stripe_rect(f).width
            &&& f.context_visible ==> context_rect(f).x == editor_rect(f).x + editor_rect(f).width
                && right_stripe_rect(f).x == context_rect(f).x + context_rect(f).width
            &&& !f.context_visible ==> right_stripe_rect(f).x == editor_rect(f).x + editor_rect(
                f,
            ).width
            &&& right_stripe_rect(f).x + right_stripe_rect(f).width == f.width
            &&& editor_rect(f).width >= f.min_editor_w
        }),
{
}

/// On a terminal of at least twenty rows, with the usual bar heights, the rows
/// are used up from top to bottom: toolbar, authority bar, panes, bottom header,
/// bottom pane, status bar.
pub proof fn panes_tile_the_height(g: Geometry)
    requires
        g.toolbar_h == 1,
        g.authority_h == 2,
        g.status_h == 1,
        g.bottom_header_h == 1,
        g.height >= 20,
    ensures
        ({
            let f = fitted(g);
            &&& authority_rect(f).y == toolbar_rect(f).height
            &&& editor_rect(f).y == authority_rect(f).y + authority_rect(f).height
            &&& f.bottom_visible ==> bottom_rect(f).y == editor_rect(f).y + editor_rect(f).height
                + f.bottom_header_h && status_rect(f).y == bottom_rect(f).y + bottom_rect(f).height
            &&& !f.bottom_visible ==> status_rect(f).y == editor_rect(f).y + editor_rect(f).height
                + f.bottom_header_h
            &&& status_rect(f).y + status_rect(f).height == f.height
        }),
{
}

impl WorkbenchLayout {
    /// The sizes and visibility of the panels.
    pub open spec fn geometry(&self) -> Geometry {
        Geometry {
            width: self.width,
            height: self.height,
            primary_visible: self.primary_visible,
            context_visible: self.context_visible,
            bottom_visible: self.bottom_visible,
            left_width: self.left_width,
            context_width: self.context_width,
            bottom_height: self.bottom_height,
            toolbar_h: self.toolbar_h,
            authority_h: self.authority_h,
            status_h: self.status_h,
            bottom_header_h: self.bottom_header_h,
            stripe_w: self.stripe_w,
            min_editor_w: self.min_editor_w,
        }
    }

    /// The selected tabs.
    pub open spec fn tabs(&self) -> TabChoice {
        TabChoice {
            primary_active_tab: self.primary_active_tab,
            context_active_tab: self.context_active_tab,
            bottom_active_tab: self.bottom_active_tab,
            active_editor_tab: self.active_editor_tab,
            editor_tabs: self.editor_tabs@,
        }
    }

    pub open spec fn wf(&self) -> bool {
        geometry_wf(self.geometry())
    }

    /// The width of each side stripe: four cells from a width of seventy on, else
    /// three.
    pub fn stripe_width(total_width: u16) -> (w: u16)
        ensures
            w == stripe_width_of(total_width),
    {
        if total_width >= 70 {
            4
        } else {
            3
        }
    }

    /// A layout of the default terminal size, fitted.
    pub fn new_default() -> (l: Self)
        ensures
            l.wf(),
            l.geometry() == fitted(default_geometry()),
            l.tabs() == no_tabs(),
    {
        let mut l = Self::default();
        l.resize(120, 36);
        l
    }

    /// Takes over a terminal size, at least sixty columns by twenty rows, and fits
    /// the panels.
    pub fn resize(&mut self, w: u16, h: u16)
        requires
            old(self).toolbar_h + old(self).authority_h + old(self).status_h <= u16::MAX,
        ensures
            final(self).wf() <==> bars_fit(final(self).geometry()),
            final(self).geometry() == fitted(resized(old(self).geometry(), w, h)),
            final(self).tabs() == old(self).tabs(),
    {
        self.width = if w >= 60 { w } else { 60 };
        self.height = if h >= 20 { h } else { 20 };
        self.bottom_header_h = 1;
        self.stripe_w = Self::stripe_width(self.width);
        self.recompute();
    }

    /// Fits the panels to the terminal size.
    pub fn recompute(&mut self)
        requires
            old(self).toolbar_h + old(self).authority_h + old(self).status_h <= u16::MAX,
        ensures
            final(self).wf() <==> bars_fit(final(self).geometry()),
            final(self).geometry() == fitted(old(self).geometry()),
            final(self).tabs() == old(self).tabs(),
        decreases old(self).context_visible as int + old(self).primary_visible as int,
    {
        self.stripe_w = Self::stripe_width(self.width);
        let stripe: u16 = Self::stripe_width(self.width);
        let mut avail: u16 = self.width.saturating_sub(stripe * 2);
        if self.context_visible {
            let room: u16 = avail.saturating_sub(self.min_editor_w);
            let c: u16 = if self.context_width <= room { self.context_width } else { room };
            self.context_width = c;
            avail = avail.saturating_sub(c);
        } else {
            self.context_width = 0;
        }
        if self.primary_visible {
            let room: u16 = avail.saturating_sub(self.min_editor_w);
            let p: u16 = if self.left_width <= room { self.left_width } else { room };
            self.left_width = p;
            avail = avail.saturating_sub(p);
        } else {
            self.left_width = 0;
        }
        if avail < self.min_editor_w && self.context_visible {
            self.context_visible = false;
            self.context_width = 0;
            self.recompute();
            return ;
        }
        if avail < self.min_editor_w && self.primary_visible {
            self.primary_visible = false;
            self.left_width = 0;
            self.recompute();
            return ;
        }
        let main_h: u16 = self.height.saturating_sub(
            self.toolbar_h + self.authority_h + self.status_h,
        );
        if self.bottom_visible {
            let room: u16 = main_h.saturating_sub(4);
            let b: u16 = if self.bottom_height <= room { self.bottom_height } else { room };
            self.bottom_height = if b >= 4 { b } else { 4 };
        } else {
            self.bottom_height = 0;
        }
    }

    fn main_rows(&self) -> (rows: u16)
        requires
            self.wf(),
        ensures
            rows == main_height(self.geometry()),
    {
        let used: u16 = self.toolbar_h + self.authority_h + self.status_h + self.bottom_header_h;
        let rows: u16 = self.height.saturating_sub(used);
        if self.bottom_visible {
            rows.saturating_sub(self.bottom_height)
        } else {
            rows
        }
    }

    pub fn rect_toolbar(&self) -> (r: Rect)
        ensures
            r == toolbar_rect(self.geometry()),
    {
        Rect::new(0, 0, self.width, self.toolbar_h)
    }

    pub fn rect_authority(&self) -> (r: Rect)
        ensures
            r == authority_rect(self.geometry()),
    {
        Rect::new(0, self.toolbar_h, self.width, self.authority_h)
    }

    pub fn rect_left_stripe(&self) -> (r: Rect)
        requires
            self.wf(),
        ensures
            r == left_stripe_rect(self.geometry()),
    {
        Rect::new(
            0,
            self.toolbar_h + self.authority_h,
            Self::stripe_width(self.width),
            self.main_rows(),
        )
    }

    pub fn rect_primary(&self) -> (r: Rect)
        requires
            self.wf(),
        ensures
            r == primary_rect(self.geometry()),
    {
        if !self.primary_visible {
            return Rect::default();
        }
        Rect::new(
            Self::stripe_width(self.width),
            self.toolbar_h + self.authority_h,
            self.left_width,
            self.main_rows(),
        )
    }

    pub fn rect_editor(&self) -> (r: Rect)
        requires
            self.wf(),
        ensures
            r == editor_rect(self.geometry()),
    {
        let stripe: u16 = Self::stripe_width(self.width);
        let x: u16 = stripe + if self.primary_visible { self.left_width } else { 0 };
        let right: u16 = stripe + if self.context_visible { self.context_width } else { 0 };
        let left_over: u16 = self.width.saturating_sub(x).saturating_sub(right);
        let w: u16 = if left_over >= self.min_editor_w { left_over } else { self.min_editor_w };
        Rect::new(x, self.toolbar_h + self.authority_h, w, self.main_rows())
    }

    pub fn rect_right_stripe(&self) -> (r: Rect)
        requires
            self.wf(),
        ensures
            r == right_stripe_rect(self.geometry()),
    {
        let stripe: u16 = Self::stripe_width(self.width);
        Rect::new(
            self.width.saturating_sub(stripe),
            self.toolbar_h + self.authority_h,
            stripe,
            self.main_rows(),
        )
    }

    pub fn rect_context(&self) -> (r: Rect)
        requires
            self.wf(),
        ensures
            r == context_rect(self.geometry()),
    {
        if !self.context_visible {
            return Rect::default();
        }
        let stripe: u16 = Self::stripe_width(self.width);
        Rect::new(
            self.width.saturating_sub(stripe + self.context_width),
            self.toolbar_h + self.authority_h,
            self.context_width,
            self.main_rows(),
        )
    }

    pub fn rect_bottom(&self) -> (r: Rect)
        requires
            self.wf(),
        ensures
            r == bottom_rect(self.geometry()),
    {
        if !self.bottom_visible {
            return Rect::default();
        }
        let stripe: u16 = Self::stripe_width(self.width);
        Rect::new(
            stripe,
            self.height.saturating_sub(self.status_h + self.bottom_height),
            self.width.saturating_sub(stripe * 2),
            self.bottom_height,
        )
    }

    pub fn rect_status(&self) -> (r: Rect)
        requires
            self.status_h <= self.height,
        ensures
            r == status_rect(self.geometry()),
    {
        Rect::new(0, self.height - self.status_h, self.width, self.status_h)
    }

    /// Shows or hides a pane. A pane that comes up smaller than four cells gets its
    /// default size. The panels are fitted again.
    pub fn toggle_pane(&mut self, p: Pane)
        requires
            old(self).wf(),
        ensures
            final(self).wf(),
            final(self).geometry() == fitted(toggled(old(self).geometry(), p)),
            final(self).tabs() == old(self).tabs(),
    {
        match p {
            Pane::Primary => {
                self.primary_visible = !self.primary_visible;
                if self.primary_visible && self.left_width < 4 {
                    self.left_width = 28;
                }
            },
            Pane::Context => {
                self.context_visible = !self.context_visible;
                if self.context_visible && self.context_width < 4 {
                    self.context_width = 24;
                }
            },
            Pane::Bottom => {
                self.bottom_visible = !self.bottom_visible;
                if self.bottom_visible && self.bottom_height < 4 {
                    self.bottom_height = 10;
                }
            },
        }
        self.recompute();
    }

    /// Moves a separator by a number of cells and fits the panels again.
    pub fn drag_separator(&mut self, sep: Separator, delta: i16)
        requires
            old(self).wf(),
        ensures
            final(self).wf(),
            final(self).geometry() == fitted(dragged(old(self).geometry(), sep, delta as int)),
            final(self).tabs() == old(self).tabs(),
    {
        let d: i32 = delta as i32;
        match sep {
            Separator::PrimaryRight => {
                if self.primary_visible {
                    self.left_width = cells(self.left_width as i32 + d);
                }
            },
            Separator::ContextLeft => {
                if self.context_visible {
                    self.context_width = cells(self.context_width as i32 - d);
                }
            },
            Separator::BottomTop => {
                if self.bottom_visible {
                    self.bottom_height = cells(self.bottom_height as i32 - d);
                }
            },
        }
        self.recompute();
    }

    pub fn set_active_tab(&mut self, p: Pane, tab: usize)
        ensures
            final(self).geometry() == old(self).geometry(),
            final(self).tabs() == (match p {
                Pane::Primary => TabChoice { primary_active_tab: tab, ..old(self).tabs() },
                Pane::Context => TabChoice { context_active_tab: tab, ..old(self).tabs() },
                Pane::Bottom => TabChoice { bottom_active_tab: tab, ..old(self).tabs() },
            }),
    {
        match p {
            Pane::Primary => self.primary_active_tab = tab,
            Pane::Context => self.context_active_tab = tab,
            Pane::Bottom => self.bottom_active_tab = tab,
        }
    }

    /// Brings the tab of a document to the front; opens one at the end if there is
    /// none.
    pub fn open_or_focus_editor(&mut self, id: DocumentId)
        ensures
            final(self).geometry() == old(self).geometry(),
            final(self).tabs() == tabs_with(old(self).tabs(), id),
    {
        let mut i: usize = 0;
        while i < self.editor_tabs.len()
            invariant
                *self == *old(self),
                i <= self.editor_tabs@.len(),
                first_tab_of(self.editor_tabs@, id, 0) == first_tab_of(
                    self.editor_tabs@,
                    id,
                    i as int,
                ),
            decreases self.editor_tabs@.len() - i,
        {
            if self.editor_tabs[i].doc_id == id {
                self.active_editor_tab = i;
                return ;
            }
            i += 1;
        }
        self.editor_tabs.push(
            EditorTabState {
                doc_id: id,
                scroll_line: 0,
                cursor_byte: 0,
                selection_anchor: None,
            },
        );
        self.active_editor_tab = self.editor_tabs.len() - 1;
    }

    /// Closes a tab; the last tab becomes active if the active one is gone.
    pub fn close_editor_tab(&mut self, idx: usize)
        ensures
            final(self).geometry() == old(self).geometry(),
            final(self).tabs() == tabs_without(old(self).tabs(), idx as int),
    {
        if idx < self.editor_tabs.len() {
            self.editor_tabs.remove(idx);
            if self.editor_tabs.len() > 0 && self.active_editor_tab >= self.editor_tabs.len() {
                self.active_editor_tab = self.editor_tabs.len() - 1;
            }
        }
    }

    /// The active tab, if there is one.
    pub fn current_editor(&self) -> (tab: Option<&EditorTabState>)
        ensures
            tab is Some <==> self.active_editor_tab < self.editor_tabs@.len(),
            tab is Some ==> *tab->0 == self.editor_tabs@[self.active_editor_tab as int],
    {
        if self.active_editor_tab < self.editor_tabs.len() {
            Some(&self.editor_tabs[self.active_editor_tab])
        } else {
            None
        }
    }

    /// Replaces the active tab; does nothing if there is none.
    pub fn set_current_editor(&mut self, tab: EditorTabState)
        ensures
            final(self).geometry() == old(self).geometry(),
            final(self).tabs() == tabs_with_current(old(self).tabs(), tab),
    {
        if self.active_editor_tab < self.editor_tabs.len() {
            let active: usize = self.active_editor_tab;
            self.editor_tabs.set(active, tab);
        }
    }

    /// The active tab, to be changed in place.
    pub fn current_editor_mut(&mut self) -> (tab: Option<&mut EditorTabState>)
        ensures
            match tab {
                Some(t) => {
                    &&& old(self).active_editor_tab < old(self).editor_tabs@.len()
                    &&& *t == current_tab(old(self).tabs())
                    &&& final(self).geometry() == old(self).geometry()
                    &&& final(self).tabs() == tabs_with_current(old(self).tabs(), *final(t))
                },
                None => old(self).active_editor_tab >= old(self).editor_tabs@.len()
                    && *final(self) == *old(self),
            },
    {
        if self.active_editor_tab < self.editor_tabs.len() {
            let i: usize = self.active_editor_tab;
            Some(&mut self.editor_tabs[i])
        } else {
            None
        }
    }

    /// Puts the cursor of the active tab at a byte and drops its selection.
    pub fn set_editor_cursor(&mut self, byte: usize)
        ensures
            final(self).geometry() == old(self).geometry(),
            final(self).tabs() == tabs_with_current(
                old(self).tabs(),
                (EditorTabState {
                    cursor_byte: byte,
                    selection_anchor: None,
                    ..current_tab(old(self).tabs())
                }),
            ),
    {
        if self.active_editor_tab < self.editor_tabs.len() {
            let tab: EditorTabState = self.editor_tabs[self.active_editor_tab];
            self.set_current_editor(
                EditorTabState { cursor_byte: byte, selection_anchor: None, ..tab },
            );
        }
    }

    /// Selects from an anchor to the cursor in the active tab.
    pub fn set_editor_selection(&mut self, anchor: usize, cursor: usize)
        ensures
            final(self).geometry() == old(self).geometry(),
            final(self).tabs() == tabs_with_current(
                old(self).tabs(),
                (EditorTabState {
                    cursor_byte: cursor,
                    selection_anchor: Some(anchor),
                    ..current_tab(old(self).tabs())
                }),
            ),
    {
        if self.active_editor_tab < self.editor_tabs.len() {
            let tab: EditorTabState = self.editor_tabs[self.active_editor_tab];
            self.set_current_editor(
                EditorTabState { cursor_byte: cursor, selection_anchor: Some(anchor), ..tab },
            );
        }
    }

    /// Moves the cursor of the active tab; the selection is extended, from the old
    /// cursor if it was empty, or dropped.
    pub fn extend_or_move_cursor(&mut self, new_byte: usize, extend: bool)
        ensures
            final(self).geometry() == old(self).geometry(),
            final(self).tabs() == tabs_with_current(
                old(self).tabs(),
                tab_moved(current_tab(old(self).tabs()), new_byte, extend),
            ),
    {
        if self.active_editor_tab < self.editor_tabs.len() {
            let tab: EditorTabState = self.editor_tabs[self.active_editor_tab];
            let anchor: Option<usize> = if extend {
                match tab.selection_anchor {
                    None => Some(tab.cursor_byte),
                    Some(a) => Some(a),
                }
            } else {
                None
            };
            self.set_current_editor(
                EditorTabState { cursor_byte: new_byte, selection_anchor: anchor, ..tab },
            );
        }
    }

    /// Puts the fixed sizes back after the stored part of a layout was read.
    pub fn restore_fixed_fields(&mut self)
        ensures
            final(self).geometry() == (Geometry {
                toolbar_h: 1,
                authority_h: 2,
                status_h: 1,
                bottom_header_h: 1,
                stripe_w: 3,
                min_editor_w: 40,
                ..old(self).geometry()
            }),
            final(self).tabs() == old(self).tabs(),
    {
        self.toolbar_h = 1;
        self.authority_h = 2;
        self.status_h = 1;
        self.bottom_header_h = 1;
        self.stripe_w = 3;
        self.min_editor_w = 40;
    }
}

/// The sizes of a new layout, before it is fitted.
pub open spec fn default_geometry() -> Geometry {
    Geometry {
        width: 120,
        height: 36,
        primary_visible: true,
        context_visible: false,
        bottom_visible: false,
        left_width: 28,
        context_width: 24,
        bottom_height: 10,
        toolbar_h: 1,
        authority_h: 2,
        status_h: 1,
        bottom_header_h: 1,
        stripe_w: 4,
        min_editor_w: 40,
    }
}

pub open spec fn no_tabs() -> TabChoice {
    TabChoice {
        primary_active_tab: 0,
        context_active_tab: 0,
        bottom_active_tab: 0,
        active_editor_tab: 0,
        editor_tabs: Seq::empty(),
    }
}

impl Default for WorkbenchLayout {
    fn default() -> (l: Self)
        ensures
            l.wf(),
            l.geometry() == default_geometry(),
            l.tabs() == no_tabs(),
    {
        let l = WorkbenchLayout {
            width: 120,
            height: 36,
            primary_visible: true,
            context_visible: false,
            bottom_visible: false,
            left_width: 28,
            context_width: 24,
            bottom_height: 10,
            primary_active_tab: 0,
            context_active_tab: 0,
            bottom_active_tab: 0,
            editor_tabs: Vec::new(),
            active_editor_tab: 0,
            toolbar_h: 1,
            authority_h: 2,
            status_h: 1,
            bottom_header_h: 1,
            stripe_w: 4,
            min_editor_w: 40,
        };
        assert(l.editor_tabs@ =~= Seq::empty());
        l
    }
}

impl Clone for WorkbenchLayout {
    fn clone(&self) -> (l: Self)
        ensures
            l.geometry() == self.geometry(),
            l.tabs() == self.tabs(),
    {
        let mut editor_tabs: Vec<EditorTabState> = Vec::new();
        for i in 0..self.editor_tabs.len()
            invariant
                editor_tabs@ == self.editor_tabs@.take(i as int),
        {
            editor_tabs.push(self.editor_tabs[i]);
            assert(editor_tabs@ =~= self.editor_tabs@.take(i + 1));
        }
        assert(editor_tabs@ =~= self.editor_tabs@);
        WorkbenchLayout { editor_tabs, ..*self }
    }
}

/// The sizes after a terminal resize, before they are fitted.
pub open spec fn resized(g: Geometry, w: u16, h: u16) -> Geometry {
    Geometry {
        width: if w >= 60 {
            w
        } else {
            60
        },
        height: if h >= 20 {
            h
        } else {
            20
        },
        bottom_header_h: 1,
        ..g
    }
}

/// The sizes after a pane was shown or hidden, before they are fitted.
pub open spec fn toggled(g: Geometry, p: Pane) -> Geometry {
    match p {
        Pane::Primary => Geometry {
            primary_visible: !g.primary_visible,
            left_width: if !g.primary_visible && g.left_width < 4 {
                28
            } else {
                g.left_width
            },
            ..g
        },
        Pane::Context => Geometry {
            context_visible: !g.context_visible,
            context_width: if !g.context_visible && g.context_width < 4 {
                24
            } else {
                g.context_width
            },
            ..g
        },
        Pane::Bottom => Geometry {
            bottom_visible: !g.bottom_visible,
            bottom_height: if !g.bottom_visible && g.bottom_height < 4 {
                10
            } else {
                g.bottom_height
            },
            ..g
        },
    }
}

/// A size of at least four cells, reduced to sixteen bits.
pub open spec fn cells_of(size: int) -> u16 {
    if size >= 4 {
        (size % 65536) as u16
    } else {
        4
    }
}

fn cells(size: i32) -> (n: u16)
    ensures
        n == cells_of(size as int),
{
    if size >= 4 {
        (size % 65536) as u16
    } else {
        4
    }
}

/// The sizes after a separator was dragged, before they are fitted.
pub open spec fn dragged(g: Geometry, sep: Separator, delta: int) -> Geometry {
    match sep {
        Separator::PrimaryRight => if g.primary_visible {
            Geometry { left_width: cells_of(g.left_width + delta), ..g }
        } else {
            g
        },
        Separator::ContextLeft => if g.context_visible {
            Geometry { context_width: cells_of(g.context_width - delta), ..g }
        } else {
            g
        },
        Separator::BottomTop => if g.bottom_visible {
            Geometry { bottom_height: cells_of(g.bottom_height - delta), ..g }
        } else {
            g
        },
    }
}

/// The first tab of a document, from index `i` on; the number of tabs if there
/// is none.
pub open spec fn first_tab_of(tabs: Seq<EditorTabState>, id: DocumentId, i: int) -> int
    decreases tabs.len() - i,
{
    if i >= tabs.len() {
        tabs.len() as int
    } else if tabs[i].doc_id == id {
        i
    } else {
        first_tab_of(tabs, id, i + 1)
    }
}

/// The tabs after a document was opened or brought to the front.
pub open spec fn tabs_with(t: TabChoice, id: DocumentId) -> TabChoice {
    let i = first_tab_of(t.editor_tabs, id, 0);
    TabChoice {
        active_editor_tab: i as usize,
        editor_tabs: if i < t.editor_tabs.len() {
            t.editor_tabs
        } else {
            t.editor_tabs.push(
                EditorTabState {
                    doc_id: id,
                    scroll_line: 0,
                    cursor_byte: 0,
                    selection_anchor: None,
                },
            )
        },
        ..t
    }
}

/// The tabs after one was closed.
pub open spec fn tabs_without(t: TabChoice, idx: int) -> TabChoice {
    if idx < t.editor_tabs.len() {
        let left = t.editor_tabs.remove(idx);
        TabChoice {
            editor_tabs: left,
            active_editor_tab: if left.len() > 0 && t.active_editor_tab >= left.len() {
                (left.len() - 1) as usize
            } else {
                t.active_editor_tab
            },
            ..t
        }
    } else {
        t
    }
}

/// The active tab.
pub open spec fn current_tab(t: TabChoice) -> EditorTabState {
    t.editor_tabs[t.active_editor_tab as int]
}

/// The tabs with the active one replaced, if there is one.
pub open spec fn tabs_with_current(t: TabChoice, tab: EditorTabState) -> TabChoice {
    if t.active_editor_tab < t.editor_tabs.len() {
        TabChoice { editor_tabs: t.editor_tabs.update(t.active_editor_tab as int, tab), ..t }
    } else {
        t
    }
}

/// A tab whose cursor was moved.
pub open spec fn tab_moved(tab: EditorTabState, byte: usize, extend: bool) -> EditorTabState {
    EditorTabState {
        cursor_byte: byte,
        selection_anchor: if !extend {
            None
        } else if tab.selection_anchor is None {
            Some(tab.cursor_byte)
        } else {
            tab.selection_anchor
        },
        ..tab
    }
}

proof fn lemma_first_tab_of(tabs: Seq<EditorTabState>, id: DocumentId, i: int)
    requires
        0 <= i <= tabs.len(),
    ensures
        i <= first_tab_of(tabs, id, i) <= tabs.len(),
        first_tab_of(tabs, id, i) < tabs.len() ==> tabs[first_tab_of(tabs, id, i)].doc_id == id,
        forall|j: int| i <= j < first_tab_of(tabs, id, i) ==> (#[trigger] tabs[j]).doc_id != id,
    decreases tabs.len() - i,
{
    if i < tabs.len() && tabs[i].doc_id != id {
        lemma_first_tab_of(tabs, id, i + 1);
    }
}

/// A document that is opened is shown in the active tab. A tab that it has already is
/// kept with its cursor, and only where it has none one is added, at the end, which
/// starts at the top of the text. No other tab changes.
pub proof fn opened_documents_are_shown(t: TabChoice, id: DocumentId)
    requires
        t.editor_tabs.len() < usize::MAX,
    ensures
        ({
            let after = tabs_with(t, id);
            let at = after.active_editor_tab as int;
            &&& 0 <= at < after.editor_tabs.len()
            &&& after.editor_tabs[at].doc_id == id
            &&& forall|j: int|
                0 <= j < t.editor_tabs.len() ==> #[trigger] after.editor_tabs[j]
                    == t.editor_tabs[j]
            &&& (exists|j: int|
                0 <= j < t.editor_tabs.len() && (#[trigger] t.editor_tabs[j]).doc_id == id)
                ==> after.editor_tabs.len() == t.editor_tabs.len()
            &&& (forall|j: int|
                0 <= j < t.editor_tabs.len() ==> (#[trigger] t.editor_tabs[j]).doc_id != id)
                ==> after.editor_tabs.len() == t.editor_tabs.len() + 1
                && after.editor_tabs[at].cursor_byte == 0 && after.editor_tabs[at].scroll_line == 0
                && after.editor_tabs[at].selection_anchor is None
            &&& after.primary_active_tab == t.primary_active_tab
            &&& after.bottom_active_tab == t.bottom_active_tab
            &&& after.context_active_tab == t.context_active_tab
        }),
{
    lemma_first_tab_of(t.editor_tabs, id, 0);
}

/// Closing a tab takes away that tab alone, and a tab that is left stays active.
pub proof fn closing_takes_one_tab_away(t: TabChoice, idx: int)
    requires
        0 <= idx < t.editor_tabs.len() <= usize::MAX,
        t.active_editor_tab < t.editor_tabs.len(),
    ensures
        ({
            let after = tabs_without(t, idx);
            &&& after.editor_tabs.len() == t.editor_tabs.len() - 1
            &&& forall|j: int|
                0 <= j < idx ==> #[trigger] after.editor_tabs[j] == t.editor_tabs[j]
            &&& forall|j: int|
                idx <= j < after.editor_tabs.len() ==> #[trigger] after.editor_tabs[j]
                    == t.editor_tabs[j + 1]
            &&& after.editor_tabs.len() > 0 ==> after.active_editor_tab < after.editor_tabs.len()
        }),
{
}

/// Showing or hiding a pane twice leaves what is visible as it was; the other panes and
/// their sizes stay, and a pane that is shown has at least four cells.
pub proof fn toggling_twice_changes_nothing(g: Geometry, p: Pane)
    ensures
        ({
            let once = toggled(g, p);
            let twice = toggled(once, p);
            &&& twice.primary_visible == g.primary_visible
            &&& twice.context_visible == g.context_visible
            &&& twice.bottom_visible == g.bottom_visible
            &&& p == Pane::Primary ==> once.primary_visible == !g.primary_visible
                && once.context_visible == g.context_visible && once.bottom_visible
                == g.bottom_visible && (once.primary_visible ==> once.left_width >= 4)
            &&& p == Pane::Context ==> once.context_visible == !g.context_visible
                && once.primary_visible == g.primary_visible && once.bottom_visible
                == g.bottom_visible && (once.context_visible && !g.context_visible
                ==> once.context_width >= 4)
            &&& p == Pane::Bottom ==> once.bottom_visible == !g.bottom_visible
                && once.primary_visible == g.primary_visible && once.context_visible
                == g.context_visible && (once.bottom_visible ==> once.bottom_height >= 4)
            &&& p != Pane::Primary ==> once.left_width == g.left_width
            &&& p != Pane::Context ==> once.context_width == g.context_width
            &&& p != Pane::Bottom ==> once.bottom_height == g.bottom_height
            &&& p == Pane::Primary && g.left_width >= 4 ==> once.left_width == g.left_width
            &&& p == Pane::Context && g.context_width >= 4 ==> once.context_width
                == g.context_width
            &&& p == Pane::Bottom && g.bottom_height >= 4 ==> once.bottom_height
                == g.bottom_height
        }),
{
}

/// A separator follows the mouse: dragged to the right it widens the pane on its left
/// and narrows the one on its right by as many cells, dragged down it lowers the bottom
/// pane. Dragging it back restores the sizes, as long as four cells are left.
pub proof fn separators_follow_the_mouse(g: Geometry, delta: int)
    ensures
        g.primary_visible && 4 <= g.left_width + delta <= u16::MAX ==> dragged(
            g,
            Separator::PrimaryRight,
            delta,
        ).left_width == g.left_width + delta && dragged(g, Separator::PrimaryRight, delta)
            == (Geometry { left_width: dragged(g, Separator::PrimaryRight, delta).left_width, ..g }),
        g.context_visible && 4 <= g.context_width - delta <= u16::MAX ==> dragged(
            g,
            Separator::ContextLeft,
            delta,
        ).context_width == g.context_width - delta && dragged(g, Separator::ContextLeft, delta)
            == (Geometry {
            context_width: dragged(g, Separator::ContextLeft, delta).context_width,
            ..g
        }),
        g.bottom_visible && 4 <= g.bottom_height - delta <= u16::MAX ==> dragged(
            g,
            Separator::BottomTop,
            delta,
        ).bottom_height == g.bottom_height - delta && dragged(g, Separator::BottomTop, delta)
            == (Geometry {
            bottom_height: dragged(g, Separator::BottomTop, delta).bottom_height,
            ..g
        }),
        !g.primary_visible ==> dragged(g, Separator::PrimaryRight, delta) == g,
        !g.context_visible ==> dragged(g, Separator::ContextLeft, delta) == g,
        !g.bottom_visible ==> dragged(g, Separator::BottomTop, delta) == g,
        g.primary_visible && g.left_width + delta < 4 ==> dragged(
            g,
            Separator::PrimaryRight,
            delta,
        ).left_width == 4,
        g.left_width >= 4 && 4 <= g.left_width + delta <= u16::MAX ==> dragged(
            dragged(g, Separator::PrimaryRight, delta),
            Separator::PrimaryRight,
            -delta,
        ).left_width == g.left_width,
        g.context_width >= 4 && 4 <= g.context_width - delta <= u16::MAX ==> dragged(
            dragged(g, Separator::ContextLeft, delta),
            Separator::ContextLeft,
            -delta,
        ).context_width == g.context_width,
{
}

/// A new size of the screen is taken as it is, but never below sixty columns and twenty
/// rows. Fitting the panes makes none of them larger than it was, but for the least
/// height of the bottom pane, shows none that was hidden, and gives up the context pane
/// before the primary one.
pub proof fn panes_are_fitted_to_the_screen(g: Geometry, w: u16, h: u16)
    requires
        geometry_wf(g),
    ensures
        w >= 60 ==> resized(g, w, h).width == w,
        w < 60 ==> resized(g, w, h).width == 60,
        h >= 20 ==> resized(g, w, h).height == h,
        h < 20 ==> resized(g, w, h).height == 20,
        resized(g, w, h).left_width == g.left_width,
        resized(g, w, h).context_width == g.context_width,
        resized(g, w, h).bottom_height == g.bottom_height,
        fitted(g).width == g.width,
        fitted(g).height == g.height,
        fitted(g).left_width <= g.left_width,
        fitted(g).context_width <= g.context_width,
        fitted(g).bottom_height <= g.bottom_height || fitted(g).bottom_height == 4,
        fitted(g).primary_visible ==> g.primary_visible,
        fitted(g).context_visible ==> g.context_visible,
        fitted(g).bottom_visible == g.bottom_visible,
        fitted(g).context_visible && fitted(g).context_width < g.context_width ==> fitted(
            g,
        ).left_width == 0,
        g.primary_visible && g.context_visible && g.width >= 2 * 4 + g.left_width + g.context_width
            + g.min_editor_w ==> fitted(g).left_width == g.left_width && fitted(g).context_width
            == g.context_width,
{
}

/// What a pane covers is inside it: a cell is covered if and only if it lies between
/// the left and right and between the upper and lower edge.
pub proof fn panes_cover_what_lies_inside(r: Rect, x: u16, y: u16)
    requires
        r.x + r.width <= u16::MAX,
        r.y + r.height <= u16::MAX,
    ensures
        covers(r, x, y) <==> r.x <= x && x < r.x + r.width && r.y <= y && y < r.y + r.height,
{
}

} // verus!
