//! The terminal and the sizes of the panes.
use vstd::prelude::*;

use super::status::StatusMessage;
use super::{
    next_launch, no_effects, selected_authority, selected_ssh, trust_of, App, AuthorityKind,
    Effects, ProjectTreeSnapshot, PtySessionState, TerminalState, TrustLevel,
};
use crate::authority::ssh::connected;
use crate::authority::types::{AuthorityRequest, PtyRequest};
use crate::document::WorkspaceEpoch;
use crate::layout::{
    bottom_rect, current_tab, fitted, resized, tabs_with_current, EditorTabState, Geometry,
    Landmark, Pane, TabChoice,
};
use crate::protocol;
use crate::protocol::pty::PtySize;
use crate::protocol::request::CommandSpec;
use crate::words::texts;

verus! {

/// The rows or columns inside the borders of a pane, at least one.
pub open spec fn inside(size: u16) -> u16 {
    if size > 3 {
        (size - 2) as u16
    } else {
        1
    }
}

fn inside_border(size: u16) -> (n: u16)
    ensures
        n == inside(size),
{
    if size > 3 {
        size - 2
    } else {
        1
    }
}

/// The rows and columns of the terminal.
pub open spec fn terminal_cells(g: Geometry) -> (u16, u16) {
    (inside(bottom_rect(g).height), inside(bottom_rect(g).width))
}

/// The terminal once nothing is started or typed into any more.
pub open spec fn terminal_idle(t: TerminalState) -> TerminalState {
    TerminalState {
        starting: false,
        launch_id: next_launch(t.launch_id),
        capture: false,
        ..t
    }
}

/// The terminal once its session is gone too.
pub open spec fn terminal_closed(t: TerminalState) -> TerminalState {
    TerminalState { session: None, ..terminal_idle(t) }
}

/// What ends with the session of a terminal.
pub open spec fn ends_session(t: TerminalState) -> Effects {
    Effects { end_terminal: t.session is Some, ..no_effects() }
}

/// The layout with the terminal shown.
pub open spec fn terminal_shown(before: App, after: App) -> bool {
    &&& after.layout.geometry() == Geometry { bottom_visible: true, ..before.layout.geometry() }
    &&& after.layout.tabs() == TabChoice { bottom_active_tab: 0, ..before.layout.tabs() }
}

/// Whether the selected authority is reached over SSH and cannot be reached now.
pub open spec fn ssh_unreachable(app: App) -> bool {
    selected_authority(app) is Some && selected_authority(app)->0.kind == AuthorityKind::Ssh && !(
    selected_ssh(app) < app.ssh_authorities@.len() && connected(
        app.ssh_authorities@[selected_ssh(app)],
    ))
}

/// The kind of the selected authority; the local one without any.
pub open spec fn selected_kind(app: App) -> AuthorityKind {
    match selected_authority(app) {
        Some(a) => a.kind,
        None => AuthorityKind::Local,
    }
}

/// What opening the terminal does: it is shown; it is started only where there is
/// trust and a connection and no session runs; a running one gets what is typed.
pub open spec fn terminal_opened(before: App, after: App, effects: Effects) -> bool {
    let (terminal, status, todo) = if trust_of(before) != TrustLevel::Trusted {
        (terminal_idle(before.terminal), StatusMessage::TerminalBlocked, no_effects())
    } else if ssh_unreachable(before) {
        (terminal_idle(before.terminal), StatusMessage::SshNotConnected, no_effects())
    } else if before.terminal.session == Some(PtySessionState::Running) {
        (TerminalState { capture: true, ..before.terminal }, before.status, no_effects())
    } else {
        (
            TerminalState {
                session: None,
                starting: true,
                launch_id: next_launch(before.terminal.launch_id),
                capture: false,
            },
            StatusMessage::TerminalStarting(selected_kind(before)),
            ends_session(before.terminal),
        )
    };
    &&& after == App {
        layout: after.layout,
        focus: Landmark::BottomPane,
        terminal,
        status,
        ..before
    }
    &&& terminal_shown(before, after)
    &&& effects == todo
}

/// No terminal is started without trust in the selected authority.
pub proof fn terminals_start_only_with_trust(before: App, after: App, effects: Effects)
    requires
        terminal_opened(before, after, effects),
        after.terminal.starting,
        !before.terminal.starting,
    ensures
        trust_of(before) == TrustLevel::Trusted,
        !ssh_unreachable(before),
{
}

/// What the mouse wheel does: it scrolls the editor or the project pane, never
/// above the top.
pub open spec fn wheel_scrolled(before: App, landmark: Landmark, lines: i32, after: App) -> bool {
    let tab = current_tab(before.layout.tabs());
    if landmark == Landmark::Editor {
        &&& after == App { layout: after.layout, ..before }
        &&& after.layout.geometry() == before.layout.geometry()
        &&& after.layout.tabs() == tabs_with_current(
            before.layout.tabs(),
            EditorTabState { scroll_line: scrolled(tab.scroll_line, lines), ..tab },
        )
    } else if landmark == Landmark::PrimaryPane {
        after == App {
            project: ProjectTreeSnapshot {
                scroll: scrolled(before.project.scroll, lines),
                ..before.project
            },
            ..before
        }
    } else {
        after == before
    }
}

/// Whether the line that the mouse wheel scrolls to can be counted.
pub open spec fn wheel_fits(app: App, landmark: Landmark, lines: i32) -> bool {
    let tabs = app.layout.tabs();
    if landmark == Landmark::Editor {
        tabs.active_editor_tab < tabs.editor_tabs.len() ==> current_tab(tabs).scroll_line + lines
            <= i32::MAX
    } else if landmark == Landmark::PrimaryPane {
        app.project.scroll + lines <= i32::MAX
    } else {
        true
    }
}

/// A line moved by some lines, never above the top.
pub open spec fn scrolled(line: u16, lines: i32) -> u16 {
    let wanted = line + lines;
    if wanted < 0 {
        0
    } else {
        wanted as u16
    }
}

fn scroll_by(line: u16, lines: i32) -> (r: u16)
    requires
        line + lines <= i32::MAX,
    ensures
        r == scrolled(line, lines),
{
    let wanted: i32 = line as i32 + lines;
    if wanted < 0 {
        0
    } else {
        #[verifier::truncate]
        (wanted as u16)
    }
}

/// What a terminal is to be started with.
#[derive(Debug)]
#[allow(inconsistent_fields)]
pub enum TerminalSpawnSpec {
    Local { root: String, epoch: WorkspaceEpoch, launch_id: u64, rows: u16, cols: u16 },
    Remote {
        epoch: WorkspaceEpoch,
        launch_id: u64,
        authority_label: String,
        request: AuthorityRequest<PtyRequest>,
    },
}

/// Whether a command starts a login shell in a directory.
pub open spec fn is_login_shell(command: CommandSpec, directory: String) -> bool {
    &&& command.program@ == "/bin/sh"@
    &&& texts(command.args@) == seq!["-l"@]
    &&& command.cwd == directory
    &&& command.env@.len() == 2
    &&& command.env@[0].0@ == "PATH"@
    &&& command.env@[0].1@ == "/usr/local/bin:/usr/bin:/bin"@
    &&& command.env@[1].0@ == "TERM"@
    &&& command.env@[1].1@ == "xterm-256color"@
}

/// Whether a terminal may be started now.
pub open spec fn may_start(app: App) -> bool {
    app.terminal.starting && app.terminal.session is None && trust_of(app) == TrustLevel::Trusted
}

/// What the terminal that is being started is to be started with, if it may be.
pub open spec fn spawn_planned(app: App, plan: Option<TerminalSpawnSpec>) -> bool {
    let cells = terminal_cells(app.layout.geometry());
    let k = selected_ssh(app);
    if !may_start(app) || selected_authority(app) is None {
        plan is None
    } else {
        match selected_authority(app)->0.kind {
            AuthorityKind::Local => plan == Some(
                TerminalSpawnSpec::Local {
                    root: app.workspace_root,
                    epoch: app.epoch,
                    launch_id: app.terminal.launch_id,
                    rows: cells.0,
                    cols: cells.1,
                },
            ),
            AuthorityKind::Ssh => if k < app.ssh_authorities@.len() && connected(
                app.ssh_authorities@[k],
            ) {
                plan matches Some(TerminalSpawnSpec::Remote {
                    epoch,
                    launch_id,
                    authority_label,
                    request,
                }) && epoch == app.epoch && launch_id == app.terminal.launch_id && authority_label
                    == selected_authority(app)->0.label && request.workspace_epoch.0 == app.epoch.0
                    && request.environment_epoch
                    == app.ssh_authorities@[k].base.environment_epoch && request.document_revision
                    is None && request.payload.size == (PtySize {
                    rows: cells.0,
                    cols: cells.1,
                    pixel_width: 0,
                    pixel_height: 0,
                }) && is_login_shell(request.payload.command, app.ssh_authorities@[k].base.root)
            } else {
                plan is None
            },
            AuthorityKind::DevContainer => plan is None,
        }
    }
}

/// Whether a session that was started is still the one that is waited for.
pub open spec fn is_awaited(app: App, epoch: WorkspaceEpoch, launch_id: u64) -> bool {
    epoch == app.epoch && launch_id == app.terminal.launch_id && app.terminal.starting
}

impl App {
    /// Shows the terminal, and starts one or gives it what is typed where that may
    /// be.
    pub fn open_terminal(&mut self) -> (effects: Effects)
        requires
            old(self).wf(),
        ensures
            final(self).wf(),
            terminal_opened(*old(self), *final(self), effects),
    {
        let mut effects = Effects::none();
        let k: usize = self.current_ssh_authority();
        self.layout.bottom_visible = true;
        self.layout.bottom_active_tab = 0;
        self.focus = Landmark::BottomPane;
        let kind: AuthorityKind = if self.current_authority < self.authorities.len() {
            self.authorities[self.current_authority].kind
        } else {
            AuthorityKind::Local
        };
        let reachable = k < self.ssh_authorities.len() && self.ssh_authorities[k].is_connected();
        let running = match self.terminal.session {
            Some(state) => state == PtySessionState::Running,
            None => false,
        };
        if self.current_trust() != TrustLevel::Trusted {
            self.idle_terminal();
            self.status = StatusMessage::TerminalBlocked;
        } else if kind == AuthorityKind::Ssh && !reachable {
            self.idle_terminal();
            self.status = StatusMessage::SshNotConnected;
        } else if running {
            self.terminal.capture = true;
        } else {
            effects.end_terminal = self.terminal.session.is_some();
            self.terminal = TerminalState {
                session: None,
                starting: true,
                launch_id: self.terminal.launch_id.wrapping_add(1),
                capture: false,
            };
            self.status = StatusMessage::TerminalStarting(kind);
        }
        effects
    }

    /// Gives up starting a terminal, and typing into it.
    pub(crate) fn idle_terminal(&mut self)
        ensures
            *final(self) == (App { terminal: terminal_idle(old(self).terminal), ..*old(self) }),
    {
        self.terminal.starting = false;
        self.terminal.launch_id = self.terminal.launch_id.wrapping_add(1);
        self.terminal.capture = false;
    }

    /// Ends the terminal, and whatever start of one is under way.
    pub fn close_terminal(&mut self) -> (effects: Effects)
        ensures
            *final(self) == (App { terminal: terminal_closed(old(self).terminal), ..*old(self) }),
            effects == ends_session(old(self).terminal),
    {
        let mut effects = Effects::none();
        effects.end_terminal = self.terminal.session.is_some();
        self.idle_terminal();
        self.terminal.session = None;
        effects
    }

    /// Hands what was typed to the terminal, while it gets what is typed.
    pub fn terminal_input(&mut self, bytes: Vec<u8>) -> (effects: Effects)
        ensures
            *final(self) == *old(self),
            effects == (Effects {
                terminal_input: if old(self).terminal.capture && old(self).terminal.session is Some {
                    Some(bytes)
                } else {
                    None
                },
                ..no_effects()
            }),
    {
        let mut effects = Effects::none();
        if self.terminal.capture && self.terminal.session.is_some() {
            effects.terminal_input = Some(bytes);
        }
        effects
    }

    /// Takes note that the terminal could not take what was typed: it is ended.
    pub fn terminal_input_failed(&mut self, error: String) -> (effects: Effects)
        ensures
            *final(self) == (App {
                terminal: TerminalState { session: None, capture: false, ..old(self).terminal },
                status: StatusMessage::TerminalInputFailed(error),
                ..*old(self)
            }),
            effects == ends_session(old(self).terminal),
    {
        let mut effects = Effects::none();
        effects.end_terminal = self.terminal.session.is_some();
        self.terminal.session = None;
        self.terminal.capture = false;
        self.status = StatusMessage::TerminalInputFailed(error);
        effects
    }

    /// Gives what is typed back to the editor.
    pub fn release_terminal_capture(&mut self)
        ensures
            *final(self) == (App {
                terminal: TerminalState { capture: false, ..old(self).terminal },
                focus: Landmark::Editor,
                status: StatusMessage::CaptureReleased,
                ..*old(self)
            }),
    {
        self.terminal.capture = false;
        self.focus = Landmark::Editor;
        self.status = StatusMessage::CaptureReleased;
    }

    /// Fits the panes to a new size of the screen, and the terminal with them.
    pub fn resize(&mut self, width: u16, height: u16) -> (effects: Effects)
        requires
            old(self).wf(),
        ensures
            final(self).wf(),
            *final(self) == (App { layout: final(self).layout, ..*old(self) }),
            final(self).layout.geometry() == fitted(
                resized(old(self).layout.geometry(), width, height),
            ),
            final(self).layout.tabs() == old(self).layout.tabs(),
            effects == (Effects {
                terminal_size: if old(self).terminal.session is Some {
                    Some(terminal_cells(final(self).layout.geometry()))
                } else {
                    None
                },
                ..no_effects()
            }),
    {
        let mut effects = Effects::none();
        self.layout.resize(width, height);
        if self.terminal.session.is_some() {
            effects.terminal_size = Some(self.terminal_size());
        }
        effects
    }

    fn terminal_size(&self) -> (cells: (u16, u16))
        requires
            self.layout.wf(),
        ensures
            cells == terminal_cells(self.layout.geometry()),
    {
        let area = self.layout.rect_bottom();
        (inside_border(area.height), inside_border(area.width))
    }

    /// Scrolls with the mouse wheel.
    pub fn wheel(&mut self, landmark: Landmark, lines: i32)
        requires
            old(self).wf(),
            wheel_fits(*old(self), landmark, lines),
        ensures
            final(self).wf(),
            wheel_scrolled(*old(self), landmark, lines, *final(self)),
    {
        if landmark == Landmark::Editor {
            if self.layout.active_editor_tab < self.layout.editor_tabs.len() {
                let tab: EditorTabState = self.layout.editor_tabs[self.layout.active_editor_tab];
                self.layout.set_current_editor(
                    EditorTabState { scroll_line: scroll_by(tab.scroll_line, lines), ..tab },
                );
            }
        } else if landmark == Landmark::PrimaryPane {
            self.project.scroll = scroll_by(self.project.scroll, lines);
        }
    }

    /// Shows a tool of the left stripe.
    pub fn activate_left_tool(&mut self, n: u8)
        requires
            old(self).wf(),
        ensures
            final(self).wf(),
            *final(self) == (App {
                layout: final(self).layout,
                focus: Landmark::PrimaryPane,
                ..*old(self)
            }),
            final(self).layout.geometry() == (Geometry {
                primary_visible: true,
                ..old(self).layout.geometry()
            }),
            final(self).layout.tabs() == (TabChoice {
                primary_active_tab: if n > 0 {
                    (n - 1) as usize
                } else {
                    0
                },
                ..old(self).layout.tabs()
            }),
    {
        self.layout.primary_visible = true;
        let tab: usize = if n > 0 {
            (n - 1) as usize
        } else {
            0
        };
        self.layout.set_active_tab(Pane::Primary, tab);
        self.focus = Landmark::PrimaryPane;
    }

    /// What the terminal that is being started is to be started with.
    pub fn terminal_spawn_spec(&self) -> (plan: Option<TerminalSpawnSpec>)
        requires
            self.wf(),
        ensures
            spawn_planned(*self, plan),
    {
        if !self.terminal.starting || self.terminal.session.is_some() || self.current_trust()
            != TrustLevel::Trusted {
            return None;
        }
        if self.current_authority >= self.authorities.len() {
            return None;
        }
        let (rows, cols) = self.terminal_size();
        let current = &self.authorities[self.current_authority];
        match current.kind {
            AuthorityKind::Local => Some(
                TerminalSpawnSpec::Local {
                    root: self.workspace_root.clone(),
                    epoch: self.epoch,
                    launch_id: self.terminal.launch_id,
                    rows,
                    cols,
                },
            ),
            AuthorityKind::Ssh => {
                let k: usize = self.current_ssh_authority();
                if k >= self.ssh_authorities.len() || !self.ssh_authorities[k].is_connected() {
                    return None;
                }
                let authority = &self.ssh_authorities[k];
                let mut args: Vec<String> = Vec::new();
                args.push("-l".to_owned());
                assert(texts(args@) =~= seq!["-l"@]);
                let mut env: Vec<(String, String)> = Vec::new();
                env.push(("PATH".to_owned(), "/usr/local/bin:/usr/bin:/bin".to_owned()));
                env.push(("TERM".to_owned(), "xterm-256color".to_owned()));
                let request = AuthorityRequest::new(
                    PtyRequest {
                        command: CommandSpec {
                            program: "/bin/sh".to_owned(),
                            args,
                            cwd: authority.base.root.clone(),
                            env,
                        },
                        size: PtySize { rows, cols, pixel_width: 0, pixel_height: 0 },
                    },
                    protocol::request::WorkspaceEpoch(self.epoch.0),
                    authority.base.environment_epoch,
                    None,
                );
                Some(
                    TerminalSpawnSpec::Remote {
                        epoch: self.epoch,
                        launch_id: self.terminal.launch_id,
                        authority_label: current.label.clone(),
                        request,
                    },
                )
            },
            AuthorityKind::DevContainer => None,
        }
    }

    /// The rows and columns of a session that was started, if it is still the one
    /// that is waited for.
    pub fn begin_attach(
        &self,
        epoch: WorkspaceEpoch,
        launch_id: u64,
        session_epoch: protocol::request::WorkspaceEpoch,
    ) -> (cells: Option<(u16, u16)>)
        requires
            self.wf(),
        ensures
            cells == if is_awaited(*self, epoch, launch_id) && session_epoch.0 == epoch.0 {
                Some(terminal_cells(self.layout.geometry()))
            } else {
                None
            },
    {
        if epoch != self.epoch || launch_id != self.terminal.launch_id || !self.terminal.starting
            || session_epoch.0 != epoch.0 {
            return None;
        }
        Some(self.terminal_size())
    }

    /// Takes a session over that has its size, or says why it could not get it.
    pub fn attach_terminal(&mut self, authority_label: String, resize_error: Option<String>)
        ensures
            *final(self) == match resize_error {
                None => App {
                    terminal: TerminalState {
                        session: Some(PtySessionState::Running),
                        starting: false,
                        capture: true,
                        ..old(self).terminal
                    },
                    focus: Landmark::BottomPane,
                    status: StatusMessage::TerminalRunning(authority_label),
                    ..*old(self)
                },
                Some(error) => App {
                    terminal: TerminalState {
                        starting: false,
                        capture: false,
                        ..old(self).terminal
                    },
                    status: StatusMessage::TerminalResizeFailed(error),
                    ..*old(self)
                },
            },
    {
        self.terminal.starting = false;
        match resize_error {
            None => {
                self.terminal.session = Some(PtySessionState::Running);
                self.terminal.capture = true;
                self.focus = Landmark::BottomPane;
                self.status = StatusMessage::TerminalRunning(authority_label);
            },
            Some(error) => {
                self.terminal.capture = false;
                self.status = StatusMessage::TerminalResizeFailed(error);
            },
        }
    }

    /// Takes note that a terminal could not be started, if it is still the one that
    /// is waited for.
    pub fn fail_terminal_start(&mut self, epoch: WorkspaceEpoch, launch_id: u64, message: String)
        ensures
            *final(self) == if is_awaited(*old(self), epoch, launch_id) {
                App {
                    terminal: TerminalState {
                        starting: false,
                        capture: false,
                        ..old(self).terminal
                    },
                    status: StatusMessage::TerminalFailed(message),
                    ..*old(self)
                }
            } else {
                *old(self)
            },
    {
        if epoch == self.epoch && launch_id == self.terminal.launch_id && self.terminal.starting {
            self.terminal.starting = false;
            self.terminal.capture = false;
            self.status = StatusMessage::TerminalFailed(message);
        }
    }

    /// Takes note of the state that the session of the terminal is in.
    pub fn terminal_session_changed(&mut self, state: PtySessionState)
        ensures
            *final(self) == if old(self).terminal.session is Some {
                App {
                    terminal: TerminalState { session: Some(state), ..old(self).terminal },
                    ..*old(self)
                }
            } else {
                *old(self)
            },
    {
        if self.terminal.session.is_some() {
            self.terminal.session = Some(state);
        }
    }
}

/// A terminal that was closed or restarted meanwhile is not attached: its number is
/// no longer the one that is waited for.
pub proof fn superseded_terminals_are_refused(app: App, epoch: WorkspaceEpoch, launch_id: u64)
    requires
        is_awaited(app, epoch, launch_id),
    ensures
        !is_awaited(
            (App { terminal: terminal_closed(app.terminal), ..app }),
            epoch,
            launch_id,
        ),
{
}

/// The terminal fits between the borders of the bottom pane: two rows and two columns
/// are left for them, and at least one of each is the terminal's.
pub proof fn terminals_fit_their_pane(g: Geometry)
    ensures
        terminal_cells(g).0 >= 1,
        terminal_cells(g).1 >= 1,
        bottom_rect(g).height >= 3 ==> terminal_cells(g).0 + 2 == bottom_rect(g).height,
        bottom_rect(g).width >= 3 ==> terminal_cells(g).1 + 2 == bottom_rect(g).width,
{
}

/// A terminal that runs is kept when it is opened again, and gets what is typed; one
/// that is not running is started under a new number, after the one before has ended.
/// Opening it shows it and gives it the focus in any case, and changes no document.
pub proof fn terminals_are_opened_once(before: App, after: App, effects: Effects)
    requires
        terminal_opened(before, after, effects),
    ensures
        after.focus == Landmark::BottomPane,
        after.layout.geometry().bottom_visible,
        after.layout.tabs().bottom_active_tab == 0,
        after.layout.tabs().editor_tabs == before.layout.tabs().editor_tabs,
        after.buffers == before.buffers,
        trust_of(before) == TrustLevel::Trusted && !ssh_unreachable(before)
            && before.terminal.session == Some(PtySessionState::Running) ==> after.terminal.session
            == before.terminal.session && after.terminal.capture && after.terminal.launch_id
            == before.terminal.launch_id && !effects.end_terminal,
        trust_of(before) == TrustLevel::Trusted && !ssh_unreachable(before)
            && before.terminal.session != Some(PtySessionState::Running) ==> after.terminal.starting
            && !after.terminal.capture && after.terminal.session is None
            && after.terminal.launch_id != before.terminal.launch_id && effects.end_terminal
            == before.terminal.session is Some,
        trust_of(before) != TrustLevel::Trusted || ssh_unreachable(before)
            ==> !after.terminal.starting && !after.terminal.capture && after.terminal.launch_id
            != before.terminal.launch_id,
{
}

/// A terminal is started as it was asked for: on this machine in the root of the
/// workspace, on another machine in the root of its authority, under the number and the
/// epoch that are waited for, and in the size of its pane. It is not started without
/// trust, while one runs, or where none is asked for.
pub proof fn terminals_start_as_asked(app: App, plan: Option<TerminalSpawnSpec>)
    requires
        spawn_planned(app, plan),
    ensures
        !app.terminal.starting || app.terminal.session is Some || trust_of(app)
            != TrustLevel::Trusted ==> plan is None,
        plan matches Some(TerminalSpawnSpec::Local { root, epoch, launch_id, rows, cols }) ==> {
            &&& root == app.workspace_root
            &&& epoch == app.epoch
            &&& launch_id == app.terminal.launch_id
            &&& selected_kind(app) == AuthorityKind::Local
            &&& bottom_rect(app.layout.geometry()).height >= 3 ==> rows + 2 == bottom_rect(
                app.layout.geometry(),
            ).height
            &&& bottom_rect(app.layout.geometry()).width >= 3 ==> cols + 2 == bottom_rect(
                app.layout.geometry(),
            ).width
        },
        plan matches Some(TerminalSpawnSpec::Remote { epoch, launch_id, request, .. }) ==> {
            &&& epoch == app.epoch
            &&& launch_id == app.terminal.launch_id
            &&& selected_kind(app) == AuthorityKind::Ssh
            &&& request.payload.command.cwd == app.ssh_authorities@[selected_ssh(app)].base.root
            &&& request.workspace_epoch.0 == app.epoch.0
            &&& bottom_rect(app.layout.geometry()).height >= 3 ==> request.payload.size.rows + 2
                == bottom_rect(app.layout.geometry()).height
            &&& bottom_rect(app.layout.geometry()).width >= 3 ==> request.payload.size.cols + 2
                == bottom_rect(app.layout.geometry()).width
        },
        app.terminal.starting && app.terminal.session is None && trust_of(app)
            == TrustLevel::Trusted && selected_authority(app) is Some && selected_authority(
            app,
        )->0.kind == AuthorityKind::Local ==> plan is Some,
{
}

/// Scrolling goes by as many lines as it is told to and never above the top; scrolling
/// back leads to where it began, once there was room.
pub proof fn scrolling_goes_both_ways(line: u16, lines: i32)
    requires
        line + lines <= u16::MAX,
        lines > i32::MIN,
    ensures
        line + lines >= 0 ==> scrolled(line, lines) == line + lines,
        line + lines < 0 ==> scrolled(line, lines) == 0,
        line + lines >= 0 ==> scrolled(scrolled(line, lines), (-lines) as i32) == line,
{
}

/// The wheel scrolls the editor over the editor and the project pane over that pane,
/// and leaves everything else where it is, the cursor and the selected row among it.
pub proof fn wheels_scroll_one_pane(before: App, landmark: Landmark, lines: i32, after: App)
    requires
        wheel_scrolled(before, landmark, lines, after),
        before.layout.tabs().active_editor_tab < before.layout.tabs().editor_tabs.len(),
    ensures
        ({
            let tab = before.layout.tabs().editor_tabs[before.layout.tabs().active_editor_tab as int];
            let now = after.layout.tabs().editor_tabs[after.layout.tabs().active_editor_tab as int];
            &&& now.cursor_byte == tab.cursor_byte
            &&& now.selection_anchor == tab.selection_anchor
            &&& now.doc_id == tab.doc_id
            &&& after.project.selected_row == before.project.selected_row
            &&& after.buffers == before.buffers
            &&& landmark != Landmark::Editor ==> now.scroll_line == tab.scroll_line
            &&& landmark != Landmark::PrimaryPane ==> after.project.scroll == before.project.scroll
            &&& landmark == Landmark::Editor && 0 <= tab.scroll_line + lines <= u16::MAX
                ==> now.scroll_line == tab.scroll_line + lines
            &&& landmark == Landmark::PrimaryPane && 0 <= before.project.scroll + lines <= u16::MAX
                ==> after.project.scroll == before.project.scroll + lines
        }),
{
}

/// A login shell is `/bin/sh` with `-l`, in the directory that it is started for, with
/// the usual search path and the terminal that it runs in.
pub proof fn login_shells_are_plain(command: CommandSpec, directory: String)
    requires
        is_login_shell(command, directory),
    ensures
        command.program@ == "/bin/sh"@,
        command.args@.len() == 1 && command.args@[0]@ == "-l"@,
        command.cwd == directory,
        command.env@.len() == 2,
        command.env@[0].0@ == "PATH"@ && command.env@[0].1@ == "/usr/local/bin:/usr/bin:/bin"@,
        command.env@[1].0@ == "TERM"@ && command.env@[1].1@ == "xterm-256color"@,
{
    assert(texts(command.args@).len() == command.args@.len());
    assert(texts(command.args@)[0] == command.args@[0]@);
}

} // verus!
