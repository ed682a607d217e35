//! The authorities of the workbench: which there are, which is selected, and
//! whether they can be reached.
use vstd::prelude::*;

use super::status::StatusMessage;
use super::terminal::{ends_session, terminal_closed};
use super::trust::{apply_persisted_lsp_grants, record_grants, records_grant};
use super::{
    no_effects, selected_authority, ssh_from, App, AuthorityConnectionState, AuthorityKind,
    AuthorityState, Effects, LanguageServices, TrustLevel,
};
use crate::authority::base::{digest_granted, AuthorityBase};
use crate::authority::local::{LocalAuthority, LOCAL_IDENTITY};
use crate::authority::ssh::{connected, SshAuthority};
use crate::authority::types::{AuthorityKind as HostKind, AuthorityTrust};
use crate::config::LanguageServerConfig;
use crate::layout::Landmark;
use crate::protocol;

verus! {

/// The first state of an SSH authority with a label, from index `i` on; the number
/// of states if there is none.
pub open spec fn ssh_state_from(states: Seq<AuthorityState>, label: Seq<char>, i: int) -> int
    decreases states.len() - i,
{
    if i >= states.len() {
        states.len() as int
    } else if states[i].kind == AuthorityKind::Ssh && states[i].label@ == label {
        i
    } else {
        ssh_state_from(states, label, i + 1)
    }
}

/// The state of the connection of an SSH authority.
pub open spec fn connection_of(a: SshAuthority) -> AuthorityConnectionState {
    if connected(a) {
        AuthorityConnectionState::Connected
    } else {
        AuthorityConnectionState::Disconnected
    }
}

/// The states with an SSH authority among them: the connection of the one that is
/// there already, or a new one without trust.
pub open spec fn with_ssh_state(
    before: Seq<AuthorityState>,
    label: String,
    connection: AuthorityConnectionState,
) -> Seq<AuthorityState> {
    let i = ssh_state_from(before, label@, 0);
    if i < before.len() {
        before.update(i, AuthorityState { connection, ..before[i] })
    } else {
        before.push(
            AuthorityState {
                kind: AuthorityKind::Ssh,
                label,
                trust: TrustLevel::InspectOnly,
                connection,
            },
        )
    }
}

/// An SSH authority as it is taken over: it may run programs where there was trust
/// in it, and the server configurations that were granted to it on this workspace.
pub open spec fn taken_over(app: App, given: SshAuthority, taken: SshAuthority) -> bool {
    let i = ssh_state_from(app.authorities@, given.base.label@, 0);
    let trusted = i < app.authorities@.len() && app.authorities@[i].trust == TrustLevel::Trusted;
    &&& taken.transport == given.transport
    &&& taken.base == AuthorityBase {
        trust: if trusted {
            AuthorityTrust::ExecutionGranted
        } else {
            AuthorityTrust::InspectOnly
        },
        lsp_grants: taken.base.lsp_grants,
        ..given.base
    }
    &&& forall|d: Seq<char>| #[trigger]
        digest_granted(taken.base.lsp_grants@, d) == (digest_granted(given.base.lsp_grants@, d)
            || records_grant(app.lsp_grants@, app.workspace_root@, given.base.host_id@, d))
}

/// The state of an authority once it is known whether it is connected: a connection
/// that was there and is gone is lost.
pub open spec fn refreshed(s: AuthorityState, authorities: Seq<SshAuthority>) -> AuthorityState {
    let k = ssh_from(authorities, s.label@, 0);
    if s.kind != AuthorityKind::Ssh {
        s
    } else if k < authorities.len() && connected(authorities[k]) {
        AuthorityState { connection: AuthorityConnectionState::Connected, ..s }
    } else if s.connection == AuthorityConnectionState::Connected {
        AuthorityState { connection: AuthorityConnectionState::Lost, ..s }
    } else {
        s
    }
}

/// What is said of the connection of the selected authority.
pub open spec fn connection_status(connection: AuthorityConnectionState) -> StatusMessage {
    match connection {
        AuthorityConnectionState::Disconnected => StatusMessage::AuthorityDisconnected,
        AuthorityConnectionState::Connecting => StatusMessage::Bootstrapping,
        AuthorityConnectionState::Connected => StatusMessage::AuthorityConnected,
        AuthorityConnectionState::Lost => StatusMessage::TransportLost,
    }
}

/// Whether a label is that of the selected SSH authority.
pub open spec fn is_selected_ssh(app: App, label: Seq<char>) -> bool {
    selected_authority(app) is Some && selected_authority(app)->0.kind == AuthorityKind::Ssh
        && selected_authority(app)->0.label@ == label
}

/// Whether an authority is a new local one for a root, with what was granted to it.
pub open spec fn is_local_host(app: App, a: LocalAuthority, root: String) -> bool {
    let trusted = app.authorities@.len() > 0 && app.authorities@[0].trust == TrustLevel::Trusted;
    &&& a.base.kind == HostKind::Local
    &&& a.base.label@ == "host"@
    &&& a.base.host_id@ == LOCAL_IDENTITY@
    &&& a.base.root == root
    &&& a.base.trust == if trusted {
        AuthorityTrust::ExecutionGranted
    } else {
        AuthorityTrust::InspectOnly
    }
    &&& a.base.workspace_epoch.0 == app.epoch.0
    &&& a.base.environment_epoch.0 == 0
    &&& a.base.next_id == 1
    &&& forall|d: Seq<char>| #[trigger]
        digest_granted(a.base.lsp_grants@, d) == records_grant(
            app.lsp_grants@,
            app.workspace_root@,
            LOCAL_IDENTITY@,
            d,
        )
}

impl App {
    fn find_ssh_state(&self, label: &String) -> (i: usize)
        ensures
            i == ssh_state_from(self.authorities@, label@, 0),
            i <= self.authorities@.len(),
    {
        let mut i: usize = 0;
        while i < self.authorities.len()
            invariant
                i <= self.authorities@.len(),
                ssh_state_from(self.authorities@, label@, 0) == ssh_state_from(
                    self.authorities@,
                    label@,
                    i as int,
                ),
            decreases self.authorities@.len() - i,
        {
            if self.authorities[i].kind == AuthorityKind::Ssh && self.authorities[i].label
                == *label {
                return i;
            }
            i += 1;
        }
        i
    }

    /// Takes an SSH authority over. Trust that was kept for it is restored; trust in
    /// its terminals does not grant any server.
    pub fn register_ssh_authority(&mut self, authority: SshAuthority)
        requires
            old(self).wf(),
        ensures
            final(self).wf(),
            *final(self) == (App {
                authorities: final(self).authorities,
                ssh_authorities: final(self).ssh_authorities,
                ..*old(self)
            }),
            final(self).authorities@ == with_ssh_state(
                old(self).authorities@,
                authority.base.label,
                connection_of(authority),
            ),
            ({
                let k = ssh_from(old(self).ssh_authorities@, authority.base.label@, 0);
                let taken = final(self).ssh_authorities@[k];
                &&& final(self).ssh_authorities@ == if k < old(self).ssh_authorities@.len() {
                    old(self).ssh_authorities@.update(k, taken)
                } else {
                    old(self).ssh_authorities@.push(taken)
                }
                &&& taken_over(*old(self), authority, taken)
            }),
    {
        let ghost given = authority;
        let ghost states = self.authorities@;
        let ghost ssh = self.ssh_authorities@;
        let mut authority = authority;
        let label = authority.base.label.clone();
        let i: usize = self.find_ssh_state(&label);
        let k: usize = self.find_ssh(&label);
        let connection = if authority.is_connected() {
            AuthorityConnectionState::Connected
        } else {
            AuthorityConnectionState::Disconnected
        };
        if i < self.authorities.len() && self.authorities[i].trust == TrustLevel::Trusted {
            authority.base.grant_execution();
        } else {
            authority.base.revoke_execution();
        }
        apply_persisted_lsp_grants(&self.lsp_grants, &self.workspace_root, &mut authority.base);
        if i < self.authorities.len() {
            self.authorities[i].connection = connection;
        } else {
            self.authorities.push(
                AuthorityState {
                    kind: AuthorityKind::Ssh,
                    label,
                    trust: TrustLevel::InspectOnly,
                    connection,
                },
            );
        }
        assert(self.authorities@ =~= with_ssh_state(states, given.base.label, connection));
        if k < self.ssh_authorities.len() {
            self.ssh_authorities.set(k, authority);
        } else {
            self.ssh_authorities.push(authority);
        }
    }

    /// Selects an SSH authority; a new one has no trust. Everything that runs in the
    /// terminal is ended.
    pub fn select_ssh_authority(&mut self, label: String) -> (effects: Effects)
        requires
            old(self).wf(),
        ensures
            final(self).wf(),
            ({
                let i = ssh_state_from(old(self).authorities@, label@, 0);
                &&& *final(self) == (App {
                    authorities: final(self).authorities,
                    current_authority: i as usize,
                    terminal: terminal_closed(old(self).terminal),
                    status: StatusMessage::SshSelected,
                    focus: Landmark::Authority,
                    ..*old(self)
                })
                &&& final(self).authorities@ == if i < old(self).authorities@.len() {
                    old(self).authorities@
                } else {
                    old(self).authorities@.push(
                        AuthorityState {
                            kind: AuthorityKind::Ssh,
                            label,
                            trust: TrustLevel::InspectOnly,
                            connection: AuthorityConnectionState::Disconnected,
                        },
                    )
                }
            }),
            effects == ends_session(old(self).terminal),
    {
        let i: usize = self.find_ssh_state(&label);
        if i >= self.authorities.len() {
            self.authorities.push(
                AuthorityState {
                    kind: AuthorityKind::Ssh,
                    label,
                    trust: TrustLevel::InspectOnly,
                    connection: AuthorityConnectionState::Disconnected,
                },
            );
        }
        self.current_authority = i;
        let effects = self.close_terminal();
        self.status = StatusMessage::SshSelected;
        self.focus = Landmark::Authority;
        effects
    }

    /// The label of the selected authority, if it is reached over SSH.
    pub fn current_ssh_authority_label(&self) -> (label: Option<String>)
        ensures
            label == match selected_authority(*self) {
                Some(a) => if a.kind == AuthorityKind::Ssh {
                    Some(a.label)
                } else {
                    None
                },
                None => None,
            },
    {
        if self.current_authority < self.authorities.len() {
            let current = &self.authorities[self.current_authority];
            if current.kind == AuthorityKind::Ssh {
                return Some(current.label.clone());
            }
        }
        None
    }

    /// Takes note of the connection of an SSH authority. The language service is
    /// started once the selected authority is connected.
    pub fn set_authority_connection(
        &mut self,
        label: &String,
        connection: AuthorityConnectionState,
        message: String,
    ) -> (effects: Effects)
        requires
            old(self).wf(),
        ensures
            final(self).wf(),
            ({
                let i = ssh_state_from(old(self).authorities@, label@, 0);
                &&& *final(self) == (App {
                    authorities: final(self).authorities,
                    status: StatusMessage::ConnectionNews(message),
                    ..*old(self)
                })
                &&& final(self).authorities@ == if i < old(self).authorities@.len() {
                    old(self).authorities@.update(
                        i,
                        AuthorityState { connection, ..old(self).authorities@[i] },
                    )
                } else {
                    old(self).authorities@
                }
            }),
            effects == (Effects {
                start_language_service: connection == AuthorityConnectionState::Connected
                    && is_selected_ssh(*old(self), label@),
                ..no_effects()
            }),
    {
        let mut effects = Effects::none();
        let current = &self.authorities[self.current_authority];
        let selected = current.kind == AuthorityKind::Ssh && current.label == *label;
        let i: usize = self.find_ssh_state(label);
        let ghost states = self.authorities@;
        if i < self.authorities.len() {
            self.authorities[i].connection = connection;
            assert(self.authorities@ =~= states.update(
                i as int,
                AuthorityState { connection, ..states[i as int] },
            ));
        }
        self.status = StatusMessage::ConnectionNews(message);
        effects.start_language_service = connection == AuthorityConnectionState::Connected
            && selected;
        effects
    }

    /// Takes note of the connection of the selected authority.
    pub fn set_current_authority_connection(&mut self, connection: AuthorityConnectionState)
        requires
            old(self).wf(),
        ensures
            final(self).wf(),
            *final(self) == (App {
                authorities: final(self).authorities,
                status: connection_status(connection),
                ..*old(self)
            }),
            final(self).authorities@ == old(self).authorities@.update(
                old(self).current_authority as int,
                (AuthorityState {
                    connection,
                    ..old(self).authorities@[old(self).current_authority as int]
                }),
            ),
    {
        let i: usize = self.current_authority;
        let ghost states = self.authorities@;
        self.authorities[i].connection = connection;
        assert(self.authorities@ =~= states.update(
            i as int,
            AuthorityState { connection, ..states[i as int] },
        ));
        self.status = match connection {
            AuthorityConnectionState::Disconnected => StatusMessage::AuthorityDisconnected,
            AuthorityConnectionState::Connecting => StatusMessage::Bootstrapping,
            AuthorityConnectionState::Connected => StatusMessage::AuthorityConnected,
            AuthorityConnectionState::Lost => StatusMessage::TransportLost,
        };
    }

    /// Looks at the connections of all SSH authorities anew.
    pub fn refresh_authority_connections(&mut self)
        requires
            old(self).wf(),
        ensures
            final(self).wf(),
            *final(self) == (App { authorities: final(self).authorities, ..*old(self) }),
            final(self).authorities@ == old(self).authorities@.map_values(
                |s: AuthorityState| refreshed(s, old(self).ssh_authorities@),
            ),
    {
        let ghost states = self.authorities@;
        let ghost ssh = self.ssh_authorities@;
        let count: usize = self.authorities.len();
        for i in 0..count
            invariant
                count == states.len(),
                *self == (App { authorities: self.authorities, ..*old(self) }),
                ssh == self.ssh_authorities@,
                states == old(self).authorities@,
                self.authorities@.len() == states.len(),
                forall|j: int|
                    0 <= j < i ==> #[trigger] self.authorities@[j] == refreshed(states[j], ssh),
                forall|j: int| i <= j < states.len() ==> #[trigger] self.authorities@[j] == states[j],
        {
            assert(self.authorities@[i as int] == states[i as int]);
            if self.authorities[i].kind == AuthorityKind::Ssh {
                let k: usize = self.find_ssh(&self.authorities[i].label);
                let reached = k < self.ssh_authorities.len()
                    && self.ssh_authorities[k].is_connected();
                if reached {
                    self.authorities[i].connection = AuthorityConnectionState::Connected;
                } else if self.authorities[i].connection == AuthorityConnectionState::Connected {
                    self.authorities[i].connection = AuthorityConnectionState::Lost;
                }
            }
        }
        assert(self.authorities@ =~= states.map_values(|s: AuthorityState| refreshed(s, ssh)));
    }

    /// Takes the configured language servers over, and sets the local authority up
    /// if there is none yet, on the canonical root that was found or not.
    pub fn configure_language_servers(
        &mut self,
        servers: Vec<LanguageServerConfig>,
        serialized: Vec<Vec<u8>>,
        canonical_root: Result<String, String>,
    ) -> (effects: Effects)
        requires
            old(self).wf(),
            serialized@.len() == servers@.len(),
        ensures
            final(self).wf(),
            *final(self) == (App {
                services: LanguageServices { servers, serialized, ..old(self).services },
                local_authority: final(self).local_authority,
                status: final(self).status,
                ..*old(self)
            }),
            match (old(self).local_authority, canonical_root) {
                (Some(local), _) => final(self).local_authority == Some(local)
                    && final(self).status == old(self).status,
                (None, Ok(root)) => final(self).local_authority is Some && is_local_host(
                    *old(self),
                    final(self).local_authority->0,
                    root,
                ) && final(self).status == old(self).status,
                (None, Err(error)) => final(self).local_authority is None && final(self).status
                    == StatusMessage::LspHostUnavailable(error),
            },
            effects == (Effects { start_language_service: true, ..no_effects() }),
    {
        let mut effects = Effects::none();
        self.services.servers = servers;
        self.services.serialized = serialized;
        if self.local_authority.is_none() {
            match canonical_root {
                Ok(root) => {
                    let mut authority = LocalAuthority::new(
                        "host".to_owned(),
                        root,
                        protocol::request::WorkspaceEpoch(self.epoch.0),
                    );
                    if self.authorities[0].trust == TrustLevel::Trusted {
                        authority.base.grant_execution();
                    }
                    apply_persisted_lsp_grants(
                        &self.lsp_grants,
                        &self.workspace_root,
                        &mut authority.base,
                    );
                    self.local_authority = Some(authority);
                },
                Err(error) => {
                    self.status = StatusMessage::LspHostUnavailable(error);
                },
            }
        }
        effects.start_language_service = true;
        effects
    }
}

proof fn lemma_ssh_state_from(states: Seq<AuthorityState>, label: Seq<char>, i: int)
    requires
        0 <= i <= states.len(),
    ensures
        i <= ssh_state_from(states, label, i) <= states.len(),
        ssh_state_from(states, label, i) < states.len() ==> states[ssh_state_from(
            states,
            label,
            i,
        )].kind == AuthorityKind::Ssh && states[ssh_state_from(states, label, i)].label@ == label,
        forall|j: int|
            i <= j < ssh_state_from(states, label, i) ==> !((#[trigger] states[j]).kind
                == AuthorityKind::Ssh && states[j].label@ == label),
    decreases states.len() - i,
{
    if i < states.len() && !(states[i].kind == AuthorityKind::Ssh && states[i].label@ == label) {
        lemma_ssh_state_from(states, label, i + 1);
    }
}

/// Taking an SSH authority over gives no trust: one that was known keeps the trust it
/// had, a new one has none, and no other authority changes. Its connection is the one
/// that it has.
pub proof fn registering_gives_no_trust(
    before: Seq<AuthorityState>,
    label: String,
    connection: AuthorityConnectionState,
    j: int,
)
    requires
        0 <= j < before.len(),
    ensures
        ({
            let after = with_ssh_state(before, label, connection);
            &&& after.len() == before.len() || after.len() == before.len() + 1
            &&& after[j].trust == before[j].trust
            &&& after[j].label == before[j].label
            &&& after[j].kind == before[j].kind
            &&& !(before[j].kind == AuthorityKind::Ssh && before[j].label@ == label@) ==> after[j]
                == before[j]
            &&& after.len() == before.len() + 1 ==> after.last().trust == TrustLevel::InspectOnly
                && after.last().label == label && after.last().kind == AuthorityKind::Ssh
                && after.last().connection == connection && forall|n: int|
                0 <= n < before.len() ==> !((#[trigger] before[n]).kind == AuthorityKind::Ssh
                    && before[n].label@ == label@)
            &&& after.len() == before.len() ==> exists|n: int|
                0 <= n < before.len() && (#[trigger] after[n]).kind == AuthorityKind::Ssh
                    && after[n].label@ == label@ && after[n].connection == connection
        }),
{
    lemma_ssh_state_from(before, label@, 0);
    let after = with_ssh_state(before, label, connection);
    let i = ssh_state_from(before, label@, 0);
    if i < before.len() {
        assert(after[i].kind == AuthorityKind::Ssh);
    }
}

/// Looking at a connection anew changes nothing but the connection of an authority that
/// is reached over SSH: what is connected is shown as connected, what was and is not any
/// more is shown as lost, and trust stays as it is.
pub proof fn connections_are_shown_as_they_are(s: AuthorityState, authorities: Seq<SshAuthority>)
    ensures
        ({
            let now = refreshed(s, authorities);
            &&& now.trust == s.trust
            &&& now.label == s.label
            &&& now.kind == s.kind
            &&& s.kind != AuthorityKind::Ssh ==> now == s
            &&& s.kind == AuthorityKind::Ssh && (forall|k: int|
                0 <= k < authorities.len() ==> !connected(#[trigger] authorities[k]))
                ==> now.connection != AuthorityConnectionState::Connected && (s.connection
                == AuthorityConnectionState::Connected ==> now.connection
                == AuthorityConnectionState::Lost) && (s.connection
                != AuthorityConnectionState::Connected ==> now.connection == s.connection)
            &&& s.kind == AuthorityKind::Ssh && authorities.len() == 1 && authorities[0].base.label@
                == s.label@ && connected(authorities[0]) ==> now.connection
                == AuthorityConnectionState::Connected
        }),
{
    lemma_ssh_place(authorities, s.label@, 0);
}

proof fn lemma_ssh_place(authorities: Seq<SshAuthority>, label: Seq<char>, i: int)
    requires
        0 <= i <= authorities.len(),
    ensures
        i <= ssh_from(authorities, label, i) <= authorities.len(),
    decreases authorities.len() - i,
{
    if i < authorities.len() {
        lemma_ssh_place(authorities, label, i + 1);
    }
}

/// An authority that is taken over may run programs exactly where there was trust in
/// it, and the servers that were granted to it on this workspace besides those that it
/// brings; nothing else of it changes.
pub proof fn kept_grants_are_restored(
    app: App,
    given: SshAuthority,
    taken: SshAuthority,
    d: Seq<char>,
)
    requires
        taken_over(app, given, taken),
    ensures
        taken.base.host_id == given.base.host_id,
        taken.base.root == given.base.root,
        taken.base.label == given.base.label,
        taken.base.trust == AuthorityTrust::ExecutionGranted ==> exists|i: int|
            0 <= i < app.authorities@.len() && (#[trigger] app.authorities@[i]).kind
                == AuthorityKind::Ssh && app.authorities@[i].label@ == given.base.label@
                && app.authorities@[i].trust == TrustLevel::Trusted,
        digest_granted(taken.base.lsp_grants@, d) && !digest_granted(given.base.lsp_grants@, d)
            ==> exists|i: int|
            0 <= i < app.lsp_grants@.len() && (#[trigger] app.lsp_grants@[i]).config_digest@ == d
                && app.lsp_grants@[i].authority@ == given.base.host_id@,
{
    lemma_ssh_state_from(app.authorities@, given.base.label@, 0);
    let i = ssh_state_from(app.authorities@, given.base.label@, 0);
    if i < app.authorities@.len() {
        assert(app.authorities@[i].kind == AuthorityKind::Ssh);
    }
    if records_grant(app.lsp_grants@, app.workspace_root@, given.base.host_id@, d) {
        let n = choose|n: int|
            0 <= n < app.lsp_grants@.len() && record_grants(
                #[trigger] app.lsp_grants@[n],
                app.workspace_root@,
                given.base.host_id@,
                d,
            );
        assert(app.lsp_grants@[n].config_digest@ == d);
    }
}

/// What is said of a connection tells its four states apart, and an authority counts as
/// connected if and only if it is.
pub proof fn connections_are_told_apart(
    a: SshAuthority,
    one: AuthorityConnectionState,
    other: AuthorityConnectionState,
)
    ensures
        connection_of(a) == AuthorityConnectionState::Connected <==> connected(a),
        connection_of(a) == AuthorityConnectionState::Disconnected <==> !connected(a),
        connection_status(one) == connection_status(other) ==> one == other,
        connection_status(one) == StatusMessage::AuthorityConnected <==> one
            == AuthorityConnectionState::Connected,
        connection_status(one) == StatusMessage::TransportLost <==> one
            == AuthorityConnectionState::Lost,
{
}

/// A local authority runs programs if and only if the host is trusted, below the root
/// that it was made for and in the epoch of the workspace; it has the grants that were
/// recorded for that root and no others.
pub proof fn local_authorities_have_the_trust_of_the_host(
    app: App,
    a: LocalAuthority,
    root: String,
    digest: Seq<char>,
)
    requires
        is_local_host(app, a, root),
        app.authorities@.len() > 0,
    ensures
        a.base.trust == AuthorityTrust::ExecutionGranted <==> app.authorities@[0].trust
            == TrustLevel::Trusted,
        a.base.root == root,
        a.base.kind == HostKind::Local,
        a.base.workspace_epoch.0 == app.epoch.0,
        digest_granted(a.base.lsp_grants@, digest) <==> records_grant(
            app.lsp_grants@,
            app.workspace_root@,
            a.base.host_id@,
            digest,
        ),
{
}

} // verus!
