//! Trust in authorities, grants for language servers, and the authorities
//! themselves.
use vstd::prelude::*;

use super::overlay::{invoker, invoker_of};
use super::status::StatusMessage;
use super::terminal::{ends_session, terminal_closed};
use super::{
    buffer_of, has_buffer, no_effects, selected_authority, selected_ssh, App, AuthorityKind,
    AuthorityState, Effects, LanguageServices, LspGrantRecord, LspSession, Overlay, TrustLevel,
};
use crate::authority::base::{digest_granted, AuthorityBase};
use crate::authority::local::LocalAuthority;
use crate::authority::ssh::SshAuthority;
use crate::authority::types::AuthorityTrust;
use crate::config::{config_digest, resolve_language_server, server_from};
use crate::document::{backing, language_name};
use crate::layout::Landmark;
use crate::path::{path_equal, same_path};
use crate::protocol::request::ExecutionContextV1;

verus! {

/// Whether a record grants a digest to an authority on a workspace. The label that
/// an authority is shown under does not count.
pub open spec fn record_grants(
    record: LspGrantRecord,
    root: Seq<char>,
    authority: Seq<char>,
    digest: Seq<char>,
) -> bool {
    record.authority@ == authority && path_equal(record.workspace_root@, root)
        && record.config_digest@ == digest
}

/// Whether one of several records grants a digest to an authority on a workspace.
pub open spec fn records_grant(
    records: Seq<LspGrantRecord>,
    root: Seq<char>,
    authority: Seq<char>,
    digest: Seq<char>,
) -> bool {
    exists|i: int|
        0 <= i < records.len() && record_grants(#[trigger] records[i], root, authority, digest)
}

/// Restores the grants of an authority on a workspace. Those of other authorities
/// and of other workspaces are left out.
pub fn apply_persisted_lsp_grants(
    grants: &Vec<LspGrantRecord>,
    workspace_root: &String,
    authority: &mut AuthorityBase,
)
    ensures
        *final(authority) == (AuthorityBase {
            lsp_grants: final(authority).lsp_grants,
            ..*old(authority)
        }),
        forall|d: Seq<char>| #[trigger]
            digest_granted(final(authority).lsp_grants@, d) == (digest_granted(
                old(authority).lsp_grants@,
                d,
            ) || records_grant(grants@, workspace_root@, old(authority).host_id@, d)),
{
    let ghost before = *authority;
    for i in 0..grants.len()
        invariant
            *authority == (AuthorityBase { lsp_grants: authority.lsp_grants, ..before }),
            forall|d: Seq<char>| #[trigger]
                digest_granted(authority.lsp_grants@, d) == (digest_granted(before.lsp_grants@, d)
                    || records_grant(
                    grants@.take(i as int),
                    workspace_root@,
                    before.host_id@,
                    d,
                )),
    {
        let ghost prior = authority.lsp_grants@;
        let fits = grants[i].authority == authority.host_id && same_path(
            grants[i].workspace_root.as_str(),
            workspace_root.as_str(),
        );
        if fits {
            authority.grant_lsp_execution(grants[i].config_digest.as_str());
        }
        proof {
            let head = grants@.take(i as int);
            let next = grants@.take(i + 1);
            assert forall|d: Seq<char>| #[trigger] digest_granted(authority.lsp_grants@, d) == (
            digest_granted(before.lsp_grants@, d) || records_grant(
                next,
                workspace_root@,
                before.host_id@,
                d,
            )) by {
                assert(digest_granted(prior, d) == (digest_granted(before.lsp_grants@, d)
                    || records_grant(head, workspace_root@, before.host_id@, d)));
                lemma_records_grow(grants@, i as int, workspace_root@, before.host_id@, d);
            }
        }
    }
    assert(grants@.take(grants@.len() as int) =~= grants@);
}

proof fn lemma_records_grow(
    records: Seq<LspGrantRecord>,
    k: int,
    root: Seq<char>,
    authority: Seq<char>,
    digest: Seq<char>,
)
    requires
        0 <= k < records.len(),
    ensures
        records_grant(records.take(k + 1), root, authority, digest) == (records_grant(
            records.take(k),
            root,
            authority,
            digest,
        ) || record_grants(records[k], root, authority, digest)),
{
    let head = records.take(k);
    let next = records.take(k + 1);
    assert(next[k] == records[k]);
    if records_grant(head, root, authority, digest) {
        let i = choose|i: int|
            0 <= i < head.len() && record_grants(#[trigger] head[i], root, authority, digest);
        assert(next[i] == head[i]);
    }
    if records_grant(next, root, authority, digest) {
        let i = choose|i: int|
            0 <= i < next.len() && record_grants(#[trigger] next[i], root, authority, digest);
        if i < k {
            assert(head[i] == next[i]);
        }
    }
}

/// The digest of the server configuration for the document that is shown.
pub open spec fn shown_config_digest(app: App) -> Option<Seq<char>> {
    match app.current_doc {
        None => None,
        Some(id) => if !has_buffer(app, id) {
            None
        } else {
            let b = buffer_of(app, id);
            let path = match backing(b.path_state) {
                Some(p) => Some(p@),
                None => None,
            };
            let i = server_from(app.services.servers@, language_name(b.language), path, 0);
            if i < app.services.servers@.len() {
                Some(config_digest(app.services.serialized@[i]@))
            } else {
                None
            }
        },
    }
}

/// The identity of the selected authority in grants, if there is an authority
/// behind it.
pub open spec fn grantee(app: App) -> Option<Seq<char>> {
    match selected_authority(app) {
        None => None,
        Some(a) => match a.kind {
            AuthorityKind::Local => match app.local_authority {
                Some(local) => Some(local.base.host_id@),
                None => None,
            },
            AuthorityKind::Ssh => if selected_ssh(app) < app.ssh_authorities@.len() {
                Some(app.ssh_authorities@[selected_ssh(app)].base.host_id@)
            } else {
                None
            },
            AuthorityKind::DevContainer => None,
        },
    }
}

/// The selected authority with another trust; the others as they are.
pub open spec fn trust_set(before: App, trust: TrustLevel, after: App) -> bool {
    after.authorities@ == if before.current_authority < before.authorities@.len() {
        before.authorities@.update(
            before.current_authority as int,
            AuthorityState { trust, ..before.authorities@[before.current_authority as int] },
        )
    } else {
        before.authorities@
    }
}

/// Whether an authority is as before but for its trust and one more grant.
pub open spec fn base_granted(
    before: AuthorityBase,
    trust: AuthorityTrust,
    digest: Option<Seq<char>>,
    after: AuthorityBase,
) -> bool {
    &&& after == AuthorityBase { trust, lsp_grants: after.lsp_grants, ..before }
    &&& forall|d: Seq<char>| #[trigger]
        digest_granted(after.lsp_grants@, d) == (digest_granted(before.lsp_grants@, d) || digest
            == Some(d))
}

/// The SSH authorities after a grant: the selected one may run programs, and the
/// server configuration of the document that is shown.
pub open spec fn ssh_granted(before: App, after: App) -> bool {
    let k = selected_ssh(before);
    if k < before.ssh_authorities@.len() {
        &&& after.ssh_authorities@ == before.ssh_authorities@.update(k, after.ssh_authorities@[k])
        &&& after.ssh_authorities@[k].transport == before.ssh_authorities@[k].transport
        &&& base_granted(
            before.ssh_authorities@[k].base,
            AuthorityTrust::ExecutionGranted,
            shown_config_digest(before),
            after.ssh_authorities@[k].base,
        )
    } else {
        after.ssh_authorities == before.ssh_authorities
    }
}

/// The local authority after a grant: where it is the selected one, it may run the
/// server configuration of the document that is shown.
pub open spec fn local_granted(before: App, after: App) -> bool {
    let selected = selected_authority(before) is Some && selected_authority(before)->0.kind
        == AuthorityKind::Local;
    match before.local_authority {
        Some(local) => if selected && shown_config_digest(before) is Some {
            after.local_authority is Some && base_granted(
                local.base,
                local.base.trust,
                shown_config_digest(before),
                after.local_authority->0.base,
            )
        } else {
            after.local_authority == before.local_authority
        },
        None => after.local_authority is None,
    }
}

/// The kept grants after a grant: one more, unless it is there already.
pub open spec fn grant_recorded(before: App, after: App) -> bool {
    match (shown_config_digest(before), grantee(before)) {
        (Some(digest), Some(authority)) => if records_grant(
            before.lsp_grants@,
            before.workspace_root@,
            authority,
            digest,
        ) {
            after.lsp_grants == before.lsp_grants
        } else {
            &&& after.lsp_grants@.len() == before.lsp_grants@.len() + 1
            &&& after.lsp_grants@.drop_last() == before.lsp_grants@
            &&& after.lsp_grants@.last().workspace_root == before.workspace_root
            &&& after.lsp_grants@.last().authority@ == authority
            &&& after.lsp_grants@.last().config_digest@ == digest
        },
        _ => after.lsp_grants == before.lsp_grants,
    }
}

/// What had the focus when the grant of a trust review is focused now.
pub open spec fn focused_grant(overlay: Overlay) -> Option<Landmark> {
    match overlay {
        Overlay::TrustReview { focused_grant, invoker, .. } => if focused_grant {
            Some(invoker)
        } else {
            None
        },
        _ => None,
    }
}

/// What granting trust does. It does nothing unless the grant of a trust review is
/// focused.
pub open spec fn trust_granted(before: App, after: App, effects: Effects) -> bool {
    match focused_grant(before.overlay) {
        None => after == before && effects == no_effects(),
        Some(landmark) => {
            &&& after == App {
                authorities: after.authorities,
                ssh_authorities: after.ssh_authorities,
                local_authority: after.local_authority,
                lsp_grants: after.lsp_grants,
                focus: landmark,
                overlay: Overlay::Closed,
                status: StatusMessage::ExecutionGranted,
                ..before
            }
            &&& trust_set(before, TrustLevel::Trusted, after)
            &&& ssh_granted(before, after)
            &&& local_granted(before, after)
            &&& grant_recorded(before, after)
            &&& effects == Effects { start_language_service: true, ..no_effects() }
        },
    }
}

/// What revoking trust does: at once, whatever is on top.
pub open spec fn trust_revoked(before: App, after: App, effects: Effects) -> bool {
    let k = selected_ssh(before);
    &&& after == App {
        authorities: after.authorities,
        ssh_authorities: after.ssh_authorities,
        terminal: terminal_closed(before.terminal),
        focus: match invoker_of(before.overlay) {
            Some(landmark) => landmark,
            None => before.focus,
        },
        overlay: Overlay::Closed,
        status: StatusMessage::ExecutionRevoked,
        ..before
    }
    &&& trust_set(before, TrustLevel::InspectOnly, after)
    &&& if k < before.ssh_authorities@.len() {
        after.ssh_authorities@ == before.ssh_authorities@.update(
            k,
            SshAuthority {
                base: AuthorityBase {
                    trust: AuthorityTrust::InspectOnly,
                    ..before.ssh_authorities@[k].base
                },
                ..before.ssh_authorities@[k]
            },
        )
    } else {
        after.ssh_authorities == before.ssh_authorities
    }
    &&& effects == ends_session(before.terminal)
}

/// What reviewing trust does: a review is opened, on which nothing is granted yet.
pub open spec fn trust_reviewed(before: App, after: App) -> bool {
    &&& after == App { overlay: after.overlay, focus: Landmark::Authority, ..before }
    &&& after.overlay matches Overlay::TrustReview {
        focused_grant,
        invoker,
        workspace_root,
        authority_label,
    } && !focused_grant && invoker == before.focus && workspace_root == before.workspace_root
        && authority_label@ == match selected_authority(before) {
        Some(a) => a.label@,
        None => Seq::empty(),
    }
}

/// What choosing the next authority does: everything that runs through the one
/// before is ended.
pub open spec fn authority_cycled(before: App, after: App, effects: Effects) -> bool {
    let n = before.authorities@.len();
    let next = if before.current_authority + 1 < n {
        before.current_authority + 1
    } else {
        0
    };
    if n < 2 {
        after == App { status: StatusMessage::NoSshAuthority, ..before } && effects == no_effects()
    } else {
        &&& after == App {
            current_authority: next as usize,
            terminal: terminal_closed(before.terminal),
            focus: Landmark::Authority,
            status: StatusMessage::AuthoritySelected {
                label: before.authorities@[next].label,
                connection: before.authorities@[next].connection,
            },
            services: LanguageServices { sessions: after.services.sessions, ..before.services },
            ..before
        }
        &&& after.services.sessions@ == Seq::<LspSession>::empty()
        &&& effects == Effects {
            end_terminal: before.terminal.session is Some,
            end_lsp_sessions: true,
            start_language_service: true,
            ..no_effects()
        }
    }
}

impl App {
    /// Opens a review of the trust in the selected authority.
    pub fn review_trust(&mut self)
        requires
            old(self).wf(),
        ensures
            final(self).wf(),
            trust_reviewed(*old(self), *final(self)),
    {
        let authority_label: String = if self.current_authority < self.authorities.len() {
            self.authorities[self.current_authority].label.clone()
        } else {
            let empty = String::new();
            assert(empty@ =~= Seq::<char>::empty());
            empty
        };
        self.overlay = Overlay::TrustReview {
            focused_grant: false,
            invoker: self.focus,
            workspace_root: self.workspace_root.clone(),
            authority_label,
        };
        self.focus = Landmark::Authority;
    }

    fn set_trust(&mut self, trust: TrustLevel)
        ensures
            *final(self) == (App { authorities: final(self).authorities, ..*old(self) }),
            trust_set(*old(self), trust, *final(self)),
    {
        if self.current_authority < self.authorities.len() {
            let i: usize = self.current_authority;
            let ghost before = self.authorities@;
            self.authorities[i].trust = trust;
            assert(self.authorities@ =~= before.update(
                i as int,
                AuthorityState { trust, ..before[i as int] },
            ));
        }
    }

    /// The digest of the server configuration for the document that is shown.
    fn shown_digest(&self) -> (digest: Option<String>)
        requires
            self.wf(),
        ensures
            match digest {
                Some(d) => shown_config_digest(*self) == Some(d@),
                None => shown_config_digest(*self) is None,
            },
    {
        match self.current_doc {
            None => None,
            Some(id) => {
                let i: usize = self.find_buffer(id);
                if i >= self.buffers.len() {
                    return None;
                }
                match resolve_language_server(
                    &self.services.servers,
                    &self.services.serialized,
                    self.buffers[i].language().as_str(),
                    self.buffers[i].path(),
                    &ExecutionContextV1::AuthorityRoot,
                ) {
                    Some(config) => Some(config.digest),
                    None => None,
                }
            },
        }
    }

    fn has_record(&self, authority: &String, digest: &String) -> (yes: bool)
        ensures
            yes == records_grant(
                self.lsp_grants@,
                self.workspace_root@,
                authority@,
                digest@,
            ),
    {
        for i in 0..self.lsp_grants.len()
            invariant
                forall|j: int|
                    0 <= j < i ==> !record_grants(
                        #[trigger] self.lsp_grants@[j],
                        self.workspace_root@,
                        authority@,
                        digest@,
                    ),
        {
            if self.lsp_grants[i].authority == *authority && same_path(
                self.lsp_grants[i].workspace_root.as_str(),
                self.workspace_root.as_str(),
            ) && self.lsp_grants[i].config_digest == *digest {
                return true;
            }
        }
        false
    }

    /// Keeps a grant, unless it is kept already.
    fn record_grant(&mut self, authority: String, digest: String)
        ensures
            *final(self) == (App { lsp_grants: final(self).lsp_grants, ..*old(self) }),
            if records_grant(
                old(self).lsp_grants@,
                old(self).workspace_root@,
                authority@,
                digest@,
            ) {
                final(self).lsp_grants == old(self).lsp_grants
            } else {
                &&& final(self).lsp_grants@.len() == old(self).lsp_grants@.len() + 1
                &&& final(self).lsp_grants@.drop_last() == old(self).lsp_grants@
                &&& final(self).lsp_grants@.last().workspace_root == old(self).workspace_root
                &&& final(self).lsp_grants@.last().authority@ == authority@
                &&& final(self).lsp_grants@.last().config_digest@ == digest@
            },
    {
        if !self.has_record(&authority, &digest) {
            let ghost before = self.lsp_grants@;
            self.lsp_grants.push(
                LspGrantRecord {
                    workspace_root: self.workspace_root.clone(),
                    authority,
                    config_digest: digest,
                },
            );
            assert(self.lsp_grants@.drop_last() =~= before);
        }
    }

    /// Grants trust to the selected authority, and its server configuration for the
    /// document that is shown: only while the grant of a trust review is focused.
    pub fn grant_trust(&mut self) -> (effects: Effects)
        requires
            old(self).wf(),
        ensures
            final(self).wf(),
            trust_granted(*old(self), *final(self), effects),
    {
        let mut effects = Effects::none();
        let invoker: Landmark = match &self.overlay {
            Overlay::TrustReview { focused_grant, invoker, .. } => if *focused_grant {
                *invoker
            } else {
                return effects;
            },
            _ => return effects,
        };
        let k: usize = self.current_ssh_authority();
        let kind: Option<AuthorityKind> = if self.current_authority < self.authorities.len() {
            Some(self.authorities[self.current_authority].kind)
        } else {
            None
        };
        let digest = self.shown_digest();
        let ghost ssh = self.ssh_authorities@;
        self.set_trust(TrustLevel::Trusted);
        let mut grantee_id: Option<String> = None;
        if k < self.ssh_authorities.len() {
            self.ssh_authorities[k].base.grant_execution();
            if let Some(d) = &digest {
                self.ssh_authorities[k].base.grant_lsp_execution(d.as_str());
                grantee_id = Some(self.ssh_authorities[k].base.host_id.clone());
            }
            assert(self.ssh_authorities@ =~= ssh.update(k as int, self.ssh_authorities@[k as int]));
        }
        if let Some(AuthorityKind::Local) = kind {
            if let Some(d) = &digest {
                let mut local: Option<LocalAuthority> = None;
                std::mem::swap(&mut self.local_authority, &mut local);
                if let Some(mut authority) = local {
                    authority.base.grant_lsp_execution(d.as_str());
                    grantee_id = Some(authority.base.host_id.clone());
                    self.local_authority = Some(authority);
                }
            }
        }
        if let Some(authority) = grantee_id {
            if let Some(d) = digest {
                self.record_grant(authority, d);
            }
        }
        effects.start_language_service = true;
        self.focus = invoker;
        self.overlay = Overlay::Closed;
        self.status = StatusMessage::ExecutionGranted;
        effects
    }

    /// Revokes the trust in the selected authority, and ends its terminal.
    pub fn revoke_trust(&mut self) -> (effects: Effects)
        requires
            old(self).wf(),
        ensures
            final(self).wf(),
            trust_revoked(*old(self), *final(self), effects),
    {
        let focus_before = invoker(&self.overlay);
        let k: usize = self.current_ssh_authority();
        let ghost ssh = self.ssh_authorities@;
        self.set_trust(TrustLevel::InspectOnly);
        if k < self.ssh_authorities.len() {
            self.ssh_authorities[k].base.revoke_execution();
            assert(self.ssh_authorities@ =~= ssh.update(
                k as int,
                SshAuthority {
                    base: AuthorityBase {
                        trust: AuthorityTrust::InspectOnly,
                        ..ssh[k as int].base
                    },
                    ..ssh[k as int]
                },
            ));
        }
        let effects = self.close_terminal();
        if let Some(landmark) = focus_before {
            self.focus = landmark;
        }
        self.overlay = Overlay::Closed;
        self.status = StatusMessage::ExecutionRevoked;
        effects
    }

    /// Selects the next authority.
    pub fn cycle_authority(&mut self) -> (effects: Effects)
        requires
            old(self).wf(),
        ensures
            final(self).wf(),
            authority_cycled(*old(self), *final(self), effects),
    {
        if self.authorities.len() < 2 {
            self.status = StatusMessage::NoSshAuthority;
            return Effects::none();
        }
        let next: usize = if self.current_authority + 1 < self.authorities.len() {
            self.current_authority + 1
        } else {
            0
        };
        self.current_authority = next;
        let mut effects = self.close_terminal();
        self.status = StatusMessage::AuthoritySelected {
            label: self.authorities[next].label.clone(),
            connection: self.authorities[next].connection,
        };
        self.focus = Landmark::Authority;
        self.services.sessions = Vec::new();
        assert(self.services.sessions@ =~= Seq::<LspSession>::empty());
        effects.end_lsp_sessions = true;
        effects.start_language_service = true;
        effects
    }
}

/// A grant reaches the selected authority alone: it is trusted afterwards, the others
/// are as they were, and where it is reached over SSH it may run programs and the server
/// of the document that is shown, and no server that it could not run before. Without
/// the grant of a review being focused nothing changes.
pub proof fn grants_reach_the_selected_authority(
    before: App,
    after: App,
    effects: Effects,
    i: int,
    d: Seq<char>,
)
    requires
        before.wf(),
        trust_granted(before, after, effects),
        0 <= i < before.authorities@.len(),
    ensures
        !(before.overlay matches Overlay::TrustReview { focused_grant: true, .. }) ==> after
            == before,
        before.overlay matches Overlay::TrustReview { focused_grant: true, invoker, .. } ==> {
            &&& after.authorities@[before.current_authority as int].trust == TrustLevel::Trusted
            &&& i != before.current_authority ==> after.authorities@[i] == before.authorities@[i]
            &&& after.overlay is Closed
            &&& after.focus == invoker
            &&& effects.start_language_service
            &&& selected_ssh(before) < before.ssh_authorities@.len() ==> {
                let k = selected_ssh(before);
                let base = after.ssh_authorities@[k].base;
                let old_base = before.ssh_authorities@[k].base;
                &&& base.trust == AuthorityTrust::ExecutionGranted
                &&& shown_config_digest(before) matches Some(shown) ==> digest_granted(
                    base.lsp_grants@,
                    shown,
                )
                &&& digest_granted(base.lsp_grants@, d) && !digest_granted(old_base.lsp_grants@, d)
                    ==> shown_config_digest(before) == Some(d)
                &&& digest_granted(old_base.lsp_grants@, d) ==> digest_granted(base.lsp_grants@, d)
            }
        },
{
}

/// Revoking takes the trust from the selected authority and leaves the others theirs;
/// where it is reached over SSH it may no longer run programs. Its terminal ends, and no
/// document changes.
pub proof fn revoking_reaches_the_selected_authority(
    before: App,
    after: App,
    effects: Effects,
    i: int,
)
    requires
        before.wf(),
        trust_revoked(before, after, effects),
        0 <= i < before.authorities@.len(),
    ensures
        after.authorities@.len() == before.authorities@.len(),
        after.authorities@[before.current_authority as int].trust == TrustLevel::InspectOnly,
        i != before.current_authority ==> after.authorities@[i] == before.authorities@[i],
        0 <= selected_ssh(before) < before.ssh_authorities@.len() ==> after.ssh_authorities@[selected_ssh(
            before,
        )].base.trust == AuthorityTrust::InspectOnly,
        after.terminal.session is None,
        !after.terminal.capture,
        effects.end_terminal == before.terminal.session is Some,
        after.buffers == before.buffers,
        after.overlay is Closed,
{
}

/// A review shows what is to be trusted, the selected authority on the workspace, with
/// nothing granted and the grant not focused.
pub proof fn reviews_grant_nothing(before: App, after: App)
    requires
        before.wf(),
        trust_reviewed(before, after),
    ensures
        after.overlay matches Overlay::TrustReview {
            focused_grant,
            invoker,
            workspace_root,
            authority_label,
        } && !focused_grant && invoker == before.focus && workspace_root@ == before.workspace_root@
            && authority_label@ == before.authorities@[before.current_authority as int].label@,
        after.authorities == before.authorities,
        after.ssh_authorities == before.ssh_authorities,
        after.local_authority == before.local_authority,
        after.lsp_grants == before.lsp_grants,
        after.focus == Landmark::Authority,
{
}

/// The next authority is the one behind the selected one, and the first behind the
/// last. What ran through the one before is ended: its terminal and its sessions with
/// language servers. No trust changes hands.
pub proof fn authorities_are_selected_in_turn(before: App, after: App, effects: Effects)
    requires
        before.wf(),
        authority_cycled(before, after, effects),
    ensures
        before.authorities@.len() >= 2 ==> {
            &&& before.current_authority + 1 < before.authorities@.len() ==> after.current_authority
                == before.current_authority + 1
            &&& before.current_authority + 1 == before.authorities@.len()
                ==> after.current_authority == 0
            &&& after.terminal.session is None
            &&& !after.terminal.capture
            &&& !after.terminal.starting
            &&& after.services.sessions@.len() == 0
            &&& effects.end_terminal == before.terminal.session is Some
            &&& effects.end_lsp_sessions
        },
        before.authorities@.len() < 2 ==> after.current_authority == before.current_authority
            && after.terminal == before.terminal && after.services == before.services,
        after.authorities == before.authorities,
        after.ssh_authorities == before.ssh_authorities,
        after.buffers == before.buffers,
{
    assert(before.authorities@.len() == before.authorities.len());
}

} // verus!
