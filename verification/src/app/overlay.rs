//! Focus, and what is open on top: lists to choose from and texts to type.
use vstd::prelude::*;
use vstd::utf8::encode_utf8;

use super::status::StatusMessage;
use super::{
    overlay_wf, trust_of, App, Overlay, PaletteItem, PtySessionState, TerminalState, TrustLevel,
};
use crate::layout::{next_landmark, prev_landmark, Landmark};
use crate::secret::{secret_mut, Secret};
use crate::text::char_len;
use crate::words::{
    contains_text, holds_text, is_control, is_control_char, lower_case, lower_cased, trim, trimmed,
};

verus! {

/// The text of a command of the palette.
pub open spec fn item_text(item: PaletteItem) -> Seq<char> {
    match item {
        PaletteItem::ReviewTrust => "Review authority trust…"@,
        PaletteItem::RevokeTrust => "Revoke authority trust"@,
    }
}

impl PaletteItem {
    pub fn text(self) -> (text: &'static str)
        ensures
            text@ == item_text(self),
    {
        match self {
            PaletteItem::ReviewTrust => "Review authority trust…",
            PaletteItem::RevokeTrust => "Revoke authority trust",
        }
    }
}

/// The commands whose texts hold what was typed, all in the same case. Everything
/// holds the empty text; revoking is offered only where there is trust.
pub open spec fn items_holding(
    trust: TrustLevel,
    query: Seq<char>,
    review: Seq<char>,
    revoke: Seq<char>,
) -> Seq<PaletteItem> {
    let first = if query.len() == 0 || holds_text(review, query) {
        seq![PaletteItem::ReviewTrust]
    } else {
        Seq::empty()
    };
    if trust == TrustLevel::Trusted && (query.len() == 0 || holds_text(revoke, query)) {
        first.push(PaletteItem::RevokeTrust)
    } else {
        first
    }
}

/// The commands that fit what was typed, whatever the case of the letters and the
/// white space around.
pub open spec fn palette_items(trust: TrustLevel, query: Seq<char>) -> Seq<PaletteItem> {
    items_holding(
        trust,
        lower_cased(trimmed(query)),
        lower_cased(item_text(PaletteItem::ReviewTrust)),
        lower_cased(item_text(PaletteItem::RevokeTrust)),
    )
}

/// The commands whose texts hold what was typed, all in the same case.
pub fn fitting_items(trust: TrustLevel, query: &str, review: &str, revoke: &str) -> (items: Vec<
    PaletteItem,
>)
    ensures
        items@ == items_holding(trust, query@, review@, revoke@),
{
    let all = query.is_empty();
    let mut items: Vec<PaletteItem> = Vec::new();
    if all || contains_text(review, query) {
        items.push(PaletteItem::ReviewTrust);
    }
    if trust == TrustLevel::Trusted && (all || contains_text(revoke, query)) {
        items.push(PaletteItem::RevokeTrust);
    }
    assert(items@ =~= items_holding(trust, query@, review@, revoke@));
    items
}

/// The commands that fit what was typed.
pub fn command_palette_items(trust: TrustLevel, query: &str) -> (items: Vec<PaletteItem>)
    ensures
        items@ == palette_items(trust, query@),
{
    let q = lower_case(trim(query).as_str());
    let review = lower_case(PaletteItem::ReviewTrust.text());
    let revoke = lower_case(PaletteItem::RevokeTrust.text());
    fitting_items(trust, q.as_str(), review.as_str(), revoke.as_str())
}

/// The entry after another one in a list that goes round.
pub open spec fn entry_after(selected: usize, len: nat) -> usize {
    if selected + 1 < len {
        (selected + 1) as usize
    } else {
        0
    }
}

/// The entry before another one in a list that goes round.
pub open spec fn entry_before(selected: usize, len: nat) -> usize {
    if selected == 0 {
        (len - 1) as usize
    } else {
        (selected - 1) as usize
    }
}

fn step_in(selected: usize, len: usize, forward: bool) -> (next: usize)
    requires
        selected < len,
    ensures
        next == if forward {
            entry_after(selected, len as nat)
        } else {
            entry_before(selected, len as nat)
        },
        next < len,
{
    if forward {
        if selected + 1 < len {
            selected + 1
        } else {
            0
        }
    } else if selected == 0 {
        len - 1
    } else {
        selected - 1
    }
}

/// What is on top after a step to another control.
pub open spec fn stepped_overlay(overlay: Overlay, forward: bool) -> Overlay {
    match overlay {
        Overlay::TrustReview { focused_grant, invoker, workspace_root, authority_label } =>
            Overlay::TrustReview {
            focused_grant: !focused_grant,
            invoker,
            workspace_root,
            authority_label,
        },
        Overlay::CommandPalette { query, items, selected, invoker } => if items@.len() > 0 {
            Overlay::CommandPalette {
                query,
                items,
                selected: if forward {
                    entry_after(selected, items@.len())
                } else {
                    entry_before(selected, items@.len())
                },
                invoker,
            }
        } else {
            overlay
        },
        Overlay::Completion { document_id, revision, position, candidates, selected, invoker } =>
            if candidates@.len() > 0 {
                Overlay::Completion {
                    document_id,
                    revision,
                    position,
                    candidates,
                    selected: if forward {
                        entry_after(selected, candidates@.len())
                    } else {
                        entry_before(selected, candidates@.len())
                    },
                    invoker,
                }
            } else {
                overlay
            },
        _ => overlay,
    }
}

/// A step forward and a step back lead to where they began.
pub proof fn steps_undo_each_other(overlay: Overlay)
    requires
        overlay_wf(overlay),
    ensures
        stepped_overlay(stepped_overlay(overlay, true), false) == overlay,
        stepped_overlay(stepped_overlay(overlay, false), true) == overlay,
{
    match overlay {
        Overlay::CommandPalette { items, .. } => {
            assert(items@.len() == items.len());
        },
        Overlay::Completion { candidates, .. } => {
            assert(candidates@.len() == candidates.len());
        },
        _ => {},
    }
}

/// What had the focus before something was opened on top.
pub open spec fn invoker_of(overlay: Overlay) -> Option<Landmark> {
    match overlay {
        Overlay::Closed => None,
        Overlay::TrustReview { invoker, .. } => Some(invoker),
        Overlay::CommandPalette { invoker, .. } => Some(invoker),
        Overlay::SaveAs { invoker, .. } => Some(invoker),
        Overlay::RenameInput { invoker, .. } => Some(invoker),
        Overlay::SshPassphrase { invoker, .. } => Some(invoker),
        Overlay::Completion { invoker, .. } => Some(invoker),
        Overlay::Hover { invoker, .. } => Some(invoker),
    }
}

/// What had the focus before something was opened on top.
pub(crate) fn invoker(overlay: &Overlay) -> (landmark: Option<Landmark>)
    ensures
        landmark == invoker_of(*overlay),
{
    match overlay {
        Overlay::Closed => None,
        Overlay::TrustReview { invoker, .. } => Some(*invoker),
        Overlay::CommandPalette { invoker, .. } => Some(*invoker),
        Overlay::SaveAs { invoker, .. } => Some(*invoker),
        Overlay::RenameInput { invoker, .. } => Some(*invoker),
        Overlay::SshPassphrase { invoker, .. } => Some(*invoker),
        Overlay::Completion { invoker, .. } => Some(*invoker),
        Overlay::Hover { invoker, .. } => Some(*invoker),
    }
}

/// The focus after what is on top was closed: where it was before that was opened.
pub open spec fn focus_after_cancel(overlay: Overlay, focus: Landmark) -> Landmark {
    match invoker_of(overlay) {
        Some(landmark) => landmark,
        None => focus,
    }
}

/// Whether the terminal gets what is typed once a landmark has the focus.
pub open spec fn captured_at(app: App, landmark: Landmark) -> bool {
    landmark == Landmark::BottomPane && app.layout.bottom_active_tab == 0 && app.terminal.session
        == Some(PtySessionState::Running)
}

/// Whether a palette was opened or typed into.
pub open spec fn is_palette(
    overlay: Overlay,
    query: Seq<char>,
    trust: TrustLevel,
    landmark: Landmark,
) -> bool {
    overlay matches Overlay::CommandPalette { query: q, items, selected, invoker } && q@ == query
        && items@ == palette_items(trust, query) && selected == 0 && invoker == landmark
}

/// A text without its last character.
pub open spec fn shortened(text: Seq<char>) -> Seq<char> {
    if text.len() > 0 {
        text.drop_last()
    } else {
        text
    }
}

/// A text after a character was typed, or after the last one was deleted.
pub open spec fn retyped(text: Seq<char>, typed: Option<char>) -> Seq<char> {
    match typed {
        Some(c) => text.push(c),
        None => shortened(text),
    }
}

fn retype(text: &mut String, typed: Option<char>)
    ensures
        final(text)@ == retyped(old(text)@, typed),
{
    match typed {
        Some(c) => text.push(c),
        None => {
            text.pop();
        },
    }
}

/// What is typed into a palette.
pub open spec fn palette_typed(before: App, typed: Option<char>, after: App) -> bool {
    &&& after == App { overlay: after.overlay, ..before }
    &&& match before.overlay {
        Overlay::CommandPalette { query, invoker, .. } => is_palette(
            after.overlay,
            retyped(query@, typed),
            trust_of(before),
            invoker,
        ),
        _ => after.overlay == before.overlay,
    }
}

/// What is typed as the path to save under.
pub open spec fn save_path_typed(before: App, typed: Option<char>, after: App) -> bool {
    &&& after == App { overlay: after.overlay, ..before }
    &&& match before.overlay {
        Overlay::SaveAs { path, invoker, doc_id } => after.overlay matches Overlay::SaveAs {
            path: p,
            invoker: i,
            doc_id: d,
        } && p@ == retyped(path@, typed) && i == invoker && d == doc_id,
        _ => after.overlay == before.overlay,
    }
}

/// What is typed as a new name.
pub open spec fn new_name_typed(before: App, typed: Option<char>, after: App) -> bool {
    &&& after == App { overlay: after.overlay, ..before }
    &&& match before.overlay {
        Overlay::RenameInput {
            document_id,
            key,
            context,
            position,
            preparation,
            new_name,
            invoker,
        } => after.overlay matches Overlay::RenameInput {
            document_id: d,
            key: k,
            context: c,
            position: p,
            preparation: t,
            new_name: n,
            invoker: i,
        } && d == document_id && k == key && c == context && p == position && t == preparation
            && n@ == retyped(new_name@, typed) && i == invoker,
        _ => after.overlay == before.overlay,
    }
}

/// The longest passphrase, in bytes.
pub const PASSPHRASE_LIMIT: usize = 4096;

/// Whether a character can be added to a passphrase.
pub open spec fn passphrase_takes(passphrase: Seq<char>, c: char) -> bool {
    !is_control(c) && encode_utf8(passphrase).len() + char_len(c) <= PASSPHRASE_LIMIT
}

/// What is typed as a passphrase.
pub open spec fn passphrase_typed(before: App, typed: Option<char>, after: App) -> bool {
    &&& after == App { overlay: after.overlay, ..before }
    &&& match before.overlay {
        Overlay::SshPassphrase { authority_label, passphrase, invoker } => {
            let ignored = match typed {
                Some(c) => !passphrase_takes(passphrase@, c),
                None => false,
            };
            if ignored {
                after.overlay == before.overlay
            } else {
                after.overlay matches Overlay::SshPassphrase {
                    authority_label: l,
                    passphrase: p,
                    invoker: i,
                } && l == authority_label && p@ == retyped(passphrase@, typed) && i == invoker
            }
        },
        _ => after.overlay == before.overlay,
    }
}

/// The number of bytes of a character in UTF-8.
fn char_bytes(c: char) -> (n: usize)
    ensures
        n == char_len(c),
        1 <= n <= 4,
{
    proof {
        crate::text::lemma_char_len(c);
    }
    let code: u32 = c as u32;
    if code < 0x80 {
        1
    } else if code < 0x800 {
        2
    } else if code < 0x10000 {
        3
    } else {
        4
    }
}

impl App {
    /// Moves the focus round the landmarks.
    pub fn cycle_focus(&mut self, forward: bool)
        ensures
            *final(self) == (App {
                focus: if forward {
                    next_landmark(old(self).focus, old(self).layout.context_visible)
                } else {
                    prev_landmark(old(self).focus, old(self).layout.context_visible)
                },
                ..*old(self)
            }),
    {
        self.focus = if forward {
            self.focus.next(self.layout.context_visible)
        } else {
            self.focus.prev(self.layout.context_visible)
        };
    }

    /// Gives the focus to a landmark. The terminal gets what is typed exactly while
    /// it is shown, focused and running.
    pub fn focus_landmark(&mut self, landmark: Landmark)
        ensures
            *final(self) == (App {
                focus: landmark,
                terminal: TerminalState {
                    capture: captured_at(*old(self), landmark),
                    ..old(self).terminal
                },
                ..*old(self)
            }),
    {
        let running = match self.terminal.session {
            Some(state) => state == PtySessionState::Running,
            None => false,
        };
        self.focus = landmark;
        self.terminal.capture = landmark == Landmark::BottomPane && self.layout.bottom_active_tab
            == 0 && running;
    }

    /// Steps to the next or the previous control of what is on top.
    pub fn step_control(&mut self, forward: bool)
        requires
            overlay_wf(old(self).overlay),
        ensures
            overlay_wf(final(self).overlay),
            *final(self) == (App {
                overlay: stepped_overlay(old(self).overlay, forward),
                ..*old(self)
            }),
    {
        match &mut self.overlay {
            Overlay::TrustReview { focused_grant, .. } => {
                *focused_grant = !*focused_grant;
            },
            Overlay::CommandPalette { selected, items, .. } => {
                if items.len() > 0 {
                    *selected = step_in(*selected, items.len(), forward);
                }
            },
            Overlay::Completion { selected, candidates, .. } => {
                if candidates.len() > 0 {
                    *selected = step_in(*selected, candidates.len(), forward);
                }
            },
            _ => {},
        }
    }

    /// Opens the command palette.
    pub fn open_palette(&mut self)
        ensures
            *final(self) == (App { overlay: final(self).overlay, ..*old(self) }),
            is_palette(
                final(self).overlay,
                Seq::empty(),
                trust_of(*old(self)),
                old(self).focus,
            ),
            overlay_wf(final(self).overlay),
    {
        let items = command_palette_items(self.current_trust(), "");
        proof {
            reveal_strlit("");
            assert(""@ =~= Seq::<char>::empty());
        }
        let query = String::new();
        assert(query@ =~= Seq::<char>::empty());
        self.overlay = Overlay::CommandPalette { query, items, selected: 0, invoker: self.focus };
    }

    /// Types a character into the palette, or deletes the last one. The commands
    /// that fit are listed anew, with the first one selected.
    pub fn type_into_palette(&mut self, typed: Option<char>)
        requires
            overlay_wf(old(self).overlay),
        ensures
            palette_typed(*old(self), typed, *final(self)),
            overlay_wf(final(self).overlay),
    {
        let trust = self.current_trust();
        match &mut self.overlay {
            Overlay::CommandPalette { query, items, selected, .. } => {
                retype(query, typed);
                *items = command_palette_items(trust, query.as_str());
                *selected = 0;
            },
            _ => {},
        }
    }

    /// Types a character into the path to save under, or deletes the last one.
    pub fn type_save_path(&mut self, typed: Option<char>)
        requires
            overlay_wf(old(self).overlay),
        ensures
            save_path_typed(*old(self), typed, *final(self)),
            overlay_wf(final(self).overlay),
    {
        match &mut self.overlay {
            Overlay::SaveAs { path, .. } => retype(path, typed),
            _ => {},
        }
    }

    /// Types a character into a new name, or deletes the last one.
    pub fn type_new_name(&mut self, typed: Option<char>)
        requires
            overlay_wf(old(self).overlay),
        ensures
            new_name_typed(*old(self), typed, *final(self)),
            overlay_wf(final(self).overlay),
    {
        match &mut self.overlay {
            Overlay::RenameInput { new_name, .. } => retype(new_name, typed),
            _ => {},
        }
    }

    /// Types a character into a passphrase, or deletes the last one. Control
    /// characters, and what would make it too long, are ignored.
    pub fn type_passphrase(&mut self, typed: Option<char>)
        requires
            overlay_wf(old(self).overlay),
        ensures
            passphrase_typed(*old(self), typed, *final(self)),
            overlay_wf(final(self).overlay),
    {
        match &mut self.overlay {
            Overlay::SshPassphrase { passphrase, .. } => {
                let ignored = match typed {
                    Some(c) => is_control_char(c) || {
                        let held: usize = passphrase.as_str().as_bytes().len();
                        held > PASSPHRASE_LIMIT || held + char_bytes(c) > PASSPHRASE_LIMIT
                    },
                    None => false,
                };
                if !ignored {
                    retype(secret_mut(passphrase), typed);
                }
            },
            _ => {},
        }
    }

    /// Hands a passphrase over and closes what is on top.
    pub fn submit_passphrase(&mut self)
        ensures
            match old(self).overlay {
                Overlay::SshPassphrase { authority_label, passphrase, invoker } => *final(self)
                    == (App {
                    overlay: Overlay::Closed,
                    submitted_ssh_passphrase: Some((authority_label, passphrase)),
                    focus: invoker,
                    status: StatusMessage::PassphraseSubmitted,
                    ..*old(self)
                }),
                _ => *final(self) == (App { overlay: Overlay::Closed, ..*old(self) }),
            },
    {
        let mut overlay = Overlay::Closed;
        std::mem::swap(&mut self.overlay, &mut overlay);
        match overlay {
            Overlay::SshPassphrase { authority_label, passphrase, invoker } => {
                self.submitted_ssh_passphrase = Some((authority_label, passphrase));
                self.focus = invoker;
                self.status = StatusMessage::PassphraseSubmitted;
            },
            _ => {},
        }
    }

    /// The passphrase that was handed over, once.
    pub fn take_submitted_ssh_passphrase(&mut self) -> (taken: Option<(String, Secret)>)
        ensures
            taken == old(self).submitted_ssh_passphrase,
            *final(self) == (App { submitted_ssh_passphrase: None, ..*old(self) }),
    {
        self.submitted_ssh_passphrase.take()
    }

    /// Asks for the passphrase of the key of an SSH authority.
    pub fn prompt_ssh_passphrase(&mut self, authority_label: String)
        ensures
            final(self).overlay matches Overlay::SshPassphrase {
                authority_label: l,
                passphrase,
                invoker,
            } && l == authority_label && passphrase@.len() == 0 && invoker == old(self).focus,
            *final(self) == (App {
                overlay: final(self).overlay,
                focus: Landmark::Authority,
                status: StatusMessage::PassphrasePrompt,
                ..*old(self)
            }),
    {
        self.overlay = Overlay::SshPassphrase {
            authority_label,
            passphrase: Secret::new(String::new()),
            invoker: self.focus,
        };
        self.focus = Landmark::Authority;
        self.status = StatusMessage::PassphrasePrompt;
    }

    /// Closes what is on top without doing anything else, and gives the focus back.
    pub fn cancel_modal(&mut self)
        ensures
            *final(self) == (App {
                overlay: Overlay::Closed,
                focus: focus_after_cancel(old(self).overlay, old(self).focus),
                ..*old(self)
            }),
    {
        if let Some(landmark) = invoker(&self.overlay) {
            self.focus = landmark;
        }
        self.overlay = Overlay::Closed;
    }

    /// Closes the prompt for a path, whose save goes on.
    pub fn confirm_save_as(&mut self)
        ensures
            *final(self) == (App {
                overlay: Overlay::Closed,
                focus: match old(self).overlay {
                    Overlay::SaveAs { invoker, .. } => invoker,
                    _ => old(self).focus,
                },
                ..*old(self)
            }),
    {
        match &self.overlay {
            Overlay::SaveAs { invoker, .. } => {
                self.focus = *invoker;
            },
            _ => {},
        }
        self.overlay = Overlay::Closed;
    }

    /// Closes the prompt for a path; nothing is saved.
    pub fn cancel_save_as(&mut self)
        ensures
            *final(self) == (App {
                overlay: Overlay::Closed,
                focus: match old(self).overlay {
                    Overlay::SaveAs { invoker, .. } => invoker,
                    _ => old(self).focus,
                },
                status: StatusMessage::SaveCancelled,
                ..*old(self)
            }),
    {
        self.confirm_save_as();
        self.status = StatusMessage::SaveCancelled;
    }

    /// Closes the prompt for a new name; nothing is renamed.
    pub fn cancel_rename(&mut self)
        ensures
            *final(self) == (App {
                overlay: Overlay::Closed,
                focus: match old(self).overlay {
                    Overlay::RenameInput { invoker, .. } => invoker,
                    _ => old(self).focus,
                },
                status: StatusMessage::RenameCancelled,
                ..*old(self)
            }),
    {
        match &self.overlay {
            Overlay::RenameInput { invoker, .. } => {
                self.focus = *invoker;
            },
            _ => {},
        }
        self.overlay = Overlay::Closed;
        self.status = StatusMessage::RenameCancelled;
    }
}

/// A character that is typed and then deleted leaves the text as it was, and what is
/// typed stands at its end.
pub proof fn deleting_undoes_typing(text: Seq<char>, c: char)
    ensures
        retyped(text, Some(c)).len() == text.len() + 1,
        retyped(text, Some(c)).last() == c,
        retyped(text, Some(c)).take(text.len() as int) == text,
        retyped(retyped(text, Some(c)), None) == text,
        text.len() == 0 ==> retyped(text, None) == text,
{
    assert(text.push(c).drop_last() =~= text);
    assert(text.push(c).take(text.len() as int) =~= text);
}

/// The palette offers a command if and only if its text holds what was typed, the case
/// and the white space around apart; without anything typed it offers all. Revoking is
/// never offered without trust, and each command at most once.
pub proof fn palettes_offer_what_fits(trust: TrustLevel, query: Seq<char>)
    ensures
        ({
            let items = palette_items(trust, query);
            let typed = lower_cased(trimmed(query));
            &&& items.contains(PaletteItem::ReviewTrust) <==> typed.len() == 0 || holds_text(
                lower_cased("Review authority trust…"@),
                typed,
            )
            &&& items.contains(PaletteItem::RevokeTrust) <==> trust == TrustLevel::Trusted && (
            typed.len() == 0 || holds_text(lower_cased("Revoke authority trust"@), typed))
            &&& items.len() <= 2
            &&& items.len() == 2 ==> items[0] == PaletteItem::ReviewTrust && items[1]
                == PaletteItem::RevokeTrust
        }),
{
    let items = palette_items(trust, query);
    if items.len() > 0 {
        assert(items.contains(items[0]));
    }
    if items.len() > 1 {
        assert(items.contains(items[1]));
    }
    let typed = lower_cased(trimmed(query));
    if typed.len() == 0 || holds_text(lower_cased("Review authority trust…"@), typed) {
        assert(items[0] == PaletteItem::ReviewTrust);
    }
    if trust == TrustLevel::Trusted && (typed.len() == 0 || holds_text(
        lower_cased("Revoke authority trust"@),
        typed,
    )) {
        assert(items.last() == PaletteItem::RevokeTrust);
        assert(items[items.len() - 1] == PaletteItem::RevokeTrust);
    }
}

/// A passphrase takes what is typed at its end as long as it stays within 4096 bytes and
/// the character is no control character; else it stays as it is. Nothing else changes.
pub proof fn passphrases_take_what_is_typed(
    before: App,
    c: char,
    after: App,
    label: String,
    passphrase: Secret,
    invoker: Landmark,
)
    requires
        before.overlay == (Overlay::SshPassphrase { authority_label: label, passphrase, invoker }),
        passphrase_typed(before, Some(c), after),
    ensures
        after.overlay matches Overlay::SshPassphrase {
            authority_label: l,
            passphrase: p,
            invoker: i,
        } && l == label && i == invoker && (!is_control(c) && encode_utf8(passphrase@).len()
            + char_len(c) <= 4096 ==> p@ == passphrase@.push(c)) && (is_control(c) || encode_utf8(
            passphrase@,
        ).len() + char_len(c) > 4096 ==> p@ == passphrase@),
        after.submitted_ssh_passphrase == before.submitted_ssh_passphrase,
        after.buffers == before.buffers,
{
}

/// The terminal gets what is typed only while it is shown, focused and running.
pub proof fn focus_decides_who_is_typed_to(app: App, landmark: Landmark)
    ensures
        captured_at(app, landmark) ==> landmark == Landmark::BottomPane && app.terminal.session
            == Some(PtySessionState::Running) && app.layout.tabs().bottom_active_tab == 0,
        landmark == Landmark::Editor ==> !captured_at(app, landmark),
{
}

} // verus!
