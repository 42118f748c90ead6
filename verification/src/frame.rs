//! What happens at the start of every frame, before anything is drawn.
use crate::model::opt_view;
use crate::session::{AppState, GuiView, UnlockResult, UnlockView, VaultGui};
use crate::update::UpdateStatus;
use vstd::prelude::*;

verus! {

/// What the outside world has to tell at the start of a frame.
pub struct FrameInput {
    /// What came of decrypting or creating a vault, if it has ended.
    pub unlocked: Option<UnlockResult>,
    /// What came of an update check, if it has ended.
    pub update: Option<UpdateStatus>,
    /// Whether the file of the vault exists.
    pub file_exists: bool,
    /// The stem of the file name of the vault.
    pub stem: Option<String>,
    /// Whether the clipboard could be cleared, if that was due.
    pub clipboard_accessible: bool,
    /// Whether the user is pressing a button or a key.
    pub active: bool,
    /// The Unix time in seconds.
    pub unix_now: u64,
    /// Milliseconds on the program's clock.
    pub now: u64,
}

/// What has to be done because of the start of a frame.
#[derive(Clone, Copy, Debug, PartialEq, Eq, Structural)]
pub struct FrameActions {
    /// The vault was opened: save the register and play the sound.
    pub vault_opened: bool,
    /// Start an update check in the background.
    pub start_update_check: bool,
}

impl GuiView {
    /// The state after a result of the background work was taken in, if there is one.
    pub open spec fn unlock_taken(self, f: FrameInput) -> GuiView {
        match f.unlocked {
            Some(r) => self.unlock_ended(
                r@,
                f.file_exists,
                opt_view(f.stem),
                f.unix_now,
                f.now,
            ),
            None => self,
        }
    }

    /// The state after an update check was started, if one was due.
    pub open spec fn due_check_started(self) -> GuiView {
        if self.update_check_due() {
            GuiView { update_check_pending: true, ..self }
        } else {
            self
        }
    }

    /// The state after the result of an update check was taken in, if there is one.
    pub open spec fn update_taken(self, f: FrameInput) -> GuiView {
        match f.update {
            Some(s) => self.update_received(s@, f.now),
            None => self,
        }
    }

    /// The state after it was noted whether the user is active.
    pub open spec fn activity_noted(self, active: bool, now: u64) -> GuiView {
        if active {
            GuiView { last_activity: now, ..self }
        } else {
            self
        }
    }

    /// The state at the start of a frame: the results of the background work are
    /// taken in, a check for updates is started, the clipboard is cleared if that is
    /// due, and the user's activity is noted.
    pub open spec fn frame_begun(self, f: FrameInput) -> GuiView {
        self.unlock_taken(f).due_check_started().update_taken(f).clipboard_cleared(
            f.clipboard_accessible,
            f.now,
        ).activity_noted(f.active, f.now)
    }
}

impl VaultGui {
    /// Begins a frame.
    pub fn begin_frame(&mut self, f: FrameInput) -> (res: FrameActions)
        ensures
            final(self)@ == old(self)@.frame_begun(f),
            res.vault_opened == (old(self)@.unlock_pending && f.unlocked is Some
                && f.unlocked.unwrap()@ is Success),
            res.start_update_check == old(self)@.update_check_due(),
    {
        let vault_opened: bool = match f.unlocked {
            Some(result) => self.finish_unlock(result, f.file_exists, &f.stem, f.unix_now, f.now),
            None => false,
        };
        let start_update_check: bool = self.start_due_update_check();
        match f.update {
            Some(status) => self.receive_update(status, f.now),
            None => {},
        }
        self.clear_clipboard_if_needed(f.clipboard_accessible, f.now);
        self.note_activity(f.active, f.now);
        FrameActions { vault_opened, start_update_check }
    }
}

/// Whether the clipboard is due does not depend on what else happens at the start
/// of a frame, so that it can be cleared beforehand.
pub proof fn law_clipboard_due_beforehand(s: GuiView, f: FrameInput)
    ensures
        s.unlock_taken(f).due_check_started().update_taken(f).clipboard_due(f.now)
            == s.clipboard_due(f.now),
        !s.frame_begun(f).clipboard_due(f.now),
{
}

/// While the user is active the vault is never locked for being idle.
pub proof fn law_active_is_not_idle(s: GuiView, f: FrameInput)
    requires
        f.active,
        s.settings.auto_lock_timeout_mins > 0,
    ensures
        !s.frame_begun(f).idle_too_long(f.now),
{
}

/// A frame in which nothing has come, nothing is due and nobody is active changes
/// nothing.
pub proof fn law_quiet_frame_changes_nothing(s: GuiView, f: FrameInput)
    requires
        f.unlocked is None,
        f.update is None,
        !f.active,
        !(s.update_status is Unknown) || s.update_check_pending,
        s.clipboard_clear_time matches Some(t) ==> f.now < t,
    ensures
        s.frame_begun(f) == s,
{
}

/// Activity is noted with its time, and only then.
pub proof fn law_activity_noted_exact(s: GuiView, f: FrameInput)
    ensures
        f.active ==> s.frame_begun(f).last_activity == f.now,
        !f.active ==> s.frame_begun(f).last_activity == s.last_activity,
{
}

/// What has come is taken in: an opened vault is there at once, and so is the result of
/// a check for updates; the first frame starts a check; the clipboard is cleared when
/// its time is over.
pub proof fn law_frame_takes_in(s: GuiView, f: FrameInput)
    ensures
        ({
            let r = s.frame_begun(f);
            &&& s.unlock_pending && f.unlocked is Some ==> {
                &&& !r.unlock_pending
                &&& f.unlocked.unwrap()@ matches UnlockView::Success(v) ==> r.vault == v && r.state
                    == AppState::Unlocked
                &&& f.unlocked.unwrap()@ is Error ==> r.vault == s.vault && r.state == (
                if f.file_exists {
                    AppState::Locked
                } else {
                    AppState::NoVault
                })
            }
            &&& !s.unlock_pending || f.unlocked is None ==> r.vault == s.vault && r.state == s.state
                && r.vault_registry == s.vault_registry
            &&& s.update_check_pending && f.update is Some ==> r.update_status
                == f.update.unwrap()@ && !r.update_check_pending
            &&& f.update is None ==> r.update_status == s.update_status
            &&& s.update_status is Unknown && f.update is None ==> r.update_check_pending
            &&& s.clipboard_clear_time matches Some(t) ==> r.clipboard_clear_time == (if f.now >= t {
                None
            } else {
                Some(t)
            })
            &&& r.settings == s.settings && r.modal == s.modal && r.master_password
                == s.master_password
        }),
{
}

} // verus!
