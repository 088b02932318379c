//! Locking the vault after a timeout, and the states of the application.

use vstd::prelude::*;
use crate::db::{Db, DbView};
use crate::ui::primitives::que::{contains_id, remove_id, without_id, Que};

verus! {

/// What the application shows: the first-run password choice, the password
/// prompt, or the unlocked vault.
#[derive(Debug, Clone, Copy, PartialEq, Eq, Structural)]
pub enum AppState {
    OnBoarding,
    PassPrompting,
    Ready,
}

/// The id of the next lock timer: one more than the last pending one (or than
/// the last one made, when none is pending), wrapping from 255 to 0.
pub open spec fn next_lock_id(pending: Seq<u8>, last_made: u8) -> u8 {
    let id = if pending.len() > 0 { pending.last() } else { last_made };
    if id == 255 {
        0
    } else {
        (id + 1) as u8
    }
}

/// Queues a new lock timer and remembers it as the last one made; returns its
/// id. The caller runs [`lock_timeout_elapsed`] with it after the timeout.
pub fn create_lock_timeout(que: &mut Que, timeout_que_id: &mut u8) -> (id: u8)
    ensures
        id == next_lock_id(old(que).lock@, *old(timeout_que_id)),
        final(que).lock@ == old(que).lock@.push(id),
        final(que).tooltip@ == old(que).tooltip@,
        final(que).toast@ == old(que).toast@,
        *final(timeout_que_id) == id,
{
    let n = que.lock.len();
    let mut id = if n > 0 {
        que.lock[n - 1]
    } else {
        *timeout_que_id
    };
    if id == 255 {
        id = 0;
    } else {
        id += 1;
    }
    que.lock.push(id);
    *timeout_que_id = id;
    id
}

/// What a lock timer does when its time is over: when it is still pending it
/// is forgotten and the vault must lock (`true`); otherwise nothing happens.
pub fn lock_timeout_elapsed(que: &mut Que, id: u8) -> (lock: bool)
    ensures
        lock == old(que).lock@.contains(id),
        final(que).lock@ == if lock { without_id(old(que).lock@, id) } else { old(que).lock@ },
        final(que).tooltip@ == old(que).tooltip@,
        final(que).toast@ == old(que).toast@,
{
    if contains_id(&que.lock, id) {
        remove_id(&mut que.lock, id);
        true
    } else {
        false
    }
}

/// Locks the application: pending tooltips are forgotten, the vault is
/// locked (its entries zeroized and forgotten), and the password prompt is
/// shown.
pub fn lock_app(que: &mut Que, db: &mut Db, app_state: &mut AppState)
    ensures
        final(que).tooltip@.len() == 0,
        final(que).toast@ == old(que).toast@,
        final(que).lock@ == old(que).lock@,
        final(db)@ == (DbView { contents: Seq::empty(), vault_unlocked: false, ..old(db)@ }),
        *final(app_state) == AppState::PassPrompting,
{
    que.unque_all_tooltips();
    db.lock();
    *app_state = AppState::PassPrompting;
}


/// What the application is told: the password field changed (and whether
/// it is now empty), decrypting the vault with the password ended (and
/// whether it succeeded), or the lock shortcut was pressed.
#[derive(Debug, Clone, Copy, PartialEq, Eq, Structural)]
pub enum AppEvent {
    Password { empty: bool },
    Decrypted { ok: bool },
    LockShortcut,
}

/// What the application then does: nothing; keep the chosen password as the
/// vault's, save, and clear the field; decrypt the vault with the password;
/// clear the field and the toasts of a vault that opened; show the error of
/// a decryption that failed; or forget the tooltips and lock the vault.
#[derive(Debug, Clone, Copy, PartialEq, Eq, Structural)]
pub enum AppAction {
    Nothing,
    SetPasswordAndSave,
    Decrypt,
    Unlocked,
    ShowError,
    Lock,
}

/// The state the application starts in: the password prompt when both its
/// settings and its database exist, the first-run password choice otherwise.
pub fn initial_app_state(has_config: bool, has_db: bool) -> (s: AppState)
    ensures
        s == if has_config && has_db { AppState::PassPrompting } else { AppState::OnBoarding },
{
    if has_config && has_db {
        AppState::PassPrompting
    } else {
        AppState::OnBoarding
    }
}

/// How the application moves: a password chosen at first run is kept and
/// leads to the prompt; a password given at the prompt is tried, a vault
/// that opens leads to the unlocked state and one that does not shows its
/// error; the lock shortcut leads back to the prompt from anywhere; nothing
/// else changes anything.
pub open spec fn spec_next_app_state(state: AppState, event: AppEvent) -> (AppState, AppAction) {
    match (state, event) {
        (_, AppEvent::LockShortcut) => (AppState::PassPrompting, AppAction::Lock),
        (AppState::OnBoarding, AppEvent::Password { empty: false }) => (AppState::PassPrompting, AppAction::SetPasswordAndSave),
        (AppState::PassPrompting, AppEvent::Password { empty: false }) => (AppState::PassPrompting, AppAction::Decrypt),
        (AppState::PassPrompting, AppEvent::Decrypted { ok: true }) => (AppState::Ready, AppAction::Unlocked),
        (AppState::PassPrompting, AppEvent::Decrypted { ok: false }) => (AppState::PassPrompting, AppAction::ShowError),
        _ => (state, AppAction::Nothing),
    }
}

/// The next state of the application and what it does on an event.
pub fn next_app_state(state: AppState, event: AppEvent) -> (r: (AppState, AppAction))
    ensures
        r == spec_next_app_state(state, event),
{
    match event {
        AppEvent::LockShortcut => (AppState::PassPrompting, AppAction::Lock),
        AppEvent::Password { empty } => {
            if empty {
                (state, AppAction::Nothing)
            } else {
                match state {
                    AppState::OnBoarding => (AppState::PassPrompting, AppAction::SetPasswordAndSave),
                    AppState::PassPrompting => (AppState::PassPrompting, AppAction::Decrypt),
                    AppState::Ready => (state, AppAction::Nothing),
                }
            }
        },
        AppEvent::Decrypted { ok } => {
            match state {
                AppState::PassPrompting => if ok {
                    (AppState::Ready, AppAction::Unlocked)
                } else {
                    (AppState::PassPrompting, AppAction::ShowError)
                },
                _ => (state, AppAction::Nothing),
            }
        },
    }
}

/// The vault is reached only through the prompt: the application becomes
/// unlocked only from the password prompt, when decryption succeeded; and
/// the lock shortcut always leads back to the prompt, locking the vault.
pub proof fn law_unlocked_only_by_decryption(state: AppState, event: AppEvent)
    ensures
        spec_next_app_state(state, event).0 == AppState::Ready && state != AppState::Ready
            ==> state == AppState::PassPrompting && event == (AppEvent::Decrypted { ok: true }),
        spec_next_app_state(state, event).0 == AppState::Ready ==> event != AppEvent::LockShortcut,
        event == AppEvent::LockShortcut ==> spec_next_app_state(state, event) == (AppState::PassPrompting, AppAction::Lock),
{
}

} // verus!
