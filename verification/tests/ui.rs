use vault::db::{Db, DbFields};
use vault::lock::{
    create_lock_timeout, initial_app_state, lock_app, lock_timeout_elapsed, next_app_state, AppAction, AppEvent,
    AppState,
};
use vault::password_gen::{generate_password, get_random_string, password_from_indices};
use vault::sortable::sort_items;
use vault::ui::details::list_item::replace_consecutive_newlines;
use vault::ui::primitives::button::ButtonVariant;
use vault::ui::primitives::debounce::Debounce;
use vault::ui::primitives::que::Que;
use vault::ui::primitives::toast::ToastSignals;
use vault::ui::settings::general::{change_password, round_letter_count, PasswordChangeError};
use vault::ui::settings::settings_view::Tabs;
use vault::ui::settings_view::Tabs as FirstTabs;
use vault::ui::window_management::{closing_window, make_field_path};

#[test]
fn sort_items_test() {
    let mut sortable_items = (0..5).collect::<Vec<usize>>();
    sort_items(&mut sortable_items, 2, 1);
    assert_eq!(sortable_items, vec![0, 2, 1, 3, 4]);

    let mut sortable_items = (0..5).collect::<Vec<usize>>();
    sort_items(&mut sortable_items, 4, 1);
    assert_eq!(sortable_items, vec![0, 4, 1, 2, 3]);

    let mut sortable_items = (0..5).collect::<Vec<usize>>();
    sort_items(&mut sortable_items, 0, 2);
    assert_eq!(sortable_items, vec![1, 2, 0, 3, 4]);

    let mut sortable_items = (0..5).collect::<Vec<usize>>();
    sort_items(&mut sortable_items, 2, 2);
    assert_eq!(sortable_items, vec![0, 1, 2, 3, 4]);
}

#[test]
fn consecutive_newlines_get_spaces() {
    assert_eq!(replace_consecutive_newlines(String::from("a\n\nb")), "a\n \nb");
    assert_eq!(replace_consecutive_newlines(String::from("\n\n\n")), "\n \n \n");
    assert_eq!(replace_consecutive_newlines(String::from("a\nb")), "a\nb");
    assert_eq!(replace_consecutive_newlines(String::new()), "");
    let once = replace_consecutive_newlines(String::from("x\n\n\ny\n\n"));
    assert_eq!(replace_consecutive_newlines(once.clone()), once);
}

#[test]
fn letter_counts_round_up_to_powers_of_two() {
    assert_eq!(round_letter_count(1), 1);
    assert_eq!(round_letter_count(2), 2);
    assert_eq!(round_letter_count(3), 4);
    assert_eq!(round_letter_count(16), 16);
    assert_eq!(round_letter_count(17), 32);
    assert_eq!(round_letter_count(2032), 2048);
}

#[test]
fn field_paths_and_tab_names() {
    assert_eq!(make_field_path(12, &DbFields::Fields(3)), "12-Fields-3");
    assert_eq!(make_field_path(0, &DbFields::Title), "0-Title");
    assert_eq!(Tabs::Shortcuts.to_string(), "Shortcuts");
    assert_eq!(Tabs::General.to_string(), "General");
    assert_eq!(FirstTabs::Database.to_string(), "Database");
    assert_ne!(ButtonVariant::Default, ButtonVariant::Tiny);
}

#[test]
fn random_passwords_have_the_length_asked() {
    let p = get_random_string(24);
    assert_eq!(p.chars().count(), 24);
    let g = generate_password(String::from("some entropy"), 12);
    assert_eq!(g.chars().count(), 12);
    assert_eq!(get_random_string(0), "");
    assert_eq!(password_from_indices(&vec![0, 30, 56, 134, 159]), "0aA!/");
}

#[test]
fn toasts_queue_and_dismiss() {
    let mut t = ToastSignals::new(Que::default());
    assert_eq!(t.add(String::from("one")), 1);
    assert_eq!(t.add(String::from("two")), 2);
    assert_eq!(t.que.toast, vec![1, 2]);
    t.dismiss(1);
    assert_eq!(t.que.toast, vec![2]);
    assert_eq!(t.toasts, vec![(2, String::from("two"))]);
    t.dismiss(1);
    assert_eq!(t.toasts.len(), 1);
    t.kill_all_toasts();
    assert!(t.toasts.is_empty() && t.que.toast.is_empty());
    assert_eq!(t.add(String::from("again")), 1);
}

#[test]
fn debounce_runs_only_the_latest() {
    let mut d = Debounce::default();
    assert_eq!(d.duration_ms, 100);
    let a = d.add();
    let b = d.add();
    assert!(!d.fire(a));
    assert!(d.fire(b));
    assert!(!d.fire(b));
}

#[test]
fn lock_timers() {
    let mut que = Que::default();
    let mut last: u8 = 254;
    let a = create_lock_timeout(&mut que, &mut last);
    assert_eq!(a, 255);
    let b = create_lock_timeout(&mut que, &mut last);
    assert_eq!(b, 0);
    assert_eq!(last, 0);
    assert!(lock_timeout_elapsed(&mut que, a));
    assert!(!lock_timeout_elapsed(&mut que, a));
    assert_eq!(que.lock, vec![0]);
    let mut db = Db::default();
    db.vault_unlocked = true;
    let mut state = AppState::Ready;
    que.tooltip.push(1);
    lock_app(&mut que, &mut db, &mut state);
    assert_eq!(state, AppState::PassPrompting);
    assert!(!db.vault_unlocked);
    assert!(que.tooltip.is_empty());
}

#[test]
fn changing_password_from_settings() {
    let mut db = Db::default();
    assert_eq!(change_password(&mut db, String::new(), String::from("a"), String::from("b")), Err(PasswordChangeError::Mismatch));
    assert_eq!(change_password(&mut db, String::new(), String::new(), String::new()), Err(PasswordChangeError::Empty));
    assert_eq!(PasswordChangeError::Mismatch.message(), "New passwords do not match");
    assert_eq!(PasswordChangeError::Empty.message(), "Empty passwords are not allowed");
    db.config_db.salt = String::from("12345678");
    assert!(matches!(change_password(&mut db, String::from("x"), String::from("n"), String::from("n")), Err(PasswordChangeError::Change(_))));
}

#[test]
fn closing_window_forgets_the_first_with_that_name() {
    let mut windows = vec![
        (String::from("1-Title"), 10u64),
        (String::from("2-Url"), 20u64),
        (String::from("1-Title"), 30u64),
    ];
    assert_eq!(closing_window(&mut windows, &String::from("1-Title")), Some(10));
    assert_eq!(windows, vec![(String::from("2-Url"), 20u64), (String::from("1-Title"), 30u64)]);
    assert_eq!(closing_window(&mut windows, &String::from("3-Url")), None);
    assert_eq!(windows.len(), 2);
    assert_eq!(closing_window(&mut windows, &String::from("1-Title")), Some(30));
    assert_eq!(windows, vec![(String::from("2-Url"), 20u64)]);
}

#[test]
fn app_starts_at_the_prompt_only_with_settings_and_database() {
    assert_eq!(initial_app_state(true, true), AppState::PassPrompting);
    assert_eq!(initial_app_state(true, false), AppState::OnBoarding);
    assert_eq!(initial_app_state(false, true), AppState::OnBoarding);
    assert_eq!(initial_app_state(false, false), AppState::OnBoarding);
}

#[test]
fn app_state_moves_through_the_prompt() {
    let (s, a) = next_app_state(AppState::OnBoarding, AppEvent::Password { empty: true });
    assert_eq!((s, a), (AppState::OnBoarding, AppAction::Nothing));
    let (s, a) = next_app_state(s, AppEvent::Password { empty: false });
    assert_eq!((s, a), (AppState::PassPrompting, AppAction::SetPasswordAndSave));
    let (s, a) = next_app_state(s, AppEvent::Password { empty: false });
    assert_eq!((s, a), (AppState::PassPrompting, AppAction::Decrypt));
    let (s, a) = next_app_state(s, AppEvent::Decrypted { ok: false });
    assert_eq!((s, a), (AppState::PassPrompting, AppAction::ShowError));
    let (s, a) = next_app_state(s, AppEvent::Decrypted { ok: true });
    assert_eq!((s, a), (AppState::Ready, AppAction::Unlocked));
    let (s, a) = next_app_state(s, AppEvent::Password { empty: false });
    assert_eq!((s, a), (AppState::Ready, AppAction::Nothing));
    let (s, a) = next_app_state(s, AppEvent::LockShortcut);
    assert_eq!((s, a), (AppState::PassPrompting, AppAction::Lock));
    assert_eq!(
        next_app_state(AppState::OnBoarding, AppEvent::Decrypted { ok: true }),
        (AppState::OnBoarding, AppAction::Nothing)
    );
}

#[test]
fn debounce_burst_runs_only_the_last() {
    let mut d = Debounce::default();
    let calls: Vec<u64> = (0..5).map(|_| d.add()).collect();
    assert_eq!(calls, vec![1, 2, 3, 4, 5]);
    for c in &calls[..4] {
        assert!(!d.fire(*c));
    }
    assert!(d.fire(5));
    for c in &calls {
        assert!(!d.fire(*c));
    }
    assert_eq!(d.add(), 1);
}

#[test]
fn password_that_cannot_be_hashed_reports_the_hash_error() {
    let mut db = Db::default();
    let r = change_password(&mut db, String::from("old"), String::from("n"), String::from("n"));
    assert_eq!(r, Err(PasswordChangeError::Change(vault::db::ChangeError::CryptError(vault::encryption::CryptError::Hash))));
    assert_eq!(r.unwrap_err().message(), "Failed to create hash from password.");
}

#[test]
fn field_paths_of_distinct_places_differ() {
    let places = [DbFields::Id, DbFields::Title, DbFields::Fields(0), DbFields::Fields(1), DbFields::Fields(12)];
    let mut paths = Vec::new();
    for id in [0usize, 1, 12, 121] {
        for f in places.iter() {
            paths.push(make_field_path(id, f));
        }
    }
    for i in 0..paths.len() {
        for j in 0..paths.len() {
            assert_eq!(paths[i] == paths[j], i == j);
        }
    }
    assert_eq!(make_field_path(1, &DbFields::Fields(21)), make_field_path(1, &DbFields::Fields(21)));
}
