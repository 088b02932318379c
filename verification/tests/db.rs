use vault::db::db::{get_db, get_db_by_id, get_db_list};
use vault::db::{to_tuple, ChangeError, Db, DbEntry, DbFields, DbFile, DbFileDb, DynField, DynFieldKind};
use vault::encryption::{encrypt_vault_with_nonce, password_hash, CryptError};

fn field(id: usize, title: &str, visible: bool, values: &[(u64, &str)]) -> DynField {
    DynField {
        id,
        kind: DynFieldKind::SecretLine,
        title: title.to_string(),
        visible,
        value: values.iter().map(|(t, v)| (*t, v.to_string())).collect(),
    }
}

fn sample() -> Db {
    let mut db = Db::new(String::from("vault_db.toml"), None);
    db.unlock(vec![
        DbEntry {
            id: 3,
            title: String::from("Mail"),
            fields: vec![
                field(0, "User", true, &[(10, "me"), (20, "me2")]),
                field(1, "Pin", false, &[(5, "1234")]),
                field(2, "Pass", true, &[(7, "secret")]),
            ],
        },
        DbEntry { id: 8, title: String::from("Bank"), fields: vec![field(4, "Card", true, &[(1, "4111")])] },
    ]);
    db
}

#[test]
fn all_values_lists_every_kind() {
    assert_eq!(DynFieldKind::all_values(), vec![DynFieldKind::SecretLine, DynFieldKind::TextLine, DynFieldKind::Url]);
    assert_eq!(DynFieldKind::default(), DynFieldKind::TextLine);
    assert_eq!(DynFieldKind::Url.to_string(), "Url");
    assert_eq!(DynFieldKind::SecretLine.to_string(), "SecretLine");
}

#[test]
fn db_fields_names() {
    assert_eq!(DbFields::Id.to_string(), "Id");
    assert_eq!(DbFields::Title.to_string(), "Title");
    assert_eq!(DbFields::Fields(42).to_string(), "Fields-42");
}

#[test]
fn default_db_is_the_sample() {
    let db = Db::default();
    assert_eq!(db.contents.len(), 1);
    assert_eq!(db.contents[0].title, "My Bank Deets");
    assert_eq!(db.contents[0].fields.len(), 5);
    assert!(!db.config_db.encrypted);
    assert!(!db.vault_unlocked);
    assert_eq!(db.get_last_by_field(&1, &DbFields::Fields(3)), "totally_secure_password!1");
    let default_field = DynField::default();
    assert_eq!(default_field.title, "Notes");
    assert_eq!(default_field.value, vec![(0, String::from("My notes"))]);
}

#[test]
fn sidebar_list_is_last_first() {
    let db = sample();
    let list = db.get_list();
    let rows: Vec<(usize, &str, usize)> = list.iter().cloned().collect();
    assert_eq!(rows, vec![(8, "Bank", 1), (3, "Mail", 0)]);
    let entry = DbEntry { id: 9, title: String::from("X"), fields: vec![] };
    assert_eq!(to_tuple(&entry, 4), (9, "X", 4));
}

#[test]
fn lookups_find_the_first_match_or_stand_ins() {
    let db = sample();
    assert_eq!(db.get_by_id(&3).title, "Mail");
    assert_eq!(db.get_by_id(&99).title, "Not found");
    assert_eq!(db.get_by_id(&99).id, 99);
    assert_eq!(db.get_name_of_dyn_field(&3, &DbFields::Fields(2)), "Pass");
    assert_eq!(db.get_name_of_dyn_field(&3, &DbFields::Fields(77)), "Notes");
    assert_eq!(db.get_name_of_dyn_field(&3, &DbFields::Title), "User");
    assert_eq!(db.get_dyn_field_kind(&3, &DbFields::Title), DynFieldKind::TextLine);
    assert_eq!(db.get_dyn_field_kind(&3, &DbFields::Fields(1)), DynFieldKind::SecretLine);
}

#[test]
fn visible_and_hidden_fields() {
    let db = sample();
    assert_eq!(db.get_dyn_fields(&3), vec![DbFields::Fields(0), DbFields::Fields(2)]);
    assert_eq!(db.get_hidden_dyn_fields(&3), vec![DbFields::Fields(1)]);
    assert_eq!(db.get_dyn_fields(&99), vec![DbFields::Fields(0)]);
}

#[test]
fn reading_places_and_history() {
    let db = sample();
    assert_eq!(db.get_last_by_field(&3, &DbFields::Id), "3");
    assert_eq!(db.get_last_by_field(&3, &DbFields::Title), "Mail");
    assert_eq!(db.get_last_by_field(&3, &DbFields::Fields(0)), "me2");
    assert_eq!(db.get_last_by_field(&3, &DbFields::Fields(5)), "My Notes");
    assert_eq!(db.get_n_by_field(&3, &DbFields::Fields(0), 0), "me2");
    assert_eq!(db.get_n_by_field(&3, &DbFields::Fields(0), 1), "me");
    assert_eq!(db.get_n_by_field(&1234, &DbFields::Id, 0), "1234");
    let history: Vec<(u64, String)> = db.get_history(&3, &DbFields::Fields(0)).unwrap().iter().cloned().collect();
    assert_eq!(history, vec![(20, String::from("me2")), (10, String::from("me"))]);
    assert!(db.get_history(&3, &DbFields::Title).is_none());
    assert_eq!(db.get_history_dates(&3, &DbFields::Fields(0)), vec![(0, 10), (1, 20)]);
    assert_eq!(db.get_history_dates(&3, &DbFields::Id), vec![(0, 0)]);
}

#[test]
fn add_gives_the_next_id() {
    let mut db = sample();
    assert_eq!(db.add(String::from("New")), 9);
    assert_eq!(db.contents.last().unwrap().title, "New");
    assert!(db.contents.last().unwrap().fields.is_empty());
    let mut empty = Db::new(String::new(), Some(DbFile {
        db: DbFileDb { encrypted: false, salt: String::new(), cypher: String::new() },
    }));
    assert_eq!(empty.add(String::from("First")), 2);
}

#[test]
fn add_dyn_field_appends_a_shown_field() {
    let mut db = sample();
    let shown = db.add_dyn_field(&3, DynFieldKind::Url, String::from("Site"), String::from("https://x"));
    assert_eq!(shown, vec![DbFields::Fields(0), DbFields::Fields(2), DbFields::Fields(3)]);
    assert_eq!(db.get_last_by_field(&3, &DbFields::Fields(3)), "https://x");
    assert_eq!(db.get_history_dates(&3, &DbFields::Fields(3)), vec![(0, 0)]);
    let mut fresh = sample();
    fresh.add(String::from("Empty"));
    assert_eq!(fresh.add_dyn_field(&9, DynFieldKind::TextLine, String::from("A"), String::from("b")), vec![DbFields::Fields(1)]);
}

#[test]
fn retitle_and_hide_fields() {
    let mut db = sample();
    db.edit_dyn_field_title(&3, &DbFields::Fields(2), String::from("Password"));
    assert_eq!(db.get_name_of_dyn_field(&3, &DbFields::Fields(2)), "Password");
    db.edit_dyn_field_title(&3, &DbFields::Title, String::from("ignored"));
    assert_eq!(db.get_by_id(&3).title, "Mail");
    let hidden = db.edit_dyn_field_visbility(&3, &DbFields::Fields(0), false);
    assert_eq!(hidden, vec![DbFields::Fields(0), DbFields::Fields(1)]);
    assert_eq!(db.get_dyn_fields(&3), vec![DbFields::Fields(2)]);
}

#[test]
fn edits_keep_history() {
    let mut db = sample();
    db.edit_field_at(3, &DbFields::Fields(0), String::from("me3"), 30);
    assert_eq!(db.get_last_by_field(&3, &DbFields::Fields(0)), "me3");
    assert_eq!(db.get_history_dates(&3, &DbFields::Fields(0)), vec![(0, 10), (1, 20), (2, 30)]);
    db.edit_field(3, &DbFields::Title, String::from("Email"));
    assert_eq!(db.get_by_id(&3).title, "Email");
    db.edit_field(3, &DbFields::Fields(2), String::from("new secret"));
    assert_eq!(db.get_last_by_field(&3, &DbFields::Fields(2)), "new secret");
    assert_eq!(db.get_n_by_field(&3, &DbFields::Fields(2), 1), "secret");
}

#[test]
fn edit_of_unknown_entry_edits_the_first_entry() {
    let mut db = sample();
    db.edit_field_at(404, &DbFields::Title, String::from("Changed"), 1);
    assert_eq!(db.contents[0].title, "Changed");
}

#[test]
fn unlock_with_password_and_change_it() {
    let salt = String::from("somesalt");
    let hash = password_hash(String::from("pw"), salt.clone()).unwrap();
    let sealed = encrypt_vault_with_nonce(String::from("contents"), hash, [3; 12]).unwrap();
    let mut db = Db::new(
        String::from("db.toml"),
        Some(DbFile { db: DbFileDb { encrypted: true, salt: salt.clone(), cypher: sealed } }),
    );
    assert_eq!(db.db_path(), "db.toml");
    assert_eq!(db.decrypt_database(String::from("wrong")), Err(CryptError::Decryption));
    assert_eq!(db.decrypt_database(String::from("pw")), Ok(String::from("contents")));
    assert_eq!(db.change_password(String::from("wrong"), String::from("new")), Err(ChangeError::WrongPassword()));
    assert_eq!(db.change_password(String::from("pw"), String::from("new")), Ok(()));
    db.serialize_db(String::from("contents 2")).unwrap();
    assert_eq!(db.try_decrypt_database(String::from("new")), Some(Ok(String::from("contents 2"))));
    assert_eq!(ChangeError::WrongPassword().message(), "Wrong password provided");
    assert_eq!(ChangeError::CryptError(CryptError::Hash).message(), "Failed to create hash from password.");
    assert_eq!(ChangeError::CryptError(CryptError::Decryption).message(), "Incorrect password.");
}

#[test]
fn plain_vault_opens_as_stored() {
    let mut db = Db::default();
    db.set_db_path(String::from("p"));
    db.serialize_db(String::from("plain text")).unwrap();
    assert_eq!(db.config_db.cypher, "plain text");
    // The sample database has no salt, so no password can be hashed.
    assert_eq!(db.decrypt_database(String::from("p")), Err(CryptError::Hash));
    db.config_db.salt = String::from("12345678");
    assert_eq!(db.decrypt_database(String::from("p")), Ok(String::from("plain text")));
    assert_eq!(db.change_password(String::from("x"), String::from("y")), Err(ChangeError::WrongPassword()));
    db.clear_hash();
    db.lock();
    assert!(!db.vault_unlocked);
}

#[test]
fn short_stored_vault_is_refused_before_decrypting() {
    let mut db = Db::new(
        String::new(),
        Some(DbFile { db: DbFileDb { encrypted: true, salt: String::from("12345678"), cypher: String::from("AAAA") } }),
    );
    assert_eq!(db.try_decrypt_database(String::from("pw")), None);
}

#[test]
fn sample_rows_lookup() {
    let rows = get_db();
    assert_eq!(rows.len(), 27);
    assert_eq!(rows[0], (1, "password 1", "Body of this item 1"));
    assert_eq!(get_db_by_id(9), (9, "password 9", "Body of this item 9"));
    assert_eq!(get_db_by_id(5), (5, "##Not found##", "Not found"));
    let list: Vec<(usize, &str, usize)> = get_db_list().iter().cloned().collect();
    assert_eq!(list[0], (1, "password 1", 0));
    assert_eq!(list[26], (39, "last password", 26));
}

#[test]
fn change_password_reports_the_hash_error() {
    let mut db = Db::default();
    let r = db.change_password(String::from("a"), String::from("b"));
    assert_eq!(r, Err(ChangeError::CryptError(CryptError::Hash)));
    assert_eq!(r.unwrap_err().message(), "Failed to create hash from password.");
}

#[test]
fn shown_and_hidden_fields_split_the_entry() {
    let db = Db::default();
    assert_eq!(db.get_hidden_dyn_fields(&1), Vec::<DbFields>::new());
    let mut all = db.get_dyn_fields(&1);
    all.extend(db.get_hidden_dyn_fields(&1));
    assert_eq!(all.len(), db.contents[0].fields.len());
    for f in db.contents[0].fields.iter() {
        assert!(all.contains(&DbFields::Fields(f.id)));
    }
}
