//! The vault database: entries made of dynamic fields, each field keeping the
//! whole history of its values.

use vstd::prelude::*;
use crate::text::{decimal, decimal_string};

pub mod db;

verus! {

/// One value of a field: the time it was written (seconds since the Unix
/// epoch) and the value.
pub type SecureField = (u64, String);

/// The kind of a dynamic field.
#[derive(Debug, Clone, Copy, PartialEq, Eq, Structural, Hash)]
pub enum DynFieldKind {
    TextLine,
    SecretLine,
    Url,
}

impl Default for DynFieldKind {
    fn default() -> (k: Self)
        ensures
            k == DynFieldKind::TextLine,
    {
        DynFieldKind::TextLine
    }
}

impl View for DynFieldKind {
    type V = DynFieldKind;

    open spec fn view(&self) -> DynFieldKind {
        *self
    }
}

impl DeepView for DynFieldKind {
    type V = DynFieldKind;

    open spec fn deep_view(&self) -> DynFieldKind {
        *self
    }
}

/// The name of each kind.
pub open spec fn kind_name(k: DynFieldKind) -> Seq<char> {
    match k {
        DynFieldKind::TextLine => "TextLine"@,
        DynFieldKind::SecretLine => "SecretLine"@,
        DynFieldKind::Url => "Url"@,
    }
}

impl DynFieldKind {
    /// Every kind, in the order in which the views offer them.
    pub fn all_values() -> (v: Vec<DynFieldKind>)
        ensures
            v@ == seq![DynFieldKind::SecretLine, DynFieldKind::TextLine, DynFieldKind::Url],
    {
        vec![DynFieldKind::SecretLine, DynFieldKind::TextLine, DynFieldKind::Url]
    }

    /// The name of the kind.
    pub fn to_string(&self) -> (s: String)
        ensures
            s@ == kind_name(*self),
    {
        match self {
            DynFieldKind::TextLine => "TextLine".to_owned(),
            DynFieldKind::SecretLine => "SecretLine".to_owned(),
            DynFieldKind::Url => "Url".to_owned(),
        }
    }
}

/// A field of an entry: a title, a kind, whether it is shown, and every value
/// it has had, oldest first.
#[derive(Debug)]
pub struct DynField {
    pub id: usize,
    pub kind: DynFieldKind,
    pub title: String,
    pub visible: bool,
    pub value: Vec<SecureField>,
}

/// What a field is.
pub struct DynFieldView {
    pub id: usize,
    pub kind: DynFieldKind,
    pub title: Seq<char>,
    pub visible: bool,
    pub value: Seq<(u64, Seq<char>)>,
}

/// The values of a history.
pub open spec fn history_view(h: Seq<SecureField>) -> Seq<(u64, Seq<char>)> {
    h.map_values(|e: SecureField| (e.0, e.1@))
}

impl View for DynField {
    type V = DynFieldView;

    open spec fn view(&self) -> DynFieldView {
        DynFieldView {
            id: self.id,
            kind: self.kind,
            title: self.title@,
            visible: self.visible,
            value: history_view(self.value@),
        }
    }
}

fn clone_history(h: &Vec<SecureField>) -> (r: Vec<SecureField>)
    ensures
        r@ == h@,
{
    let mut r: Vec<SecureField> = Vec::new();
    let mut i: usize = 0;
    while i < h.len()
        invariant
            0 <= i <= h@.len(),
            r@ =~= h@.take(i as int),
        decreases h@.len() - i,
    {
        let item = (h[i].0, h[i].1.clone());
        r.push(item);
        i += 1;
    }
    assert(h@.take(h@.len() as int) =~= h@);
    r
}

impl Clone for DynField {
    fn clone(&self) -> (r: Self)
        ensures
            r@ == self@,
    {
        DynField {
            id: self.id,
            kind: self.kind,
            title: self.title.clone(),
            visible: self.visible,
            value: clone_history(&self.value),
        }
    }
}

/// The field that a new entry starts with when none is found.
pub open spec fn default_field_view() -> DynFieldView {
    DynFieldView {
        id: 0,
        kind: DynFieldKind::SecretLine,
        title: "Notes"@,
        visible: true,
        value: seq![(0u64, "My notes"@)],
    }
}

impl Default for DynField {
    fn default() -> (f: Self)
        ensures
            f@ == default_field_view(),
    {
        let f = DynField {
            id: 0,
            kind: DynFieldKind::SecretLine,
            title: "Notes".to_owned(),
            visible: true,
            value: vec![(0, "My notes".to_owned())],
        };
        assert(f@.value =~= seq![(0u64, "My notes"@)]);
        f
    }
}

/// An entry of the vault.
#[derive(Debug)]
pub struct DbEntry {
    pub id: usize,
    pub title: String,
    pub fields: Vec<DynField>,
}

/// What an entry is.
pub struct DbEntryView {
    pub id: usize,
    pub title: Seq<char>,
    pub fields: Seq<DynFieldView>,
}

/// The views of some fields.
pub open spec fn fields_view(fields: Seq<DynField>) -> Seq<DynFieldView> {
    fields.map_values(|f: DynField| f@)
}

impl View for DbEntry {
    type V = DbEntryView;

    open spec fn view(&self) -> DbEntryView {
        DbEntryView { id: self.id, title: self.title@, fields: fields_view(self.fields@) }
    }
}

impl Clone for DbEntry {
    fn clone(&self) -> (r: Self)
        ensures
            r@ == self@,
    {
        let fields = self.fields.clone();
        assert(fields_view(fields@) =~= fields_view(self.fields@));
        DbEntry { id: self.id, title: self.title.clone(), fields }
    }
}

/// The views of some entries.
pub open spec fn entries_view(entries: Seq<DbEntry>) -> Seq<DbEntryView> {
    entries.map_values(|e: DbEntry| e@)
}

/// An entry that is about to be added.
#[derive(Debug)]
pub struct NewDbEntry {
    pub title: String,
    pub fields: Vec<DynField>,
}

/// The part of an entry that may be shown without unlocking a secret.
#[derive(Debug)]
pub struct DbEntryNonSecure {
    pub id: usize,
    pub title: String,
}

/// A place in an entry: its id, its title, or one of its fields by id.
#[derive(Debug, Clone, Copy, PartialEq, Eq, Structural, Hash)]
pub enum DbFields {
    Id,
    Title,
    Fields(usize),
}

/// The name of each place, as the views print it.
pub open spec fn db_fields_name(f: DbFields) -> Seq<char> {
    match f {
        DbFields::Id => "Id"@,
        DbFields::Title => "Title"@,
        DbFields::Fields(idx) => "Fields-"@ + decimal(idx as nat),
    }
}

impl DbFields {
    /// The name of the place.
    pub fn to_string(&self) -> (s: String)
        ensures
            s@ == db_fields_name(*self),
    {
        match self {
            DbFields::Id => "Id".to_owned(),
            DbFields::Title => "Title".to_owned(),
            DbFields::Fields(idx) => {
                let mut s = "Fields-".to_owned();
                let n = decimal_string(*idx);
                s.append(n.as_str());
                s
            },
        }
    }
}

/// The stored part of the database file: whether the vault is encrypted, the
/// salt of the password and the stored vault text.
#[derive(Debug)]
pub struct DbFileDb {
    pub encrypted: bool,
    pub salt: String,
    pub cypher: String,
}

/// What the stored part is.
pub struct DbFileDbView {
    pub encrypted: bool,
    pub salt: Seq<char>,
    pub cypher: Seq<char>,
}

impl View for DbFileDb {
    type V = DbFileDbView;

    open spec fn view(&self) -> DbFileDbView {
        DbFileDbView { encrypted: self.encrypted, salt: self.salt@, cypher: self.cypher@ }
    }
}

/// The database file.
#[derive(Debug)]
pub struct DbFile {
    pub db: DbFileDb,
}

// ---------------------------------------------------------------------------
// Lookups

/// The position of the first entry with the given id.
pub open spec fn first_entry(entries: Seq<DbEntryView>, id: usize) -> Option<int>
    decreases entries.len(),
{
    if entries.len() == 0 {
        None
    } else {
        match first_entry(entries.drop_last(), id) {
            Some(i) => Some(i),
            None => if entries.last().id == id {
                Some(entries.len() - 1)
            } else {
                None
            },
        }
    }
}

proof fn lemma_first_entry(s: Seq<DbEntryView>, id: usize)
    ensures
        match first_entry(s, id) {
            Some(i) => 0 <= i < s.len() && s[i].id == id && forall|j: int| 0 <= j < i ==> s[j].id != id,
            None => forall|j: int| 0 <= j < s.len() ==> s[j].id != id,
        },
    decreases s.len(),
{
    if s.len() > 0 {
        let t = s.drop_last();
        lemma_first_entry(t, id);
        assert forall|j: int| 0 <= j < s.len() - 1 implies #[trigger] t[j] == s[j] by {}
        assert(s.last() == s[s.len() - 1]);
        if first_entry(t, id) is None {
            assert forall|j: int| 0 <= j < s.len() - 1 implies s[j].id != id by {
                assert(t[j].id != id);
            }
        } else {
            let i = first_entry(t, id)->0;
            assert forall|j: int| 0 <= j < i implies s[j].id != id by {
                assert(t[j].id != id);
            }
        }
    }
}

/// The position of the first field with the given id.
pub open spec fn first_field(fields: Seq<DynFieldView>, id: usize) -> Option<int>
    decreases fields.len(),
{
    if fields.len() == 0 {
        None
    } else {
        match first_field(fields.drop_last(), id) {
            Some(i) => Some(i),
            None => if fields.last().id == id {
                Some(fields.len() - 1)
            } else {
                None
            },
        }
    }
}

proof fn lemma_first_field(s: Seq<DynFieldView>, id: usize)
    ensures
        match first_field(s, id) {
            Some(i) => 0 <= i < s.len() && s[i].id == id && forall|j: int| 0 <= j < i ==> s[j].id != id,
            None => forall|j: int| 0 <= j < s.len() ==> s[j].id != id,
        },
    decreases s.len(),
{
    if s.len() > 0 {
        let t = s.drop_last();
        lemma_first_field(t, id);
        assert forall|j: int| 0 <= j < s.len() - 1 implies #[trigger] t[j] == s[j] by {}
        assert(s.last() == s[s.len() - 1]);
        if first_field(t, id) is None {
            assert forall|j: int| 0 <= j < s.len() - 1 implies s[j].id != id by {
                assert(t[j].id != id);
            }
        } else {
            let i = first_field(t, id)->0;
            assert forall|j: int| 0 <= j < i implies s[j].id != id by {
                assert(t[j].id != id);
            }
        }
    }
}

/// The entry that stands in for an id that no entry has.
pub open spec fn not_found_entry(id: usize) -> DbEntryView {
    DbEntryView { id, title: "Not found"@, fields: seq![default_field_view()] }
}

/// The field that stands in for a field id that the entry does not have.
pub open spec fn missing_field(id: usize) -> DynFieldView {
    DynFieldView {
        id,
        kind: DynFieldKind::SecretLine,
        title: "Notes"@,
        visible: true,
        value: seq![(0u64, "My Notes"@)],
    }
}

/// The first entry with the given id, or the stand-in.
pub open spec fn lookup_entry(entries: Seq<DbEntryView>, id: usize) -> DbEntryView {
    match first_entry(entries, id) {
        Some(i) => entries[i],
        None => not_found_entry(id),
    }
}

/// The first field with the given id, or the stand-in.
pub open spec fn lookup_field(fields: Seq<DynFieldView>, id: usize) -> DynFieldView {
    match first_field(fields, id) {
        Some(i) => fields[i],
        None => missing_field(id),
    }
}

/// The field id that a place names (0 for the id and the title).
pub open spec fn field_index(field: DbFields) -> usize {
    match field {
        DbFields::Fields(i) => i,
        _ => 0,
    }
}

/// The field that a place of an entry names.
pub open spec fn field_of(entries: Seq<DbEntryView>, id: usize, field: DbFields) -> DynFieldView {
    lookup_field(lookup_entry(entries, id).fields, field_index(field))
}

/// The current content of a place of an entry: the id in decimal, the
/// title, or the latest value of the field.
pub open spec fn current_value(entries: Seq<DbEntryView>, id: usize, field: DbFields) -> Seq<char> {
    match field {
        DbFields::Id => decimal(id as nat),
        DbFields::Title => lookup_entry(entries, id).title,
        DbFields::Fields(_) => field_of(entries, id, field).value.last().1,
    }
}

/// The ids of the fields that are shown (or hidden), in order, as places.
pub open spec fn field_ids_where(fields: Seq<DynFieldView>, visible: bool) -> Seq<DbFields>
    decreases fields.len(),
{
    if fields.len() == 0 {
        Seq::empty()
    } else {
        let rest = field_ids_where(fields.drop_last(), visible);
        if fields.last().visible == visible {
            rest.push(DbFields::Fields(fields.last().id))
        } else {
            rest
        }
    }
}

proof fn lemma_lookup_entry_id(entries: Seq<DbEntryView>, id: usize)
    ensures
        lookup_entry(entries, id).id == id,
{
    lemma_first_entry(entries, id);
}

fn find_entry(entries: &Vec<DbEntry>, id: usize) -> (r: Option<usize>)
    ensures
        match r {
            Some(i) => first_entry(entries_view(entries@), id) == Some(i as int),
            None => first_entry(entries_view(entries@), id) is None,
        },
{
    let ghost s = entries_view(entries@);
    proof { lemma_first_entry(s, id); }
    let mut i: usize = 0;
    while i < entries.len()
        invariant
            0 <= i <= entries@.len(),
            s == entries_view(entries@),
            forall|j: int| 0 <= j < i ==> s[j].id != id,
            match first_entry(s, id) {
                Some(k) => 0 <= k < s.len() && s[k].id == id && forall|j: int| 0 <= j < k ==> s[j].id != id,
                None => forall|j: int| 0 <= j < s.len() ==> s[j].id != id,
            },
        decreases entries@.len() - i,
    {
        if entries[i].id == id {
            assert(s[i as int].id == id);
            return Some(i);
        }
        i += 1;
    }
    None
}

fn find_field(fields: &Vec<DynField>, id: usize) -> (r: Option<usize>)
    ensures
        match r {
            Some(i) => first_field(fields_view(fields@), id) == Some(i as int),
            None => first_field(fields_view(fields@), id) is None,
        },
{
    let ghost s = fields_view(fields@);
    proof { lemma_first_field(s, id); }
    let mut i: usize = 0;
    while i < fields.len()
        invariant
            0 <= i <= fields@.len(),
            s == fields_view(fields@),
            forall|j: int| 0 <= j < i ==> s[j].id != id,
            match first_field(s, id) {
                Some(k) => 0 <= k < s.len() && s[k].id == id && forall|j: int| 0 <= j < k ==> s[j].id != id,
                None => forall|j: int| 0 <= j < s.len() ==> s[j].id != id,
            },
        decreases fields@.len() - i,
    {
        if fields[i].id == id {
            assert(s[i as int].id == id);
            return Some(i);
        }
        i += 1;
    }
    None
}

// ---------------------------------------------------------------------------
// The database

/// The vault database: its entries (once unlocked), the stored part of its
/// file, whether it is unlocked, the key derived from the password, and the
/// path of its file.
#[derive(Debug)]
pub struct Db {
    pub contents: Vec<DbEntry>,
    pub config_db: DbFileDb,
    pub vault_unlocked: bool,
    hash: [u8; 32],
    db_path: String,
}

/// What the database is.
pub struct DbView {
    pub contents: Seq<DbEntryView>,
    pub config_db: DbFileDbView,
    pub vault_unlocked: bool,
    pub hash: Seq<u8>,
    pub db_path: Seq<char>,
}

impl View for Db {
    type V = DbView;

    closed spec fn view(&self) -> DbView {
        DbView {
            contents: entries_view(self.contents@),
            config_db: self.config_db@,
            vault_unlocked: self.vault_unlocked,
            hash: self.hash@,
            db_path: self.db_path@,
        }
    }
}

/// The key a database holds before a password is given: 32 ASCII zeros.
pub open spec fn placeholder_key() -> Seq<u8> {
    Seq::new(32, |i: int| 48u8)
}

/// A database loaded from a stored file, before it is unlocked.
pub open spec fn spec_from_file(f: DbFileDbView, db_path: Seq<char>) -> DbView {
    DbView {
        contents: Seq::empty(),
        config_db: f,
        vault_unlocked: false,
        hash: placeholder_key(),
        db_path,
    }
}

/// The row of the sidebar list for an entry at a position.
pub open spec fn sidebar_row(e: DbEntryView, idx: int) -> (usize, Seq<char>, usize) {
    (e.id, e.title, idx as usize)
}

/// The sidebar list: one row per entry, last entry first.
pub open spec fn sidebar_rows(entries: Seq<DbEntryView>) -> Seq<(usize, Seq<char>, usize)> {
    Seq::new(entries.len(), |j: int| sidebar_row(entries[entries.len() - 1 - j], entries.len() - 1 - j))
}

/// The row of the sidebar list for an entry at a position.
pub fn to_tuple(item: &DbEntry, idx: usize) -> (r: (usize, &'static str, usize))
    ensures
        r.0 == item.id,
        r.1@ == item.title@,
        r.2 == idx,
{
    (item.id, crate::im_vector::leak_string(item.title.clone()), idx)
}

impl Db {
    /// The database of a stored file, at no path yet: locked, empty, and
    /// holding the placeholder key.
    pub fn from_file(db_file: DbFile) -> (db: Db)
        ensures
            db@ == spec_from_file(db_file.db@, Seq::<char>::empty()),
    {
        let db = Db {
            contents: Vec::new(),
            config_db: db_file.db,
            vault_unlocked: false,
            hash: [48u8; 32],
            db_path: String::new(),
        };
        assert(db@.hash =~= placeholder_key());
        assert(db@.contents =~= Seq::<DbEntryView>::empty());
        db
    }

    /// Locks the vault: every title and value of the entries is zeroized in
    /// memory and the entries are forgotten.
    pub fn lock(&mut self)
        ensures
            final(self)@ == (DbView { contents: Seq::empty(), vault_unlocked: false, ..old(self)@ }),
    {
        let mut i: usize = 0;
        while i < self.contents.len()
            invariant
                0 <= i <= self.contents@.len(),
                self.config_db == old(self).config_db,
                self.hash == old(self).hash,
                self.db_path == old(self).db_path,
            decreases self.contents@.len() - i,
        {
            zeroize_entry(&mut self.contents[i]);
            i += 1;
        }
        self.contents = Vec::new();
        self.vault_unlocked = false;
        assert(self@.contents =~= Seq::<DbEntryView>::empty());
    }

    /// The path of the database file.
    pub fn db_path(&self) -> (p: &String)
        ensures
            p@ == self@.db_path,
    {
        &self.db_path
    }

    /// Sets the path of the database file.
    pub fn set_db_path(&mut self, path: String)
        ensures
            final(self)@ == (DbView { db_path: path@, ..old(self)@ }),
    {
        self.db_path = path;
    }

    /// Forgets the key: it becomes the placeholder again.
    pub fn clear_hash(&mut self)
        ensures
            final(self)@ == (DbView { hash: placeholder_key(), ..old(self)@ }),
    {
        self.hash = [48u8; 32];
        assert(self@.hash =~= placeholder_key());
    }

    /// The sidebar list of all entries, last entry first, each with its
    /// position.
    pub fn get_list(&self) -> (r: im::Vector<(usize, &'static str, usize)>)
        ensures
            crate::im_vector::sidebar_items(r) == sidebar_rows(self@.contents),
    {
        let ghost entries = self@.contents;
        let mut r = crate::im_vector::sidebar_new();
        let mut k: usize = self.contents.len();
        while k > 0
            invariant
                0 <= k <= self.contents@.len(),
                entries == self@.contents,
                entries.len() == self.contents@.len(),
                crate::im_vector::sidebar_items(r) =~= sidebar_rows(entries).take(entries.len() - k),
            decreases k,
        {
            k -= 1;
            let row = to_tuple(&self.contents[k], k);
            crate::im_vector::sidebar_push_back(&mut r, row);
            assert(sidebar_rows(entries)[entries.len() - 1 - k] == sidebar_row(entries[k as int], k as int));
        }
        assert(sidebar_rows(entries).take(entries.len() as int) =~= sidebar_rows(entries));
        r
    }

    /// The first entry with the id, or the stand-in entry titled "Not found".
    fn get_by_id_secure(&self, id: &usize) -> (r: DbEntry)
        ensures
            r@ == lookup_entry(self@.contents, *id),
    {
        proof { lemma_first_entry(self@.contents, *id); }
        match find_entry(&self.contents, *id) {
            Some(i) => self.contents[i].clone(),
            None => {
                let r = DbEntry { id: *id, title: "Not found".to_owned(), fields: vec![DynField::default()] };
                assert(r@.fields =~= seq![default_field_view()]);
                r
            },
        }
    }

    /// The first field of the entry with the field id, or the stand-in field.
    fn get_field_by_id(&self, entry: &DbEntry, field_id: &usize) -> (r: DynField)
        ensures
            r@ == lookup_field(entry@.fields, *field_id),
    {
        proof { lemma_first_field(entry@.fields, *field_id); }
        match find_field(&entry.fields, *field_id) {
            Some(i) => entry.fields[i].clone(),
            None => {
                let r = DynField {
                    id: *field_id,
                    kind: DynFieldKind::SecretLine,
                    title: "Notes".to_owned(),
                    visible: true,
                    value: vec![(0, "My Notes".to_owned())],
                };
                assert(r@.value =~= seq![(0u64, "My Notes"@)]);
                r
            },
        }
    }

    /// The title of the field that a place of an entry names.
    pub fn get_name_of_dyn_field(&self, id: &usize, field: &DbFields) -> (r: String)
        ensures
            r@ == field_of(self@.contents, *id, *field).title,
    {
        let entry = self.get_by_id_secure(id);
        let field_id = match field {
            DbFields::Fields(idx) => *idx,
            _ => 0,
        };
        self.get_field_by_id(&entry, &field_id).title
    }

    /// The kind of a place of an entry: a text line for the id and the title.
    pub fn get_dyn_field_kind(&self, id: &usize, field: &DbFields) -> (r: DynFieldKind)
        ensures
            r == match *field {
                DbFields::Fields(_) => field_of(self@.contents, *id, *field).kind,
                _ => DynFieldKind::TextLine,
            },
    {
        let entry = self.get_by_id_secure(id);
        match field {
            DbFields::Id | DbFields::Title => DynFieldKind::TextLine,
            DbFields::Fields(field_id) => self.get_field_by_id(&entry, field_id).kind,
        }
    }

    /// The id and title of an entry.
    pub fn get_by_id(&self, id: &usize) -> (r: DbEntryNonSecure)
        ensures
            r.id == *id,
            r.title@ == lookup_entry(self@.contents, *id).title,
    {
        let entry = self.get_by_id_secure(id);
        DbEntryNonSecure { id: *id, title: entry.title }
    }

    fn field_ids(entry: &DbEntry, visible: bool) -> (r: Vec<DbFields>)
        ensures
            r@ == field_ids_where(entry@.fields, visible),
    {
        let ghost fs = entry@.fields;
        let mut r: Vec<DbFields> = Vec::new();
        let mut i: usize = 0;
        while i < entry.fields.len()
            invariant
                0 <= i <= entry.fields@.len(),
                fs == entry@.fields,
                fs.len() == entry.fields@.len(),
                r@ == field_ids_where(fs.take(i as int), visible),
            decreases entry.fields@.len() - i,
        {
            assert(fs.take(i + 1).drop_last() =~= fs.take(i as int));
            if entry.fields[i].visible == visible {
                r.push(DbFields::Fields(entry.fields[i].id));
            }
            i += 1;
        }
        assert(fs.take(fs.len() as int) =~= fs);
        r
    }

    /// The shown fields of an entry, in order.
    pub fn get_dyn_fields(&self, id: &usize) -> (r: Vec<DbFields>)
        ensures
            r@ == field_ids_where(lookup_entry(self@.contents, *id).fields, true),
    {
        let entry = self.get_by_id_secure(id);
        Self::field_ids(&entry, true)
    }

    /// The hidden fields of an entry, in order.
    pub fn get_hidden_dyn_fields(&self, id: &usize) -> (r: Vec<DbFields>)
        ensures
            r@ == field_ids_where(lookup_entry(self@.contents, *id).fields, false),
    {
        let entry = self.get_by_id_secure(id);
        Self::field_ids(&entry, false)
    }

    /// The current content of a place of an entry: the id in decimal, the
    /// title, or the latest value of a field.
    pub fn get_last_by_field(&self, id: &usize, field: &DbFields) -> (r: String)
        requires
            field is Fields ==> field_of(self@.contents, *id, *field).value.len() > 0,
        ensures
            r@ == current_value(self@.contents, *id, *field),
    {
        let entry = self.get_by_id_secure(id);
        proof { lemma_lookup_entry_id(self@.contents, *id); }
        match field {
            DbFields::Id => decimal_string(entry.id),
            DbFields::Title => entry.title,
            DbFields::Fields(field_id) => {
                let f = self.get_field_by_id(&entry, field_id);
                let last = f.value.len() - 1;
                f.value[last].1.clone()
            },
        }
    }

    /// The content of a place of an entry `n` edits back: the id in decimal,
    /// the title, or the `n`-th value of a field counted from the latest.
    pub fn get_n_by_field(&self, id: &usize, field: &DbFields, n: usize) -> (r: String)
        requires
            field is Fields ==> n < field_of(self@.contents, *id, *field).value.len(),
        ensures
            r@ == match *field {
                DbFields::Id => decimal(*id as nat),
                DbFields::Title => lookup_entry(self@.contents, *id).title,
                DbFields::Fields(_) => field_of(self@.contents, *id, *field).value.reverse()[n as int].1,
            },
    {
        let entry = self.get_by_id_secure(id);
        proof { lemma_lookup_entry_id(self@.contents, *id); }
        match field {
            DbFields::Id => decimal_string(entry.id),
            DbFields::Title => entry.title,
            DbFields::Fields(field_id) => {
                let f = self.get_field_by_id(&entry, field_id);
                let k = f.value.len() - 1 - n;
                f.value[k].1.clone()
            },
        }
    }

    /// Every value of a field, latest first; nothing for the id and the title.
    pub fn get_history(&self, id: &usize, field: &DbFields) -> (r: Option<im::Vector<SecureField>>)
        ensures
            match *field {
                DbFields::Fields(_) => r is Some
                    && crate::im_vector::history_items(r->Some_0) == field_of(self@.contents, *id, *field).value.reverse(),
                _ => r is None,
            },
    {
        let entry = self.get_by_id_secure(id);
        match field {
            DbFields::Id => None,
            DbFields::Title => None,
            DbFields::Fields(field_id) => {
                let f = self.get_field_by_id(&entry, field_id);
                let ghost h = f@.value;
                let mut r = crate::im_vector::history_new();
                let mut k: usize = f.value.len();
                while k > 0
                    invariant
                        0 <= k <= f.value@.len(),
                        h == f@.value,
                        h.len() == f.value@.len(),
                        crate::im_vector::history_items(r) =~= h.reverse().take(h.len() - k),
                    decreases k,
                {
                    k -= 1;
                    let item = (f.value[k].0, f.value[k].1.clone());
                    crate::im_vector::history_push_back(&mut r, item);
                }
                assert(h.reverse().take(h.len() as int) =~= h.reverse());
                Some(r)
            },
        }
    }

    /// The positions and timestamps of every value of a field, oldest first;
    /// a single `(0, 0)` for the id and the title.
    pub fn get_history_dates(&self, id: &usize, field: &DbFields) -> (r: Vec<(usize, u64)>)
        ensures
            r@ == match *field {
                DbFields::Fields(_) => {
                    let h = field_of(self@.contents, *id, *field).value;
                    Seq::new(h.len(), |i: int| (i as usize, h[i].0))
                },
                _ => seq![(0usize, 0u64)],
            },
    {
        let entry = self.get_by_id_secure(id);
        match field {
            DbFields::Id => vec![(0, 0)],
            DbFields::Title => vec![(0, 0)],
            DbFields::Fields(field_id) => {
                let f = self.get_field_by_id(&entry, field_id);
                let ghost h = f@.value;
                let mut r: Vec<(usize, u64)> = Vec::new();
                let mut i: usize = 0;
                while i < f.value.len()
                    invariant
                        0 <= i <= f.value@.len(),
                        h == f@.value,
                        h.len() == f.value@.len(),
                        r@ =~= Seq::new(i as nat, |j: int| (j as usize, h[j].0)),
                    decreases f.value@.len() - i,
                {
                    r.push((i, f.value[i].0));
                    i += 1;
                }
                r
            },
        }
    }
}

// ---------------------------------------------------------------------------
// What the editing operations do

/// The id that [`Db::add`] gives a new entry: one more than the last entry's
/// (2 when there is none).
pub open spec fn next_entry_id(entries: Seq<DbEntryView>) -> int {
    if entries.len() == 0 {
        2
    } else {
        entries.last().id + 1
    }
}

/// The entries after adding an empty entry with a title.
pub open spec fn spec_add(entries: Seq<DbEntryView>, title: Seq<char>) -> Seq<DbEntryView> {
    entries.push(DbEntryView { id: next_entry_id(entries) as usize, title, fields: Seq::empty() })
}

/// The id that [`Db::add_dyn_field`] gives a new field of an entry: one more
/// than the last field's (1 when there is none).
pub open spec fn next_field_id(fields: Seq<DynFieldView>) -> int {
    if fields.len() == 0 {
        1
    } else {
        fields.last().id + 1
    }
}

/// A new shown field with a single value written at time 0.
pub open spec fn new_field_view(id: usize, kind: DynFieldKind, title: Seq<char>, value: Seq<char>) -> DynFieldView {
    DynFieldView { id, kind, title, visible: true, value: seq![(0u64, value)] }
}

/// An entry after [`Db::add_dyn_field`]: entries with the id get the new field.
pub open spec fn with_new_field(e: DbEntryView, id: usize, kind: DynFieldKind, title: Seq<char>, value: Seq<char>) -> DbEntryView {
    if e.id == id {
        DbEntryView {
            id: e.id,
            title: e.title,
            fields: e.fields.push(new_field_view(next_field_id(e.fields) as usize, kind, title, value)),
        }
    } else {
        e
    }
}

/// The entries after [`Db::add_dyn_field`].
pub open spec fn spec_add_dyn_field(entries: Seq<DbEntryView>, id: usize, kind: DynFieldKind, title: Seq<char>, value: Seq<char>) -> Seq<DbEntryView> {
    entries.map_values(|e: DbEntryView| with_new_field(e, id, kind, title, value))
}

/// The fields after the first field with the id gets a new title.
pub open spec fn retitle_field(fields: Seq<DynFieldView>, fid: usize, title: Seq<char>) -> Seq<DynFieldView> {
    match first_field(fields, fid) {
        Some(k) => fields.update(k, DynFieldView { title, ..fields[k] }),
        None => fields,
    }
}

/// The fields after the first field with the id is shown or hidden.
pub open spec fn reveal_field(fields: Seq<DynFieldView>, fid: usize, visible: bool) -> Seq<DynFieldView> {
    match first_field(fields, fid) {
        Some(k) => fields.update(k, DynFieldView { visible, ..fields[k] }),
        None => fields,
    }
}

/// The fields after a value is appended to the history of the first field
/// with the id.
pub open spec fn append_to_field(fields: Seq<DynFieldView>, fid: usize, item: (u64, Seq<char>)) -> Seq<DynFieldView> {
    match first_field(fields, fid) {
        Some(k) => fields.update(k, DynFieldView { value: fields[k].value.push(item), ..fields[k] }),
        None => fields,
    }
}

/// The entries after [`Db::edit_dyn_field_title`].
pub open spec fn spec_edit_dyn_field_title(entries: Seq<DbEntryView>, id: usize, field: DbFields, title: Seq<char>) -> Seq<DbEntryView> {
    match field {
        DbFields::Fields(fid) => entries.map_values(
            |e: DbEntryView|
                if e.id == id {
                    DbEntryView { id: e.id, title: e.title, fields: retitle_field(e.fields, fid, title) }
                } else {
                    e
                },
        ),
        _ => entries,
    }
}

/// The entries after [`Db::edit_dyn_field_visbility`].
pub open spec fn spec_edit_dyn_field_visibility(entries: Seq<DbEntryView>, id: usize, field: DbFields, visible: bool) -> Seq<DbEntryView> {
    match field {
        DbFields::Fields(fid) => entries.map_values(
            |e: DbEntryView|
                if e.id == id {
                    DbEntryView { id: e.id, title: e.title, fields: reveal_field(e.fields, fid, visible) }
                } else {
                    e
                },
        ),
        _ => entries,
    }
}

/// The position that [`Db::edit_field`] edits: the first entry with the id,
/// or the first entry of all when none has it.
pub open spec fn edit_target(entries: Seq<DbEntryView>, id: usize) -> int {
    match first_entry(entries, id) {
        Some(i) => i,
        None => 0,
    }
}

/// The entries after [`Db::edit_field_at`].
pub open spec fn spec_edit_field(entries: Seq<DbEntryView>, id: usize, field: DbFields, content: Seq<char>, timestamp: u64) -> Seq<DbEntryView> {
    if entries.len() == 0 {
        entries
    } else {
        let i = edit_target(entries, id);
        let e = entries[i];
        match field {
            DbFields::Title => entries.update(i, DbEntryView { id: e.id, title: content, fields: e.fields }),
            DbFields::Fields(fid) => entries.update(
                i,
                DbEntryView { id: e.id, title: e.title, fields: append_to_field(e.fields, fid, (timestamp, content)) },
            ),
            DbFields::Id => entries,
        }
    }
}

/// The current time in whole seconds since the Unix epoch: calls
/// `SystemTime::now().duration_since(UNIX_EPOCH)` and takes the seconds, 0
/// when the clock is before the epoch. Nothing is stated of the result.
#[verifier::external_body]
fn unix_now_secs() -> (t: u64) {
    match std::time::SystemTime::now().duration_since(std::time::UNIX_EPOCH) {
        Ok(d) => d.as_secs(),
        Err(_) => 0,
    }
}

/// Calls `zeroize::Zeroize::zeroize` on a string: its bytes are overwritten
/// with zeros and it is left empty.
#[verifier::external_body]
fn zeroize_string(s: &mut String)
    ensures
        final(s)@ == Seq::<char>::empty(),
{
    zeroize::Zeroize::zeroize(s)
}

/// What zeroizing leaves of a field: its id, kind, visibility and the time
/// of each value stay; its title and every value are empty.
spec fn zeroized_field(f: DynFieldView) -> DynFieldView {
    DynFieldView {
        title: Seq::empty(),
        value: f.value.map_values(|v: (u64, Seq<char>)| (v.0, Seq::<char>::empty())),
        ..f
    }
}

/// What zeroizing leaves of an entry: its id stays, its title is empty and
/// each of its fields is zeroized.
spec fn zeroized_entry(e: DbEntryView) -> DbEntryView {
    DbEntryView {
        title: Seq::empty(),
        fields: e.fields.map_values(|f: DynFieldView| zeroized_field(f)),
        ..e
    }
}

fn zeroize_history(h: &mut Vec<SecureField>)
    ensures
        history_view(final(h)@) == history_view(old(h)@).map_values(
            |v: (u64, Seq<char>)| (v.0, Seq::<char>::empty()),
        ),
{
    let n = h.len();
    let mut j: usize = 0;
    while j < n
        invariant
            0 <= j <= n,
            h@.len() == n,
            old(h)@.len() == n,
            forall|i: int| 0 <= i < j ==> h@[i].0 == old(h)@[i].0 && h@[i].1@ == Seq::<char>::empty(),
            forall|i: int| j <= i < n ==> h@[i] == old(h)@[i],
        decreases n - j,
    {
        zeroize_string(&mut h[j].1);
        j += 1;
    }
    assert(history_view(h@) =~= history_view(old(h)@).map_values(
        |v: (u64, Seq<char>)| (v.0, Seq::<char>::empty()),
    ));
}

fn zeroize_field(f: &mut DynField)
    ensures
        final(f)@ == zeroized_field(old(f)@),
{
    zeroize_string(&mut f.title);
    zeroize_history(&mut f.value);
}

fn zeroize_entry(e: &mut DbEntry)
    ensures
        final(e)@ == zeroized_entry(old(e)@),
{
    zeroize_string(&mut e.title);
    let nf = e.fields.len();
    let mut k: usize = 0;
    while k < nf
        invariant
            0 <= k <= nf,
            e.fields@.len() == nf,
            old(e).fields@.len() == nf,
            e.id == old(e).id,
            e.title@ == Seq::<char>::empty(),
            forall|i: int| 0 <= i < k ==> e.fields@[i]@ == zeroized_field(old(e).fields@[i]@),
            forall|i: int| k <= i < nf ==> e.fields@[i] == old(e).fields@[i],
        decreases nf - k,
    {
        zeroize_field(&mut e.fields[k]);
        k += 1;
    }
    assert(e@.fields =~= zeroized_entry(old(e)@).fields);
}

fn retitle_first(fields: &mut Vec<DynField>, fid: usize, title: String)
    ensures
        fields_view(final(fields)@) == retitle_field(fields_view(old(fields)@), fid, title@),
{
    proof { lemma_first_field(fields_view(old(fields)@), fid); }
    match find_field(fields, fid) {
        Some(k) => {
            fields[k].title = title;
            assert(fields_view(fields@) =~= retitle_field(fields_view(old(fields)@), fid, title@));
        },
        None => {},
    }
}

fn reveal_first(fields: &mut Vec<DynField>, fid: usize, visible: bool)
    ensures
        fields_view(final(fields)@) == reveal_field(fields_view(old(fields)@), fid, visible),
{
    proof { lemma_first_field(fields_view(old(fields)@), fid); }
    match find_field(fields, fid) {
        Some(k) => {
            fields[k].visible = visible;
            assert(fields_view(fields@) =~= reveal_field(fields_view(old(fields)@), fid, visible));
        },
        None => {},
    }
}

fn append_first(fields: &mut Vec<DynField>, fid: usize, timestamp: u64, content: String)
    ensures
        fields_view(final(fields)@) == append_to_field(fields_view(old(fields)@), fid, (timestamp, content@)),
{
    proof { lemma_first_field(fields_view(old(fields)@), fid); }
    let ghost c = content@;
    match find_field(fields, fid) {
        Some(k) => {
            fields[k].value.push((timestamp, content));
            assert(fields_view(fields@)[k as int].value =~= fields_view(old(fields)@)[k as int].value.push((timestamp, c)));
            assert(fields_view(fields@) =~= append_to_field(fields_view(old(fields)@), fid, (timestamp, c)));
        },
        None => {},
    }
}

impl Db {
    /// Adds an empty entry with the title after the last one and returns its
    /// id, one more than the last entry's (2 when there is none).
    pub fn add(&mut self, title: String) -> (r: usize)
        requires
            old(self)@.contents.len() > 0 ==> old(self)@.contents.last().id < usize::MAX,
        ensures
            r == next_entry_id(old(self)@.contents),
            final(self)@ == (DbView { contents: spec_add(old(self)@.contents, title@), ..old(self)@ }),
    {
        let n = self.contents.len();
        let new_id = if n == 0 {
            2
        } else {
            self.contents[n - 1].id + 1
        };
        let ghost t = title@;
        let entry = DbEntry { id: new_id, title, fields: Vec::new() };
        assert(entry@.fields =~= Seq::<DynFieldView>::empty());
        self.contents.push(entry);
        assert(self@.contents =~= spec_add(old(self)@.contents, t));
        new_id
    }

    /// Adds a shown field with a title and a first value (written at time 0)
    /// to every entry with the id, and returns the shown fields of the entry.
    pub fn add_dyn_field(&mut self, id: &usize, kind: DynFieldKind, title_value: String, field_value: String) -> (r: Vec<DbFields>)
        requires
            forall|j: int|
                0 <= j < old(self)@.contents.len() && #[trigger] old(self)@.contents[j].id == *id
                    && old(self)@.contents[j].fields.len() > 0 ==> old(self)@.contents[j].fields.last().id < usize::MAX,
        ensures
            final(self)@ == (DbView {
                contents: spec_add_dyn_field(old(self)@.contents, *id, kind, title_value@, field_value@),
                ..old(self)@
            }),
            r@ == field_ids_where(lookup_entry(final(self)@.contents, *id).fields, true),
    {
        let ghost old_contents = old(self)@.contents;
        let ghost target = spec_add_dyn_field(old_contents, *id, kind, title_value@, field_value@);
        let mut i: usize = 0;
        while i < self.contents.len()
            invariant
                0 <= i <= self.contents@.len(),
                self.contents@.len() == old_contents.len(),
                target.len() == old_contents.len(),
                target == spec_add_dyn_field(old_contents, *id, kind, title_value@, field_value@),
                forall|j: int|
                    0 <= j < old_contents.len() && #[trigger] old_contents[j].id == *id
                        && old_contents[j].fields.len() > 0 ==> old_contents[j].fields.last().id < usize::MAX,
                forall|j: int| 0 <= j < i ==> #[trigger] self@.contents[j] == target[j],
                forall|j: int| i <= j < old_contents.len() ==> #[trigger] self@.contents[j] == old_contents[j],
                self@.config_db == old(self)@.config_db,
                self@.vault_unlocked == old(self)@.vault_unlocked,
                self@.hash == old(self)@.hash,
                self@.db_path == old(self)@.db_path,
            decreases old_contents.len() - i,
        {
            let ghost before_view = self@.contents;
            if self.contents[i].id == *id {
                let nf = self.contents[i].fields.len();
                assert(self@.contents[i as int] == old_contents[i as int]);
                assert(old_contents[i as int].id == *id);
                let new_id = if nf == 0 {
                    1
                } else {
                    assert(old_contents[i as int].fields.last() == self.contents@[i as int].fields@[nf - 1]@);
                    self.contents[i].fields[nf - 1].id + 1
                };
                let field = DynField {
                    id: new_id,
                    kind,
                    title: title_value.clone(),
                    visible: true,
                    value: vec![(0, field_value.clone())],
                };
                assert(field@.value =~= seq![(0u64, field_value@)]);
                let ghost before = self.contents@;
                self.contents[i].fields.push(field);
                assert(self.contents@.len() == before.len());
                assert forall|j: int| 0 <= j < before.len() && j != i implies self@.contents[j] == before_view[j] by {
                    assert(self.contents@[j] == before[j]);
                }
                assert(self@.contents[i as int].fields =~= target[i as int].fields);
            }
            assert(self@.contents[i as int] == target[i as int]);
            assert forall|j: int| 0 <= j < old_contents.len() && j != i implies self@.contents[j] == before_view[j] by {}
            assert forall|j: int| 0 <= j < i + 1 implies #[trigger] self@.contents[j] == target[j] by {
                if j < i {
                    assert(before_view[j] == target[j]);
                }
            }
            assert forall|j: int| i + 1 <= j < old_contents.len() implies #[trigger] self@.contents[j] == old_contents[j] by {
                assert(before_view[j] == old_contents[j]);
            }
            i += 1;
        }
        assert(self@.contents =~= target);
        self.get_dyn_fields(id)
    }

    /// Gives a new title to the first field with the field id of every entry
    /// with the id (nothing for the id and the title places).
    pub fn edit_dyn_field_title(&mut self, id: &usize, field: &DbFields, title: String)
        ensures
            final(self)@ == (DbView {
                contents: spec_edit_dyn_field_title(old(self)@.contents, *id, *field, title@),
                ..old(self)@
            }),
    {
        let ghost old_contents = old(self)@.contents;
        let ghost target = spec_edit_dyn_field_title(old_contents, *id, *field, title@);
        if let DbFields::Fields(field_id) = field {
            let mut i: usize = 0;
            while i < self.contents.len()
                invariant
                    0 <= i <= self.contents@.len(),
                    self.contents@.len() == old_contents.len(),
                    target.len() == old_contents.len(),
                    *field == DbFields::Fields(*field_id),
                    target == spec_edit_dyn_field_title(old_contents, *id, *field, title@),
                    forall|j: int| 0 <= j < i ==> #[trigger] self@.contents[j] == target[j],
                    forall|j: int| i <= j < old_contents.len() ==> #[trigger] self@.contents[j] == old_contents[j],
                    self@.config_db == old(self)@.config_db,
                    self@.vault_unlocked == old(self)@.vault_unlocked,
                    self@.hash == old(self)@.hash,
                    self@.db_path == old(self)@.db_path,
                decreases old_contents.len() - i,
            {
                let ghost before_view = self@.contents;
                if self.contents[i].id == *id {
                    assert(self@.contents[i as int] == old_contents[i as int]);
                    let ghost before = self.contents@;
                    retitle_first(&mut self.contents[i].fields, *field_id, title.clone());
                    assert(self.contents@.len() == before.len());
                    assert forall|j: int| 0 <= j < before.len() && j != i implies self@.contents[j] == before_view[j] by {
                        assert(self.contents@[j] == before[j]);
                    }
                }
                assert(self@.contents[i as int] == target[i as int]);
                assert forall|j: int| 0 <= j < old_contents.len() && j != i implies self@.contents[j] == before_view[j] by {}
                assert forall|j: int| 0 <= j < i + 1 implies #[trigger] self@.contents[j] == target[j] by {
                    if j < i {
                        assert(before_view[j] == target[j]);
                    }
                }
                assert forall|j: int| i + 1 <= j < old_contents.len() implies #[trigger] self@.contents[j] == old_contents[j] by {
                    assert(before_view[j] == old_contents[j]);
                }
                i += 1;
            }
        }
        assert(self@.contents =~= target);
    }

    /// Shows or hides the first field with the field id of every entry with
    /// the id (nothing for the id and the title places), and returns the
    /// hidden fields of the entry.
    pub fn edit_dyn_field_visbility(&mut self, id: &usize, field: &DbFields, visible: bool) -> (r: Vec<DbFields>)
        ensures
            final(self)@ == (DbView {
                contents: spec_edit_dyn_field_visibility(old(self)@.contents, *id, *field, visible),
                ..old(self)@
            }),
            r@ == field_ids_where(lookup_entry(final(self)@.contents, *id).fields, false),
    {
        let ghost old_contents = old(self)@.contents;
        let ghost target = spec_edit_dyn_field_visibility(old_contents, *id, *field, visible);
        if let DbFields::Fields(field_id) = field {
            let mut i: usize = 0;
            while i < self.contents.len()
                invariant
                    0 <= i <= self.contents@.len(),
                    self.contents@.len() == old_contents.len(),
                    target.len() == old_contents.len(),
                    *field == DbFields::Fields(*field_id),
                    target == spec_edit_dyn_field_visibility(old_contents, *id, *field, visible),
                    forall|j: int| 0 <= j < i ==> #[trigger] self@.contents[j] == target[j],
                    forall|j: int| i <= j < old_contents.len() ==> #[trigger] self@.contents[j] == old_contents[j],
                    self@.config_db == old(self)@.config_db,
                    self@.vault_unlocked == old(self)@.vault_unlocked,
                    self@.hash == old(self)@.hash,
                    self@.db_path == old(self)@.db_path,
                decreases old_contents.len() - i,
            {
                let ghost before_view = self@.contents;
                if self.contents[i].id == *id {
                    assert(self@.contents[i as int] == old_contents[i as int]);
                    let ghost before = self.contents@;
                    reveal_first(&mut self.contents[i].fields, *field_id, visible);
                    assert(self.contents@.len() == before.len());
                    assert forall|j: int| 0 <= j < before.len() && j != i implies self@.contents[j] == before_view[j] by {
                        assert(self.contents@[j] == before[j]);
                    }
                }
                assert(self@.contents[i as int] == target[i as int]);
                assert forall|j: int| 0 <= j < old_contents.len() && j != i implies self@.contents[j] == before_view[j] by {}
                assert forall|j: int| 0 <= j < i + 1 implies #[trigger] self@.contents[j] == target[j] by {
                    if j < i {
                        assert(before_view[j] == target[j]);
                    }
                }
                assert forall|j: int| i + 1 <= j < old_contents.len() implies #[trigger] self@.contents[j] == old_contents[j] by {
                    assert(before_view[j] == old_contents[j]);
                }
                i += 1;
            }
        }
        assert(self@.contents =~= target);
        self.get_hidden_dyn_fields(id)
    }

    /// Writes new content into a place of an entry, at the given time: the
    /// title is replaced, and a field gets the value appended to its history.
    /// The first entry with the id is edited, or the first entry of all when
    /// none has it; a field id the entry lacks changes nothing.
    pub fn edit_field_at(&mut self, id: usize, field: &DbFields, new_content: String, timestamp: u64)
        requires
            old(self)@.contents.len() > 0 ==> *field != DbFields::Id,
        ensures
            final(self)@ == (DbView {
                contents: spec_edit_field(old(self)@.contents, id, *field, new_content@, timestamp),
                ..old(self)@
            }),
    {
        let ghost old_contents = old(self)@.contents;
        let ghost content = new_content@;
        proof { lemma_first_entry(old_contents, id); }
        let index = match find_entry(&self.contents, id) {
            Some(i) => i,
            None => 0,
        };
        if index < self.contents.len() {
            match field {
                DbFields::Id => {},
                DbFields::Title => {
                    self.contents[index].title = new_content;
                },
                DbFields::Fields(field_id) => {
                    append_first(&mut self.contents[index].fields, *field_id, timestamp, new_content);
                },
            }
        }
        assert(self@.contents =~= spec_edit_field(old_contents, id, *field, content, timestamp));
    }

    /// Writes new content into a place of an entry, stamped with the current
    /// time (see [`Db::edit_field_at`]).
    pub fn edit_field(&mut self, id: usize, field: &DbFields, new_content: String)
        requires
            old(self)@.contents.len() > 0 ==> *field != DbFields::Id,
        ensures
            exists|t: u64|
                final(self)@ == (DbView {
                    contents: #[trigger] spec_edit_field(old(self)@.contents, id, *field, new_content@, t),
                    ..old(self)@
                }),
    {
        let timestamp = unix_now_secs();
        self.edit_field_at(id, field, new_content, timestamp);
    }
}

// ---------------------------------------------------------------------------
// Creating, unlocking and storing the database

/// A field of the sample entry, written at the sample time.
pub open spec fn sample_field(id: usize, kind: DynFieldKind, title: Seq<char>, value: Seq<char>) -> DynFieldView {
    DynFieldView { id, kind, title, visible: true, value: seq![(1702851212u64, value)] }
}

/// The entries of the sample database.
pub open spec fn sample_entries() -> Seq<DbEntryView> {
    seq![DbEntryView {
        id: 1,
        title: "My Bank Deets"@,
        fields: seq![
            sample_field(0, DynFieldKind::TextLine, "Title"@, "Bank"@),
            sample_field(1, DynFieldKind::Url, "Url"@, "https://bankofaustralia.com.au"@),
            sample_field(2, DynFieldKind::SecretLine, "Username"@, "Dom"@),
            sample_field(3, DynFieldKind::SecretLine, "Password"@, "totally_secure_password!1"@),
            sample_field(4, DynFieldKind::SecretLine, "Notes"@, "These are my bank deets"@),
        ],
    }]
}

/// The sample database that a fresh installation starts from: one entry,
/// stored unencrypted with no salt and no vault text, locked, with an all-zero
/// key and no path.
pub open spec fn default_db_view() -> DbView {
    DbView {
        contents: sample_entries(),
        config_db: DbFileDbView { encrypted: false, salt: Seq::empty(), cypher: Seq::empty() },
        vault_unlocked: false,
        hash: Seq::new(32, |i: int| 0u8),
        db_path: Seq::empty(),
    }
}

fn sample_field_exec(id: usize, kind: DynFieldKind, title: &str, value: &str) -> (f: DynField)
    ensures
        f@ == sample_field(id, kind, title@, value@),
{
    let f = DynField {
        id,
        kind,
        title: title.to_owned(),
        visible: true,
        value: vec![(1702851212, value.to_owned())],
    };
    assert(f@.value =~= seq![(1702851212u64, value@)]);
    f
}

impl Default for Db {
    fn default() -> (db: Self)
        ensures
            db@ == default_db_view(),
    {
        let fields = vec![
            sample_field_exec(0, DynFieldKind::TextLine, "Title", "Bank"),
            sample_field_exec(1, DynFieldKind::Url, "Url", "https://bankofaustralia.com.au"),
            sample_field_exec(2, DynFieldKind::SecretLine, "Username", "Dom"),
            sample_field_exec(3, DynFieldKind::SecretLine, "Password", "totally_secure_password!1"),
            sample_field_exec(4, DynFieldKind::SecretLine, "Notes", "These are my bank deets"),
        ];
        let entry = DbEntry { id: 1, title: "My Bank Deets".to_owned(), fields };
        let db = Db {
            contents: vec![entry],
            config_db: DbFileDb { encrypted: false, salt: String::new(), cypher: String::new() },
            vault_unlocked: false,
            hash: [0u8; 32],
            db_path: String::new(),
        };
        assert(db@.contents[0].fields =~= sample_entries()[0].fields);
        assert(db@.contents =~= sample_entries());
        assert(db@.hash =~= Seq::new(32, |i: int| 0u8));
        db
    }
}

/// The error of [`Db::change_password`].
#[derive(Debug, Clone, Copy, PartialEq, Eq, Structural)]
pub enum ChangeError {
    /// The old password does not give the key in use.
    WrongPassword(),
    /// A password could not be hashed.
    CryptError(crate::encryption::CryptError),
}

impl ChangeError {
    /// The message shown to the user for this error: a password that could
    /// not be hashed reports the hashing error's own message.
    pub fn message(&self) -> (m: &'static str)
        ensures
            m@ == match *self {
                ChangeError::WrongPassword() => "Wrong password provided"@,
                ChangeError::CryptError(e) => crate::encryption::crypt_error_message(e),
            },
    {
        match self {
            ChangeError::WrongPassword() => "Wrong password provided",
            ChangeError::CryptError(e) => e.message(),
        }
    }
}

/// What the stored vault text opens to under a key: the decrypted text when
/// the vault is encrypted, the stored text itself when it is not.
pub open spec fn spec_open_db(f: DbFileDbView, hash: Seq<u8>) -> Result<Seq<char>, crate::encryption::CryptError> {
    if f.encrypted {
        crate::encryption::spec_decrypt_vault(f.cypher, hash)
    } else {
        Ok(f.cypher)
    }
}

/// The stored part after its vault text is replaced.
pub open spec fn with_cypher(db: DbView, cypher: Seq<char>) -> DbView {
    DbView {
        config_db: DbFileDbView { encrypted: db.config_db.encrypted, salt: db.config_db.salt, cypher },
        ..db
    }
}

/// What storing a text as the vault text returns and leaves: when the vault
/// is not encrypted the text is stored as it is; when it is, the storing
/// succeeds exactly when the text fits, and then the text is stored sealed
/// under the key in use with some 12-byte nonce; on failure nothing changes.
pub open spec fn db_serialized(before: DbView, text: Seq<char>, r: Result<(), crate::encryption::CryptError>, after: DbView) -> bool {
    &&& !before.config_db.encrypted ==> r is Ok && after == with_cypher(before, text)
    &&& before.config_db.encrypted ==> {
        &&& r is Ok <==> crate::encryption::vault_text_fits(text)
        &&& r is Ok ==> exists|n: Seq<u8>|
            n.len() == 12 && after == with_cypher(
                before,
                #[trigger] crate::encryption::sealed_vault(text, before.hash, n),
            )
        &&& r matches Err(e) ==> e == crate::encryption::CryptError::Decryption && after == before
    }
}

/// What opening the vault with a password returns and leaves: the key that
/// the password derives with the stored salt is kept and the stored vault
/// text opened with it; when the password cannot be hashed nothing changes.
/// A text that was sealed under that key comes back as it was.
pub open spec fn db_opened(before: DbView, password: Seq<char>, r: Result<Seq<char>, crate::encryption::CryptError>, after: DbView) -> bool {
    &&& match crate::encryption::spec_password_hash(password, before.config_db.salt) {
        Err(e) => r == Err::<Seq<char>, crate::encryption::CryptError>(e) && after == before,
        Ok(h) => after == (DbView { hash: h, ..before }) && r == spec_open_db(before.config_db, h),
    }
    &&& forall|p: Seq<char>, h: Seq<u8>, n: Seq<u8>|
        before.config_db.encrypted && crate::encryption::spec_password_hash(password, before.config_db.salt) == Ok::<Seq<u8>, crate::encryption::CryptError>(h)
            && n.len() == 12 && crate::encryption::vault_text_fits(p)
            && #[trigger] crate::encryption::sealed_vault(p, h, n) == before.config_db.cypher
            ==> r == Ok::<Seq<char>, crate::encryption::CryptError>(p)
}

/// The database once unlocked with its entries.
pub open spec fn db_unlock(before: DbView, contents: Seq<DbEntryView>) -> DbView {
    DbView { contents, vault_unlocked: true, ..before }
}

/// Whether opening an encrypted vault would need a stored text that cannot
/// hold its nonce.
pub open spec fn db_unframed(before: DbView, password: Seq<char>) -> bool {
    &&& before.config_db.encrypted
    &&& crate::encryption::argon2_accepts(
        vstd::utf8::encode_utf8(password),
        vstd::utf8::encode_utf8(before.config_db.salt),
    )
    &&& !crate::encryption::vault_payload_framed(before.config_db.cypher)
}

/// What trying to open the vault with a password returns and leaves:
/// nothing, with nothing changed, when the stored text cannot hold its
/// nonce; otherwise what opening returns and leaves. A text that was sealed
/// under the key that the password derives always comes back as it was.
pub open spec fn db_try_opened(before: DbView, password: Seq<char>, r: Option<Result<Seq<char>, crate::encryption::CryptError>>, after: DbView) -> bool {
    &&& match r {
        None => db_unframed(before, password) && after == before,
        Some(d) => !db_unframed(before, password) && db_opened(before, password, d, after),
    }
    &&& forall|p: Seq<char>, h: Seq<u8>, n: Seq<u8>|
        before.config_db.encrypted && crate::encryption::spec_password_hash(password, before.config_db.salt) == Ok::<Seq<u8>, crate::encryption::CryptError>(h)
            && n.len() == 12 && crate::encryption::vault_text_fits(p)
            && #[trigger] crate::encryption::sealed_vault(p, h, n) == before.config_db.cypher
            ==> r == Some(Ok::<Seq<char>, crate::encryption::CryptError>(p))
}

/// The text view of an optional result.
pub open spec fn opt_text_result_view(r: Option<Result<String, crate::encryption::CryptError>>) -> Option<Result<Seq<char>, crate::encryption::CryptError>> {
    match r {
        None => None,
        Some(d) => Some(crate::encryption::text_result_view(d)),
    }
}

/// What changing the password returns and leaves: the key is replaced by
/// the one the new password derives, when the old password derives the key in
/// use; otherwise nothing changes.
pub open spec fn spec_change_password(db: DbView, old_password: Seq<char>, new_password: Seq<char>) -> (Result<(), ChangeError>, DbView) {
    match crate::encryption::spec_password_hash(old_password, db.config_db.salt) {
        Err(e) => (Err(ChangeError::CryptError(e)), db),
        Ok(oh) => if oh != db.hash {
            (Err(ChangeError::WrongPassword()), db)
        } else {
            match crate::encryption::spec_password_hash(new_password, db.config_db.salt) {
                Err(e) => (Err(ChangeError::CryptError(e)), db),
                Ok(nh) => (Ok(()), DbView { hash: nh, ..db }),
            }
        },
    }
}

fn same_key(a: &[u8; 32], b: &[u8; 32]) -> (r: bool)
    ensures
        r == (a@ == b@),
{
    let mut i: usize = 0;
    while i < 32
        invariant
            0 <= i <= 32,
            a@.len() == 32,
            b@.len() == 32,
            forall|j: int| 0 <= j < i ==> a@[j] == b@[j],
        decreases 32 - i,
    {
        if a[i] != b[i] {
            return false;
        }
        i += 1;
    }
    assert(a@ =~= b@);
    true
}

impl Db {
    /// The database at a path: the stored file when one was read there, or
    /// the sample database.
    pub fn new(db_path: String, file: Option<DbFile>) -> (db: Db)
        ensures
            db@ == match file {
                Some(f) => spec_from_file(f.db@, db_path@),
                None => DbView { db_path: db_path@, ..default_db_view() },
            },
    {
        match file {
            Some(f) => {
                let mut db = Db::from_file(f);
                db.set_db_path(db_path);
                db
            },
            None => {
                let mut db = Db::default();
                db.set_db_path(db_path);
                db
            },
        }
    }

    /// Unlocks the vault with its entries.
    pub fn unlock(&mut self, contents: Vec<DbEntry>)
        ensures
            final(self)@ == db_unlock(old(self)@, entries_view(contents@)),
    {
        self.vault_unlocked = true;
        self.contents = contents;
    }

    /// Derives the key from the password and the stored salt, keeps it, and
    /// opens the stored vault text with it: decrypted when the vault is
    /// encrypted, as stored when it is not. When the password cannot be
    /// hashed nothing changes.
    pub fn decrypt_database(&mut self, password: String) -> (r: Result<String, crate::encryption::CryptError>)
        requires
            old(self)@.config_db.encrypted && crate::encryption::argon2_accepts(
                vstd::utf8::encode_utf8(password@),
                vstd::utf8::encode_utf8(old(self)@.config_db.salt),
            ) ==> crate::encryption::vault_payload_framed(old(self)@.config_db.cypher),
        ensures
            db_opened(old(self)@, password@, crate::encryption::text_result_view(r), final(self)@),
    {
        let salt = self.config_db.salt.clone();
        let h = match crate::encryption::password_hash(password, salt) {
            Ok(h) => h,
            Err(e) => return Err(e),
        };
        self.hash = h;
        if self.config_db.encrypted {
            crate::encryption::decrypt_vault(self.config_db.cypher.clone(), self.hash)
        } else {
            Ok(self.config_db.cypher.clone())
        }
    }

    /// [`Db::decrypt_database`], after checking that an encrypted vault text
    /// can hold its nonce; `None`, with nothing changed, when the password
    /// could be hashed and the text cannot.
    pub fn try_decrypt_database(&mut self, password: String) -> (r: Option<Result<String, crate::encryption::CryptError>>)
        ensures
            db_try_opened(old(self)@, password@, opt_text_result_view(r), final(self)@),
    {
        if self.config_db.encrypted
            && crate::encryption::argon2_inputs_ok(password.as_str(), self.config_db.salt.as_str())
            && !crate::encryption::vault_framed(self.config_db.cypher.as_str()) {
            return None;
        }
        Some(self.decrypt_database(password))
    }

    /// Stores the text of the entries as the vault text: encrypted under the
    /// key with a fresh nonce when the vault is encrypted, as it is when not.
    /// When encryption fails nothing changes.
    pub fn serialize_db(&mut self, contents_text: String) -> (r: Result<(), crate::encryption::CryptError>)
        ensures
            db_serialized(old(self)@, contents_text@, r, final(self)@),
    {
        if self.config_db.encrypted {
            match crate::encryption::encrypt_vault(contents_text, self.hash) {
                Ok(c) => {
                    let ghost cv = c@;
                    let ghost n = choose|n: Seq<u8>|
                        n.len() == 12 && cv == crate::encryption::sealed_vault(contents_text@, old(self)@.hash, n);
                    self.config_db.cypher = c;
                    assert(self@ == with_cypher(
                        old(self)@,
                        crate::encryption::sealed_vault(contents_text@, old(self)@.hash, n),
                    ));
                    Ok(())
                },
                Err(e) => Err(e),
            }
        } else {
            self.config_db.cypher = contents_text;
            Ok(())
        }
    }

    /// Replaces the key by the one derived from the new password, when the
    /// old password derives the key in use.
    pub fn change_password(&mut self, old_password: String, new_password: String) -> (r: Result<(), ChangeError>)
        ensures
            (r, final(self)@) == spec_change_password(old(self)@, old_password@, new_password@),
    {
        let old_hash = match crate::encryption::password_hash(old_password, self.config_db.salt.clone()) {
            Ok(h) => h,
            Err(e) => return Err(ChangeError::CryptError(e)),
        };
        if !same_key(&old_hash, &self.hash) {
            return Err(ChangeError::WrongPassword());
        }
        let new_hash = match crate::encryption::password_hash(new_password, self.config_db.salt.clone()) {
            Ok(h) => h,
            Err(e) => return Err(ChangeError::CryptError(e)),
        };
        self.hash = new_hash;
        Ok(())
    }
}

// ---------------------------------------------------------------------------
// Laws

/// Every field of every entry has at least one value.
pub open spec fn entries_well_formed(entries: Seq<DbEntryView>) -> bool {
    forall|i: int, k: int|
        0 <= i < entries.len() && 0 <= k < entries[i].fields.len() ==> #[trigger] entries[i].fields[k].value.len() > 0
}

proof fn lemma_first_entry_same_ids(a: Seq<DbEntryView>, b: Seq<DbEntryView>, id: usize)
    requires
        a.len() == b.len(),
        forall|j: int| 0 <= j < a.len() ==> #[trigger] a[j].id == b[j].id,
    ensures
        first_entry(a, id) == first_entry(b, id),
    decreases a.len(),
{
    if a.len() > 0 {
        let (ta, tb) = (a.drop_last(), b.drop_last());
        assert forall|j: int| 0 <= j < ta.len() implies #[trigger] ta[j].id == tb[j].id by {
            assert(a[j].id == b[j].id);
        }
        lemma_first_entry_same_ids(ta, tb, id);
        assert(a.last().id == b.last().id);
    }
}

proof fn lemma_first_field_same_ids(a: Seq<DynFieldView>, b: Seq<DynFieldView>, id: usize)
    requires
        a.len() == b.len(),
        forall|j: int| 0 <= j < a.len() ==> #[trigger] a[j].id == b[j].id,
    ensures
        first_field(a, id) == first_field(b, id),
    decreases a.len(),
{
    if a.len() > 0 {
        let (ta, tb) = (a.drop_last(), b.drop_last());
        assert forall|j: int| 0 <= j < ta.len() implies #[trigger] ta[j].id == tb[j].id by {
            assert(a[j].id == b[j].id);
        }
        lemma_first_field_same_ids(ta, tb, id);
        assert(a.last().id == b.last().id);
    }
}

proof fn lemma_update_field_same_ids(fields: Seq<DynFieldView>, k: int, f: DynFieldView, id: usize)
    requires
        0 <= k < fields.len(),
        f.id == fields[k].id,
    ensures
        first_field(fields.update(k, f), id) == first_field(fields, id),
{
    let u = fields.update(k, f);
    assert forall|j: int| 0 <= j < u.len() implies #[trigger] u[j].id == fields[j].id by {}
    lemma_first_field_same_ids(u, fields, id);
}

proof fn lemma_update_entry_same_ids(entries: Seq<DbEntryView>, i: int, e: DbEntryView, id: usize)
    requires
        0 <= i < entries.len(),
        e.id == entries[i].id,
    ensures
        first_entry(entries.update(i, e), id) == first_entry(entries, id),
{
    let u = entries.update(i, e);
    assert forall|j: int| 0 <= j < u.len() implies #[trigger] u[j].id == entries[j].id by {}
    lemma_first_entry_same_ids(u, entries, id);
}

/// Changing a field by [`retitle_field`], [`reveal_field`] or
/// [`append_to_field`] keeps the fields' number and ids, and only the changed
/// field's history grows, by one value when a value is appended.
proof fn lemma_field_edits(fields: Seq<DynFieldView>, fid: usize, title: Seq<char>, visible: bool, item: (u64, Seq<char>))
    ensures
        retitle_field(fields, fid, title).len() == fields.len(),
        reveal_field(fields, fid, visible).len() == fields.len(),
        append_to_field(fields, fid, item).len() == fields.len(),
        forall|k: int| 0 <= k < fields.len() ==> #[trigger] retitle_field(fields, fid, title)[k].value == fields[k].value,
        forall|k: int| 0 <= k < fields.len() ==> #[trigger] retitle_field(fields, fid, title)[k].id == fields[k].id,
        forall|k: int| 0 <= k < fields.len() ==> #[trigger] reveal_field(fields, fid, visible)[k].value == fields[k].value,
        forall|k: int| 0 <= k < fields.len() ==> #[trigger] reveal_field(fields, fid, visible)[k].id == fields[k].id,
        forall|k: int| 0 <= k < fields.len() ==> #[trigger] append_to_field(fields, fid, item)[k].id == fields[k].id,
        forall|k: int| 0 <= k < fields.len() ==> {
            ||| #[trigger] append_to_field(fields, fid, item)[k].value == fields[k].value
            ||| append_to_field(fields, fid, item)[k].value == fields[k].value.push(item)
        },
{
    lemma_first_field(fields, fid);
}

/// Adding an entry keeps every field readable: a well-formed vault stays
/// well formed.
pub proof fn law_add_keeps_well_formed(entries: Seq<DbEntryView>, title: Seq<char>)
    requires
        entries_well_formed(entries),
    ensures
        entries_well_formed(spec_add(entries, title)),
{
    let a = spec_add(entries, title);
    assert forall|i: int, k: int| 0 <= i < a.len() && 0 <= k < a[i].fields.len() implies #[trigger] a[i].fields[k].value.len() > 0 by {
        if i < entries.len() {
            assert(entries[i].fields[k].value.len() > 0);
        }
    }
}

/// Adding a field to an entry keeps a well-formed vault well formed: the new
/// field starts with one value.
pub proof fn law_add_dyn_field_keeps_well_formed(entries: Seq<DbEntryView>, id: usize, kind: DynFieldKind, title: Seq<char>, value: Seq<char>)
    requires
        entries_well_formed(entries),
    ensures
        entries_well_formed(spec_add_dyn_field(entries, id, kind, title, value)),
{
    let a = spec_add_dyn_field(entries, id, kind, title, value);
    assert forall|i: int, k: int| 0 <= i < a.len() && 0 <= k < a[i].fields.len() implies #[trigger] a[i].fields[k].value.len() > 0 by {
        if k < entries[i].fields.len() {
            assert(entries[i].fields[k].value.len() > 0);
        }
    }
}

/// Renaming, showing or hiding a field keeps every entry and every field,
/// and leaves every history as it was; so a well-formed vault stays well
/// formed.
pub proof fn law_field_settings_keep_histories(entries: Seq<DbEntryView>, id: usize, field: DbFields, title: Seq<char>, visible: bool)
    ensures
        spec_edit_dyn_field_title(entries, id, field, title).len() == entries.len(),
        spec_edit_dyn_field_visibility(entries, id, field, visible).len() == entries.len(),
        forall|i: int| 0 <= i < entries.len() ==> #[trigger] spec_edit_dyn_field_title(entries, id, field, title)[i].fields.len() == entries[i].fields.len(),
        forall|i: int| 0 <= i < entries.len() ==> #[trigger] spec_edit_dyn_field_visibility(entries, id, field, visible)[i].fields.len() == entries[i].fields.len(),
        forall|i: int, k: int| 0 <= i < entries.len() && 0 <= k < entries[i].fields.len()
            ==> #[trigger] spec_edit_dyn_field_title(entries, id, field, title)[i].fields[k].value == entries[i].fields[k].value,
        forall|i: int, k: int| 0 <= i < entries.len() && 0 <= k < entries[i].fields.len()
            ==> #[trigger] spec_edit_dyn_field_visibility(entries, id, field, visible)[i].fields[k].value == entries[i].fields[k].value,
        entries_well_formed(entries) ==> entries_well_formed(spec_edit_dyn_field_title(entries, id, field, title)),
        entries_well_formed(entries) ==> entries_well_formed(spec_edit_dyn_field_visibility(entries, id, field, visible)),
{
    let a = spec_edit_dyn_field_title(entries, id, field, title);
    let b = spec_edit_dyn_field_visibility(entries, id, field, visible);
    assert forall|i: int| 0 <= i < entries.len() implies {
        &&& a[i].fields.len() == entries[i].fields.len()
        &&& b[i].fields.len() == entries[i].fields.len()
        &&& forall|k: int| 0 <= k < entries[i].fields.len() ==> a[i].fields[k].value == entries[i].fields[k].value
        &&& forall|k: int| 0 <= k < entries[i].fields.len() ==> b[i].fields[k].value == entries[i].fields[k].value
    } by {
        let fs = entries[i].fields;
        lemma_field_edits(fs, field_index(field), title, visible, (0u64, Seq::empty()));
        assert forall|k: int| 0 <= k < fs.len() implies a[i].fields[k].value == fs[k].value by {
            assert(retitle_field(fs, field_index(field), title)[k].value == fs[k].value);
        }
        assert forall|k: int| 0 <= k < fs.len() implies b[i].fields[k].value == fs[k].value by {
            assert(reveal_field(fs, field_index(field), visible)[k].value == fs[k].value);
        }
    }
    if entries_well_formed(entries) {
        assert forall|i: int, k: int| 0 <= i < a.len() && 0 <= k < a[i].fields.len() implies #[trigger] a[i].fields[k].value.len() > 0 by {
            assert(entries[i].fields[k].value.len() > 0);
        }
        assert forall|i: int, k: int| 0 <= i < b.len() && 0 <= k < b[i].fields.len() implies #[trigger] b[i].fields[k].value.len() > 0 by {
            assert(entries[i].fields[k].value.len() > 0);
        }
    }
}

/// Editing is non-destructive: an edit keeps every entry and every field,
/// and every history either stays as it was or gains the new value at its
/// end; so a well-formed vault stays well formed.
pub proof fn law_edit_field_keeps_history(entries: Seq<DbEntryView>, id: usize, field: DbFields, content: Seq<char>, ts: u64)
    ensures
        spec_edit_field(entries, id, field, content, ts).len() == entries.len(),
        forall|i: int| 0 <= i < entries.len() ==> #[trigger] spec_edit_field(entries, id, field, content, ts)[i].id == entries[i].id,
        forall|i: int| 0 <= i < entries.len() ==> #[trigger] spec_edit_field(entries, id, field, content, ts)[i].fields.len() == entries[i].fields.len(),
        forall|i: int, k: int| 0 <= i < entries.len() && 0 <= k < entries[i].fields.len() ==> {
            ||| #[trigger] spec_edit_field(entries, id, field, content, ts)[i].fields[k].value == entries[i].fields[k].value
            ||| spec_edit_field(entries, id, field, content, ts)[i].fields[k].value == entries[i].fields[k].value.push((ts, content))
        },
        entries_well_formed(entries) ==> entries_well_formed(spec_edit_field(entries, id, field, content, ts)),
{
    let a = spec_edit_field(entries, id, field, content, ts);
    if entries.len() > 0 {
        lemma_first_entry(entries, id);
        let t = edit_target(entries, id);
        let fs = entries[t].fields;
        lemma_field_edits(fs, field_index(field), Seq::empty(), true, (ts, content));
        assert forall|i: int| 0 <= i < entries.len() implies {
            &&& a[i].id == entries[i].id
            &&& a[i].fields.len() == entries[i].fields.len()
            &&& forall|k: int| 0 <= k < entries[i].fields.len() ==> {
                ||| a[i].fields[k].value == entries[i].fields[k].value
                ||| a[i].fields[k].value == entries[i].fields[k].value.push((ts, content))
            }
        } by {
            if i == t {
                assert forall|k: int| 0 <= k < fs.len() implies {
                    ||| a[i].fields[k].value == fs[k].value
                    ||| a[i].fields[k].value == fs[k].value.push((ts, content))
                } by {
                    assert(append_to_field(fs, field_index(field), (ts, content))[k].value == fs[k].value
                        || append_to_field(fs, field_index(field), (ts, content))[k].value == fs[k].value.push((ts, content)));
                }
            }
        }
    }
    if entries_well_formed(entries) {
        assert forall|i: int, k: int| 0 <= i < a.len() && 0 <= k < a[i].fields.len() implies #[trigger] a[i].fields[k].value.len() > 0 by {
            assert(entries[i].fields[k].value.len() > 0);
        }
    }
}

/// In a well-formed vault every field place can be read: the field it names
/// (or its stand-in) has a latest value.
pub proof fn law_well_formed_fields_readable(entries: Seq<DbEntryView>, id: usize, field: DbFields)
    requires
        entries_well_formed(entries),
    ensures
        field_of(entries, id, field).value.len() > 0,
{
    lemma_first_entry(entries, id);
    let e = lookup_entry(entries, id);
    lemma_first_field(e.fields, field_index(field));
    if let Some(i) = first_entry(entries, id) {
        if let Some(k) = first_field(e.fields, field_index(field)) {
            assert(entries[i].fields[k].value.len() > 0);
        }
    }
}

/// The sample database is well formed.
pub proof fn law_sample_well_formed()
    ensures
        entries_well_formed(sample_entries()),
{
    let s = sample_entries();
    assert forall|i: int, k: int| 0 <= i < s.len() && 0 <= k < s[i].fields.len() implies #[trigger] s[i].fields[k].value.len() > 0 by {
        assert(i == 0);
        assert(0 <= k < 5);
    }
}

/// What a write gives back: after a value is written to an existing field
/// of an existing entry, the field's history is the old one with the value
/// (and its time) appended, so its latest value is the one written.
pub proof fn law_edit_field_then_read(entries: Seq<DbEntryView>, id: usize, fid: usize, content: Seq<char>, ts: u64)
    requires
        first_entry(entries, id) is Some,
        first_field(lookup_entry(entries, id).fields, fid) is Some,
    ensures
        field_of(spec_edit_field(entries, id, DbFields::Fields(fid), content, ts), id, DbFields::Fields(fid)).value
            == field_of(entries, id, DbFields::Fields(fid)).value.push((ts, content)),
        field_of(spec_edit_field(entries, id, DbFields::Fields(fid), content, ts), id, DbFields::Fields(fid)).value.last()
            == (ts, content),
{
    lemma_first_entry(entries, id);
    let i = first_entry(entries, id)->0;
    let e = entries[i];
    let k = first_field(e.fields, fid)->0;
    lemma_first_field(e.fields, fid);
    let nf = append_to_field(e.fields, fid, (ts, content));
    let ne = DbEntryView { id: e.id, title: e.title, fields: nf };
    lemma_update_entry_same_ids(entries, i, ne, id);
    lemma_update_field_same_ids(e.fields, k, DynFieldView { value: e.fields[k].value.push((ts, content)), ..e.fields[k] }, fid);
}

/// What a write gives back: after a title is written to an existing entry,
/// the entry's title is the one written.
pub proof fn law_edit_title_then_read(entries: Seq<DbEntryView>, id: usize, content: Seq<char>, ts: u64)
    requires
        first_entry(entries, id) is Some,
    ensures
        lookup_entry(spec_edit_field(entries, id, DbFields::Title, content, ts), id).title == content,
{
    lemma_first_entry(entries, id);
    let i = first_entry(entries, id)->0;
    let e = entries[i];
    lemma_update_entry_same_ids(entries, i, DbEntryView { id: e.id, title: content, fields: e.fields }, id);
}

proof fn lemma_map_same_ids(entries: Seq<DbEntryView>, mapped: Seq<DbEntryView>, id: usize)
    requires
        mapped.len() == entries.len(),
        forall|j: int| 0 <= j < entries.len() ==> #[trigger] mapped[j].id == entries[j].id,
    ensures
        first_entry(mapped, id) == first_entry(entries, id),
{
    lemma_first_entry_same_ids(mapped, entries, id);
}

/// What a rename gives back: after an existing field of an existing entry is
/// given a title, the field's name is that title.
pub proof fn law_retitle_then_name(entries: Seq<DbEntryView>, id: usize, fid: usize, title: Seq<char>)
    requires
        first_entry(entries, id) is Some,
        first_field(lookup_entry(entries, id).fields, fid) is Some,
    ensures
        field_of(spec_edit_dyn_field_title(entries, id, DbFields::Fields(fid), title), id, DbFields::Fields(fid)).title == title,
{
    let a = spec_edit_dyn_field_title(entries, id, DbFields::Fields(fid), title);
    assert forall|j: int| 0 <= j < entries.len() implies #[trigger] a[j].id == entries[j].id by {}
    lemma_map_same_ids(entries, a, id);
    lemma_first_entry(entries, id);
    let i = first_entry(entries, id)->0;
    let e = entries[i];
    lemma_first_field(e.fields, fid);
    let k = first_field(e.fields, fid)->0;
    lemma_update_field_same_ids(e.fields, k, DynFieldView { title, ..e.fields[k] }, fid);
}

/// What showing or hiding gives back: after an existing field of an existing
/// entry is shown or hidden, the field is shown exactly when asked.
pub proof fn law_visibility_then_read(entries: Seq<DbEntryView>, id: usize, fid: usize, visible: bool)
    requires
        first_entry(entries, id) is Some,
        first_field(lookup_entry(entries, id).fields, fid) is Some,
    ensures
        field_of(spec_edit_dyn_field_visibility(entries, id, DbFields::Fields(fid), visible), id, DbFields::Fields(fid)).visible == visible,
{
    let a = spec_edit_dyn_field_visibility(entries, id, DbFields::Fields(fid), visible);
    assert forall|j: int| 0 <= j < entries.len() implies #[trigger] a[j].id == entries[j].id by {}
    lemma_map_same_ids(entries, a, id);
    lemma_first_entry(entries, id);
    let i = first_entry(entries, id)->0;
    let e = entries[i];
    lemma_first_field(e.fields, fid);
    let k = first_field(e.fields, fid)->0;
    lemma_update_field_same_ids(e.fields, k, DynFieldView { visible, ..e.fields[k] }, fid);
}

/// What adding a field gives back: after a field is added to an existing
/// entry, the entry's shown fields are the ones before and the new one last.
pub proof fn law_add_dyn_field_then_listed(entries: Seq<DbEntryView>, id: usize, kind: DynFieldKind, title: Seq<char>, value: Seq<char>)
    requires
        first_entry(entries, id) is Some,
    ensures
        field_ids_where(lookup_entry(spec_add_dyn_field(entries, id, kind, title, value), id).fields, true)
            == field_ids_where(lookup_entry(entries, id).fields, true).push(
                DbFields::Fields(next_field_id(lookup_entry(entries, id).fields) as usize),
            ),
{
    let a = spec_add_dyn_field(entries, id, kind, title, value);
    assert forall|j: int| 0 <= j < entries.len() implies #[trigger] a[j].id == entries[j].id by {}
    lemma_map_same_ids(entries, a, id);
    lemma_first_entry(entries, id);
    let i = first_entry(entries, id)->0;
    let nf = a[i].fields;
    assert(nf.drop_last() =~= entries[i].fields);
}


/// What an unlock gives back of a save: when the password derives, with the
/// stored salt, the key in use, then after the vault text is stored, opening
/// the vault with that password (directly or after the framing check) gives
/// back the stored text and leaves the database as the save left it, whether
/// the vault is encrypted or not; unlocking it with the entries that the text
/// holds gives the database as it was before the save, unlocked, with its
/// key and its entries, and with the stored text in place.
pub proof fn law_save_then_unlock(
    db: DbView,
    password: Seq<char>,
    text: Seq<char>,
    saved: DbView,
    opened: Result<Seq<char>, crate::encryption::CryptError>,
    opened_db: DbView,
    tried: Option<Result<Seq<char>, crate::encryption::CryptError>>,
    tried_db: DbView,
)
    requires
        crate::encryption::spec_password_hash(password, db.config_db.salt) == Ok::<Seq<u8>, crate::encryption::CryptError>(db.hash),
        db_serialized(db, text, Ok(()), saved),
        db_opened(saved, password, opened, opened_db),
        db_try_opened(saved, password, tried, tried_db),
    ensures
        opened == Ok::<Seq<char>, crate::encryption::CryptError>(text),
        opened_db == saved,
        tried == Some(Ok::<Seq<char>, crate::encryption::CryptError>(text)),
        tried_db == saved,
        db_unlock(opened_db, db.contents) == (DbView { vault_unlocked: true, config_db: saved.config_db, ..db }),
        db_unlock(opened_db, db.contents).hash == db.hash,
{
    assert(saved.config_db.salt == db.config_db.salt);
    assert(saved.hash == db.hash);
    if db.config_db.encrypted {
        let n = choose|n: Seq<u8>|
            n.len() == 12 && saved == with_cypher(db, #[trigger] crate::encryption::sealed_vault(text, db.hash, n));
        assert(crate::encryption::sealed_vault(text, db.hash, n) == saved.config_db.cypher);
        if let Some(d) = tried {
            assert(db_opened(saved, password, d, tried_db));
        }
    }
}


/// The places of some fields, in order.
pub open spec fn field_places(fields: Seq<DynFieldView>) -> Seq<DbFields> {
    fields.map_values(|f: DynFieldView| DbFields::Fields(f.id))
}

proof fn lemma_field_ids_where_from(fields: Seq<DynFieldView>, visible: bool, x: DbFields)
    requires
        field_ids_where(fields, visible).contains(x),
    ensures
        exists|k: int| 0 <= k < fields.len() && fields[k].visible == visible && x == DbFields::Fields(#[trigger] fields[k].id),
    decreases fields.len(),
{
    let init = fields.drop_last();
    let rest = field_ids_where(init, visible);
    if rest.contains(x) {
        lemma_field_ids_where_from(init, visible, x);
        let k = choose|k: int| 0 <= k < init.len() && init[k].visible == visible && x == DbFields::Fields(#[trigger] init[k].id);
        assert(fields[k] == init[k]);
    } else {
        let w = choose|w: int| 0 <= w < field_ids_where(fields, visible).len() && field_ids_where(fields, visible)[w] == x;
        assert(w == rest.len());
        assert(fields[fields.len() - 1].id == fields.last().id);
    }
}

/// Shown and hidden fields split an entry's fields (as [`Db::get_dyn_fields`]
/// and [`Db::get_hidden_dyn_fields`] list them): together the two lists hold
/// the place of every field exactly as often as the fields do, each field is
/// in the list of its own visibility, and when the field ids are distinct no
/// place is in both lists.
pub proof fn law_shown_and_hidden_split_fields(fields: Seq<DynFieldView>)
    ensures
        field_ids_where(fields, true).len() + field_ids_where(fields, false).len() == fields.len(),
        field_ids_where(fields, true).to_multiset().add(field_ids_where(fields, false).to_multiset())
            == field_places(fields).to_multiset(),
        forall|k: int| 0 <= k < fields.len()
            ==> #[trigger] field_ids_where(fields, fields[k].visible).contains(DbFields::Fields(fields[k].id)),
        (forall|i: int, j: int| 0 <= i < j < fields.len() ==> fields[i].id != fields[j].id) ==>
            forall|x: DbFields| !(#[trigger] field_ids_where(fields, true).contains(x) && field_ids_where(fields, false).contains(x)),
    decreases fields.len(),
{
    broadcast use vstd::seq_lib::group_to_multiset_ensures, vstd::multiset::group_multiset_axioms;
    if fields.len() == 0 {
        assert(field_places(fields) =~= Seq::<DbFields>::empty());
        assert(field_ids_where(fields, true).to_multiset().add(field_ids_where(fields, false).to_multiset())
            =~= field_places(fields).to_multiset());
    } else {
        let init = fields.drop_last();
        let last = fields.last();
        let p = DbFields::Fields(last.id);
        law_shown_and_hidden_split_fields(init);
        assert(field_places(fields) =~= field_places(init).push(p));
        let (t0, f0) = (field_ids_where(init, true), field_ids_where(init, false));
        if last.visible {
            assert(t0.push(p).to_multiset().add(f0.to_multiset()) =~= t0.to_multiset().add(f0.to_multiset()).insert(p));
        } else {
            assert(t0.to_multiset().add(f0.push(p).to_multiset()) =~= t0.to_multiset().add(f0.to_multiset()).insert(p));
        }
        assert forall|k: int| 0 <= k < fields.len()
            implies #[trigger] field_ids_where(fields, fields[k].visible).contains(DbFields::Fields(fields[k].id)) by {
            if k < init.len() {
                assert(init[k] == fields[k]);
                assert(field_ids_where(init, init[k].visible).contains(DbFields::Fields(init[k].id)));
                let r = field_ids_where(init, init[k].visible);
                let w = choose|w: int| 0 <= w < r.len() && r[w] == DbFields::Fields(init[k].id);
                if fields.last().visible == fields[k].visible {
                    assert(field_ids_where(fields, fields[k].visible)[w] == r[w]);
                }
            } else {
                let r = field_ids_where(fields, last.visible);
                assert(r[r.len() - 1] == p);
            }
        }
        if forall|i: int, j: int| 0 <= i < j < fields.len() ==> fields[i].id != fields[j].id {
            assert forall|x: DbFields| !(#[trigger] field_ids_where(fields, true).contains(x) && field_ids_where(fields, false).contains(x)) by {
                if field_ids_where(fields, true).contains(x) && field_ids_where(fields, false).contains(x) {
                    lemma_field_ids_where_from(fields, true, x);
                    lemma_field_ids_where_from(fields, false, x);
                    let a = choose|k: int| 0 <= k < fields.len() && fields[k].visible == true && x == DbFields::Fields(#[trigger] fields[k].id);
                    let b = choose|k: int| 0 <= k < fields.len() && fields[k].visible == false && x == DbFields::Fields(#[trigger] fields[k].id);
                    assert(a != b);
                    if a < b {
                        assert(fields[a].id != fields[b].id);
                    } else {
                        assert(fields[b].id != fields[a].id);
                    }
                }
            }
        }
    }
}


/// Whether the fields' ids increase along the list (so no two are equal).
pub open spec fn field_ids_increasing(fields: Seq<DynFieldView>) -> bool {
    forall|i: int, j: int| 0 <= i < j < fields.len() ==> #[trigger] fields[i].id < #[trigger] fields[j].id
}

/// The sample entry's field ids increase.
pub proof fn law_sample_field_ids_increasing()
    ensures
        forall|i: int| 0 <= i < sample_entries().len() ==> field_ids_increasing(#[trigger] sample_entries()[i].fields),
{
    let s = sample_entries();
    assert forall|i: int| 0 <= i < s.len() implies field_ids_increasing(#[trigger] s[i].fields) by {
        assert(i == 0);
    }
}

/// Adding a field changes only the entries with the id: every other entry
/// stays as it was; an entry with the id keeps its fields, in order, and
/// gets one more, last, shown, with the title, the kind and the value as its
/// only value; and the new field's id is new: when the entry's field ids
/// increased they still do, so the new id is larger than every id the entry
/// had and no read or edit of an old field reaches the new one.
pub proof fn law_add_dyn_field_gives_fresh_id(entries: Seq<DbEntryView>, id: usize, kind: DynFieldKind, title: Seq<char>, value: Seq<char>)
    requires
        forall|j: int|
            0 <= j < entries.len() && #[trigger] entries[j].id == id && entries[j].fields.len() > 0
                ==> entries[j].fields.last().id < usize::MAX,
    ensures
        spec_add_dyn_field(entries, id, kind, title, value).len() == entries.len(),
        forall|j: int| 0 <= j < entries.len() && entries[j].id != id
            ==> #[trigger] spec_add_dyn_field(entries, id, kind, title, value)[j] == entries[j],
        forall|j: int| 0 <= j < entries.len() && entries[j].id == id ==> {
            let a = #[trigger] spec_add_dyn_field(entries, id, kind, title, value)[j];
            let old = entries[j].fields;
            &&& a.id == entries[j].id
            &&& a.title == entries[j].title
            &&& a.fields.len() == old.len() + 1
            &&& a.fields.take(old.len() as int) == old
            &&& a.fields.last().title == title
            &&& a.fields.last().kind == kind
            &&& a.fields.last().visible
            &&& a.fields.last().value == seq![(0u64, value)]
            &&& field_ids_increasing(old) ==> field_ids_increasing(a.fields)
            &&& field_ids_increasing(old) ==> forall|k: int| 0 <= k < old.len() ==> #[trigger] old[k].id < a.fields.last().id
        },
{
    let r = spec_add_dyn_field(entries, id, kind, title, value);
    assert forall|j: int| 0 <= j < entries.len() && entries[j].id == id implies {
        let a = #[trigger] r[j];
        let old = entries[j].fields;
        &&& a.fields.take(old.len() as int) == old
        &&& field_ids_increasing(old) ==> field_ids_increasing(a.fields)
        &&& field_ids_increasing(old) ==> forall|k: int| 0 <= k < old.len() ==> #[trigger] old[k].id < a.fields.last().id
    } by {
        let a = r[j];
        let old = entries[j].fields;
        assert(a.fields.take(old.len() as int) =~= old);
        if field_ids_increasing(old) {
            assert forall|k: int| 0 <= k < old.len() implies #[trigger] old[k].id < a.fields.last().id by {
                if k < old.len() - 1 {
                    assert(old[k].id < old[old.len() - 1].id);
                }
            }
            assert forall|p: int, q: int| 0 <= p < q < a.fields.len() implies #[trigger] a.fields[p].id < #[trigger] a.fields[q].id by {
                assert(a.fields[p] == old[p]);
                if q < old.len() {
                    assert(a.fields[q] == old[q]);
                } else {
                    assert(old[p].id < a.fields.last().id);
                }
            }
        }
    }
}

/// Renaming, showing or hiding a field changes only the entries with the id:
/// every other entry stays exactly as it was; in an entry with the id only
/// the first field with the field id changes, and only in its title (or in
/// whether it is shown).
pub proof fn law_field_settings_touch_only_that_entry(entries: Seq<DbEntryView>, id: usize, field: DbFields, title: Seq<char>, visible: bool)
    ensures
        forall|j: int| 0 <= j < entries.len() && entries[j].id != id
            ==> #[trigger] spec_edit_dyn_field_title(entries, id, field, title)[j] == entries[j],
        forall|j: int| 0 <= j < entries.len() && entries[j].id != id
            ==> #[trigger] spec_edit_dyn_field_visibility(entries, id, field, visible)[j] == entries[j],
        forall|j: int, k: int| 0 <= j < entries.len() && 0 <= k < entries[j].fields.len()
            && (field != DbFields::Fields(entries[j].fields[k].id) || exists|p: int| 0 <= p < k && entries[j].fields[p].id == entries[j].fields[k].id)
            ==> #[trigger] spec_edit_dyn_field_title(entries, id, field, title)[j].fields[k] == entries[j].fields[k]
                && spec_edit_dyn_field_visibility(entries, id, field, visible)[j].fields[k] == entries[j].fields[k],
        forall|j: int, k: int| 0 <= j < entries.len() && 0 <= k < entries[j].fields.len()
            ==> (DynFieldView { title: entries[j].fields[k].title, ..#[trigger] spec_edit_dyn_field_title(entries, id, field, title)[j].fields[k] })
                == entries[j].fields[k]
                && (DynFieldView { visible: entries[j].fields[k].visible, ..spec_edit_dyn_field_visibility(entries, id, field, visible)[j].fields[k] })
                == entries[j].fields[k],
{
    let a = spec_edit_dyn_field_title(entries, id, field, title);
    let b = spec_edit_dyn_field_visibility(entries, id, field, visible);
    law_field_settings_keep_histories(entries, id, field, title, visible);
    assert forall|j: int, k: int| 0 <= j < entries.len() && 0 <= k < entries[j].fields.len() implies {
        &&& (field != DbFields::Fields(entries[j].fields[k].id) || exists|p: int| 0 <= p < k && entries[j].fields[p].id == entries[j].fields[k].id)
            ==> a[j].fields[k] == entries[j].fields[k] && b[j].fields[k] == entries[j].fields[k]
        &&& (DynFieldView { title: entries[j].fields[k].title, ..a[j].fields[k] }) == entries[j].fields[k]
        &&& (DynFieldView { visible: entries[j].fields[k].visible, ..b[j].fields[k] }) == entries[j].fields[k]
    } by {
        let fs = entries[j].fields;
        if let DbFields::Fields(fid) = field {
            lemma_first_field(fs, fid);
        }
    }
}

/// An edit changes at most one entry: the first entry with the id, or the
/// first entry of all when none has it; every other entry stays exactly as it
/// was. In the edited entry only the title (for a title edit) or the history
/// of the first field with the field id changes, by the value and its time
/// appended at the end.
pub proof fn law_edit_field_touches_one_entry(entries: Seq<DbEntryView>, id: usize, field: DbFields, content: Seq<char>, ts: u64)
    ensures
        forall|j: int| 0 <= j < entries.len() && (
            (entries[j].id != id && exists|i: int| 0 <= i < entries.len() && entries[i].id == id)
            || (exists|i: int| 0 <= i < j && entries[i].id == id)
            || (j != 0 && forall|i: int| 0 <= i < entries.len() ==> entries[i].id != id)
        ) ==> #[trigger] spec_edit_field(entries, id, field, content, ts)[j] == entries[j],
        forall|j: int| 0 <= j < entries.len() ==> #[trigger] spec_edit_field(entries, id, field, content, ts)[j].id == entries[j].id,
{
    lemma_first_entry(entries, id);
    let r = spec_edit_field(entries, id, field, content, ts);
    assert forall|j: int| 0 <= j < entries.len() && (
            (entries[j].id != id && exists|i: int| 0 <= i < entries.len() && entries[i].id == id)
            || (exists|i: int| 0 <= i < j && entries[i].id == id)
            || (j != 0 && forall|i: int| 0 <= i < entries.len() ==> entries[i].id != id)
        ) implies #[trigger] r[j] == entries[j] by {
        if (exists|i: int| 0 <= i < entries.len() && entries[i].id == id) {
            let w = choose|i: int| 0 <= i < entries.len() && entries[i].id == id;
            assert(first_entry(entries, id) is Some);
        }
        if (exists|i: int| 0 <= i < j && entries[i].id == id) {
            let w = choose|i: int| 0 <= i < j && entries[i].id == id;
            assert(first_entry(entries, id) is Some);
        }
    }
}

} // verus!
