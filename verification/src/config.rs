//! The application settings that the vault keeps next to its database: the
//! field presets offered when a field is added, and where the files are.

use vstd::prelude::*;
use crate::db::DynFieldKind;

verus! {

/// A field preset: id, name, title given to the new field, and kind.
pub type PresetField = (usize, String, String, DynFieldKind);

/// The field presets, in the order they are offered.
pub type PresetFields = Vec<PresetField>;

/// What a preset is.
pub type PresetView = (usize, Seq<char>, Seq<char>, DynFieldKind);

/// The views of some presets.
pub open spec fn presets_view(p: Seq<PresetField>) -> Seq<PresetView> {
    p.map_values(|t: PresetField| (t.0, t.1@, t.2@, t.3))
}

/// The general settings: the field presets and the path of the database file.
#[derive(Debug)]
pub struct ConfigGeneral {
    pub preset_fields: PresetFields,
    pub db_path: String,
}

/// The settings file.
#[derive(Debug)]
pub struct ConfigFile {
    pub general: ConfigGeneral,
}

/// The settings, with the path of their own file.
#[derive(Debug)]
pub struct Config {
    pub general: ConfigGeneral,
    config_path: String,
}

/// What the settings are.
pub struct ConfigView {
    pub preset_fields: Seq<PresetView>,
    pub db_path: Seq<char>,
    pub config_path: Seq<char>,
}

impl View for Config {
    type V = ConfigView;

    closed spec fn view(&self) -> ConfigView {
        ConfigView {
            preset_fields: presets_view(self.general.preset_fields@),
            db_path: self.general.db_path@,
            config_path: self.config_path@,
        }
    }
}

/// The presets a fresh installation starts with.
pub open spec fn default_presets() -> Seq<PresetView> {
    seq![
        (0usize, "Custom"@, Seq::<char>::empty(), DynFieldKind::SecretLine),
        (1usize, "Username"@, "Username"@, DynFieldKind::SecretLine),
        (2usize, "Password"@, "Password"@, DynFieldKind::SecretLine),
        (3usize, "Website"@, "URL"@, DynFieldKind::Url),
        (4usize, "Notes"@, "Notes"@, DynFieldKind::TextLine),
    ]
}

/// The id that [`Config::add_field_preset`] gives a new preset: one more than
/// the last preset's (1 when there is none).
pub open spec fn next_preset_id(p: Seq<PresetView>) -> int {
    if p.len() == 0 {
        1
    } else {
        p.last().0 + 1
    }
}

/// The presets after one is added.
pub open spec fn spec_add_preset(p: Seq<PresetView>, title: Seq<char>, kind: DynFieldKind) -> Seq<PresetView> {
    p.push((next_preset_id(p) as usize, title, title, kind))
}

/// The position of the first preset with the id.
pub open spec fn first_preset(p: Seq<PresetView>, id: usize) -> Option<int>
    decreases p.len(),
{
    if p.len() == 0 {
        None
    } else {
        match first_preset(p.drop_last(), id) {
            Some(i) => Some(i),
            None => if p.last().0 == id {
                Some(p.len() - 1)
            } else {
                None
            },
        }
    }
}

proof fn lemma_first_preset(s: Seq<PresetView>, id: usize)
    ensures
        match first_preset(s, id) {
            Some(i) => 0 <= i < s.len() && s[i].0 == id && forall|j: int| 0 <= j < i ==> s[j].0 != id,
            None => forall|j: int| 0 <= j < s.len() ==> s[j].0 != id,
        },
    decreases s.len(),
{
    if s.len() > 0 {
        let t = s.drop_last();
        lemma_first_preset(t, id);
        assert forall|j: int| 0 <= j < s.len() - 1 implies #[trigger] t[j] == s[j] by {}
        assert(s.last() == s[s.len() - 1]);
        if first_preset(t, id) is None {
            assert forall|j: int| 0 <= j < s.len() - 1 implies s[j].0 != id by {
                assert(t[j].0 != id);
            }
        } else {
            let i = first_preset(t, id)->0;
            assert forall|j: int| 0 <= j < i implies s[j].0 != id by {
                assert(t[j].0 != id);
            }
        }
    }
}

/// The presets after the first one with the id (or the first of all, when
/// none has it) is replaced.
pub open spec fn spec_edit_preset(p: Seq<PresetView>, id: usize, title: Seq<char>, kind: DynFieldKind) -> Seq<PresetView> {
    let i = match first_preset(p, id) {
        Some(i) => i,
        None => 0,
    };
    p.update(i, (id, title, title, kind))
}

/// The presets without those with the id, in order.
pub open spec fn spec_delete_preset(p: Seq<PresetView>, id: usize) -> Seq<PresetView>
    decreases p.len(),
{
    if p.len() == 0 {
        Seq::empty()
    } else {
        let rest = spec_delete_preset(p.drop_last(), id);
        if p.last().0 == id {
            rest
        } else {
            rest.push(p.last())
        }
    }
}

fn clone_presets(p: &PresetFields) -> (r: PresetFields)
    ensures
        r@ == p@,
{
    let mut r: PresetFields = Vec::new();
    let mut i: usize = 0;
    while i < p.len()
        invariant
            0 <= i <= p@.len(),
            r@ =~= p@.take(i as int),
        decreases p@.len() - i,
    {
        let item = (p[i].0, p[i].1.clone(), p[i].2.clone(), p[i].3);
        r.push(item);
        i += 1;
    }
    assert(p@.take(p@.len() as int) =~= p@);
    r
}

fn preset(id: usize, name: &str, title: &str, kind: DynFieldKind) -> (r: PresetField)
    ensures
        r.0 == id,
        r.1@ == name@,
        r.2@ == title@,
        r.3 == kind,
{
    (id, name.to_owned(), title.to_owned(), kind)
}

fn find_preset(presets: &PresetFields, id: usize) -> (r: Option<usize>)
    ensures
        match r {
            Some(i) => first_preset(presets_view(presets@), id) == Some(i as int),
            None => first_preset(presets_view(presets@), id) is None,
        },
{
    let ghost p = presets_view(presets@);
    proof { lemma_first_preset(p, id); }
    let mut i: usize = 0;
    while i < presets.len()
        invariant
            0 <= i <= presets@.len(),
            p == presets_view(presets@),
            forall|j: int| 0 <= j < i ==> p[j].0 != id,
            match first_preset(p, id) {
                Some(k) => 0 <= k < p.len() && p[k].0 == id && forall|j: int| 0 <= j < k ==> p[j].0 != id,
                None => forall|j: int| 0 <= j < p.len() ==> p[j].0 != id,
            },
        decreases presets@.len() - i,
    {
        if presets[i].0 == id {
            assert(p[i as int].0 == id);
            return Some(i);
        }
        i += 1;
    }
    None
}

impl Config {
    /// The settings of a fresh installation, with their file and the database
    /// file at the given paths.
    pub fn default_at(config_path: String, db_path: String) -> (c: Config)
        ensures
            c@ == (ConfigView { preset_fields: default_presets(), db_path: db_path@, config_path: config_path@ }),
    {
        let preset_fields = vec![
            (0, "Custom".to_owned(), String::new(), DynFieldKind::SecretLine),
            preset(1, "Username", "Username", DynFieldKind::SecretLine),
            preset(2, "Password", "Password", DynFieldKind::SecretLine),
            preset(3, "Website", "URL", DynFieldKind::Url),
            preset(4, "Notes", "Notes", DynFieldKind::TextLine),
        ];
        let c = Config { general: ConfigGeneral { preset_fields, db_path }, config_path };
        assert(c@.preset_fields =~= default_presets());
        c
    }

    /// The settings of a settings file, at no path yet.
    pub fn from_file(config_file: ConfigFile) -> (c: Config)
        ensures
            c@ == (ConfigView {
                preset_fields: presets_view(config_file.general.preset_fields@),
                db_path: config_file.general.db_path@,
                config_path: Seq::empty(),
            }),
    {
        Config { general: config_file.general, config_path: String::new() }
    }

    /// The settings at a path: those of the settings file when one was read
    /// there, or those of a fresh installation with the database file at
    /// `db_path`.
    pub fn new(config_path: String, db_path: String, file: Option<ConfigFile>) -> (c: Config)
        ensures
            c@ == match file {
                Some(f) => ConfigView {
                    preset_fields: presets_view(f.general.preset_fields@),
                    db_path: f.general.db_path@,
                    config_path: config_path@,
                },
                None => ConfigView { preset_fields: default_presets(), db_path: db_path@, config_path: config_path@ },
            },
    {
        match file {
            Some(f) => {
                let mut c = Config::from_file(f);
                c.config_path = config_path;
                c
            },
            None => Config::default_at(config_path, db_path),
        }
    }

    /// The path of the settings file.
    pub fn config_path(&self) -> (p: &String)
        ensures
            p@ == self@.config_path,
    {
        &self.config_path
    }

    /// The field presets.
    pub fn get_field_presets(&self) -> (r: PresetFields)
        ensures
            presets_view(r@) == self@.preset_fields,
    {
        clone_presets(&self.general.preset_fields)
    }

    /// Adds a preset with the title as both its name and the title it gives,
    /// with an id one more than the last preset's, and returns the presets.
    pub fn add_field_preset(&mut self, title: String, kind: DynFieldKind) -> (r: PresetFields)
        requires
            old(self)@.preset_fields.len() > 0 ==> old(self)@.preset_fields.last().0 < usize::MAX,
        ensures
            final(self)@ == (ConfigView { preset_fields: spec_add_preset(old(self)@.preset_fields, title@, kind), ..old(self)@ }),
            presets_view(r@) == final(self)@.preset_fields,
    {
        let n = self.general.preset_fields.len();
        let id = if n == 0 {
            1
        } else {
            self.general.preset_fields[n - 1].0 + 1
        };
        let ghost t = title@;
        self.general.preset_fields.push((id, title.clone(), title, kind));
        assert(self@.preset_fields =~= spec_add_preset(old(self)@.preset_fields, t, kind));
        self.get_field_presets()
    }

    /// Replaces the first preset with the id (or the first preset of all,
    /// when none has it) by one with the id, the title as name and title, and
    /// the kind, and returns the presets.
    pub fn edit_field_preset(&mut self, id: usize, title: String, kind: DynFieldKind) -> (r: PresetFields)
        requires
            old(self)@.preset_fields.len() > 0,
        ensures
            final(self)@ == (ConfigView { preset_fields: spec_edit_preset(old(self)@.preset_fields, id, title@, kind), ..old(self)@ }),
            presets_view(r@) == final(self)@.preset_fields,
    {
        let ghost p = old(self)@.preset_fields;
        proof { lemma_first_preset(p, id); }
        let index = match find_preset(&self.general.preset_fields, id) {
            Some(i) => i,
            None => 0,
        };
        let ghost t = title@;
        self.general.preset_fields.set(index, (id, title.clone(), title, kind));
        assert(self@.preset_fields =~= spec_edit_preset(p, id, t, kind));
        self.get_field_presets()
    }

    /// Removes every preset with the id, keeping the others in order, and
    /// returns the presets.
    pub fn delete_field_preset(&mut self, id: usize) -> (r: PresetFields)
        ensures
            final(self)@ == (ConfigView { preset_fields: spec_delete_preset(old(self)@.preset_fields, id), ..old(self)@ }),
            presets_view(r@) == final(self)@.preset_fields,
    {
        let ghost p = old(self)@.preset_fields;
        let mut old_presets: PresetFields = Vec::new();
        std::mem::swap(&mut old_presets, &mut self.general.preset_fields);
        let mut kept: PresetFields = Vec::new();
        let mut i: usize = 0;
        while i < old_presets.len()
            invariant
                0 <= i <= p.len(),
                p == presets_view(old_presets@),
                presets_view(kept@) == spec_delete_preset(p.take(i as int), id),
            decreases p.len() - i,
        {
            assert(p.take(i + 1).drop_last() =~= p.take(i as int));
            let item = (old_presets[i].0, old_presets[i].1.clone(), old_presets[i].2.clone(), old_presets[i].3);
            if item.0 != id {
                let ghost before = kept@;
                kept.push(item);
                assert(presets_view(kept@) =~= presets_view(before).push(p[i as int]));
            }
            i += 1;
        }
        assert(p.take(p.len() as int) =~= p);
        self.general.preset_fields = kept;
        self.get_field_presets()
    }
}

/// Deleting a preset only ever removes presets with that id: none is left,
/// and every other preset stays, in order.
pub proof fn law_delete_preset_removes_only_that_id(p: Seq<PresetView>, id: usize)
    ensures
        forall|j: int| 0 <= j < spec_delete_preset(p, id).len() ==> #[trigger] spec_delete_preset(p, id)[j].0 != id,
        spec_delete_preset(p, id).len() <= p.len(),
        (forall|j: int| 0 <= j < p.len() ==> #[trigger] p[j].0 != id) ==> spec_delete_preset(p, id) == p,
    decreases p.len(),
{
    if p.len() > 0 {
        let t = p.drop_last();
        law_delete_preset_removes_only_that_id(t, id);
        let rest = spec_delete_preset(t, id);
        assert forall|j: int| 0 <= j < spec_delete_preset(p, id).len() implies #[trigger] spec_delete_preset(p, id)[j].0 != id by {
            if j < rest.len() {
                assert(spec_delete_preset(p, id)[j] == rest[j]);
            }
        }
        if forall|j: int| 0 <= j < p.len() ==> #[trigger] p[j].0 != id {
            assert forall|j: int| 0 <= j < t.len() implies #[trigger] t[j].0 != id by {
                assert(t[j] == p[j]);
            }
            assert(p.last() == p[p.len() - 1]);
            assert(t.push(p.last()) =~= p);
        }
    }
}

/// Deleting undoes adding: when no preset has the id the next one gets,
/// adding a preset and then deleting that id gives back the presets as they
/// were.
pub proof fn law_delete_undoes_add(p: Seq<PresetView>, title: Seq<char>, kind: DynFieldKind)
    requires
        p.len() > 0 ==> p.last().0 < usize::MAX,
        forall|j: int| 0 <= j < p.len() ==> #[trigger] p[j].0 != next_preset_id(p),
    ensures
        spec_delete_preset(spec_add_preset(p, title, kind), next_preset_id(p) as usize) == p,
{
    let a = spec_add_preset(p, title, kind);
    let id = next_preset_id(p) as usize;
    assert(a.drop_last() =~= p);
    assert forall|j: int| 0 <= j < p.len() implies #[trigger] p[j].0 != id by {
        assert(p[j].0 != next_preset_id(p));
    }
    law_delete_preset_removes_only_that_id(p, id);
}


/// Whether the presets' ids increase along the list (so no two are equal).
pub open spec fn preset_ids_increasing(p: Seq<PresetView>) -> bool {
    forall|i: int, j: int| 0 <= i < j < p.len() ==> #[trigger] p[i].0 < #[trigger] p[j].0
}

/// The default presets' ids increase.
pub proof fn law_default_preset_ids_increasing()
    ensures
        preset_ids_increasing(default_presets()),
{
}

/// Adding a preset keeps every preset there was, in order, and puts the new
/// one last, named and titled by the title; its id is new: when the ids
/// increased before they still do, so the new id is larger than every id
/// there was and deleting it removes only the new preset.
pub proof fn law_add_preset_gives_fresh_id(p: Seq<PresetView>, title: Seq<char>, kind: DynFieldKind)
    requires
        p.len() > 0 ==> p.last().0 < usize::MAX,
    ensures
        spec_add_preset(p, title, kind).len() == p.len() + 1,
        spec_add_preset(p, title, kind).take(p.len() as int) == p,
        spec_add_preset(p, title, kind).last().1 == title,
        spec_add_preset(p, title, kind).last().2 == title,
        spec_add_preset(p, title, kind).last().3 == kind,
        preset_ids_increasing(p) ==> preset_ids_increasing(spec_add_preset(p, title, kind)),
        preset_ids_increasing(p) ==> forall|j: int| 0 <= j < p.len()
            ==> #[trigger] p[j].0 < spec_add_preset(p, title, kind).last().0,
{
    let a = spec_add_preset(p, title, kind);
    assert(a.take(p.len() as int) =~= p);
    if preset_ids_increasing(p) {
        assert forall|j: int| 0 <= j < p.len() implies #[trigger] p[j].0 < a.last().0 by {
            if j < p.len() - 1 {
                assert(p[j].0 < p[p.len() - 1].0);
            }
        }
        assert forall|i: int, j: int| 0 <= i < j < a.len() implies #[trigger] a[i].0 < #[trigger] a[j].0 by {
            assert(a[i] == p[i]);
            if j < p.len() {
                assert(a[j] == p[j]);
            } else {
                assert(p[i].0 < a.last().0);
            }
        }
    }
}

proof fn lemma_delete_preset_from(p: Seq<PresetView>, id: usize)
    ensures
        forall|j: int| 0 <= j < spec_delete_preset(p, id).len()
            ==> exists|k: int| 0 <= k < p.len() && #[trigger] spec_delete_preset(p, id)[j] == p[k],
    decreases p.len(),
{
    if p.len() > 0 {
        let t = p.drop_last();
        lemma_delete_preset_from(t, id);
        let d = spec_delete_preset(p, id);
        let rest = spec_delete_preset(t, id);
        assert forall|j: int| 0 <= j < d.len() implies exists|k: int| 0 <= k < p.len() && #[trigger] d[j] == p[k] by {
            if j < rest.len() {
                assert(d[j] == rest[j]);
                let k = choose|k: int| 0 <= k < t.len() && #[trigger] rest[j] == t[k];
                assert(p[k] == t[k]);
            } else {
                assert(d[j] == p[p.len() - 1]);
            }
        }
    }
}

/// Deleting presets keeps the ids increasing when they were.
pub proof fn law_delete_preset_keeps_ids_increasing(p: Seq<PresetView>, id: usize)
    requires
        preset_ids_increasing(p),
    ensures
        preset_ids_increasing(spec_delete_preset(p, id)),
    decreases p.len(),
{
    if p.len() > 0 {
        let t = p.drop_last();
        assert forall|i: int, j: int| 0 <= i < j < t.len() implies #[trigger] t[i].0 < #[trigger] t[j].0 by {
            assert(p[i].0 < p[j].0);
        }
        law_delete_preset_keeps_ids_increasing(t, id);
        lemma_delete_preset_from(t, id);
        let d = spec_delete_preset(p, id);
        let rest = spec_delete_preset(t, id);
        if p.last().0 != id {
            assert forall|i: int, j: int| 0 <= i < j < d.len() implies #[trigger] d[i].0 < #[trigger] d[j].0 by {
                assert(d[i] == rest[i]);
                if j < rest.len() {
                    assert(d[j] == rest[j]);
                } else {
                    let k = choose|k: int| 0 <= k < t.len() && #[trigger] rest[i] == t[k];
                    assert(p[k].0 < p[p.len() - 1].0);
                }
            }
        }
    }
}

} // verus!
