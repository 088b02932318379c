//! How the windows of the vault are named.

use vstd::prelude::*;
use crate::db::{db_fields_name, DbFields};
use crate::text::{decimal, decimal_string, is_digit, lemma_decimal_digits, lemma_decimal_injective};

verus! {

/// The name of the window for a place of an entry: the entry id, a dash, and
/// the place's name.
pub open spec fn field_path(id: usize, field: DbFields) -> Seq<char> {
    decimal(id as nat) + "-"@ + db_fields_name(field)
}

/// The name of the window for a place of an entry: the entry id, a dash, and
/// the place's name.
pub fn make_field_path(id: usize, field: &DbFields) -> (path: String)
    ensures
        path@ == field_path(id, *field),
{
    let mut path = decimal_string(id);
    path.append("-");
    let name = field.to_string();
    path.append(name.as_str());
    path
}



proof fn lemma_field_names_distinct(f: DbFields, g: DbFields)
    requires
        db_fields_name(f) == db_fields_name(g),
    ensures
        f == g,
{
    reveal_strlit("Id");
    reveal_strlit("Title");
    reveal_strlit("Fields-");
    let (nf, ng) = (db_fields_name(f), db_fields_name(g));
    assert(nf[0] == ng[0]);
    if let DbFields::Fields(i) = f {
        if let DbFields::Fields(j) = g {
            assert(nf.skip(7) =~= decimal(i as nat));
            assert(ng.skip(7) =~= decimal(j as nat));
            lemma_decimal_injective(i as nat, j as nat);
        }
    }
}

/// Each place of each entry has a window of its own: two window names are
/// the same exactly when they name the same place of the same entry.
pub proof fn law_field_paths_distinct(a: usize, f: DbFields, b: usize, g: DbFields)
    ensures
        field_path(a, f) == field_path(b, g) <==> a == b && f == g,
{
    reveal_strlit("-");
    if field_path(a, f) == field_path(b, g) {
        let (p, q) = (field_path(a, f), field_path(b, g));
        let (da, db) = (decimal(a as nat), decimal(b as nat));
        lemma_decimal_digits(a as nat);
        lemma_decimal_digits(b as nat);
        assert(p[da.len() as int] == '-');
        assert(q[db.len() as int] == '-');
        if da.len() < db.len() {
            assert(q[da.len() as int] == db[da.len() as int]);
            assert(is_digit(db[da.len() as int]));
        } else if db.len() < da.len() {
            assert(p[db.len() as int] == da[db.len() as int]);
            assert(is_digit(da[db.len() as int]));
        }
        assert(p.take(da.len() as int) =~= da);
        assert(q.take(db.len() as int) =~= db);
        lemma_decimal_injective(a as nat, b as nat);
        assert(p.skip(da.len() as int + 1) =~= db_fields_name(f));
        assert(q.skip(db.len() as int + 1) =~= db_fields_name(g));
        lemma_field_names_distinct(f, g);
    }
}

/// Forgets the first open window named `id` and gives back its window id,
/// which the caller then closes (and runs what closing it asks for); when no
/// window has that name nothing changes.
pub fn closing_window(windows: &mut Vec<(String, u64)>, id: &String) -> (r: Option<u64>)
    ensures
        match r {
            None => (forall|j: int| 0 <= j < old(windows)@.len() ==> #[trigger] old(windows)@[j].0@ != id@)
                && final(windows)@ == old(windows)@,
            Some(w) => exists|k: int|
                0 <= k < old(windows)@.len() && #[trigger] old(windows)@[k].0@ == id@
                    && (forall|j: int| 0 <= j < k ==> #[trigger] old(windows)@[j].0@ != id@)
                    && w == old(windows)@[k].1
                    && final(windows)@ == old(windows)@.remove(k),
        },
{
    let mut i: usize = 0;
    while i < windows.len()
        invariant
            0 <= i <= windows@.len(),
            windows@ == old(windows)@,
            forall|j: int| 0 <= j < i ==> #[trigger] windows@[j].0@ != id@,
        decreases windows@.len() - i,
    {
        if windows[i].0 == *id {
            let w = windows.remove(i);
            return Some(w.1);
        }
        i += 1;
    }
    None
}

} // verus!
