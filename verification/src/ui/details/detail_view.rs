//! Saving an edit made in the entry details view.

use vstd::prelude::*;
use crate::db::{current_value, field_of, spec_edit_field, Db, DbFields, DbView};
use crate::text::decimal;

verus! {

/// Saves the value edited in a place of an entry, only when it differs from
/// the current content; returns whether it was saved. The caller then stores
/// the database and refreshes what it shows.
pub fn save_edit(db: &mut Db, id: usize, field: &DbFields, field_value: String) -> (changed: bool)
    requires
        field is Fields ==> field_of(old(db)@.contents, id, *field).value.len() > 0,
        *field == DbFields::Id && old(db)@.contents.len() > 0 ==> field_value@ == decimal(id as nat),
    ensures
        changed == (field_value@ != current_value(old(db)@.contents, id, *field)),
        !changed ==> final(db)@ == old(db)@,
        changed ==> exists|t: u64|
            final(db)@ == (DbView {
                contents: #[trigger] spec_edit_field(old(db)@.contents, id, *field, field_value@, t),
                ..old(db)@
            }),
{
    let last_val = db.get_last_by_field(&id, field);
    if last_val != field_value {
        db.edit_field(id, field, field_value);
        true
    } else {
        false
    }
}

} // verus!
