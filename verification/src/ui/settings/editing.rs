//! Saving the field presets from the editing settings.

use vstd::prelude::*;
use crate::config::{presets_view, spec_add_preset, spec_delete_preset, spec_edit_preset, Config, ConfigView, PresetFields};
use crate::db::DynFieldKind;

verus! {

/// Adds a preset with the title, unless the title is empty; returns the
/// presets when one was added.
pub fn save_new_preset(config: &mut Config, title: String, kind: DynFieldKind) -> (r: Option<PresetFields>)
    requires
        old(config)@.preset_fields.len() > 0 ==> old(config)@.preset_fields.last().0 < usize::MAX,
    ensures
        title@.len() == 0 ==> r is None && final(config)@ == old(config)@,
        title@.len() > 0 ==> r is Some && final(config)@ == (ConfigView {
            preset_fields: spec_add_preset(old(config)@.preset_fields, title@, kind),
            ..old(config)@
        }) && presets_view(r->Some_0@) == final(config)@.preset_fields,
{
    if title.as_str().is_empty() {
        None
    } else {
        Some(config.add_field_preset(title, kind))
    }
}

/// Replaces a preset with the title and kind, unless the title is empty;
/// returns the presets when it was replaced.
pub fn save_edit_preset(config: &mut Config, id: usize, title: String, kind: DynFieldKind) -> (r: Option<PresetFields>)
    requires
        old(config)@.preset_fields.len() > 0,
    ensures
        title@.len() == 0 ==> r is None && final(config)@ == old(config)@,
        title@.len() > 0 ==> r is Some && final(config)@ == (ConfigView {
            preset_fields: spec_edit_preset(old(config)@.preset_fields, id, title@, kind),
            ..old(config)@
        }) && presets_view(r->Some_0@) == final(config)@.preset_fields,
{
    if title.as_str().is_empty() {
        None
    } else {
        Some(config.edit_field_preset(id, title, kind))
    }
}

/// Removes every preset with the id and returns the presets.
pub fn delete_preset(config: &mut Config, id: usize) -> (r: PresetFields)
    ensures
        final(config)@ == (ConfigView { preset_fields: spec_delete_preset(old(config)@.preset_fields, id), ..old(config)@ }),
        presets_view(r@) == final(config)@.preset_fields,
{
    config.delete_field_preset(id)
}

} // verus!
