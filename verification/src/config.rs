use vstd::prelude::*;
use vstd::string::StringExecFns;

use crate::preset::{McpServerPreset, PresetView, views};

verus! {

/// The part of the configuration file that holds the presets. `None` stands for
/// a file that has no `mcp_server_presets` key.
pub struct ConfigToml {
    pub mcp_server_presets: Option<Vec<McpServerPreset>>,
}

impl ConfigToml {
    /// The presets that the configuration holds, in file order; none when the
    /// key is absent.
    pub open spec fn presets(&self) -> Seq<PresetView> {
        match self.mcp_server_presets {
            Some(v) => views(v@),
            None => Seq::empty(),
        }
    }
}

impl Default for ConfigToml {
    /// The configuration of a missing file: no presets key.
    fn default() -> (c: ConfigToml)
        ensures
            c.mcp_server_presets is None,
    {
        ConfigToml { mcp_server_presets: None }
    }
}

/// Some preset carries the label.
pub open spec fn has_label(s: Seq<PresetView>, label: Seq<char>) -> bool {
    exists|i: int| 0 <= i < s.len() && #[trigger] s[i].label == label
}

/// `i` is the position of the first preset that carries the label.
pub open spec fn is_first_with_label(s: Seq<PresetView>, label: Seq<char>, i: int) -> bool {
    &&& 0 <= i < s.len()
    &&& s[i].label == label
    &&& forall|j: int| 0 <= j < i ==> #[trigger] s[j].label != label
}

/// The position of the first preset that carries the label (meaningful where
/// `has_label` holds).
pub open spec fn first_with_label(s: Seq<PresetView>, label: Seq<char>) -> int {
    choose|i: int| is_first_with_label(s, label, i)
}

/// A preset as `add` writes it: enabled.
pub open spec fn enabled_preset(label: Seq<char>, url: Seq<char>) -> PresetView {
    PresetView { label, url, is_enabled: true }
}

/// The presets after adding `label` at `url`: the first preset with that label
/// takes the new URL and is enabled, in place; without one, the new preset goes
/// last.
pub open spec fn presets_after_add(s: Seq<PresetView>, label: Seq<char>, url: Seq<char>) -> Seq<
    PresetView,
> {
    if has_label(s, label) {
        s.update(first_with_label(s, label), enabled_preset(label, url))
    } else {
        s.push(enabled_preset(label, url))
    }
}

/// The presets after removing `label`: every preset with that label goes, the
/// others keep their order.
pub open spec fn presets_after_remove(s: Seq<PresetView>, label: Seq<char>) -> Seq<PresetView> {
    s.filter(|p: PresetView| p.label != label)
}

/// The presets after setting the status of `label`: the first preset with that
/// label takes the status, nothing else changes.
pub open spec fn presets_after_set_enabled(s: Seq<PresetView>, label: Seq<char>, status: bool) -> Seq<
    PresetView,
> {
    let i = first_with_label(s, label);
    s.update(i, PresetView { label: s[i].label, url: s[i].url, is_enabled: status })
}

/// The message of the error for a label that no preset carries.
pub open spec fn not_found_message(label: Seq<char>) -> Seq<char> {
    "Preset with label '"@ + label + "' not found."@
}

/// Where some preset carries the label, a first one does.
pub proof fn lemma_first_with_label_exists(s: Seq<PresetView>, label: Seq<char>)
    requires
        has_label(s, label),
    ensures
        is_first_with_label(s, label, first_with_label(s, label)),
{
    let k = choose|k: int| 0 <= k < s.len() && #[trigger] s[k].label == label;
    lemma_first_at_or_before(s, label, k);
}

proof fn lemma_first_at_or_before(s: Seq<PresetView>, label: Seq<char>, k: int)
    requires
        0 <= k < s.len(),
        s[k].label == label,
    ensures
        exists|i: int| is_first_with_label(s, label, i),
    decreases k,
{
    if exists|j: int| 0 <= j < k && #[trigger] s[j].label == label {
        let j = choose|j: int| 0 <= j < k && #[trigger] s[j].label == label;
        lemma_first_at_or_before(s, label, j);
    } else {
        assert(is_first_with_label(s, label, k));
    }
}

/// The first position at which a preset carries `label`, if any.
fn find_label(presets: &Vec<McpServerPreset>, label: &String) -> (r: Option<usize>)
    ensures
        match r {
            Some(i) => is_first_with_label(views(presets@), label@, i as int)
                && first_with_label(views(presets@), label@) == i as int,
            None => !has_label(views(presets@), label@),
        },
{
    let ghost s = views(presets@);
    let mut i: usize = 0;
    while i < presets.len()
        invariant
            i <= presets.len(),
            s == views(presets@),
            forall|j: int| 0 <= j < i ==> #[trigger] s[j].label != label@,
        decreases presets.len() - i,
    {
        if presets[i].label == *label {
            proof {
                assert(is_first_with_label(s, label@, i as int));
                lemma_first_with_label_exists(s, label@);
            }
            return Some(i);
        }
        i = i + 1;
    }
    None
}

/// The error for a label that no preset carries.
fn not_found(label: &String) -> (e: String)
    ensures
        e@ == not_found_message(label@),
{
    let mut e = String::from_str("Preset with label '");
    e.append(label.as_str());
    e.append("' not found.");
    e
}

/// Adds a preset, or updates the one that carries the label: it takes the new
/// URL and is enabled. The configuration then has a presets key.
pub fn add_mcp_server_preset(config: &mut ConfigToml, label: String, url: String)
    ensures
        final(config).mcp_server_presets is Some,
        final(config).presets() == presets_after_add(old(config).presets(), label@, url@),
        has_label(old(config).presets(), label@) ==> is_first_with_label(
            old(config).presets(),
            label@,
            first_with_label(old(config).presets(), label@),
        ),
{
    let mut presets = match config.mcp_server_presets.take() {
        Some(v) => v,
        None => Vec::new(),
    };
    let ghost s = views(presets@);
    match find_label(&presets, &label) {
        Some(i) => {
            presets[i].url = url;
            presets[i].is_enabled = true;
            assert(views(presets@) =~= presets_after_add(s, label@, url@));
        },
        None => {
            presets.push(McpServerPreset { label, url, is_enabled: true });
            assert(views(presets@) =~= presets_after_add(s, label@, url@));
        },
    }
    config.mcp_server_presets = Some(presets);
}

/// The preset, with its strings copied.
fn copy_preset(p: &McpServerPreset) -> (c: McpServerPreset)
    ensures
        c@ == p@,
{
    McpServerPreset { label: p.label.clone(), url: p.url.clone(), is_enabled: p.is_enabled }
}

/// Whether some preset of the configuration carries the label.
fn holds_label(config: &ConfigToml, label: &String) -> (b: bool)
    ensures
        b == has_label(config.presets(), label@),
{
    match &config.mcp_server_presets {
        Some(v) => find_label(v, label).is_some(),
        None => false,
    }
}

/// Removes every preset that carries the label. Where none does, the
/// configuration stays as it was and the error names the label.
pub fn remove_mcp_server_preset(config: &mut ConfigToml, label: String) -> (r: Result<(), String>)
    ensures
        r is Ok <==> has_label(old(config).presets(), label@),
        r is Ok ==> final(config).mcp_server_presets is Some && final(config).presets()
            == presets_after_remove(old(config).presets(), label@),
        r matches Err(e) ==> e@ == not_found_message(label@) && *final(config) == *old(config),
{
    if !holds_label(config, &label) {
        return Err(not_found(&label));
    }
    let presets = match config.mcp_server_presets.take() {
        Some(v) => v,
        None => Vec::new(),
    };
    let ghost s = views(presets@);
    let mut kept: Vec<McpServerPreset> = Vec::new();
    let mut i: usize = 0;
    while i < presets.len()
        invariant
            i <= presets.len(),
            s == views(presets@),
            views(kept@) == presets_after_remove(s.take(i as int), label@),
        decreases presets.len() - i,
    {
        proof {
            reveal_with_fuel(Seq::<_>::filter, 1);
            assert(s.take(i + 1).drop_last() =~= s.take(i as int));
        }
        if presets[i].label != label {
            let c = copy_preset(&presets[i]);
            kept.push(c);
        }
        assert(views(kept@) =~= presets_after_remove(s.take(i + 1), label@));
        i = i + 1;
    }
    assert(s.take(presets.len() as int) =~= s);
    config.mcp_server_presets = Some(kept);
    Ok(())
}

/// Sets whether the first preset that carries the label is enabled. Where none
/// does, the configuration stays as it was and the error names the label.
pub fn enable_mcp_server_preset(config: &mut ConfigToml, label: String, enabled_status: bool) -> (r:
    Result<(), String>)
    ensures
        r is Ok <==> has_label(old(config).presets(), label@),
        r is Ok ==> final(config).mcp_server_presets is Some && final(config).presets()
            == presets_after_set_enabled(old(config).presets(), label@, enabled_status)
            && is_first_with_label(
            old(config).presets(),
            label@,
            first_with_label(old(config).presets(), label@),
        ),
        r matches Err(e) ==> e@ == not_found_message(label@) && *final(config) == *old(config),
{
    if !holds_label(config, &label) {
        return Err(not_found(&label));
    }
    let mut presets = match config.mcp_server_presets.take() {
        Some(v) => v,
        None => Vec::new(),
    };
    let ghost s = views(presets@);
    match find_label(&presets, &label) {
        Some(i) => {
            presets[i].is_enabled = enabled_status;
            assert(views(presets@) =~= presets_after_set_enabled(s, label@, enabled_status));
        },
        None => {},
    }
    config.mcp_server_presets = Some(presets);
    Ok(())
}

/// The presets of the configuration, in file order; none where the key is
/// absent.
pub fn list_mcp_server_presets(config: ConfigToml) -> (r: Vec<McpServerPreset>)
    ensures
        views(r@) == config.presets(),
{
    match config.mcp_server_presets {
        Some(v) => v,
        None => Vec::new(),
    }
}

} // verus!
