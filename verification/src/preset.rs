use vstd::prelude::*;

verus! {

/// What a preset is, as a mathematical value: its label, its URL and whether it
/// is active.
pub struct PresetView {
    pub label: Seq<char>,
    pub url: Seq<char>,
    pub is_enabled: bool,
}

/// One MCP server preset: a labelled URL that can be switched on and off.
#[derive(Debug, Clone, PartialEq, Eq)]
pub struct McpServerPreset {
    pub label: String,
    pub url: String,
    pub is_enabled: bool,
}

impl View for McpServerPreset {
    type V = PresetView;

    open spec fn view(&self) -> PresetView {
        PresetView { label: self.label@, url: self.url@, is_enabled: self.is_enabled }
    }
}

/// The views of a sequence of presets, in order.
pub open spec fn views(presets: Seq<McpServerPreset>) -> Seq<PresetView> {
    presets.map_values(|p: McpServerPreset| p@)
}

} // verus!
