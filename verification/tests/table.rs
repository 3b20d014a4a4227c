use mcp_config::table::preset_table_lines;
use mcp_config::McpServerPreset;

fn preset(label: &str, url: &str, is_enabled: bool) -> McpServerPreset {
    McpServerPreset { label: label.to_string(), url: url.to_string(), is_enabled }
}

#[test]
fn empty_listing_says_so() {
    assert_eq!(preset_table_lines(&vec![]), vec!["No MCP server presets configured.".to_string()]);
}

#[test]
fn listing_lays_presets_out_in_columns() {
    let lines = preset_table_lines(&vec![
        preset("my_api", "http://localhost:8080/mcp", true),
        preset("another", "http://example.com/api", false),
    ]);
    assert_eq!(
        lines,
        vec![
            "Label   | URL                       | Status  ".to_string(),
            "--------+---------------------------+---------".to_string(),
            "my_api  | http://localhost:8080/mcp | Enabled ".to_string(),
            "another | http://example.com/api    | Disabled".to_string(),
        ]
    );
}

#[test]
fn short_texts_get_the_width_of_the_titles() {
    let lines = preset_table_lines(&vec![preset("a", "u", false)]);
    assert_eq!(
        lines,
        vec![
            "Label | URL | Status  ".to_string(),
            "------+-----+---------".to_string(),
            "a     | u   | Disabled".to_string(),
        ]
    );
}

#[test]
fn ascii_listing_lines_are_equally_long() {
    let lines = preset_table_lines(&vec![
        preset("x", "http://a", true),
        preset("longer_label", "u", false),
        preset("mid", "http://localhost:3031", true),
    ]);
    assert_eq!(lines.len(), 5);
    let n = lines[0].len();
    assert!(lines.iter().all(|l| l.len() == n));
    assert_eq!(n, 12 + 21 + 8 + 6);
}

#[test]
fn widths_count_bytes_and_padding_counts_characters() {
    let lines = preset_table_lines(&vec![preset("ééé", "x", true)]);
    assert_eq!(
        lines,
        vec![
            "Label  | URL | Status  ".to_string(),
            "-------+-----+---------".to_string(),
            "ééé    | x   | Enabled ".to_string(),
        ]
    );
}
