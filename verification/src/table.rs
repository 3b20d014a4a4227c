use vstd::prelude::*;
use vstd::string::StringExecFns;
use vstd::utf8::{encode_utf8, encode_scalar};

use crate::preset::{McpServerPreset, PresetView, views};

verus! {

/// The width of the status column: that of its longest entry, "Disabled".
pub const STATUS_COLUMN_WIDTH: usize = 8;

/// What `str::len` reports of a text: the bytes of its UTF-8 encoding.
pub open spec fn byte_len(text: Seq<char>) -> usize {
    encode_utf8(text).len() as usize
}

/// The width of a column: the largest byte length of its texts, and no less
/// than `min`.
pub open spec fn column_width(texts: Seq<Seq<char>>, min: usize) -> usize
    decreases texts.len(),
{
    if texts.len() == 0 {
        min
    } else {
        let w = column_width(texts.drop_last(), min);
        let b = byte_len(texts.last());
        if b > w {
            b
        } else {
            w
        }
    }
}

/// The text, followed by as many `fill` characters as it takes to reach
/// `width` characters; a text that long or longer stays as it is.
pub open spec fn pad_right(text: Seq<char>, width: int, fill: char) -> Seq<char> {
    if text.len() < width {
        text + Seq::new((width - text.len()) as nat, |_i: int| fill)
    } else {
        text
    }
}

/// The word that shows a preset's status.
pub open spec fn status_text(enabled: bool) -> Seq<char> {
    if enabled {
        "Enabled"@
    } else {
        "Disabled"@
    }
}

/// The labels of the presets, in order.
pub open spec fn labels(s: Seq<PresetView>) -> Seq<Seq<char>> {
    s.map_values(|p: PresetView| p.label)
}

/// The URLs of the presets, in order.
pub open spec fn urls(s: Seq<PresetView>) -> Seq<Seq<char>> {
    s.map_values(|p: PresetView| p.url)
}

/// The width of the label column: no less than that of its title, "Label".
pub open spec fn label_width(s: Seq<PresetView>) -> usize {
    column_width(labels(s), 5)
}

/// The width of the URL column: no less than that of its title, "URL".
pub open spec fn url_width(s: Seq<PresetView>) -> usize {
    column_width(urls(s), 3)
}

/// The title line of the table.
pub open spec fn header_line(label_w: int, url_w: int) -> Seq<char> {
    pad_right("Label"@, label_w, ' ') + " | "@ + pad_right("URL"@, url_w, ' ') + " | "@ + pad_right(
        "Status"@,
        STATUS_COLUMN_WIDTH as int,
        ' ',
    )
}

/// The line of dashes under the titles.
pub open spec fn separator_line(label_w: int, url_w: int) -> Seq<char> {
    pad_right(Seq::empty(), label_w, '-') + "-+-"@ + pad_right(Seq::empty(), url_w, '-') + "-+-"@
        + pad_right(Seq::empty(), STATUS_COLUMN_WIDTH as int, '-')
}

/// The line of one preset.
pub open spec fn preset_line(p: PresetView, label_w: int, url_w: int) -> Seq<char> {
    pad_right(p.label, label_w, ' ') + " | "@ + pad_right(p.url, url_w, ' ') + " | "@ + pad_right(
        status_text(p.is_enabled),
        STATUS_COLUMN_WIDTH as int,
        ' ',
    )
}

/// What a listing shows: a note where there is no preset; else the titles, the
/// dashes and one line for each preset, in order, all in columns as wide as
/// their widest entry.
pub open spec fn table_lines(s: Seq<PresetView>) -> Seq<Seq<char>> {
    if s.len() == 0 {
        seq!["No MCP server presets configured."@]
    } else {
        let lw = label_width(s) as int;
        let uw = url_width(s) as int;
        seq![header_line(lw, uw), separator_line(lw, uw)] + preset_lines(s, lw, uw)
    }
}

/// The lines of the presets, in order.
pub open spec fn preset_lines(s: Seq<PresetView>, label_w: int, url_w: int) -> Seq<Seq<char>> {
    s.map_values(|p: PresetView| preset_line(p, label_w, url_w))
}

/// The texts of the lines, in order.
pub open spec fn line_texts(lines: Seq<String>) -> Seq<Seq<char>> {
    lines.map_values(|l: String| l@)
}

/// A text takes no fewer bytes of UTF-8 than it has characters.
pub proof fn lemma_chars_at_most_bytes(text: Seq<char>)
    ensures
        text.len() <= encode_utf8(text).len(),
    decreases text.len(),
{
    if text.len() > 0 {
        lemma_chars_at_most_bytes(text.drop_first());
        assert(encode_scalar(text[0] as u32).len() >= 1);
    }
}

/// The number of characters of the text.
fn char_count(text: &str) -> (n: usize)
    ensures
        n == text@.len(),
{
    let bytes = text.as_bytes();
    let nbytes = bytes.len();
    proof {
        lemma_chars_at_most_bytes(text@);
    }
    let mut n: usize = 0;
    for _c in it: text.chars()
        invariant
            n == it.index(),
            it.seq() == text@,
            text@.len() <= nbytes,
    {
        n = n + 1;
    }
    n
}

/// Appends `count` copies of the one-character text `fill`.
fn append_fill(out: &mut String, count: usize, fill: &str)
    requires
        fill@.len() == 1,
    ensures
        final(out)@ == old(out)@ + Seq::new(count as nat, |_i: int| fill@[0]),
{
    let ghost start = out@;
    let mut k: usize = 0;
    while k < count
        invariant
            k <= count,
            fill@.len() == 1,
            out@ == start + Seq::new(k as nat, |_i: int| fill@[0]),
        decreases count - k,
    {
        out.append(fill);
        k = k + 1;
        assert(out@ =~= start + Seq::new(k as nat, |_i: int| fill@[0]));
    }
}

/// The text padded on the right with `fill` to `width` characters.
fn padded(text: &str, width: usize, fill: &str) -> (r: String)
    requires
        fill@.len() == 1,
    ensures
        r@ == pad_right(text@, width as int, fill@[0]),
{
    let n = char_count(text);
    let mut out = String::from_str(text);
    if n < width {
        append_fill(&mut out, width - n, fill);
    }
    out
}

/// The word that shows a preset's status.
fn status_str(enabled: bool) -> (r: &'static str)
    ensures
        r@ == status_text(enabled),
{
    if enabled {
        "Enabled"
    } else {
        "Disabled"
    }
}

/// The larger of `w` and the byte length of the text.
fn widen(w: usize, text: &String) -> (r: usize)
    ensures
        r == (if byte_len(text@) > w {
            byte_len(text@)
        } else {
            w
        }),
{
    let b = text.as_str().len();
    if b > w {
        b
    } else {
        w
    }
}

/// The width of the label column.
fn label_column_width(presets: &Vec<McpServerPreset>) -> (w: usize)
    ensures
        w == label_width(views(presets@)),
{
    let ghost texts = labels(views(presets@));
    let mut w: usize = 5;
    for i in 0..presets.len()
        invariant
            texts == labels(views(presets@)),
            w == column_width(texts.take(i as int), 5),
    {
        assert(texts.take(i + 1).drop_last() =~= texts.take(i as int));
        w = widen(w, &presets[i].label);
    }
    assert(texts.take(presets.len() as int) =~= texts);
    w
}

/// The width of the URL column.
fn url_column_width(presets: &Vec<McpServerPreset>) -> (w: usize)
    ensures
        w == url_width(views(presets@)),
{
    let ghost texts = urls(views(presets@));
    let mut w: usize = 3;
    for i in 0..presets.len()
        invariant
            texts == urls(views(presets@)),
            w == column_width(texts.take(i as int), 3),
    {
        assert(texts.take(i + 1).drop_last() =~= texts.take(i as int));
        w = widen(w, &presets[i].url);
    }
    assert(texts.take(presets.len() as int) =~= texts);
    w
}

/// Three cells joined by the column rule `sep`.
fn join_cells(a: String, sep: &str, b: String, c: String) -> (r: String)
    ensures
        r@ == a@ + sep@ + b@ + sep@ + c@,
{
    let mut r = a;
    r.append(sep);
    r.append(b.as_str());
    r.append(sep);
    r.append(c.as_str());
    r
}

/// The line of one preset.
fn line_of(p: &McpServerPreset, label_w: usize, url_w: usize) -> (r: String)
    ensures
        r@ == preset_line(p@, label_w as int, url_w as int),
{
    proof {
        reveal_strlit(" ");
    }
    let label = padded(p.label.as_str(), label_w, " ");
    let url = padded(p.url.as_str(), url_w, " ");
    let status = padded(status_str(p.is_enabled), STATUS_COLUMN_WIDTH, " ");
    join_cells(label, " | ", url, status)
}

/// The lines that a listing of the presets prints, in order: the note
/// "No MCP server presets configured." where there is none; else a title line,
/// a line of dashes and a line for each preset, with label, URL and status
/// (Enabled or Disabled) in columns as wide as their widest entry and no
/// narrower than their titles.
pub fn preset_table_lines(presets: &Vec<McpServerPreset>) -> (lines: Vec<String>)
    ensures
        line_texts(lines@) == table_lines(views(presets@)),
{
    let mut lines: Vec<String> = Vec::new();
    if presets.len() == 0 {
        lines.push(String::from_str("No MCP server presets configured."));
        assert(line_texts(lines@) =~= table_lines(views(presets@)));
        return lines;
    }
    proof {
        reveal_strlit(" ");
        reveal_strlit("-");
    }
    let ghost s = views(presets@);
    let label_w = label_column_width(presets);
    let url_w = url_column_width(presets);
    let header = join_cells(
        padded("Label", label_w, " "),
        " | ",
        padded("URL", url_w, " "),
        padded("Status", STATUS_COLUMN_WIDTH, " "),
    );
    lines.push(header);
    let empty = String::new();
    let mut sep = padded(empty.as_str(), label_w, "-");
    sep.append("-+-");
    let middle = padded(empty.as_str(), url_w, "-");
    sep.append(middle.as_str());
    sep.append("-+-");
    let last = padded(empty.as_str(), STATUS_COLUMN_WIDTH, "-");
    sep.append(last.as_str());
    lines.push(sep);
    let ghost head = seq![header_line(label_w as int, url_w as int), separator_line(label_w as int, url_w as int)];
    assert(line_texts(lines@) =~= head);
    for i in 0..presets.len()
        invariant
            s == views(presets@),
            label_w == label_width(s),
            url_w == url_width(s),
            line_texts(lines@) == head + preset_lines(s.take(i as int), label_w as int, url_w as int),
    {
        let line = line_of(&presets[i], label_w, url_w);
        let ghost before = lines@;
        lines.push(line);
        assert(lines@ =~= before.push(line));
        assert(s.take(i + 1) =~= s.take(i as int).push(s[i as int]));
        assert(line@ == preset_line(s[i as int], label_w as int, url_w as int));
        assert(line_texts(lines@) =~= line_texts(before).push(line@));
        assert(preset_lines(s.take(i + 1), label_w as int, url_w as int) =~= preset_lines(
            s.take(i as int),
            label_w as int,
            url_w as int,
        ).push(line@));
    }
    assert(s.take(presets.len() as int) =~= s);
    lines
}

} // verus!
