use vstd::prelude::*;

use crate::config::{
    first_with_label, has_label, is_first_with_label,
    lemma_first_with_label_exists, presets_after_add, presets_after_remove,
    presets_after_set_enabled,
};
use crate::config::{ConfigToml, not_found_message};
use crate::preset::PresetView;
use crate::table::line_texts;
use crate::table::{
    STATUS_COLUMN_WIDTH, byte_len, column_width, label_width, labels, pad_right, status_text,
    table_lines, url_width, urls, header_line, separator_line, preset_line,
};
use crate::table::lemma_chars_at_most_bytes;
use vstd::utf8::{encode_utf8, is_ascii_chars, is_ascii_chars_encode_utf8};

verus! {

broadcast use vstd::seq_lib::group_filter_ensures;

/// No two presets carry the same label.
pub open spec fn labels_unique(s: Seq<PresetView>) -> bool {
    forall|i: int, j: int| 0 <= i < s.len() && 0 <= j < s.len() && i != j ==> s[i].label != s[j].label
}

/// After adding a label at a URL, the first preset with that label has that URL
/// and is enabled.
pub proof fn law_add_then_lookup(s: Seq<PresetView>, label: Seq<char>, url: Seq<char>)
    ensures
        has_label(presets_after_add(s, label, url), label),
        presets_after_add(s, label, url)[first_with_label(presets_after_add(s, label, url), label)].label
            == label,
        presets_after_add(s, label, url)[first_with_label(presets_after_add(s, label, url), label)].url
            == url,
        presets_after_add(s, label, url)[first_with_label(presets_after_add(s, label, url), label)].is_enabled,
{
    let t = presets_after_add(s, label, url);
    if has_label(s, label) {
        lemma_first_with_label_exists(s, label);
        let i = first_with_label(s, label);
        assert(is_first_with_label(t, label, i));
        lemma_first_with_label_exists(t, label);
    } else {
        let i = s.len() as int;
        assert(t[i].label == label);
        assert(is_first_with_label(t, label, i));
        lemma_first_with_label_exists(t, label);
    }
}

/// Adding a label that a preset already carries updates that preset and adds
/// none; adding a new label adds one preset, last.
pub proof fn law_add_length(s: Seq<PresetView>, label: Seq<char>, url: Seq<char>)
    ensures
        has_label(s, label) ==> presets_after_add(s, label, url).len() == s.len(),
        !has_label(s, label) ==> presets_after_add(s, label, url) == s.push(
            PresetView { label, url, is_enabled: true },
        ),
{
    if has_label(s, label) {
        lemma_first_with_label_exists(s, label);
    }
}

/// Adding leaves every preset of another label as and where it was.
pub proof fn law_add_keeps_other_labels(s: Seq<PresetView>, label: Seq<char>, url: Seq<char>)
    ensures
        forall|i: int|
            0 <= i < s.len() && s[i].label != label ==> #[trigger] presets_after_add(
                s,
                label,
                url,
            )[i] == s[i],
{
    if has_label(s, label) {
        lemma_first_with_label_exists(s, label);
    }
}

/// Adding keeps the labels unique.
pub proof fn law_add_keeps_labels_unique(s: Seq<PresetView>, label: Seq<char>, url: Seq<char>)
    requires
        labels_unique(s),
    ensures
        labels_unique(presets_after_add(s, label, url)),
{
    if has_label(s, label) {
        lemma_first_with_label_exists(s, label);
    }
}

/// After removing a label, no preset carries it.
pub proof fn law_remove_then_absent(s: Seq<PresetView>, label: Seq<char>)
    ensures
        !has_label(presets_after_remove(s, label), label),
{
    let t = presets_after_remove(s, label);
    assert forall|i: int| 0 <= i < t.len() implies #[trigger] t[i].label != label by {
        let pred = |p: PresetView| p.label != label;
        assert(pred(s.filter(pred)[i]));
    }
}

/// Removing a label keeps exactly the presets of other labels.
pub proof fn law_remove_keeps_others(s: Seq<PresetView>, label: Seq<char>, p: PresetView)
    ensures
        presets_after_remove(s, label).contains(p) <==> (s.contains(p) && p.label != label),
{
    let pred = |q: PresetView| q.label != label;
    let t = s.filter(pred);
    if t.contains(p) {
        let k = choose|k: int| 0 <= k < t.len() && t[k] == p;
        assert(pred(t[k]));
        s.lemma_filter_contains_rev(pred, p);
    }
    if s.contains(p) && p.label != label {
        let k = choose|k: int| 0 <= k < s.len() && s[k] == p;
        assert(pred(s[k]));
    }
}

/// Removing keeps the labels unique.
pub proof fn law_remove_keeps_labels_unique(s: Seq<PresetView>, label: Seq<char>)
    requires
        labels_unique(s),
    ensures
        labels_unique(presets_after_remove(s, label)),
    decreases s.len(),
{
    reveal_with_fuel(Seq::<_>::filter, 1);
    if s.len() > 0 {
        let r = s.drop_last();
        assert(labels_unique(r));
        law_remove_keeps_labels_unique(r, label);
        let t = presets_after_remove(r, label);
        if s.last().label != label {
            assert forall|i: int| 0 <= i < t.len() implies #[trigger] t[i].label != s.last().label by {
                law_remove_keeps_others(r, label, t[i]);
                assert(t.contains(t[i]));
                let k = choose|k: int| 0 <= k < r.len() && r[k] == t[i];
                assert(s[k] == r[k]);
            }
        }
    }
}

/// A filter that every element passes keeps the sequence whole.
proof fn lemma_filter_all(s: Seq<PresetView>, label: Seq<char>)
    requires
        !has_label(s, label),
    ensures
        presets_after_remove(s, label) == s,
    decreases s.len(),
{
    reveal_with_fuel(Seq::<_>::filter, 1);
    if s.len() > 0 {
        let r = s.drop_last();
        assert forall|i: int| 0 <= i < r.len() implies #[trigger] r[i].label != label by {
            assert(s[i].label != label);
        }
        lemma_filter_all(r, label);
        assert(s.last().label != label);
        assert(presets_after_remove(s, label) =~= s);
    }
}

/// Adding a label that no preset carries, then removing it, gives back the
/// presets as they were.
pub proof fn law_add_new_then_remove(s: Seq<PresetView>, label: Seq<char>, url: Seq<char>)
    requires
        !has_label(s, label),
    ensures
        presets_after_remove(presets_after_add(s, label, url), label) == s,
{
    reveal_with_fuel(Seq::<_>::filter, 1);
    let t = s.push(PresetView { label, url, is_enabled: true });
    assert(t.drop_last() =~= s);
    lemma_filter_all(s, label);
}

/// Setting a status changes that of the first preset with the label and nothing
/// else: the lookup then gives back the status.
pub proof fn law_set_enabled_then_lookup(s: Seq<PresetView>, label: Seq<char>, status: bool)
    requires
        has_label(s, label),
    ensures
        ({
            let t = presets_after_set_enabled(s, label, status);
            &&& t.len() == s.len()
            &&& has_label(t, label)
            &&& first_with_label(t, label) == first_with_label(s, label)
            &&& t[first_with_label(t, label)].is_enabled == status
            &&& forall|i: int|
                0 <= i < s.len() ==> (#[trigger] t[i]).label == s[i].label && t[i].url == s[i].url
            &&& forall|i: int| 0 <= i < s.len() && i != first_with_label(s, label) ==> #[trigger] t[i] == s[i]
        }),
{
    lemma_first_with_label_exists(s, label);
    let t = presets_after_set_enabled(s, label, status);
    let i = first_with_label(s, label);
    assert(is_first_with_label(t, label, i));
    lemma_first_with_label_exists(t, label);
}

/// Of two status settings of one label, the second decides.
pub proof fn law_set_enabled_twice(s: Seq<PresetView>, label: Seq<char>, a: bool, b: bool)
    requires
        has_label(s, label),
    ensures
        presets_after_set_enabled(presets_after_set_enabled(s, label, a), label, b)
            == presets_after_set_enabled(s, label, b),
{
    law_set_enabled_then_lookup(s, label, a);
    lemma_first_with_label_exists(s, label);
    let t = presets_after_set_enabled(s, label, a);
    let i = first_with_label(s, label);
    assert(first_with_label(t, label) == i);
    assert(t[i].label == s[i].label && t[i].url == s[i].url);
    assert(presets_after_set_enabled(presets_after_set_enabled(s, label, a), label, b)
        =~= presets_after_set_enabled(s, label, b));
}

/// Setting the status that a preset already has changes nothing; so disabling
/// an enabled preset and enabling it again gives back the presets as they were.
pub proof fn law_set_enabled_to_current(s: Seq<PresetView>, label: Seq<char>)
    requires
        has_label(s, label),
    ensures
        presets_after_set_enabled(s, label, s[first_with_label(s, label)].is_enabled) == s,
        s[first_with_label(s, label)].is_enabled ==> presets_after_set_enabled(
            presets_after_set_enabled(s, label, false),
            label,
            true,
        ) == s,
{
    lemma_first_with_label_exists(s, label);
    let i = first_with_label(s, label);
    assert(presets_after_set_enabled(s, label, s[i].is_enabled) =~= s);
    law_set_enabled_twice(s, label, false, true);
}

/// Setting a status keeps the labels unique.
pub proof fn law_set_enabled_keeps_labels_unique(s: Seq<PresetView>, label: Seq<char>, status: bool)
    requires
        labels_unique(s),
        has_label(s, label),
    ensures
        labels_unique(presets_after_set_enabled(s, label, status)),
{
    law_set_enabled_then_lookup(s, label, status);
}

/// Adding a label whose first preset stands at `i` changes that preset alone:
/// it keeps its label, takes exactly the given URL and is enabled, whatever the
/// URL; the other presets stay as and where they were.
pub proof fn law_add_updates_first(s: Seq<PresetView>, label: Seq<char>, url: Seq<char>, i: int)
    requires
        0 <= i < s.len(),
        s[i].label == label,
        forall|j: int| 0 <= j < i ==> #[trigger] s[j].label != label,
    ensures
        presets_after_add(s, label, url).len() == s.len(),
        presets_after_add(s, label, url)[i].label == label,
        presets_after_add(s, label, url)[i].url == url,
        presets_after_add(s, label, url)[i].is_enabled == true,
        forall|j: int|
            0 <= j < s.len() && j != i ==> #[trigger] presets_after_add(s, label, url)[j] == s[j],
{
    assert(is_first_with_label(s, label, i));
    lemma_first_with_label_exists(s, label);
    let k = first_with_label(s, label);
    if k < i {
        assert(s[k].label != label);
    }
    if i < k {
        assert(s[i].label != label);
    }
}

/// Adding a label that no preset carries keeps every preset as and where it
/// was and puts last one preset with that label, exactly the given URL, and
/// enabled, whatever the URL.
pub proof fn law_add_appends_new(s: Seq<PresetView>, label: Seq<char>, url: Seq<char>)
    requires
        forall|j: int| 0 <= j < s.len() ==> #[trigger] s[j].label != label,
    ensures
        presets_after_add(s, label, url).len() == s.len() + 1,
        forall|j: int| 0 <= j < s.len() ==> #[trigger] presets_after_add(s, label, url)[j] == s[j],
        presets_after_add(s, label, url)[s.len() as int].label == label,
        presets_after_add(s, label, url)[s.len() as int].url == url,
        presets_after_add(s, label, url)[s.len() as int].is_enabled == true,
{
}

/// Removing from no presets gives none.
pub proof fn law_remove_from_empty(label: Seq<char>)
    ensures
        presets_after_remove(Seq::empty(), label) == Seq::<PresetView>::empty(),
{
    reveal_with_fuel(Seq::<_>::filter, 1);
}

/// Removing from presets with one more preset at the end: that preset goes
/// exactly where it carries the label, and otherwise stays last, after what
/// removing leaves of the others. With the law for no presets this fixes the
/// result of every removal: the presets of other labels, in their order.
pub proof fn law_remove_push(s: Seq<PresetView>, p: PresetView, label: Seq<char>)
    ensures
        p.label == label ==> presets_after_remove(s.push(p), label) == presets_after_remove(s, label),
        p.label != label ==> presets_after_remove(s.push(p), label) == presets_after_remove(
            s,
            label,
        ).push(p),
{
    reveal_with_fuel(Seq::<_>::filter, 1);
    assert(s.push(p).drop_last() =~= s);
}

/// Setting the status of a label whose first preset stands at `i` changes that
/// preset's status alone: it takes the given status and keeps its label and
/// URL; the other presets stay as and where they were.
pub proof fn law_set_enabled_first(s: Seq<PresetView>, label: Seq<char>, status: bool, i: int)
    requires
        0 <= i < s.len(),
        s[i].label == label,
        forall|j: int| 0 <= j < i ==> #[trigger] s[j].label != label,
    ensures
        presets_after_set_enabled(s, label, status).len() == s.len(),
        presets_after_set_enabled(s, label, status)[i].label == s[i].label,
        presets_after_set_enabled(s, label, status)[i].url == s[i].url,
        presets_after_set_enabled(s, label, status)[i].is_enabled == status,
        forall|j: int|
            0 <= j < s.len() && j != i ==> #[trigger] presets_after_set_enabled(s, label, status)[j]
                == s[j],
{
    assert(is_first_with_label(s, label, i));
    lemma_first_with_label_exists(s, label);
    let k = first_with_label(s, label);
    if k < i {
        assert(s[k].label != label);
    }
    if i < k {
        assert(s[i].label != label);
    }
}

/// Every label and URL is ASCII text that a machine word can measure.
pub open spec fn plain_texts(s: Seq<PresetView>) -> bool {
    forall|i: int|
        0 <= i < s.len() ==> {
            &&& is_ascii_chars(#[trigger] s[i].label)
            &&& is_ascii_chars(s[i].url)
            &&& s[i].label.len() <= usize::MAX
            &&& s[i].url.len() <= usize::MAX
        }
}

/// A column is at least as wide as its minimum and as each of its texts.
proof fn lemma_column_width_bounds(texts: Seq<Seq<char>>, min: usize)
    ensures
        min <= column_width(texts, min),
        forall|i: int| 0 <= i < texts.len() ==> byte_len(#[trigger] texts[i]) <= column_width(texts, min),
    decreases texts.len(),
{
    if texts.len() > 0 {
        let r = texts.drop_last();
        lemma_column_width_bounds(r, min);
        assert forall|i: int| 0 <= i < texts.len() implies byte_len(#[trigger] texts[i]) <= column_width(texts, min) by {
            if i < r.len() {
                assert(texts[i] == r[i]);
            }
        }
    }
}

/// A text no longer than the width is padded to exactly the width.
proof fn lemma_pad_len(text: Seq<char>, width: int, fill: char)
    requires
        text.len() <= width,
    ensures
        pad_right(text, width, fill).len() == width,
{
}

/// A plain text fits the column that holds it.
proof fn lemma_fits(texts: Seq<Seq<char>>, min: usize, i: int)
    requires
        0 <= i < texts.len(),
        is_ascii_chars(texts[i]),
        texts[i].len() <= usize::MAX,
    ensures
        texts[i].len() <= column_width(texts, min),
{
    lemma_column_width_bounds(texts, min);
    is_ascii_chars_encode_utf8(texts[i]);
    assert(byte_len(texts[i]) == texts[i].len());
}

/// Where every label and URL is plain ASCII, the listing has a line for each
/// preset besides the titles and the dashes, and all its lines are equally
/// long: the columns line up.
pub proof fn law_table_columns_line_up(s: Seq<PresetView>)
    requires
        s.len() > 0,
        plain_texts(s),
    ensures
        table_lines(s).len() == s.len() + 2,
        forall|k: int|
            0 <= k < table_lines(s).len() ==> (#[trigger] table_lines(s)[k]).len() == label_width(s)
                + url_width(s) + STATUS_COLUMN_WIDTH + 6,
{
    reveal_strlit("Label");
    reveal_strlit("URL");
    reveal_strlit("Status");
    reveal_strlit("Enabled");
    reveal_strlit("Disabled");
    reveal_strlit(" | ");
    reveal_strlit("-+-");
    let lw = label_width(s) as int;
    let uw = url_width(s) as int;
    lemma_column_width_bounds(labels(s), 5);
    lemma_column_width_bounds(urls(s), 3);
    let total = lw + uw + STATUS_COLUMN_WIDTH + 6;
    assert(header_line(lw, uw).len() == total);
    assert(separator_line(lw, uw).len() == total);
    assert forall|i: int| 0 <= i < s.len() implies #[trigger] preset_line(s[i], lw, uw).len() == total by {
        assert(labels(s)[i] == s[i].label);
        assert(urls(s)[i] == s[i].url);
        lemma_fits(labels(s), 5, i);
        lemma_fits(urls(s), 3, i);
        lemma_pad_len(s[i].label, lw, ' ');
        lemma_pad_len(s[i].url, uw, ' ');
        lemma_pad_len(status_text(s[i].is_enabled), STATUS_COLUMN_WIDTH as int, ' ');
    }
    let t = table_lines(s);
    assert forall|k: int| 0 <= k < t.len() implies (#[trigger] t[k]).len() == total by {
        if k >= 2 {
            assert(t[k] == preset_line(s[k - 2], lw, uw));
        }
    }
}

/// Every label and URL takes no more bytes of UTF-8 than a machine word counts.
pub open spec fn measurable(s: Seq<PresetView>) -> bool {
    forall|j: int|
        0 <= j < s.len() ==> encode_utf8(#[trigger] s[j].label).len() <= usize::MAX && encode_utf8(
            s[j].url,
        ).len() <= usize::MAX
}

/// A column is exactly as wide as its minimum or as the byte length of one of
/// its texts, and no narrower than any of them.
proof fn lemma_column_width_is_max(texts: Seq<Seq<char>>, min: usize)
    ensures
        min <= column_width(texts, min),
        forall|j: int| 0 <= j < texts.len() ==> byte_len(#[trigger] texts[j]) <= column_width(texts, min),
        column_width(texts, min) == min || exists|j: int|
            0 <= j < texts.len() && byte_len(#[trigger] texts[j]) == column_width(texts, min),
    decreases texts.len(),
{
    lemma_column_width_bounds(texts, min);
    if texts.len() > 0 {
        let r = texts.drop_last();
        lemma_column_width_is_max(r, min);
        let w = column_width(texts, min);
        if w != min && w != byte_len(texts.last()) {
            let j = choose|j: int| 0 <= j < r.len() && byte_len(#[trigger] r[j]) == column_width(r, min);
            assert(texts[j] == r[j]);
        }
        if w == byte_len(texts.last()) {
            assert(byte_len(texts[texts.len() - 1]) == w);
        }
    }
}

/// The label column is as wide as the longest label in bytes, and never
/// narrower than its title "Label": no wider, no narrower.
pub proof fn law_label_column_width(s: Seq<PresetView>)
    requires
        measurable(s),
    ensures
        label_width(s) >= 5,
        forall|j: int| 0 <= j < s.len() ==> encode_utf8(#[trigger] s[j].label).len() <= label_width(s),
        label_width(s) == 5 || exists|j: int|
            0 <= j < s.len() && encode_utf8(#[trigger] s[j].label).len() == label_width(s),
{
    let t = labels(s);
    lemma_column_width_is_max(t, 5);
    assert forall|j: int| 0 <= j < s.len() implies encode_utf8(#[trigger] s[j].label).len() <= label_width(s) by {
        assert(t[j] == s[j].label);
    }
    if label_width(s) != 5 {
        let j = choose|j: int| 0 <= j < t.len() && byte_len(#[trigger] t[j]) == column_width(t, 5);
        assert(t[j] == s[j].label);
        assert(encode_utf8(s[j].label).len() == label_width(s));
    }
}

/// The URL column is as wide as the longest URL in bytes, and never narrower
/// than its title "URL": no wider, no narrower.
pub proof fn law_url_column_width(s: Seq<PresetView>)
    requires
        measurable(s),
    ensures
        url_width(s) >= 3,
        forall|j: int| 0 <= j < s.len() ==> encode_utf8(#[trigger] s[j].url).len() <= url_width(s),
        url_width(s) == 3 || exists|j: int|
            0 <= j < s.len() && encode_utf8(#[trigger] s[j].url).len() == url_width(s),
{
    let t = urls(s);
    lemma_column_width_is_max(t, 3);
    assert forall|j: int| 0 <= j < s.len() implies encode_utf8(#[trigger] s[j].url).len() <= url_width(s) by {
        assert(t[j] == s[j].url);
        assert(encode_utf8(s[j].label).len() <= usize::MAX);
        assert(byte_len(t[j]) <= url_width(s));
    }
    if url_width(s) != 3 {
        let j = choose|j: int| 0 <= j < t.len() && byte_len(#[trigger] t[j]) == column_width(t, 3);
        assert(t[j] == s[j].url);
        assert(encode_utf8(s[j].label).len() <= usize::MAX);
        assert(encode_utf8(s[j].url).len() == url_width(s));
    }
}

/// A text no longer than the width, padded to it: the text, then fill.
proof fn lemma_pad_parts(text: Seq<char>, width: int, fill: char)
    requires
        text.len() <= width,
    ensures
        pad_right(text, width, fill).len() == width,
        pad_right(text, width, fill).subrange(0, text.len() as int) == text,
        forall|k: int| text.len() <= k < width ==> #[trigger] pad_right(text, width, fill)[k] == fill,
{
    assert(pad_right(text, width, fill).subrange(0, text.len() as int) =~= text);
}

/// A listing of no presets is the one note.
pub proof fn law_empty_listing()
    ensures
        table_lines(Seq::empty()) == seq!["No MCP server presets configured."@],
{
}

/// A listing of some presets has the titles, the dashes and one line for each
/// preset.
pub proof fn law_listing_length(s: Seq<PresetView>)
    requires
        s.len() > 0,
    ensures
        table_lines(s).len() == s.len() + 2,
{
}

/// The line of the preset at `i` comes after the titles and the dashes, in
/// order, and shows it whole: the whole label, then spaces up to the label
/// width, " | ", the whole URL, spaces up to the URL width, " | ", and
/// "Enabled " or "Disabled" as the preset is.
pub proof fn law_listing_shows_preset(s: Seq<PresetView>, i: int)
    requires
        0 <= i < s.len(),
        measurable(s),
    ensures
        ({
            let line = table_lines(s)[i + 2];
            let lw = label_width(s) as int;
            let uw = url_width(s) as int;
            let p = s[i];
            &&& line.len() == lw + uw + 14
            &&& line.subrange(0, p.label.len() as int) == p.label
            &&& forall|k: int| p.label.len() <= k < lw ==> #[trigger] line[k] == ' '
            &&& line.subrange(lw, lw + 3) == " | "@
            &&& line.subrange(lw + 3, lw + 3 + p.url.len()) == p.url
            &&& forall|k: int| lw + 3 + p.url.len() <= k < lw + 3 + uw ==> #[trigger] line[k] == ' '
            &&& line.subrange(lw + 3 + uw, lw + uw + 6) == " | "@
            &&& line.subrange(lw + uw + 6, lw + uw + 14) == (if p.is_enabled {
                "Enabled "@
            } else {
                "Disabled"@
            })
        }),
{
    reveal_strlit("Enabled");
    reveal_strlit("Disabled");
    reveal_strlit("Enabled ");
    reveal_strlit(" | ");
    let lw = label_width(s) as int;
    let uw = url_width(s) as int;
    let p = s[i];
    law_label_column_width(s);
    law_url_column_width(s);
    lemma_chars_at_most_bytes(p.label);
    lemma_chars_at_most_bytes(p.url);
    assert(encode_utf8(s[i].label).len() <= lw);
    assert(encode_utf8(s[i].url).len() <= uw);
    let a = pad_right(p.label, lw, ' ');
    let c = pad_right(p.url, uw, ' ');
    let e = pad_right(status_text(p.is_enabled), STATUS_COLUMN_WIDTH as int, ' ');
    lemma_pad_parts(p.label, lw, ' ');
    lemma_pad_parts(p.url, uw, ' ');
    lemma_pad_parts(status_text(p.is_enabled), STATUS_COLUMN_WIDTH as int, ' ');
    let line = table_lines(s)[i + 2];
    assert(line == preset_line(p, lw, uw));
    assert(line == a + " | "@ + c + " | "@ + e);
    assert(line.subrange(0, lw) =~= a);
    assert(line.subrange(0, p.label.len() as int) =~= a.subrange(0, p.label.len() as int));
    assert forall|k: int| p.label.len() <= k < lw implies #[trigger] line[k] == ' ' by {
        assert(line[k] == a[k]);
    }
    assert(line.subrange(lw, lw + 3) =~= " | "@);
    assert(line.subrange(lw + 3, lw + 3 + uw) =~= c);
    assert(line.subrange(lw + 3, lw + 3 + p.url.len()) =~= c.subrange(0, p.url.len() as int));
    assert forall|k: int| lw + 3 + p.url.len() <= k < lw + 3 + uw implies #[trigger] line[k] == ' ' by {
        assert(line[k] == c[k - lw - 3]);
    }
    assert(line.subrange(lw + 3 + uw, lw + uw + 6) =~= " | "@);
    assert(line.subrange(lw + uw + 6, lw + uw + 14) =~= e);
    assert(e =~= (if p.is_enabled {
        "Enabled "@
    } else {
        "Disabled"@
    }));
}

/// The title line: "Label", spaces up to the label width, " | ", "URL",
/// spaces up to the URL width, " | ", "Status  ".
pub proof fn law_listing_titles(s: Seq<PresetView>)
    requires
        s.len() > 0,
    ensures
        ({
            let line = table_lines(s)[0];
            let lw = label_width(s) as int;
            let uw = url_width(s) as int;
            &&& line.len() == lw + uw + 14
            &&& line.subrange(0, 5) == "Label"@
            &&& forall|k: int| 5 <= k < lw ==> #[trigger] line[k] == ' '
            &&& line.subrange(lw, lw + 3) == " | "@
            &&& line.subrange(lw + 3, lw + 6) == "URL"@
            &&& forall|k: int| lw + 6 <= k < lw + 3 + uw ==> #[trigger] line[k] == ' '
            &&& line.subrange(lw + 3 + uw, lw + uw + 6) == " | "@
            &&& line.subrange(lw + uw + 6, lw + uw + 14) == "Status  "@
        }),
{
    reveal_strlit("Label");
    reveal_strlit("URL");
    reveal_strlit("Status");
    reveal_strlit("Status  ");
    reveal_strlit(" | ");
    let lw = label_width(s) as int;
    let uw = url_width(s) as int;
    lemma_column_width_bounds(labels(s), 5);
    lemma_column_width_bounds(urls(s), 3);
    let a = pad_right("Label"@, lw, ' ');
    let c = pad_right("URL"@, uw, ' ');
    let e = pad_right("Status"@, STATUS_COLUMN_WIDTH as int, ' ');
    lemma_pad_parts("Label"@, lw, ' ');
    lemma_pad_parts("URL"@, uw, ' ');
    lemma_pad_parts("Status"@, STATUS_COLUMN_WIDTH as int, ' ');
    let line = table_lines(s)[0];
    assert(line == a + " | "@ + c + " | "@ + e);
    assert(line.subrange(0, 5) =~= a.subrange(0, 5));
    assert forall|k: int| 5 <= k < lw implies #[trigger] line[k] == ' ' by {
        assert(line[k] == a[k]);
    }
    assert(line.subrange(lw, lw + 3) =~= " | "@);
    assert(line.subrange(lw + 3, lw + 6) =~= c.subrange(0, 3));
    assert forall|k: int| lw + 6 <= k < lw + 3 + uw implies #[trigger] line[k] == ' ' by {
        assert(line[k] == c[k - lw - 3]);
    }
    assert(line.subrange(lw + 3 + uw, lw + uw + 6) =~= " | "@);
    assert(line.subrange(lw + uw + 6, lw + uw + 14) =~= e);
    assert(e =~= "Status  "@);
}

/// The line under the titles is dashes, with a '+' where each column rule
/// crosses it.
pub proof fn law_listing_rule(s: Seq<PresetView>)
    requires
        s.len() > 0,
    ensures
        ({
            let line = table_lines(s)[1];
            let lw = label_width(s) as int;
            let uw = url_width(s) as int;
            &&& line.len() == lw + uw + 14
            &&& forall|k: int|
                0 <= k < line.len() ==> #[trigger] line[k] == (if k == lw + 1 || k == lw + uw + 4 {
                    '+'
                } else {
                    '-'
                })
        }),
{
    reveal_strlit("-+-");
    let lw = label_width(s) as int;
    let uw = url_width(s) as int;
    lemma_column_width_bounds(labels(s), 5);
    lemma_column_width_bounds(urls(s), 3);
    let a = pad_right(Seq::empty(), lw, '-');
    let c = pad_right(Seq::empty(), uw, '-');
    let e = pad_right(Seq::empty(), STATUS_COLUMN_WIDTH as int, '-');
    lemma_pad_parts(Seq::empty(), lw, '-');
    lemma_pad_parts(Seq::empty(), uw, '-');
    lemma_pad_parts(Seq::empty(), STATUS_COLUMN_WIDTH as int, '-');
    let line = table_lines(s)[1];
    assert(line == a + "-+-"@ + c + "-+-"@ + e);
    assert forall|k: int| 0 <= k < line.len() implies #[trigger] line[k] == (if k == lw + 1 || k
        == lw + uw + 4 {
        '+'
    } else {
        '-'
    }) by {
        if k < lw {
            assert(line[k] == a[k]);
        } else if k < lw + 3 {
        } else if k < lw + 3 + uw {
            assert(line[k] == c[k - lw - 3]);
        } else if k < lw + uw + 6 {
        } else {
            assert(line[k] == e[k - lw - uw - 6]);
        }
    }
}

/// The presets of a configuration are the stored ones, in file order, each
/// with its label, URL and status; a configuration without the key has none.
pub proof fn law_presets_are_stored(c: ConfigToml)
    ensures
        c.mcp_server_presets is None ==> c.presets().len() == 0,
        c.mcp_server_presets matches Some(v) ==> {
            &&& c.presets().len() == v@.len()
            &&& forall|i: int|
                0 <= i < v@.len() ==> (#[trigger] c.presets()[i]).label == v@[i].label@
                    && c.presets()[i].url == v@[i].url@ && c.presets()[i].is_enabled
                    == v@[i].is_enabled
        },
{
}

/// The texts of lines are those of each line, in order.
pub proof fn law_line_texts(lines: Seq<String>)
    ensures
        line_texts(lines).len() == lines.len(),
        forall|i: int| 0 <= i < lines.len() ==> #[trigger] line_texts(lines)[i] == lines[i]@,
{
}

/// The error for an unknown label reads "Preset with label '", the label
/// whole, then "' not found.".
pub proof fn law_not_found_message(label: Seq<char>)
    ensures
        not_found_message(label).len() == label.len() + 31,
        not_found_message(label).subrange(0, 19) == "Preset with label '"@,
        not_found_message(label).subrange(19, 19 + label.len() as int) == label,
        not_found_message(label).subrange(19 + label.len() as int, 31 + label.len() as int) == "' not found."@,
{
    reveal_strlit("Preset with label '");
    reveal_strlit("' not found.");
    let m = not_found_message(label);
    assert(m.subrange(0, 19) =~= "Preset with label '"@);
    assert(m.subrange(19, 19 + label.len() as int) =~= label);
    assert(m.subrange(19 + label.len() as int, 31 + label.len() as int) =~= "' not found."@);
}

} // verus!
