//! Reading the few values the app takes over from TheGriddler's `settings.json`:
//! a value is found by its quoted key, the first `:` after it, and what follows.
use vstd::prelude::*;

use crate::color::{argb_to_rgba_hex, spec_argb_to_rgba, DEFAULT_GRID_COLOR, DEFAULT_SELECTION_BORDER_COLOR, DEFAULT_SELECTION_COLOR};
use crate::settings::{default_stored_settings, spec_default_stored, stored_monitors_view, StoredMonitorConfig, StoredMonitorView, StoredSettings, StoredSettingsView};
use crate::text::{
    char_index, copy_range, find, find_char, find_from, find_in, is_ascii_digit,
    lemma_char_index_from, parse_u16, parse_u16_chars, starts_with, trim_start, has_prefix,
    trim_start_index, chars_of,
};

verus! {

/// The key as it appears in the text: in double quotes.
pub open spec fn quoted(key: Seq<char>) -> Seq<char> {
    seq!['"'] + key + seq!['"']
}

/// The text after the first `:` that follows the first occurrence of the quoted key,
/// with leading whitespace removed.
pub open spec fn json_value_text(contents: Seq<char>, key: Seq<char>) -> Option<Seq<char>> {
    match find(contents, quoted(key)) {
        None => None,
        Some(start) => {
            let after_key = contents.skip(start + quoted(key).len());
            match char_index(after_key, ':') {
                None => None,
                Some(colon) => Some(trim_start(after_key.skip(colon + 1))),
            }
        },
    }
}

/// `s` with each pair of backslashes (left to right, not overlapping) made one backslash.
pub open spec fn collapse_backslashes(s: Seq<char>) -> Seq<char>
    decreases s.len(),
{
    if s.len() >= 2 && s[0] == '\\' && s[1] == '\\' {
        seq!['\\'] + collapse_backslashes(s.skip(2))
    } else if s.len() == 0 {
        Seq::empty()
    } else {
        seq![s[0]] + collapse_backslashes(s.drop_first())
    }
}

/// A string value: the text between the opening quote and the next quote, with doubled
/// backslashes collapsed.
pub open spec fn spec_json_string(contents: Seq<char>, key: Seq<char>) -> Option<Seq<char>> {
    match json_value_text(contents, key) {
        None => None,
        Some(v) => {
            if v.len() > 0 && v[0] == '"' {
                let rest = v.drop_first();
                match char_index(rest, '"') {
                    None => None,
                    Some(end) => Some(collapse_backslashes(rest.take(end))),
                }
            } else {
                None
            }
        },
    }
}

/// A boolean value: text starting with `true` or `false`.
pub open spec fn spec_json_bool(contents: Seq<char>, key: Seq<char>) -> Option<bool> {
    match json_value_text(contents, key) {
        None => None,
        Some(v) => {
            if starts_with(v, "true"@) {
                Some(true)
            } else if starts_with(v, "false"@) {
                Some(false)
            } else {
                None
            }
        },
    }
}

/// How many leading characters of `s` are ASCII digits.
pub open spec fn digit_run(s: Seq<char>, from: int) -> int
    decreases s.len() - from,
{
    if 0 <= from < s.len() && is_ascii_digit(s[from]) {
        digit_run(s, from + 1)
    } else {
        from
    }
}

/// A number value: the leading digits, when they spell a 16-bit number.
pub open spec fn spec_json_number(contents: Seq<char>, key: Seq<char>) -> Option<u16> {
    match json_value_text(contents, key) {
        None => None,
        Some(v) => parse_u16(v.take(digit_run(v, 0))),
    }
}

fn quoted_key(key: &str) -> (q: Vec<char>)
    ensures
        q@ == quoted(key@),
{
    let mut q: Vec<char> = Vec::new();
    q.push('"');
    let k = chars_of(key);
    let mut i: usize = 0;
    while i < k.len()
        invariant
            i <= k.len(),
            q@ == seq!['"'] + k@.take(i as int),
        decreases k.len() - i,
    {
        q.push(k[i]);
        i += 1;
        proof {
            assert(k@.take(i as int) == k@.take(i - 1).push(k@[i - 1]));
            assert(q@ =~= seq!['"'] + k@.take(i as int));
        }
    }
    q.push('"');
    proof {
        assert(k@.take(k.len() as int) == k@);
        assert(q@ =~= quoted(key@));
    }
    q
}

/// The text of a key's value with leading whitespace removed.
fn value_text(contents: &[char], key: &str) -> (r: Option<Vec<char>>)
    ensures
        match (r, json_value_text(contents@, key@)) {
            (Some(v), Some(w)) => v@ == w,
            (None, None) => true,
            _ => false,
        },
{
    let needle = quoted_key(key);
    let start = match find_in(contents, needle.as_slice(), 0) {
        Some(s) => s,
        None => return None,
    };
    proof {
        crate::text::lemma_find_from(contents@, needle@, 0);
        assert(find_from(contents@, needle@, 0) == Some(start as int));
        assert(crate::text::occurs_at(contents@, needle@, start as int));
        assert(start + needle@.len() <= contents@.len());
        assert(needle@.len() == needle.len());
        assert(contents@.len() == contents.len());
        assert(start + needle.len() <= contents.len());
    }
    let after = start + needle.len();
    let after_key = copy_range(contents, after, contents.len());
    proof {
        assert(after_key@ =~= contents@.skip(after as int));
    }
    let colon = match find_char(after_key.as_slice(), ':', 0) {
        Some(c) => c,
        None => return None,
    };
    let tail = copy_range(after_key.as_slice(), colon + 1, after_key.len());
    proof {
        assert(tail@ =~= after_key@.skip(colon + 1));
    }
    let t = trim_start_index(tail.as_slice());
    Some(copy_range(tail.as_slice(), t, tail.len()))
}

fn collapse(s: &[char]) -> (r: Vec<char>)
    ensures
        r@ == collapse_backslashes(s@),
{
    let mut r: Vec<char> = Vec::new();
    let mut i: usize = 0;
    proof {
        assert(s@.skip(0) =~= s@);
    }
    while i < s.len()
        invariant
            i <= s.len(),
            collapse_backslashes(s@) == r@ + collapse_backslashes(s@.skip(i as int)),
        decreases s.len() - i,
    {
        let ghost rest = s@.skip(i as int);
        if i + 1 < s.len() && s[i] == '\\' && s[i + 1] == '\\' {
            r.push('\\');
            proof {
                assert(rest.skip(2) =~= s@.skip(i + 2));
            }
            i += 2;
        } else {
            r.push(s[i]);
            proof {
                assert(rest.drop_first() =~= s@.skip(i + 1));
            }
            i += 1;
        }
        proof {
            assert(collapse_backslashes(s@) =~= r@ + collapse_backslashes(s@.skip(i as int)));
        }
    }
    proof {
        assert(s@.skip(i as int) =~= Seq::<char>::empty());
        assert(r@ + Seq::<char>::empty() =~= r@);
    }
    r
}

/// The string value stored under `key`.
pub fn extract_json_string(contents: &str, key: &str) -> (r: Option<String>)
    ensures
        match (r, spec_json_string(contents@, key@)) {
            (Some(v), Some(w)) => v@ == w,
            (None, None) => true,
            _ => false,
        },
{
    let cs = chars_of(contents);
    let v = match value_text(cs.as_slice(), key) {
        Some(v) => v,
        None => return None,
    };
    if v.len() == 0 || v[0] != '"' {
        return None;
    }
    let rest = copy_range(v.as_slice(), 1, v.len());
    proof {
        assert(rest@ =~= v@.drop_first());
    }
    let end = match find_char(rest.as_slice(), '"', 0) {
        Some(e) => e,
        None => return None,
    };
    let inner = copy_range(rest.as_slice(), 0, end);
    proof {
        assert(inner@ =~= rest@.take(end as int));
    }
    let collapsed = collapse(inner.as_slice());
    Some(crate::text::string_of(collapsed.as_slice()))
}

/// The boolean value stored under `key`.
pub fn extract_json_bool(contents: &str, key: &str) -> (r: Option<bool>)
    ensures
        r == spec_json_bool(contents@, key@),
{
    let cs = chars_of(contents);
    let v = match value_text(cs.as_slice(), key) {
        Some(v) => v,
        None => return None,
    };
    let t = chars_of("true");
    let f = chars_of("false");
    if has_prefix(v.as_slice(), t.as_slice()) {
        Some(true)
    } else if has_prefix(v.as_slice(), f.as_slice()) {
        Some(false)
    } else {
        None
    }
}

/// The number stored under `key`.
pub fn extract_json_number(contents: &str, key: &str) -> (r: Option<u16>)
    ensures
        r == spec_json_number(contents@, key@),
{
    let cs = chars_of(contents);
    let v = match value_text(cs.as_slice(), key) {
        Some(v) => v,
        None => return None,
    };
    let mut n: usize = 0;
    while n < v.len() && '0' <= v[n] && v[n] <= '9'
        invariant
            n <= v.len(),
            digit_run(v@, 0) == digit_run(v@, n as int),
        decreases v.len() - n,
    {
        n += 1;
    }
    let digits = copy_range(v.as_slice(), 0, n);
    proof {
        assert(digits@ =~= v@.take(n as int));
    }
    parse_u16_chars(digits.as_slice())
}

pub open spec fn or_empty(v: Option<Seq<char>>) -> Seq<char> {
    match v {
        Some(s) => s,
        None => Seq::empty(),
    }
}

pub open spec fn or_two(v: Option<u16>) -> u16 {
    match v {
        Some(n) => n,
        None => 2,
    }
}

/// The monitor a `DeviceName` block describes; a block whose device name is not a string
/// describes none.
pub open spec fn spec_device_block(block: Seq<char>) -> Option<StoredMonitorView> {
    match spec_json_string(block, "DeviceName"@) {
        Some(d) => Some(
            StoredMonitorView {
                device_name: d,
                display_name: or_empty(spec_json_string(block, "FriendlyName"@)),
                columns: or_two(spec_json_number(block, "Columns"@)),
                rows: or_two(spec_json_number(block, "Rows"@)),
            },
        ),
        None => None,
    }
}

/// Where the block starting at `i` ends: at its first `}`, or at the end of the text.
pub open spec fn block_end(c: Seq<char>) -> int {
    match char_index(c, '}') {
        Some(e) => e,
        None => c.len() as int,
    }
}

/// Each block that starts at a `"DeviceName"` and runs up to the next `}` gives a monitor.
pub open spec fn device_entries(cursor: Seq<char>) -> Seq<StoredMonitorView>
    decreases cursor.len(),
{
    match find(cursor, "\"DeviceName\""@) {
        None => Seq::empty(),
        Some(i) => {
            let c = cursor.skip(i);
            let end = block_end(c);
            let rest = c.skip(end);
            let here = match spec_device_block(c.take(end)) {
                Some(m) => seq![m],
                None => Seq::empty(),
            };
            if 0 <= i < cursor.len() && 0 < end <= c.len() {
                here + device_entries(rest)
            } else {
                Seq::empty()
            }
        },
    }
}

/// Settings taken over from TheGriddler: `#AARRGGBB` colors, the startup and theme
/// choices, and the monitors' grid sizes.
pub open spec fn spec_parse_griddler(contents: Seq<char>) -> StoredSettingsView {
    let d = spec_default_stored();
    StoredSettingsView {
        monitors: device_entries(contents),
        grid_color: match spec_json_string(contents, "GridColor"@) {
            Some(c) => spec_argb_to_rgba(c, DEFAULT_GRID_COLOR@),
            None => d.grid_color,
        },
        selection_color: match spec_json_string(contents, "SelectionColor"@) {
            Some(c) => spec_argb_to_rgba(c, DEFAULT_SELECTION_COLOR@),
            None => d.selection_color,
        },
        selection_border_color: match spec_json_string(contents, "SelectionBorderColor"@) {
            Some(c) => spec_argb_to_rgba(c, DEFAULT_SELECTION_BORDER_COLOR@),
            None => d.selection_border_color,
        },
        run_on_startup: spec_json_bool(contents, "RunOnStartup"@),
        is_dark_mode: match spec_json_bool(contents, "IsDarkMode"@) {
            Some(b) => Some(b),
            None => d.is_dark_mode,
        },
    }
}

fn device_block(block: &str) -> (r: Option<StoredMonitorConfig>)
    ensures
        match (r, spec_device_block(block@)) {
            (Some(m), Some(v)) => m@ == v,
            (None, None) => true,
            _ => false,
        },
{
    let device_name = match extract_json_string(block, "DeviceName") {
        Some(d) => d,
        None => return None,
    };
    let display_name = match extract_json_string(block, "FriendlyName") {
        Some(n) => n,
        None => String::new(),
    };
    let columns = match extract_json_number(block, "Columns") {
        Some(n) => n,
        None => 2,
    };
    let rows = match extract_json_number(block, "Rows") {
        Some(n) => n,
        None => 2,
    };
    Some(StoredMonitorConfig { device_name, display_name, columns, rows })
}

/// Reads TheGriddler's settings from the text of its settings file.
pub fn parse_griddler_settings(contents: &str) -> (s: StoredSettings)
    ensures
        s@ == spec_parse_griddler(contents@),
        spec_json_bool(contents@, "IsDarkMode"@) matches Some(b) ==> s@.is_dark_mode == Some(b),
        spec_json_bool(contents@, "IsDarkMode"@) is None ==> s@.is_dark_mode == Some(true),
        s@.run_on_startup == spec_json_bool(contents@, "RunOnStartup"@),
        spec_json_string(contents@, "GridColor"@) matches Some(c) ==> s@.grid_color
            == spec_argb_to_rgba(c, DEFAULT_GRID_COLOR@),
        spec_json_string(contents@, "GridColor"@) is None ==> s@.grid_color == DEFAULT_GRID_COLOR@,
        spec_json_string(contents@, "SelectionColor"@) matches Some(c) ==> s@.selection_color
            == spec_argb_to_rgba(c, DEFAULT_SELECTION_COLOR@),
        spec_json_string(contents@, "SelectionColor"@) is None ==> s@.selection_color
            == DEFAULT_SELECTION_COLOR@,
        spec_json_string(contents@, "SelectionBorderColor"@) matches Some(c)
            ==> s@.selection_border_color == spec_argb_to_rgba(c, DEFAULT_SELECTION_BORDER_COLOR@),
        spec_json_string(contents@, "SelectionBorderColor"@) is None ==> s@.selection_border_color
            == DEFAULT_SELECTION_BORDER_COLOR@,
{
    proof {
        lemma_griddler_choices(contents@);
    }
    let mut settings = default_stored_settings();
    if let Some(color) = extract_json_string(contents, "GridColor") {
        settings.grid_color = argb_to_rgba_hex(color.as_str(), DEFAULT_GRID_COLOR);
    }
    if let Some(color) = extract_json_string(contents, "SelectionColor") {
        settings.selection_color = argb_to_rgba_hex(color.as_str(), DEFAULT_SELECTION_COLOR);
    }
    if let Some(color) = extract_json_string(contents, "SelectionBorderColor") {
        settings.selection_border_color = argb_to_rgba_hex(
            color.as_str(),
            DEFAULT_SELECTION_BORDER_COLOR,
        );
    }
    settings.run_on_startup = extract_json_bool(contents, "RunOnStartup");
    settings.is_dark_mode = match extract_json_bool(contents, "IsDarkMode") {
        Some(b) => Some(b),
        None => settings.is_dark_mode,
    };

    let needle = chars_of("\"DeviceName\"");
    let mut cursor = chars_of(contents);
    let ghost all = contents@;
    proof {
        assert(stored_monitors_view(settings.monitors@) + device_entries(cursor@) =~= device_entries(
            all,
        ));
    }
    loop
        invariant
            stored_monitors_view(settings.monitors@) + device_entries(cursor@) == device_entries(
                all,
            ),
            needle@ == "\"DeviceName\""@,
            settings@.grid_color == spec_parse_griddler(all).grid_color,
            settings@.selection_color == spec_parse_griddler(all).selection_color,
            settings@.selection_border_color == spec_parse_griddler(all).selection_border_color,
            settings@.run_on_startup == spec_parse_griddler(all).run_on_startup,
            settings@.is_dark_mode == spec_parse_griddler(all).is_dark_mode,
            all == contents@,
        decreases cursor.len(),
    {
        let index = match find_in(cursor.as_slice(), needle.as_slice(), 0) {
            Some(i) => i,
            None => {
                proof {
                    assert(stored_monitors_view(settings.monitors@) + Seq::<StoredMonitorView>::empty()
                        =~= stored_monitors_view(settings.monitors@));
                }
                return settings;
            },
        };
        proof {
            reveal_strlit("\"DeviceName\"");
            crate::text::lemma_find_from(cursor@, needle@, 0);
            assert(cursor@[index as int] == needle@[0]);
        }
        let c = copy_range(cursor.as_slice(), index, cursor.len());
        let end = match find_char(c.as_slice(), '}', 0) {
            Some(e) => e,
            None => c.len(),
        };
        proof {
            assert(c@ =~= cursor@.skip(index as int));
            lemma_char_index_from(c@, '}', 0);
            assert(c@[0] == '"');
        }
        let block = crate::text::string_of(copy_range(c.as_slice(), 0, end).as_slice());
        let ghost before = stored_monitors_view(settings.monitors@);
        match device_block(block.as_str()) {
            Some(m) => {
                settings.monitors.push(m);
                proof {
                    assert(stored_monitors_view(settings.monitors@) =~= before + seq![m@]);
                }
            },
            None => {
                proof {
                    assert(stored_monitors_view(settings.monitors@) =~= before + Seq::<StoredMonitorView>::empty());
                }
            },
        }
        let rest = copy_range(c.as_slice(), end, c.len());
        proof {
            assert(block@ =~= c@.take(end as int));
            assert(rest@ =~= c@.skip(end as int));
            let here = match spec_device_block(c@.take(end as int)) {
                Some(m) => seq![m],
                None => Seq::<StoredMonitorView>::empty(),
            };
            assert(device_entries(cursor@) == here + device_entries(rest@));
            assert(before + (here + device_entries(rest@)) =~= (before + here) + device_entries(rest@));
        }
        cursor = rest;
    }
}

/// The stored settings to start from: the settings file when there is one, else
/// TheGriddler's settings when there are some, else the defaults.
pub open spec fn spec_stored_from_files(
    settings_file: Option<Seq<char>>,
    griddler_file: Option<Seq<char>>,
) -> StoredSettingsView {
    match settings_file {
        Some(c) => crate::settings_file::spec_parse_settings(c),
        None => match griddler_file {
            Some(j) => spec_parse_griddler(j),
            None => spec_default_stored(),
        },
    }
}

pub fn stored_settings_from_files(settings_file: Option<&str>, griddler_file: Option<&str>) -> (s:
    StoredSettings)
    ensures
        s@ == spec_stored_from_files(
            match settings_file {
                Some(c) => Some(c@),
                None => None,
            },
            match griddler_file {
                Some(j) => Some(j@),
                None => None,
            },
        ),
{
    match settings_file {
        Some(c) => crate::settings_file::parse_settings(c),
        None => match griddler_file {
            Some(j) => parse_griddler_settings(j),
            None => default_stored_settings(),
        },
    }
}

/// TheGriddler's startup and theme choices are taken over as they are: a boolean
/// `IsDarkMode` decides the theme (dark when there is none), and `RunOnStartup` the startup
/// choice (none when there is none).
pub proof fn lemma_griddler_choices(contents: Seq<char>)
    ensures
        spec_json_bool(contents, "IsDarkMode"@) matches Some(b) ==> spec_parse_griddler(
            contents,
        ).is_dark_mode == Some(b),
        spec_json_bool(contents, "IsDarkMode"@) is None ==> spec_parse_griddler(
            contents,
        ).is_dark_mode == Some(true),
        spec_parse_griddler(contents).run_on_startup == spec_json_bool(contents, "RunOnStartup"@),
{
}

} // verus!
