//! The `settings.ini` format: one `key=value` per line, with one `monitor=` line per monitor.
use vstd::prelude::*;

use crate::color::{
    is_settled_color, lemma_settled_color_fixed, migrate_default_color, DEFAULT_GRID_COLOR,
    DEFAULT_SELECTION_BORDER_COLOR, DEFAULT_SELECTION_COLOR,
};
use crate::settings::{
    find_stored_from, spec_merge, spec_stored_from_data, MAX_GRID_SETTING,
    MIN_GRID_SETTING, spec_default_stored, spec_stored_monitor, stored_monitors_view, default_stored_settings,
    MonitorView, SettingsData, SettingsView, StoredMonitorConfig, StoredMonitorView,
    StoredSettings, StoredSettingsView,
};
use crate::text::{
    is_trimmed, lemma_decimal_digits, lemma_parse_decimal,
    lemma_trimmed_fixed, char_index, chars_equal, chars_of, copy_range, decimal,
    eq_ignore_ascii_case, equal_ignoring_ascii_case, find_char, lemma_char_index_absent,
    lemma_char_index_at, lemma_char_index_from, lines, parse_u16, parse_u16_chars, push_chars,
    push_decimal, split_chars, split_on, string_of, strip_cr, trim, trimmed,
};

verus! {

pub open spec fn or_two(v: Option<u16>) -> u16 {
    match v {
        Some(n) => n,
        None => 2,
    }
}

/// The stored monitor that a `monitor=` value describes: `device|name|columns|rows`, with
/// columns or rows of 2 where they do not read as numbers. Values with fewer than four
/// parts describe nothing.
pub open spec fn spec_monitor_value(value: Seq<char>) -> Option<StoredMonitorView> {
    let parts = split_on(value, '|');
    if parts.len() >= 4 {
        Some(
            StoredMonitorView {
                device_name: parts[0],
                display_name: parts[1],
                columns: or_two(parse_u16(parts[2])),
                rows: or_two(parse_u16(parts[3])),
            },
        )
    } else {
        None
    }
}

/// What one line of the settings file changes. Lines without `=` and unknown keys change nothing.
pub open spec fn apply_setting_line(st: StoredSettingsView, line: Seq<char>) -> StoredSettingsView {
    match char_index(line, '=') {
        None => st,
        Some(i) => {
            let key = trim(line.take(i));
            let value = line.skip(i + 1);
            if key == "grid_color"@ {
                StoredSettingsView { grid_color: trim(value), ..st }
            } else if key == "selection_color"@ {
                StoredSettingsView { selection_color: trim(value), ..st }
            } else if key == "selection_border_color"@ {
                StoredSettingsView { selection_border_color: trim(value), ..st }
            } else if key == "run_on_startup"@ {
                StoredSettingsView {
                    run_on_startup: Some(eq_ignore_ascii_case(trim(value), "true"@)),
                    ..st
                }
            } else if key == "is_dark_mode"@ {
                StoredSettingsView {
                    is_dark_mode: Some(eq_ignore_ascii_case(trim(value), "true"@)),
                    ..st
                }
            } else if key == "monitor"@ {
                match spec_monitor_value(value) {
                    Some(m) => StoredSettingsView { monitors: st.monitors.push(m), ..st },
                    None => st,
                }
            } else {
                st
            }
        },
    }
}

pub open spec fn apply_setting_lines(st: StoredSettingsView, ls: Seq<Seq<char>>) -> StoredSettingsView
    decreases ls.len(),
{
    if ls.len() == 0 {
        st
    } else {
        apply_setting_lines(apply_setting_line(st, ls[0]), ls.drop_first())
    }
}

/// The stored settings a settings file holds: the defaults, changed by each line in turn.
pub open spec fn spec_parse_settings(contents: Seq<char>) -> StoredSettingsView {
    apply_setting_lines(spec_default_stored(), lines(contents))
}

pub open spec fn bool_text(b: bool) -> Seq<char> {
    if b {
        "true"@
    } else {
        "false"@
    }
}

pub open spec fn monitor_line(m: MonitorView) -> Seq<char> {
    "monitor="@ + m.device_name + "|"@ + m.display_name + "|"@ + decimal(m.columns as nat) + "|"@
        + decimal(m.rows as nat) + "\n"@
}

pub open spec fn monitor_lines(ms: Seq<MonitorView>) -> Seq<char>
    decreases ms.len(),
{
    if ms.len() == 0 {
        Seq::empty()
    } else {
        monitor_lines(ms.drop_last()) + monitor_line(ms.last())
    }
}

/// The settings file written for live settings.
pub open spec fn spec_settings_text(s: SettingsView) -> Seq<char> {
    "grid_color="@ + s.grid_color + "\n"@ + "selection_color="@ + s.selection_color + "\n"@
        + "selection_border_color="@ + s.selection_border_color + "\n"@ + "run_on_startup="@
        + bool_text(s.run_on_startup) + "\n"@ + "is_dark_mode="@ + bool_text(s.is_dark_mode)
        + "\n"@ + monitor_lines(s.monitors)
}

fn owned_chars(s: &str) -> (v: Vec<char>)
    ensures
        v@ == s@,
{
    chars_of(s)
}

/// The stored monitor a `monitor=` value describes.
fn monitor_from_value(value: &[char]) -> (r: Option<StoredMonitorConfig>)
    ensures
        match (r, spec_monitor_value(value@)) {
            (Some(m), Some(v)) => m@ == v,
            (None, None) => true,
            _ => false,
        },
{
    let parts = split_chars(value, '|');
    proof {
        assert(parts@.map_values(|p: Vec<char>| p@).len() == parts@.len());
    }
    if parts.len() < 4 {
        return None;
    }
    proof {
        assert(parts@.map_values(|p: Vec<char>| p@)[0] == parts@[0]@);
        assert(parts@.map_values(|p: Vec<char>| p@)[1] == parts@[1]@);
        assert(parts@.map_values(|p: Vec<char>| p@)[2] == parts@[2]@);
        assert(parts@.map_values(|p: Vec<char>| p@)[3] == parts@[3]@);
    }
    let columns = match parse_u16_chars(parts[2].as_slice()) {
        Some(n) => n,
        None => 2,
    };
    let rows = match parse_u16_chars(parts[3].as_slice()) {
        Some(n) => n,
        None => 2,
    };
    Some(
        StoredMonitorConfig {
            device_name: string_of(parts[0].as_slice()),
            display_name: string_of(parts[1].as_slice()),
            columns,
            rows,
        },
    )
}

fn key_is(key: &[char], name: &str) -> (b: bool)
    ensures
        b == (key@ == name@),
{
    let n = owned_chars(name);
    chars_equal(key, n.as_slice())
}

/// Applies one line of the settings file.
pub fn apply_settings_line(settings: &mut StoredSettings, line: &[char])
    ensures
        final(settings)@ == apply_setting_line(old(settings)@, line@),
{
    let eq = match find_char(line, '=', 0) {
        Some(i) => i,
        None => return,
    };
    let key = trimmed(copy_range(line, 0, eq).as_slice());
    let value = copy_range(line, eq + 1, line.len());
    proof {
        assert(line@.take(eq as int) =~= line@.subrange(0, eq as int));
        assert(line@.skip(eq + 1) =~= line@.subrange(eq + 1, line.len() as int));
    }
    if key_is(key.as_slice(), "grid_color") {
        settings.grid_color = string_of(trimmed(value.as_slice()).as_slice());
    } else if key_is(key.as_slice(), "selection_color") {
        settings.selection_color = string_of(trimmed(value.as_slice()).as_slice());
    } else if key_is(key.as_slice(), "selection_border_color") {
        settings.selection_border_color = string_of(trimmed(value.as_slice()).as_slice());
    } else if key_is(key.as_slice(), "run_on_startup") {
        let t = owned_chars("true");
        settings.run_on_startup = Some(
            equal_ignoring_ascii_case(trimmed(value.as_slice()).as_slice(), t.as_slice()),
        );
    } else if key_is(key.as_slice(), "is_dark_mode") {
        let t = owned_chars("true");
        settings.is_dark_mode = Some(
            equal_ignoring_ascii_case(trimmed(value.as_slice()).as_slice(), t.as_slice()),
        );
    } else if key_is(key.as_slice(), "monitor") {
        match monitor_from_value(value.as_slice()) {
            Some(m) => {
                let ghost before = stored_monitors_view(settings.monitors@);
                settings.monitors.push(m);
                proof {
                    assert(stored_monitors_view(settings.monitors@) =~= before.push(m@));
                }
            },
            None => {},
        }
    }
}

/// Reads settings from the text of a settings file.
pub fn parse_settings(contents: &str) -> (s: StoredSettings)
    ensures
        s@ == spec_parse_settings(contents@),
{
    let cs = chars_of(contents);
    let mut settings = default_stored_settings();
    let mut pos: usize = 0;
    proof {
        assert(cs@.skip(0) =~= cs@);
    }
    while pos < cs.len()
        invariant
            pos <= cs.len(),
            cs@ == contents@,
            spec_parse_settings(contents@) == apply_setting_lines(
                settings@,
                lines(cs@.skip(pos as int)),
            ),
        decreases cs.len() - pos,
    {
        let ghost rest = cs@.skip(pos as int);
        let end = match find_char(cs.as_slice(), '\n', pos) {
            Some(i) => i,
            None => cs.len(),
        };
        proof {
            lemma_char_index_from(cs@, '\n', pos as int);
            if end < cs.len() {
                lemma_char_index_at(rest, '\n', end - pos, 0);
            } else {
                lemma_char_index_absent(rest, '\n', 0);
            }
            assert(rest.take(end - pos) =~= cs@.subrange(pos as int, end as int));
        }
        let mut line = copy_range(cs.as_slice(), pos, end);
        if end < cs.len() && line.len() > 0 && line[line.len() - 1] == '\r' {
            line.pop();
            proof {
                assert(line@ =~= cs@.subrange(pos as int, end as int).drop_last());
            }
        }
        let ghost before = settings@;
        apply_settings_line(&mut settings, line.as_slice());
        proof {
            if end < cs.len() {
                assert(line@ == strip_cr(rest.take(end - pos)));
                assert(rest.skip(end - pos + 1) =~= cs@.skip(end + 1));
                assert(lines(rest) == seq![line@] + lines(cs@.skip(end + 1)));
                assert((seq![line@] + lines(cs@.skip(end + 1))).drop_first() =~= lines(
                    cs@.skip(end + 1),
                ));
            } else {
                assert(lines(rest) == seq![rest]);
                assert(rest =~= cs@.subrange(pos as int, end as int));
                assert(cs@.skip(cs.len() as int) =~= Seq::<char>::empty());
                assert(seq![rest].drop_first() =~= Seq::<Seq<char>>::empty());
            }
        }
        pos = if end < cs.len() {
            end + 1
        } else {
            cs.len()
        };
        proof {
            let ls = lines(rest);
            assert(ls[0] == line@);
            assert(ls.drop_first() =~= lines(cs@.skip(pos as int)));
            assert(apply_setting_lines(before, ls) == apply_setting_lines(
                apply_setting_line(before, ls[0]),
                ls.drop_first(),
            ));
        }
    }
    proof {
        assert(cs@.skip(pos as int) =~= Seq::<char>::empty());
    }
    settings
}

fn push_str_chars(out: &mut String, text: &str)
    ensures
        final(out)@ == old(out)@ + text@,
{
    let cs = owned_chars(text);
    push_chars(out, cs.as_slice());
}

fn push_bool(out: &mut String, b: bool)
    ensures
        final(out)@ == old(out)@ + bool_text(b),
{
    if b {
        push_str_chars(out, "true");
    } else {
        push_str_chars(out, "false");
    }
}

fn push_string(out: &mut String, text: &String)
    ensures
        final(out)@ == old(out)@ + text@,
{
    push_str_chars(out, text.as_str());
}

/// The text of the settings file for live settings.
pub fn settings_text(settings: &SettingsData) -> (text: String)
    ensures
        text@ == spec_settings_text(settings@),
{
    let mut out = String::new();
    push_str_chars(&mut out, "grid_color=");
    push_string(&mut out, &settings.grid_color);
    push_str_chars(&mut out, "\n");
    push_str_chars(&mut out, "selection_color=");
    push_string(&mut out, &settings.selection_color);
    push_str_chars(&mut out, "\n");
    push_str_chars(&mut out, "selection_border_color=");
    push_string(&mut out, &settings.selection_border_color);
    push_str_chars(&mut out, "\n");
    push_str_chars(&mut out, "run_on_startup=");
    push_bool(&mut out, settings.run_on_startup);
    push_str_chars(&mut out, "\n");
    push_str_chars(&mut out, "is_dark_mode=");
    push_bool(&mut out, settings.is_dark_mode);
    push_str_chars(&mut out, "\n");
    let ghost header = out@;
    proof {
        assert(header == spec_settings_text(settings@).subrange(0, header.len() as int)) by {
            assert(spec_settings_text(settings@) =~= header + monitor_lines(settings@.monitors));
        }
    }
    let ghost ms = settings@.monitors;
    let mut i: usize = 0;
    while i < settings.monitors.len()
        invariant
            i <= settings.monitors.len(),
            ms == settings@.monitors,
            ms.len() == settings.monitors@.len(),
            out@ == header + monitor_lines(ms.take(i as int)),
        decreases settings.monitors.len() - i,
    {
        let m = &settings.monitors[i];
        proof {
            assert(ms[i as int] == m@);
        }
        push_str_chars(&mut out, "monitor=");
        push_string(&mut out, &m.device_name);
        push_str_chars(&mut out, "|");
        push_string(&mut out, &m.display_name);
        push_str_chars(&mut out, "|");
        push_decimal(&mut out, m.columns as u64);
        push_str_chars(&mut out, "|");
        push_decimal(&mut out, m.rows as u64);
        push_str_chars(&mut out, "\n");
        i += 1;
        proof {
            assert(ms.take(i as int).drop_last() =~= ms.take(i - 1));
            assert(ms.take(i as int).last() == m@);
            assert(out@ =~= header + monitor_lines(ms.take(i as int)));
        }
    }
    proof {
        assert(ms.take(ms.len() as int) =~= ms);
        assert(spec_settings_text(settings@) =~= header + monitor_lines(ms));
    }
    out
}

/// `c` does not occur in `s`.
pub open spec fn lacks(s: Seq<char>, c: char) -> bool {
    forall|k: int| 0 <= k < s.len() ==> s[k] != c
}

/// A line followed by a newline is read back as that line.
proof fn lemma_lines_cons(l: Seq<char>, rest: Seq<char>)
    requires
        lacks(l, '\n'),
        l.len() == 0 || l.last() != '\r',
    ensures
        lines(l + "\n"@ + rest) == seq![l] + lines(rest),
{
    reveal_strlit("\n");
    let s = l + "\n"@ + rest;
    assert(s[l.len() as int] == '\n');
    assert forall|k: int| 0 <= k < l.len() implies s[k] != '\n' by {
        assert(s[k] == l[k]);
    }
    lemma_char_index_at(s, '\n', l.len() as int, 0);
    assert(s.take(l.len() as int) =~= l);
    assert(s.skip(l.len() as int + 1) =~= rest);
}

/// Text that ends each line with a newline reads as its lines followed by what comes after.
proof fn lemma_lines_append(a: Seq<char>, b: Seq<char>)
    requires
        a.len() == 0 || a.last() == '\n',
    ensures
        lines(a + b) == lines(a) + lines(b),
    decreases a.len(),
{
    if a.len() == 0 {
        assert(a + b =~= b);
        assert(lines(a) + lines(b) =~= lines(b));
    } else {
        lemma_char_index_from(a, '\n', 0);
        let i = char_index(a, '\n')->0;
        let s = a + b;
        assert forall|k: int| 0 <= k < i implies s[k] != '\n' by {
            assert(s[k] == a[k]);
        }
        assert(s[i] == '\n');
        lemma_char_index_at(s, '\n', i, 0);
        assert(s.take(i) =~= a.take(i));
        let a2 = a.skip(i + 1);
        assert(s.skip(i + 1) =~= a2 + b);
        lemma_lines_append(a2, b);
        assert(lines(a) == seq![strip_cr(a.take(i))] + lines(a2));
        assert(lines(s) == seq![strip_cr(a.take(i))] + lines(a2 + b));
        assert(lines(s) =~= lines(a) + lines(b));
    }
}

/// Applying lines one after another.
proof fn lemma_apply_lines_append(st: StoredSettingsView, a: Seq<Seq<char>>, b: Seq<Seq<char>>)
    ensures
        apply_setting_lines(st, a + b) == apply_setting_lines(apply_setting_lines(st, a), b),
    decreases a.len(),
{
    if a.len() == 0 {
        assert(a + b =~= b);
    } else {
        assert((a + b)[0] == a[0]);
        assert((a + b).drop_first() =~= a.drop_first() + b);
        lemma_apply_lines_append(apply_setting_line(st, a[0]), a.drop_first(), b);
    }
}

/// A color or other single-line value that the settings file keeps exactly.
pub open spec fn is_writable_value(v: Seq<char>) -> bool {
    is_trimmed(v) && lacks(v, '\n')
}

/// A monitor name that the settings file keeps exactly.
pub open spec fn is_writable_name(v: Seq<char>) -> bool {
    lacks(v, '\n') && lacks(v, '|')
}

/// Every monitor name can be written to the settings file.
pub open spec fn all_names_writable(ms: Seq<MonitorView>) -> bool {
    forall|i: int|
        0 <= i < ms.len() ==> is_writable_name(#[trigger] ms[i].device_name) && is_writable_name(
            ms[i].display_name,
        )
}

/// Live settings that the settings file can hold without loss.
pub open spec fn is_writable(s: SettingsView) -> bool {
    &&& is_writable_value(s.grid_color)
    &&& is_writable_value(s.selection_color)
    &&& is_writable_value(s.selection_border_color)
    &&& all_names_writable(s.monitors)
}

/// The `key=value` line splits back into its key and value.
proof fn lemma_line_key(prefix: Seq<char>, key: Seq<char>, value: Seq<char>)
    requires
        prefix == key + "="@,
        lacks(key, '='),
        is_trimmed(key),
    ensures
        char_index(prefix + value, '=') == Some(key.len() as int),
        trim((prefix + value).take(key.len() as int)) == key,
        (prefix + value).skip(key.len() as int + 1) == value,
{
    reveal_strlit("=");
    let line = prefix + value;
    assert forall|k: int| 0 <= k < key.len() implies line[k] != '=' by {
        assert(line[k] == key[k]);
    }
    assert(line[key.len() as int] == '=');
    lemma_char_index_at(line, '=', key.len() as int, 0);
    assert(line.take(key.len() as int) =~= key);
    lemma_trimmed_fixed(key);
    assert(line.skip(key.len() as int + 1) =~= value);
}

proof fn lemma_split_cons(a: Seq<char>, rest: Seq<char>)
    requires
        lacks(a, '|'),
    ensures
        split_on(a + "|"@ + rest, '|') == seq![a] + split_on(rest, '|'),
{
    reveal_strlit("|");
    let s = a + "|"@ + rest;
    assert forall|k: int| 0 <= k < a.len() implies s[k] != '|' by {
        assert(s[k] == a[k]);
    }
    assert(s[a.len() as int] == '|');
    lemma_char_index_at(s, '|', a.len() as int, 0);
    assert(s.take(a.len() as int) =~= a);
    assert(s.skip(a.len() as int + 1) =~= rest);
}

proof fn lemma_split_single(a: Seq<char>)
    requires
        lacks(a, '|'),
    ensures
        split_on(a, '|') == seq![a],
{
    lemma_char_index_absent(a, '|', 0);
}

proof fn lemma_decimal_lacks(n: nat, c: char)
    requires
        !('0' <= c && c <= '9'),
    ensures
        lacks(decimal(n), c),
        decimal(n).len() > 0,
        decimal(n).last() != '\r',
{
    lemma_decimal_digits(n);
    assert forall|k: int| 0 <= k < decimal(n).len() implies decimal(n)[k] != c by {
        assert(crate::text::is_ascii_digit(decimal(n)[k]));
    }
    assert(crate::text::is_ascii_digit(decimal(n)[decimal(n).len() - 1]));
}

/// A monitor's line without its newline.
pub open spec fn monitor_entry(m: MonitorView) -> Seq<char> {
    "monitor="@ + (m.device_name + "|"@ + m.display_name + "|"@ + decimal(m.columns as nat) + "|"@
        + decimal(m.rows as nat))
}

/// A monitor's line reads back as the monitor's stored settings.
proof fn lemma_monitor_entry(st: StoredSettingsView, m: MonitorView)
    requires
        is_writable_name(m.device_name),
        is_writable_name(m.display_name),
    ensures
        apply_setting_line(st, monitor_entry(m)) == (StoredSettingsView {
            monitors: st.monitors.push(spec_stored_monitor(m)),
            ..st
        }),
        monitor_line(m) == monitor_entry(m) + "\n"@,
        lacks(monitor_entry(m), '\n'),
        monitor_entry(m).last() != '\r',
{
    reveal_strlit("monitor=");
    reveal_strlit("monitor");
    reveal_strlit("grid_color");
    reveal_strlit("selection_color");
    reveal_strlit("selection_border_color");
    reveal_strlit("run_on_startup");
    reveal_strlit("is_dark_mode");
    reveal_strlit("=");
    reveal_strlit("|");
    reveal_strlit("\n");
    let value = m.device_name + "|"@ + m.display_name + "|"@ + decimal(m.columns as nat) + "|"@
        + decimal(m.rows as nat);
    assert("monitor="@ =~= "monitor"@ + "="@);
    assert(is_trimmed("monitor"@));
    lemma_line_key("monitor="@, "monitor"@, value);
    lemma_decimal_lacks(m.columns as nat, '|');
    lemma_decimal_lacks(m.rows as nat, '|');
    lemma_decimal_lacks(m.rows as nat, '\n');
    lemma_parse_decimal(m.columns);
    lemma_parse_decimal(m.rows);
    let tail2 = decimal(m.columns as nat) + "|"@ + decimal(m.rows as nat);
    let tail1 = m.display_name + "|"@ + tail2;
    assert(value =~= m.device_name + "|"@ + tail1);
    assert(tail1 =~= m.display_name + "|"@ + tail2);
    lemma_split_cons(m.device_name, tail1);
    lemma_split_cons(m.display_name, tail2);
    lemma_split_cons(decimal(m.columns as nat), decimal(m.rows as nat));
    lemma_split_single(decimal(m.rows as nat));
    let parts = split_on(value, '|');
    assert(parts =~= seq![m.device_name, m.display_name, decimal(m.columns as nat), decimal(m.rows as nat)]);
    assert(monitor_line(m) =~= monitor_entry(m) + "\n"@);
    let e = monitor_entry(m);
    assert(e.last() == decimal(m.rows as nat).last());
    assert forall|k: int| 0 <= k < e.len() implies e[k] != '\n' by {
        if k < 8 {
        } else if k < 8 + m.device_name.len() {
            assert(e[k] == m.device_name[k - 8]);
        } else if k == 8 + m.device_name.len() {
        } else if k < 9 + m.device_name.len() + m.display_name.len() {
            assert(e[k] == m.display_name[k - 9 - m.device_name.len()]);
        } else if k == 9 + m.device_name.len() + m.display_name.len() {
        } else if k < 10 + m.device_name.len() + m.display_name.len() + decimal(m.columns as nat).len() {
            assert(e[k] == decimal(m.columns as nat)[k - 10 - m.device_name.len() - m.display_name.len()]);
            lemma_decimal_lacks(m.columns as nat, '\n');
        } else if k == 10 + m.device_name.len() + m.display_name.len() + decimal(m.columns as nat).len() {
        } else {
            assert(e[k] == decimal(m.rows as nat)[k - 11 - m.device_name.len() - m.display_name.len()
                - decimal(m.columns as nat).len()]);
        }
    }
}

/// The monitor lines read back as one entry per monitor, in order.
proof fn lemma_monitor_lines(ms: Seq<MonitorView>)
    requires
        all_names_writable(ms),
    ensures
        lines(monitor_lines(ms)) == ms.map_values(|m: MonitorView| monitor_entry(m)),
        monitor_lines(ms).len() == 0 || monitor_lines(ms).last() == '\n',
    decreases ms.len(),
{
    reveal_strlit("\n");
    if ms.len() > 0 {
        let prefix = ms.drop_last();
        let m = ms.last();
        assert(all_names_writable(prefix)) by {
            assert forall|i: int| 0 <= i < prefix.len() implies is_writable_name(
                #[trigger] prefix[i].device_name,
            ) && is_writable_name(prefix[i].display_name) by {
                assert(prefix[i] == ms[i]);
            }
        }
        assert(is_writable_name(ms[ms.len() - 1].device_name));
        lemma_monitor_lines(prefix);
        lemma_monitor_entry(spec_default_stored(), m);
        lemma_lines_append(monitor_lines(prefix), monitor_line(m));
        lemma_lines_cons(monitor_entry(m), Seq::empty());
        assert(monitor_entry(m) + "\n"@ + Seq::<char>::empty() =~= monitor_line(m));
        assert(lines(Seq::<char>::empty()) =~= Seq::<Seq<char>>::empty());
        assert(ms.map_values(|m: MonitorView| monitor_entry(m)) =~= prefix.map_values(
            |m: MonitorView| monitor_entry(m),
        ) + seq![monitor_entry(m)]);
        assert(monitor_lines(ms).last() == monitor_line(m).last());
    } else {
        assert(ms.map_values(|m: MonitorView| monitor_entry(m)) =~= Seq::<Seq<char>>::empty());
    }
}

/// Reading the monitor entries appends each monitor's stored settings in order.
proof fn lemma_apply_monitor_entries(st: StoredSettingsView, ms: Seq<MonitorView>)
    requires
        all_names_writable(ms),
    ensures
        apply_setting_lines(st, ms.map_values(|m: MonitorView| monitor_entry(m))) == (
        StoredSettingsView {
            monitors: st.monitors + ms.map_values(|m: MonitorView| spec_stored_monitor(m)),
            ..st
        }),
    decreases ms.len(),
{
    if ms.len() == 0 {
        assert(ms.map_values(|m: MonitorView| monitor_entry(m)) =~= Seq::<Seq<char>>::empty());
        assert(st.monitors + ms.map_values(|m: MonitorView| spec_stored_monitor(m)) =~= st.monitors);
    } else {
        let prefix = ms.drop_last();
        let m = ms.last();
        assert(all_names_writable(prefix)) by {
            assert forall|i: int| 0 <= i < prefix.len() implies is_writable_name(
                #[trigger] prefix[i].device_name,
            ) && is_writable_name(prefix[i].display_name) by {
                assert(prefix[i] == ms[i]);
            }
        }
        assert(is_writable_name(ms[ms.len() - 1].device_name));
        lemma_apply_monitor_entries(st, prefix);
        let entries = prefix.map_values(|m: MonitorView| monitor_entry(m));
        assert(ms.map_values(|m: MonitorView| monitor_entry(m)) =~= entries + seq![monitor_entry(m)]);
        lemma_apply_lines_append(st, entries, seq![monitor_entry(m)]);
        let mid = apply_setting_lines(st, entries);
        lemma_monitor_entry(mid, m);
        assert(seq![monitor_entry(m)].drop_first() =~= Seq::<Seq<char>>::empty());
        assert(seq![monitor_entry(m)][0] == monitor_entry(m));
        assert(apply_setting_lines(apply_setting_line(mid, monitor_entry(m)), Seq::empty())
            == apply_setting_line(mid, monitor_entry(m)));
        assert(apply_setting_lines(mid, seq![monitor_entry(m)]) == apply_setting_line(
            mid,
            monitor_entry(m),
        ));
        assert(st.monitors + ms.map_values(|m: MonitorView| spec_stored_monitor(m)) =~= (st.monitors
            + prefix.map_values(|m: MonitorView| spec_stored_monitor(m))).push(
            spec_stored_monitor(m),
        ));
    }
}

/// The header lines of the settings file, without their newlines.
pub open spec fn header_lines(s: SettingsView) -> Seq<Seq<char>> {
    seq![
        "grid_color="@ + s.grid_color,
        "selection_color="@ + s.selection_color,
        "selection_border_color="@ + s.selection_border_color,
        "run_on_startup="@ + bool_text(s.run_on_startup),
        "is_dark_mode="@ + bool_text(s.is_dark_mode),
    ]
}

proof fn lemma_value_line_lacks_newline(prefix: Seq<char>, value: Seq<char>)
    requires
        lacks(prefix, '\n'),
        prefix.len() > 0,
        prefix.last() != '\r',
        is_writable_value(value),
    ensures
        lacks(prefix + value, '\n'),
        (prefix + value).last() != '\r',
{
    let l = prefix + value;
    assert forall|k: int| 0 <= k < l.len() implies l[k] != '\n' by {
        if k >= prefix.len() {
            assert(l[k] == value[k - prefix.len()]);
        } else {
            assert(l[k] == prefix[k]);
        }
    }
    if value.len() > 0 {
        assert(l.last() == value.last());
    }
}

#[verifier::rlimit(60)]
proof fn lemma_settings_text_lines(s: SettingsView)
    requires
        is_writable(s),
    ensures
        lines(spec_settings_text(s)) == header_lines(s) + s.monitors.map_values(
            |m: MonitorView| monitor_entry(m),
        ),
{
    reveal_strlit("grid_color=");
    reveal_strlit("selection_color=");
    reveal_strlit("selection_border_color=");
    reveal_strlit("run_on_startup=");
    reveal_strlit("is_dark_mode=");
    reveal_strlit("true");
    reveal_strlit("false");
    reveal_strlit("\n");
    let l1 = "grid_color="@ + s.grid_color;
    let l2 = "selection_color="@ + s.selection_color;
    let l3 = "selection_border_color="@ + s.selection_border_color;
    let l4 = "run_on_startup="@ + bool_text(s.run_on_startup);
    let l5 = "is_dark_mode="@ + bool_text(s.is_dark_mode);
    let ms_text = monitor_lines(s.monitors);
    let nl = "\n"@;
    assert(spec_settings_text(s) =~= l1 + nl + (l2 + nl + (l3 + nl + (l4 + nl + (l5 + nl
        + ms_text)))));
    assert(all_names_writable(s.monitors));
    lemma_monitor_lines(s.monitors);
    lemma_value_line_lacks_newline("grid_color="@, s.grid_color);
    lemma_value_line_lacks_newline("selection_color="@, s.selection_color);
    lemma_value_line_lacks_newline("selection_border_color="@, s.selection_border_color);
    assert(is_writable_value(bool_text(s.run_on_startup)));
    assert(is_writable_value(bool_text(s.is_dark_mode)));
    lemma_value_line_lacks_newline("run_on_startup="@, bool_text(s.run_on_startup));
    lemma_value_line_lacks_newline("is_dark_mode="@, bool_text(s.is_dark_mode));
    lemma_lines_cons(l5, ms_text);
    lemma_lines_cons(l4, l5 + nl + ms_text);
    lemma_lines_cons(l3, l4 + nl + (l5 + nl + ms_text));
    lemma_lines_cons(l2, l3 + nl + (l4 + nl + (l5 + nl + ms_text)));
    lemma_lines_cons(l1, l2 + nl + (l3 + nl + (l4 + nl + (l5 + nl + ms_text))));
    assert(lines(spec_settings_text(s)) =~= header_lines(s) + s.monitors.map_values(
        |m: MonitorView| monitor_entry(m),
    ));
}

proof fn lemma_header_apply(s: SettingsView)
    requires
        is_writable(s),
    ensures
        apply_setting_lines(spec_default_stored(), header_lines(s)) == (StoredSettingsView {
            monitors: Seq::empty(),
            grid_color: s.grid_color,
            selection_color: s.selection_color,
            selection_border_color: s.selection_border_color,
            run_on_startup: Some(s.run_on_startup),
            is_dark_mode: Some(s.is_dark_mode),
        }),
{
    reveal_strlit("grid_color=");
    reveal_strlit("selection_color=");
    reveal_strlit("selection_border_color=");
    reveal_strlit("run_on_startup=");
    reveal_strlit("is_dark_mode=");
    reveal_strlit("grid_color");
    reveal_strlit("selection_color");
    reveal_strlit("selection_border_color");
    reveal_strlit("run_on_startup");
    reveal_strlit("is_dark_mode");
    reveal_strlit("monitor");
    reveal_strlit("true");
    reveal_strlit("false");
    reveal_strlit("=");
    let h = header_lines(s);
    assert(is_trimmed("grid_color"@));
    assert(is_trimmed("selection_color"@));
    assert(is_trimmed("selection_border_color"@));
    assert(is_trimmed("run_on_startup"@));
    assert(is_trimmed("is_dark_mode"@));
    assert("grid_color="@ =~= "grid_color"@ + "="@);
    assert("selection_color="@ =~= "selection_color"@ + "="@);
    assert("selection_border_color="@ =~= "selection_border_color"@ + "="@);
    assert("run_on_startup="@ =~= "run_on_startup"@ + "="@);
    assert("is_dark_mode="@ =~= "is_dark_mode"@ + "="@);
    lemma_line_key("grid_color="@, "grid_color"@, s.grid_color);
    lemma_line_key("selection_color="@, "selection_color"@, s.selection_color);
    lemma_line_key("selection_border_color="@, "selection_border_color"@, s.selection_border_color);
    lemma_line_key("run_on_startup="@, "run_on_startup"@, bool_text(s.run_on_startup));
    lemma_line_key("is_dark_mode="@, "is_dark_mode"@, bool_text(s.is_dark_mode));
    lemma_trimmed_fixed(s.grid_color);
    lemma_trimmed_fixed(s.selection_color);
    lemma_trimmed_fixed(s.selection_border_color);
    lemma_trimmed_fixed(bool_text(s.run_on_startup));
    lemma_trimmed_fixed(bool_text(s.is_dark_mode));
    assert(eq_ignore_ascii_case("true"@, "true"@));
    assert(!eq_ignore_ascii_case("false"@, "true"@));
    let d = spec_default_stored();
    let st1 = apply_setting_line(d, h[0]);
    let st2 = apply_setting_line(st1, h[1]);
    let st3 = apply_setting_line(st2, h[2]);
    let st4 = apply_setting_line(st3, h[3]);
    let st5 = apply_setting_line(st4, h[4]);
    assert(h.drop_first() =~= seq![h[1], h[2], h[3], h[4]]);
    assert(h.drop_first().drop_first() =~= seq![h[2], h[3], h[4]]);
    assert(h.drop_first().drop_first().drop_first() =~= seq![h[3], h[4]]);
    assert(h.drop_first().drop_first().drop_first().drop_first() =~= seq![h[4]]);
    assert(seq![h[4]].drop_first() =~= Seq::<Seq<char>>::empty());
    assert(apply_setting_lines(st5, Seq::empty()) == st5);
    assert(apply_setting_lines(st4, seq![h[4]]) == st5);
    assert(apply_setting_lines(st3, seq![h[3], h[4]]) == st5);
    assert(apply_setting_lines(st2, seq![h[2], h[3], h[4]]) == st5);
    assert(apply_setting_lines(st1, seq![h[1], h[2], h[3], h[4]]) == st5);
    assert(apply_setting_lines(d, h) == st5);
}

/// Writing live settings to the settings file and reading the file back gives their stored
/// form, for settings whose colors are trimmed single-line values and whose monitor names
/// hold no newline or `|`.
pub proof fn lemma_settings_round_trip(s: SettingsView)
    requires
        is_writable(s),
    ensures
        spec_parse_settings(spec_settings_text(s)) == crate::settings::spec_stored_from_data(s),
{
    let d = spec_default_stored();
    let entries = s.monitors.map_values(|m: MonitorView| monitor_entry(m));
    lemma_settings_text_lines(s);
    lemma_apply_lines_append(d, header_lines(s), entries);
    lemma_header_apply(s);
    assert(all_names_writable(s.monitors));
    let st5 = apply_setting_lines(d, header_lines(s));
    lemma_apply_monitor_entries(st5, s.monitors);
    assert(Seq::<StoredMonitorView>::empty() + s.monitors.map_values(
        |m: MonitorView| spec_stored_monitor(m),
    ) =~= s.monitors.map_values(|m: MonitorView| spec_stored_monitor(m)));
}

/// No two monitors have the same device name.
pub open spec fn distinct_devices(ms: Seq<MonitorView>) -> bool {
    forall|i: int, j: int|
        0 <= i < j < ms.len() ==> #[trigger] ms[i].device_name != #[trigger] ms[j].device_name
}

/// Every grid size lies in the range that the settings accept.
pub open spec fn grid_sizes_in_range(ms: Seq<MonitorView>) -> bool {
    forall|i: int|
        0 <= i < ms.len() ==> MIN_GRID_SETTING <= #[trigger] ms[i].columns <= MAX_GRID_SETTING
            && MIN_GRID_SETTING <= ms[i].rows <= MAX_GRID_SETTING
}

/// A color setting that loading gives back unchanged: settled, and not a color that used
/// to be a default.
pub open spec fn is_kept_color(c: Seq<char>) -> bool {
    is_settled_color(c) && migrate_default_color(c) == c
}

/// Live settings that saving and loading again, with the same monitors attached, gives back.
pub open spec fn is_reloadable(s: SettingsView) -> bool {
    &&& is_writable(s)
    &&& s.monitors.len() > 0
    &&& distinct_devices(s.monitors)
    &&& grid_sizes_in_range(s.monitors)
    &&& is_kept_color(s.grid_color)
    &&& is_kept_color(s.selection_color)
    &&& is_kept_color(s.selection_border_color)
}

proof fn lemma_find_own_entry(ms: Seq<MonitorView>, i: int, from: int)
    requires
        distinct_devices(ms),
        0 <= from <= i < ms.len(),
    ensures
        find_stored_from(
            ms.map_values(|m: MonitorView| spec_stored_monitor(m)),
            ms[i].device_name,
            from,
        ) == Some(i),
    decreases i - from,
{
    let stored = ms.map_values(|m: MonitorView| spec_stored_monitor(m));
    assert(stored[from].device_name == ms[from].device_name);
    if from < i {
        assert(ms[from].device_name != ms[i].device_name);
        lemma_find_own_entry(ms, i, from + 1);
    }
}

/// Saving live settings and loading them again with the same monitors attached gives the
/// same settings back, whatever the startup shortcut says, for settings the file holds
/// without loss: colors that are settled and not former defaults, grid sizes in range,
/// monitors told apart by their device names, names without newline or `|`.
pub proof fn lemma_settings_persist(s: SettingsView, startup_enabled: bool)
    requires
        is_reloadable(s),
    ensures
        spec_merge(spec_parse_settings(spec_settings_text(s)), s.monitors, startup_enabled) == s,
{
    lemma_settings_round_trip(s);
    let stored = spec_stored_from_data(s);
    let merged = spec_merge(stored, s.monitors, startup_enabled);
    assert forall|i: int| 0 <= i < s.monitors.len() implies #[trigger] merged.monitors[i]
        == s.monitors[i] by {
        lemma_find_own_entry(s.monitors, i, 0);
        assert(MIN_GRID_SETTING <= s.monitors[i].columns <= MAX_GRID_SETTING);
    }
    assert(merged.monitors =~= s.monitors);
    lemma_settled_color_fixed(s.grid_color, DEFAULT_GRID_COLOR@);
    lemma_settled_color_fixed(s.selection_color, DEFAULT_SELECTION_COLOR@);
    lemma_settled_color_fixed(s.selection_border_color, DEFAULT_SELECTION_BORDER_COLOR@);
}

} // verus!
