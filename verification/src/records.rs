use crate::text::{
    append_chars, chars_of, chars_views, copy_range, extension_of, extension_spec, has_prefix,
    has_suffix, integer_text, last_index_of, lines_of, lines_spec, lowercase_text,
    optional_slice, optional_text, render_i64, rfind_char, skip_whitespace, split_chars,
    split_on, starts_with, string_of, strip_char, strip_chars, trim_chars, trim_spec,
    trim_start_spec, without_suffix,
};
use crate::utils::Utils;
use vstd::prelude::*;

verus! {

/// The lines with the whitespace around them left out, without those that are then empty.
pub open spec fn nonempty_trimmed(lines: Seq<Seq<char>>) -> Seq<Seq<char>>
    decreases lines.len(),
{
    if lines.len() == 0 {
        Seq::<Seq<char>>::empty()
    } else {
        let line = trim_spec(lines.last());
        if line.len() > 0 {
            nonempty_trimmed(lines.drop_last()).push(line)
        } else {
            nonempty_trimmed(lines.drop_last())
        }
    }
}

/// The entries of a mod's record file: its lines that are not blank, trimmed.
pub open spec fn record_entries(contents: Seq<char>) -> Seq<Seq<char>> {
    nonempty_trimmed(lines_spec(contents))
}

/// Whether a mod of this name is one that can be updated: the name has an
/// extension, and the extension is not `zip`.
pub open spec fn is_updatable_mod_name(name: Seq<char>) -> bool {
    match extension_spec(name) {
        Some(e) => e != "zip"@,
        None => false,
    }
}

/// The entry at place `n` of the record of the mod named `mod_name`, whose
/// record file holds `sidecar` if it could be read.
pub open spec fn record_entry(mod_name: Seq<char>, sidecar: Option<Seq<char>>, n: int) -> Option<
    Seq<char>,
> {
    if !is_updatable_mod_name(mod_name) {
        None
    } else {
        match sidecar {
            Some(contents) => if 0 <= n < record_entries(contents).len() {
                Some(record_entries(contents)[n])
            } else {
                None
            },
            None => None,
        }
    }
}

/// The file name without one trailing `.zip`.
pub open spec fn archive_stem(name: Seq<char>) -> Seq<char> {
    without_suffix(name, ".zip"@)
}

/// The version that a mod's name shows: what follows the last underscore of
/// the name without `.zip`.
pub open spec fn displayed_version_spec(mod_name: Seq<char>) -> Option<Seq<char>> {
    let stem = archive_stem(mod_name);
    match last_index_of(stem, '_') {
        Some(i) => Some(stem.skip(i + 1)),
        None => None,
    }
}

/// The name of a mod once it shows `new_version`: what stands before the
/// last underscore of the name without `.zip`, an underscore, and the version.
pub open spec fn renamed_spec(mod_name: Seq<char>, new_version: Seq<char>) -> Option<Seq<char>> {
    let stem = archive_stem(mod_name);
    match last_index_of(stem, '_') {
        Some(i) => Some(stem.take(i) + seq!['_'] + new_version),
        None => None,
    }
}

/// The version that one line of a mod's manifest declares, if it declares
/// one: the line, without leading whitespace, begins with `"version"` in any
/// letter case and holds a colon; the version is what stands between the
/// first colon and the second, trimmed, without commas and then without
/// double quotes at its ends.
pub open spec fn line_version(line: Seq<char>) -> Option<Seq<char>> {
    let body = trim_start_spec(line);
    let parts = split_on(body, ':');
    if starts_with(lowercase_text(body), "\"version\""@) && parts.len() >= 2 {
        Some(strip_char(strip_char(trim_spec(parts[1]), ','), '"'))
    } else {
        None
    }
}

/// The version that the first declaring line declares.
pub open spec fn first_version(lines: Seq<Seq<char>>) -> Option<Seq<char>>
    decreases lines.len(),
{
    if lines.len() == 0 {
        None
    } else {
        match line_version(lines[0]) {
            Some(v) => Some(v),
            None => first_version(lines.drop_first()),
        }
    }
}

/// The text of a mod's record: the mod id, a line feed, and the file id in base ten.
pub open spec fn record_text_spec(mod_id: Seq<char>, file_id: int) -> Seq<char> {
    mod_id + seq!['\n'] + integer_text(file_id)
}

/// Tests whether a mod of this name can be updated.
pub fn is_updatable_mod(mod_name: &str) -> (out: bool)
    ensures
        out == is_updatable_mod_name(mod_name@),
{
    let name = chars_of(mod_name);
    match extension_of(&name) {
        Some(e) => {
            proof {
                reveal_strlit("zip");
            }
            if e.len() == 3 && e[0] == 'z' && e[1] == 'i' && e[2] == 'p' {
                assert(e@ =~= "zip"@);
                false
            } else {
                true
            }
        },
        None => false,
    }
}

/// The entries of a record file.
pub fn entries_of(contents: &str) -> (out: Vec<Vec<char>>)
    ensures
        chars_views(out@) == record_entries(contents@),
{
    let chars = chars_of(contents);
    let lines = lines_of(&chars);
    let ghost all = chars_views(lines@);
    let mut out: Vec<Vec<char>> = Vec::new();
    let mut i: usize = 0;
    while i < lines.len()
        invariant
            i <= lines.len(),
            all == chars_views(lines@),
            chars_views(out@) == nonempty_trimmed(all.take(i as int)),
        decreases lines.len() - i,
    {
        let ghost before = chars_views(out@);
        assert(all.take(i + 1).drop_last() =~= all.take(i as int));
        assert(all.take(i + 1).last() == lines@[i as int]@);
        let line = trim_chars(&lines[i]);
        if line.len() > 0 {
            out.push(line);
            assert(chars_views(out@) =~= before.push(line@));
        }
        i += 1;
    }
    assert(all.take(lines@.len() as int) =~= all);
    out
}

/// The entry at place `n` of a mod's record.
fn entry_at(mod_name: &str, sidecar: Option<&str>, n: usize) -> (out: Option<String>)
    ensures
        optional_text(out) == record_entry(mod_name@, optional_slice(sidecar), n as int),
{
    if !is_updatable_mod(mod_name) {
        return None;
    }
    match sidecar {
        Some(contents) => {
            let entries = entries_of(contents);
            if n < entries.len() {
                assert(chars_views(entries@)[n as int] == entries@[n as int]@);
                Some(string_of(&entries[n]))
            } else {
                None
            }
        },
        None => None,
    }
}

/// The part of a mod's name before or after its last underscore.
fn stem_of(mod_name: &str) -> (out: Vec<char>)
    ensures
        out@ == archive_stem(mod_name@),
{
    let name = chars_of(mod_name);
    let zip = chars_of(".zip");
    let end: usize = if has_suffix(&name, &zip) {
        name.len() - zip.len()
    } else {
        name.len()
    };
    let stem = copy_range(&name, 0, end);
    assert(stem@ =~= archive_stem(mod_name@));
    stem
}

impl Utils {
    /// The id of a mod: the first entry of its record file. `sidecar` is the
    /// text of that file, or `None` if the mod has none.
    pub fn get_mod_id(mod_name: &str, sidecar: Option<&str>) -> (out: Option<String>)
        ensures
            optional_text(out) == record_entry(mod_name@, optional_slice(sidecar), 0),
    {
        entry_at(mod_name, sidecar, 0)
    }

    /// The id of the installed file of a mod: the second entry of its record file.
    pub fn get_mod_fileid(mod_name: &str, sidecar: Option<&str>) -> (out: Option<String>)
        ensures
            optional_text(out) == record_entry(mod_name@, optional_slice(sidecar), 1),
    {
        entry_at(mod_name, sidecar, 1)
    }

    /// The version that a mod's name shows.
    pub fn get_mod_version(mod_name: &str) -> (out: Option<String>)
        ensures
            optional_text(out) == displayed_version_spec(mod_name@),
    {
        let stem = stem_of(mod_name);
        assert(stem@.take(stem@.len() as int) =~= stem@);
        match rfind_char(&stem, stem.len(), '_') {
            Some(i) => {
                let version = string_of_tail(&stem, i + 1);
                Some(version)
            },
            None => None,
        }
    }

    /// The name that a mod's directory takes once it holds `new_version`.
    pub fn get_updated_path_from_version(mod_name: &str, new_version: &str) -> (out: Option<
        String,
    >)
        ensures
            optional_text(out) == renamed_spec(mod_name@, new_version@),
    {
        let stem = stem_of(mod_name);
        assert(stem@.take(stem@.len() as int) =~= stem@);
        match rfind_char(&stem, stem.len(), '_') {
            Some(i) => {
                let mut name = copy_range(&stem, 0, i);
                assert(name@ =~= stem@.take(i as int));
                name.push('_');
                let version = chars_of(new_version);
                append_chars(&mut name, &version);
                assert(name@ =~= stem@.take(i as int) + seq!['_'] + new_version@);
                Some(string_of(&name))
            },
            None => None,
        }
    }

    /// The version that a mod's manifest declares. `contents` is the text of the manifest.
    pub fn get_version_from_modinfo(contents: &str) -> (out: Option<String>)
        ensures
            optional_text(out) == first_version(lines_spec(contents@)),
    {
        let chars = chars_of(contents);
        let lines = lines_of(&chars);
        let ghost all = chars_views(lines@);
        let mut i: usize = 0;
        assert(all.skip(0) =~= all);
        while i < lines.len()
            invariant
                i <= lines.len(),
                all == chars_views(lines@),
                all == lines_spec(contents@),
                first_version(all) == first_version(all.skip(i as int)),
            decreases lines.len() - i,
        {
            assert(all.skip(i as int)[0] == lines@[i as int]@);
            assert(all.skip(i as int).drop_first() =~= all.skip(i + 1));
            match version_in_line(&lines[i]) {
                Some(v) => {
                    return Some(v);
                },
                None => {},
            }
            i += 1;
        }
        None
    }
}

/// The string made of `chars[from..]`.
fn string_of_tail(chars: &Vec<char>, from: usize) -> (out: String)
    requires
        from <= chars.len(),
    ensures
        out@ == chars@.skip(from as int),
{
    let tail = copy_range(chars, from, chars.len());
    assert(tail@ =~= chars@.skip(from as int));
    string_of(&tail)
}

/// The version that one line of a manifest declares.
pub fn version_in_line(line: &Vec<char>) -> (out: Option<String>)
    ensures
        optional_text(out) == line_version(line@),
{
    assert(line@.subrange(0, line@.len() as int) =~= line@);
    let from = skip_whitespace(line, 0, line.len());
    let body = copy_range(line, from, line.len());
    let lowered = string_of(&body).as_str().to_lowercase();
    let lowered_chars = chars_of(lowered.as_str());
    let key = chars_of("\"version\"");
    if !has_prefix(&lowered_chars, &key) {
        return None;
    }
    let parts = split_chars(&body, ':');
    if parts.len() >= 2 {
        assert(chars_views(parts@)[1] == parts@[1]@);
        let trimmed = trim_chars(&parts[1]);
        let bare = strip_chars(&trimmed, ',');
        let value = strip_chars(&bare, '"');
        Some(string_of(&value))
    } else {
        None
    }
}

/// The text to write into a mod's record file after an update.
pub fn record_text(mod_id: &str, file_id: i64) -> (out: String)
    ensures
        out@ == record_text_spec(mod_id@, file_id as int),
{
    let mut text = chars_of(mod_id);
    text.push('\n');
    let digits = render_i64(file_id);
    append_chars(&mut text, &digits);
    assert(text@ =~= record_text_spec(mod_id@, file_id as int));
    string_of(&text)
}

/// What is on record about an installed mod.
#[derive(Debug, PartialEq, Eq)]
pub struct ModRecord {
    pub mod_id: String,
    /// The id of the installed file; absent in a record of the older, one-line form.
    pub installed_file_id: Option<String>,
    pub displayed_version: String,
}

/// A record as contracts see it.
pub struct RecordView {
    pub mod_id: Seq<char>,
    pub installed_file_id: Option<Seq<char>>,
    pub displayed_version: Seq<char>,
}

impl View for ModRecord {
    type V = RecordView;

    open spec fn view(&self) -> RecordView {
        RecordView {
            mod_id: self.mod_id@,
            installed_file_id: optional_text(self.installed_file_id),
            displayed_version: self.displayed_version@,
        }
    }
}

/// The record of the mod named `mod_name` whose record file holds `sidecar`:
/// there is one if the name shows a version and the file gives a mod id.
pub open spec fn mod_record_spec(mod_name: Seq<char>, sidecar: Option<Seq<char>>) -> Option<
    RecordView,
> {
    match (displayed_version_spec(mod_name), record_entry(mod_name, sidecar, 0)) {
        (Some(version), Some(id)) => Some(
            RecordView {
                mod_id: id,
                installed_file_id: record_entry(mod_name, sidecar, 1),
                displayed_version: version,
            },
        ),
        _ => None,
    }
}

/// The view of an optional record.
pub open spec fn optional_record(r: Option<ModRecord>) -> Option<RecordView> {
    match r {
        Some(r) => Some(r@),
        None => None,
    }
}

/// Reads what is on record about a mod.
pub fn read_mod_record(mod_name: &str, sidecar: Option<&str>) -> (out: Option<ModRecord>)
    ensures
        optional_record(out) == mod_record_spec(mod_name@, optional_slice(sidecar)),
{
    match (Utils::get_mod_version(mod_name), Utils::get_mod_id(mod_name, sidecar)) {
        (Some(displayed_version), Some(mod_id)) => Some(
            ModRecord {
                mod_id,
                installed_file_id: Utils::get_mod_fileid(mod_name, sidecar),
                displayed_version,
            },
        ),
        _ => None,
    }
}

} // verus!
