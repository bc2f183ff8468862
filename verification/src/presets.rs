//! Combo preset files: which directory entries are presets, and their order.

use vstd::prelude::*;
use crate::profession::toml_suffix;
use crate::text::{chars_to_string, ends_with_chars, has_suffix, join_path, join_path_exec, push_all, sort_strings, str_chars, strings_sorted, take_chars, views};

verus! {

/// The preset name of a directory entry: `<name>.toml` with a non-empty
/// `<name>` (the file stem when the extension is `toml`).
pub open spec fn preset_stem(f: Seq<char>) -> Option<Seq<char>> {
    if f.len() > 5 && has_suffix(f, toml_suffix()) {
        Some(f.take(f.len() - 5))
    } else {
        None
    }
}

/// The preset names among `s`, in order.
pub open spec fn preset_stems(s: Seq<Seq<char>>) -> Seq<Seq<char>>
    decreases s.len(),
{
    if s.len() == 0 {
        Seq::empty()
    } else {
        let r = preset_stems(s.drop_last());
        match preset_stem(s.last()) {
            Some(x) => r.push(x),
            None => r,
        }
    }
}

/// The names of the combo presets among the entries of the preset
/// directory, sorted.
pub fn list_combo_presets(file_names: &Vec<String>) -> (r: Vec<String>)
    ensures
        strings_sorted(views(r@)),
        views(r@).to_multiset() == preset_stems(views(file_names@)).to_multiset(),
{
    let mut stems: Vec<String> = Vec::new();
    let mut suffix: Vec<char> = Vec::new();
    suffix.push('.');
    suffix.push('t');
    suffix.push('o');
    suffix.push('m');
    suffix.push('l');
    assert(suffix@ =~= toml_suffix());
    let mut i: usize = 0;
    while i < file_names.len()
        invariant
            i <= file_names@.len(),
            suffix@ == toml_suffix(),
            views(stems@) == preset_stems(views(file_names@.take(i as int))),
        decreases file_names.len() - i,
    {
        let f = str_chars(file_names[i].as_str());
        proof {
            assert(views(file_names@.take(i + 1)).drop_last() =~= views(file_names@.take(i as int)));
            assert(views(file_names@.take(i + 1)).last() == file_names@[i as int]@);
        }
        if f.len() > 5 && ends_with_chars(&f, &suffix) {
            let stem = take_chars(&f, f.len() - 5);
            stems.push(chars_to_string(&stem));
            assert(views(stems@) =~= preset_stems(views(file_names@.take(i as int))).push(stem@));
        }
        i += 1;
    }
    assert(file_names@.take(file_names@.len() as int) =~= file_names@);
    sort_strings(&stems)
}

/// The sorted combo preset names (see `list_combo_presets`).
pub fn list_presets(file_names: &Vec<String>) -> (r: Vec<String>)
    ensures
        strings_sorted(views(r@)),
        views(r@).to_multiset() == preset_stems(views(file_names@)).to_multiset(),
{
    list_combo_presets(file_names)
}

/// The file of a preset: `<dir>/<name>.toml`.
pub open spec fn preset_path_text(dir: Seq<char>, name: Seq<char>) -> Seq<char> {
    join_path(dir, name + toml_suffix())
}

/// The file of the preset `name` in the preset directory `dir`.
pub fn preset_file_path(dir: &str, name: &str) -> (r: String)
    ensures
        r@ == preset_path_text(dir@, name@),
{
    let mut f = str_chars(name);
    push_all(&mut f, &str_chars(".toml"));
    let file = chars_to_string(&f);
    proof {
        reveal_strlit(".toml");
        assert(toml_suffix() =~= ".toml"@);
    }
    join_path_exec(dir, file.as_str())
}

/// `无法获取连招预设目录`.
pub open spec fn no_preset_dir_message() -> Seq<char> {
    seq!['无', '法', '获', '取', '连', '招', '预', '设', '目', '录']
}

/// `预设不存在`.
pub open spec fn missing_preset_message() -> Seq<char> {
    seq!['预', '设', '不', '存', '在']
}

/// Decides the deletion of a combo preset: the file to remove when the
/// preset directory is known and the preset file (`preset_file_path`)
/// exists; an error otherwise.
pub fn delete_combo_preset(presets_dir: &Option<String>, name: &str, file_exists: bool) -> (r: Result<String, String>)
    ensures
        presets_dir is None ==> (r matches Err(m) && m@ == no_preset_dir_message()),
        presets_dir matches Some(d) ==> (if file_exists {
            r matches Ok(p) && p@ == preset_path_text(d@, name@)
        } else {
            r matches Err(m) && m@ == missing_preset_message()
        }),
{
    match presets_dir {
        None => {
            let m = String::from_str("无法获取连招预设目录");
            proof {
                reveal_strlit("无法获取连招预设目录");
            }
            Err(m)
        },
        Some(d) => if file_exists {
            Ok(preset_file_path(d.as_str(), name))
        } else {
            let m = String::from_str("预设不存在");
            proof {
                reveal_strlit("预设不存在");
            }
            Err(m)
        },
    }
}

/// Decides the deletion of a combo preset (see `delete_combo_preset`).
pub fn delete_preset(presets_dir: &Option<String>, name: &str, file_exists: bool) -> (r: Result<String, String>)
    ensures
        presets_dir is None ==> (r matches Err(m) && m@ == no_preset_dir_message()),
        presets_dir matches Some(d) ==> (if file_exists {
            r matches Ok(p) && p@ == preset_path_text(d@, name@)
        } else {
            r matches Err(m) && m@ == missing_preset_message()
        }),
{
    delete_combo_preset(presets_dir, name, file_exists)
}

} // verus!
