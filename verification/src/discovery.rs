//! Discovering a development environment: which SDK, pack, CCS, Keil and
//! SysConfig installation to use, and what to warn about when one is
//! missing. The file system is read by the caller; these functions decide.
use vstd::prelude::*;
use crate::project::{
    is_installed_pack_path, is_installed_pack_path_spec, key_less, key_lt, lemma_key_irreflexive, lemma_key_total,
    lemma_key_transitive, version_key, version_key_spec,
};
use crate::text::{
    chars_equal, chars_of, lines_of, lower_chars, lower_seq, split_lines, starts_with_chars, string_of, string_views,
    trim_chars, trim_seq, trim_start_chars, trim_start_seq, views, slice_chars,
};
use crate::winpath::{
    file_name_of, file_name_spec, path_extension_spec, extension_of, path_join_spec, path_join_str, path_parent,
    path_parent_spec,
};

verus! {

// ---------------------------------------------------------------------------
// The latest version
// ---------------------------------------------------------------------------

pub open spec fn version_keys(vs: Seq<Seq<char>>) -> Seq<Seq<u32>> {
    vs.map_values(|v: Seq<char>| version_key_spec(v))
}

/// `i` is the last of the entries with the greatest key: what a stable sort
/// by key followed by taking the last element picks.
pub open spec fn is_last_latest(keys: Seq<Seq<u32>>, i: int) -> bool {
    &&& 0 <= i < keys.len()
    &&& forall|j: int| 0 <= j < keys.len() ==> !key_lt(keys[i], #[trigger] keys[j])
    &&& forall|j: int| i < j < keys.len() ==> key_lt(#[trigger] keys[j], keys[i])
}

/// Only one index is the last of the greatest.
pub proof fn lemma_last_latest_unique(keys: Seq<Seq<u32>>, i: int, k: int)
    requires
        is_last_latest(keys, i),
        is_last_latest(keys, k),
    ensures
        i == k,
{
    if i < k {
        assert(key_lt(keys[k], keys[i]));
        assert(!key_lt(keys[k], keys[i]));
    } else if k < i {
        assert(key_lt(keys[i], keys[k]));
        assert(!key_lt(keys[i], keys[k]));
    }
}

/// The index of the latest version: versions compare by `version_key`, and
/// among equal keys the last one wins.
pub fn latest_by_version(versions: &Vec<String>) -> (r: Option<usize>)
    ensures
        r is None <==> versions.len() == 0,
        r matches Some(i) ==> is_last_latest(version_keys(string_views(versions@)), i as int),
{
    let ghost keys = version_keys(string_views(versions@));
    if versions.len() == 0 {
        return None;
    }
    let mut best: usize = 0;
    let mut best_key = version_key(&chars_of(versions[0].as_str()));
    let mut j: usize = 1;
    assert(keys.len() == versions.len());
    assert(keys[0] == best_key@);
    proof {
        lemma_key_irreflexive(keys[0]);
    }
    while j < versions.len()
        invariant
            1 <= j <= versions.len(),
            keys == version_keys(string_views(versions@)),
            keys.len() == versions.len(),
            best < j,
            best_key@ == keys[best as int],
            is_last_latest(keys.take(j as int), best as int),
        decreases versions.len() - j,
    {
        let key = version_key(&chars_of(versions[j].as_str()));
        assert(key@ == keys[j as int]);
        let ghost t = keys.take(j + 1);
        assert(forall|m: int| 0 <= m < j ==> t[m] == keys.take(j as int)[m]);
        if !key_less(&key, &best_key) {
            proof {
                lemma_key_total(keys[best as int], keys[j as int]);
                lemma_key_irreflexive(keys[j as int]);
                assert forall|m: int| 0 <= m < t.len() implies !key_lt(t[j as int], #[trigger] t[m]) by {
                    if m < j {
                        assert(!key_lt(keys.take(j as int)[best as int], keys.take(j as int)[m]));
                        if key_lt(keys[j as int], keys[m]) {
                            if key_lt(keys[best as int], keys[j as int]) {
                                lemma_key_transitive(keys[best as int], keys[j as int], keys[m]);
                            }
                        }
                    }
                }
            }
            best = j;
            best_key = key;
        } else {
            proof {
                assert forall|m: int| 0 <= m < t.len() implies !key_lt(t[best as int], #[trigger] t[m]) by {
                    if m == j {
                        if key_lt(keys[best as int], keys[j as int]) {
                            lemma_key_transitive(keys[best as int], keys[j as int], keys[best as int]);
                            lemma_key_irreflexive(keys[best as int]);
                        }
                    } else {
                        assert(!key_lt(keys.take(j as int)[best as int], keys.take(j as int)[m]));
                    }
                }
                assert forall|m: int| best < m < t.len() implies key_lt(#[trigger] t[m], t[best as int]) by {
                    if m < j {
                        assert(key_lt(keys.take(j as int)[m], keys.take(j as int)[best as int]));
                    }
                }
            }
        }
        j += 1;
    }
    assert(keys.take(versions.len() as int) =~= keys);
    Some(best)
}

// ---------------------------------------------------------------------------
// SDKs
// ---------------------------------------------------------------------------

/// An SDK directory and the version its `product.json` declares.
pub struct SdkFound {
    pub path: String,
    pub version: String,
}

pub open spec fn sdk_versions(c: Seq<SdkFound>) -> Seq<Seq<char>> {
    c.map_values(|s: SdkFound| s.version@)
}

/// The SDK to use: the selected directory when it is one, else the latest of
/// the SDKs found under `C:\ti` and `D:\ti` (in listing order).
pub open spec fn discover_sdk_spec(selected: Seq<char>, selected_version: Option<Seq<char>>, candidates: Seq<SdkFound>) -> Option<
    (Seq<char>, Seq<char>),
> {
    if selected.len() > 0 && selected_version is Some {
        Some((selected, selected_version->0))
    } else if candidates.len() == 0 {
        None
    } else {
        let i = choose|i: int| is_last_latest(version_keys(sdk_versions(candidates)), i);
        Some((candidates[i].path@, candidates[i].version@))
    }
}

pub open spec fn opt_string(o: Option<String>) -> Option<Seq<char>> {
    match o {
        Some(s) => Some(s@),
        None => None,
    }
}

/// Picks the SDK (see `discover_sdk_spec`); `selected_version` is the
/// version the selected directory declares, when it is an SDK.
pub fn discover_sdk(selected: &str, selected_version: &Option<String>, candidates: &Vec<SdkFound>) -> (r: Option<SdkFound>)
    ensures
        match r {
            Some(s) => discover_sdk_spec(selected@, opt_string(*selected_version), candidates@) == Some(
                (s.path@, s.version@),
            ),
            None => discover_sdk_spec(selected@, opt_string(*selected_version), candidates@) is None,
        },
{
    if !selected.is_empty() {
        match selected_version {
            Some(v) => {
                return Some(SdkFound { path: string_of(&chars_of(selected)), version: v.clone() });
            },
            None => {},
        }
    }
    let mut versions: Vec<String> = Vec::new();
    let mut i: usize = 0;
    while i < candidates.len()
        invariant
            i <= candidates.len(),
            string_views(versions@) == sdk_versions(candidates@).take(i as int),
        decreases candidates.len() - i,
    {
        let ghost before = versions@;
        versions.push(candidates[i].version.clone());
        assert(string_views(versions@) =~= string_views(before).push(candidates@[i as int].version@));
        assert(sdk_versions(candidates@).take(i + 1) =~= sdk_versions(candidates@).take(i as int).push(
            candidates@[i as int].version@,
        ));
        i += 1;
    }
    assert(sdk_versions(candidates@).take(candidates.len() as int) =~= sdk_versions(candidates@));
    match latest_by_version(&versions) {
        None => None,
        Some(k) => {
            proof {
                let keys = version_keys(sdk_versions(candidates@));
                let c = choose|i: int| is_last_latest(keys, i);
                lemma_last_latest_unique(keys, k as int, c);
            }
            Some(SdkFound { path: candidates[k].path.clone(), version: candidates[k].version.clone() })
        },
    }
}

// ---------------------------------------------------------------------------
// The registry
// ---------------------------------------------------------------------------

/// The string that a line of `reg query KEY /v VALUE` output gives for
/// `value`: the line, trimmed, is `VALUE  REG_SZ  TEXT`.
pub open spec fn registry_value_in_line(line: Seq<char>, value: Seq<char>) -> Option<Seq<char>> {
    let t = trim_seq(line);
    if value.is_prefix_of(t) {
        let rest = trim_start_seq(t.skip(value.len() as int));
        if "REG_SZ"@.is_prefix_of(rest) {
            Some(trim_seq(rest.skip(6)))
        } else {
            None
        }
    } else {
        None
    }
}

/// The first line, from index `i`, that gives the value.
pub open spec fn registry_value_from(lines: Seq<Seq<char>>, value: Seq<char>, i: int) -> Option<Seq<char>>
    decreases lines.len() - i,
{
    if i < 0 || i >= lines.len() {
        None
    } else {
        match registry_value_in_line(lines[i], value) {
            Some(v) => Some(v),
            None => registry_value_from(lines, value, i + 1),
        }
    }
}

fn registry_value_of_line(line: &Vec<char>, value: &Vec<char>) -> (r: Option<Vec<char>>)
    ensures
        match r {
            Some(v) => registry_value_in_line(line@, value@) == Some(v@),
            None => registry_value_in_line(line@, value@) is None,
        },
{
    let t = trim_chars(line);
    if !starts_with_chars(&t, value) {
        return None;
    }
    let after = slice_chars(&t, value.len(), t.len());
    assert(after@ =~= t@.skip(value@.len() as int));
    let rest = trim_start_chars(&after);
    let reg_sz = chars_of("REG_SZ");
    assert(reg_sz@.len() == 6) by {
        reveal_strlit("REG_SZ");
    }
    if !starts_with_chars(&rest, &reg_sz) {
        return None;
    }
    let tail = slice_chars(&rest, 6, rest.len());
    assert(tail@ =~= rest@.skip(6));
    Some(trim_chars(&tail))
}

/// The string value `value` in the output of `reg query KEY /v VALUE`.
pub fn registry_string_value(output: &str, value: &str) -> (r: Option<String>)
    ensures
        opt_string(r) == registry_value_from(lines_of(output@), value@, 0),
{
    let lines = split_lines(&chars_of(output));
    let v = chars_of(value);
    let mut i: usize = 0;
    while i < lines.len()
        invariant
            i <= lines.len(),
            v@ == value@,
            views(lines@) == lines_of(output@),
            registry_value_from(lines_of(output@), value@, 0) == registry_value_from(
                lines_of(output@),
                value@,
                i as int,
            ),
        decreases lines.len() - i,
    {
        assert(views(lines@)[i as int] == lines@[i as int]@);
        match registry_value_of_line(&lines[i], &v) {
            Some(x) => {
                return Some(string_of(&x));
            },
            None => {},
        }
        i += 1;
    }
    None
}

// ---------------------------------------------------------------------------
// Packs
// ---------------------------------------------------------------------------

/// A pack that supports the project's device: where it is (the directory
/// of an installed pack, or the `.pdsc` file itself), its name and version,
/// and whether it lies among Keil's installed packs.
pub struct PackCandidate {
    pub path: String,
    pub name: String,
    pub version: String,
    pub installed: bool,
}

pub open spec fn pack_view(p: PackCandidate) -> (Seq<char>, Seq<char>, Seq<char>, bool) {
    (p.path@, p.name@, p.version@, p.installed)
}

pub open spec fn opt_pack_view(o: Option<PackCandidate>) -> Option<(Seq<char>, Seq<char>, Seq<char>, bool)> {
    match o {
        Some(p) => Some(pack_view(p)),
        None => None,
    }
}

/// The pack description `validated` supports `device`.
pub open spec fn supports_device(validated: Result<(String, String, Vec<String>), String>, device: Seq<char>) -> bool {
    match validated {
        Ok((_, _, ds)) => string_views(ds@).contains(device),
        Err(_) => false,
    }
}

fn contains_string(values: &Vec<String>, wanted: &str) -> (r: bool)
    ensures
        r == string_views(values@).contains(wanted@),
{
    let w = chars_of(wanted);
    let mut i: usize = 0;
    while i < values.len()
        invariant
            i <= values.len(),
            w@ == wanted@,
            forall|k: int| 0 <= k < i ==> string_views(values@)[k] != wanted@,
        decreases values.len() - i,
    {
        if chars_equal(&chars_of(values[i].as_str()), &w) {
            assert(string_views(values@)[i as int] == wanted@);
            return true;
        }
        i += 1;
    }
    false
}

/// The pack the user selected, when it is a pack that supports the device
/// (`validated` is its description, not looked at when `selected` is empty).
pub open spec fn selected_pack_spec(
    selected: Seq<char>,
    validated: Result<(String, String, Vec<String>), String>,
    device: Seq<char>,
) -> Option<(Seq<char>, Seq<char>, Seq<char>, bool)> {
    if selected.len() > 0 && supports_device(validated, device) {
        match validated {
            Ok((n, v, _)) => Some((selected, n@, v@, is_installed_pack_path_spec(selected))),
            Err(_) => None,
        }
    } else {
        None
    }
}

pub fn selected_pack(selected: &str, validated: &Result<(String, String, Vec<String>), String>, device: &str) -> (r: Option<
    PackCandidate,
>)
    ensures
        opt_pack_view(r) == selected_pack_spec(selected@, *validated, device@),
{
    if selected.is_empty() {
        return None;
    }
    match validated {
        Ok((n, v, ds)) => {
            if contains_string(ds, device) {
                Some(
                    PackCandidate {
                        path: string_of(&chars_of(selected)),
                        name: n.clone(),
                        version: v.clone(),
                        installed: is_installed_pack_path(&chars_of(selected)),
                    },
                )
            } else {
                None
            }
        },
        Err(_) => None,
    }
}

/// A file met while searching a pack folder: a `.pdsc` (any letter case)
/// whose description supports the device; an installed pack is named by
/// its directory (or `root` when the file has no parent).
pub open spec fn pack_file_candidate_spec(
    path: Seq<char>,
    root: Seq<char>,
    installed: bool,
    validated: Result<(String, String, Vec<String>), String>,
    device: Seq<char>,
) -> Option<(Seq<char>, Seq<char>, Seq<char>, bool)> {
    let is_pdsc = match path_extension_spec(path) {
        Some(e) => lower_seq(e) == "pdsc"@,
        None => false,
    };
    if is_pdsc && supports_device(validated, device) {
        match validated {
            Ok((n, v, _)) => Some(
                (
                    if installed {
                        match path_parent_spec(path) {
                            Some(p) => p,
                            None => root,
                        }
                    } else {
                        path
                    },
                    n@,
                    v@,
                    installed,
                ),
            ),
            Err(_) => None,
        }
    } else {
        None
    }
}

pub fn pack_file_candidate(
    path: &str,
    root: &str,
    installed: bool,
    validated: &Result<(String, String, Vec<String>), String>,
    device: &str,
) -> (r: Option<PackCandidate>)
    ensures
        opt_pack_view(r) == pack_file_candidate_spec(path@, root@, installed, *validated, device@),
{
    let p = chars_of(path);
    let is_pdsc = match extension_of(&p) {
        Some(e) => chars_equal(&lower_chars(&e), &chars_of("pdsc")),
        None => false,
    };
    if !is_pdsc {
        return None;
    }
    match validated {
        Ok((n, v, ds)) => {
            if !contains_string(ds, device) {
                return None;
            }
            let location = if installed {
                match path_parent(&p) {
                    Some(parent) => string_of(&parent),
                    None => string_of(&chars_of(root)),
                }
            } else {
                string_of(&p)
            };
            Some(PackCandidate { path: location, name: n.clone(), version: v.clone(), installed })
        },
        Err(_) => None,
    }
}

pub open spec fn pack_versions(c: Seq<PackCandidate>) -> Seq<Seq<char>> {
    c.map_values(|p: PackCandidate| p.version@)
}

/// The latest of the candidates found in one pack folder.
pub open spec fn latest_pack_spec(c: Seq<PackCandidate>) -> Option<(Seq<char>, Seq<char>, Seq<char>, bool)> {
    if c.len() == 0 {
        None
    } else {
        Some(pack_view(c[choose|i: int| is_last_latest(version_keys(pack_versions(c)), i)]))
    }
}

/// The latest of the packs found in one folder (see `latest_pack_spec`).
pub fn find_pack_candidate(candidates: Vec<PackCandidate>) -> (r: Option<PackCandidate>)
    ensures
        opt_pack_view(r) == latest_pack_spec(candidates@),
{
    let mut versions: Vec<String> = Vec::new();
    let mut i: usize = 0;
    while i < candidates.len()
        invariant
            i <= candidates.len(),
            string_views(versions@) == pack_versions(candidates@).take(i as int),
        decreases candidates.len() - i,
    {
        let ghost before = versions@;
        versions.push(candidates[i].version.clone());
        assert(string_views(versions@) =~= string_views(before).push(candidates@[i as int].version@));
        assert(pack_versions(candidates@).take(i + 1) =~= pack_versions(candidates@).take(i as int).push(
            candidates@[i as int].version@,
        ));
        i += 1;
    }
    assert(pack_versions(candidates@).take(candidates.len() as int) =~= pack_versions(candidates@));
    match latest_by_version(&versions) {
        None => None,
        Some(k) => {
            proof {
                let keys = version_keys(pack_versions(candidates@));
                let c = choose|i: int| is_last_latest(keys, i);
                lemma_last_latest_unique(keys, k as int, c);
            }
            let mut candidates = candidates;
            Some(candidates.swap_remove(k))
        },
    }
}

/// The folders searched for packs below a Keil installation (the parent of
/// `UV4.exe`'s directory): installed packs under `ARM\PACK` and
/// `ARM\Packs`, then the download catalogs beside them.
pub open spec fn pack_search_dirs_spec(keil_executable: Option<Seq<char>>) -> (Seq<Seq<char>>, Seq<Seq<char>>) {
    match grandparent_spec(keil_executable) {
        None => (seq![], seq![]),
        Some(g) => {
            let arm = path_join_spec(g, "ARM"@);
            let roots = seq![path_join_spec(arm, "PACK"@), path_join_spec(arm, "Packs"@)];
            (
                seq![path_join_spec(roots[0], "TexasInstruments"@), path_join_spec(roots[1], "TexasInstruments"@)],
                seq![path_join_spec(roots[0], ".Web"@), path_join_spec(roots[1], ".Web"@)],
            )
        },
    }
}

/// The parent of the parent of a path.
pub open spec fn grandparent_spec(p: Option<Seq<char>>) -> Option<Seq<char>> {
    match p {
        Some(x) => match path_parent_spec(x) {
            Some(a) => path_parent_spec(a),
            None => None,
        },
        None => None,
    }
}

pub fn grandparent(p: &str) -> (r: Option<String>)
    ensures
        opt_string(r) == grandparent_spec(Some(p@)),
{
    match path_parent(&chars_of(p)) {
        Some(a) => match path_parent(&a) {
            Some(g) => Some(string_of(&g)),
            None => None,
        },
        None => None,
    }
}

/// The folders to search for installed packs (four levels deep) and for
/// downloaded packs (one level deep), in order.
pub fn pack_search_dirs(keil_executable: Option<&str>) -> (r: (Vec<String>, Vec<String>))
    ensures
        (string_views(r.0@), string_views(r.1@)) == pack_search_dirs_spec(
            match keil_executable {
                Some(k) => Some(k@),
                None => None,
            },
        ),
{
    let g = match keil_executable {
        Some(k) => grandparent(k),
        None => None,
    };
    match g {
        None => {
            let r: (Vec<String>, Vec<String>) = (Vec::new(), Vec::new());
            assert(string_views(r.0@) =~= seq![]);
            assert(string_views(r.1@) =~= seq![]);
            r
        },
        Some(g) => {
            let arm = path_join_str(&chars_of(g.as_str()), "ARM");
            let pack = path_join_str(&arm, "PACK");
            let packs = path_join_str(&arm, "Packs");
            let installed = vec![
                string_of(&path_join_str(&pack, "TexasInstruments")),
                string_of(&path_join_str(&packs, "TexasInstruments")),
            ];
            let web = vec![string_of(&path_join_str(&pack, ".Web")), string_of(&path_join_str(&packs, ".Web"))];
            assert(string_views(installed@) =~= pack_search_dirs_spec(
                match keil_executable {
                    Some(k) => Some(k@),
                    None => None,
                },
            ).0);
            assert(string_views(web@) =~= pack_search_dirs_spec(
                match keil_executable {
                    Some(k) => Some(k@),
                    None => None,
                },
            ).1);
            (installed, web)
        },
    }
}

/// The first candidate that is there.
pub open spec fn first_pack(c: Seq<Option<PackCandidate>>) -> Option<(Seq<char>, Seq<char>, Seq<char>, bool)>
    decreases c.len(),
{
    if c.len() == 0 {
        None
    } else {
        match c[0] {
            Some(p) => Some(pack_view(p)),
            None => first_pack(c.drop_first()),
        }
    }
}

/// The pack for the project: the selected one when it is installed; else
/// the latest installed pack of the first installed-pack folder that has
/// one; else the selected one; else one from the first download catalog
/// that has one.
pub open spec fn discover_pack_spec(
    selected: Option<(Seq<char>, Seq<char>, Seq<char>, bool)>,
    installed: Seq<Option<PackCandidate>>,
    web: Seq<Option<PackCandidate>>,
) -> Option<(Seq<char>, Seq<char>, Seq<char>, bool)> {
    if selected matches Some(p) && p.3 {
        selected
    } else if first_pack(installed) is Some {
        first_pack(installed)
    } else if selected is Some {
        selected
    } else {
        first_pack(web)
    }
}

fn take_first_pack(candidates: Vec<Option<PackCandidate>>) -> (r: Option<PackCandidate>)
    ensures
        opt_pack_view(r) == first_pack(candidates@),
{
    let ghost orig = candidates@;
    let mut c = candidates;
    assert(c@ == orig);
    let mut i: usize = 0;
    assert(orig.skip(0) =~= orig);
    while i < c.len()
        invariant
            i <= c.len(),
            c@ == orig,
            orig == candidates@,
            first_pack(orig) == first_pack(orig.skip(i as int)),
        decreases c.len() - i,
    {
        assert(orig.skip(i as int).drop_first() =~= orig.skip(i + 1));
        assert(orig.skip(i as int)[0] == orig[i as int]);
        if c[i].is_some() {
            let x = c.swap_remove(i);
            assert(x == orig[i as int]);
            assert(first_pack(orig.skip(i as int)) == opt_pack_view(x));
            return x;
        }
        i += 1;
    }
    assert(orig.skip(i as int) =~= seq![]);
    None
}

/// Chooses the pack (see `discover_pack_spec`); `installed` and `web` hold
/// the latest candidate of each folder from `pack_search_dirs`, in order.
pub fn discover_pack(
    selected: Option<PackCandidate>,
    installed: Vec<Option<PackCandidate>>,
    web: Vec<Option<PackCandidate>>,
) -> (r: Option<PackCandidate>)
    ensures
        opt_pack_view(r) == discover_pack_spec(opt_pack_view(selected), installed@, web@),
{
    let selected_installed = match &selected {
        Some(p) => p.installed,
        None => false,
    };
    if selected_installed {
        return selected;
    }
    let first_installed = take_first_pack(installed);
    if first_installed.is_some() {
        return first_installed;
    }
    if selected.is_some() {
        return selected;
    }
    take_first_pack(web)
}

// ---------------------------------------------------------------------------
// SysConfig installations
// ---------------------------------------------------------------------------

pub open spec fn cli_name() -> Seq<char> {
    "sysconfig_cli.bat"@
}

/// The root of a SysConfig installation for a selected path, `files` being
/// the paths known to be files: the path may be `nw.exe` itself (the root is
/// two levels up), the root (with `nw\nw.exe` and `sysconfig_cli.bat`), or
/// the `nw` directory (the root is its parent); the root must hold
/// `sysconfig_cli.bat`.
pub open spec fn normalize_sysconfig_spec(path: Seq<char>, files: Seq<Seq<char>>) -> Option<Seq<char>> {
    if files.contains(path) && crate::tools::names_file(path, "nw.exe"@) {
        match grandparent_spec(Some(path)) {
            None => None,
            Some(root) => if files.contains(path_join_spec(root, cli_name())) {
                Some(root)
            } else {
                None
            },
        }
    } else if files.contains(crate::sysconfig::nw_executable_spec(path)) && files.contains(
        path_join_spec(path, cli_name()),
    ) {
        Some(path)
    } else if files.contains(path_join_spec(path, "nw.exe"@)) {
        match path_parent_spec(path) {
            None => None,
            Some(root) => if files.contains(path_join_spec(root, cli_name())) {
                Some(root)
            } else {
                None
            },
        }
    } else {
        None
    }
}

/// The paths whose being files `normalize_sysconfig_path` looks at.
pub open spec fn sysconfig_probe_spec(path: Seq<char>) -> Seq<Seq<char>> {
    let up2 = match grandparent_spec(Some(path)) {
        Some(root) => seq![path_join_spec(root, cli_name())],
        None => seq![],
    };
    let up1 = match path_parent_spec(path) {
        Some(root) => seq![path_join_spec(root, cli_name())],
        None => seq![],
    };
    seq![path] + up2 + seq![
        crate::sysconfig::nw_executable_spec(path),
        path_join_spec(path, cli_name()),
        path_join_spec(path, "nw.exe"@),
    ] + up1
}

fn push_string(v: &mut Vec<String>, x: Vec<char>)
    ensures
        string_views(final(v)@) == string_views(old(v)@).push(x@),
{
    let ghost before = old(v)@;
    v.push(string_of(&x));
    assert(string_views(v@) =~= string_views(before).push(x@));
}

/// The paths to test for being files before normalizing `path`.
pub fn sysconfig_probe_paths(path: &str) -> (r: Vec<String>)
    ensures
        string_views(r@) == sysconfig_probe_spec(path@),
{
    let p = chars_of(path);
    let mut r: Vec<String> = Vec::new();
    assert(string_views(r@) =~= seq![]);
    push_string(&mut r, p.clone());
    match grandparent(path) {
        Some(root) => push_string(&mut r, path_join_str(&chars_of(root.as_str()), "sysconfig_cli.bat")),
        None => {},
    }
    push_string(&mut r, crate::sysconfig::sysconfig_nw_executable(&p));
    push_string(&mut r, path_join_str(&p, "sysconfig_cli.bat"));
    push_string(&mut r, path_join_str(&p, "nw.exe"));
    match path_parent(&p) {
        Some(root) => push_string(&mut r, path_join_str(&root, "sysconfig_cli.bat")),
        None => {},
    }
    assert(string_views(r@) =~= sysconfig_probe_spec(path@));
    r
}

fn has_file(files: &Vec<String>, p: &Vec<char>) -> (r: bool)
    ensures
        r == string_views(files@).contains(p@),
{
    contains_string(files, string_of(p).as_str())
}

/// The SysConfig root for a selected path (see `normalize_sysconfig_spec`).
pub fn normalize_sysconfig_path(path: &str, files: &Vec<String>) -> (r: Option<String>)
    ensures
        opt_string(r) == normalize_sysconfig_spec(path@, string_views(files@)),
{
    let p = chars_of(path);
    let cli = "sysconfig_cli.bat";
    if has_file(files, &p) && crate::tools::path_names_file(path, "nw.exe") {
        return match grandparent(path) {
            None => None,
            Some(root) => {
                if has_file(files, &path_join_str(&chars_of(root.as_str()), cli)) {
                    Some(root)
                } else {
                    None
                }
            },
        };
    }
    if has_file(files, &crate::sysconfig::sysconfig_nw_executable(&p)) && has_file(files, &path_join_str(&p, cli)) {
        return Some(string_of(&p));
    }
    if has_file(files, &path_join_str(&p, "nw.exe")) {
        return match path_parent(&p) {
            None => None,
            Some(root) => {
                if has_file(files, &path_join_str(&root, cli)) {
                    Some(string_of(&root))
                } else {
                    None
                }
            },
        };
    }
    None
}

/// Where SysConfig installations are looked for: three levels above CCS's
/// server (the CCS installation's parent), then `C:\ti` and `D:\ti`.
pub open spec fn sysconfig_search_roots_spec(ccs_executable: Option<Seq<char>>) -> Seq<Seq<char>> {
    let from_ccs = match grandparent_spec(ccs_executable) {
        Some(g) => match path_parent_spec(g) {
            Some(root) => seq![root],
            None => seq![],
        },
        None => seq![],
    };
    from_ccs + seq!["C:\\ti"@, "D:\\ti"@]
}

pub fn sysconfig_search_roots(ccs_executable: Option<&str>) -> (r: Vec<String>)
    ensures
        string_views(r@) == sysconfig_search_roots_spec(
            match ccs_executable {
                Some(c) => Some(c@),
                None => None,
            },
        ),
{
    let mut r: Vec<String> = Vec::new();
    assert(string_views(r@) =~= seq![]);
    match ccs_executable {
        Some(c) => match grandparent(c) {
            Some(g) => match path_parent(&chars_of(g.as_str())) {
                Some(root) => push_string(&mut r, root),
                None => {},
            },
            None => {},
        },
        None => {},
    }
    push_string(&mut r, chars_of("C:\\ti"));
    push_string(&mut r, chars_of("D:\\ti"));
    assert(string_views(r@) =~= sysconfig_search_roots_spec(
        match ccs_executable {
            Some(c) => Some(c@),
            None => None,
        },
    ));
    r
}

/// What to do with a directory entry met while looking for SysConfig.
#[derive(PartialEq, Eq, Structural, Clone, Copy, Debug)]
pub enum SysConfigEntry {
    /// A SysConfig installation.
    Candidate,
    /// A directory to look into.
    Descend,
    /// Nothing to look at.
    Skip,
}

/// A directory named `sysconfig_*` holding `nw\nw.exe` and
/// `sysconfig_cli.bat` is an installation; other directories are looked into
/// while `depth` levels remain; files are skipped.
pub open spec fn sysconfig_entry_spec(name: Seq<char>, is_dir: bool, has_nw: bool, has_cli: bool, depth: usize) -> SysConfigEntry {
    if !is_dir {
        SysConfigEntry::Skip
    } else if "sysconfig_"@.is_prefix_of(name) && has_nw && has_cli {
        SysConfigEntry::Candidate
    } else if depth > 0 {
        SysConfigEntry::Descend
    } else {
        SysConfigEntry::Skip
    }
}

pub fn sysconfig_entry(name: &str, is_dir: bool, has_nw: bool, has_cli: bool, depth: usize) -> (r: SysConfigEntry)
    ensures
        r == sysconfig_entry_spec(name@, is_dir, has_nw, has_cli, depth),
{
    if !is_dir {
        SysConfigEntry::Skip
    } else if starts_with_chars(&chars_of(name), &chars_of("sysconfig_")) && has_nw && has_cli {
        SysConfigEntry::Candidate
    } else if depth > 0 {
        SysConfigEntry::Descend
    } else {
        SysConfigEntry::Skip
    }
}

/// The version text of a SysConfig installation: its directory name.
pub open spec fn sysconfig_dir_names(c: Seq<String>) -> Seq<Seq<char>> {
    c.map_values(
        |p: String|
            match file_name_spec(p@) {
                Some(n) => n,
                None => seq![],
            },
    )
}

/// The SysConfig installation to use: the selected one when it normalizes
/// to a root, else the latest of those found, ordered by the version in the
/// directory name.
pub open spec fn discover_sysconfig_spec(selected_root: Option<Seq<char>>, candidates: Seq<String>) -> Option<Seq<char>> {
    if selected_root is Some {
        selected_root
    } else if candidates.len() == 0 {
        None
    } else {
        Some(candidates[choose|i: int| is_last_latest(version_keys(sysconfig_dir_names(candidates)), i)]@)
    }
}

/// Picks SysConfig (see `discover_sysconfig_spec`); `selected_root` is what
/// `normalize_sysconfig_path` gave for a non-empty selection.
pub fn discover_sysconfig(selected_root: Option<String>, candidates: &Vec<String>) -> (r: Option<String>)
    ensures
        opt_string(r) == discover_sysconfig_spec(opt_string(selected_root), candidates@),
{
    if selected_root.is_some() {
        return selected_root;
    }
    let mut names: Vec<String> = Vec::new();
    let mut i: usize = 0;
    while i < candidates.len()
        invariant
            i <= candidates.len(),
            string_views(names@) == sysconfig_dir_names(candidates@).take(i as int),
        decreases candidates.len() - i,
    {
        let n = match file_name_of(&chars_of(candidates[i].as_str())) {
            Some(n) => n,
            None => Vec::new(),
        };
        assert(n@ == sysconfig_dir_names(candidates@)[i as int]);
        let ghost before = names@;
        names.push(string_of(&n));
        assert(string_views(names@) =~= string_views(before).push(n@));
        assert(sysconfig_dir_names(candidates@).take(i + 1) =~= sysconfig_dir_names(candidates@).take(i as int).push(
            n@,
        ));
        i += 1;
    }
    assert(sysconfig_dir_names(candidates@).take(candidates.len() as int) =~= sysconfig_dir_names(candidates@));
    match latest_by_version(&names) {
        None => None,
        Some(k) => {
            proof {
                let keys = version_keys(sysconfig_dir_names(candidates@));
                let c = choose|i: int| is_last_latest(keys, i);
                lemma_last_latest_unique(keys, k as int, c);
            }
            Some(candidates[k].clone())
        },
    }
}

/// There is a last latest entry among keys that are not all absent.
proof fn lemma_last_latest_exists(keys: Seq<Seq<u32>>)
    requires
        keys.len() > 0,
    ensures
        exists|i: int| is_last_latest(keys, i),
    decreases keys.len(),
{
    let n = keys.len() - 1;
    if n == 0 {
        lemma_key_irreflexive(keys[0]);
        assert(is_last_latest(keys, 0));
    } else {
        let d = keys.drop_last();
        lemma_last_latest_exists(d);
        let i = choose|i: int| is_last_latest(d, i);
        let last = keys[n];
        assert(forall|j: int| 0 <= j < n ==> keys[j] == d[j]);
        lemma_key_total(last, keys[i]);
        if key_lt(last, keys[i]) {
            assert forall|j: int| 0 <= j < keys.len() implies !key_lt(keys[i], #[trigger] keys[j]) by {
                if j == n {
                    if key_lt(keys[i], last) {
                        lemma_key_transitive(keys[i], last, keys[i]);
                        lemma_key_irreflexive(keys[i]);
                    }
                } else {
                    assert(!key_lt(d[i], d[j]));
                }
            }
            assert forall|j: int| i < j < keys.len() implies key_lt(#[trigger] keys[j], keys[i]) by {
                if j < n {
                    assert(key_lt(d[j], d[i]));
                }
            }
            assert(is_last_latest(keys, i));
        } else {
            lemma_key_irreflexive(last);
            assert forall|j: int| 0 <= j < keys.len() implies !key_lt(last, #[trigger] keys[j]) by {
                if j < n && key_lt(last, keys[j]) {
                    assert(!key_lt(d[i], d[j]));
                    if key_lt(keys[i], last) {
                        lemma_key_transitive(keys[i], last, keys[j]);
                    }
                }
            }
            assert(is_last_latest(keys, n as int));
        }
    }
}

/// The version of a SysConfig installation by its directory's name (the
/// last path component); the rest of the path plays no part.
pub open spec fn directory_version(path: Seq<char>) -> Seq<u32> {
    match file_name_spec(path) {
        Some(n) => version_key_spec(n),
        None => version_key_spec(seq![]),
    }
}

/// With nothing selected, the SysConfig picked among those found is one
/// whose directory name has the greatest version.
pub proof fn law_sysconfig_latest_by_directory_name(candidates: Seq<String>)
    requires
        candidates.len() > 0,
    ensures
        exists|i: int|
            {
                &&& 0 <= i < candidates.len()
                &&& discover_sysconfig_spec(None, candidates) == Some((#[trigger] candidates[i])@)
                &&& forall|k: int|
                    0 <= k < candidates.len() ==> !key_lt(
                        directory_version(candidates[i]@),
                        directory_version(#[trigger] candidates[k]@),
                    )
            },
{
    let keys = version_keys(sysconfig_dir_names(candidates));
    assert forall|k: int| 0 <= k < candidates.len() implies keys[k] == directory_version(
        #[trigger] candidates[k]@,
    ) by {}
    lemma_last_latest_exists(keys);
    let i = choose|i: int| is_last_latest(keys, i);
    assert(forall|k: int| 0 <= k < candidates.len() ==> !key_lt(keys[i], #[trigger] keys[k]));
    assert(discover_sysconfig_spec(None, candidates) == Some(candidates[i]@));
}

/// The parent directories of the SysConfig installations found do not
/// affect the choice: two lists whose entries have the same directory names
/// pick the entry at the same place.
pub proof fn law_sysconfig_choice_ignores_parents(a: Seq<String>, b: Seq<String>)
    requires
        a.len() == b.len(),
        a.len() > 0,
        forall|k: int| 0 <= k < a.len() ==> file_name_spec((#[trigger] a[k])@) == file_name_spec(b[k]@),
    ensures
        exists|i: int|
            0 <= i < a.len() && discover_sysconfig_spec(None, a) == Some((#[trigger] a[i])@)
                && discover_sysconfig_spec(None, b) == Some(b[i]@),
{
    let ka = version_keys(sysconfig_dir_names(a));
    let kb = version_keys(sysconfig_dir_names(b));
    assert(ka =~= kb) by {
        assert forall|k: int| 0 <= k < ka.len() implies ka[k] == kb[k] by {
            assert(file_name_spec(a[k]@) == file_name_spec(b[k]@));
        }
    }
    lemma_last_latest_exists(ka);
    let i = choose|i: int| is_last_latest(ka, i);
    assert(discover_sysconfig_spec(None, a) == Some(a[i]@));
    assert(discover_sysconfig_spec(None, b) == Some(b[i]@));
}

/// The directories whose entries are looked at for installed SDKs, in order.
pub open spec fn sdk_search_roots_spec() -> Seq<Seq<char>> {
    seq!["C:\\ti"@, "D:\\ti"@]
}

/// The directories whose entries are looked at for installed SDKs (see
/// `sdk_search_roots_spec`).
pub fn sdk_search_roots() -> (r: Vec<String>)
    ensures
        string_views(r@) == sdk_search_roots_spec(),
{
    let mut r: Vec<String> = Vec::new();
    assert(string_views(r@) =~= seq![]);
    push_string(&mut r, chars_of("C:\\ti"));
    push_string(&mut r, chars_of("D:\\ti"));
    assert(string_views(r@) =~= sdk_search_roots_spec());
    r
}

/// The registry keys that may record Keil MDK's install path, in the order
/// tried: the 32-bit view first.
pub open spec fn keil_mdk_keys_spec() -> Seq<Seq<char>> {
    seq!["HKLM\\SOFTWARE\\WOW6432Node\\Keil\\Products\\MDK"@, "HKLM\\SOFTWARE\\Keil\\Products\\MDK"@]
}

/// The name of the registry value that holds Keil MDK's install path.
pub open spec fn keil_mdk_value_spec() -> Seq<char> {
    "Path"@
}

/// The registry keys that may record Keil MDK's install path (see
/// `keil_mdk_keys_spec`); the first whose `Path` value reads is used.
pub fn keil_mdk_keys() -> (r: Vec<String>)
    ensures
        string_views(r@) == keil_mdk_keys_spec(),
{
    let mut r: Vec<String> = Vec::new();
    assert(string_views(r@) =~= seq![]);
    push_string(&mut r, chars_of("HKLM\\SOFTWARE\\WOW6432Node\\Keil\\Products\\MDK"));
    push_string(&mut r, chars_of("HKLM\\SOFTWARE\\Keil\\Products\\MDK"));
    assert(string_views(r@) =~= keil_mdk_keys_spec());
    r
}

/// The name of the registry value that holds Keil MDK's install path.
pub fn keil_mdk_value() -> (r: String)
    ensures
        r@ == keil_mdk_value_spec(),
{
    string_of(&chars_of("Path"))
}

} // verus!
