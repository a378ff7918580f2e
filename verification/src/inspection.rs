//! Inspecting a project: telling CCS from Keil projects and gathering what a
//! conversion carries over (name, device, files, defines, include paths) and
//! what the user should be warned about.
use vstd::prelude::*;
use crate::inspect::{
    ccs_options_v, ccs_source_exclusions, collect_ccs_options, collect_keil_groups, collect_projectspec_files,
    ccs_exclusions_raw, file_view, files_view, keil_groups_v, keil_ref_view, keil_refs_view, projectspec_files_v, KeilFileRef,
};
use crate::model::{ProjectFile, ProjectInspection, ProjectKind};
use crate::project::{
    file_name, file_name_spec_or_project, find_device, find_device_spec, is_ccs_source_excluded,
    is_ccs_source_excluded_spec, source_group, source_group_spec, source_type, source_type_spec, split_list,
    split_list_spec,
};
use crate::sorting::{chars_less, dedup, is_sorted_dedup_of, law_sorted_dedup_unique, lex_lt, lemma_lex_irreflexive, lemma_lex_transitive};
use crate::xml_text::{parse_xml, xml_parse_spec};
use crate::text::{
    append_chars, chars_equal, chars_of, contains_chars, lower_chars, lower_seq, map_char, map_char_seq,
    seq_contains, string_of, string_views,
};
use crate::winpath::{extension_of, parent_of, parent_spec, path_extension_spec};
use crate::xml::{
    attr_v, attribute, element_get_text, element_text, element_text_v, element_view, find_element, find_v,
    text_v, ElementV, XmlElement,
};

verus! {

// ---------------------------------------------------------------------------
// Detecting the project kind
// ---------------------------------------------------------------------------

/// What the file system says about a selected project path.
pub struct PathFacts {
    pub is_file: bool,
    pub is_dir: bool,
    /// A `.cproject` file is directly in the directory.
    pub has_cproject: bool,
    /// Whether a `.projectspec` file lies within three directory levels.
    pub projectspec_found: Result<bool, String>,
    /// Whether a `.uvprojx` file lies within three directory levels.
    pub uvprojx_found: Result<bool, String>,
}

/// The kind of project at `path`: a `.uvprojx` or `.projectspec` file, or a
/// directory with a `.cproject`, or with project files of one kind only.
pub open spec fn detect_project_spec(path: Seq<char>, f: PathFacts) -> Result<ProjectKind, Seq<char>> {
    if f.is_file {
        match path_extension_spec(path) {
            Some(e) => if e == "uvprojx"@ {
                Ok(ProjectKind::Keil)
            } else if e == "projectspec"@ {
                Ok(ProjectKind::Ccs)
            } else {
                Err("请选择 CCS/Keil 工程目录或工程文件"@)
            },
            None => Err("请选择 CCS/Keil 工程目录或工程文件"@),
        }
    } else if !f.is_dir {
        Err("工程路径不存在"@)
    } else if f.has_cproject {
        Ok(ProjectKind::Ccs)
    } else {
        match f.projectspec_found {
            Err(e) => Err(e@),
            Ok(ccs) => match f.uvprojx_found {
                Err(e) => Err(e@),
                Ok(keil) => if ccs && !keil {
                    Ok(ProjectKind::Ccs)
                } else if !ccs && keil {
                    Ok(ProjectKind::Keil)
                } else if ccs && keil {
                    Err("目录中同时存在 CCS 和 Keil 工程，请选择更具体的工程子目录"@)
                } else {
                    Err("未找到 CCS 的 .cproject/.projectspec 或 Keil 的 .uvprojx"@)
                },
            },
        }
    }
}

/// Tells whether the project at `path` is a CCS or a Keil project.
pub fn detect_project(path: &str, facts: &PathFacts) -> (r: Result<ProjectKind, String>)
    ensures
        match r {
            Ok(k) => detect_project_spec(path@, *facts) == Ok::<ProjectKind, Seq<char>>(k),
            Err(e) => detect_project_spec(path@, *facts) == Err::<ProjectKind, Seq<char>>(e@),
        },
{
    if facts.is_file {
        return match extension_of(&chars_of(path)) {
            Some(e) => {
                if chars_equal(&e, &chars_of("uvprojx")) {
                    Ok(ProjectKind::Keil)
                } else if chars_equal(&e, &chars_of("projectspec")) {
                    Ok(ProjectKind::Ccs)
                } else {
                    Err(string_of(&chars_of("请选择 CCS/Keil 工程目录或工程文件")))
                }
            },
            None => Err(string_of(&chars_of("请选择 CCS/Keil 工程目录或工程文件"))),
        };
    }
    if !facts.is_dir {
        return Err(string_of(&chars_of("工程路径不存在")));
    }
    if facts.has_cproject {
        return Ok(ProjectKind::Ccs);
    }
    let ccs = match &facts.projectspec_found {
        Ok(b) => *b,
        Err(e) => return Err(e.clone()),
    };
    let keil = match &facts.uvprojx_found {
        Ok(b) => *b,
        Err(e) => return Err(e.clone()),
    };
    if ccs && !keil {
        Ok(ProjectKind::Ccs)
    } else if !ccs && keil {
        Ok(ProjectKind::Keil)
    } else if ccs && keil {
        Err(string_of(&chars_of("目录中同时存在 CCS 和 Keil 工程，请选择更具体的工程子目录")))
    } else {
        Err(string_of(&chars_of("未找到 CCS 的 .cproject/.projectspec 或 Keil 的 .uvprojx")))
    }
}

// ---------------------------------------------------------------------------
// Sorting file lists
// ---------------------------------------------------------------------------

/// Index of the first file whose path comes strictly after `p`.
pub open spec fn insert_position(s: Seq<(Seq<char>, Seq<char>, Seq<char>)>, p: Seq<char>, j: int) -> int
    decreases s.len() - j,
{
    if j < 0 || j >= s.len() {
        s.len() as int
    } else if lex_lt(p, s[j].0) {
        j
    } else {
        insert_position(s, p, j + 1)
    }
}

/// The files sorted by path; files with equal paths keep their order.
pub open spec fn sort_by_path(fs: Seq<(Seq<char>, Seq<char>, Seq<char>)>) -> Seq<(Seq<char>, Seq<char>, Seq<char>)>
    decreases fs.len(),
{
    if fs.len() == 0 {
        seq![]
    } else {
        let s = sort_by_path(fs.drop_last());
        s.insert(insert_position(s, fs.last().0, 0), fs.last())
    }
}

pub proof fn lemma_insert_position_bounds(s: Seq<(Seq<char>, Seq<char>, Seq<char>)>, p: Seq<char>, j: int)
    requires
        0 <= j <= s.len(),
    ensures
        j <= insert_position(s, p, j) <= s.len(),
    decreases s.len() - j,
{
    if j < s.len() && !lex_lt(p, s[j].0) {
        lemma_insert_position_bounds(s, p, j + 1);
    }
}

/// No file comes after a file whose path is greater.
pub open spec fn sorted_by_path(s: Seq<(Seq<char>, Seq<char>, Seq<char>)>) -> bool {
    forall|i: int, j: int| #![trigger s[i], s[j]] 0 <= i < j < s.len() ==> !lex_lt(s[j].0, s[i].0)
}

proof fn lemma_insert_position_props(s: Seq<(Seq<char>, Seq<char>, Seq<char>)>, p: Seq<char>, j: int)
    requires
        0 <= j <= s.len(),
    ensures
        j <= insert_position(s, p, j) <= s.len(),
        forall|m: int| j <= m < insert_position(s, p, j) ==> !lex_lt(p, (#[trigger] s[m]).0),
        insert_position(s, p, j) < s.len() ==> lex_lt(p, s[insert_position(s, p, j)].0),
    decreases s.len() - j,
{
    if j < s.len() && !lex_lt(p, s[j].0) {
        lemma_insert_position_props(s, p, j + 1);
    }
}

/// The inspected files come out sorted by path, and they are the files
/// that were found, each as often as it was found.
pub proof fn law_sort_by_path(fs: Seq<(Seq<char>, Seq<char>, Seq<char>)>)
    ensures
        sorted_by_path(sort_by_path(fs)),
        sort_by_path(fs).to_multiset() == fs.to_multiset(),
    decreases fs.len(),
{
    if fs.len() > 0 {
        let d = fs.drop_last();
        let x = fs.last();
        law_sort_by_path(d);
        let s = sort_by_path(d);
        let k = insert_position(s, x.0, 0);
        lemma_insert_position_props(s, x.0, 0);
        let t = s.insert(k, x);
        assert(t == sort_by_path(fs));
        assert forall|i: int, j: int| #![trigger t[i], t[j]] 0 <= i < j < t.len() implies !lex_lt(t[j].0, t[i].0) by {
            if j < k {
                assert(t[i] == s[i] && t[j] == s[j]);
            } else if j == k {
                assert(t[i] == s[i]);
                assert(t[j] == x);
            } else if i < k {
                assert(t[i] == s[i] && t[j] == s[j - 1]);
            } else if i == k {
                assert(t[i] == x && t[j] == s[j - 1]);
                assert(lex_lt(x.0, s[k].0));
                if lex_lt(s[j - 1].0, x.0) {
                    lemma_lex_transitive(s[j - 1].0, x.0, s[k].0);
                    if k == j - 1 {
                        lemma_lex_irreflexive(s[k].0);
                    } else {
                        assert(!lex_lt(s[j - 1].0, s[k].0));
                    }
                }
            } else {
                assert(t[i] == s[i - 1] && t[j] == s[j - 1]);
            }
        }
        vstd::seq_lib::to_multiset_insert(s, k, x);
        vstd::seq_lib::to_multiset_build(d, x);
        assert(d.push(x) =~= fs);
        assert(t.to_multiset() == s.to_multiset().insert(x));
        assert(fs.to_multiset() == d.to_multiset().insert(x));
    } else {
        assert(fs =~= sort_by_path(fs));
    }
}

/// The files sorted by path, a stable sort.
pub fn sort_files_by_path(files: Vec<ProjectFile>) -> (r: Vec<ProjectFile>)
    ensures
        files_view(r@) == sort_by_path(files_view(files@)),
{
    let ghost fv = files_view(files@);
    let mut r: Vec<ProjectFile> = Vec::new();
    let mut rest = files;
    let mut i: usize = 0;
    let n = rest.len();
    assert(fv.take(0) =~= seq![]);
    while rest.len() > 0
        invariant
            i <= fv.len(),
            fv.len() == n,
            files_view(rest@) == fv.skip(i as int),
            files_view(r@) == sort_by_path(fv.take(i as int)),
        decreases rest.len(),
    {
        let ghost old_rest = rest@;
        let f = rest.remove(0);
        assert(old_rest.len() > 0);
        assert(f == old_rest[0]);
        assert(files_view(old_rest).len() == old_rest.len());
        assert(files_view(old_rest)[0] == file_view(old_rest[0]));
        assert(files_view(old_rest)[0] == file_view(f));
        assert(files_view(old_rest) == fv.skip(i as int));
        assert(i < fv.len());
        assert(fv.skip(i as int)[0] == fv[i as int]);
        assert(files_view(rest@) =~= fv.skip(i + 1)) by {
            assert forall|k: int| 0 <= k < rest@.len() implies files_view(rest@)[k] == fv.skip(i + 1)[k] by {
                assert(rest@[k] == old_rest[k + 1]);
                assert(files_view(old_rest)[k + 1] == fv.skip(i as int)[k + 1]);
            }
        }
        let ghost s = files_view(r@);
        let p = chars_of(f.path.as_str());
        let mut j: usize = 0;
        assert(insert_position(s, p@, 0) == insert_position(s, p@, 0));
        while j < r.len()
            invariant
                j <= r.len(),
                s == files_view(r@),
                insert_position(s, p@, 0) == insert_position(s, p@, j as int),
            ensures
                j <= r.len(),
                insert_position(s, p@, 0) == j,
            decreases r.len() - j,
        {
            assert(s[j as int].0 == r@[j as int].path@);
            if chars_less(&p, &chars_of(r[j].path.as_str())) {
                break;
            }
            j += 1;
        }
        proof {
            let t = fv.take(i + 1);
            assert(t.drop_last() =~= fv.take(i as int));
            assert(t.last() == file_view(f));
        }
        r.insert(j, f);
        assert(files_view(r@) =~= s.insert(j as int, file_view(f)));
        i += 1;
    }
    assert(fv.take(i as int) =~= fv);
    r
}

// ---------------------------------------------------------------------------
// CCS projects
// ---------------------------------------------------------------------------

/// What to do with an entry met while walking a CCS project directory.
pub enum SourceEntry {
    /// A directory to walk into.
    Descend,
    /// An entry that is not part of the conversion.
    Skip,
    /// A project file.
    File(ProjectFile),
}

/// Directory names that are never walked into.
pub open spec fn skipped_dirs() -> Seq<Seq<char>> {
    seq![".git"@, ".settings"@, "Debug"@, "Release"@, "Objects"@, "Listings"@, "targetConfigs"@]
}

/// An entry of a CCS project directory: `relative` is its path below the
/// project, `name` its file name.
pub open spec fn local_source_entry_spec(
    relative: Seq<char>,
    name: Seq<char>,
    is_dir: bool,
    exclusions: Seq<Seq<char>>,
) -> Option<Option<(Seq<char>, Seq<char>, Seq<char>)>> {
    if is_dir {
        if skipped_dirs().contains(name) {
            Some(None)
        } else {
            None
        }
    } else {
        match source_type_spec(name) {
            None => Some(None),
            Some(k) => if k != "header"@ && is_ccs_source_excluded_spec(relative, exclusions) {
                Some(None)
            } else {
                Some(Some((relative, source_group_spec(k), k)))
            },
        }
    }
}

/// Classifies an entry met while walking a CCS project directory:
/// `Descend` is `None`, `Skip` is `Some(None)`, a file is `Some(Some(..))`.
pub fn local_source_entry(relative: &str, name: &str, is_dir: bool, exclusions: &Vec<String>) -> (r: SourceEntry)
    ensures
        local_source_entry_spec(relative@, name@, is_dir, string_views(exclusions@)) == (match r {
            SourceEntry::Descend => None,
            SourceEntry::Skip => Some(None),
            SourceEntry::File(f) => Some(Some(file_view(f))),
        }),
{
    let n = chars_of(name);
    if is_dir {
        let skipped = vec![chars_of(".git"), chars_of(".settings"), chars_of("Debug"), chars_of("Release"),
            chars_of("Objects"), chars_of("Listings"), chars_of("targetConfigs")];
        assert(crate::text::views(skipped@) =~= skipped_dirs());
        let mut i: usize = 0;
        while i < skipped.len()
            invariant
                i <= skipped.len(),
                n@ == name@,
                is_dir,
                crate::text::views(skipped@) == skipped_dirs(),
                forall|k: int| 0 <= k < i ==> skipped_dirs()[k] != n@,
            decreases skipped.len() - i,
        {
            assert(skipped_dirs()[i as int] == skipped@[i as int]@);
            if chars_equal(&skipped[i], &n) {
                assert(skipped_dirs()[i as int] == name@);
                assert(skipped_dirs().contains(name@));
                return SourceEntry::Skip;
            }
            i += 1;
        }
        assert(!skipped_dirs().contains(name@));
        return SourceEntry::Descend;
    }
    match source_type(&n) {
        None => SourceEntry::Skip,
        Some(k) => {
            if !chars_equal(&k, &chars_of("header")) && is_ccs_source_excluded(&chars_of(relative), exclusions) {
                SourceEntry::Skip
            } else {
                SourceEntry::File(
                    ProjectFile { path: string_of(&chars_of(relative)), group: string_of(&source_group(&k)), file_type: string_of(&k) },
                )
            }
        },
    }
}

/// Whether a source text includes the SysConfig generated header.
pub fn mentions_config_header(content: &str) -> (r: bool)
    ensures
        r == seq_contains(content@, "ti_msp_dl_config.h"@),
{
    contains_chars(&chars_of(content), &chars_of("ti_msp_dl_config.h"))
}

/// A file found in a CCS project directory, and whether its text includes
/// the SysConfig generated header.
pub struct CcsSource {
    pub file: ProjectFile,
    pub mentions_config_header: bool,
}

/// An entry met while listing a CCS project directory: its path below the
/// project (separated by `/`), its file name, whether it is a directory,
/// and for a file whether its text includes the SysConfig generated header.
pub struct ListedEntry {
    pub relative: String,
    pub name: String,
    pub is_dir: bool,
    pub mentions_config_header: bool,
}

/// The entry lies below a directory that is never walked into.
pub open spec fn in_skipped_dir(relative: Seq<char>) -> bool {
    exists|k: int| 0 <= k < skipped_dirs().len() && seq_contains("/"@ + relative, "/"@ + #[trigger] skipped_dirs()[k] + "/"@)
}

/// The project file that a listed entry is, if any.
pub open spec fn listed_source(e: ListedEntry, exclusions: Seq<Seq<char>>) -> Option<(Seq<char>, Seq<char>, Seq<char>)> {
    if e.is_dir || in_skipped_dir(e.relative@) {
        None
    } else {
        match local_source_entry_spec(e.relative@, e.name@, false, exclusions) {
            Some(Some(f)) => Some(f),
            _ => None,
        }
    }
}

/// The project files of a listing, in listing order, each with whether its
/// text includes the SysConfig generated header.
pub open spec fn listed_sources(es: Seq<ListedEntry>, exclusions: Seq<Seq<char>>) -> Seq<((Seq<char>, Seq<char>, Seq<char>), bool)>
    decreases es.len(),
{
    if es.len() == 0 {
        seq![]
    } else {
        let rest = listed_sources(es.drop_last(), exclusions);
        match listed_source(es.last(), exclusions) {
            Some(f) => rest.push((f, es.last().mentions_config_header)),
            None => rest,
        }
    }
}

pub open spec fn source_pairs(s: Seq<CcsSource>) -> Seq<((Seq<char>, Seq<char>, Seq<char>), bool)> {
    s.map_values(|x: CcsSource| (file_view(x.file), x.mentions_config_header))
}

pub open spec fn pair_files(ps: Seq<((Seq<char>, Seq<char>, Seq<char>), bool)>) -> Seq<(Seq<char>, Seq<char>, Seq<char>)> {
    ps.map_values(|p: ((Seq<char>, Seq<char>, Seq<char>), bool)| p.0)
}

fn in_skipped_dir_exec(relative: &str) -> (r: bool)
    ensures
        r == in_skipped_dir(relative@),
{
    let mut rooted = chars_of("/");
    append_chars(&mut rooted, &chars_of(relative));
    let skipped = vec![chars_of(".git"), chars_of(".settings"), chars_of("Debug"), chars_of("Release"),
        chars_of("Objects"), chars_of("Listings"), chars_of("targetConfigs")];
    assert(crate::text::views(skipped@) =~= skipped_dirs());
    let mut i: usize = 0;
    while i < skipped.len()
        invariant
            i <= skipped.len(),
            rooted@ == "/"@ + relative@,
            crate::text::views(skipped@) == skipped_dirs(),
            forall|k: int| 0 <= k < i ==> !seq_contains("/"@ + relative@, "/"@ + #[trigger] skipped_dirs()[k] + "/"@),
        decreases skipped.len() - i,
    {
        let mut needle = chars_of("/");
        append_chars(&mut needle, &skipped[i]);
        append_chars(&mut needle, &chars_of("/"));
        assert(skipped_dirs()[i as int] == skipped@[i as int]@);
        assert(needle@ == "/"@ + skipped_dirs()[i as int] + "/"@);
        if contains_chars(&rooted, &needle) {
            return true;
        }
        i += 1;
    }
    false
}

/// The project files of a CCS project listing: the files that are not below
/// a skipped directory and that `local_source_entry` takes, in listing order.
pub fn ccs_sources(entries: &Vec<ListedEntry>, exclusions: &Vec<String>) -> (r: Vec<CcsSource>)
    ensures
        source_pairs(r@) == listed_sources(entries@, string_views(exclusions@)),
{
    let ghost ex = string_views(exclusions@);
    let mut r: Vec<CcsSource> = Vec::new();
    let mut i: usize = 0;
    while i < entries.len()
        invariant
            i <= entries.len(),
            ex == string_views(exclusions@),
            source_pairs(r@) == listed_sources(entries@.take(i as int), ex),
        decreases entries.len() - i,
    {
        let e = &entries[i];
        assert(entries@.take(i + 1).drop_last() =~= entries@.take(i as int));
        assert(entries@.take(i + 1).last() == *e);
        if !e.is_dir && !in_skipped_dir_exec(e.relative.as_str()) {
            match local_source_entry(e.relative.as_str(), e.name.as_str(), false, exclusions) {
                SourceEntry::File(f) => {
                    let ghost before = r@;
                    let s = CcsSource { file: f, mentions_config_header: e.mentions_config_header };
                    r.push(s);
                    assert(source_pairs(r@) =~= source_pairs(before).push((file_view(f), e.mentions_config_header)));
                },
                _ => {},
            }
        }
        i += 1;
    }
    assert(entries@.take(entries.len() as int) =~= entries@);
    r
}

/// What the files and documents of a CCS project with a `.cproject` hold.
pub struct CcsProjectData {
    /// The project directory.
    pub root: String,
    /// The text of `.cproject`.
    pub cproject_text: String,
    /// The text of `.project`, when it could be read.
    pub project_text: Option<String>,
    /// The entries below the project directory, or why listing it failed.
    pub listing: Result<Vec<ListedEntry>, String>,
    /// Whether a generated `ti_msp_dl_config.c` was found.
    pub generated_config_c: Result<bool, String>,
    /// Whether a generated `ti_msp_dl_config.h` was found.
    pub generated_config_h: Result<bool, String>,
}

/// The project uses SysConfig: it has a `.syscfg` file, or a source or
/// header that includes the generated header.
pub open spec fn uses_sysconfig(ps: Seq<((Seq<char>, Seq<char>, Seq<char>), bool)>) -> bool {
    exists|i: int| 0 <= i < ps.len() && ({
        let p = #[trigger] ps[i];
        p.0.2 == "syscfg"@ || ((p.0.2 == "source"@ || p.0.2 == "header"@) && p.1)
    })
}

/// The name of a CCS project: the text of `.project`'s `name` element, or
/// the directory's name.
pub open spec fn ccs_name_spec(root: Seq<char>, description: Option<ElementV>) -> Seq<char> {
    match description {
        Some(d) => match find_v(d, "name"@) {
            Some(n) => match text_v(n) {
                Some(t) => t,
                None => file_name_spec_or_project(root),
            },
            None => file_name_spec_or_project(root),
        },
        None => file_name_spec_or_project(root),
    }
}

pub open spec fn startup_warning(path: Seq<char>) -> Seq<char> {
    path + " 是 CCS 启动文件，转换时将替换为目标工具链版本"@
}

/// A warning for each CCS startup source.
pub open spec fn startup_warnings(fs: Seq<(Seq<char>, Seq<char>, Seq<char>)>) -> Seq<Seq<char>>
    decreases fs.len(),
{
    if fs.len() == 0 {
        seq![]
    } else {
        let rest = startup_warnings(fs.drop_last());
        let f = fs.last();
        if seq_contains(lower_seq(f.0), "startup_"@) && f.2 == "source"@ {
            rest.push(startup_warning(f.0))
        } else {
            rest
        }
    }
}

pub open spec fn missing_generated_warning() -> Seq<char> {
    "工程使用 SysConfig，但缺少 ti_msp_dl_config.c/h；如果本机没有 CCS，请让发送方先构建一次并一并发送生成文件，或在本机配置 SysConfig/CCS 后再转换"@
}

/// `.project`'s document, when its text was read and parses.
pub open spec fn ccs_description(project_text: Option<String>) -> Option<ElementV> {
    match project_text {
        Some(t) => match xml_parse_spec(t@) {
            Ok(e) => Some(e),
            Err(_) => None,
        },
        None => None,
    }
}

/// The exclusions of a `.cproject` document, sorted and each once.
pub open spec fn sorted_exclusions(cproject: ElementV) -> Seq<Seq<char>> {
    choose|ex: Seq<Seq<char>>| is_sorted_dedup_of(ex, ccs_exclusions_raw(cproject))
}

/// The project files of a listed CCS project (none when the listing failed).
pub open spec fn ccs_listed_sources(d: CcsProjectData, cproject: ElementV) -> Seq<((Seq<char>, Seq<char>, Seq<char>), bool)> {
    match d.listing {
        Ok(es) => listed_sources(es@, sorted_exclusions(cproject)),
        Err(_) => seq![],
    }
}

/// The warnings of a CCS inspection, or the error of a generated file search.
pub open spec fn ccs_warnings_of(
    ps: Seq<((Seq<char>, Seq<char>, Seq<char>), bool)>,
    generated_c: Result<bool, String>,
    generated_h: Result<bool, String>,
) -> Result<Seq<Seq<char>>, Seq<char>> {
    let startup = startup_warnings(sort_by_path(pair_files(ps)));
    if uses_sysconfig(ps) {
        match generated_c {
            Err(e) => Err(e@),
            Ok(c) => if !c {
                Ok(startup.push(missing_generated_warning()))
            } else {
                match generated_h {
                    Err(e) => Err(e@),
                    Ok(h) => if !h {
                        Ok(startup.push(missing_generated_warning()))
                    } else {
                        Ok(startup)
                    },
                }
            },
        }
    } else {
        Ok(startup)
    }
}

/// Why inspecting a CCS project whose `.cproject` parses to `cproject`
/// fails, in the order of the checks; `None` when it succeeds.
pub open spec fn ccs_failure(d: CcsProjectData, cproject: ElementV) -> Option<Seq<char>> {
    if find_device_spec(d.cproject_text@) is None {
        Some("无法从 CCS 工程识别 MSPM0 芯片"@)
    } else {
        match d.listing {
            Err(e) => Some(e@),
            Ok(_) => match ccs_warnings_of(ccs_listed_sources(d, cproject), d.generated_config_c, d.generated_config_h) {
                Err(e) => Some(e),
                Ok(_) => None,
            },
        }
    }
}

/// What inspecting a CCS project with a `.cproject` gives.
pub open spec fn ccs_inspected(d: CcsProjectData, r: Result<ProjectInspection, String>) -> bool {
    match xml_parse_spec(d.cproject_text@) {
        Err(m) => r matches Err(e) && e@ == ".cproject 无法解析："@ + m,
        Ok(cp) => match r {
            Ok(ins) => {
                &&& ccs_failure(d, cp) is None
                &&& find_device_spec(d.cproject_text@) == Some(ins.device@)
                &&& ins.kind == ProjectKind::Ccs
                &&& ins.target_kind == ProjectKind::Keil
                &&& ins.name@ == ccs_name_spec(d.root@, ccs_description(d.project_text))
                &&& files_view(ins.files@) == sort_by_path(pair_files(ccs_listed_sources(d, cp)))
                &&& is_sorted_dedup_of(string_views(ins.defines@), ccs_options_v(cp).0)
                &&& is_sorted_dedup_of(string_views(ins.include_paths@), ccs_options_v(cp).1)
                &&& ccs_warnings_of(ccs_listed_sources(d, cp), d.generated_config_c, d.generated_config_h) == Ok::<
                    Seq<Seq<char>>,
                    Seq<char>,
                >(string_views(ins.warnings@))
            },
            Err(e) => ccs_failure(d, cp) == Some(e@),
        },
    }
}

fn startup_warnings_exec(files: &Vec<ProjectFile>) -> (r: Vec<String>)
    ensures
        string_views(r@) == startup_warnings(files_view(files@)),
{
    let ghost fv = files_view(files@);
    let mut r: Vec<String> = Vec::new();
    let mut i: usize = 0;
    while i < files.len()
        invariant
            i <= files.len(),
            fv == files_view(files@),
            string_views(r@) == startup_warnings(fv.take(i as int)),
        decreases files.len() - i,
    {
        let f = &files[i];
        assert(fv.take(i + 1).drop_last() =~= fv.take(i as int));
        assert(fv.take(i + 1).last() == file_view(*f));
        let lower = lower_chars(&chars_of(f.path.as_str()));
        if contains_chars(&lower, &chars_of("startup_")) && chars_equal(&chars_of(f.file_type.as_str()), &chars_of("source")) {
            let mut w = chars_of(f.path.as_str());
            append_chars(&mut w, &chars_of(" 是 CCS 启动文件，转换时将替换为目标工具链版本"));
            let ghost before = string_views(r@);
            r.push(string_of(&w));
            assert(string_views(r@) =~= before.push(w@));
        }
        i += 1;
    }
    assert(fv.take(files.len() as int) =~= fv);
    r
}

fn uses_sysconfig_exec(s: &Vec<CcsSource>) -> (r: bool)
    ensures
        r == uses_sysconfig(source_pairs(s@)),
{
    let ghost ps = source_pairs(s@);
    let mut i: usize = 0;
    while i < s.len()
        invariant
            i <= s.len(),
            ps == source_pairs(s@),
            forall|k: int| 0 <= k < i ==> !({
                let p = #[trigger] ps[k];
                p.0.2 == "syscfg"@ || ((p.0.2 == "source"@ || p.0.2 == "header"@) && p.1)
            }),
        decreases s.len() - i,
    {
        assert(ps[i as int] == (file_view(s@[i as int].file), s@[i as int].mentions_config_header));
        let t = chars_of(s[i].file.file_type.as_str());
        if chars_equal(&t, &chars_of("syscfg")) || ((chars_equal(&t, &chars_of("source")) || chars_equal(&t, &chars_of("header")))
            && s[i].mentions_config_header) {
            return true;
        }
        i += 1;
    }
    false
}

fn copy_file(f: &ProjectFile) -> (r: ProjectFile)
    ensures
        file_view(r) == file_view(*f),
{
    ProjectFile { path: f.path.clone(), group: f.group.clone(), file_type: f.file_type.clone() }
}

fn parse_error(prefix: &str, m: String) -> (r: String)
    ensures
        r@ == prefix@ + m@,
{
    let mut e = chars_of(prefix);
    append_chars(&mut e, &chars_of(m.as_str()));
    string_of(&e)
}

/// Inspects a CCS project with a `.cproject` (see `ccs_inspected`).
pub fn inspect_ccs(d: &CcsProjectData) -> (r: Result<ProjectInspection, String>)
    ensures
        ccs_inspected(*d, r),
{
    let cproject = match parse_xml(d.cproject_text.as_str()) {
        Ok(c) => c,
        Err(m) => return Err(parse_error(".cproject 无法解析：", m)),
    };
    let ghost cp = element_view(cproject);
    let mut defines: Vec<String> = Vec::new();
    let mut include_paths: Vec<String> = Vec::new();
    collect_ccs_options(&cproject, &mut defines, &mut include_paths);
    assert(string_views(defines@) =~= ccs_options_v(cp).0);
    assert(string_views(include_paths@) =~= ccs_options_v(cp).1);
    dedup(&mut defines);
    dedup(&mut include_paths);
    let root = chars_of(d.root.as_str());
    let description = match &d.project_text {
        Some(t) => match parse_xml(t.as_str()) {
            Ok(e) => Some(e),
            Err(_) => None,
        },
        None => None,
    };
    let name: Vec<char> = match &description {
        Some(desc) => match find_element(desc, &chars_of("name")) {
            Some(n) => match element_get_text(n) {
                Some(t) => t,
                None => file_name(&root),
            },
            None => file_name(&root),
        },
        None => file_name(&root),
    };
    assert(name@ == ccs_name_spec(d.root@, ccs_description(d.project_text)));
    let device = match find_device(&chars_of(d.cproject_text.as_str())) {
        Some(dv) => dv,
        None => return Err(string_of(&chars_of("无法从 CCS 工程识别 MSPM0 芯片"))),
    };
    let exclusions = ccs_source_exclusions(&cproject);
    proof {
        let raw = ccs_exclusions_raw(cp);
        assert(is_sorted_dedup_of(string_views(exclusions@), raw));
        assert(is_sorted_dedup_of(sorted_exclusions(cp), raw));
        law_sorted_dedup_unique(string_views(exclusions@), sorted_exclusions(cp), raw);
    }
    let entries = match &d.listing {
        Ok(es) => es,
        Err(e) => return Err(e.clone()),
    };
    let sources = ccs_sources(entries, &exclusions);
    let ghost ps = source_pairs(sources@);
    assert(ps == ccs_listed_sources(*d, cp));
    let mut unsorted: Vec<ProjectFile> = Vec::new();
    let mut i: usize = 0;
    while i < sources.len()
        invariant
            i <= sources.len(),
            ps == source_pairs(sources@),
            files_view(unsorted@) == pair_files(ps).take(i as int),
        decreases sources.len() - i,
    {
        let f = copy_file(&sources[i].file);
        let ghost before = unsorted@;
        unsorted.push(f);
        assert(pair_files(ps)[i as int] == file_view(f));
        assert(files_view(unsorted@) =~= files_view(before).push(file_view(f)));
        assert(pair_files(ps).take(i + 1) =~= pair_files(ps).take(i as int).push(file_view(f)));
        i += 1;
    }
    assert(pair_files(ps).take(sources.len() as int) =~= pair_files(ps));
    let files = sort_files_by_path(unsorted);
    let mut warnings = startup_warnings_exec(&files);
    let ghost w0 = string_views(warnings@);
    if uses_sysconfig_exec(&sources) {
        let c = match &d.generated_config_c {
            Ok(b) => *b,
            Err(e) => return Err(e.clone()),
        };
        let missing = if !c {
            true
        } else {
            match &d.generated_config_h {
                Ok(b) => !*b,
                Err(e) => return Err(e.clone()),
            }
        };
        if missing {
            let w = chars_of(
                "工程使用 SysConfig，但缺少 ti_msp_dl_config.c/h；如果本机没有 CCS，请让发送方先构建一次并一并发送生成文件，或在本机配置 SysConfig/CCS 后再转换",
            );
            warnings.push(string_of(&w));
            assert(string_views(warnings@) =~= w0.push(missing_generated_warning()));
        }
    }
    Ok(ProjectInspection {
        kind: ProjectKind::Ccs,
        target_kind: ProjectKind::Keil,
        name: string_of(&name),
        device: string_of(&device),
        files,
        include_paths,
        defines,
        warnings,
    })
}

// ---------------------------------------------------------------------------
// CCS project specifications
// ---------------------------------------------------------------------------

/// The inspection of a `.projectspec`, as (name, device, files); or why not.
pub open spec fn projectspec_spec(path: Seq<char>, doc: ElementV) -> Result<
    (Seq<char>, Seq<char>, Seq<(Seq<char>, Seq<char>, Seq<char>)>),
    Seq<char>,
> {
    match find_v(doc, "project"@) {
        None => Err(".projectspec 缺少 project 节点"@),
        Some(p) => match attr_v(p, "device"@) {
            None => Err(".projectspec 缺少器件"@),
            Some(device) => Ok(
                (
                    match attr_v(p, "name"@) {
                        Some(n) => n,
                        None => file_name_spec_or_project(path),
                    },
                    device,
                    projectspec_files_v(p.children, 0, parent_spec(path)),
                ),
            ),
        },
    }
}

/// What inspecting a `.projectspec` read from `path` gives.
pub open spec fn projectspec_inspected(path: Seq<char>, text: Seq<char>, r: Result<ProjectInspection, String>) -> bool {
    match xml_parse_spec(text) {
        Err(m) => r matches Err(e) && e@ == m,
        Ok(doc) => match r {
            Ok(ins) => projectspec_spec(path, doc) == Ok::<
                (Seq<char>, Seq<char>, Seq<(Seq<char>, Seq<char>, Seq<char>)>),
                Seq<char>,
            >((ins.name@, ins.device@, files_view(ins.files@))) && ins.kind == ProjectKind::Ccs
                && ins.target_kind == ProjectKind::Keil && ins.include_paths@.len() == 0 && ins.defines@.len() == 0
                && ins.warnings@.len() == 0,
            Err(e) => projectspec_spec(path, doc) == Err::<
                (Seq<char>, Seq<char>, Seq<(Seq<char>, Seq<char>, Seq<char>)>),
                Seq<char>,
            >(e@),
        },
    }
}

/// Inspects a CCS `.projectspec` read from `path`, its text `text`.
pub fn inspect_projectspec(path: &str, text: &str) -> (r: Result<ProjectInspection, String>)
    ensures
        projectspec_inspected(path@, text@, r),
{
    let parsed = match parse_xml(text) {
        Ok(x) => x,
        Err(m) => return Err(m),
    };
    let doc = &parsed;
    let project = match find_element(doc, &chars_of("project")) {
        Some(p) => p,
        None => return Err(string_of(&chars_of(".projectspec 缺少 project 节点"))),
    };
    let device = match attribute(project, &chars_of("device")) {
        Some(dv) => dv,
        None => return Err(string_of(&chars_of(".projectspec 缺少器件"))),
    };
    let p = chars_of(path);
    let name = match attribute(project, &chars_of("name")) {
        Some(n) => n,
        None => string_of(&file_name(&p)),
    };
    let mut files: Vec<ProjectFile> = Vec::new();
    collect_projectspec_files(project, &parent_of(&p), &mut files);
    assert(files_view(files@) =~= seq![] + projectspec_files_v(element_view(*project).children, 0, parent_spec(p@)));
    Ok(ProjectInspection {
        kind: ProjectKind::Ccs,
        target_kind: ProjectKind::Keil,
        name,
        device,
        files,
        include_paths: Vec::new(),
        defines: Vec::new(),
        warnings: Vec::new(),
    })
}

// ---------------------------------------------------------------------------
// Keil projects
// ---------------------------------------------------------------------------

/// The files that the groups of a Keil project list, from the text of its
/// `.uvprojx` at `uvprojx_path`.
pub fn keil_file_refs(uvprojx_path: &str, text: &str) -> (r: Result<Vec<KeilFileRef>, String>)
    ensures
        match xml_parse_spec(text@) {
            Err(m) => r matches Err(e) && e@ == ".uvprojx 无法解析："@ + m,
            Ok(doc) => r matches Ok(refs) && keil_refs_view(refs@) == keil_groups_v(doc, parent_spec(uvprojx_path@)),
        },
{
    let doc = match parse_xml(text) {
        Ok(x) => x,
        Err(m) => return Err(parse_error(".uvprojx 无法解析：", m)),
    };
    let mut r: Vec<KeilFileRef> = Vec::new();
    collect_keil_groups(&doc, &parent_of(&chars_of(uvprojx_path)), &mut r);
    assert(keil_refs_view(r@) =~= seq![] + keil_groups_v(element_view(doc), parent_spec(uvprojx_path@)));
    Ok(r)
}

/// The project file for a Keil group entry, shown by `display` (its path
/// relative to the selected project directory, when that could be worked
/// out) or else by the path as written.
pub fn keil_project_file(entry: &KeilFileRef, display: Option<&str>) -> (r: ProjectFile)
    ensures
        file_view(r) == (
            map_char_seq(
                match display {
                    Some(d) => d@,
                    None => entry.raw_path@,
                },
                '\\',
                '/',
            ),
            entry.group@,
            entry.file_type@,
        ),
{
    let shown = match display {
        Some(d) => chars_of(d),
        None => chars_of(entry.raw_path.as_str()),
    };
    ProjectFile {
        path: string_of(&map_char(&shown, '\\', '/')),
        group: entry.group.clone(),
        file_type: entry.file_type.clone(),
    }
}

pub open spec fn keil_name_spec(path: Seq<char>, doc: ElementV) -> Seq<char> {
    match find_v(doc, "TargetName"@) {
        Some(n) => match text_v(n) {
            Some(t) => t,
            None => file_name_spec_or_project(path),
        },
        None => file_name_spec_or_project(path),
    }
}

pub open spec fn keil_device_spec(text: Seq<char>, doc: ElementV) -> Option<Seq<char>> {
    match find_v(doc, "Device"@) {
        Some(n) => match text_v(n) {
            Some(t) => Some(t),
            None => find_device_spec(text),
        },
        None => find_device_spec(text),
    }
}

pub open spec fn opt_or_empty(o: Option<Seq<char>>) -> Seq<char> {
    match o {
        Some(s) => s,
        None => seq![],
    }
}

pub open spec fn keil_warnings_spec(doc: ElementV) -> Seq<Seq<char>> {
    match element_text_v(doc, "Misc"@) {
        Some(m) => if seq_contains(m, ".a"@) {
            seq!["Keil 预编译库不会直接用于 CCS，将尝试从 SDK 选择 TI Clang 对应库"@]
        } else {
            seq![]
        },
        None => seq![],
    }
}

/// The project files of group entries, the `k`-th shown by `displays[k]`
/// when that is given.
pub fn keil_project_files(refs: &Vec<KeilFileRef>, displays: &Vec<Option<String>>) -> (r: Vec<ProjectFile>)
    ensures
        files_view(r@) == keil_files_v(keil_refs_view(refs@), displays@),
{
    let ghost want = keil_files_v(keil_refs_view(refs@), displays@);
    let mut r: Vec<ProjectFile> = Vec::new();
    let mut k: usize = 0;
    while k < refs.len()
        invariant
            k <= refs.len(),
            want == keil_files_v(keil_refs_view(refs@), displays@),
            files_view(r@) == want.take(k as int),
        decreases refs.len() - k,
    {
        let display: Option<&str> = if k < displays.len() {
            match &displays[k] {
                Some(d) => Some(d.as_str()),
                None => None,
            }
        } else {
            None
        };
        let f = keil_project_file(&refs[k], display);
        let ghost before = r@;
        r.push(f);
        assert(keil_refs_view(refs@)[k as int] == keil_ref_view(refs@[k as int]));
        assert(file_view(f) == want[k as int]);
        assert(files_view(r@) =~= files_view(before).push(file_view(f)));
        assert(want.take(k + 1) =~= want.take(k as int).push(want[k as int]));
        k += 1;
    }
    assert(want.take(refs.len() as int) =~= want);
    r
}

/// How a listed file is shown: by its display path when there is one, else
/// by the path as written, with `/` separators.
pub open spec fn shown_path(raw: Seq<char>, display: Option<Seq<char>>) -> Seq<char> {
    map_char_seq(
        match display {
            Some(d) => d,
            None => raw,
        },
        '\\',
        '/',
    )
}

pub open spec fn display_at(ds: Seq<Option<String>>, k: int) -> Option<Seq<char>> {
    if 0 <= k < ds.len() {
        match ds[k] {
            Some(d) => Some(d@),
            None => None,
        }
    } else {
        None
    }
}

/// The project files of a Keil project's group entries, the `k`-th shown by
/// the `k`-th display path when there is one.
pub open spec fn keil_files_v(
    refs: Seq<(Seq<char>, Seq<char>, Seq<char>, Seq<char>)>,
    displays: Seq<Option<String>>,
) -> Seq<(Seq<char>, Seq<char>, Seq<char>)> {
    Seq::new(refs.len(), |k: int| (shown_path(refs[k].1, display_at(displays, k)), refs[k].0, refs[k].3))
}

/// What inspecting the Keil project `path` with text `text` gives, its
/// group entries shown by `displays` (see `keil_file_refs`).
pub open spec fn keil_inspected(path: Seq<char>, text: Seq<char>, displays: Seq<Option<String>>, r: Result<ProjectInspection, String>) -> bool {
    match xml_parse_spec(text) {
        Err(m) => r matches Err(e) && e@ == ".uvprojx 无法解析："@ + m,
        Ok(doc) => match r {
            Ok(ins) => {
                &&& keil_device_spec(text, doc) == Some(ins.device@)
                &&& ins.kind == ProjectKind::Keil
                &&& ins.target_kind == ProjectKind::Ccs
                &&& ins.name@ == keil_name_spec(path, doc)
                &&& files_view(ins.files@) == keil_files_v(keil_groups_v(doc, parent_spec(path)), displays)
                &&& is_sorted_dedup_of(string_views(ins.defines@), split_list_spec(opt_or_empty(element_text_v(doc, "Define"@))))
                &&& is_sorted_dedup_of(
                    string_views(ins.include_paths@),
                    split_list_spec(opt_or_empty(element_text_v(doc, "IncludePath"@))),
                )
                &&& string_views(ins.warnings@) == keil_warnings_spec(doc)
            },
            Err(e) => keil_device_spec(text, doc) is None && e@ == "无法从 Keil 工程识别 MSPM0 芯片"@,
        },
    }
}

/// Inspects a Keil project: `path` is the `.uvprojx` file and `text` its
/// text; the `k`-th group entry is shown by `displays[k]` when that is given
/// (its path relative to the selected directory, see `keil_file_refs`).
pub fn inspect_keil(path: &str, text: &str, displays: Vec<Option<String>>) -> (r: Result<ProjectInspection, String>)
    ensures
        keil_inspected(path@, text@, displays@, r),
{
    let parsed = match parse_xml(text) {
        Ok(x) => x,
        Err(m) => return Err(parse_error(".uvprojx 无法解析：", m)),
    };
    let doc = &parsed;
    let p = chars_of(path);
    let mut refs: Vec<KeilFileRef> = Vec::new();
    collect_keil_groups(doc, &parent_of(&p), &mut refs);
    assert(keil_refs_view(refs@) =~= seq![] + keil_groups_v(element_view(*doc), parent_spec(path@)));
    let files = keil_project_files(&refs, &displays);
    let name = match find_element(doc, &chars_of("TargetName")) {
        Some(n) => match element_get_text(n) {
            Some(t) => t,
            None => file_name(&p),
        },
        None => file_name(&p),
    };
    let device = match find_element(doc, &chars_of("Device")) {
        Some(n) => match element_get_text(n) {
            Some(t) => Some(t),
            None => find_device(&chars_of(text)),
        },
        None => find_device(&chars_of(text)),
    };
    let device = match device {
        Some(dv) => dv,
        None => return Err(string_of(&chars_of("无法从 Keil 工程识别 MSPM0 芯片"))),
    };
    let define_text = element_text(doc, &chars_of("Define"));
    let mut defines = split_list(define_text.as_ref());
    let include_text = element_text(doc, &chars_of("IncludePath"));
    let mut include_paths = split_list(include_text.as_ref());
    dedup(&mut defines);
    dedup(&mut include_paths);
    let mut warnings: Vec<String> = Vec::new();
    match element_text(doc, &chars_of("Misc")) {
        Some(m) => {
            if contains_chars(&m, &chars_of(".a")) {
                warnings.push(string_of(&chars_of("Keil 预编译库不会直接用于 CCS，将尝试从 SDK 选择 TI Clang 对应库")));
                assert(string_views(warnings@) =~= keil_warnings_spec(element_view(*doc)));
            } else {
                assert(string_views(warnings@) =~= keil_warnings_spec(element_view(*doc)));
            }
        },
        None => {
            assert(string_views(warnings@) =~= keil_warnings_spec(element_view(*doc)));
        },
    }
    Ok(ProjectInspection {
        kind: ProjectKind::Keil,
        target_kind: ProjectKind::Ccs,
        name: string_of(&name),
        device: string_of(&device),
        files,
        include_paths,
        defines,
        warnings,
    })
}

// ---------------------------------------------------------------------------
// Any project
// ---------------------------------------------------------------------------

/// The files of a project, as read from disk.
pub enum ProjectDocuments {
    /// A CCS project directory with a `.cproject`.
    Ccs(CcsProjectData),
    /// A CCS `.projectspec` file and its text.
    CcsProjectSpec(String, String),
    /// A Keil `.uvprojx` file, its text and the display paths of its group
    /// entries.
    Keil(String, String, Vec<Option<String>>),
}

/// Inspects a project for conversion: what it holds and what the converted
/// project needs.
pub fn inspect_project(docs: ProjectDocuments) -> (r: Result<ProjectInspection, String>)
    ensures
        match docs {
            ProjectDocuments::Ccs(d) => ccs_inspected(d, r),
            ProjectDocuments::CcsProjectSpec(p, t) => projectspec_inspected(p@, t@, r),
            ProjectDocuments::Keil(p, t, ds) => keil_inspected(p@, t@, ds@, r),
        },
{
    match docs {
        ProjectDocuments::Ccs(d) => inspect_ccs(&d),
        ProjectDocuments::CcsProjectSpec(p, t) => inspect_projectspec(p.as_str(), t.as_str()),
        ProjectDocuments::Keil(p, t, ds) => inspect_keil(p.as_str(), t.as_str(), ds),
    }
}

} // verus!
