//! Converting a project: the checks before anything is written, where
//! each source file lands in the new project, the SysConfig outputs a CCS
//! project brings along, and the final report. The files are copied and
//! written by the caller.
use vstd::prelude::*;
use crate::discovery::opt_string;
use crate::inspect::{file_view, files_view};
use crate::model::{ConversionReport, ProjectFile, ProjectInspection, ProjectKind, ResourceInfo};
use crate::sorting::{dedup, is_sorted_dedup_of};
use crate::text::{
    append_chars, chars_equal, chars_of, contains_chars, ends_with_chars, is_path_sep, join_chars, join_seq,
    occurs_at, first_occurrence_from,
    lemma_tokens_clean, lower_chars, lower_seq, map_char, map_char_seq, path_sep, replace_first_chars,
    replace_first_seq, seq_contains, slice_chars, split_tokens, string_of, string_views, tokens, views, SepKind,
};
use crate::winpath::{
    file_name_of, file_name_spec, path_join, path_join_spec, path_join_str, path_parent, path_parent_spec,
};

verus! {

// ---------------------------------------------------------------------------
// Before anything is written
// ---------------------------------------------------------------------------

pub open spec fn unsupported_device(device: Seq<char>) -> Seq<char> {
    "所选 Pack 不支持器件 "@ + device
}

/// The resources a conversion needs: a CCS project is converted with a
/// pack that supports its device (`sdk` and `pack` are the validations of
/// the selected SDK and pack); a Keil project only needs a valid SDK.
pub open spec fn conversion_resources_spec(
    kind: ProjectKind,
    device: Seq<char>,
    sdk: Result<String, String>,
    pack: Result<(String, String, Vec<String>), String>,
) -> Result<bool, Seq<char>> {
    match sdk {
        Err(e) => Err(e@),
        Ok(_) => if kind == ProjectKind::Ccs {
            match pack {
                Err(e) => Err(e@),
                Ok((_, _, ds)) => if string_views(ds@).contains(device) {
                    Ok(true)
                } else {
                    Err(unsupported_device(device))
                },
            }
        } else {
            Ok(false)
        },
    }
}

fn has_string(values: &Vec<String>, wanted: &Vec<char>) -> (r: bool)
    ensures
        r == string_views(values@).contains(wanted@),
{
    let mut i: usize = 0;
    while i < values.len()
        invariant
            i <= values.len(),
            forall|k: int| 0 <= k < i ==> string_views(values@)[k] != wanted@,
        decreases values.len() - i,
    {
        if chars_equal(&chars_of(values[i].as_str()), wanted) {
            assert(string_views(values@)[i as int] == wanted@);
            return true;
        }
        i += 1;
    }
    false
}

/// The resources for converting the inspected project (see
/// `conversion_resources_spec`): `Some` with the pack for a CCS project.
pub fn conversion_resources(
    inspection: &ProjectInspection,
    sdk: Result<String, String>,
    pack: Result<(String, String, Vec<String>), String>,
) -> (r: Result<Option<ResourceInfo>, String>)
    ensures
        match r {
            Ok(Some(info)) => conversion_resources_spec(inspection.kind, inspection.device@, sdk, pack) == Ok::<
                bool,
                Seq<char>,
            >(true) && (match (sdk, pack) {
                (Ok(v), Ok((n, pv, d))) => info.sdk_version@ == v@ && info.pack_name@ == n@ && info.pack_version@
                    == pv@ && info.devices@ == d@,
                _ => false,
            }),
            Ok(None) => conversion_resources_spec(inspection.kind, inspection.device@, sdk, pack) == Ok::<
                bool,
                Seq<char>,
            >(false),
            Err(e) => conversion_resources_spec(inspection.kind, inspection.device@, sdk, pack) == Err::<
                bool,
                Seq<char>,
            >(e@),
        },
{
    if inspection.kind != ProjectKind::Ccs {
        return match sdk {
            Ok(_) => Ok(None),
            Err(e) => Err(e),
        };
    }
    let info = crate::pack::validate_resources(sdk, pack)?;
    let device = chars_of(inspection.device.as_str());
    if !has_string(&info.devices, &device) {
        let mut m = chars_of("所选 Pack 不支持器件 ");
        append_chars(&mut m, &device);
        return Err(string_of(&m));
    }
    Ok(Some(info))
}

/// The SDK's official NoRTOS `empty` example for the device, which the
/// new project is built from.
pub open spec fn template_root_spec(sdk: Seq<char>, device: Seq<char>) -> Seq<char> {
    path_join_spec(path_join_spec(path_join_spec(sdk, "examples/nortos"@), "LP_"@ + device), "driverlib/empty"@)
}

pub fn template_root(sdk: &str, device: &str) -> (r: String)
    ensures
        r@ == template_root_spec(sdk@, device@),
{
    let mut board = chars_of("LP_");
    append_chars(&mut board, &chars_of(device));
    let a = path_join_str(&chars_of(sdk), "examples/nortos");
    let b = path_join(&a, &board);
    string_of(&path_join_str(&b, "driverlib/empty"))
}

/// Refuses an SDK without the device's template.
pub fn check_template(is_dir: bool, device: &str) -> (r: Result<(), String>)
    ensures
        r is Ok <==> is_dir,
        r matches Err(e) ==> e@ == "SDK 中没有 "@ + device@ + " 的官方 NoRTOS empty 模板"@,
{
    if is_dir {
        return Ok(());
    }
    let mut m = chars_of("SDK 中没有 ");
    append_chars(&mut m, &chars_of(device));
    append_chars(&mut m, &chars_of(" 的官方 NoRTOS empty 模板"));
    Err(string_of(&m))
}

/// Whether the output may be used: a path that does not exist (its parent
/// is then created, when it has one), or an empty directory. `entries` is
/// whether an existing directory has entries, or the error listing it.
pub open spec fn output_check_spec(output: Seq<char>, exists: bool, is_dir: bool, entries: Result<bool, String>) -> Result<
    Option<Seq<char>>,
    Seq<char>,
> {
    if !exists {
        Ok(path_parent_spec(output))
    } else if !is_dir {
        Err("输出路径已存在且不是目录"@)
    } else {
        match entries {
            Err(e) => Err(e@),
            Ok(true) => Err("输出目录必须为空，工具不会覆盖已有文件"@),
            Ok(false) => Ok(None),
        }
    }
}

/// Checks the output path (see `output_check_spec`); `Ok` holds the
/// directory to create first, if any.
pub fn ensure_output_available(output: &str, exists: bool, is_dir: bool, entries: Result<bool, String>) -> (r: Result<
    Option<String>,
    String,
>)
    ensures
        match r {
            Ok(p) => output_check_spec(output@, exists, is_dir, entries) == Ok::<Option<Seq<char>>, Seq<char>>(
                opt_string(p),
            ),
            Err(e) => output_check_spec(output@, exists, is_dir, entries) == Err::<Option<Seq<char>>, Seq<char>>(e@),
        },
{
    if !exists {
        return Ok(
            match path_parent(&chars_of(output)) {
                Some(p) => Some(string_of(&p)),
                None => None,
            },
        );
    }
    if !is_dir {
        return Err(string_of(&chars_of("输出路径已存在且不是目录")));
    }
    match entries {
        Err(e) => Err(e),
        Ok(true) => Err(string_of(&chars_of("输出目录必须为空，工具不会覆盖已有文件"))),
        Ok(false) => Ok(None),
    }
}

/// Where the project is assembled before it is moved into place: a hidden
/// directory beside the output, `.{name}.ti-toolbox-{id}`.
pub open spec fn staging_path_spec(output: Seq<char>, id: Seq<char>) -> Seq<char> {
    let name = match file_name_spec(output) {
        Some(n) => n,
        None => "project"@,
    };
    path_join_spec(
        match path_parent_spec(output) {
            Some(p) => p,
            None => "."@,
        },
        "."@ + name + ".ti-toolbox-"@ + id,
    )
}

pub fn staging_path(output: &str, id: &str) -> (r: String)
    ensures
        r@ == staging_path_spec(output@, id@),
{
    let o = chars_of(output);
    let name = match file_name_of(&o) {
        Some(n) => n,
        None => chars_of("project"),
    };
    let dir = match path_parent(&o) {
        Some(p) => p,
        None => chars_of("."),
    };
    let mut leaf = chars_of(".");
    append_chars(&mut leaf, &name);
    append_chars(&mut leaf, &chars_of(".ti-toolbox-"));
    append_chars(&mut leaf, &chars_of(id));
    string_of(&path_join(&dir, &leaf))
}

// ---------------------------------------------------------------------------
// Which files are copied, and where
// ---------------------------------------------------------------------------

/// The directory the project's files are relative to: the selection when
/// it is a directory, else the directory holding the selected file.
pub open spec fn source_root_spec(project_path: Seq<char>, is_dir: bool) -> Result<Seq<char>, Seq<char>> {
    if is_dir {
        Ok(project_path)
    } else {
        match path_parent_spec(project_path) {
            Some(p) => Ok(p),
            None => Err("无法确定源工程目录"@),
        }
    }
}

pub fn source_root(project_path: &str, is_dir: bool) -> (r: Result<String, String>)
    ensures
        match r {
            Ok(p) => source_root_spec(project_path@, is_dir) == Ok::<Seq<char>, Seq<char>>(p@),
            Err(e) => source_root_spec(project_path@, is_dir) == Err::<Seq<char>, Seq<char>>(e@),
        },
{
    if is_dir {
        return Ok(string_of(&chars_of(project_path)));
    }
    match path_parent(&chars_of(project_path)) {
        Some(p) => Ok(string_of(&p)),
        None => Err(string_of(&chars_of("无法确定源工程目录"))),
    }
}

pub open spec fn has_syscfg(fs: Seq<(Seq<char>, Seq<char>, Seq<char>)>) -> bool {
    exists|i: int| 0 <= i < fs.len() && (#[trigger] fs[i]).2 == "syscfg"@
}

/// A file is carried over unless it is a startup file (the target
/// toolchain's own replaces it), or a SysConfig output of a project that
/// keeps its `.syscfg` when the target is CCS (CCS generates them again).
pub open spec fn carried_over(f: (Seq<char>, Seq<char>, Seq<char>), target: ProjectKind, with_syscfg: bool) -> bool {
    let lower = lower_seq(f.0);
    &&& !seq_contains(lower, "startup_"@)
    &&& !(target == ProjectKind::Ccs && with_syscfg && ("ti_msp_dl_config.c"@.is_suffix_of(lower)
        || "ti_msp_dl_config.h"@.is_suffix_of(lower)))
}

pub open spec fn carried_files(
    fs: Seq<(Seq<char>, Seq<char>, Seq<char>)>,
    target: ProjectKind,
    with_syscfg: bool,
) -> Seq<(Seq<char>, Seq<char>, Seq<char>)>
    decreases fs.len(),
{
    if fs.len() == 0 {
        seq![]
    } else {
        let rest = carried_files(fs.drop_last(), target, with_syscfg);
        if carried_over(fs.last(), target, with_syscfg) {
            rest.push(fs.last())
        } else {
            rest
        }
    }
}

fn copy_file(f: &ProjectFile) -> (r: ProjectFile)
    ensures
        file_view(r) == file_view(*f),
{
    ProjectFile { path: f.path.clone(), group: f.group.clone(), file_type: f.file_type.clone() }
}

/// The inspected files that a conversion copies, in order (see
/// `carried_over`).
pub fn files_to_copy(inspection: &ProjectInspection) -> (r: Vec<ProjectFile>)
    ensures
        files_view(r@) == carried_files(
            files_view(inspection.files@),
            inspection.target_kind,
            has_syscfg(files_view(inspection.files@)),
        ),
{
    let files = &inspection.files;
    let ghost fv = files_view(files@);
    let mut with_syscfg = false;
    let mut k: usize = 0;
    while k < files.len()
        invariant
            k <= files.len(),
            fv == files_view(files@),
            with_syscfg == exists|i: int| 0 <= i < k && (#[trigger] fv[i]).2 == "syscfg"@,
        decreases files.len() - k,
    {
        if chars_equal(&chars_of(files[k].file_type.as_str()), &chars_of("syscfg")) {
            assert(fv[k as int].2 == "syscfg"@);
            with_syscfg = true;
        }
        k += 1;
    }
    let to_ccs = inspection.target_kind == ProjectKind::Ccs;
    let mut r: Vec<ProjectFile> = Vec::new();
    let mut i: usize = 0;
    while i < files.len()
        invariant
            i <= files.len(),
            fv == files_view(files@),
            with_syscfg == has_syscfg(fv),
            to_ccs == (inspection.target_kind == ProjectKind::Ccs),
            files_view(r@) == carried_files(fv.take(i as int), inspection.target_kind, with_syscfg),
        decreases files.len() - i,
    {
        let f = &files[i];
        assert(fv.take(i + 1).drop_last() =~= fv.take(i as int));
        assert(fv.take(i + 1).last() == file_view(*f));
        let lower = lower_chars(&chars_of(f.path.as_str()));
        let keep = !contains_chars(&lower, &chars_of("startup_")) && !(to_ccs && with_syscfg && (ends_with_chars(
            &lower,
            &chars_of("ti_msp_dl_config.c"),
        ) || ends_with_chars(&lower, &chars_of("ti_msp_dl_config.h"))));
        if keep {
            let ghost before = r@;
            r.push(copy_file(f));
            assert(files_view(r@) =~= files_view(before).push(file_view(*f)));
        }
        i += 1;
    }
    assert(fv.take(files.len() as int) =~= fv);
    r
}

/// Where a Keil project's file is looked for when it is not beside the
/// selected directory: relative to the `.uvprojx`'s directory (or `root`).
pub open spec fn project_relative_spec(uvprojx: Seq<char>, root: Seq<char>, relative: Seq<char>) -> Seq<char> {
    path_join_spec(
        match path_parent_spec(uvprojx) {
            Some(p) => p,
            None => root,
        },
        relative,
    )
}

pub fn project_relative_source(uvprojx: &str, root: &str, relative: &str) -> (r: String)
    ensures
        r@ == project_relative_spec(uvprojx@, root@, relative@),
{
    let dir = match path_parent(&chars_of(uvprojx)) {
        Some(p) => p,
        None => chars_of(root),
    };
    string_of(&path_join_str(&dir, relative))
}

/// Where a project file is read from: beside the project root when it is
/// there; for a Keil project, else relative to the `.uvprojx` (the
/// selected file, or the one found below the selection: `uvprojx`) when it
/// is there (`from_project_is_file`); else beside the root, where it will
/// turn out to be missing.
pub open spec fn resolve_source_spec(
    kind: ProjectKind,
    root: Seq<char>,
    relative: Seq<char>,
    direct_is_file: bool,
    uvprojx: Result<Option<String>, String>,
    from_project_is_file: bool,
) -> Result<Seq<char>, Seq<char>> {
    let direct = path_join_spec(root, relative);
    if direct_is_file {
        Ok(direct)
    } else if kind == ProjectKind::Keil {
        match uvprojx {
            Err(e) => Err(e@),
            Ok(None) => Err("未找到 Keil 工程文件"@),
            Ok(Some(u)) => if from_project_is_file {
                Ok(project_relative_spec(u@, root, relative))
            } else {
                Ok(direct)
            },
        }
    } else {
        Ok(direct)
    }
}

pub fn resolve_source_file(
    kind: ProjectKind,
    root: &str,
    relative: &str,
    direct_is_file: bool,
    uvprojx: &Result<Option<String>, String>,
    from_project_is_file: bool,
) -> (r: Result<String, String>)
    ensures
        match r {
            Ok(p) => resolve_source_spec(kind, root@, relative@, direct_is_file, *uvprojx, from_project_is_file)
                == Ok::<Seq<char>, Seq<char>>(p@),
            Err(e) => resolve_source_spec(kind, root@, relative@, direct_is_file, *uvprojx, from_project_is_file)
                == Err::<Seq<char>, Seq<char>>(e@),
        },
{
    let direct = string_of(&path_join_str(&chars_of(root), relative));
    if direct_is_file || kind != ProjectKind::Keil {
        return Ok(direct);
    }
    match uvprojx {
        Err(e) => Err(e.clone()),
        Ok(None) => Err(string_of(&chars_of("未找到 Keil 工程文件"))),
        Ok(Some(u)) => {
            if from_project_is_file {
                Ok(project_relative_source(u.as_str(), root, relative))
            } else {
                Ok(direct)
            }
        },
    }
}

/// A path that starts with a drive, such as `C:`.
pub open spec fn has_drive(p: Seq<char>) -> bool {
    p.len() >= 2 && p[1] == ':' && !is_path_sep(p[0])
}

/// The components of a path after its drive, if any.
pub open spec fn path_components(p: Seq<char>) -> Seq<Seq<char>> {
    if has_drive(p) {
        tokens(p.skip(2), path_sep())
    } else {
        tokens(p, path_sep())
    }
}

/// A path that reaches outside its base: rooted, with a drive, or going up.
pub open spec fn is_external(p: Seq<char>) -> bool {
    has_drive(p) || (p.len() > 0 && is_path_sep(p[0])) || path_components(p).contains(".."@)
}

/// The components that name something: `.` and `..` dropped.
pub open spec fn normal_parts(cs: Seq<Seq<char>>) -> Seq<Seq<char>>
    decreases cs.len(),
{
    if cs.len() == 0 {
        seq![]
    } else {
        let rest = normal_parts(cs.drop_last());
        if cs.last() == "."@ || cs.last() == ".."@ {
            rest
        } else {
            rest.push(cs.last())
        }
    }
}

/// Where a project file lands in the new project: under `src`, keeping its
/// components; a file from outside the project goes under `src/external`.
pub open spec fn safe_source_path_spec(p: Seq<char>) -> Seq<char> {
    let parts = normal_parts(path_components(p));
    if is_external(p) {
        path_join_spec("src/external"@, join_seq(parts, "\\"@))
    } else {
        join_seq(seq!["src"@] + parts, "\\"@)
    }
}

/// A name a path can hold as one component.
pub open spec fn is_plain_component(c: Seq<char>) -> bool {
    &&& c.len() > 0
    &&& c != "."@
    &&& c != ".."@
    &&& forall|i: int| 0 <= i < c.len() ==> !is_path_sep(#[trigger] c[i])
}

proof fn lemma_normal_parts_plain(cs: Seq<Seq<char>>)
    requires
        forall|k: int| 0 <= k < cs.len() ==> (#[trigger] cs[k]).len() > 0,
        forall|k: int, i: int| 0 <= k < cs.len() && 0 <= i < cs[k].len() ==> !is_path_sep(#[trigger] cs[k][i]),
    ensures
        forall|k: int| 0 <= k < normal_parts(cs).len() ==> is_plain_component(#[trigger] normal_parts(cs)[k]),
    decreases cs.len(),
{
    if cs.len() > 0 {
        let d = cs.drop_last();
        assert forall|k: int| 0 <= k < d.len() implies (#[trigger] d[k]).len() > 0 by {
            assert(d[k] == cs[k]);
        }
        assert forall|k: int, i: int| 0 <= k < d.len() && 0 <= i < d[k].len() implies !is_path_sep(
            #[trigger] d[k][i],
        ) by {
            assert(d[k] == cs[k]);
        }
        lemma_normal_parts_plain(d);
        let n = normal_parts(cs);
        let rest = normal_parts(d);
        let last = cs.last();
        assert(last == cs[cs.len() - 1]);
        assert forall|i: int| 0 <= i < last.len() implies !is_path_sep(#[trigger] last[i]) by {
            assert(cs[cs.len() - 1][i] == last[i]);
        }
        assert forall|k: int| 0 <= k < n.len() implies is_plain_component(#[trigger] n[k]) by {
            if k < rest.len() {
                assert(n[k] == rest[k]);
            } else {
                assert(n[k] == last);
            }
        }
    }
}

/// A copied file always lands inside the new project's `src` directory:
/// its path is `src` (or `src/external`) followed by plain components,
/// none of them `..`.
pub proof fn law_safe_source_path_stays_in_src(p: Seq<char>)
    ensures
        ({
            let parts = normal_parts(path_components(p));
            &&& forall|k: int| 0 <= k < parts.len() ==> is_plain_component(#[trigger] parts[k])
            &&& safe_source_path_spec(p) == if is_external(p) {
                path_join_spec("src/external"@, join_seq(parts, "\\"@))
            } else {
                join_seq(seq!["src"@] + parts, "\\"@)
            }
        }),
{
    let s = if has_drive(p) {
        p.skip(2)
    } else {
        p
    };
    lemma_tokens_clean(s, path_sep());
    let cs = path_components(p);
    assert(cs == tokens(s, path_sep()));
    assert forall|k: int, i: int| 0 <= k < cs.len() && 0 <= i < cs[k].len() implies !is_path_sep(
        #[trigger] cs[k][i],
    ) by {
        assert(!(path_sep())(tokens(s, path_sep())[k][i]));
    }
    lemma_normal_parts_plain(cs);
}

fn normal_parts_exec(cs: &Vec<Vec<char>>) -> (r: Vec<Vec<char>>)
    ensures
        views(r@) == normal_parts(views(cs@)),
{
    let ghost cv = views(cs@);
    let mut r: Vec<Vec<char>> = Vec::new();
    let mut i: usize = 0;
    assert(views(r@) =~= seq![]);
    while i < cs.len()
        invariant
            i <= cs.len(),
            cv == views(cs@),
            views(r@) == normal_parts(cv.take(i as int)),
        decreases cs.len() - i,
    {
        let c = &cs[i];
        assert(cv.take(i + 1).drop_last() =~= cv.take(i as int));
        assert(cv.take(i + 1).last() == c@);
        let dot = c.len() == 1 && c[0] == '.';
        let dotdot = c.len() == 2 && c[0] == '.' && c[1] == '.';
        proof {
            if c@ == "."@ {
                reveal_strlit(".");
            }
            if c@ == ".."@ {
                reveal_strlit("..");
            }
            if dot {
                assert(c@ =~= "."@) by {
                    reveal_strlit(".");
                }
            }
            if dotdot {
                assert(c@ =~= ".."@) by {
                    reveal_strlit("..");
                }
            }
        }
        if !(dot || dotdot) {
            let ghost before = r@;
            r.push(c.clone());
            assert(views(r@) =~= views(before).push(c@));
        }
        i += 1;
    }
    assert(cv.take(cs.len() as int) =~= cv);
    r
}

fn contains_dotdot(cs: &Vec<Vec<char>>) -> (r: bool)
    ensures
        r == views(cs@).contains(".."@),
{
    let mut i: usize = 0;
    while i < cs.len()
        invariant
            i <= cs.len(),
            forall|k: int| 0 <= k < i ==> views(cs@)[k] != ".."@,
        decreases cs.len() - i,
    {
        if chars_equal(&cs[i], &chars_of("..")) {
            assert(views(cs@)[i as int] == ".."@);
            return true;
        }
        i += 1;
    }
    false
}

/// Where a project file lands in the new project (see
/// `safe_source_path_spec`).
pub fn safe_source_path(path: &str) -> (r: String)
    ensures
        r@ == safe_source_path_spec(path@),
{
    let p = chars_of(path);
    let drive = p.len() >= 2 && p[1] == ':' && !(p[0] == '\\' || p[0] == '/');
    let rest = if drive {
        let s = slice_chars(&p, 2, p.len());
        assert(s@ =~= p@.skip(2));
        s
    } else {
        p.clone()
    };
    let cs = split_tokens(&rest, &SepKind::PathSeparator);
    assert(views(cs@) == path_components(path@));
    let parts = normal_parts_exec(&cs);
    let rooted = p.len() > 0 && (p[0] == '\\' || p[0] == '/');
    let external = drive || rooted || contains_dotdot(&cs);
    let sep = chars_of("\\");
    if external {
        string_of(&path_join(&chars_of("src/external"), &join_chars(&parts, &sep)))
    } else {
        let mut all: Vec<Vec<char>> = Vec::new();
        all.push(chars_of("src"));
        let mut i: usize = 0;
        assert(views(all@) =~= seq!["src"@] + views(parts@).take(0));
        while i < parts.len()
            invariant
                i <= parts.len(),
                views(all@) == seq!["src"@] + views(parts@).take(i as int),
            decreases parts.len() - i,
        {
            let ghost before = all@;
            all.push(parts[i].clone());
            assert(views(all@) =~= views(before).push(parts@[i as int]@));
            assert(views(parts@).take(i + 1) =~= views(parts@).take(i as int).push(parts@[i as int]@));
            i += 1;
        }
        assert(views(parts@).take(parts.len() as int) =~= views(parts@));
        string_of(&join_chars(&all, &sep))
    }
}

/// A file copied into the new project: its path there (with `/`), group
/// and kind.
pub struct CopiedFile {
    pub relative: String,
    pub group: String,
    pub file_type: String,
}

pub open spec fn copied_view(c: CopiedFile) -> (Seq<char>, Seq<char>, Seq<char>) {
    (c.relative@, c.group@, c.file_type@)
}

pub open spec fn copied_views(cs: Seq<CopiedFile>) -> Seq<(Seq<char>, Seq<char>, Seq<char>)> {
    cs.map_values(|c: CopiedFile| copied_view(c))
}

/// The record of a project file copied to `target` (a path from
/// `safe_source_path`).
pub fn copied_file(target: &str, file: &ProjectFile) -> (r: CopiedFile)
    ensures
        copied_view(r) == (map_char_seq(target@, '\\', '/'), file.group@, file.file_type@),
{
    CopiedFile {
        relative: string_of(&map_char(&chars_of(target), '\\', '/')),
        group: file.group.clone(),
        file_type: file.file_type.clone(),
    }
}

/// A conversion that copied nothing has nothing to build.
pub fn check_copied(copied: &Vec<CopiedFile>) -> (r: Result<(), String>)
    ensures
        r is Ok <==> copied.len() > 0,
        r matches Err(e) ==> e@ == "源工程没有可转换的 C/C++、头文件、汇编或 SysConfig 文件"@,
{
    if copied.len() > 0 {
        Ok(())
    } else {
        Err(string_of(&chars_of("源工程没有可转换的 C/C++、头文件、汇编或 SysConfig 文件")))
    }
}

/// A startup file of the SDK's Keil template: named `startup_*`, with an
/// assembly extension (`s` or `asm`, any letter case).
pub open spec fn is_template_startup_spec(path: Seq<char>) -> bool {
    &&& match file_name_spec(path) {
        Some(n) => "startup_"@.is_prefix_of(n),
        None => false,
    }
    &&& (crate::winpath::has_extension_spec(path, "s"@) || crate::winpath::has_extension_spec(path, "asm"@))
}

pub fn is_template_startup(path: &str) -> (r: bool)
    ensures
        r == is_template_startup_spec(path@),
{
    let named = match file_name_of(&chars_of(path)) {
        Some(n) => crate::text::starts_with_chars(&n, &chars_of("startup_")),
        None => false,
    };
    named && (crate::winpath::has_extension(path, "s") || crate::winpath::has_extension(path, "asm"))
}

// ---------------------------------------------------------------------------
// SysConfig outputs of a CCS project
// ---------------------------------------------------------------------------

/// A CCS project needs its SysConfig outputs when it has a `.syscfg`, or a
/// copied source or header includes the generated header (`mentions[i]`
/// tells whether copied file `i` does).
pub open spec fn needs_sysconfig_outputs(cs: Seq<(Seq<char>, Seq<char>, Seq<char>)>, mentions: Seq<bool>) -> bool {
    ||| exists|i: int| 0 <= i < cs.len() && (#[trigger] cs[i]).2 == "syscfg"@
    ||| exists|i: int|
        0 <= i < cs.len() && i < mentions.len() && ((#[trigger] cs[i]).2 == "source"@ || cs[i].2 == "header"@)
            && mentions[i]
}

pub fn sysconfig_outputs_needed(copied: &Vec<CopiedFile>, mentions: &Vec<bool>) -> (r: bool)
    ensures
        r == needs_sysconfig_outputs(copied_views(copied@), mentions@),
{
    let ghost cv = copied_views(copied@);
    let mut i: usize = 0;
    while i < copied.len()
        invariant
            i <= copied.len(),
            cv == copied_views(copied@),
            forall|k: int| 0 <= k < i ==> (#[trigger] cv[k]).2 != "syscfg"@,
        decreases copied.len() - i,
    {
        if chars_equal(&chars_of(copied[i].file_type.as_str()), &chars_of("syscfg")) {
            assert(cv[i as int].2 == "syscfg"@);
            return true;
        }
        i += 1;
    }
    let mut j: usize = 0;
    while j < copied.len()
        invariant
            j <= copied.len(),
            cv == copied_views(copied@),
            forall|k: int| 0 <= k < copied.len() ==> (#[trigger] cv[k]).2 != "syscfg"@,
            forall|k: int|
                0 <= k < j && k < mentions.len() ==> !(((#[trigger] cv[k]).2 == "source"@ || cv[k].2 == "header"@)
                    && mentions@[k]),
        decreases copied.len() - j,
    {
        let t = chars_of(copied[j].file_type.as_str());
        if (chars_equal(&t, &chars_of("source")) || chars_equal(&t, &chars_of("header"))) && j < mentions.len()
            && mentions[j] {
            assert(cv[j as int].2 == t@);
            return true;
        }
        j += 1;
    }
    false
}

/// The copied file that is the generated file `name` (any letter case), if
/// one was copied: the first such.
pub open spec fn names_generated(c: (Seq<char>, Seq<char>, Seq<char>), name: Seq<char>) -> bool {
    match file_name_spec(c.0) {
        Some(n) => lower_seq(n) == lower_seq(name),
        None => false,
    }
}

pub fn existing_generated(copied: &Vec<CopiedFile>, name: &str) -> (r: Option<usize>)
    ensures
        match r {
            Some(i) => i < copied.len() && names_generated(copied_views(copied@)[i as int], name@) && forall|k: int|
                0 <= k < i ==> !names_generated(#[trigger] copied_views(copied@)[k], name@),
            None => forall|k: int|
                0 <= k < copied.len() ==> !names_generated(#[trigger] copied_views(copied@)[k], name@),
        },
{
    let wanted = lower_chars(&chars_of(name));
    let mut i: usize = 0;
    while i < copied.len()
        invariant
            i <= copied.len(),
            wanted@ == lower_seq(name@),
            forall|k: int| 0 <= k < i ==> !names_generated(#[trigger] copied_views(copied@)[k], name@),
        decreases copied.len() - i,
    {
        let found = match file_name_of(&chars_of(copied[i].relative.as_str())) {
            Some(n) => chars_equal(&lower_chars(&n), &wanted),
            None => false,
        };
        assert(copied_views(copied@)[i as int].0 == copied@[i as int].relative@);
        if found {
            return Some(i);
        }
        i += 1;
    }
    None
}

/// Where a generated SysConfig file is looked for, in order, before the
/// project directory is searched four levels deep.
pub open spec fn generated_candidates_spec(root: Seq<char>, name: Seq<char>) -> Seq<Seq<char>> {
    seq![
        path_join_spec(root, name),
        path_join_spec(path_join_spec(root, "Debug/syscfg"@), name),
        path_join_spec(path_join_spec(root, "Release/syscfg"@), name),
        path_join_spec(path_join_spec(root, "debug/syscfg"@), name),
        path_join_spec(path_join_spec(root, "release/syscfg"@), name),
    ]
}

pub fn generated_candidates(root: &str, name: &str) -> (r: Vec<String>)
    ensures
        string_views(r@) == generated_candidates_spec(root@, name@),
{
    let rt = chars_of(root);
    let n = chars_of(name);
    let r = vec![
        string_of(&path_join(&rt, &n)),
        string_of(&path_join(&path_join_str(&rt, "Debug/syscfg"), &n)),
        string_of(&path_join(&path_join_str(&rt, "Release/syscfg"), &n)),
        string_of(&path_join(&path_join_str(&rt, "debug/syscfg"), &n)),
        string_of(&path_join(&path_join_str(&rt, "release/syscfg"), &n)),
    ];
    assert(string_views(r@) =~= generated_candidates_spec(root@, name@));
    r
}

/// The generated file found for `name`, or the request to build once in
/// CCS.
pub fn generated_source(found: Result<Option<String>, String>, name: &str) -> (r: Result<String, String>)
    ensures
        match found {
            Err(x) => r matches Err(e) && e@ == x@,
            Ok(None) => r matches Err(e) && e@ == "工程使用 SysConfig，但未找到 "@ + name@
                + "；请先在 CCS 中构建一次工程，再重新转换"@,
            Ok(Some(p)) => r matches Ok(x) && x@ == p@,
        },
{
    match found {
        Err(e) => Err(e),
        Ok(Some(p)) => Ok(p),
        Ok(None) => {
            let mut m = chars_of("工程使用 SysConfig，但未找到 ");
            append_chars(&mut m, &chars_of(name));
            append_chars(&mut m, &chars_of("；请先在 CCS 中构建一次工程，再重新转换"));
            Err(string_of(&m))
        },
    }
}

/// The record of a generated SysConfig file added to the project, under
/// `src/generated`.
pub fn generated_file(name: &str, file_type: &str) -> (r: CopiedFile)
    ensures
        copied_view(r) == ("src/generated/"@ + name@, "SysConfig"@, file_type@),
{
    let mut rel = chars_of("src/generated/");
    append_chars(&mut rel, &chars_of(name));
    CopiedFile { relative: string_of(&rel), group: string_of(&chars_of("SysConfig")), file_type: string_of(&chars_of(file_type)) }
}

/// The text of SysConfig's generated header made acceptable to ArmClang:
/// its `SYSCONFIG_WEAK` test for GCC also admits Clang and ArmClang.
/// `Ok(None)` leaves the header as it is (no such test, or already
/// compatible).
pub open spec fn armclang_header_spec(content: Seq<char>, header: Seq<char>) -> Result<Option<Seq<char>>, Seq<char>> {
    if !seq_contains(content, "SYSCONFIG_WEAK"@) || seq_contains(content, "defined(__clang__)"@) || seq_contains(
        content,
        "defined(__ARMCC_VERSION)"@,
    ) {
        Ok(None)
    } else if seq_contains(content, "defined(__GNUC__)"@) {
        Ok(
            Some(
                replace_first_seq(
                    content,
                    "defined(__GNUC__)"@,
                    "defined(__GNUC__) || defined(__clang__) || defined(__ARMCC_VERSION)"@,
                ),
            ),
        )
    } else {
        Err(header + " 中的 SYSCONFIG_WEAK 定义无法自动兼容 ArmClang"@)
    }
}

pub fn make_sysconfig_header_armclang_compatible(content: &str, header: &str) -> (r: Result<Option<String>, String>)
    ensures
        match r {
            Ok(u) => armclang_header_spec(content@, header@) == Ok::<Option<Seq<char>>, Seq<char>>(opt_string(u)),
            Err(e) => armclang_header_spec(content@, header@) == Err::<Option<Seq<char>>, Seq<char>>(e@),
        },
{
    let c = chars_of(content);
    if !contains_chars(&c, &chars_of("SYSCONFIG_WEAK")) || contains_chars(&c, &chars_of("defined(__clang__)"))
        || contains_chars(&c, &chars_of("defined(__ARMCC_VERSION)")) {
        return Ok(None);
    }
    let gnuc = chars_of("defined(__GNUC__)");
    if contains_chars(&c, &gnuc) {
        proof {
            reveal_strlit("defined(__GNUC__)");
        }
        let updated = replace_first_chars(
            &c,
            &gnuc,
            &chars_of("defined(__GNUC__) || defined(__clang__) || defined(__ARMCC_VERSION)"),
        );
        Ok(Some(string_of(&updated)))
    } else {
        let mut m = chars_of(header);
        append_chars(&mut m, &chars_of(" 中的 SYSCONFIG_WEAK 定义无法自动兼容 ArmClang"));
        Err(string_of(&m))
    }
}

proof fn lemma_first_occurrence(s: Seq<char>, needle: Seq<char>, i: int)
    requires
        occurs_at(s, needle, i),
    ensures
        exists|k: int| first_occurrence_from(s, needle, 0, k),
    decreases i,
{
    if exists|j: int| 0 <= j < i && occurs_at(s, needle, j) {
        let j = choose|j: int| 0 <= j < i && occurs_at(s, needle, j);
        lemma_first_occurrence(s, needle, j);
    } else {
        assert(first_occurrence_from(s, needle, 0, i));
    }
}

/// Making the generated header ArmClang-compatible a second time changes
/// nothing: the first pass leaves it compatible.
pub proof fn law_armclang_header_idempotent(content: Seq<char>, header: Seq<char>, updated: Seq<char>)
    requires
        armclang_header_spec(content, header) == Ok::<Option<Seq<char>>, Seq<char>>(Some(updated)),
    ensures
        armclang_header_spec(updated, header) == Ok::<Option<Seq<char>>, Seq<char>>(None),
{
    let from = "defined(__GNUC__)"@;
    let to = "defined(__GNUC__) || defined(__clang__) || defined(__ARMCC_VERSION)"@;
    let clang = "defined(__clang__)"@;
    reveal_strlit("defined(__GNUC__)");
    reveal_strlit("defined(__GNUC__) || defined(__clang__) || defined(__ARMCC_VERSION)");
    reveal_strlit("defined(__clang__)");
    assert(seq_contains(content, from));
    let i = choose|i: int| occurs_at(content, from, i);
    lemma_first_occurrence(content, from, i);
    let k = choose|k: int| first_occurrence_from(content, from, 0, k);
    crate::text::lemma_replace_first(content, from, to, 0, k);
    assert(content.skip(0) =~= content);
    assert(updated == content.subrange(0, k) + to + content.skip(k + from.len()));
    assert(updated.subrange(k + 21, k + 21 + clang.len()) =~= clang);
    assert(occurs_at(updated, clang, k + 21));
}

// ---------------------------------------------------------------------------
// The report
// ---------------------------------------------------------------------------

/// The report of a finished conversion: the files the generator named and
/// the files found in the new project, sorted and each once; the
/// inspection's warnings before the generator's.
pub fn conversion_report(
    inspection: &ProjectInspection,
    output_path: &str,
    generated: Vec<String>,
    listed: Vec<String>,
    warnings: Vec<String>,
) -> (r: ConversionReport)
    ensures
        r.source_kind == inspection.kind,
        r.target_kind == inspection.target_kind,
        r.device@ == inspection.device@,
        r.output_path@ == output_path@,
        is_sorted_dedup_of(string_views(r.generated_files@), string_views(generated@) + string_views(listed@)),
        string_views(r.warnings@) == string_views(inspection.warnings@) + string_views(warnings@),
{
    let mut files = generated;
    let ghost g = string_views(files@);
    let mut more = listed;
    let ghost l = string_views(more@);
    files.append(&mut more);
    proof {
        assert(string_views(files@) =~= g + l);
    }
    dedup(&mut files);
    let mut all: Vec<String> = Vec::new();
    let mut i: usize = 0;
    while i < inspection.warnings.len()
        invariant
            i <= inspection.warnings.len(),
            string_views(all@) == string_views(inspection.warnings@).take(i as int),
        decreases inspection.warnings.len() - i,
    {
        let ghost before = all@;
        all.push(inspection.warnings[i].clone());
        assert(string_views(all@) =~= string_views(before).push(inspection.warnings@[i as int]@));
        assert(string_views(inspection.warnings@).take(i + 1) =~= string_views(inspection.warnings@).take(i as int).push(
            inspection.warnings@[i as int]@,
        ));
        i += 1;
    }
    assert(string_views(inspection.warnings@).take(inspection.warnings.len() as int) =~= string_views(
        inspection.warnings@,
    ));
    let ghost head = string_views(all@);
    let mut rest = warnings;
    let ghost w = string_views(rest@);
    all.append(&mut rest);
    assert(string_views(all@) =~= head + w);
    ConversionReport {
        source_kind: inspection.kind,
        target_kind: inspection.target_kind,
        device: inspection.device.clone(),
        output_path: string_of(&chars_of(output_path)),
        generated_files: files,
        warnings: all,
    }
}

} // verus!
