//! Build validation: running the source project's own IDE on it and judging
//! the outcome. CCS gets a clean and a full build and then a strict link
//! that keeps unused sections; Keil is judged by its build log. The
//! processes are run by the caller; these functions say what to run and
//! what the results mean.
use vstd::prelude::*;
use crate::discovery::{grandparent, grandparent_spec, opt_string};
use crate::model::{BuildValidationReport, ProjectKind};
use crate::text::{
    append_chars, chars_of, contains_chars, seq_contains, starts_with_chars, string_of, string_views, tokens,
    split_tokens, path_sep, views, SepKind, chars_equal,
};
use crate::tools::{depth_error, depth_error_message};
use crate::validation::{keil_log_succeeded, keil_log_success_spec, strict_makefile, strict_makefile_spec};
use crate::winpath::{file_name_of, file_name_spec, path_join_spec, path_join_str, path_parent, path_parent_spec};

verus! {

/// Which validation a project gets: the depth is checked first, then the
/// project's kind (`kind`, from `detect_project`) decides.
pub fn validate_project_build_with_progress(search_depth: u8, kind: Result<ProjectKind, String>) -> (r: Result<
    ProjectKind,
    String,
>)
    ensures
        match r {
            Ok(k) => search_depth <= 4 && kind == Ok::<ProjectKind, String>(k),
            Err(e) => (search_depth > 4 && e@ == depth_error()) || (search_depth <= 4 && (kind matches Err(x)
                && e@ == x@)),
        },
{
    if search_depth > 4 {
        return Err(depth_error_message());
    }
    kind
}

/// Which validation a project gets when tools are searched two levels deep.
pub fn validate_project_build(kind: Result<ProjectKind, String>) -> (r: Result<ProjectKind, String>)
    ensures
        match r {
            Ok(k) => kind == Ok::<ProjectKind, String>(k),
            Err(e) => kind matches Err(x) && e@ == x@,
        },
{
    validate_project_build_with_progress(2, kind)
}

// ---------------------------------------------------------------------------
// CCS
// ---------------------------------------------------------------------------

pub open spec fn gmake_spec(root: Seq<char>) -> Seq<char> {
    path_join_spec(root, "utils/bin/gmake.exe"@)
}

/// The CCS server (`server`, from `locate_ccs_server`) and the `gmake`
/// of its installation, two levels above the server.
pub open spec fn ccs_tool_paths_spec(server: Result<String, String>) -> Result<(Seq<char>, Seq<char>), Seq<char>> {
    match server {
        Err(e) => Err(e@),
        Ok(s) => match grandparent_spec(Some(s@)) {
            None => Err("无法确定 CCS 安装根目录"@),
            Some(root) => Ok((s@, gmake_spec(root))),
        },
    }
}

pub fn ccs_tool_paths(server: Result<String, String>) -> (r: Result<(String, String), String>)
    ensures
        match r {
            Ok((s, g)) => ccs_tool_paths_spec(server) == Ok::<(Seq<char>, Seq<char>), Seq<char>>((s@, g@)),
            Err(e) => ccs_tool_paths_spec(server) == Err::<(Seq<char>, Seq<char>), Seq<char>>(e@),
        },
{
    let s = match &server {
        Ok(s) => s,
        Err(e) => return Err(e.clone()),
    };
    match grandparent(s.as_str()) {
        None => Err(string_of(&chars_of("无法确定 CCS 安装根目录"))),
        Some(root) => Ok((s.clone(), string_of(&path_join_str(&chars_of(root.as_str()), "utils/bin/gmake.exe")))),
    }
}

/// Refuses a CCS installation without its `gmake`.
pub fn check_gmake(gmake: &str, is_file: bool) -> (r: Result<(), String>)
    ensures
        r is Ok <==> is_file,
        r matches Err(e) ==> e@ == "CCS 缺少构建工具："@ + gmake@,
{
    if is_file {
        Ok(())
    } else {
        let mut m = chars_of("CCS 缺少构建工具：");
        append_chars(&mut m, &chars_of(gmake));
        Err(string_of(&m))
    }
}

/// The directory of a CCS project: the selection when it is a directory,
/// else the directory holding the selected file.
pub open spec fn ccs_project_root_spec(project_path: Seq<char>, is_dir: bool) -> Result<Seq<char>, Seq<char>> {
    if is_dir {
        Ok(project_path)
    } else {
        match path_parent_spec(project_path) {
            Some(p) => Ok(p),
            None => Err("无法确定 CCS 工程目录"@),
        }
    }
}

pub fn ccs_project_root(project_path: &str, is_dir: bool) -> (r: Result<String, String>)
    ensures
        match r {
            Ok(p) => ccs_project_root_spec(project_path@, is_dir) == Ok::<Seq<char>, Seq<char>>(p@),
            Err(e) => ccs_project_root_spec(project_path@, is_dir) == Err::<Seq<char>, Seq<char>>(e@),
        },
{
    if is_dir {
        return Ok(string_of(&chars_of(project_path)));
    }
    match path_parent(&chars_of(project_path)) {
        Some(p) => Ok(string_of(&p)),
        None => Err(string_of(&chars_of("无法确定 CCS 工程目录"))),
    }
}

/// How a CCS project is imported: from its `.projectspec` (found when the
/// directory has no `.cproject`) or from its directory; a copy in the
/// temporary workspace is built unless the project is built in place from
/// its own directory.
pub struct CcsImport {
    pub location: String,
    pub uses_temp_project: bool,
    pub metadata: String,
    pub workspace: String,
}

pub open spec fn ccs_import_spec(
    project_root: Seq<char>,
    projectspec: Option<Seq<char>>,
    in_place: bool,
    temp: Seq<char>,
) -> (Seq<char>, bool, Seq<char>, Seq<char>) {
    (
        match projectspec {
            Some(p) => p,
            None => project_root,
        },
        !in_place || projectspec is Some,
        path_join_spec(temp, "metadata"@),
        path_join_spec(temp, "workspace"@),
    )
}

pub fn ccs_import(project_root: &str, projectspec: Option<String>, in_place: bool, temp: &str) -> (r: CcsImport)
    ensures
        (r.location@, r.uses_temp_project, r.metadata@, r.workspace@) == ccs_import_spec(
            project_root@,
            opt_string(projectspec),
            in_place,
            temp@,
        ),
{
    let uses_temp_project = !in_place || projectspec.is_some();
    let location = match projectspec {
        Some(p) => p,
        None => string_of(&chars_of(project_root)),
    };
    let t = chars_of(temp);
    CcsImport {
        location,
        uses_temp_project,
        metadata: string_of(&path_join_str(&t, "metadata")),
        workspace: string_of(&path_join_str(&t, "workspace")),
    }
}

/// The name of a fresh temporary directory: `ti-toolbox-{name}-{id}` in the
/// system's temporary directory.
pub open spec fn temp_dir_spec(temp_root: Seq<char>, name: Seq<char>, id: Seq<char>) -> Seq<char> {
    path_join_spec(temp_root, "ti-toolbox-"@ + name + "-"@ + id)
}

pub fn unique_temp_dir(temp_root: &str, name: &str, id: &str) -> (r: String)
    ensures
        r@ == temp_dir_spec(temp_root@, name@, id@),
{
    let mut n = chars_of("ti-toolbox-");
    append_chars(&mut n, &chars_of(name));
    append_chars(&mut n, &chars_of("-"));
    append_chars(&mut n, &chars_of(id));
    string_of(&crate::winpath::path_join(&chars_of(temp_root), &n))
}

/// The command line of a CCS application run: headless, with the
/// temporary metadata directory and import destination.
pub open spec fn ccs_run_arguments_spec(
    metadata: Seq<char>,
    workspace: Seq<char>,
    application: Seq<char>,
    arguments: Seq<Seq<char>>,
) -> Seq<Seq<char>> {
    seq![
        "-nosplash"@,
        "-data"@,
        metadata,
        "-application"@,
        application,
        "-ccs.launcher"@,
        "ti-toolbox"@,
        "-ccs.defaultImportDestination"@,
        workspace,
    ] + arguments
}

fn push_str(v: &mut Vec<String>, s: &str)
    ensures
        string_views(final(v)@) == string_views(old(v)@).push(s@),
{
    let ghost before = old(v)@;
    v.push(string_of(&chars_of(s)));
    assert(string_views(v@) =~= string_views(before).push(s@));
}

pub fn ccs_run_arguments(metadata: &str, workspace: &str, application: &str, arguments: &Vec<String>) -> (r: Vec<String>)
    ensures
        string_views(r@) == ccs_run_arguments_spec(metadata@, workspace@, application@, string_views(arguments@)),
{
    let mut r: Vec<String> = Vec::new();
    assert(string_views(r@) =~= seq![]);
    push_str(&mut r, "-nosplash");
    push_str(&mut r, "-data");
    push_str(&mut r, metadata);
    push_str(&mut r, "-application");
    push_str(&mut r, application);
    push_str(&mut r, "-ccs.launcher");
    push_str(&mut r, "ti-toolbox");
    push_str(&mut r, "-ccs.defaultImportDestination");
    push_str(&mut r, workspace);
    let ghost head = string_views(r@);
    let mut i: usize = 0;
    while i < arguments.len()
        invariant
            i <= arguments.len(),
            string_views(r@) == head + string_views(arguments@).take(i as int),
        decreases arguments.len() - i,
    {
        push_str(&mut r, arguments[i].as_str());
        assert(string_views(arguments@).take(i + 1) =~= string_views(arguments@).take(i as int).push(
            arguments@[i as int]@,
        ));
        i += 1;
    }
    assert(string_views(arguments@).take(arguments.len() as int) =~= string_views(arguments@));
    assert(string_views(r@) =~= ccs_run_arguments_spec(metadata@, workspace@, application@, string_views(arguments@)));
    r
}

/// The import application's arguments.
pub open spec fn ccs_import_arguments_spec(location: Seq<char>, uses_temp_project: bool) -> Seq<Seq<char>> {
    if uses_temp_project {
        seq!["-ccs.location"@, location, "-ccs.copyIntoWorkspace"@]
    } else {
        seq!["-ccs.location"@, location]
    }
}

pub fn ccs_import_arguments(import: &CcsImport) -> (r: Vec<String>)
    ensures
        string_views(r@) == ccs_import_arguments_spec(import.location@, import.uses_temp_project),
{
    let mut r: Vec<String> = Vec::new();
    assert(string_views(r@) =~= seq![]);
    push_str(&mut r, "-ccs.location");
    push_str(&mut r, import.location.as_str());
    if import.uses_temp_project {
        push_str(&mut r, "-ccs.copyIntoWorkspace");
    }
    r
}

/// The build application's arguments for a `clean` or `full` build.
pub open spec fn ccs_build_arguments_spec(name: Seq<char>, build_type: Seq<char>) -> Seq<Seq<char>> {
    seq!["-ccs.projects"@, name, "-ccs.buildType"@, build_type, "-ccs.listProblems"@]
}

pub fn ccs_build_arguments(name: &str, build_type: &str) -> (r: Vec<String>)
    ensures
        string_views(r@) == ccs_build_arguments_spec(name@, build_type@),
{
    let mut r: Vec<String> = Vec::new();
    assert(string_views(r@) =~= seq![]);
    push_str(&mut r, "-ccs.projects");
    push_str(&mut r, name);
    push_str(&mut r, "-ccs.buildType");
    push_str(&mut r, build_type);
    push_str(&mut r, "-ccs.listProblems");
    r
}

/// A failed import ends the validation with its log.
pub fn check_ccs_import(succeeded: bool, log: &str) -> (r: Result<(), String>)
    ensures
        r is Ok <==> succeeded,
        r matches Err(e) ==> e@ == "CCS 导入工程失败：\n"@ + log@,
{
    if succeeded {
        Ok(())
    } else {
        let mut m = chars_of("CCS 导入工程失败：\n");
        append_chars(&mut m, &chars_of(log));
        Err(string_of(&m))
    }
}

pub open spec fn all_built_marker() -> Seq<char> {
    "0 out of 1 projects have errors"@
}

/// The normal builds' joint log, and whether they passed: both processes
/// succeeded and the log reports no project with errors.
pub open spec fn ccs_normal_build_spec(clean_ok: bool, clean_log: Seq<char>, full_ok: bool, full_log: Seq<char>) -> (bool, Seq<char>) {
    let log = clean_log + "\n"@ + full_log;
    (clean_ok && full_ok && seq_contains(log, all_built_marker()), log)
}

pub fn ccs_normal_build(clean_ok: bool, clean_log: &str, full_ok: bool, full_log: &str) -> (r: (bool, String))
    ensures
        (r.0, r.1@) == ccs_normal_build_spec(clean_ok, clean_log@, full_ok, full_log@),
{
    let mut log = chars_of(clean_log);
    append_chars(&mut log, &chars_of("\n"));
    append_chars(&mut log, &chars_of(full_log));
    let ok = clean_ok && full_ok && contains_chars(&log, &chars_of("0 out of 1 projects have errors"));
    (ok, string_of(&log))
}

/// The report of normal builds that failed.
pub fn ccs_failed_build_report(log: String) -> (r: BuildValidationReport)
    ensures
        !r.success,
        r.summary@ == "CCS Clean + Full Build 失败"@,
        r.log@ == log@,
        r.log_path is None,
        r.validated_project_path is None,
        r.cleanup_path is None,
{
    BuildValidationReport {
        success: false,
        summary: string_of(&chars_of("CCS Clean + Full Build 失败")),
        log,
        log_path: None,
        validated_project_path: None,
        cleanup_path: None,
    }
}

/// The project that was built: the copy in the workspace, or the project
/// directory itself.
pub open spec fn built_project_spec(import: CcsImport, name: Seq<char>, project_root: Seq<char>) -> Seq<char> {
    if import.uses_temp_project {
        path_join_spec(import.workspace@, name)
    } else {
        project_root
    }
}

pub fn built_project(import: &CcsImport, name: &str, project_root: &str) -> (r: String)
    ensures
        r@ == built_project_spec(*import, name@, project_root@),
{
    if import.uses_temp_project {
        string_of(&path_join_str(&chars_of(import.workspace.as_str()), name))
    } else {
        string_of(&chars_of(project_root))
    }
}

/// The build directory to link in, from the search of the built project
/// for a `makefile` beside `ccsObjs.opt`.
pub fn ccs_build_dir(found: Result<Option<String>, String>) -> (r: Result<String, String>)
    ensures
        match found {
            Err(x) => r matches Err(e) && e@ == x@,
            Ok(None) => r matches Err(e) && e@ == "CCS 构建成功，但未找到生成的 makefile/ccsObjs.opt"@,
            Ok(Some(d)) => r matches Ok(x) && x@ == d@,
        },
{
    match found {
        Err(e) => Err(e),
        Ok(None) => Err(string_of(&chars_of("CCS 构建成功，但未找到生成的 makefile/ccsObjs.opt"))),
        Ok(Some(d)) => Ok(d),
    }
}

/// A directory where a CCS build left its makefile, and when that makefile
/// was last modified.
pub struct BuildDirCandidate {
    pub modified: u128,
    pub path: String,
}

/// `i` is the first of the candidates with the latest modification time.
pub open spec fn is_first_latest(c: Seq<BuildDirCandidate>, i: int) -> bool {
    &&& 0 <= i < c.len()
    &&& forall|j: int| 0 <= j < c.len() ==> (#[trigger] c[j]).modified <= c[i].modified
    &&& forall|j: int| 0 <= j < i ==> (#[trigger] c[j]).modified < c[i].modified
}

/// The build directory among those found (in search order): the first
/// one whose makefile is the newest.
pub fn latest_build_dir(candidates: &Vec<BuildDirCandidate>) -> (r: Option<String>)
    ensures
        r is None <==> candidates.len() == 0,
        r matches Some(p) ==> exists|i: int| is_first_latest(candidates@, i) && p@ == candidates@[i].path@,
{
    if candidates.len() == 0 {
        return None;
    }
    let mut best: usize = 0;
    let mut j: usize = 1;
    while j < candidates.len()
        invariant
            1 <= j <= candidates.len(),
            best < j,
            is_first_latest(candidates@.take(j as int), best as int),
        decreases candidates.len() - j,
    {
        let ghost t = candidates@.take(j + 1);
        assert(forall|m: int| 0 <= m < j ==> t[m] == candidates@.take(j as int)[m]);
        if candidates[j].modified > candidates[best].modified {
            best = j;
        }
        assert(is_first_latest(t, best as int));
        j += 1;
    }
    assert(candidates@.take(candidates.len() as int) =~= candidates@);
    Some(candidates[best].path.clone())
}

/// How the strict link is run: the patched makefile is written to
/// `makefile`, `gmake` is started in `directory` with `arguments`, and
/// afterwards the patched makefile and the strict outputs (`cleanup`) are
/// removed.
pub struct StrictLinkPlan {
    pub makefile: String,
    pub content: String,
    pub arguments: Vec<String>,
    pub directory: String,
    pub cleanup: Vec<String>,
}

pub open spec fn strict_makefile_path(temp: Seq<char>) -> Seq<char> {
    path_join_spec(temp, "strict-validation.mk"@)
}

pub open spec fn joined_all(dir: Seq<char>, names: Seq<Seq<char>>) -> Seq<Seq<char>> {
    names.map_values(|n: Seq<char>| path_join_spec(dir, n))
}

/// The strict link for the build directory, from its makefile's text (or
/// the error reading it).
pub open spec fn strict_link_plan_ok(p: StrictLinkPlan, makefile: Seq<char>, build_dir: Seq<char>, temp: Seq<char>) -> bool {
    match strict_makefile_spec(makefile) {
        Err(_) => false,
        Ok((patched, target, artifacts)) => {
            &&& p.makefile@ == strict_makefile_path(temp)
            &&& p.content@ == patched
            &&& string_views(p.arguments@) == seq!["-f"@, strict_makefile_path(temp), target, "-r"@, "-O"@]
            &&& p.directory@ == build_dir
            &&& string_views(p.cleanup@) == seq![strict_makefile_path(temp)] + joined_all(build_dir, artifacts)
        },
    }
}

pub fn strict_link_plan(makefile: Result<String, String>, build_dir: &str, temp: &str) -> (r: Result<
    StrictLinkPlan,
    String,
>)
    ensures
        match makefile {
            Err(x) => r matches Err(e) && e@ == "无法读取 CCS makefile："@ + x@,
            Ok(text) => match r {
                Ok(p) => strict_link_plan_ok(p, text@, build_dir@, temp@),
                Err(e) => strict_makefile_spec(text@) == Err::<(Seq<char>, Seq<char>, Seq<Seq<char>>), Seq<char>>(
                    e@,
                ),
            },
        },
{
    let text = match makefile {
        Err(x) => {
            let mut m = chars_of("无法读取 CCS makefile：");
            append_chars(&mut m, &chars_of(x.as_str()));
            return Err(string_of(&m));
        },
        Ok(t) => t,
    };
    let (patched, target, artifacts) = strict_makefile(text.as_str())?;
    let mk = string_of(&path_join_str(&chars_of(temp), "strict-validation.mk"));
    let mut arguments: Vec<String> = Vec::new();
    assert(string_views(arguments@) =~= seq![]);
    push_str(&mut arguments, "-f");
    push_str(&mut arguments, mk.as_str());
    push_str(&mut arguments, target.as_str());
    push_str(&mut arguments, "-r");
    push_str(&mut arguments, "-O");
    let dir = chars_of(build_dir);
    let mut cleanup: Vec<String> = Vec::new();
    assert(string_views(cleanup@) =~= seq![]);
    push_str(&mut cleanup, mk.as_str());
    let mut i: usize = 0;
    while i < artifacts.len()
        invariant
            i <= artifacts.len(),
            dir@ == build_dir@,
            makefile == Ok::<String, String>(text),
            mk@ == strict_makefile_path(temp@),
            string_views(arguments@) == seq!["-f"@, strict_makefile_path(temp@), target@, "-r"@, "-O"@],
            strict_makefile_spec(text@) == Ok::<(Seq<char>, Seq<char>, Seq<Seq<char>>), Seq<char>>(
                (patched@, target@, string_views(artifacts@)),
            ),
            string_views(cleanup@) == seq![mk@] + joined_all(build_dir@, string_views(artifacts@).take(i as int)),
        decreases artifacts.len() - i,
    {
        let ghost before = string_views(cleanup@);
        cleanup.push(string_of(&crate::winpath::path_join(&dir, &chars_of(artifacts[i].as_str()))));
        assert(string_views(cleanup@) =~= before.push(path_join_spec(build_dir@, artifacts@[i as int]@)));
        assert(string_views(artifacts@).take(i + 1) =~= string_views(artifacts@).take(i as int).push(
            artifacts@[i as int]@,
        ));
        assert(joined_all(build_dir@, string_views(artifacts@).take(i + 1)) =~= joined_all(
            build_dir@,
            string_views(artifacts@).take(i as int),
        ).push(path_join_spec(build_dir@, artifacts@[i as int]@)));
        i += 1;
    }
    assert(string_views(artifacts@).take(artifacts.len() as int) =~= string_views(artifacts@));
    Ok(StrictLinkPlan { makefile: mk, content: patched, arguments, directory: string_of(&dir), cleanup })
}

pub open spec fn strict_banner() -> Seq<char> {
    "\n\n===== CCS 严格链接（保留未使用 section）=====\n"@
}

pub open spec fn ccs_summary_spec(success: bool, strict_log: Seq<char>) -> Seq<char> {
    if success {
        "CCS Clean + Full Build 与严格链接均通过"@
    } else if seq_contains(strict_log, "unresolved symbols remain"@) {
        "CCS 普通构建通过，但严格链接发现未定义符号"@
    } else {
        "CCS 普通构建通过，但严格链接失败"@
    }
}

/// The report of a CCS validation whose normal builds passed (`log` is
/// their joint log), from the strict link's outcome. A validated copy in
/// the temporary workspace is handed over, with the directory to clean up
/// later, only when everything passed.
pub fn validate_ccs_build(
    log: &str,
    strict_ok: bool,
    strict_log: &str,
    uses_temp_project: bool,
    built_project: &str,
    temp: &str,
) -> (r: BuildValidationReport)
    ensures
        r.success == strict_ok,
        r.summary@ == ccs_summary_spec(strict_ok, strict_log@),
        r.log@ == log@ + strict_banner() + strict_log@,
        r.log_path is None,
        opt_string(r.validated_project_path) == (if strict_ok && uses_temp_project {
            Some(built_project@)
        } else {
            None
        }),
        opt_string(r.cleanup_path) == (if strict_ok && uses_temp_project {
            Some(temp@)
        } else {
            None
        }),
{
    let mut full = chars_of(log);
    append_chars(&mut full, &chars_of("\n\n===== CCS 严格链接（保留未使用 section）=====\n"));
    append_chars(&mut full, &chars_of(strict_log));
    let summary = if strict_ok {
        chars_of("CCS Clean + Full Build 与严格链接均通过")
    } else if contains_chars(&chars_of(strict_log), &chars_of("unresolved symbols remain")) {
        chars_of("CCS 普通构建通过，但严格链接发现未定义符号")
    } else {
        chars_of("CCS 普通构建通过，但严格链接失败")
    };
    let handed = strict_ok && uses_temp_project;
    BuildValidationReport {
        success: strict_ok,
        summary: string_of(&summary),
        log: string_of(&full),
        log_path: None,
        validated_project_path: if handed {
            Some(string_of(&chars_of(built_project)))
        } else {
            None
        },
        cleanup_path: if handed {
            Some(string_of(&chars_of(temp)))
        } else {
            None
        },
    }
}

/// The temporary directory stays only when it holds a validated copy that
/// the report hands over.
pub fn keep_validation_copy(result: &Result<BuildValidationReport, String>, uses_temp_project: bool) -> (r: bool)
    ensures
        r == (result matches Ok(report) && report.success && uses_temp_project),
{
    match result {
        Ok(report) => report.success && uses_temp_project,
        Err(_) => false,
    }
}

// ---------------------------------------------------------------------------
// Keil
// ---------------------------------------------------------------------------

/// How a Keil build is run: `UV4.exe -b PROJECT -o LOG`.
pub struct KeilBuildPlan {
    pub uv4: String,
    pub project: String,
    pub log_path: String,
    pub arguments: Vec<String>,
}

pub open spec fn keil_log_path_spec(project: Seq<char>) -> Seq<char> {
    path_join_spec(
        match path_parent_spec(project) {
            Some(p) => p,
            None => "."@,
        },
        "ti-toolbox-keil-build.log"@,
    )
}

/// The Keil build for a project: `uv4` (from `locate_uv4`), the selected
/// `.uvprojx`, or the one found below the selected directory (`found`,
/// looked at only when the selection is not a file); the log goes beside
/// the project file.
pub open spec fn keil_build_plan_spec(
    uv4: Result<String, String>,
    project_path: Seq<char>,
    is_file: bool,
    found: Result<Option<String>, String>,
) -> Result<(Seq<char>, Seq<char>), Seq<char>> {
    match uv4 {
        Err(e) => Err(e@),
        Ok(u) => if is_file {
            Ok((u@, project_path))
        } else {
            match found {
                Err(e) => Err(e@),
                Ok(None) => Err("Keil 工程中未找到 .uvprojx"@),
                Ok(Some(p)) => Ok((u@, p@)),
            }
        },
    }
}

pub fn keil_build_plan(uv4: Result<String, String>, project_path: &str, is_file: bool, found: Result<Option<String>, String>) -> (r: Result<
    KeilBuildPlan,
    String,
>)
    ensures
        match r {
            Ok(p) => keil_build_plan_spec(uv4, project_path@, is_file, found) == Ok::<(Seq<char>, Seq<char>), Seq<char>>(
                (p.uv4@, p.project@),
            ) && p.log_path@ == keil_log_path_spec(p.project@) && string_views(p.arguments@) == seq![
                "-b"@,
                p.project@,
                "-o"@,
                p.log_path@,
            ],
            Err(e) => keil_build_plan_spec(uv4, project_path@, is_file, found) == Err::<(Seq<char>, Seq<char>), Seq<char>>(
                e@,
            ),
        },
{
    let uv4 = match uv4 {
        Ok(u) => u,
        Err(e) => return Err(e),
    };
    let project = if is_file {
        string_of(&chars_of(project_path))
    } else {
        match found {
            Err(e) => return Err(e),
            Ok(None) => return Err(string_of(&chars_of("Keil 工程中未找到 .uvprojx"))),
            Ok(Some(p)) => p,
        }
    };
    let dir = match path_parent(&chars_of(project.as_str())) {
        Some(p) => p,
        None => chars_of("."),
    };
    let log_path = string_of(&path_join_str(&dir, "ti-toolbox-keil-build.log"));
    let mut arguments: Vec<String> = Vec::new();
    assert(string_views(arguments@) =~= seq![]);
    push_str(&mut arguments, "-b");
    push_str(&mut arguments, project.as_str());
    push_str(&mut arguments, "-o");
    push_str(&mut arguments, log_path.as_str());
    Ok(KeilBuildPlan { uv4, project, log_path, arguments })
}

/// Keil has finished writing its build log.
pub fn keil_log_complete(log: &str) -> (r: bool)
    ensures
        r == seq_contains(log@, "Build Time Elapsed:"@),
{
    contains_chars(&chars_of(log), &chars_of("Build Time Elapsed:"))
}

/// How long to wait for Keil's build log, in milliseconds.
pub const KEIL_LOG_TIMEOUT_MS: u64 = 120000;

/// How long to pause between reads of Keil's build log, in milliseconds.
pub const KEIL_LOG_POLL_MS: u64 = 200;

pub open spec fn keil_timeout_message() -> Seq<char> {
    "等待 Keil 构建日志超时"@
}

/// What to do after a read of Keil's build log.
pub enum KeilWaitAction {
    /// The log is complete: judge it.
    Finished,
    /// Pause `KEIL_LOG_POLL_MS` and read again.
    Wait,
    /// Give up with this message.
    TimedOut(String),
}

/// One round of waiting for Keil's build log: where to pass on new log text
/// from (a byte offset), how much of the log has been passed on, and what
/// to do next.
pub struct KeilWaitStep {
    pub show_from: Option<usize>,
    pub shown: usize,
    pub action: KeilWaitAction,
}

/// A round of waiting: `read` is the log's length in bytes and its text when
/// it could be read, `shown` how many bytes were passed on before, and
/// `elapsed_ms` the time since the build was started. A log that got
/// shorter is passed on again from its start; a complete log ends the wait,
/// and otherwise the wait times out at `KEIL_LOG_TIMEOUT_MS`.
pub fn keil_wait_step(read: Option<(usize, &str)>, shown: usize, elapsed_ms: u64) -> (r: KeilWaitStep)
    ensures
        match read {
            Some((len, text)) => {
                let start = if len < shown { 0 } else { shown };
                &&& r.show_from == (if len > start { Some(start) } else { None })
                &&& r.shown == (if len > start { len } else { start })
                &&& (seq_contains(text@, "Build Time Elapsed:"@) ==> r.action is Finished)
                &&& (!seq_contains(text@, "Build Time Elapsed:"@) ==> (if elapsed_ms >= KEIL_LOG_TIMEOUT_MS {
                    r.action matches KeilWaitAction::TimedOut(m) && m@ == keil_timeout_message()
                } else {
                    r.action is Wait
                }))
            },
            None => {
                &&& r.show_from is None
                &&& r.shown == shown
                &&& (if elapsed_ms >= KEIL_LOG_TIMEOUT_MS {
                    r.action matches KeilWaitAction::TimedOut(m) && m@ == keil_timeout_message()
                } else {
                    r.action is Wait
                })
            },
        },
{
    let (show_from, now_shown, complete) = match read {
        Some((len, text)) => {
            let start = if len < shown { 0 } else { shown };
            if len > start {
                (Some(start), len, keil_log_complete(text))
            } else {
                (None, start, keil_log_complete(text))
            }
        },
        None => (None, shown, false),
    };
    let action = if complete {
        KeilWaitAction::Finished
    } else if elapsed_ms >= KEIL_LOG_TIMEOUT_MS {
        KeilWaitAction::TimedOut(string_of(&chars_of("等待 Keil 构建日志超时")))
    } else {
        KeilWaitAction::Wait
    };
    KeilWaitStep { show_from, shown: now_shown, action }
}

/// The report of a Keil build, judged by its finished log rather than by
/// the process's exit status.
pub fn validate_keil_build(log: String, log_path: &str) -> (r: BuildValidationReport)
    ensures
        r.success == keil_log_success_spec(log@),
        r.summary@ == (if keil_log_success_spec(log@) {
            "Keil 构建通过"@
        } else {
            "Keil 构建失败"@
        }),
        r.log@ == log@,
        opt_string(r.log_path) == Some(log_path@),
        r.validated_project_path is None,
        r.cleanup_path is None,
{
    let success = keil_log_succeeded(log.as_str());
    BuildValidationReport {
        success,
        summary: if success {
            string_of(&chars_of("Keil 构建通过"))
        } else {
            string_of(&chars_of("Keil 构建失败"))
        },
        log,
        log_path: Some(string_of(&chars_of(log_path))),
        validated_project_path: None,
        cleanup_path: None,
    }
}

// ---------------------------------------------------------------------------
// Cleaning up a validated copy
// ---------------------------------------------------------------------------

pub open spec fn validation_dir_prefix() -> Seq<char> {
    "ti-toolbox-ccs-validation-"@
}

/// A path lies within `base`: the components of `base` (the text between
/// separators) begin its components.
pub open spec fn path_within(path: Seq<char>, base: Seq<char>) -> bool {
    tokens(base, path_sep()).is_prefix_of(tokens(path, path_sep()))
}

/// Only a directory of this tool's CCS validations inside the temporary
/// directory may be removed.
pub open spec fn may_clean_spec(path: Seq<char>, temp: Seq<char>) -> bool {
    &&& path_within(path, temp)
    &&& match file_name_spec(path) {
        Some(n) => validation_dir_prefix().is_prefix_of(n),
        None => false,
    }
}

fn tokens_prefix(t: &Vec<Vec<char>>, p: &Vec<Vec<char>>) -> (r: bool)
    ensures
        r == views(t@).is_prefix_of(views(p@)),
{
    let ghost pv = views(p@);
    let ghost tv = views(t@);
    if t.len() > p.len() {
        return false;
    }
    let mut i: usize = 0;
    while i < t.len()
        invariant
            i <= t.len() <= p.len(),
            pv == views(p@),
            tv == views(t@),
            pv.len() == p.len(),
            tv.len() == t.len(),
            forall|k: int| 0 <= k < i ==> tv[k] == pv[k],
        decreases t.len() - i,
    {
        if !chars_equal(&t[i], &p[i]) {
            assert(tv[i as int] != pv[i as int]);
            return false;
        }
        i += 1;
    }
    assert(tv =~= pv.take(tv.len() as int));
    true
}

/// Checks a validated copy before it is removed: `path` and `temp` are the
/// canonical paths of the copy and of the system's temporary directory.
pub fn cleanup_validation_copy(path: &str, temp: &str) -> (r: Result<(), String>)
    ensures
        r is Ok <==> may_clean_spec(path@, temp@),
        r matches Err(e) ==> e@ == "拒绝清理非 TI工具箱 临时验证目录"@,
{
    let p = split_tokens(&chars_of(path), &SepKind::PathSeparator);
    let t = split_tokens(&chars_of(temp), &SepKind::PathSeparator);
    let within = tokens_prefix(&t, &p);
    let named = match file_name_of(&chars_of(path)) {
        Some(n) => starts_with_chars(&n, &chars_of("ti-toolbox-ccs-validation-")),
        None => false,
    };
    if within && named {
        Ok(())
    } else {
        Err(string_of(&chars_of("拒绝清理非 TI工具箱 临时验证目录")))
    }
}

} // verus!
