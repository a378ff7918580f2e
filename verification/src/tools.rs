//! Locating the CCS command-line server and Keil µVision: a selected file
//! must be the tool itself, a selected directory is searched level by level
//! down to a chosen depth.
use vstd::prelude::*;
use crate::number::{decimal_text, u8_decimal};
use crate::text::{append_chars, chars_equal, chars_of, lower_chars, lower_seq, string_of, string_views};
use crate::winpath::{file_name_of, file_name_spec, path_join_spec, path_join_str};

verus! {

/// The deepest directory level that a tool search may go down to.
pub const MAX_SEARCH_DEPTH: u8 = 4;

pub open spec fn depth_error() -> Seq<char> {
    "工具目录搜索层级只能是 0–4"@
}

/// The message for a search depth beyond `MAX_SEARCH_DEPTH`.
pub fn depth_error_message() -> (r: String)
    ensures
        r@ == depth_error(),
{
    string_of(&chars_of("工具目录搜索层级只能是 0–4"))
}

/// A tool that the library drives.
#[derive(PartialEq, Eq, Structural, Clone, Copy, Debug)]
pub enum Tool {
    /// Code Composer Studio's command-line server, `ccs-serverc.exe`.
    Ccs,
    /// Keil µVision, `UV4.exe`.
    Keil,
}

pub open spec fn tool_label(t: Tool) -> Seq<char> {
    match t {
        Tool::Ccs => "CCS"@,
        Tool::Keil => "Keil"@,
    }
}

pub open spec fn tool_file(t: Tool) -> Seq<char> {
    match t {
        Tool::Ccs => "ccs-serverc.exe"@,
        Tool::Keil => "UV4.exe"@,
    }
}

fn tool_label_text(t: Tool) -> (r: Vec<char>)
    ensures
        r@ == tool_label(t),
{
    match t {
        Tool::Ccs => chars_of("CCS"),
        Tool::Keil => chars_of("Keil"),
    }
}

/// The executable's file name.
pub fn tool_file_name(t: Tool) -> (r: String)
    ensures
        r@ == tool_file(t),
{
    match t {
        Tool::Ccs => string_of(&chars_of("ccs-serverc.exe")),
        Tool::Keil => string_of(&chars_of("UV4.exe")),
    }
}

/// A place tried before searching: CCS installs keep the server in
/// `eclipse` beside the selected `theia` directory.
pub open spec fn special_candidate_spec(t: Tool, selected: Seq<char>) -> Option<Seq<char>> {
    match t {
        Tool::Ccs => Some(path_join_spec(selected, "../eclipse/ccs-serverc.exe"@)),
        Tool::Keil => None,
    }
}

/// The path tried before searching below `selected`, if the tool has one.
pub fn special_candidate(t: Tool, selected: &str) -> (r: Option<String>)
    ensures
        match r {
            Some(c) => special_candidate_spec(t, selected@) == Some(c@),
            None => special_candidate_spec(t, selected@) is None,
        },
{
    match t {
        Tool::Ccs => Some(string_of(&path_join_str(&chars_of(selected), "../eclipse/ccs-serverc.exe"))),
        Tool::Keil => None,
    }
}

/// `path` names a file called `file`, letters compared without case.
pub open spec fn names_file(path: Seq<char>, file: Seq<char>) -> bool {
    match file_name_spec(path) {
        Some(n) => lower_seq(n) == lower_seq(file),
        None => false,
    }
}

/// Whether `path` names a file called `file`, letters compared without case.
pub fn path_names_file(path: &str, file: &str) -> (r: bool)
    ensures
        r == names_file(path@, file@),
{
    match file_name_of(&chars_of(path)) {
        Some(n) => chars_equal(&lower_chars(&n), &lower_chars(&chars_of(file))),
        None => false,
    }
}

/// What the file system says about a path selected for a tool.
pub struct ToolProbe {
    /// The selected path, as given.
    pub selected: String,
    pub is_file: bool,
    pub is_dir: bool,
    /// Whether the tool's special candidate (see `special_candidate`) is a file.
    pub special_is_file: bool,
    /// The result of the level-by-level search below `selected`, as
    /// `tool_search::tool_search` gives it when done: the shallowest file
    /// found, none, or the error met reading `selected` itself.
    pub search: Result<Option<String>, String>,
}

/// Where the tool is, or why the selection is refused.
pub open spec fn locate_tool_spec(t: Tool, p: ToolProbe, depth: u8) -> Result<Seq<char>, Seq<char>> {
    let sel = p.selected@;
    if p.is_file {
        if names_file(sel, tool_file(t)) {
            Ok(sel)
        } else {
            Err(tool_label(t) + " 路径无效：请选择 "@ + tool_file(t) + " 或其上级目录"@)
        }
    } else if !p.is_dir {
        Err(tool_label(t) + " 路径不存在："@ + sel)
    } else if special_candidate_spec(t, sel) is Some && p.special_is_file {
        Ok(special_candidate_spec(t, sel)->0)
    } else {
        match p.search {
            Err(e) => Err(e@),
            Ok(Some(f)) => Ok(f@),
            Ok(None) => Err(
                tool_label(t) + " 路径无效：在 "@ + sel + " 向下 "@ + decimal_text(depth as nat) + " 级未找到 "@
                    + tool_file(t),
            ),
        }
    }
}

/// Locates tool `t` from what is known of the selected path.
pub fn locate_tool(t: Tool, probe: &ToolProbe, depth: u8) -> (r: Result<String, String>)
    ensures
        match r {
            Ok(p) => locate_tool_spec(t, *probe, depth) == Ok::<Seq<char>, Seq<char>>(p@),
            Err(e) => locate_tool_spec(t, *probe, depth) == Err::<Seq<char>, Seq<char>>(e@),
        },
{
    let sel = chars_of(probe.selected.as_str());
    let label = tool_label_text(t);
    let file = tool_file_name(t);
    if probe.is_file {
        if path_names_file(probe.selected.as_str(), file.as_str()) {
            return Ok(probe.selected.clone());
        }
        let mut m = label;
        append_chars(&mut m, &chars_of(" 路径无效：请选择 "));
        append_chars(&mut m, &chars_of(file.as_str()));
        append_chars(&mut m, &chars_of(" 或其上级目录"));
        return Err(string_of(&m));
    }
    if !probe.is_dir {
        let mut m = label;
        append_chars(&mut m, &chars_of(" 路径不存在："));
        append_chars(&mut m, &sel);
        return Err(string_of(&m));
    }
    if probe.special_is_file {
        match special_candidate(t, probe.selected.as_str()) {
            Some(c) => {
                return Ok(c);
            },
            None => {},
        }
    }
    match &probe.search {
        Err(e) => Err(e.clone()),
        Ok(Some(f)) => Ok(f.clone()),
        Ok(None) => {
            let mut m = label;
            append_chars(&mut m, &chars_of(" 路径无效：在 "));
            append_chars(&mut m, &sel);
            append_chars(&mut m, &chars_of(" 向下 "));
            append_chars(&mut m, &u8_decimal(depth));
            append_chars(&mut m, &chars_of(" 级未找到 "));
            append_chars(&mut m, &chars_of(file.as_str()));
            Err(string_of(&m))
        },
    }
}

/// Locates CCS's `ccs-serverc.exe`.
pub fn locate_ccs_server(probe: &ToolProbe, depth: u8) -> (r: Result<String, String>)
    ensures
        match r {
            Ok(p) => locate_tool_spec(Tool::Ccs, *probe, depth) == Ok::<Seq<char>, Seq<char>>(p@),
            Err(e) => locate_tool_spec(Tool::Ccs, *probe, depth) == Err::<Seq<char>, Seq<char>>(e@),
        },
{
    locate_tool(Tool::Ccs, probe, depth)
}

/// Locates Keil's `UV4.exe`.
pub fn locate_uv4(probe: &ToolProbe, depth: u8) -> (r: Result<String, String>)
    ensures
        match r {
            Ok(p) => locate_tool_spec(Tool::Keil, *probe, depth) == Ok::<Seq<char>, Seq<char>>(p@),
            Err(e) => locate_tool_spec(Tool::Keil, *probe, depth) == Err::<Seq<char>, Seq<char>>(e@),
        },
{
    locate_tool(Tool::Keil, probe, depth)
}

/// Both tools, CCS first, after the depth is checked.
pub open spec fn locate_toolchains_spec(ccs: ToolProbe, keil: ToolProbe, depth: u8) -> Result<
    (Seq<char>, Seq<char>),
    Seq<char>,
> {
    if depth > 4 {
        Err(depth_error())
    } else {
        match locate_tool_spec(Tool::Ccs, ccs, depth) {
            Err(e) => Err(e),
            Ok(c) => match locate_tool_spec(Tool::Keil, keil, depth) {
                Err(e) => Err(e),
                Ok(k) => Ok((c, k)),
            },
        }
    }
}

/// Locates CCS's server and Keil's `UV4.exe`.
pub fn locate_toolchains(ccs: &ToolProbe, keil: &ToolProbe, depth: u8) -> (r: Result<(String, String), String>)
    ensures
        match r {
            Ok((c, k)) => locate_toolchains_spec(*ccs, *keil, depth) == Ok::<(Seq<char>, Seq<char>), Seq<char>>(
                (c@, k@),
            ),
            Err(e) => locate_toolchains_spec(*ccs, *keil, depth) == Err::<(Seq<char>, Seq<char>), Seq<char>>(e@),
        },
{
    if depth > MAX_SEARCH_DEPTH {
        return Err(depth_error_message());
    }
    let c = locate_ccs_server(ccs, depth)?;
    let k = locate_uv4(keil, depth)?;
    Ok((c, k))
}

/// Checks that both tools can be found at the default depth of two levels.
pub fn validate_toolchains(ccs: &ToolProbe, keil: &ToolProbe) -> (r: Result<(), String>)
    ensures
        match r {
            Ok(()) => locate_toolchains_spec(*ccs, *keil, 2) is Ok,
            Err(e) => locate_toolchains_spec(*ccs, *keil, 2) == Err::<(Seq<char>, Seq<char>), Seq<char>>(e@),
        },
{
    locate_toolchains(ccs, keil, 2)?;
    Ok(())
}

// ---------------------------------------------------------------------------
// The level-by-level search
// ---------------------------------------------------------------------------

/// An entry of a directory listing.
pub struct DirEntryFacts {
    pub name: String,
    pub path: String,
    pub is_file: bool,
    pub is_dir: bool,
}

/// Scanning one directory's entries, in listing order: the first file named
/// `file` (without case), or else the subdirectories to search at the next
/// level (none when `descend` is false).
pub open spec fn tool_scan_spec(es: Seq<DirEntryFacts>, file: Seq<char>, descend: bool) -> Result<
    Seq<char>,
    Seq<Seq<char>>,
>
    decreases es.len(),
{
    if es.len() == 0 {
        Err(seq![])
    } else {
        match tool_scan_spec(es.drop_last(), file, descend) {
            Ok(p) => Ok(p),
            Err(ds) => {
                let e = es.last();
                if e.is_file && lower_seq(e.name@) == lower_seq(file) {
                    Ok(e.path@)
                } else if descend && e.is_dir {
                    Err(ds.push(e.path@))
                } else {
                    Err(ds)
                }
            },
        }
    }
}

proof fn lemma_scan_found(es: Seq<DirEntryFacts>, file: Seq<char>, descend: bool, i: int, p: Seq<char>)
    requires
        0 <= i <= es.len(),
        tool_scan_spec(es.take(i), file, descend) == Ok::<Seq<char>, Seq<Seq<char>>>(p),
    ensures
        tool_scan_spec(es, file, descend) == Ok::<Seq<char>, Seq<Seq<char>>>(p),
    decreases es.len(),
{
    if i == es.len() {
        assert(es.take(i) =~= es);
    } else {
        assert(es.drop_last().take(i) =~= es.take(i));
        lemma_scan_found(es.drop_last(), file, descend, i, p);
    }
}

/// Scans one directory's entries (see `tool_scan_spec`): `Ok` is the tool
/// found, `Err` the directories for the next level.
pub fn scan_tool_entries(entries: &Vec<DirEntryFacts>, file: &str, descend: bool) -> (r: Result<String, Vec<String>>)
    ensures
        match r {
            Ok(p) => tool_scan_spec(entries@, file@, descend) == Ok::<Seq<char>, Seq<Seq<char>>>(p@),
            Err(ds) => tool_scan_spec(entries@, file@, descend) == Err::<Seq<char>, Seq<Seq<char>>>(
                string_views(ds@),
            ),
        },
{
    let wanted = lower_chars(&chars_of(file));
    let mut dirs: Vec<String> = Vec::new();
    let mut i: usize = 0;
    assert(entries@.take(0) =~= seq![]);
    assert(string_views(dirs@) =~= seq![]);
    while i < entries.len()
        invariant
            i <= entries.len(),
            wanted@ == lower_seq(file@),
            tool_scan_spec(entries@.take(i as int), file@, descend) == Err::<Seq<char>, Seq<Seq<char>>>(
                string_views(dirs@),
            ),
        decreases entries.len() - i,
    {
        let e = &entries[i];
        assert(entries@.take(i + 1).drop_last() =~= entries@.take(i as int));
        assert(entries@.take(i + 1).last() == *e);
        if e.is_file && chars_equal(&lower_chars(&chars_of(e.name.as_str())), &wanted) {
            proof {
                lemma_scan_found(entries@, file@, descend, i + 1, e.path@);
            }
            return Ok(e.path.clone());
        }
        if descend && e.is_dir {
            let ghost before = string_views(dirs@);
            dirs.push(e.path.clone());
            assert(string_views(dirs@) =~= before.push(e.path@));
        }
        i += 1;
    }
    assert(entries@.take(entries.len() as int) =~= entries@);
    Err(dirs)
}

// ---------------------------------------------------------------------------
// Where tools are looked for when nothing is selected
// ---------------------------------------------------------------------------

/// The places tried for CCS, in order, with the depth searched below each:
/// the selection (when given) at the chosen depth, then `C:\ti` and `D:\ti`
/// four levels deep.
pub open spec fn ccs_search_roots_spec(selected: Seq<char>, depth: u8) -> Seq<(Seq<char>, u8)> {
    let fixed = seq![("C:\\ti"@, 4u8), ("D:\\ti"@, 4u8)];
    if selected.len() > 0 {
        seq![(selected, depth)] + fixed
    } else {
        fixed
    }
}

pub open spec fn roots_view(v: Seq<(String, u8)>) -> Seq<(Seq<char>, u8)> {
    v.map_values(|x: (String, u8)| (x.0@, x.1))
}

fn push_root(r: &mut Vec<(String, u8)>, path: String, depth: u8)
    ensures
        roots_view(final(r)@) == roots_view(old(r)@).push((path@, depth)),
{
    let ghost before = old(r)@;
    r.push((path, depth));
    assert(roots_view(r@) =~= roots_view(before).push((path@, depth)));
}

/// The places tried for CCS (see `ccs_search_roots_spec`); the first where
/// the server is located wins.
pub fn ccs_search_roots(selected: &str, depth: u8) -> (r: Vec<(String, u8)>)
    ensures
        roots_view(r@) == ccs_search_roots_spec(selected@, depth),
{
    let mut r: Vec<(String, u8)> = Vec::new();
    assert(roots_view(r@) =~= seq![]);
    if !selected.is_empty() {
        push_root(&mut r, string_of(&chars_of(selected)), depth);
    }
    assert(roots_view(r@) =~= if selected@.len() > 0 { seq![(selected@, depth)] } else { seq![] });
    push_root(&mut r, string_of(&chars_of("C:\\ti")), 4);
    push_root(&mut r, string_of(&chars_of("D:\\ti")), 4);
    assert(roots_view(r@) =~= ccs_search_roots_spec(selected@, depth));
    r
}

/// The places tried for Keil, in order, each searched to the chosen depth:
/// the selection (when given), the parent of the MDK path that the registry
/// records (when there is one), then `C:\Keil_v5` and `D:\Keil_v5`.
pub open spec fn keil_search_roots_spec(selected: Seq<char>, registry_parent: Option<Seq<char>>, depth: u8) -> Seq<
    (Seq<char>, u8),
> {
    let first = if selected.len() > 0 {
        seq![(selected, depth)]
    } else {
        seq![]
    };
    let second = match registry_parent {
        Some(p) => seq![(p, depth)],
        None => seq![],
    };
    first + second + seq![("C:\\Keil_v5"@, depth), ("D:\\Keil_v5"@, depth)]
}

/// The places tried for Keil (see `keil_search_roots_spec`), given the MDK
/// path read from the registry; the first where `UV4.exe` is located wins.
pub fn keil_search_roots(selected: &str, registry_path: Option<&str>, depth: u8) -> (r: Vec<(String, u8)>)
    ensures
        roots_view(r@) == keil_search_roots_spec(
            selected@,
            match registry_path {
                Some(p) => crate::winpath::path_parent_spec(p@),
                None => None,
            },
            depth,
        ),
{
    let mut r: Vec<(String, u8)> = Vec::new();
    assert(roots_view(r@) =~= seq![]);
    if !selected.is_empty() {
        push_root(&mut r, string_of(&chars_of(selected)), depth);
    }
    let ghost first = roots_view(r@);
    assert(first =~= if selected@.len() > 0 { seq![(selected@, depth)] } else { seq![] });
    let parent = match registry_path {
        Some(p) => crate::winpath::path_parent(&chars_of(p)),
        None => None,
    };
    match parent {
        Some(p) => push_root(&mut r, string_of(&p), depth),
        None => {},
    }
    push_root(&mut r, string_of(&chars_of("C:\\Keil_v5")), depth);
    push_root(&mut r, string_of(&chars_of("D:\\Keil_v5")), depth);
    assert(roots_view(r@) =~= keil_search_roots_spec(
        selected@,
        match registry_path {
            Some(p) => crate::winpath::path_parent_spec(p@),
            None => None,
        },
        depth,
    ));
    r
}

} // verus!
