//! What CCS (`.cproject`, `.projectspec`) and Keil (`.uvprojx`) project
//! documents say: defines, include paths, excluded sources and file lists.
use vstd::prelude::*;
use crate::model::ProjectFile;
use crate::project::{
    normalize_ccs_source_path, normalize_ccs_source_path_spec, source_group, source_group_spec,
    source_type, source_type_spec,
};
use crate::sorting::{dedup, is_sorted_dedup_of};
use crate::text::{
    append_chars, chars_equal, chars_of, contains_chars, map_char, map_char_seq, seq_contains,
    starts_with_chars, string_of, string_views, tokens, views, is_path_sep,
};
use crate::winpath::{path_join, path_join_spec};
use crate::xml::{
    attr_v, attribute, child_from, child_text, child_text_v, collect_attribute, collect_v, element_view,
    find_element, find_v, get_child, lemma_nodes_view, node_view, nodes_view, ElementV, NodeV, XmlElement,
    XmlNode,
};

verus! {

pub open spec fn file_view(f: ProjectFile) -> (Seq<char>, Seq<char>, Seq<char>) {
    (f.path@, f.group@, f.file_type@)
}

pub open spec fn files_view(fs: Seq<ProjectFile>) -> Seq<(Seq<char>, Seq<char>, Seq<char>)> {
    fs.map_values(|f: ProjectFile| file_view(f))
}

/// A path read from a project file, resolved against the directory `dir`:
/// rooted paths and paths with a drive stand as they are.
pub open spec fn resolve_spec(dir: Seq<char>, raw: Seq<char>) -> Seq<char> {
    if raw.len() == 0 {
        dir
    } else if is_path_sep(raw[0]) || (raw.len() >= 2 && raw[1] == ':') {
        raw
    } else {
        path_join_spec(dir, raw)
    }
}

pub fn resolve_path(dir: &Vec<char>, raw: &Vec<char>) -> (r: Vec<char>)
    ensures
        r@ == resolve_spec(dir@, raw@),
{
    if raw.len() == 0 {
        dir.clone()
    } else if raw[0] == '\\' || raw[0] == '/' || (raw.len() >= 2 && raw[1] == ':') {
        raw.clone()
    } else {
        path_join(dir, raw)
    }
}

// ---------------------------------------------------------------------------
// CCS build options
// ---------------------------------------------------------------------------

/// The values an `option` element contributes: to the defines when its
/// `superClass` mentions `DEFINE`, else to the include paths when it mentions
/// `INCLUDE_PATH`.
pub open spec fn option_values_v(e: ElementV) -> (Seq<Seq<char>>, Seq<Seq<char>>) {
    if e.name == "option"@ {
        let class = match attr_v(e, "superClass"@) {
            Some(c) => c,
            None => seq![],
        };
        let values = collect_v(e, "listOptionValue"@, "value"@);
        if seq_contains(class, "DEFINE"@) {
            (values, seq![])
        } else if seq_contains(class, "INCLUDE_PATH"@) {
            (seq![], values)
        } else {
            (seq![], seq![])
        }
    } else {
        (seq![], seq![])
    }
}

/// The define and include path values of every `option` element, in document order.
pub open spec fn ccs_options_v(e: ElementV) -> (Seq<Seq<char>>, Seq<Seq<char>>)
    decreases e, 0nat,
{
    let own = option_values_v(e);
    let rest = ccs_options_nodes_v(e.children, 0);
    (own.0 + rest.0, own.1 + rest.1)
}

pub open spec fn ccs_options_nodes_v(ns: Seq<NodeV>, i: int) -> (Seq<Seq<char>>, Seq<Seq<char>>)
    decreases ns, ns.len() - i,
{
    if i < 0 || i >= ns.len() {
        (seq![], seq![])
    } else {
        let here = match ns[i] {
            NodeV::Element(c) => ccs_options_v(c),
            _ => (seq![], seq![]),
        };
        let rest = ccs_options_nodes_v(ns, i + 1);
        (here.0 + rest.0, here.1 + rest.1)
    }
}

/// Appends the define and include path values that the `option` elements
/// of a `.cproject` hold.
pub fn collect_ccs_options(e: &XmlElement, defines: &mut Vec<String>, include_paths: &mut Vec<String>)
    ensures
        string_views(final(defines)@) == string_views(old(defines)@) + ccs_options_v(element_view(*e)).0,
        string_views(final(include_paths)@) == string_views(old(include_paths)@) + ccs_options_v(
            element_view(*e),
        ).1,
    decreases e, 0nat,
{
    let ghost d0 = string_views(defines@);
    let ghost i0 = string_views(include_paths@);
    let ghost own = option_values_v(element_view(*e));
    if chars_equal(&chars_of(e.name.as_str()), &chars_of("option")) {
        let class = match attribute(e, &chars_of("superClass")) {
            Some(c) => chars_of(c.as_str()),
            None => Vec::new(),
        };
        if contains_chars(&class, &chars_of("DEFINE")) {
            collect_attribute(e, &chars_of("listOptionValue"), &chars_of("value"), defines);
            assert(string_views(include_paths@) =~= i0 + own.1);
        } else if contains_chars(&class, &chars_of("INCLUDE_PATH")) {
            collect_attribute(e, &chars_of("listOptionValue"), &chars_of("value"), include_paths);
            assert(string_views(defines@) =~= d0 + own.0);
        } else {
            assert(string_views(defines@) =~= d0 + own.0);
            assert(string_views(include_paths@) =~= i0 + own.1);
        }
    } else {
        assert(string_views(defines@) =~= d0 + own.0);
        assert(string_views(include_paths@) =~= i0 + own.1);
    }
    let ghost d1 = string_views(defines@);
    let ghost i1 = string_views(include_paths@);
    collect_ccs_options_nodes(&e.children, defines, include_paths);
    assert(string_views(defines@) =~= d0 + ccs_options_v(element_view(*e)).0);
    assert(string_views(include_paths@) =~= i0 + ccs_options_v(element_view(*e)).1);
}

fn collect_ccs_options_nodes(ns: &Vec<XmlNode>, defines: &mut Vec<String>, include_paths: &mut Vec<String>)
    ensures
        string_views(final(defines)@) == string_views(old(defines)@) + ccs_options_nodes_v(nodes_view(ns@), 0).0,
        string_views(final(include_paths)@) == string_views(old(include_paths)@) + ccs_options_nodes_v(
            nodes_view(ns@),
            0,
        ).1,
    decreases ns, 1nat,
{
    let ghost nv = nodes_view(ns@);
    let ghost d0 = string_views(defines@);
    let ghost i0 = string_views(include_paths@);
    proof {
        lemma_nodes_view(ns@);
    }
    let mut i: usize = 0;
    while i < ns.len()
        invariant
            i <= ns.len(),
            nv == nodes_view(ns@),
            nv.len() == ns@.len(),
            forall|k: int| 0 <= k < ns@.len() ==> #[trigger] nv[k] == node_view(ns@[k]),
            d0 + ccs_options_nodes_v(nv, 0).0 == string_views(defines@) + ccs_options_nodes_v(nv, i as int).0,
            i0 + ccs_options_nodes_v(nv, 0).1 == string_views(include_paths@) + ccs_options_nodes_v(
                nv,
                i as int,
            ).1,
        decreases ns.len() - i,
    {
        assert(nv[i as int] == node_view(ns@[i as int]));
        let ghost dm = string_views(defines@);
        let ghost im = string_views(include_paths@);
        match &ns[i] {
            XmlNode::Element(c) => {
                collect_ccs_options(c, defines, include_paths);
            },
            _ => {},
        }
        i += 1;
        assert(dm + ccs_options_nodes_v(nv, i - 1).0 =~= string_views(defines@) + ccs_options_nodes_v(
            nv,
            i as int,
        ).0);
        assert(im + ccs_options_nodes_v(nv, i - 1).1 =~= string_views(include_paths@) + ccs_options_nodes_v(
            nv,
            i as int,
        ).1);
    }
    assert(string_views(defines@) + ccs_options_nodes_v(nv, i as int).0 =~= string_views(defines@));
    assert(string_views(include_paths@) + ccs_options_nodes_v(nv, i as int).1 =~= string_views(
        include_paths@,
    ));
}

// ---------------------------------------------------------------------------
// CCS source exclusions
// ---------------------------------------------------------------------------

pub open spec fn bar_sep() -> spec_fn(char) -> bool {
    |c: char| c == '|'
}

/// One excluded path of a source entry, relative to the entry's base.
pub open spec fn excluded_entry_path(base: Seq<char>, excluded: Seq<char>) -> Seq<char> {
    if base.len() == 0 || excluded == base || (base + seq!['/']).is_prefix_of(excluded) {
        excluded
    } else {
        base + seq!['/'] + excluded
    }
}

/// The excluded paths that the pieces of an `excluding` list give, from index `i`.
pub open spec fn exclusions_of_pieces(base: Seq<char>, pieces: Seq<Seq<char>>, i: int) -> Seq<Seq<char>>
    decreases pieces.len() - i,
{
    if i < 0 || i >= pieces.len() {
        seq![]
    } else {
        let ex = normalize_ccs_source_path_spec(pieces[i]);
        let rest = exclusions_of_pieces(base, pieces, i + 1);
        if ex.len() == 0 {
            rest
        } else {
            seq![excluded_entry_path(base, ex)] + rest
        }
    }
}

/// The excluded paths that a `sourceEntries` child element declares.
pub open spec fn entry_exclusions_v(entry: ElementV) -> Seq<Seq<char>> {
    let base = normalize_ccs_source_path_spec(
        match attr_v(entry, "name"@) {
            Some(n) => n,
            None => seq![],
        },
    );
    let list = match attr_v(entry, "excluding"@) {
        Some(x) => x,
        None => seq![],
    };
    exclusions_of_pieces(base, tokens(list, bar_sep()), 0)
}

pub open spec fn entries_exclusions_v(ns: Seq<NodeV>, i: int) -> Seq<Seq<char>>
    decreases ns.len() - i,
{
    if i < 0 || i >= ns.len() {
        seq![]
    } else {
        let here = match ns[i] {
            NodeV::Element(c) => entry_exclusions_v(c),
            _ => seq![],
        };
        here + entries_exclusions_v(ns, i + 1)
    }
}

/// Every excluded path of the first `sourceEntries` element, in order.
pub open spec fn ccs_exclusions_raw(cproject: ElementV) -> Seq<Seq<char>> {
    match find_v(cproject, "sourceEntries"@) {
        Some(se) => entries_exclusions_v(se.children, 0),
        None => seq![],
    }
}

fn split_bars(s: &Vec<char>) -> (r: Vec<Vec<char>>)
    ensures
        views(r@) == tokens(s@, bar_sep()),
{
    let ghost sep = bar_sep();
    let mut r: Vec<Vec<char>> = Vec::new();
    let mut i: usize = 0;
    assert(s@.skip(0) =~= s@);
    assert(views(r@) + tokens(s@, sep) =~= tokens(s@, sep));
    while i < s.len()
        invariant
            i <= s.len(),
            sep == bar_sep(),
            tokens(s@, sep) == views(r@) + tokens(s@.skip(i as int), sep),
        decreases s.len() - i,
    {
        let ghost rest = s@.skip(i as int);
        if s[i] == '|' {
            assert(rest.skip(1) =~= s@.skip(i + 1));
            i += 1;
        } else {
            let mut j = i;
            while j < s.len() && s[j] != '|'
                invariant
                    i <= j <= s.len(),
                    sep == bar_sep(),
                    forall|m: int| i <= m < j ==> !sep(s@[m]),
                decreases s.len() - j,
            {
                j += 1;
            }
            proof {
                crate::text::lemma_run_len(rest, sep, j - i);
                assert(rest.take(j - i) =~= s@.subrange(i as int, j as int));
                assert(rest.skip(j - i) =~= s@.skip(j as int));
            }
            let ghost old_r = r@;
            let word = crate::text::slice_chars(s, i, j);
            r.push(word);
            assert(views(r@) =~= views(old_r).push(word@));
            i = j;
        }
    }
    assert(s@.skip(i as int) =~= Seq::<char>::empty());
    assert(views(r@) + seq![] =~= views(r@));
    r
}

fn entry_exclusions(entry: &XmlElement, out: &mut Vec<String>)
    ensures
        string_views(final(out)@) == string_views(old(out)@) + entry_exclusions_v(element_view(*entry)),
{
    let name = match attribute(entry, &chars_of("name")) {
        Some(n) => chars_of(n.as_str()),
        None => Vec::new(),
    };
    let base = normalize_ccs_source_path(&name);
    let list = match attribute(entry, &chars_of("excluding")) {
        Some(x) => chars_of(x.as_str()),
        None => Vec::new(),
    };
    let pieces = split_bars(&list);
    let ghost pv = views(pieces@);
    let ghost o0 = string_views(out@);
    let mut base_slash = base.clone();
    base_slash.push('/');
    let mut i: usize = 0;
    while i < pieces.len()
        invariant
            i <= pieces.len(),
            pv == views(pieces@),
            pv == tokens(list@, bar_sep()),
            base_slash@ == base@ + seq!['/'],
            o0 + exclusions_of_pieces(base@, pv, 0) == string_views(out@) + exclusions_of_pieces(
                base@,
                pv,
                i as int,
            ),
        decreases pieces.len() - i,
    {
        let ex = normalize_ccs_source_path(&pieces[i]);
        let ghost om = string_views(out@);
        if ex.len() > 0 {
            let item = if base.len() == 0 || chars_equal(&ex, &base) || starts_with_chars(&ex, &base_slash) {
                ex
            } else {
                let mut joined = base_slash.clone();
                append_chars(&mut joined, &ex);
                joined
            };
            out.push(string_of(&item));
            assert(string_views(out@) =~= om.push(item@));
        }
        i += 1;
        assert(om + exclusions_of_pieces(base@, pv, i - 1) =~= string_views(out@) + exclusions_of_pieces(
            base@,
            pv,
            i as int,
        ));
    }
    assert(string_views(out@) + exclusions_of_pieces(base@, pv, i as int) =~= string_views(out@));
}

/// The source paths a `.cproject` excludes from the build: normalized,
/// relative to the project, sorted and each kept once.
pub fn ccs_source_exclusions(cproject: &XmlElement) -> (r: Vec<String>)
    ensures
        is_sorted_dedup_of(string_views(r@), ccs_exclusions_raw(element_view(*cproject))),
{
    let mut exclusions: Vec<String> = Vec::new();
    match find_element(cproject, &chars_of("sourceEntries")) {
        Some(se) => {
            let ns = &se.children;
            let ghost nv = nodes_view(ns@);
            proof {
                lemma_nodes_view(ns@);
            }
            let mut i: usize = 0;
            assert(string_views(exclusions@) =~= seq![]);
            while i < ns.len()
                invariant
                    i <= ns.len(),
                    nv == nodes_view(ns@),
                    nv.len() == ns@.len(),
                    forall|k: int| 0 <= k < ns@.len() ==> #[trigger] nv[k] == node_view(ns@[k]),
                    entries_exclusions_v(nv, 0) == string_views(exclusions@) + entries_exclusions_v(nv, i as int),
                decreases ns.len() - i,
            {
                assert(nv[i as int] == node_view(ns@[i as int]));
                let ghost em = string_views(exclusions@);
                match &ns[i] {
                    XmlNode::Element(c) => {
                        entry_exclusions(c, &mut exclusions);
                    },
                    _ => {},
                }
                i += 1;
                assert(em + entries_exclusions_v(nv, i - 1) =~= string_views(exclusions@) + entries_exclusions_v(
                    nv,
                    i as int,
                ));
            }
            assert(string_views(exclusions@) + entries_exclusions_v(nv, i as int) =~= string_views(exclusions@));
        },
        None => {
            assert(string_views(exclusions@) =~= seq![]);
        },
    }
    let ghost raw = string_views(exclusions@);
    dedup(&mut exclusions);
    exclusions
}

// ---------------------------------------------------------------------------
// File lists
// ---------------------------------------------------------------------------

/// The files a `.projectspec` `project` element lists, from child index `i`:
/// `file` elements with a `path` attribute whose kind is known.
pub open spec fn projectspec_files_v(ns: Seq<NodeV>, i: int, dir: Seq<char>) -> Seq<(Seq<char>, Seq<char>, Seq<char>)>
    decreases ns.len() - i,
{
    if i < 0 || i >= ns.len() {
        seq![]
    } else {
        let rest = projectspec_files_v(ns, i + 1, dir);
        match ns[i] {
            NodeV::Element(f) => if f.name == "file"@ {
                match attr_v(f, "path"@) {
                    Some(p) => match source_type_spec(resolve_spec(dir, p)) {
                        Some(k) => seq![(map_char_seq(p, '\\', '/'), source_group_spec(k), k)] + rest,
                        None => rest,
                    },
                    None => rest,
                }
            } else {
                rest
            },
            _ => rest,
        }
    }
}

/// Appends the files that a `.projectspec` project element lists; `dir` is
/// the directory of the `.projectspec` file.
pub fn collect_projectspec_files(project: &XmlElement, dir: &Vec<char>, files: &mut Vec<ProjectFile>)
    ensures
        files_view(final(files)@) == files_view(old(files)@) + projectspec_files_v(
            element_view(*project).children,
            0,
            dir@,
        ),
{
    let ns = &project.children;
    let ghost nv = nodes_view(ns@);
    let ghost f0 = files_view(files@);
    proof {
        lemma_nodes_view(ns@);
    }
    let mut i: usize = 0;
    while i < ns.len()
        invariant
            i <= ns.len(),
            nv == nodes_view(ns@),
            nv == element_view(*project).children,
            nv.len() == ns@.len(),
            forall|k: int| 0 <= k < ns@.len() ==> #[trigger] nv[k] == node_view(ns@[k]),
            f0 + projectspec_files_v(nv, 0, dir@) == files_view(files@) + projectspec_files_v(nv, i as int, dir@),
        decreases ns.len() - i,
    {
        assert(nv[i as int] == node_view(ns@[i as int]));
        let ghost fm = files_view(files@);
        match &ns[i] {
            XmlNode::Element(f) => {
                if chars_equal(&chars_of(f.name.as_str()), &chars_of("file")) {
                    match attribute(f, &chars_of("path")) {
                        Some(p) => {
                            let pc = chars_of(p.as_str());
                            match source_type(&resolve_path(dir, &pc)) {
                                Some(k) => {
                                    let item = ProjectFile {
                                        path: string_of(&map_char(&pc, '\\', '/')),
                                        group: string_of(&source_group(&k)),
                                        file_type: string_of(&k),
                                    };
                                    files.push(item);
                                    assert(files_view(files@) =~= fm.push(file_view(item)));
                                },
                                None => {},
                            }
                        },
                        None => {},
                    }
                }
            },
            _ => {},
        }
        i += 1;
        assert(fm + projectspec_files_v(nv, i - 1, dir@) =~= files_view(files@) + projectspec_files_v(
            nv,
            i as int,
            dir@,
        ));
    }
    assert(files_view(files@) + projectspec_files_v(nv, i as int, dir@) =~= files_view(files@));
}

/// A file that a Keil project's group lists: its group, the path as written,
/// the path resolved against the project's directory, and its kind.
#[derive(Debug)]
pub struct KeilFileRef {
    pub group: String,
    pub raw_path: String,
    pub resolved: String,
    pub file_type: String,
}

pub open spec fn keil_ref_view(r: KeilFileRef) -> (Seq<char>, Seq<char>, Seq<char>, Seq<char>) {
    (r.group@, r.raw_path@, r.resolved@, r.file_type@)
}

pub open spec fn keil_refs_view(rs: Seq<KeilFileRef>) -> Seq<(Seq<char>, Seq<char>, Seq<char>, Seq<char>)> {
    rs.map_values(|r: KeilFileRef| keil_ref_view(r))
}

/// The files of one group's `Files` list, from child index `i`.
pub open spec fn group_files_v(ns: Seq<NodeV>, i: int, group: Seq<char>, dir: Seq<char>) -> Seq<
    (Seq<char>, Seq<char>, Seq<char>, Seq<char>),
>
    decreases ns.len() - i,
{
    if i < 0 || i >= ns.len() {
        seq![]
    } else {
        let rest = group_files_v(ns, i + 1, group, dir);
        match ns[i] {
            NodeV::Element(f) => if f.name == "File"@ {
                match child_text_v(f, "FilePath"@) {
                    Some(raw) => match source_type_spec(resolve_spec(dir, raw)) {
                        Some(k) => seq![(group, raw, resolve_spec(dir, raw), k)] + rest,
                        None => rest,
                    },
                    None => rest,
                }
            } else {
                rest
            },
            _ => rest,
        }
    }
}

pub open spec fn group_name_v(g: ElementV) -> Seq<char> {
    match child_text_v(g, "GroupName"@) {
        Some(n) => n,
        None => "Source"@,
    }
}

/// The files of every `Group` element, in document order; a group's own
/// children are not searched for further groups.
pub open spec fn keil_groups_v(e: ElementV, dir: Seq<char>) -> Seq<(Seq<char>, Seq<char>, Seq<char>, Seq<char>)>
    decreases e, 0nat,
{
    if e.name == "Group"@ {
        match child_from(e.children, 0, "Files"@) {
            Some(list) => group_files_v(list.children, 0, group_name_v(e), dir),
            None => seq![],
        }
    } else {
        keil_groups_nodes_v(e.children, 0, dir)
    }
}

pub open spec fn keil_groups_nodes_v(ns: Seq<NodeV>, i: int, dir: Seq<char>) -> Seq<
    (Seq<char>, Seq<char>, Seq<char>, Seq<char>),
>
    decreases ns, ns.len() - i,
{
    if i < 0 || i >= ns.len() {
        seq![]
    } else {
        let here = match ns[i] {
            NodeV::Element(c) => keil_groups_v(c, dir),
            _ => seq![],
        };
        here + keil_groups_nodes_v(ns, i + 1, dir)
    }
}

fn group_files(list: &XmlElement, group: &Vec<char>, dir: &Vec<char>, out: &mut Vec<KeilFileRef>)
    ensures
        keil_refs_view(final(out)@) == keil_refs_view(old(out)@) + group_files_v(
            element_view(*list).children,
            0,
            group@,
            dir@,
        ),
{
    let ns = &list.children;
    let ghost nv = nodes_view(ns@);
    let ghost o0 = keil_refs_view(out@);
    proof {
        lemma_nodes_view(ns@);
    }
    let mut i: usize = 0;
    while i < ns.len()
        invariant
            i <= ns.len(),
            nv == nodes_view(ns@),
            nv == element_view(*list).children,
            nv.len() == ns@.len(),
            forall|k: int| 0 <= k < ns@.len() ==> #[trigger] nv[k] == node_view(ns@[k]),
            o0 + group_files_v(nv, 0, group@, dir@) == keil_refs_view(out@) + group_files_v(
                nv,
                i as int,
                group@,
                dir@,
            ),
        decreases ns.len() - i,
    {
        assert(nv[i as int] == node_view(ns@[i as int]));
        let ghost om = keil_refs_view(out@);
        match &ns[i] {
            XmlNode::Element(f) => {
                if chars_equal(&chars_of(f.name.as_str()), &chars_of("File")) {
                    match child_text(f, &chars_of("FilePath")) {
                        Some(raw) => {
                            let resolved = resolve_path(dir, &raw);
                            match source_type(&resolved) {
                                Some(k) => {
                                    let item = KeilFileRef {
                                        group: string_of(group),
                                        raw_path: string_of(&raw),
                                        resolved: string_of(&resolved),
                                        file_type: string_of(&k),
                                    };
                                    out.push(item);
                                    assert(keil_refs_view(out@) =~= om.push(keil_ref_view(item)));
                                },
                                None => {},
                            }
                        },
                        None => {},
                    }
                }
            },
            _ => {},
        }
        i += 1;
        assert(om + group_files_v(nv, i - 1, group@, dir@) =~= keil_refs_view(out@) + group_files_v(
            nv,
            i as int,
            group@,
            dir@,
        ));
    }
    assert(keil_refs_view(out@) + group_files_v(nv, i as int, group@, dir@) =~= keil_refs_view(out@));
}

/// Appends the files that the `Group` elements of a Keil project list; `dir`
/// is the directory of the `.uvprojx` file.
pub fn collect_keil_groups(e: &XmlElement, dir: &Vec<char>, out: &mut Vec<KeilFileRef>)
    ensures
        keil_refs_view(final(out)@) == keil_refs_view(old(out)@) + keil_groups_v(element_view(*e), dir@),
    decreases e, 0nat,
{
    if chars_equal(&chars_of(e.name.as_str()), &chars_of("Group")) {
        let group = match child_text(e, &chars_of("GroupName")) {
            Some(n) => n,
            None => chars_of("Source"),
        };
        match get_child(e, &chars_of("Files")) {
            Some(list) => {
                group_files(list, &group, dir, out);
            },
            None => {
                assert(keil_refs_view(out@) =~= keil_refs_view(old(out)@) + seq![]);
            },
        }
        return;
    }
    collect_keil_groups_nodes(&e.children, dir, out);
}

fn collect_keil_groups_nodes(ns: &Vec<XmlNode>, dir: &Vec<char>, out: &mut Vec<KeilFileRef>)
    ensures
        keil_refs_view(final(out)@) == keil_refs_view(old(out)@) + keil_groups_nodes_v(nodes_view(ns@), 0, dir@),
    decreases ns, 1nat,
{
    let ghost nv = nodes_view(ns@);
    let ghost o0 = keil_refs_view(out@);
    proof {
        lemma_nodes_view(ns@);
    }
    let mut i: usize = 0;
    while i < ns.len()
        invariant
            i <= ns.len(),
            nv == nodes_view(ns@),
            nv.len() == ns@.len(),
            forall|k: int| 0 <= k < ns@.len() ==> #[trigger] nv[k] == node_view(ns@[k]),
            o0 + keil_groups_nodes_v(nv, 0, dir@) == keil_refs_view(out@) + keil_groups_nodes_v(nv, i as int, dir@),
        decreases ns.len() - i,
    {
        assert(nv[i as int] == node_view(ns@[i as int]));
        let ghost om = keil_refs_view(out@);
        match &ns[i] {
            XmlNode::Element(c) => {
                collect_keil_groups(c, dir, out);
            },
            _ => {},
        }
        i += 1;
        assert(om + keil_groups_nodes_v(nv, i - 1, dir@) =~= keil_refs_view(out@) + keil_groups_nodes_v(
            nv,
            i as int,
            dir@,
        ));
    }
    assert(keil_refs_view(out@) + keil_groups_nodes_v(nv, i as int, dir@) =~= keil_refs_view(out@));
}

} // verus!
