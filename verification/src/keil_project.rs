//! Writing a Keil µVision project from the SDK's template: the target and
//! device settings, the pack, defines and include paths, and the file
//! groups of the converted sources.
use vstd::prelude::*;
use crate::convert::{copied_view, copied_views, CopiedFile};
use crate::model::{ProjectInspection, ResourceInfo};
use crate::project::{keil_file_type, keil_file_type_spec, normalized_project_name, normalized_project_name_spec};
use crate::sorting::{dedup, is_sorted_dedup_of};
use crate::text::{
    append_chars, chars_equal, chars_of, join_chars, join_seq, map_char, map_char_seq, string_of, string_views,
    views,
};
use crate::ccs_project::bytes_result;
use crate::xml_text::{emit_xml, emitted, parse_xml, xml_parse_spec};
use crate::winpath::{file_name_of, file_name_spec, path_join, path_join_spec, path_join_str, path_parent, path_parent_spec};
use crate::xml::{no_namespace_v, 
    edit_first, edit_first_v, edit_view, element_view, find_element, find_v, lemma_edit_finds, lemma_nodes_view,
    lemma_nodes_view_push, node_view, nodes_view, text_element, ElementV, EditV, NodeV, XmlEdit, XmlElement, XmlNode,
};

verus! {

// ---------------------------------------------------------------------------
// Element edits
// ---------------------------------------------------------------------------

/// The first element named `name` given the text `value`; a template
/// without such an element is refused.
pub open spec fn set_text_v(e: ElementV, name: Seq<char>, value: Seq<char>) -> Result<ElementV, Seq<char>> {
    let r = edit_first_v(e, name, EditV::SetText(value));
    if r.1 {
        Ok(r.0)
    } else {
        Err("模板缺少 "@ + name)
    }
}

pub open spec fn then_set(r: Result<ElementV, Seq<char>>, name: Seq<char>, value: Seq<char>) -> Result<ElementV, Seq<char>> {
    match r {
        Err(e) => Err(e),
        Ok(x) => set_text_v(x, name, value),
    }
}

/// Like `then_set`, for an element the template may lack.
pub open spec fn then_try_set(r: Result<ElementV, Seq<char>>, name: Seq<char>, value: Seq<char>) -> Result<ElementV, Seq<char>> {
    match r {
        Err(e) => Err(e),
        Ok(x) => Ok(edit_first_v(x, name, EditV::SetText(value)).0),
    }
}

pub open spec fn result_view(r: Result<XmlElement, String>) -> Result<ElementV, Seq<char>> {
    match r {
        Ok(x) => Ok(element_view(x)),
        Err(e) => Err(e@),
    }
}

/// Gives the first element named `name` the text `value`.
pub fn set_element_text(xml: XmlElement, name: &str, value: &Vec<char>) -> (r: Result<XmlElement, String>)
    ensures
        result_view(r) == set_text_v(element_view(xml), name@, value@),
{
    let (x, found) = edit_first(xml, &chars_of(name), &XmlEdit::SetText(string_of(value)));
    if found {
        Ok(x)
    } else {
        let mut m = chars_of("模板缺少 ");
        append_chars(&mut m, &chars_of(name));
        Err(string_of(&m))
    }
}

/// Gives the first element named `name` the text `value`, if there is one.
pub fn try_set_element_text(xml: XmlElement, name: &str, value: &Vec<char>) -> (r: XmlElement)
    ensures
        element_view(r) == edit_first_v(element_view(xml), name@, EditV::SetText(value@)).0,
{
    edit_first(xml, &chars_of(name), &XmlEdit::SetText(string_of(value))).0
}

pub open spec fn text_elem_v(name: Seq<char>, value: Seq<char>) -> ElementV {
    ElementV { name, attributes: seq![], children: seq![NodeV::Text(value)], namespace: no_namespace_v() }
}

/// The pack that the project uses: the `PackID` element's text, or a new
/// `PackID` element right after `TargetCommonOption`'s `Vendor` (first when
/// there is no `Vendor`).
pub open spec fn set_pack_id_v(e: ElementV, pack_id: Seq<char>) -> Result<ElementV, Seq<char>> {
    if find_v(e, "PackID"@) is Some {
        Ok(edit_first_v(e, "PackID"@, EditV::SetText(pack_id)).0)
    } else {
        let r = edit_first_v(
            e,
            "TargetCommonOption"@,
            EditV::InsertChildAfter("Vendor"@, NodeV::Element(text_elem_v("PackID"@, pack_id))),
        );
        if r.1 {
            Ok(r.0)
        } else {
            Err("Keil 模板缺少 TargetCommonOption"@)
        }
    }
}

pub fn set_pack_id(xml: XmlElement, pack_id: &Vec<char>) -> (r: Result<XmlElement, String>)
    ensures
        result_view(r) == set_pack_id_v(element_view(xml), pack_id@),
{
    let has = find_element(&xml, &chars_of("PackID")).is_some();
    if has {
        return Ok(edit_first(xml, &chars_of("PackID"), &XmlEdit::SetText(string_of(pack_id))).0);
    }
    let node = XmlNode::Element(text_element("PackID", pack_id));
    let (x, found) = edit_first(
        xml,
        &chars_of("TargetCommonOption"),
        &XmlEdit::InsertChildAfter(string_of(&chars_of("Vendor")), node),
    );
    if found {
        Ok(x)
    } else {
        Err(string_of(&chars_of("Keil 模板缺少 TargetCommonOption")))
    }
}

// ---------------------------------------------------------------------------
// Defines and include paths
// ---------------------------------------------------------------------------

/// The device's own define, `__{device}__`.
pub open spec fn device_define(device: Seq<char>) -> Seq<char> {
    "__"@ + device + "__"@
}

/// The directory of a copied file, with `/`.
pub open spec fn copied_dir(relative: Seq<char>) -> Option<Seq<char>> {
    match path_parent_spec(relative) {
        Some(p) => Some(map_char_seq(p, '\\', '/')),
        None => None,
    }
}

/// The directories of the copied files, in order.
pub open spec fn copied_dirs(cs: Seq<(Seq<char>, Seq<char>, Seq<char>)>) -> Seq<Seq<char>>
    decreases cs.len(),
{
    if cs.len() == 0 {
        seq![]
    } else {
        let rest = copied_dirs(cs.drop_last());
        match copied_dir(cs.last().0) {
            Some(d) => rest.push(d),
            None => rest,
        }
    }
}

/// The include paths of the Keil project before sorting: the project
/// directory, `src`, each copied file's directory, and the SDK's `source`
/// and CMSIS include directories (with `\`).
pub open spec fn keil_include_list(cs: Seq<(Seq<char>, Seq<char>, Seq<char>)>, sdk: Seq<char>) -> Seq<Seq<char>> {
    seq!["."@, "src"@] + copied_dirs(cs) + seq![
        map_char_seq(path_join_spec(sdk, "source"@), '/', '\\'),
        map_char_seq(path_join_spec(sdk, "source/third_party/CMSIS/Core/Include"@), '/', '\\'),
    ]
}

fn push_view(v: &mut Vec<String>, x: &Vec<char>)
    ensures
        string_views(final(v)@) == string_views(old(v)@).push(x@),
{
    let ghost before = old(v)@;
    v.push(string_of(x));
    assert(string_views(v@) =~= string_views(before).push(x@));
}

/// The directories of the copied files.
pub fn copied_directories(copied: &Vec<CopiedFile>) -> (r: Vec<String>)
    ensures
        string_views(r@) == copied_dirs(copied_views(copied@)),
{
    let ghost cv = copied_views(copied@);
    let mut r: Vec<String> = Vec::new();
    let mut i: usize = 0;
    assert(string_views(r@) =~= seq![]);
    while i < copied.len()
        invariant
            i <= copied.len(),
            cv == copied_views(copied@),
            string_views(r@) == copied_dirs(cv.take(i as int)),
        decreases copied.len() - i,
    {
        assert(cv.take(i + 1).drop_last() =~= cv.take(i as int));
        assert(cv.take(i + 1).last() == copied_view(copied@[i as int]));
        match path_parent(&chars_of(copied[i].relative.as_str())) {
            Some(p) => push_view(&mut r, &map_char(&p, '\\', '/')),
            None => {},
        }
        i += 1;
    }
    assert(cv.take(copied.len() as int) =~= cv);
    r
}

/// The Keil project's include paths: sorted, each once.
pub fn keil_include_paths(copied: &Vec<CopiedFile>, sdk: &str) -> (r: Vec<String>)
    ensures
        is_sorted_dedup_of(string_views(r@), keil_include_list(copied_views(copied@), sdk@)),
{
    let mut r: Vec<String> = Vec::new();
    assert(string_views(r@) =~= seq![]);
    push_view(&mut r, &chars_of("."));
    push_view(&mut r, &chars_of("src"));
    let ghost head = string_views(r@);
    let mut dirs = copied_directories(copied);
    let ghost dv = string_views(dirs@);
    r.append(&mut dirs);
    assert(string_views(r@) =~= head + dv);
    let s = chars_of(sdk);
    push_view(&mut r, &map_char(&path_join_str(&s, "source"), '/', '\\'));
    push_view(&mut r, &map_char(&path_join_str(&s, "source/third_party/CMSIS/Core/Include"), '/', '\\'));
    assert(string_views(r@) =~= keil_include_list(copied_views(copied@), sdk@));
    dedup(&mut r);
    r
}

/// The Keil project's defines: the project's and the device's own, sorted,
/// each once.
pub fn keil_defines(defines: &Vec<String>, device: &str) -> (r: Vec<String>)
    ensures
        is_sorted_dedup_of(string_views(r@), string_views(defines@).push(device_define(device@))),
{
    let mut r = defines.clone();
    assert(r@ == defines@);
    let mut d = chars_of("__");
    append_chars(&mut d, &chars_of(device));
    append_chars(&mut d, &chars_of("__"));
    push_view(&mut r, &d);
    dedup(&mut r);
    r
}

fn joined(values: &Vec<String>, sep: &str) -> (r: Vec<char>)
    ensures
        r@ == join_seq(string_views(values@), sep@),
{
    let mut parts: Vec<Vec<char>> = Vec::new();
    let mut i: usize = 0;
    while i < values.len()
        invariant
            i <= values.len(),
            views(parts@) == string_views(values@).take(i as int),
        decreases values.len() - i,
    {
        let ghost before = parts@;
        parts.push(chars_of(values[i].as_str()));
        assert(views(parts@) =~= views(before).push(values@[i as int]@));
        assert(string_views(values@).take(i + 1) =~= string_views(values@).take(i as int).push(values@[i as int]@));
        i += 1;
    }
    assert(string_views(values@).take(values.len() as int) =~= string_views(values@));
    join_chars(&parts, &chars_of(sep))
}

/// The pack identifier Keil records: `TexasInstruments.{name}.{version}`.
pub open spec fn pack_id_spec(name: Seq<char>, version: Seq<char>) -> Seq<char> {
    "TexasInstruments."@ + name + "."@ + version
}

/// The template's target settings for the converted project, before the
/// startup file and scatter file are chosen: the target, output and layout
/// names, the device, the pack, the defines and the include paths, each
/// joined with `;`.
pub open spec fn keil_head_spec(
    t: ElementV,
    name: Seq<char>,
    device: Seq<char>,
    pack_id: Seq<char>,
    defines: Seq<char>,
    includes: Seq<char>,
) -> Result<ElementV, Seq<char>> {
    let a = then_try_set(then_set(then_set(Ok(t), "TargetName"@, name), "OutputName"@, name), "LayName"@, name);
    let b = match then_set(a, "Device"@, device) {
        Err(e) => Err(e),
        Ok(x) => set_pack_id_v(x, pack_id),
    };
    then_set(then_set(b, "Define"@, defines), "IncludePath"@, includes)
}

/// Reads the Keil template from its text and fills in its target settings
/// for the converted project (see `keil_head_spec`); the project name is the
/// inspection's, normalized with the suffix `keil`.
pub fn keil_project_head(
    template_text: &str,
    inspection: &ProjectInspection,
    resources: &ResourceInfo,
    sdk: &str,
    copied: &Vec<CopiedFile>,
) -> (r: Result<XmlElement, String>)
    ensures
        match xml_parse_spec(template_text@) {
            Err(m) => r matches Err(e) && e@ == "Keil 模板无法解析："@ + m,
            Ok(t) => exists|ds: Seq<Seq<char>>, is: Seq<Seq<char>>|
                is_sorted_dedup_of(ds, string_views(inspection.defines@).push(device_define(inspection.device@)))
                    && is_sorted_dedup_of(is, keil_include_list(copied_views(copied@), sdk@)) && result_view(r)
                    == keil_head_spec(
                    t,
                    normalized_project_name_spec(inspection.name@, "keil"@),
                    inspection.device@,
                    pack_id_spec(resources.pack_name@, resources.pack_version@),
                    join_seq(ds, ";"@),
                    join_seq(is, ";"@),
                ),
        },
{
    match parse_xml(template_text) {
        Ok(t) => keil_head_of(t, inspection, resources, sdk, copied),
        Err(m) => {
            let mut e = chars_of("Keil 模板无法解析：");
            append_chars(&mut e, &chars_of(m.as_str()));
            Err(string_of(&e))
        },
    }
}

/// Fills in the Keil template's target settings for the converted project
/// (see `keil_head_spec`); the project name is the inspection's, normalized
/// with the suffix `keil`.
fn keil_head_of(
    template: XmlElement,
    inspection: &ProjectInspection,
    resources: &ResourceInfo,
    sdk: &str,
    copied: &Vec<CopiedFile>,
) -> (r: Result<XmlElement, String>)
    ensures
        exists|ds: Seq<Seq<char>>, is: Seq<Seq<char>>|
            is_sorted_dedup_of(ds, string_views(inspection.defines@).push(device_define(inspection.device@)))
                && is_sorted_dedup_of(is, keil_include_list(copied_views(copied@), sdk@)) && result_view(r)
                == keil_head_spec(
                element_view(template),
                normalized_project_name_spec(inspection.name@, "keil"@),
                inspection.device@,
                pack_id_spec(resources.pack_name@, resources.pack_version@),
                join_seq(ds, ";"@),
                join_seq(is, ";"@),
            ),
{
    let name = normalized_project_name(&chars_of(inspection.name.as_str()), &chars_of("keil"));
    let device = chars_of(inspection.device.as_str());
    let mut pack_id = chars_of("TexasInstruments.");
    append_chars(&mut pack_id, &chars_of(resources.pack_name.as_str()));
    append_chars(&mut pack_id, &chars_of("."));
    append_chars(&mut pack_id, &chars_of(resources.pack_version.as_str()));
    let defines = keil_defines(&inspection.defines, inspection.device.as_str());
    let includes = keil_include_paths(copied, sdk);
    let dtext = joined(&defines, ";");
    let itext = joined(&includes, ";");
    let r = head_edits(template, &name, &device, &pack_id, &dtext, &itext);
    assert(is_sorted_dedup_of(
        string_views(defines@),
        string_views(inspection.defines@).push(device_define(inspection.device@)),
    ));
    assert(is_sorted_dedup_of(string_views(includes@), keil_include_list(copied_views(copied@), sdk@)));
    assert(name@ == normalized_project_name_spec(inspection.name@, "keil"@));
    assert(pack_id@ == pack_id_spec(resources.pack_name@, resources.pack_version@));
    assert(result_view(r) == keil_head_spec(
        element_view(template),
        normalized_project_name_spec(inspection.name@, "keil"@),
        inspection.device@,
        pack_id_spec(resources.pack_name@, resources.pack_version@),
        join_seq(string_views(defines@), ";"@),
        join_seq(string_views(includes@), ";"@),
    ));
    r
}

fn head_edits(
    template: XmlElement,
    name: &Vec<char>,
    device: &Vec<char>,
    pack_id: &Vec<char>,
    dtext: &Vec<char>,
    itext: &Vec<char>,
) -> (r: Result<XmlElement, String>)
    ensures
        result_view(r) == keil_head_spec(element_view(template), name@, device@, pack_id@, dtext@, itext@),
{
    let x = set_element_text(template, "TargetName", name)?;
    let x = set_element_text(x, "OutputName", name)?;
    let x = try_set_element_text(x, "LayName", name);
    let x = set_element_text(x, "Device", device)?;
    let x = set_pack_id(x, pack_id)?;
    let x = set_element_text(x, "Define", dtext)?;
    let x = set_element_text(x, "IncludePath", itext)?;
    Ok(x)
}

// ---------------------------------------------------------------------------
// File groups
// ---------------------------------------------------------------------------

pub open spec fn keil_file_v(name: Seq<char>, path: Seq<char>, file_type: Seq<char>) -> ElementV {
    ElementV {
        name: "File"@,
        attributes: seq![],
        children: seq![
            NodeV::Element(text_elem_v("FileName"@, name)),
            NodeV::Element(text_elem_v("FileType"@, file_type)),
            NodeV::Element(text_elem_v("FilePath"@, map_char_seq(path, '/', '\\'))),
        ],
        namespace: no_namespace_v(),
    }
}

/// A `File` entry: its name, Keil's type code and its path (with `\`).
pub fn keil_file_element(name: &Vec<char>, path: &Vec<char>, file_type: &Vec<char>) -> (r: XmlElement)
    ensures
        element_view(r) == keil_file_v(name@, path@, file_type@),
{
    let mut children: Vec<XmlNode> = Vec::new();
    let a = XmlNode::Element(text_element("FileName", name));
    let b = XmlNode::Element(text_element("FileType", file_type));
    let c = XmlNode::Element(text_element("FilePath", &map_char(path, '/', '\\')));
    proof {
        lemma_nodes_view_push(children@, a);
    }
    children.push(a);
    proof {
        lemma_nodes_view_push(children@, b);
    }
    children.push(b);
    proof {
        lemma_nodes_view_push(children@, c);
    }
    children.push(c);
    let r = XmlElement { name: string_of(&chars_of("File")), attributes: Vec::new(), children, namespace: crate::xml::no_namespace() };
    assert(crate::xml::attrs_view(r.attributes@) =~= seq![]);
    assert(nodes_view(r.children@) =~= keil_file_v(name@, path@, file_type@).children);
    r
}

/// The `File` entry of a copied file: named by its file name (or its whole
/// path when it has none).
pub open spec fn copied_file_v(c: (Seq<char>, Seq<char>, Seq<char>)) -> ElementV {
    keil_file_v(
        match file_name_spec(c.0) {
            Some(n) => n,
            None => c.0,
        },
        c.0,
        keil_file_type_spec(c.0, c.2),
    )
}

/// The entries of the copied files in group `g`, in order.
pub open spec fn group_files_v(cs: Seq<(Seq<char>, Seq<char>, Seq<char>)>, g: Seq<char>) -> Seq<NodeV>
    decreases cs.len(),
{
    if cs.len() == 0 {
        seq![]
    } else {
        let rest = group_files_v(cs.drop_last(), g);
        if cs.last().1 == g {
            rest.push(NodeV::Element(copied_file_v(cs.last())))
        } else {
            rest
        }
    }
}

/// A group: its name and its files; the `Device` group also holds the
/// startup file (type `2`).
pub open spec fn keil_group_v(g: Seq<char>, cs: Seq<(Seq<char>, Seq<char>, Seq<char>)>, startup: Seq<char>) -> ElementV {
    let device = if g == "Device"@ {
        seq![NodeV::Element(keil_file_v(startup, startup, "2"@))]
    } else {
        seq![]
    };
    ElementV {
        name: "Group"@,
        attributes: seq![],
        children: seq![
            NodeV::Element(text_elem_v("GroupName"@, g)),
            NodeV::Element(ElementV {
                name: "Files"@,
                attributes: seq![],
                children: group_files_v(cs, g) + device,
                namespace: no_namespace_v(),
            }),
        ],
        namespace: no_namespace_v(),
    }
}

pub open spec fn keil_group_nodes_v(names: Seq<Seq<char>>, cs: Seq<(Seq<char>, Seq<char>, Seq<char>)>, startup: Seq<char>) -> Seq<
    NodeV,
> {
    names.map_values(|g: Seq<char>| NodeV::Element(keil_group_v(g, cs, startup)))
}

pub open spec fn copied_groups(cs: Seq<(Seq<char>, Seq<char>, Seq<char>)>) -> Seq<Seq<char>> {
    cs.map_values(|c: (Seq<char>, Seq<char>, Seq<char>)| c.1)
}

fn group_files(copied: &Vec<CopiedFile>, g: &Vec<char>) -> (r: Vec<XmlNode>)
    ensures
        nodes_view(r@) == group_files_v(copied_views(copied@), g@),
{
    let ghost cv = copied_views(copied@);
    let mut r: Vec<XmlNode> = Vec::new();
    let mut i: usize = 0;
    while i < copied.len()
        invariant
            i <= copied.len(),
            cv == copied_views(copied@),
            nodes_view(r@) == group_files_v(cv.take(i as int), g@),
        decreases copied.len() - i,
    {
        let c = &copied[i];
        assert(cv.take(i + 1).drop_last() =~= cv.take(i as int));
        assert(cv.take(i + 1).last() == copied_view(*c));
        if chars_equal(&chars_of(c.group.as_str()), g) {
            let rel = chars_of(c.relative.as_str());
            let name = match file_name_of(&rel) {
                Some(n) => n,
                None => rel.clone(),
            };
            let e = keil_file_element(&name, &rel, &keil_file_type(&rel, &chars_of(c.file_type.as_str())));
            let n = XmlNode::Element(e);
            proof {
                lemma_nodes_view_push(r@, n);
            }
            r.push(n);
        }
        i += 1;
    }
    assert(cv.take(copied.len() as int) =~= cv);
    r
}

fn keil_group(g: &Vec<char>, copied: &Vec<CopiedFile>, startup: &Vec<char>) -> (r: XmlElement)
    ensures
        element_view(r) == keil_group_v(g@, copied_views(copied@), startup@),
{
    let mut files = group_files(copied, g);
    let ghost fv = nodes_view(files@);
    let is_device = chars_equal(g, &chars_of("Device"));
    if is_device {
        let n = XmlNode::Element(keil_file_element(startup, startup, &chars_of("2")));
        proof {
            lemma_nodes_view_push(files@, n);
        }
        files.push(n);
    }
    let list = XmlElement { name: string_of(&chars_of("Files")), attributes: Vec::new(), children: files, namespace: crate::xml::no_namespace() };
    assert(crate::xml::attrs_view(list.attributes@) =~= seq![]);
    assert(element_view(list).children =~= group_files_v(copied_views(copied@), g@) + (if g@ == "Device"@ {
        seq![NodeV::Element(keil_file_v(startup@, startup@, "2"@))]
    } else {
        seq![]
    }));
    let mut children: Vec<XmlNode> = Vec::new();
    let a = XmlNode::Element(text_element("GroupName", g));
    let b = XmlNode::Element(list);
    proof {
        lemma_nodes_view_push(children@, a);
    }
    children.push(a);
    proof {
        lemma_nodes_view_push(children@, b);
    }
    children.push(b);
    let r = XmlElement { name: string_of(&chars_of("Group")), attributes: Vec::new(), children, namespace: crate::xml::no_namespace() };
    assert(crate::xml::attrs_view(r.attributes@) =~= seq![]);
    assert(nodes_view(r.children@) =~= keil_group_v(g@, copied_views(copied@), startup@).children);
    r
}

/// The project's groups: one per group name of the copied files and one
/// named `Device`, in name order, each once.
pub fn keil_group_names(copied: &Vec<CopiedFile>) -> (r: Vec<String>)
    ensures
        is_sorted_dedup_of(string_views(r@), copied_groups(copied_views(copied@)).push("Device"@)),
{
    let ghost cv = copied_views(copied@);
    let mut r: Vec<String> = Vec::new();
    let mut i: usize = 0;
    while i < copied.len()
        invariant
            i <= copied.len(),
            cv == copied_views(copied@),
            string_views(r@) == copied_groups(cv).take(i as int),
        decreases copied.len() - i,
    {
        push_view(&mut r, &chars_of(copied[i].group.as_str()));
        assert(copied_groups(cv).take(i + 1) =~= copied_groups(cv).take(i as int).push(copied@[i as int].group@));
        i += 1;
    }
    assert(copied_groups(cv).take(copied.len() as int) =~= copied_groups(cv));
    push_view(&mut r, &chars_of("Device"));
    dedup(&mut r);
    r
}

/// The groups of the new project: the `Groups` element's children replaced
/// by one `Group` per name of `names` (see `keil_group_v`).
pub open spec fn replace_groups_v(e: ElementV, names: Seq<Seq<char>>, cs: Seq<(Seq<char>, Seq<char>, Seq<char>)>, startup: Seq<char>) -> Result<
    ElementV,
    Seq<char>,
> {
    let r = edit_first_v(e, "Groups"@, EditV::ReplaceChildren(keil_group_nodes_v(names, cs, startup)));
    if r.1 {
        Ok(r.0)
    } else {
        Err("Keil 模板缺少 Groups"@)
    }
}

pub fn replace_keil_groups(xml: XmlElement, copied: &Vec<CopiedFile>, startup: &Vec<char>) -> (r: Result<XmlElement, String>)
    ensures
        exists|names: Seq<Seq<char>>|
            is_sorted_dedup_of(names, copied_groups(copied_views(copied@)).push("Device"@)) && result_view(r)
                == replace_groups_v(element_view(xml), names, copied_views(copied@), startup@),
{
    let names = keil_group_names(copied);
    replace_groups_with(xml, copied, startup, &names)
}

// ---------------------------------------------------------------------------
// The finished project
// ---------------------------------------------------------------------------

/// A path as Keil writes it: `\` separators, and no `\\?\` prefix (a
/// `\\?\UNC\` prefix becomes `\\`).
pub open spec fn keil_windows_path_spec(p: Seq<char>) -> Seq<char> {
    let v = map_char_seq(p, '/', '\\');
    if "\\\\?\\UNC\\"@.is_prefix_of(v) {
        "\\\\"@ + v.skip(8)
    } else if "\\\\?\\"@.is_prefix_of(v) {
        v.skip(4)
    } else {
        v
    }
}

pub fn keil_windows_path(path: &str) -> (r: String)
    ensures
        r@ == keil_windows_path_spec(path@),
{
    let v = map_char(&chars_of(path), '/', '\\');
    let unc = chars_of("\\\\?\\UNC\\");
    let verbatim = chars_of("\\\\?\\");
    proof {
        reveal_strlit("\\\\?\\UNC\\");
        reveal_strlit("\\\\?\\");
    }
    if crate::text::starts_with_chars(&v, &unc) {
        let mut r = chars_of("\\\\");
        let tail = crate::text::slice_chars(&v, 8, v.len());
        assert(tail@ =~= v@.skip(8));
        append_chars(&mut r, &tail);
        return string_of(&r);
    }
    if crate::text::starts_with_chars(&v, &verbatim) {
        let r = crate::text::slice_chars(&v, 4, v.len());
        assert(r@ =~= v@.skip(4));
        return string_of(&r);
    }
    string_of(&v)
}

/// Keil paths use backslashes only.
pub proof fn law_keil_path_backslashes(p: Seq<char>)
    ensures
        forall|i: int| 0 <= i < keil_windows_path_spec(p).len() ==> keil_windows_path_spec(p)[i] != '/',
{
    let v = map_char_seq(p, '/', '\\');
    reveal_strlit("\\\\");
    reveal_strlit("\\\\?\\");
    reveal_strlit("\\\\?\\UNC\\");
    assert forall|i: int| 0 <= i < v.len() implies v[i] != '/' by {}
    let r = keil_windows_path_spec(p);
    if "\\\\?\\UNC\\"@.is_prefix_of(v) {
        assert forall|i: int| 0 <= i < r.len() implies r[i] != '/' by {
            if i >= 2 {
                assert(r[i] == v[i - 2 + 8]);
            }
        }
    } else if "\\\\?\\"@.is_prefix_of(v) {
        assert forall|i: int| 0 <= i < r.len() implies r[i] != '/' by {
            assert(r[i] == v[i + 4]);
        }
    }
}

/// A canonical Windows path, `\\?\` before a drive, is written without
/// that prefix.
pub proof fn law_keil_path_strips_verbatim_drive(q: Seq<char>)
    requires
        q.len() >= 2,
        q[1] == ':',
    ensures
        keil_windows_path_spec("\\\\?\\"@ + q) == map_char_seq(q, '/', '\\'),
{
    reveal_strlit("\\\\?\\");
    reveal_strlit("\\\\?\\UNC\\");
    let p = "\\\\?\\"@ + q;
    let v = map_char_seq(p, '/', '\\');
    assert(v[5] == ':');
    assert(!"\\\\?\\UNC\\"@.is_prefix_of(v)) by {
        if "\\\\?\\UNC\\"@.is_prefix_of(v) {
            assert("\\\\?\\UNC\\"@[5] == v[5]);
        }
    }
    assert("\\\\?\\"@.is_prefix_of(v)) by {
        assert forall|i: int| 0 <= i < 4 implies "\\\\?\\"@[i] == v[i] by {
            assert(v[i] == p[i]);
        }
    }
    assert(v.skip(4) =~= map_char_seq(q, '/', '\\'));
}

/// The precompiled library a Keil template names in `Misc`, resolved
/// against the template's directory.
pub open spec fn keil_library_path_spec(template_dir: Seq<char>, misc: Seq<char>) -> Seq<char> {
    path_join_spec(template_dir, map_char_seq(misc, '\\', '/'))
}

pub fn keil_library_path(template_dir: &str, misc: &str) -> (r: String)
    ensures
        r@ == keil_library_path_spec(template_dir@, misc@),
{
    string_of(&path_join(&chars_of(template_dir), &map_char(&chars_of(misc), '\\', '/')))
}

pub open spec fn has_syscfg_copied(cs: Seq<(Seq<char>, Seq<char>, Seq<char>)>) -> bool {
    exists|i: int| 0 <= i < cs.len() && (#[trigger] cs[i]).2 == "syscfg"@
}

pub open spec fn keil_syscfg_warning() -> Seq<char> {
    "已保留 SysConfig 及生成文件，但关闭了 SDK 模板中绑定本机路径的预编译脚本；修改 .syscfg 后需在本机重新生成"@
}

/// The rest of the Keil project once the template's startup file and
/// scatter file are copied: the scatter file setting, the precompiled
/// library (`library`: its resolved path, given when the template has
/// `Misc`), the groups, and for a project with SysConfig the template's
/// pre-build step switched off.
pub open spec fn keil_tail_spec(
    e: ElementV,
    names: Seq<Seq<char>>,
    cs: Seq<(Seq<char>, Seq<char>, Seq<char>)>,
    startup: Seq<char>,
    scatter: Seq<char>,
    library: Option<Seq<char>>,
) -> Result<ElementV, Seq<char>> {
    let a = then_set(Ok(e), "ScatterFile"@, "./"@ + scatter);
    let b = match library {
        Some(l) => then_set(a, "Misc"@, "\""@ + keil_windows_path_spec(l) + "\""@),
        None => a,
    };
    let c = match b {
        Err(x) => Err(x),
        Ok(x) => replace_groups_v(x, names, cs, startup),
    };
    if has_syscfg_copied(cs) {
        then_try_set(c, "RunUserProg1"@, "0"@)
    } else {
        c
    }
}

fn any_syscfg(copied: &Vec<CopiedFile>) -> (r: bool)
    ensures
        r == has_syscfg_copied(copied_views(copied@)),
{
    let ghost cv = copied_views(copied@);
    let mut i: usize = 0;
    while i < copied.len()
        invariant
            i <= copied.len(),
            cv == copied_views(copied@),
            forall|k: int| 0 <= k < i ==> (#[trigger] cv[k]).2 != "syscfg"@,
        decreases copied.len() - i,
    {
        if chars_equal(&chars_of(copied[i].file_type.as_str()), &chars_of("syscfg")) {
            assert(cv[i as int].2 == "syscfg"@);
            return true;
        }
        i += 1;
    }
    false
}

/// Finishes the Keil project document (see `keil_tail_spec`): the document,
/// the generated files (the project file `{name}.uvprojx`, the startup file
/// and the scatter file) and the warnings.
pub fn keil_project_document(
    xml: XmlElement,
    inspection: &ProjectInspection,
    copied: &Vec<CopiedFile>,
    startup: &str,
    scatter: &str,
    library: Option<String>,
) -> (r: Result<(XmlElement, Vec<String>, Vec<String>), String>)
    ensures
        exists|names: Seq<Seq<char>>|
            is_sorted_dedup_of(names, copied_groups(copied_views(copied@)).push("Device"@)) && match r {
                Ok((x, generated, warnings)) => keil_tail_spec(
                    element_view(xml),
                    names,
                    copied_views(copied@),
                    startup@,
                    scatter@,
                    opt_string_view(library),
                ) == Ok::<ElementV, Seq<char>>(element_view(x)) && string_views(generated@) == seq![
                    normalized_project_name_spec(inspection.name@, "keil"@) + ".uvprojx"@,
                    startup@,
                    scatter@,
                ] && string_views(warnings@) == (if has_syscfg_copied(copied_views(copied@)) {
                    seq![keil_syscfg_warning()]
                } else {
                    seq![]
                }),
                Err(e) => keil_tail_spec(
                    element_view(xml),
                    names,
                    copied_views(copied@),
                    startup@,
                    scatter@,
                    opt_string_view(library),
                ) == Err::<ElementV, Seq<char>>(e@),
            },
{
    let names = keil_group_names(copied);
    let mut scatter_setting = chars_of("./");
    append_chars(&mut scatter_setting, &chars_of(scatter));
    let x = set_element_text(xml, "ScatterFile", &scatter_setting)?;
    let x = match &library {
        Some(l) => {
            let mut v = chars_of("\"");
            append_chars(&mut v, &chars_of(keil_windows_path(l.as_str()).as_str()));
            append_chars(&mut v, &chars_of("\""));
            set_element_text(x, "Misc", &v)?
        },
        None => x,
    };
    let x = replace_groups_with(x, copied, &chars_of(startup), &names)?;
    let mut warnings: Vec<String> = Vec::new();
    let with_syscfg = any_syscfg(copied);
    let x = if with_syscfg {
        push_view(&mut warnings, &chars_of(
            "已保留 SysConfig 及生成文件，但关闭了 SDK 模板中绑定本机路径的预编译脚本；修改 .syscfg 后需在本机重新生成",
        ));
        try_set_element_text(x, "RunUserProg1", &chars_of("0"))
    } else {
        assert(string_views(warnings@) =~= seq![]);
        x
    };
    let mut project_file = normalized_project_name(&chars_of(inspection.name.as_str()), &chars_of("keil"));
    append_chars(&mut project_file, &chars_of(".uvprojx"));
    let mut generated: Vec<String> = Vec::new();
    assert(string_views(generated@) =~= seq![]);
    push_view(&mut generated, &project_file);
    push_view(&mut generated, &chars_of(startup));
    push_view(&mut generated, &chars_of(scatter));
    Ok((x, generated, warnings))
}

pub open spec fn opt_string_view(o: Option<String>) -> Option<Seq<char>> {
    match o {
        Some(s) => Some(s@),
        None => None,
    }
}

fn replace_groups_with(xml: XmlElement, copied: &Vec<CopiedFile>, startup: &Vec<char>, names: &Vec<String>) -> (r: Result<
    XmlElement,
    String,
>)
    ensures
        result_view(r) == replace_groups_v(element_view(xml), string_views(names@), copied_views(copied@), startup@),
{
    let ghost nv = string_views(names@);
    let mut groups: Vec<XmlNode> = Vec::new();
    let mut i: usize = 0;
    while i < names.len()
        invariant
            i <= names.len(),
            nv == string_views(names@),
            nodes_view(groups@) == keil_group_nodes_v(nv.take(i as int), copied_views(copied@), startup@),
        decreases names.len() - i,
    {
        let n = XmlNode::Element(keil_group(&chars_of(names[i].as_str()), copied, startup));
        proof {
            lemma_nodes_view_push(groups@, n);
        }
        groups.push(n);
        assert(keil_group_nodes_v(nv.take(i + 1), copied_views(copied@), startup@) =~= keil_group_nodes_v(
            nv.take(i as int),
            copied_views(copied@),
            startup@,
        ).push(NodeV::Element(keil_group_v(names@[i as int]@, copied_views(copied@), startup@))));
        i += 1;
    }
    assert(nv.take(names.len() as int) =~= nv);
    let (x, found) = edit_first(xml, &chars_of("Groups"), &XmlEdit::ReplaceChildren(groups));
    if found {
        Ok(x)
    } else {
        Err(string_of(&chars_of("Keil 模板缺少 Groups")))
    }
}

/// Finishes the Keil project from the filled-in template `head` (see
/// `keil_project_head`): the bytes of the project file (the document of
/// `keil_tail_spec`, written out), the generated files (the project file
/// `{name}.uvprojx`, the startup file and the scatter file) and the warnings.
pub fn generate_keil(
    head: XmlElement,
    inspection: &ProjectInspection,
    copied: &Vec<CopiedFile>,
    startup: &str,
    scatter: &str,
    library: Option<String>,
) -> (r: Result<(Vec<u8>, Vec<String>, Vec<String>), String>)
    ensures
        exists|names: Seq<Seq<char>>|
            is_sorted_dedup_of(names, copied_groups(copied_views(copied@)).push("Device"@)) && emitted(
                keil_tail_spec(element_view(head), names, copied_views(copied@), startup@, scatter@, opt_string_view(library)),
            ) == bytes_result(r) && (r matches Ok((_, generated, warnings)) ==> string_views(generated@) == seq![
                normalized_project_name_spec(inspection.name@, "keil"@) + ".uvprojx"@,
                startup@,
                scatter@,
            ] && string_views(warnings@) == (if has_syscfg_copied(copied_views(copied@)) {
                seq![keil_syscfg_warning()]
            } else {
                seq![]
            })),
{
    let ghost h = element_view(head);
    let ghost lib = opt_string_view(library);
    let made = keil_project_document(head, inspection, copied, startup, scatter, library);
    let ghost names = choose|names: Seq<Seq<char>>|
        is_sorted_dedup_of(names, copied_groups(copied_views(copied@)).push("Device"@)) && match made {
            Ok((x, generated, warnings)) => keil_tail_spec(h, names, copied_views(copied@), startup@, scatter@, lib)
                == Ok::<ElementV, Seq<char>>(element_view(x)) && string_views(generated@) == seq![
                normalized_project_name_spec(inspection.name@, "keil"@) + ".uvprojx"@,
                startup@,
                scatter@,
            ] && string_views(warnings@) == (if has_syscfg_copied(copied_views(copied@)) {
                seq![keil_syscfg_warning()]
            } else {
                seq![]
            }),
            Err(e) => keil_tail_spec(h, names, copied_views(copied@), startup@, scatter@, lib) == Err::<
                ElementV,
                Seq<char>,
            >(e@),
        };
    match made {
        Ok((x, generated, warnings)) => match emit_xml(&x) {
            Ok(b) => Ok((b, generated, warnings)),
            Err(e) => Err(e),
        },
        Err(e) => Err(e),
    }
}

} // verus!
