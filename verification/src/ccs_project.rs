//! Writing a CCS project specification from the SDK's TI Clang template:
//! the project's name and device, its compiler options, and one `file`
//! entry per converted source.
use vstd::prelude::*;
use crate::convert::{copied_view, copied_views, CopiedFile};
use crate::keil_project::{copied_dir, copied_dirs, copied_directories, result_view};
use crate::model::ProjectInspection;
use crate::project::{normalized_project_name, normalized_project_name_spec};
use crate::sorting::{dedup, is_sorted_dedup_of};
use crate::text::{append_chars, chars_equal, chars_of, join_seq, map_char, map_char_seq, string_of, string_views};
use crate::winpath::{path_parent, path_parent_spec};
use crate::xml_text::{emit_xml, emitted, parse_xml, xml_parse_spec};
use crate::xml::{
    attr_v, attribute, attrs_view, edit_first, edit_first_v, element_view, find_element, find_v, lemma_edit_finds,
    lemma_nodes_view_push, nodes_view, ElementV, EditV, NodeV, XmlEdit, XmlElement, XmlNode,
};

verus! {

/// The compiler options of the new project: the template's, then one
/// `-D` line per define and one `-I` line per source directory.
pub open spec fn ccs_options_spec(base: Seq<char>, defines: Seq<Seq<char>>, dirs: Seq<Seq<char>>) -> Seq<char> {
    base + join_seq(defines.map_values(|d: Seq<char>| "\n            -D"@ + d), seq![]) + join_seq(
        dirs.map_values(|d: Seq<char>| "\n            -I${PROJECT_ROOT}/"@ + d),
        seq![],
    )
}

/// Copied file `i` is the first source file: CCS opens it when the project
/// is created.
pub open spec fn first_source(cs: Seq<(Seq<char>, Seq<char>, Seq<char>)>, i: int) -> bool {
    &&& cs[i].2 == "source"@
    &&& forall|j: int| 0 <= j < i ==> (#[trigger] cs[j]).2 != "source"@
}

/// The `file` entry of a copied file: copied into the project, built, and
/// placed in its own directory (a `.syscfg` stays at the top).
pub open spec fn ccs_file_v(c: (Seq<char>, Seq<char>, Seq<char>), open: bool) -> ElementV {
    let base = seq![
        ("path"@, c.0),
        ("action"@, "copy"@),
        ("excludeFromBuild"@, "false"@),
        ("openOnCreation"@, if open {
            "true"@
        } else {
            "false"@
        }),
    ];
    ElementV {
        name: "file"@,
        attributes: if c.2 != "syscfg"@ && copied_dir(c.0) is Some {
            base.push(("targetDirectory"@, copied_dir(c.0)->0))
        } else {
            base
        },
        children: seq![],
        namespace: crate::xml::no_namespace_v(),
    }
}

pub open spec fn ccs_file_nodes_v(cs: Seq<(Seq<char>, Seq<char>, Seq<char>)>) -> Seq<NodeV> {
    Seq::new(cs.len(), |i: int| NodeV::Element(ccs_file_v(cs[i], first_source(cs, i))))
}

/// The CCS project document from the template: the first `project`
/// element gets the title, name, device and compiler options, and its
/// `file` entries are replaced; the first `context` element gets the
/// device.
pub open spec fn ccs_project_spec(
    t: ElementV,
    title: Seq<char>,
    name: Seq<char>,
    device: Seq<char>,
    options: Seq<char>,
    files: Seq<NodeV>,
) -> Result<ElementV, Seq<char>> {
    if find_v(t, "project"@) is None {
        Err("CCS 模板缺少 project 节点"@)
    } else {
        let p = "project"@;
        let a = edit_first_v(t, p, EditV::SetAttribute("title"@, title)).0;
        let b = edit_first_v(a, p, EditV::SetAttribute("name"@, name)).0;
        let c = edit_first_v(b, p, EditV::SetAttribute("device"@, device)).0;
        let d = edit_first_v(c, p, EditV::SetAttribute("compilerBuildOptions"@, options)).0;
        let e = edit_first_v(d, p, EditV::RemoveChildElements("file"@)).0;
        let f = edit_first_v(e, p, EditV::AppendChildren(files)).0;
        Ok(edit_first_v(f, "context"@, EditV::SetAttribute("deviceId"@, device)).0)
    }
}

pub open spec fn template_options(t: ElementV) -> Seq<char> {
    match find_v(t, "project"@) {
        Some(p) => match attr_v(p, "compilerBuildOptions"@) {
            Some(o) => o,
            None => seq![],
        },
        None => seq![],
    }
}

pub open spec fn ccs_project_warning() -> Seq<char> {
    "Keil 的 Scatter 文件、下载器和 ArmClang 专属参数未写入 CCS；CCS 将使用所选 SDK 的 TI Clang 官方配置"@
}

fn ccs_file_element(c: &CopiedFile, open: bool) -> (r: XmlElement)
    ensures
        element_view(r) == ccs_file_v(copied_view(*c), open),
{
    let mut attributes: Vec<(String, String)> = Vec::new();
    let ghost a0 = attributes@;
    attributes.push((string_of(&chars_of("path")), c.relative.clone()));
    attributes.push((string_of(&chars_of("action")), string_of(&chars_of("copy"))));
    attributes.push((string_of(&chars_of("excludeFromBuild")), string_of(&chars_of("false"))));
    attributes.push((
        string_of(&chars_of("openOnCreation")),
        if open {
            string_of(&chars_of("true"))
        } else {
            string_of(&chars_of("false"))
        },
    ));
    let ghost base = attrs_view(attributes@);
    let rel = chars_of(c.relative.as_str());
    let is_syscfg = chars_equal(&chars_of(c.file_type.as_str()), &chars_of("syscfg"));
    if !is_syscfg {
        match path_parent(&rel) {
            Some(p) => {
                attributes.push((string_of(&chars_of("targetDirectory")), string_of(&map_char(&p, '\\', '/'))));
            },
            None => {},
        }
    }
    let r = XmlElement { name: string_of(&chars_of("file")), attributes, children: Vec::new(), namespace: crate::xml::no_namespace() };
    assert(nodes_view(r.children@) =~= seq![]);
    assert(attrs_view(r.attributes@) =~= ccs_file_v(copied_view(*c), open).attributes);
    r
}

/// The `file` entries for the copied files, in order.
pub fn ccs_file_nodes(copied: &Vec<CopiedFile>) -> (r: Vec<XmlNode>)
    ensures
        nodes_view(r@) == ccs_file_nodes_v(copied_views(copied@)),
{
    let ghost cv = copied_views(copied@);
    let mut r: Vec<XmlNode> = Vec::new();
    let mut opened = false;
    let mut i: usize = 0;
    assert(nodes_view(r@) =~= ccs_file_nodes_v(cv.take(0)));
    while i < copied.len()
        invariant
            i <= copied.len(),
            cv == copied_views(copied@),
            opened == exists|j: int| 0 <= j < i && (#[trigger] cv[j]).2 == "source"@,
            nodes_view(r@) == ccs_file_nodes_v(cv.take(i as int)),
        decreases copied.len() - i,
    {
        let c = &copied[i];
        assert(cv[i as int] == copied_view(*c));
        let is_source = chars_equal(&chars_of(c.file_type.as_str()), &chars_of("source"));
        let open = !opened && is_source;
        proof {
            let t = cv.take(i + 1);
            assert(open == first_source(t, i as int)) by {
                if !opened && is_source {
                    assert forall|j: int| 0 <= j < i implies (#[trigger] t[j]).2 != "source"@ by {
                        assert(t[j] == cv[j]);
                    }
                }
                if opened {
                    let j = choose|j: int| 0 <= j < i && (#[trigger] cv[j]).2 == "source"@;
                    assert(t[j] == cv[j]);
                }
            }
        }
        let n = XmlNode::Element(ccs_file_element(c, open));
        proof {
            lemma_nodes_view_push(r@, n);
            let t = cv.take(i + 1);
            let prev = cv.take(i as int);
            assert forall|k: int| 0 <= k < i implies first_source(t, k) == first_source(prev, k) by {
                assert(t[k] == prev[k]);
                assert forall|j: int| 0 <= j < k implies t[j] == prev[j] by {}
            }
            assert(ccs_file_nodes_v(t) =~= ccs_file_nodes_v(prev).push(NodeV::Element(ccs_file_v(cv[i as int], open))));
        }
        r.push(n);
        if is_source {
            assert(cv[i as int].2 == "source"@);
            opened = true;
        }
        i += 1;
    }
    assert(cv.take(copied.len() as int) =~= cv);
    r
}

fn options_text(base: Vec<char>, defines: &Vec<String>, dirs: &Vec<String>) -> (r: Vec<char>)
    ensures
        r@ == ccs_options_spec(base@, string_views(defines@), string_views(dirs@)),
{
    let mut r = base;
    let ghost b = r@;
    let mut i: usize = 0;
    assert(join_seq(string_views(defines@).take(0).map_values(|d: Seq<char>| "\n            -D"@ + d), seq![]) =~= seq![]);
    assert(r@ =~= b + join_seq(string_views(defines@).take(0).map_values(|d: Seq<char>| "\n            -D"@ + d), seq![]));
    while i < defines.len()
        invariant
            i <= defines.len(),
            r@ == b + join_seq(string_views(defines@).take(i as int).map_values(|d: Seq<char>| "\n            -D"@ + d), seq![]),
        decreases defines.len() - i,
    {
        let mut line = chars_of("\n            -D");
        append_chars(&mut line, &chars_of(defines[i].as_str()));
        append_chars(&mut r, &line);
        proof {
            let prev = string_views(defines@).take(i as int).map_values(|d: Seq<char>| "\n            -D"@ + d);
            let next = string_views(defines@).take(i + 1).map_values(|d: Seq<char>| "\n            -D"@ + d);
            assert(next.drop_last() =~= prev);
            assert(next.last() == line@);
            lemma_join_empty_push(prev, line@);
            assert(next =~= prev.push(line@));
        }
        i += 1;
    }
    assert(string_views(defines@).take(defines.len() as int) =~= string_views(defines@));
    let ghost bd = r@;
    let mut j: usize = 0;
    assert(r@ =~= bd + join_seq(string_views(dirs@).take(0).map_values(|d: Seq<char>| "\n            -I${PROJECT_ROOT}/"@ + d), seq![]));
    while j < dirs.len()
        invariant
            j <= dirs.len(),
            r@ == bd + join_seq(string_views(dirs@).take(j as int).map_values(|d: Seq<char>| "\n            -I${PROJECT_ROOT}/"@ + d), seq![]),
        decreases dirs.len() - j,
    {
        let mut line = chars_of("\n            -I${PROJECT_ROOT}/");
        append_chars(&mut line, &chars_of(dirs[j].as_str()));
        append_chars(&mut r, &line);
        proof {
            let prev = string_views(dirs@).take(j as int).map_values(|d: Seq<char>| "\n            -I${PROJECT_ROOT}/"@ + d);
            let next = string_views(dirs@).take(j + 1).map_values(|d: Seq<char>| "\n            -I${PROJECT_ROOT}/"@ + d);
            assert(next.last() == line@);
            lemma_join_empty_push(prev, line@);
            assert(next =~= prev.push(line@));
        }
        j += 1;
    }
    assert(string_views(dirs@).take(dirs.len() as int) =~= string_views(dirs@));
    r
}

proof fn lemma_join_empty_push(parts: Seq<Seq<char>>, x: Seq<char>)
    ensures
        join_seq(parts.push(x), seq![]) == join_seq(parts, seq![]) + x,
{
    if parts.len() == 0 {
        assert(parts.push(x).len() == 1);
        assert(join_seq(parts.push(x), seq![]) == parts.push(x)[0]);
        assert(join_seq(parts, seq![]) + x =~= x);
    } else {
        assert(parts.push(x).drop_last() =~= parts);
        assert(join_seq(parts, seq![]) + seq![] + x =~= join_seq(parts, seq![]) + x);
    }
}

fn edit_project(x: XmlElement, ed: XmlEdit) -> (r: XmlElement)
    ensures
        element_view(r) == edit_first_v(element_view(x), "project"@, edit_view_of(ed)).0,
{
    edit_first(x, &chars_of("project"), &ed).0
}

pub open spec fn edit_view_of(ed: XmlEdit) -> EditV {
    crate::xml::edit_view(ed)
}

/// Makes the CCS project document from the template (see
/// `ccs_project_spec`): the document, the generated project file
/// `{name}.projectspec` and the warning about what Keil settings CCS does
/// not take.
pub fn ccs_project_document(template: XmlElement, inspection: &ProjectInspection, copied: &Vec<CopiedFile>) -> (r: Result<
    (XmlElement, Vec<String>, Vec<String>),
    String,
>)
    ensures
        exists|dirs: Seq<Seq<char>>|
            is_sorted_dedup_of(dirs, copied_dirs(copied_views(copied@))) && match r {
                Ok((x, generated, warnings)) => ccs_project_spec(
                    element_view(template),
                    inspection.name@,
                    normalized_project_name_spec(inspection.name@, "ccs"@),
                    inspection.device@,
                    ccs_options_spec(template_options(element_view(template)), string_views(inspection.defines@), dirs),
                    ccs_file_nodes_v(copied_views(copied@)),
                ) == Ok::<ElementV, Seq<char>>(element_view(x)) && string_views(generated@) == seq![
                    normalized_project_name_spec(inspection.name@, "ccs"@) + ".projectspec"@,
                ] && string_views(warnings@) == seq![ccs_project_warning()],
                Err(e) => find_v(element_view(template), "project"@) is None && e@ == "CCS 模板缺少 project 节点"@,
            },
{
    let mut dirs = copied_directories(copied);
    dedup(&mut dirs);
    let ghost t = element_view(template);
    let base = match find_element(&template, &chars_of("project")) {
        None => {
            assert(is_sorted_dedup_of(string_views(dirs@), copied_dirs(copied_views(copied@))));
            return Err(string_of(&chars_of("CCS 模板缺少 project 节点")));
        },
        Some(p) => match attribute(p, &chars_of("compilerBuildOptions")) {
            Some(o) => chars_of(o.as_str()),
            None => Vec::new(),
        },
    };
    let name = normalized_project_name(&chars_of(inspection.name.as_str()), &chars_of("ccs"));
    let options = options_text(base, &inspection.defines, &dirs);
    let files = ccs_file_nodes(copied);
    let x = edit_project(template, XmlEdit::SetAttribute(string_of(&chars_of("title")), inspection.name.clone()));
    let x = edit_project(x, XmlEdit::SetAttribute(string_of(&chars_of("name")), string_of(&name)));
    let x = edit_project(x, XmlEdit::SetAttribute(string_of(&chars_of("device")), inspection.device.clone()));
    let x = edit_project(x, XmlEdit::SetAttribute(string_of(&chars_of("compilerBuildOptions")), string_of(&options)));
    let x = edit_project(x, XmlEdit::RemoveChildElements(string_of(&chars_of("file"))));
    let x = edit_project(x, XmlEdit::AppendChildren(files));
    let x = edit_first(
        x,
        &chars_of("context"),
        &XmlEdit::SetAttribute(string_of(&chars_of("deviceId")), inspection.device.clone()),
    ).0;
    let mut project_file = name;
    append_chars(&mut project_file, &chars_of(".projectspec"));
    let generated = vec![string_of(&project_file)];
    let warnings = vec![string_of(&chars_of(
        "Keil 的 Scatter 文件、下载器和 ArmClang 专属参数未写入 CCS；CCS 将使用所选 SDK 的 TI Clang 官方配置",
    ))];
    assert(string_views(generated@) =~= seq![normalized_project_name_spec(inspection.name@, "ccs"@) + ".projectspec"@]);
    assert(string_views(warnings@) =~= seq![ccs_project_warning()]);
    assert(is_sorted_dedup_of(string_views(dirs@), copied_dirs(copied_views(copied@))));
    Ok((x, generated, warnings))
}

pub open spec fn bytes_result(r: Result<(Vec<u8>, Vec<String>, Vec<String>), String>) -> Result<Seq<u8>, Seq<char>> {
    match r {
        Ok((b, _, _)) => Ok(b@),
        Err(e) => Err(e@),
    }
}

/// Writes the CCS project from the text of the template `.projectspec`: the
/// bytes of the project file (the document of `ccs_project_spec`, written
/// out), the generated project file `{name}.projectspec` and the warning
/// about what Keil settings CCS does not take.
pub fn generate_ccs(template_text: &str, inspection: &ProjectInspection, copied: &Vec<CopiedFile>) -> (r: Result<
    (Vec<u8>, Vec<String>, Vec<String>),
    String,
>)
    ensures
        match xml_parse_spec(template_text@) {
            Err(m) => r matches Err(e) && e@ == "CCS 模板无法解析："@ + m,
            Ok(t) => exists|dirs: Seq<Seq<char>>|
                is_sorted_dedup_of(dirs, copied_dirs(copied_views(copied@))) && emitted(
                    ccs_project_spec(
                        t,
                        inspection.name@,
                        normalized_project_name_spec(inspection.name@, "ccs"@),
                        inspection.device@,
                        ccs_options_spec(template_options(t), string_views(inspection.defines@), dirs),
                        ccs_file_nodes_v(copied_views(copied@)),
                    ),
                ) == bytes_result(r) && (r matches Ok((_, generated, warnings)) ==> string_views(generated@) == seq![
                    normalized_project_name_spec(inspection.name@, "ccs"@) + ".projectspec"@,
                ] && string_views(warnings@) == seq![ccs_project_warning()]),
        },
{
    let template = match parse_xml(template_text) {
        Ok(t) => t,
        Err(m) => {
            let mut e = chars_of("CCS 模板无法解析：");
            append_chars(&mut e, &chars_of(m.as_str()));
            return Err(string_of(&e));
        },
    };
    let ghost t = element_view(template);
    let made = ccs_project_document(template, inspection, copied);
    let ghost dirs = choose|dirs: Seq<Seq<char>>|
        is_sorted_dedup_of(dirs, copied_dirs(copied_views(copied@))) && match made {
            Ok((x, generated, warnings)) => ccs_project_spec(
                t,
                inspection.name@,
                normalized_project_name_spec(inspection.name@, "ccs"@),
                inspection.device@,
                ccs_options_spec(template_options(t), string_views(inspection.defines@), dirs),
                ccs_file_nodes_v(copied_views(copied@)),
            ) == Ok::<ElementV, Seq<char>>(element_view(x)) && string_views(generated@) == seq![
                normalized_project_name_spec(inspection.name@, "ccs"@) + ".projectspec"@,
            ] && string_views(warnings@) == seq![ccs_project_warning()],
            Err(e) => find_v(t, "project"@) is None && e@ == "CCS 模板缺少 project 节点"@,
        };
    match made {
        Ok((x, generated, warnings)) => match emit_xml(&x) {
            Ok(b) => Ok((b, generated, warnings)),
            Err(e) => Err(e),
        },
        Err(e) => Err(e),
    }
}

} // verus!
