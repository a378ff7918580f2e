//! Device family packs (PDSC descriptions) and MSPM0 SDKs: what they provide
//! and how they are checked.
use vstd::prelude::*;
use crate::model::ResourceInfo;
use crate::outside::{
    json_string_member, json_string_member_spec, zip_entry_count, zip_entry_count_spec, zip_entry_name,
    zip_entry_name_spec, zip_entry_text, zip_entry_text_spec, ZipReadFailure,
};
use crate::text::{ends_with_chars, lower_chars, lower_seq};
use crate::xml_text::{parse_xml, xml_parse_spec};
use crate::sorting::{dedup, is_sorted_dedup_of};
use crate::text::{chars_of, chars_equal, string_of, string_views, append_chars};
use crate::xml::{
    attr_v, attribute, child_text, child_text_v, collect_attribute, collect_v, element_view, find_element,
    find_v, XmlElement,
};

verus! {

/// The name, version and supported devices (sorted, each once) that a PDSC
/// declares, or why it is not usable.
pub open spec fn pack_description_ok(
    pdsc: crate::xml::ElementV,
    name: Seq<char>,
    version: Seq<char>,
    devices: Seq<Seq<char>>,
) -> bool {
    &&& child_text_v(pdsc, "name"@) == Some(name)
    &&& (match find_v(pdsc, "release"@) {
        Some(r) => attr_v(r, "version"@) == Some(version),
        None => false,
    })
    &&& is_sorted_dedup_of(devices, collect_v(pdsc, "device"@, "Dname"@))
    &&& devices.len() > 0
}

pub open spec fn pack_description_error(pdsc: crate::xml::ElementV) -> Option<Seq<char>> {
    if child_text_v(pdsc, "name"@) is None {
        Some("Pack PDSC 缺少名称"@)
    } else if (match find_v(pdsc, "release"@) {
        Some(r) => attr_v(r, "version"@) is None,
        None => true,
    }) {
        Some("Pack PDSC 缺少版本号"@)
    } else if collect_v(pdsc, "device"@, "Dname"@).len() == 0 {
        Some("Pack PDSC 未声明任何器件"@)
    } else {
        None
    }
}

/// The name, version and devices of a pack, from its PDSC document.
pub fn validate_pack(pdsc: &XmlElement) -> (r: Result<(String, String, Vec<String>), String>)
    ensures
        match r {
            Ok((n, v, d)) => pack_description_error(element_view(*pdsc)) is None && pack_description_ok(
                element_view(*pdsc),
                n@,
                v@,
                string_views(d@),
            ),
            Err(e) => pack_description_error(element_view(*pdsc)) == Some(e@),
        },
{
    let name = match child_text(pdsc, &chars_of("name")) {
        Some(n) => n,
        None => return Err(string_of(&chars_of("Pack PDSC 缺少名称"))),
    };
    let version = match find_element(pdsc, &chars_of("release")) {
        Some(r) => match attribute(r, &chars_of("version")) {
            Some(v) => v,
            None => return Err(string_of(&chars_of("Pack PDSC 缺少版本号"))),
        },
        None => return Err(string_of(&chars_of("Pack PDSC 缺少版本号"))),
    };
    let mut devices: Vec<String> = Vec::new();
    collect_attribute(pdsc, &chars_of("device"), &chars_of("Dname"), &mut devices);
    assert(string_views(devices@) =~= collect_v(element_view(*pdsc), "device"@, "Dname"@));
    let ghost all = string_views(devices@);
    dedup(&mut devices);
    if devices.len() == 0 {
        proof {
            if all.len() > 0 {
                assert(all.to_set().contains(all[0]));
                assert(string_views(devices@).to_set().contains(all[0]));
            }
        }
        return Err(string_of(&chars_of("Pack PDSC 未声明任何器件")));
    }
    proof {
        if all.len() == 0 {
            assert(string_views(devices@).to_set().contains(string_views(devices@)[0]));
            assert(all.to_set() =~= Set::empty());
        }
    }
    Ok((string_of(&name), version, devices))
}

/// The name, version and devices of a pack, from the text of its PDSC.
pub fn validate_pack_text(text: &str) -> (r: Result<(String, String, Vec<String>), String>)
    ensures
        match xml_parse_spec(text@) {
            Err(m) => r matches Err(e) && e@ == "Pack PDSC 无法解析："@ + m,
            Ok(pdsc) => match r {
                Ok((n, v, d)) => pack_description_error(pdsc) is None && pack_description_ok(
                    pdsc,
                    n@,
                    v@,
                    string_views(d@),
                ),
                Err(e) => pack_description_error(pdsc) == Some(e@),
            },
        },
{
    match parse_xml(text) {
        Ok(pdsc) => validate_pack(&pdsc),
        Err(m) => {
            let mut e = chars_of("Pack PDSC 无法解析：");
            append_chars(&mut e, &chars_of(m.as_str()));
            Err(string_of(&e))
        },
    }
}

/// What the `name` member of `product.json` (as read by
/// `json_string_member`) says: nothing against the SDK, or why not.
pub open spec fn sdk_name_check_spec(name: Result<Option<Seq<char>>, Seq<char>>) -> Option<Seq<char>> {
    match name {
        Err(e) => Some("SDK product.json 无法解析："@ + e),
        Ok(n) => if n != Some("mspm0_sdk"@) {
            Some("所选目录不是 MSPM0 SDK"@)
        } else {
            None
        },
    }
}

/// The SDK version from the `version` member of `product.json` (as read by
/// `json_string_member`), or why there is none.
pub open spec fn sdk_version_of_spec(version: Result<Option<Seq<char>>, Seq<char>>) -> Result<Seq<char>, Seq<char>> {
    match version {
        Err(e) => Err("SDK product.json 无法解析："@ + e),
        Ok(Some(v)) => Ok(v),
        Ok(None) => Err("SDK product.json 缺少版本号"@),
    }
}

/// The version of an MSPM0 SDK, from the text of its `.metadata/product.json`
/// (`None` when the file could not be read, `product_path` naming it).
pub open spec fn sdk_version_spec(product_path: Seq<char>, product: Option<Seq<char>>) -> Result<Seq<char>, Seq<char>> {
    match product {
        None => Err("SDK 无效：未找到 "@ + product_path),
        Some(text) => match sdk_name_check_spec(json_string_member_spec(text, "name"@)) {
            Some(e) => Err(e),
            None => sdk_version_of_spec(json_string_member_spec(text, "version"@)),
        },
    }
}

pub open spec fn member_view(m: Result<Option<String>, String>) -> Result<Option<Seq<char>>, Seq<char>> {
    match m {
        Ok(Some(v)) => Ok(Some(v@)),
        Ok(None) => Ok(None),
        Err(e) => Err(e@),
    }
}

/// Checks the `name` member of `product.json`, as `json_string_member`
/// read it: `Err` says why the directory is not an MSPM0 SDK.
pub fn sdk_name_check(name: Result<Option<String>, String>) -> (r: Result<(), String>)
    ensures
        match r {
            Ok(()) => sdk_name_check_spec(member_view(name)) is None,
            Err(e) => sdk_name_check_spec(member_view(name)) == Some(e@),
        },
{
    match name {
        Err(e) => {
            let mut m = chars_of("SDK product.json 无法解析：");
            append_chars(&mut m, &chars_of(e.as_str()));
            Err(string_of(&m))
        },
        Ok(n) => {
            let is_sdk = match &n {
                Some(v) => chars_equal(&chars_of(v.as_str()), &chars_of("mspm0_sdk")),
                None => false,
            };
            if is_sdk {
                Ok(())
            } else {
                Err(string_of(&chars_of("所选目录不是 MSPM0 SDK")))
            }
        },
    }
}

/// The SDK version from the `version` member of `product.json`, as
/// `json_string_member` read it.
pub fn sdk_version_of(version: Result<Option<String>, String>) -> (r: Result<String, String>)
    ensures
        match r {
            Ok(v) => sdk_version_of_spec(member_view(version)) == Ok::<Seq<char>, Seq<char>>(v@),
            Err(e) => sdk_version_of_spec(member_view(version)) == Err::<Seq<char>, Seq<char>>(e@),
        },
{
    match version {
        Err(e) => {
            let mut m = chars_of("SDK product.json 无法解析：");
            append_chars(&mut m, &chars_of(e.as_str()));
            Err(string_of(&m))
        },
        Ok(Some(v)) => Ok(v),
        Ok(None) => Err(string_of(&chars_of("SDK product.json 缺少版本号"))),
    }
}

/// Checks that `product` describes an MSPM0 SDK and gives its version.
pub open spec fn opt_str_view(s: Option<&str>) -> Option<Seq<char>> {
    match s {
        Some(t) => Some(t@),
        None => None,
    }
}

pub fn validate_sdk(product_path: &str, product: Option<&str>) -> (r: Result<String, String>)
    ensures
        match r {
            Ok(v) => sdk_version_spec(product_path@, opt_str_view(product)) == Ok::<Seq<char>, Seq<char>>(v@),
            Err(e) => sdk_version_spec(product_path@, opt_str_view(product)) == Err::<Seq<char>, Seq<char>>(e@),
        },
{
    let text = match product {
        None => {
            let mut m = chars_of("SDK 无效：未找到 ");
            append_chars(&mut m, &chars_of(product_path));
            return Err(string_of(&m));
        },
        Some(t) => t,
    };
    let name = json_string_member(text, "name");
    assert(member_view(name) == json_string_member_spec(text@, "name"@));
    match sdk_name_check(name) {
        Err(e) => Err(e),
        Ok(()) => {
            let version = json_string_member(text, "version");
            assert(member_view(version) == json_string_member_spec(text@, "version"@));
            sdk_version_of(version)
        },
    }
}

/// An SDK version and a pack description, checked together.
pub fn validate_resources(
    sdk: Result<String, String>,
    pack: Result<(String, String, Vec<String>), String>,
) -> (r: Result<ResourceInfo, String>)
    ensures
        match (sdk, pack) {
            (Err(e), _) => r matches Err(x) && x@ == e@,
            (Ok(_), Err(e)) => r matches Err(x) && x@ == e@,
            (Ok(v), Ok((n, pv, d))) => r matches Ok(info) && info.sdk_version@ == v@ && info.pack_name@
                == n@ && info.pack_version@ == pv@ && info.devices@ == d@,
        },
{
    let sdk_version = match sdk {
        Ok(v) => v,
        Err(e) => return Err(e),
    };
    let (pack_name, pack_version, devices) = match pack {
        Ok(p) => p,
        Err(e) => return Err(e),
    };
    Ok(ResourceInfo { sdk_version, pack_name, pack_version, devices })
}


/// An archive entry name that is a PDSC file: it ends in `.pdsc`, in any
/// letter case.
pub open spec fn is_pdsc_name(name: Seq<char>) -> bool {
    ".pdsc"@.is_suffix_of(lower_seq(name))
}

/// The PDSC text from reading an entry (as `zip_entry_text` read it), or
/// why it could not be read.
pub open spec fn pdsc_entry_text_spec(read: Result<Seq<char>, (bool, Seq<char>)>) -> Result<Seq<char>, Seq<char>> {
    match read {
        Ok(t) => Ok(t),
        Err((false, e)) => Err(e),
        Err((true, e)) => Err("无法读取 Pack PDSC："@ + e),
    }
}

/// The PDSC text in a pack archive, scanning entries from index `i`: the
/// first entry whose name ends in `.pdsc` (in any letter case).
pub open spec fn pdsc_scan(bytes: Seq<u8>, i: int, n: int) -> Result<Seq<char>, Seq<char>>
    decreases n - i,
{
    if i < 0 || i >= n {
        Err("Pack 中未找到 .pdsc"@)
    } else {
        match zip_entry_name_spec(bytes, i as usize) {
            Err(e) => Err(e),
            Ok(name) => if is_pdsc_name(name) {
                pdsc_entry_text_spec(zip_entry_text_spec(bytes, i as usize))
            } else {
                pdsc_scan(bytes, i + 1, n)
            },
        }
    }
}

/// The PDSC text of a pack archive (`.pack` files are ZIP archives).
pub open spec fn pdsc_in_archive_spec(bytes: Seq<u8>) -> Result<Seq<char>, Seq<char>> {
    match zip_entry_count_spec(bytes) {
        Err(e) => Err(pack_archive_error_spec(e)),
        Ok(n) => pdsc_scan(bytes, 0, n as int),
    }
}

pub open spec fn pack_archive_error_spec(e: Seq<char>) -> Seq<char> {
    "Pack 不是有效压缩包："@ + e
}

/// Why a pack is not a usable archive, from the error of opening it.
pub fn pack_archive_error(e: &str) -> (r: String)
    ensures
        r@ == pack_archive_error_spec(e@),
{
    let mut m = chars_of("Pack 不是有效压缩包：");
    append_chars(&mut m, &chars_of(e));
    string_of(&m)
}

/// Whether an archive entry name names a PDSC file.
pub fn is_pdsc_entry(name: &str) -> (r: bool)
    ensures
        r == is_pdsc_name(name@),
{
    ends_with_chars(&lower_chars(&chars_of(name)), &chars_of(".pdsc"))
}

pub open spec fn read_view(read: Result<String, ZipReadFailure>) -> Result<Seq<char>, (bool, Seq<char>)> {
    match read {
        Ok(t) => Ok(t@),
        Err(ZipReadFailure::Entry(e)) => Err((false, e@)),
        Err(ZipReadFailure::Content(e)) => Err((true, e@)),
    }
}

/// The PDSC text from reading an archive entry, as `zip_entry_text` read
/// it, or why it could not be read.
pub fn pdsc_entry_text(read: Result<String, ZipReadFailure>) -> (r: Result<String, String>)
    ensures
        match r {
            Ok(t) => pdsc_entry_text_spec(read_view(read)) == Ok::<Seq<char>, Seq<char>>(t@),
            Err(e) => pdsc_entry_text_spec(read_view(read)) == Err::<Seq<char>, Seq<char>>(e@),
        },
{
    match read {
        Ok(t) => Ok(t),
        Err(ZipReadFailure::Entry(e)) => Err(e),
        Err(ZipReadFailure::Content(e)) => {
            let mut m = chars_of("无法读取 Pack PDSC：");
            append_chars(&mut m, &chars_of(e.as_str()));
            Err(string_of(&m))
        },
    }
}

/// Reads the PDSC description out of a pack archive.
pub fn pdsc_from_pack_archive(bytes: &[u8]) -> (r: Result<String, String>)
    ensures
        match r {
            Ok(t) => pdsc_in_archive_spec(bytes@) == Ok::<Seq<char>, Seq<char>>(t@),
            Err(e) => pdsc_in_archive_spec(bytes@) == Err::<Seq<char>, Seq<char>>(e@),
        },
{
    let n = match zip_entry_count(bytes) {
        Ok(n) => n,
        Err(e) => return Err(pack_archive_error(e.as_str())),
    };
    let mut i: usize = 0;
    while i < n
        invariant
            i <= n,
            zip_entry_count_spec(bytes@) == Ok::<usize, Seq<char>>(n),
            pdsc_in_archive_spec(bytes@) == pdsc_scan(bytes@, i as int, n as int),
        decreases n - i,
    {
        let name = match zip_entry_name(bytes, i) {
            Ok(name) => name,
            Err(e) => return Err(e),
        };
        if is_pdsc_entry(name.as_str()) {
            let read = zip_entry_text(bytes, i);
            assert(read_view(read) == zip_entry_text_spec(bytes@, i));
            return pdsc_entry_text(read);
        }
        i += 1;
    }
    Err(string_of(&chars_of("Pack 中未找到 .pdsc")))
}

/// Where a pack's PDSC text is read from.
#[derive(Debug, PartialEq, Eq, Structural)]
pub enum PdscSource {
    /// The first `.pdsc` file below the pack directory.
    FirstPdscInDirectory,
    /// The `.pdsc` file itself.
    PdscFile,
    /// The pack archive.
    Archive,
}

pub open spec fn pdsc_source_spec(path: Seq<char>, is_dir: bool, is_file: bool) -> Result<PdscSource, Seq<char>> {
    if is_dir {
        Ok(PdscSource::FirstPdscInDirectory)
    } else if !is_file {
        Err("Pack 文件或目录不存在"@)
    } else if (match crate::winpath::path_extension_spec(path) {
        Some(e) => lower_seq(e) == "pdsc"@,
        None => false,
    }) {
        Ok(PdscSource::PdscFile)
    } else {
        Ok(PdscSource::Archive)
    }
}

/// Where to read the PDSC of the pack at `path`, given whether it is a
/// directory or a file.
pub fn pdsc_source(path: &str, is_dir: bool, is_file: bool) -> (r: Result<PdscSource, String>)
    ensures
        match r {
            Ok(s) => pdsc_source_spec(path@, is_dir, is_file) == Ok::<PdscSource, Seq<char>>(s),
            Err(e) => pdsc_source_spec(path@, is_dir, is_file) == Err::<PdscSource, Seq<char>>(e@),
        },
{
    if is_dir {
        return Ok(PdscSource::FirstPdscInDirectory);
    }
    if !is_file {
        return Err(string_of(&chars_of("Pack 文件或目录不存在")));
    }
    let is_pdsc = match crate::winpath::extension_of(&chars_of(path)) {
        Some(e) => chars_equal(&lower_chars(&e), &chars_of("pdsc")),
        None => false,
    };
    if is_pdsc {
        Ok(PdscSource::PdscFile)
    } else {
        Ok(PdscSource::Archive)
    }
}

} // verus!
