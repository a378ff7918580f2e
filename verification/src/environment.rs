//! The environment reports: what was found for a project or for Keil's
//! SysConfig entry, with a warning for each piece that is missing.
use vstd::prelude::*;
use crate::discovery::{
    grandparent, grandparent_spec, opt_string, PackCandidate, SdkFound,
};
use crate::model::{
    EnvironmentDiscovery, EnvironmentRequest, KeilEnvironmentDiscovery, KeilEnvironmentRequest, ProjectInspection,
    ProjectKind, ResourceInfo, ValidatedResources,
};
use crate::project::{pack_download_url, pack_download_url_spec, pack_search_url, pack_search_url_spec};
use crate::sysconfig::{nw_executable_spec, sysconfig_nw_executable};
use crate::text::{append_chars, chars_of, string_of, string_views};
use crate::tools::{depth_error, depth_error_message, locate_toolchains, locate_toolchains_spec, ToolProbe};

verus! {

/// What was found on this machine for a project's environment.
pub struct EnvironmentFindings {
    /// The SDK and its version.
    pub sdk: Option<SdkFound>,
    /// CCS's `ccs-serverc.exe`.
    pub ccs: Option<String>,
    /// Keil's `UV4.exe`.
    pub keil: Option<String>,
    /// The pack for the project's device (looked for for CCS projects only).
    pub pack: Option<PackCandidate>,
    /// The SysConfig installation's root.
    pub sysconfig: Option<String>,
}

pub open spec fn sdk_path_of(s: Option<SdkFound>) -> Option<Seq<char>> {
    match s {
        Some(x) => Some(x.path@),
        None => None,
    }
}

pub open spec fn sdk_version_of(s: Option<SdkFound>) -> Option<Seq<char>> {
    match s {
        Some(x) => Some(x.version@),
        None => None,
    }
}

pub open spec fn opt_nw(s: Option<String>) -> Option<Seq<char>> {
    match s {
        Some(x) => Some(nw_executable_spec(x@)),
        None => None,
    }
}

pub open spec fn opt_grandparent(s: Option<String>) -> Option<Seq<char>> {
    match s {
        Some(x) => grandparent_spec(Some(x@)),
        None => None,
    }
}

/// The warnings of an environment discovery, in order.
pub open spec fn environment_warnings(kind: ProjectKind, device: Seq<char>, f: EnvironmentFindings) -> Seq<Seq<char>> {
    let sdk = if f.sdk is None {
        seq!["未找到 MSPM0 SDK；转换前需要手动选择"@]
    } else {
        seq![]
    };
    let ccs = if f.ccs is None {
        seq![
            if kind == ProjectKind::Ccs {
                "未找到 CCS；仍可转换，但不能执行源工程构建验证"@
            } else {
                "未找到 CCS；仍可生成目标工程，但不能执行目标构建验证"@
            },
        ]
    } else {
        seq![]
    };
    let keil = if f.keil is None {
        seq![
            if kind == ProjectKind::Keil {
                "未找到 Keil；仍可转换，但不能执行源工程构建验证"@
            } else {
                "未找到 Keil；仍可生成目标工程，但不能执行目标构建验证"@
            },
        ]
    } else {
        seq![]
    };
    let pack = if kind == ProjectKind::Ccs && f.pack is None {
        seq!["未找到支持 "@ + device + " 的 Pack；请从 Keil 官网下载后手动选择"@]
    } else {
        seq![]
    };
    let sysconfig = if f.sysconfig is None {
        seq!["未找到 SysConfig；已有生成文件不受影响，但无法一键配置 Keil SysConfig"@]
    } else {
        seq![]
    };
    sdk + ccs + keil + pack + sysconfig
}

/// A discovery that reports what was found for a project inspected as `i`:
/// the pack only for a CCS project, the installation roots two levels above
/// the executables, and SysConfig's graphical front end.
pub open spec fn environment_matches(d: EnvironmentDiscovery, i: ProjectInspection, f: EnvironmentFindings) -> bool {
    let pack = if i.kind == ProjectKind::Ccs {
        f.pack
    } else {
        None
    };
    &&& d.project_kind == i.kind
    &&& d.device@ == i.device@
    &&& opt_string(d.sdk_path) == sdk_path_of(f.sdk)
    &&& opt_string(d.sdk_version) == sdk_version_of(f.sdk)
    &&& opt_string(d.pack_path) == (match pack {
        Some(p) => Some(p.path@),
        None => None,
    })
    &&& opt_string(d.pack_name) == (match pack {
        Some(p) => Some(p.name@),
        None => None,
    })
    &&& opt_string(d.pack_version) == (match pack {
        Some(p) => Some(p.version@),
        None => None,
    })
    &&& d.pack_installed == (pack matches Some(p) && p.installed)
    &&& opt_string(d.pack_download_url) == (match pack {
        Some(p) => Some(pack_download_url_spec(p.name@)),
        None => if i.kind == ProjectKind::Ccs {
            Some(pack_search_url_spec(i.device@))
        } else {
            None
        },
    })
    &&& opt_string(d.ccs_path) == opt_grandparent(f.ccs)
    &&& opt_string(d.ccs_executable) == opt_string(f.ccs)
    &&& opt_string(d.keil_path) == opt_grandparent(f.keil)
    &&& opt_string(d.keil_executable) == opt_string(f.keil)
    &&& opt_string(d.sysconfig_path) == opt_string(f.sysconfig)
    &&& opt_string(d.sysconfig_executable) == opt_nw(f.sysconfig)
    &&& string_views(d.warnings@) == environment_warnings(i.kind, i.device@, f)
}

fn copy_opt(s: &Option<String>) -> (r: Option<String>)
    ensures
        opt_string(r) == opt_string(*s),
{
    match s {
        Some(x) => Some(x.clone()),
        None => None,
    }
}

fn opt_root(s: &Option<String>) -> (r: Option<String>)
    ensures
        opt_string(r) == opt_grandparent(*s),
{
    match s {
        Some(x) => grandparent(x.as_str()),
        None => None,
    }
}

fn opt_nw_executable(s: &Option<String>) -> (r: Option<String>)
    ensures
        opt_string(r) == opt_nw(*s),
{
    match s {
        Some(x) => Some(string_of(&sysconfig_nw_executable(&chars_of(x.as_str())))),
        None => None,
    }
}

fn push_text(v: &mut Vec<String>, t: Vec<char>)
    ensures
        string_views(final(v)@) == string_views(old(v)@).push(t@),
{
    let ghost before = old(v)@;
    v.push(string_of(&t));
    assert(string_views(v@) =~= string_views(before).push(t@));
}

/// The environment for a project: the search depth is checked first, then
/// the project's inspection; `found` holds what was located on this machine.
pub fn discover_environment(
    request: &EnvironmentRequest,
    inspection: Result<ProjectInspection, String>,
    found: &EnvironmentFindings,
) -> (r: Result<EnvironmentDiscovery, String>)
    ensures
        match r {
            Err(e) => (request.search_depth > 4 && e@ == depth_error()) || (request.search_depth <= 4 && (
            inspection matches Err(x) && e@ == x@)),
            Ok(d) => request.search_depth <= 4 && (inspection matches Ok(i) && environment_matches(d, i, *found)),
        },
{
    if request.search_depth > 4 {
        return Err(depth_error_message());
    }
    let inspection = match inspection {
        Ok(i) => i,
        Err(e) => return Err(e),
    };
    let is_ccs = inspection.kind == ProjectKind::Ccs;
    let mut warnings: Vec<String> = Vec::new();
    let ghost kind = inspection.kind;
    let ghost device = inspection.device@;
    let ghost f = *found;
    assert(string_views(warnings@) =~= seq![]);
    if found.sdk.is_none() {
        push_text(&mut warnings, chars_of("未找到 MSPM0 SDK；转换前需要手动选择"));
    }
    let ghost w1 = string_views(warnings@);
    if found.ccs.is_none() {
        if is_ccs {
            push_text(&mut warnings, chars_of("未找到 CCS；仍可转换，但不能执行源工程构建验证"));
        } else {
            push_text(&mut warnings, chars_of("未找到 CCS；仍可生成目标工程，但不能执行目标构建验证"));
        }
    }
    let ghost w2 = string_views(warnings@);
    if found.keil.is_none() {
        if inspection.kind == ProjectKind::Keil {
            push_text(&mut warnings, chars_of("未找到 Keil；仍可转换，但不能执行源工程构建验证"));
        } else {
            push_text(&mut warnings, chars_of("未找到 Keil；仍可生成目标工程，但不能执行目标构建验证"));
        }
    }
    let ghost w3 = string_views(warnings@);
    if is_ccs && found.pack.is_none() {
        let mut m = chars_of("未找到支持 ");
        append_chars(&mut m, &chars_of(inspection.device.as_str()));
        append_chars(&mut m, &chars_of(" 的 Pack；请从 Keil 官网下载后手动选择"));
        push_text(&mut warnings, m);
    }
    let ghost w4 = string_views(warnings@);
    if found.sysconfig.is_none() {
        push_text(&mut warnings, chars_of("未找到 SysConfig；已有生成文件不受影响，但无法一键配置 Keil SysConfig"));
    }
    proof {
        let e = environment_warnings(kind, device, f);
        assert(string_views(warnings@) =~= e);
    }
    let (pack_path, pack_name, pack_version, pack_installed, pack_url) = match &found.pack {
        Some(p) if is_ccs => (
            Some(p.path.clone()),
            Some(p.name.clone()),
            Some(p.version.clone()),
            p.installed,
            Some(string_of(&pack_download_url(&chars_of(p.name.as_str())))),
        ),
        _ => (
            None,
            None,
            None,
            false,
            if is_ccs {
                Some(string_of(&pack_search_url(&chars_of(inspection.device.as_str()))))
            } else {
                None
            },
        ),
    };
    let (sdk_path, sdk_version) = match &found.sdk {
        Some(s) => (Some(s.path.clone()), Some(s.version.clone())),
        None => (None, None),
    };
    Ok(EnvironmentDiscovery {
        project_kind: inspection.kind,
        device: inspection.device,
        sdk_path,
        sdk_version,
        pack_path,
        pack_name,
        pack_version,
        pack_installed,
        pack_download_url: pack_url,
        ccs_path: opt_root(&found.ccs),
        ccs_executable: copy_opt(&found.ccs),
        keil_path: opt_root(&found.keil),
        keil_executable: copy_opt(&found.keil),
        sysconfig_path: copy_opt(&found.sysconfig),
        sysconfig_executable: opt_nw_executable(&found.sysconfig),
        warnings,
    })
}

/// What was found on this machine for configuring Keil's SysConfig entry.
pub struct KeilFindings {
    pub sdk: Option<SdkFound>,
    pub keil: Option<String>,
    pub sysconfig: Option<String>,
}

pub open spec fn keil_environment_warnings(f: KeilFindings) -> Seq<Seq<char>> {
    let sdk = if f.sdk is None {
        seq!["未找到 MSPM0 SDK；一键配置前需要手动选择"@]
    } else {
        seq![]
    };
    let keil = if f.keil is None {
        seq!["未找到 Keil；一键配置前需要手动选择"@]
    } else {
        seq![]
    };
    let sysconfig = if f.sysconfig is None {
        seq!["未找到带图形界面的 SysConfig（需包含 nw/nw.exe）；一键配置前需要手动选择或独立安装"@]
    } else {
        seq![]
    };
    sdk + keil + sysconfig
}

pub open spec fn keil_environment_matches(d: KeilEnvironmentDiscovery, f: KeilFindings) -> bool {
    &&& opt_string(d.sdk_path) == sdk_path_of(f.sdk)
    &&& opt_string(d.sdk_version) == sdk_version_of(f.sdk)
    &&& opt_string(d.keil_path) == opt_grandparent(f.keil)
    &&& opt_string(d.keil_executable) == opt_string(f.keil)
    &&& opt_string(d.sysconfig_path) == opt_string(f.sysconfig)
    &&& opt_string(d.sysconfig_executable) == opt_nw(f.sysconfig)
    &&& string_views(d.warnings@) == keil_environment_warnings(f)
}

/// The environment for configuring Keil's SysConfig entry, without a
/// project; the search depth is checked first.
pub fn discover_keil_environment(request: &KeilEnvironmentRequest, found: &KeilFindings) -> (r: Result<
    KeilEnvironmentDiscovery,
    String,
>)
    ensures
        match r {
            Err(e) => request.search_depth > 4 && e@ == depth_error(),
            Ok(d) => request.search_depth <= 4 && keil_environment_matches(d, *found),
        },
{
    if request.search_depth > 4 {
        return Err(depth_error_message());
    }
    let mut warnings: Vec<String> = Vec::new();
    assert(string_views(warnings@) =~= seq![]);
    if found.sdk.is_none() {
        push_text(&mut warnings, chars_of("未找到 MSPM0 SDK；一键配置前需要手动选择"));
    }
    if found.keil.is_none() {
        push_text(&mut warnings, chars_of("未找到 Keil；一键配置前需要手动选择"));
    }
    if found.sysconfig.is_none() {
        push_text(&mut warnings, chars_of("未找到带图形界面的 SysConfig（需包含 nw/nw.exe）；一键配置前需要手动选择或独立安装"));
    }
    assert(string_views(warnings@) =~= keil_environment_warnings(*found));
    let (sdk_path, sdk_version) = match &found.sdk {
        Some(s) => (Some(s.path.clone()), Some(s.version.clone())),
        None => (None, None),
    };
    Ok(KeilEnvironmentDiscovery {
        sdk_path,
        sdk_version,
        keil_path: opt_root(&found.keil),
        keil_executable: copy_opt(&found.keil),
        sysconfig_path: copy_opt(&found.sysconfig),
        sysconfig_executable: opt_nw_executable(&found.sysconfig),
        warnings,
    })
}

/// Checks the SDK and pack, then locates both tools: the SDK's version
/// (`sdk`, from `validate_sdk`) and the pack's description (`pack`, from
/// `validate_pack`) must be valid, then the depth, CCS and Keil are checked
/// in that order.
pub fn validate_development_resources(
    sdk: Result<String, String>,
    pack: Result<(String, String, Vec<String>), String>,
    ccs: &ToolProbe,
    keil: &ToolProbe,
    search_depth: u8,
) -> (r: Result<ValidatedResources, String>)
    ensures
        match r {
            Ok(v) => match (sdk, pack) {
                (Ok(sv), Ok((n, pv, d))) => v.sdk_version@ == sv@ && v.pack_name@ == n@ && v.pack_version@ == pv@
                    && v.devices@ == d@ && locate_toolchains_spec(*ccs, *keil, search_depth) == Ok::<
                    (Seq<char>, Seq<char>),
                    Seq<char>,
                >((v.ccs_executable@, v.keil_executable@)),
                _ => false,
            },
            Err(e) => match (sdk, pack) {
                (Err(x), _) => e@ == x@,
                (Ok(_), Err(x)) => e@ == x@,
                (Ok(_), Ok(_)) => locate_toolchains_spec(*ccs, *keil, search_depth) == Err::<
                    (Seq<char>, Seq<char>),
                    Seq<char>,
                >(e@),
            },
        },
{
    let resources: ResourceInfo = crate::pack::validate_resources(sdk, pack)?;
    let (c, k) = locate_toolchains(ccs, keil, search_depth)?;
    Ok(ValidatedResources {
        sdk_version: resources.sdk_version,
        pack_name: resources.pack_name,
        pack_version: resources.pack_version,
        devices: resources.devices,
        ccs_executable: c,
        keil_executable: k,
    })
}

} // verus!
