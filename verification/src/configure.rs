//! Putting SysConfig into Keil µVision's Tools menu: the launch command,
//! the registry values of the chosen slot, and the SDK's launcher files.
use vstd::prelude::*;
use crate::discovery::opt_string;
use crate::model::{KeilSysConfigRequest, KeilSysConfigResult};
use crate::number::{decimal_text, u8_decimal};
use crate::registry::{choose_keil_tool_slot, keil_tool_slot};
use crate::sysconfig::{nw_executable_spec, render_keil_sysconfig_files, rendered_sysconfig_files, sysconfig_nw_executable};
use crate::text::{append_chars, chars_equal, chars_of, string_of, string_views};
use crate::tools::{depth_error, depth_error_message};
use crate::winpath::{file_name_of, file_name_spec, path_join_spec, path_join_str, path_parent, path_parent_spec};

verus! {

/// The Tools menu entry to install, worked out from the request.
pub struct KeilSysConfigPlan {
    /// The SDK directory, which the tool starts in.
    pub sdk_path: String,
    pub sdk_version: String,
    /// The SysConfig installation's root.
    pub sysconfig: String,
    /// SysConfig's graphical front end, `nw\nw.exe` under the root.
    pub executable: String,
    /// The command line Keil runs: the front end and the root, quoted.
    pub command: String,
    pub arguments: String,
    pub title: String,
}

pub open spec fn tool_arguments() -> Seq<char> {
    "--compiler keil -s \".metadata\\product.json\" \"#E\""@
}

pub open spec fn tool_command(sysconfig: Seq<char>) -> Seq<char> {
    "\""@ + nw_executable_spec(sysconfig) + "\" \""@ + sysconfig + "\""@
}

pub open spec fn tool_title(sdk_version: Seq<char>) -> Seq<char> {
    "TI工具箱 SysConfig - SDK "@ + sdk_version
}

pub open spec fn sysconfig_missing() -> Seq<char> {
    "SysConfig 路径无效：未找到 nw/nw.exe"@
}

/// The plan for `request`, or the first reason against it: the search
/// depth, the SDK (`sdk_version`, from `validate_sdk`), Keil (`uv4`, from
/// `locate_uv4`), then SysConfig (`sysconfig`, from
/// `normalize_sysconfig_path`).
pub open spec fn plan_spec(
    request: KeilSysConfigRequest,
    sdk_version: Result<String, String>,
    uv4: Result<String, String>,
    sysconfig: Option<String>,
) -> Result<(Seq<char>, Seq<char>), Seq<char>> {
    if request.search_depth > 4 {
        Err(depth_error())
    } else {
        match sdk_version {
            Err(e) => Err(e@),
            Ok(v) => match uv4 {
                Err(e) => Err(e@),
                Ok(_) => match sysconfig {
                    None => Err(sysconfig_missing()),
                    Some(s) => Ok((v@, s@)),
                },
            },
        }
    }
}

pub open spec fn plan_matches(p: KeilSysConfigPlan, sdk_path: Seq<char>, sdk_version: Seq<char>, sysconfig: Seq<char>) -> bool {
    &&& p.sdk_path@ == sdk_path
    &&& p.sdk_version@ == sdk_version
    &&& p.sysconfig@ == sysconfig
    &&& p.executable@ == nw_executable_spec(sysconfig)
    &&& p.command@ == tool_command(sysconfig)
    &&& p.arguments@ == tool_arguments()
    &&& p.title@ == tool_title(sdk_version)
}

/// Works out the Tools menu entry for `request` (see `plan_spec`).
pub fn keil_sysconfig_plan(
    request: &KeilSysConfigRequest,
    sdk_version: Result<String, String>,
    uv4: Result<String, String>,
    sysconfig: Option<String>,
) -> (r: Result<KeilSysConfigPlan, String>)
    ensures
        match r {
            Ok(p) => plan_spec(*request, sdk_version, uv4, sysconfig) matches Ok((v, s)) && plan_matches(
                p,
                request.sdk_path@,
                v,
                s,
            ),
            Err(e) => plan_spec(*request, sdk_version, uv4, sysconfig) == Err::<(Seq<char>, Seq<char>), Seq<char>>(e@),
        },
{
    if request.search_depth > 4 {
        return Err(depth_error_message());
    }
    let version = sdk_version?;
    uv4?;
    let root = match sysconfig {
        Some(s) => s,
        None => return Err(string_of(&chars_of("SysConfig 路径无效：未找到 nw/nw.exe"))),
    };
    let root_chars = chars_of(root.as_str());
    let exe = sysconfig_nw_executable(&root_chars);
    let mut command = chars_of("\"");
    append_chars(&mut command, &exe);
    append_chars(&mut command, &chars_of("\" \""));
    append_chars(&mut command, &root_chars);
    append_chars(&mut command, &chars_of("\""));
    let mut title = chars_of("TI工具箱 SysConfig - SDK ");
    append_chars(&mut title, &chars_of(version.as_str()));
    Ok(KeilSysConfigPlan {
        sdk_path: request.sdk_path.clone(),
        sdk_version: version,
        sysconfig: root,
        executable: string_of(&exe),
        command: string_of(&command),
        arguments: string_of(&chars_of("--compiler keil -s \".metadata\\product.json\" \"#E\"")),
        title: string_of(&title),
    })
}

// ---------------------------------------------------------------------------
// The registry
// ---------------------------------------------------------------------------

/// The registry keys tried for Keil's user settings, in order; the Tools
/// menu lives in the `ToolM` subkey of the first that exists.
pub open spec fn keil_settings_keys_spec() -> Seq<Seq<char>> {
    seq!["HKCU\\Software\\Keil\\礦ision5"@, "HKCU\\Software\\Keil\\µVision5"@, "HKCU\\Software\\Keil\\UVision5"@]
}

pub fn keil_settings_keys() -> (r: Vec<String>)
    ensures
        string_views(r@) == keil_settings_keys_spec(),
{
    let r = vec![
        string_of(&chars_of("HKCU\\Software\\Keil\\礦ision5")),
        string_of(&chars_of("HKCU\\Software\\Keil\\µVision5")),
        string_of(&chars_of("HKCU\\Software\\Keil\\UVision5")),
    ];
    assert(string_views(r@) =~= keil_settings_keys_spec());
    r
}

pub open spec fn tool_menu_key_spec(settings: Seq<char>) -> Seq<char> {
    settings + "\\ToolM"@
}

/// The Tools menu key under a Keil settings key.
pub fn tool_menu_key(settings: &str) -> (r: String)
    ensures
        r@ == tool_menu_key_spec(settings@),
{
    let mut k = chars_of(settings);
    append_chars(&mut k, &chars_of("\\ToolM"));
    string_of(&k)
}

pub open spec fn no_keil_settings() -> Seq<char> {
    "未找到 Keil 用户配置；请先启动一次 Keil µVision，再重新执行一键配置"@
}

pub open spec fn no_free_slot() -> Seq<char> {
    "Keil Tools 菜单没有可用配置槽位"@
}

/// The slot for the plan's command, from the Tools menu key (`None` when
/// Keil's settings were not found) and what querying it gave (not looked at
/// without a key): `(slot, true)` when an equivalent entry already exists.
pub open spec fn tool_slot_spec(
    command: Seq<char>,
    menu_key: Option<String>,
    registry: Result<String, String>,
) -> Result<(u8, bool), Seq<char>> {
    match menu_key {
        None => Err(no_keil_settings()),
        Some(_) => match registry {
            Err(e) => Err(e@),
            Ok(text) => match keil_tool_slot(text@, command) {
                None => Err(no_free_slot()),
                Some(s) => Ok(s),
            },
        },
    }
}

pub fn keil_tool_slot_for(
    plan: &KeilSysConfigPlan,
    menu_key: &Option<String>,
    registry: &Result<String, String>,
) -> (r: Result<(u8, bool), String>)
    ensures
        match r {
            Ok(s) => tool_slot_spec(plan.command@, *menu_key, *registry) == Ok::<(u8, bool), Seq<char>>(s),
            Err(e) => tool_slot_spec(plan.command@, *menu_key, *registry) == Err::<(u8, bool), Seq<char>>(e@),
        },
{
    if menu_key.is_none() {
        return Err(string_of(&chars_of("未找到 Keil 用户配置；请先启动一次 Keil µVision，再重新执行一键配置")));
    }
    match registry {
        Err(e) => Err(e.clone()),
        Ok(text) => match choose_keil_tool_slot(text.as_str(), plan.command.as_str()) {
            None => Err(string_of(&chars_of("Keil Tools 菜单没有可用配置槽位"))),
            Some(s) => Ok(s),
        },
    }
}

/// A value to write under the Tools menu key.
pub struct RegistryWrite {
    pub name: String,
    pub kind: String,
    pub value: String,
}

pub open spec fn write_view(w: RegistryWrite) -> (Seq<char>, Seq<char>, Seq<char>) {
    (w.name@, w.kind@, w.value@)
}

pub open spec fn writes_view(ws: Seq<RegistryWrite>) -> Seq<(Seq<char>, Seq<char>, Seq<char>)> {
    ws.map_values(|w: RegistryWrite| write_view(w))
}

/// The values of a Tools menu entry in `slot`, in the order written:
/// flags, start folder, command, arguments, title.
pub open spec fn entry_writes(p: KeilSysConfigPlan, slot: u8) -> Seq<(Seq<char>, Seq<char>, Seq<char>)> {
    let n = decimal_text(slot as nat);
    seq![
        ("Mfg"@ + n, "REG_DWORD"@, "2304"@),
        ("Mid"@ + n, "REG_SZ"@, p.sdk_path@),
        ("Mex"@ + n, "REG_SZ"@, p.command@),
        ("Mag"@ + n, "REG_SZ"@, p.arguments@),
        ("Mtx"@ + n, "REG_SZ"@, p.title@),
    ]
}

pub open spec fn equivalent_title() -> Seq<char> {
    "已存在等效 SysConfig 工具"@
}

fn write_for(prefix: &str, slot: u8, kind: &str, value: &String) -> (w: RegistryWrite)
    ensures
        write_view(w) == (prefix@ + decimal_text(slot as nat), kind@, value@),
{
    let mut name = chars_of(prefix);
    append_chars(&mut name, &u8_decimal(slot));
    RegistryWrite { name: string_of(&name), kind: string_of(&chars_of(kind)), value: value.clone() }
}

/// The outcome of configuring the Tools menu: with an equivalent entry in
/// `slot` nothing is written and the result says so (changed only if the
/// SDK's launcher files were updated); otherwise the entry's five values
/// are written to `slot`.
pub fn configure_keil_sysconfig(
    plan: &KeilSysConfigPlan,
    slot: u8,
    equivalent: bool,
    updated_files: Vec<String>,
    backup_files: Vec<String>,
) -> (r: (KeilSysConfigResult, Vec<RegistryWrite>))
    ensures
        r.0.slot == slot,
        r.0.executable@ == plan.executable@,
        r.0.working_directory@ == plan.sdk_path@,
        r.0.arguments@ == plan.arguments@,
        r.0.updated_files@ == updated_files@,
        r.0.backup_files@ == backup_files@,
        equivalent ==> r.0.changed == (updated_files.len() > 0) && r.0.title@ == equivalent_title() && r.1.len()
            == 0,
        !equivalent ==> r.0.changed && r.0.title@ == plan.title@ && writes_view(r.1@) == entry_writes(*plan, slot),
{
    if equivalent {
        let changed = updated_files.len() > 0;
        return (
            KeilSysConfigResult {
                changed,
                slot,
                title: string_of(&chars_of("已存在等效 SysConfig 工具")),
                executable: plan.executable.clone(),
                working_directory: plan.sdk_path.clone(),
                arguments: plan.arguments.clone(),
                updated_files,
                backup_files,
            },
            Vec::new(),
        );
    }
    let writes = vec![
        write_for("Mfg", slot, "REG_DWORD", &string_of(&chars_of("2304"))),
        write_for("Mid", slot, "REG_SZ", &plan.sdk_path),
        write_for("Mex", slot, "REG_SZ", &plan.command),
        write_for("Mag", slot, "REG_SZ", &plan.arguments),
        write_for("Mtx", slot, "REG_SZ", &plan.title),
    ];
    assert(writes_view(writes@) =~= entry_writes(*plan, slot));
    (
        KeilSysConfigResult {
            changed: true,
            slot,
            title: plan.title.clone(),
            executable: plan.executable.clone(),
            working_directory: plan.sdk_path.clone(),
            arguments: plan.arguments.clone(),
            updated_files,
            backup_files,
        },
        writes,
    )
}

// ---------------------------------------------------------------------------
// The SDK's launcher files
// ---------------------------------------------------------------------------

pub open spec fn keil_tools_dir(sdk: Seq<char>) -> Seq<char> {
    path_join_spec(path_join_spec(sdk, "tools"@), "keil"@)
}

pub open spec fn launcher_paths_spec(sdk: Seq<char>) -> (Seq<char>, Seq<char>) {
    (
        path_join_spec(keil_tools_dir(sdk), "syscfg.bat"@),
        path_join_spec(keil_tools_dir(sdk), "MSPM0_SDK_syscfg_menu_import.cfg"@),
    )
}

/// The SDK's `syscfg.bat` and its Tools menu import file.
pub fn launcher_paths(sdk: &str) -> (r: (String, String))
    ensures
        (r.0@, r.1@) == launcher_paths_spec(sdk@),
{
    let dir = path_join_str(&path_join_str(&chars_of(sdk), "tools"), "keil");
    (
        string_of(&path_join_str(&dir, "syscfg.bat")),
        string_of(&path_join_str(&dir, "MSPM0_SDK_syscfg_menu_import.cfg")),
    )
}

/// Where the original of a launcher file is kept: beside it, with
/// `.ti-toolbox.bak` added to its name (`config` standing for a path with
/// no file name).
pub open spec fn backup_path_spec(path: Seq<char>) -> Seq<char> {
    let name = match file_name_spec(path) {
        Some(n) => n,
        None => "config"@,
    } + ".ti-toolbox.bak"@;
    match path_parent_spec(path) {
        Some(dir) => path_join_spec(dir, name),
        None => name,
    }
}

pub fn backup_path(path: &str) -> (r: String)
    ensures
        r@ == backup_path_spec(path@),
{
    let p = chars_of(path);
    let mut name = match file_name_of(&p) {
        Some(n) => n,
        None => chars_of("config"),
    };
    append_chars(&mut name, &chars_of(".ti-toolbox.bak"));
    match path_parent(&p) {
        Some(dir) => string_of(&crate::winpath::path_join(&dir, &name)),
        None => string_of(&name),
    }
}

/// A launcher file to rewrite: its path, new content and backup path.
pub struct FileUpdate {
    pub path: String,
    pub content: String,
    pub backup: String,
}

pub open spec fn update_view(u: FileUpdate) -> (Seq<char>, Seq<char>, Seq<char>) {
    (u.path@, u.content@, u.backup@)
}

pub open spec fn updates_view(us: Seq<FileUpdate>) -> Seq<(Seq<char>, Seq<char>, Seq<char>)> {
    us.map_values(|u: FileUpdate| update_view(u))
}

pub open spec fn changed_update(path: Seq<char>, current: Seq<char>, updated: Seq<char>) -> Seq<
    (Seq<char>, Seq<char>, Seq<char>),
> {
    if current == updated {
        seq![]
    } else {
        seq![(path, updated, backup_path_spec(path))]
    }
}

/// The launcher files that change, in order (`syscfg.bat` first), with
/// their new content; or the first error: a file that could not be read
/// (`bat` and `cfg` are their contents or the read error), or an entry
/// missing from one of them.
pub open spec fn launcher_updates_spec(
    sdk: Seq<char>,
    sdk_version: Seq<char>,
    sysconfig: Seq<char>,
    bat: Result<String, String>,
    cfg: Result<String, String>,
) -> Result<Seq<(Seq<char>, Seq<char>, Seq<char>)>, Seq<char>> {
    match bat {
        Err(e) => Err(e@),
        Ok(b) => match cfg {
            Err(e) => Err(e@),
            Ok(c) => match rendered_sysconfig_files(b@, c@, sdk, sdk_version, sysconfig) {
                Err(e) => Err(e),
                Ok((nb, nc)) => Ok(
                    changed_update(launcher_paths_spec(sdk).0, b@, nb) + changed_update(
                        launcher_paths_spec(sdk).1,
                        c@,
                        nc,
                    ),
                ),
            },
        },
    }
}

fn push_update(v: &mut Vec<FileUpdate>, path: &String, current: &String, updated: String)
    ensures
        updates_view(final(v)@) == updates_view(old(v)@) + changed_update(path@, current@, updated@),
{
    let ghost before = old(v)@;
    if chars_equal(&chars_of(current.as_str()), &chars_of(updated.as_str())) {
        assert(updates_view(v@) =~= updates_view(before) + changed_update(path@, current@, updated@));
        return;
    }
    let backup = backup_path(path.as_str());
    v.push(FileUpdate { path: path.clone(), content: updated, backup });
    assert(updates_view(v@) =~= updates_view(before) + changed_update(path@, current@, updated@));
}

/// The launcher file updates for the plan (see `launcher_updates_spec`).
pub fn launcher_updates(plan: &KeilSysConfigPlan, bat: Result<String, String>, cfg: Result<String, String>) -> (r: Result<
    Vec<FileUpdate>,
    String,
>)
    ensures
        match r {
            Ok(us) => launcher_updates_spec(plan.sdk_path@, plan.sdk_version@, plan.sysconfig@, bat, cfg) == Ok::<
                Seq<(Seq<char>, Seq<char>, Seq<char>)>,
                Seq<char>,
            >(updates_view(us@)),
            Err(e) => launcher_updates_spec(plan.sdk_path@, plan.sdk_version@, plan.sysconfig@, bat, cfg) == Err::<
                Seq<(Seq<char>, Seq<char>, Seq<char>)>,
                Seq<char>,
            >(e@),
        },
{
    let b = match &bat {
        Ok(b) => b,
        Err(e) => return Err(e.clone()),
    };
    let c = match &cfg {
        Ok(c) => c,
        Err(e) => return Err(e.clone()),
    };
    let (nb, nc) = render_keil_sysconfig_files(
        b.as_str(),
        c.as_str(),
        plan.sdk_path.as_str(),
        plan.sdk_version.as_str(),
        plan.sysconfig.as_str(),
    )?;
    let (bat_path, cfg_path) = launcher_paths(plan.sdk_path.as_str());
    let mut r: Vec<FileUpdate> = Vec::new();
    assert(updates_view(r@) =~= seq![]);
    push_update(&mut r, &bat_path, b, nb);
    push_update(&mut r, &cfg_path, c, nc);
    Ok(r)
}

/// A file action for the launcher updates.
pub enum LauncherAction {
    /// Copy the file at the first path to the backup at the second.
    Backup(String, String),
    /// Write the content to the file.
    Write(String, String),
}

pub enum LauncherActionV {
    Backup(Seq<char>, Seq<char>),
    Write(Seq<char>, Seq<char>),
}

pub open spec fn action_view(a: LauncherAction) -> LauncherActionV {
    match a {
        LauncherAction::Backup(f, t) => LauncherActionV::Backup(f@, t@),
        LauncherAction::Write(f, c) => LauncherActionV::Write(f@, c@),
    }
}

pub open spec fn actions_view(v: Seq<LauncherAction>) -> Seq<LauncherActionV> {
    v.map_values(|a: LauncherAction| action_view(a))
}

/// Whether the `k`-th update's backup already exists.
pub open spec fn backed_up(exists: Seq<bool>, k: int) -> bool {
    0 <= k < exists.len() && exists[k]
}

/// The file actions for the updates `us`, in order: for each, a backup of
/// the original first, only when no backup exists yet (so a backup keeps
/// the file as it was before the first change), then the new content.
pub open spec fn launcher_actions_spec(us: Seq<(Seq<char>, Seq<char>, Seq<char>)>, exists: Seq<bool>) -> Seq<LauncherActionV>
    decreases us.len(),
{
    if us.len() == 0 {
        seq![]
    } else {
        let k = us.len() - 1;
        let u = us.last();
        let backup = if backed_up(exists, k) {
            seq![]
        } else {
            seq![LauncherActionV::Backup(u.0, u.2)]
        };
        launcher_actions_spec(us.drop_last(), exists) + backup + seq![LauncherActionV::Write(u.0, u.1)]
    }
}

/// The backups that the updates make: those whose backup does not exist yet.
pub open spec fn new_backups_spec(us: Seq<(Seq<char>, Seq<char>, Seq<char>)>, exists: Seq<bool>) -> Seq<Seq<char>>
    decreases us.len(),
{
    if us.len() == 0 {
        seq![]
    } else if backed_up(exists, us.len() - 1) {
        new_backups_spec(us.drop_last(), exists)
    } else {
        new_backups_spec(us.drop_last(), exists).push(us.last().2)
    }
}

/// The file actions for the launcher updates (see `launcher_actions_spec`),
/// given whether each update's backup already exists; with them, the files
/// updated and the backups made.
pub fn launcher_actions(updates: &Vec<FileUpdate>, backup_exists: &Vec<bool>) -> (r: (
    Vec<LauncherAction>,
    Vec<String>,
    Vec<String>,
))
    ensures
        actions_view(r.0@) == launcher_actions_spec(updates_view(updates@), backup_exists@),
        string_views(r.1@) == updates_view(updates@).map_values(|u: (Seq<char>, Seq<char>, Seq<char>)| u.0),
        string_views(r.2@) == new_backups_spec(updates_view(updates@), backup_exists@),
{
    let ghost uv = updates_view(updates@);
    let mut actions: Vec<LauncherAction> = Vec::new();
    let mut updated: Vec<String> = Vec::new();
    let mut backups: Vec<String> = Vec::new();
    let mut k: usize = 0;
    assert(uv.take(0) =~= seq![]);
    while k < updates.len()
        invariant
            k <= updates.len(),
            uv == updates_view(updates@),
            actions_view(actions@) == launcher_actions_spec(uv.take(k as int), backup_exists@),
            string_views(updated@) == uv.take(k as int).map_values(|u: (Seq<char>, Seq<char>, Seq<char>)| u.0),
            string_views(backups@) == new_backups_spec(uv.take(k as int), backup_exists@),
        decreases updates.len() - k,
    {
        let u = &updates[k];
        let ghost t = uv.take(k + 1);
        assert(t.drop_last() =~= uv.take(k as int));
        assert(t.last() == update_view(*u));
        let exists = k < backup_exists.len() && backup_exists[k];
        assert(exists == backed_up(backup_exists@, t.len() - 1));
        let ghost a0 = actions_view(actions@);
        let ghost b0 = string_views(backups@);
        let ghost d0 = string_views(updated@);
        if !exists {
            actions.push(LauncherAction::Backup(u.path.clone(), u.backup.clone()));
            backups.push(u.backup.clone());
            assert(string_views(backups@) =~= b0.push(u.backup@));
        } else {
            assert(string_views(backups@) =~= b0);
        }
        actions.push(LauncherAction::Write(u.path.clone(), u.content.clone()));
        updated.push(u.path.clone());
        assert(string_views(updated@) =~= d0.push(u.path@));
        assert(t.map_values(|u: (Seq<char>, Seq<char>, Seq<char>)| u.0) =~= uv.take(k as int).map_values(
            |u: (Seq<char>, Seq<char>, Seq<char>)| u.0,
        ).push(u.path@));
        if !exists {
            assert(actions_view(actions@) =~= a0 + seq![LauncherActionV::Backup(u.path@, u.backup@)] + seq![
                LauncherActionV::Write(u.path@, u.content@),
            ]);
        } else {
            assert(actions_view(actions@) =~= a0 + seq![] + seq![LauncherActionV::Write(u.path@, u.content@)]);
        }
        k += 1;
    }
    assert(uv.take(updates.len() as int) =~= uv);
    (actions, updated, backups)
}

} // verus!
