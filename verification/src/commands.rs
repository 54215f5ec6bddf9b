//! The decisions of the launcher commands: which game folder and server they
//! act on, what they answer, and how the game is started.

use vstd::prelude::*;
use vstd::string::*;
use crate::config::{AppConfig, opt_view, server_of_app_id, server_for_app_id, server_app_id, is_server, server_configs};
use crate::json::{Json, str_member, first_member_below};
use crate::launcher::string_object;
use crate::text::{str_eq, concat2, concat3, to_signed_decimal, signed_decimal};

verus! {

/// A copy of an optional string.
fn copy_opt(o: &Option<String>) -> (r: Option<String>)
    ensures
        opt_view(r) == opt_view(*o),
{
    match o {
        Some(s) => Some(s.clone()),
        None => None,
    }
}

/// The game folder a command acts on, and the configuration to save when the
/// remembered folder changes.
#[derive(Debug)]
pub struct PathChoice {
    pub path: String,
    pub save: Option<AppConfig>,
}

/// The message when no game folder is given or remembered.
pub open spec fn no_path_message() -> Seq<char> {
    "未设置游戏路径。请在设置中配置或传入 path 参数。"@
}

/// The game folder a command acts on: the folder given (already made
/// absolute when possible), which is then remembered; or else the remembered
/// one.
pub open spec fn resolve_spec(
    given: Option<Seq<char>>,
    cfg: (Option<Seq<char>>, Option<Seq<char>>, Option<Seq<char>>),
) -> Result<(Seq<char>, Option<(Option<Seq<char>>, Option<Seq<char>>, Option<Seq<char>>)>), Seq<char>> {
    match given {
        Some(p) => if cfg.0 == Some(p) {
            Ok((p, None))
        } else {
            Ok((p, Some((Some(p), cfg.1, cfg.2))))
        },
        None => match cfg.0 {
            Some(d) => Ok((d, None)),
            None => Err(no_path_message()),
        },
    }
}

pub open spec fn choice_view(r: Result<PathChoice, String>) -> Result<(Seq<char>, Option<(Option<Seq<char>>, Option<Seq<char>>, Option<Seq<char>>)>), Seq<char>> {
    match r {
        Ok(c) => Ok((c.path@, match c.save { Some(s) => Some(s@), None => None })),
        Err(m) => Err(m@),
    }
}

/// The game folder a command acts on. `given` is the folder passed to the
/// command, made absolute when the file system allows it; `cfg` is the saved
/// application configuration.
pub fn resolve_game_path(given: Option<String>, cfg: &AppConfig) -> (r: Result<PathChoice, String>)
    ensures
        choice_view(r) == resolve_spec(opt_view(given), cfg@),
{
    match given {
        Some(p) => {
            let same = match &cfg.default_path {
                Some(d) => str_eq(d.as_str(), p.as_str()),
                None => false,
            };
            if same {
                Ok(PathChoice { path: p, save: None })
            } else {
                let updated = AppConfig {
                    default_path: Some(p.clone()),
                    latest_available_version: copy_opt(&cfg.latest_available_version),
                    dx_mode: copy_opt(&cfg.dx_mode),
                };
                Ok(PathChoice { path: p, save: Some(updated) })
            }
        },
        None => match &cfg.default_path {
            Some(d) => Ok(PathChoice { path: d.clone(), save: None }),
            None => Err("未设置游戏路径。请在设置中配置或传入 path 参数。".to_owned()),
        },
    }
}

/// A folder given to one command is the folder a later command without a
/// folder acts on, once the configuration it asked to save is saved.
pub proof fn lemma_resolved_path_remembered(
    p: Seq<char>,
    cfg: (Option<Seq<char>>, Option<Seq<char>>, Option<Seq<char>>),
)
    ensures
        resolve_spec(Some(p), cfg) matches Ok((q, save)) && q == p && resolve_spec(
            None,
            match save { Some(c) => c, None => cfg },
        ) == Ok::<(Seq<char>, Option<(Option<Seq<char>>, Option<Seq<char>>, Option<Seq<char>>)>), Seq<char>>((p, None)),
{
}

/// The servers a command accepts.
pub open spec fn valid_server(server: Seq<char>) -> bool {
    server == "cn"@ || server == "global"@ || server == "bilibili"@
}

/// Checks that `server` is one of the servers; otherwise the message naming
/// it and the servers to choose from.
pub fn validate_server(server: &str) -> (r: Result<(), String>)
    ensures
        match r {
            Ok(()) => valid_server(server@),
            Err(m) => !valid_server(server@) && m@ == "无效的服务器类型: "@ + server@ + "。可选: cn, global, bilibili"@,
        },
{
    if str_eq(server, "cn") || str_eq(server, "global") || str_eq(server, "bilibili") {
        Ok(())
    } else {
        Err(concat3("无效的服务器类型: ", server, "。可选: cn, global, bilibili"))
    }
}

/// The servers a command accepts are the servers with a configuration.
pub proof fn lemma_valid_servers_configured(server: Seq<char>)
    ensures
        valid_server(server) <==> is_server(server),
{
}

/// The server of an installed client: the one whose application id the local
/// configuration file records, `cn` when the file is absent or unreadable or
/// names no known application.
pub open spec fn detect_spec(local: Option<Json>) -> Seq<char> {
    match local {
        Some(j) => match str_member(j, "appId"@) {
            Some(id) => match server_of_app_id(id) {
                Some(s) => s,
                None => "cn"@,
            },
            None => "cn"@,
        },
        None => "cn"@,
    }
}

/// The server of an installed client, from its local configuration file when
/// it could be read.
pub fn detect_server(local: Option<&Json>) -> (r: String)
    ensures
        r@ == detect_spec(match local { Some(j) => Some(*j), None => None }),
{
    match local {
        Some(j) => match j.str_member("appId") {
            Some(id) => match server_for_app_id(id.as_str()) {
                Some(s) => s,
                None => "cn".to_owned(),
            },
            None => "cn".to_owned(),
        },
        None => "cn".to_owned(),
    }
}

/// The local configuration file written for a server is read back as that
/// server.
pub proof fn lemma_local_config_detects_server(server: Seq<char>, version: Seq<char>, doc: Json)
    requires
        is_server(server),
        string_object(seq![("appId"@, server_app_id(server)->0), ("group"@, "default"@), ("version"@, version)], doc),
    ensures
        detect_spec(Some(doc)) == server,
{
    crate::config::lemma_app_id_round_trip(server);
    match doc {
        Json::Object(m) => {
            assert(m@[0].0@ == "appId"@);
            assert(first_member_below(m@, "appId"@, 0) == -1);
            assert(first_member_below(m@, "appId"@, 1) == 0);
            assert(first_member_below(m@, "appId"@, 2) == 0);
            assert(first_member_below(m@, "appId"@, 3) == 0);
        },
        _ => {},
    }
}

/// What the status command reports of an installed client.
#[derive(Debug)]
pub struct GameStatus {
    pub server: String,
    pub version: String,
    pub app_id: String,
}

/// The status of an installed client with local configuration `local`: its
/// application id (or empty), the server of that id (or `未知`), and its
/// version (or `未知`).
pub fn status_of(local: &Json) -> (r: GameStatus)
    ensures
        r.app_id@ == crate::launcher::or_else(str_member(*local, "appId"@), Seq::empty()),
        r.server@ == crate::launcher::or_else(server_of_app_id(r.app_id@), "未知"@),
        r.version@ == crate::launcher::or_else(str_member(*local, "version"@), "未知"@),
{
    let app_id = match local.str_member("appId") {
        Some(a) => a,
        None => String::new(),
    };
    let server = match server_for_app_id(app_id.as_str()) {
        Some(s) => s,
        None => "未知".to_owned(),
    };
    let version = match local.str_member("version") {
        Some(v) => v,
        None => "未知".to_owned(),
    };
    GameStatus { server, version, app_id }
}

/// The game executable, relative to the game folder.
pub const GAME_EXE: &'static str = "Client/Binaries/Win64/Client-Win64-Shipping.exe";

/// The path of the game executable in the game folder `folder`.
pub fn game_exe_path(style: crate::paths::PathStyle, folder: &str) -> (r: String)
    ensures
        r@ == crate::paths::join_spec(style, folder@, GAME_EXE@),
{
    crate::paths::join(style, folder, GAME_EXE)
}

/// The command-line argument that selects the rendering mode: `-dx11` for
/// `dx11`, `-dx12` for `dx12`, none otherwise.
pub fn launch_argument(dx_mode: Option<&str>) -> (r: String)
    ensures
        r@ == match dx_mode {
            Some(m) => if m@ == "dx11"@ { "-dx11"@ } else if m@ == "dx12"@ { "-dx12"@ } else { Seq::empty() },
            None => Seq::empty(),
        },
{
    match dx_mode {
        Some(m) => if str_eq(m, "dx11") {
            "-dx11".to_owned()
        } else if str_eq(m, "dx12") {
            "-dx12".to_owned()
        } else {
            String::new()
        },
        None => String::new(),
    }
}

/// The configuration `cfg` with the rendering mode `mode` remembered.
pub fn with_dx_mode(cfg: &AppConfig, mode: &str) -> (r: AppConfig)
    ensures
        r@ == (cfg@.0, cfg@.1, Some(mode@)),
{
    AppConfig {
        default_path: copy_opt(&cfg.default_path),
        latest_available_version: copy_opt(&cfg.latest_available_version),
        dx_mode: Some(mode.to_owned()),
    }
}

/// The servers and their application ids, as the server list command lists them.
pub fn server_list() -> (r: Vec<(String, String)>)
    ensures
        r@.len() == 3,
        forall|i: int| 0 <= i < 3 ==> #[trigger] r@[i].0@ == crate::config::server_keys()[i]
            && server_app_id(crate::config::server_keys()[i]) == Some(r@[i].1@),
{
    let table = server_configs();
    let mut r: Vec<(String, String)> = Vec::new();
    let mut i: usize = 0;
    while i < table.len()
        invariant
            table@.len() == 3,
            forall|k: int| 0 <= k < 3 ==> #[trigger] table@[k].0@ == crate::config::server_keys()[k]
                && crate::config::is_server_config(crate::config::server_keys()[k], table@[k].1@),
            i <= 3,
            r@.len() == i,
            forall|k: int| 0 <= k < i ==> #[trigger] r@[k].0@ == crate::config::server_keys()[k]
                && server_app_id(crate::config::server_keys()[k]) == Some(r@[k].1@),
        decreases 3 - i,
    {
        let ghost before = r@;
        r.push((table[i].0.clone(), table[i].1.app_id.clone()));
        proof {
            assert(table@[i as int].0@ == crate::config::server_keys()[i as int]);
            assert forall|k: int| 0 <= k < i + 1 implies #[trigger] r@[k].0@ == crate::config::server_keys()[k]
                && server_app_id(crate::config::server_keys()[k]) == Some(r@[k].1@) by {
                if k < i {
                    assert(r@[k] == before[k]);
                }
            }
        }
        i = i + 1;
    }
    r
}

/// The answer of the download command for `server`.
pub fn download_done_message(server: &str) -> (r: String)
    ensures
        r@ == server@ + " 服下载完成"@,
{
    concat2(server, " 服下载完成")
}

/// The answer of the switch command for `server`.
pub fn checkout_done_message(server: &str) -> (r: String)
    ensures
        r@ == "已切换到 "@ + server@ + " 服"@,
{
    concat3("已切换到 ", server, " 服")
}

/// What launching the game answers, given the code the system returned for
/// the start request: a code above 32 means it started.
pub fn launch_outcome(code: i64) -> (r: Result<(), String>)
    ensures
        match r {
            Ok(()) => code > 32,
            Err(m) => code <= 32 && m@ == "无法启动游戏: 错误代码 "@ + signed_decimal(code as int),
        },
{
    if code > 32 {
        Ok(())
    } else {
        let d = to_signed_decimal(code);
        Err(concat2("无法启动游戏: 错误代码 ", d.as_str()))
    }
}

/// The answer when the game's executable is not at `exe_path`.
pub fn missing_exe_message(exe_path: &str) -> (r: String)
    ensures
        r@ == "找不到游戏可执行文件: "@ + exe_path@,
{
    concat2("找不到游戏可执行文件: ", exe_path)
}

} // verus!
