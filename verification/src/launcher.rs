//! What the manager reads from the launcher information, the local
//! configuration file and the pre-download marker, and the decisions taken
//! on them.

use vstd::prelude::*;
use vstd::string::*;
use crate::error::{WwError, ErrorKind, network_error, config_error, generic_error};
use crate::json::{Json, member, str_member};
use crate::downloads::{res_base, res_base_spec};
use crate::urls::{resolve_url, url_join_of};
use crate::text::{str_eq, str_less, lex_less};
use crate::config::opt_view;

verus! {

/// The text of the string member at `path` of `j`, following members in turn.
pub open spec fn str_at2(j: Json, a: Seq<char>, b: Seq<char>) -> Option<Seq<char>> {
    match member(j, a) {
        Some(x) => str_member(x, b),
        None => None,
    }
}

/// The string found at `a.b.c` in `j`.
pub open spec fn str_at3(j: Json, a: Seq<char>, b: Seq<char>, c: Seq<char>) -> Option<Seq<char>> {
    match member(j, a) {
        Some(x) => str_at2(x, b, c),
        None => None,
    }
}

/// `o`, or `d` when it is absent.
pub open spec fn or_else(o: Option<Seq<char>>, d: Seq<char>) -> Seq<char> {
    match o {
        Some(s) => s,
        None => d,
    }
}

fn str_at2_exec(j: &Json, a: &str, b: &str) -> (r: Option<String>)
    ensures
        opt_view(r) == str_at2(*j, a@, b@),
{
    match j.get(a) {
        Some(x) => x.str_member(b),
        None => None,
    }
}

/// The version the server offers: `default.version` of the launcher
/// information, or `unknown`.
pub fn server_version_of(info: &Json) -> (r: String)
    ensures
        r@ == or_else(str_at2(*info, "default"@, "version"@), "unknown"@),
{
    match str_at2_exec(info, "default", "version") {
        Some(v) => v,
        None => "unknown".to_owned(),
    }
}

/// The version recorded in the local configuration file (`version`), or
/// `unknown` when the file is absent or has none.
pub fn local_version_of(local: Option<&Json>) -> (r: String)
    ensures
        r@ == match local {
            Some(j) => or_else(str_member(*j, "version"@), "unknown"@),
            None => "unknown"@,
        },
{
    match local {
        Some(j) => match j.str_member("version") {
            Some(v) => v,
            None => "unknown".to_owned(),
        },
        None => "unknown".to_owned(),
    }
}

/// The index file named by the `default` section of the launcher information.
pub fn game_index_file(info: &Json) -> (r: Result<String, WwError>)
    ensures
        match r {
            Ok(f) => str_at3(*info, "default"@, "config"@, "indexFile"@) == Some(f@),
            Err(e) => match member(*info, "default"@) {
                None => e@ == (ErrorKind::Network, "launcher info 缺少 'default' 字段"@),
                Some(_) => str_at3(*info, "default"@, "config"@, "indexFile"@) is None
                    && e@ == (ErrorKind::Network, "缺少 indexFile 配置"@),
            },
        },
{
    match info.get("default") {
        None => Err(network_error("launcher info 缺少 'default' 字段")),
        Some(d) => match str_at2_exec(d, "config", "indexFile") {
            Some(f) => Ok(f),
            None => Err(network_error("缺少 indexFile 配置")),
        },
    }
}

/// The index file of the pre-download, when the launcher information
/// announces one (`predownload.config.indexFile`).
pub fn predownload_index_file(info: &Json) -> (r: Option<String>)
    ensures
        opt_view(r) == str_at3(*info, "predownload"@, "config"@, "indexFile"@),
{
    match info.get("predownload") {
        Some(p) => str_at2_exec(p, "config", "indexFile"),
        None => None,
    }
}

/// The address of the index file `file` on the CDN `cdn`.
pub fn index_url(cdn: &str, file: &str) -> (r: Result<String, WwError>)
    ensures
        match r {
            Ok(u) => url_join_of(cdn@, file@) == Ok::<Seq<char>, Seq<char>>(u@),
            Err(e) => url_join_of(cdn@, file@) matches Err(d) && e@ == crate::urls::url_error(d)
                && crate::urls::is_parse_error_description(d),
        },
{
    resolve_url(cdn, file)
}

/// The resource base path of the `default` section of the launcher information.
pub fn game_res_base(info: &Json) -> (r: Result<String, WwError>)
    ensures
        match r {
            Ok(b) => member(*info, "default"@) matches Some(d) && res_base_spec(d) == Some(b@),
            Err(e) => match member(*info, "default"@) {
                None => e@ == (ErrorKind::Network, "launcher info 缺少 'default' 字段"@),
                Some(d) => res_base_spec(d) is None
                    && e@ == (ErrorKind::Generic, "无法获取资源路径配置 (resourcesBasePath 和 baseUrl 均为空)"@),
            },
        },
{
    match info.get("default") {
        None => Err(network_error("launcher info 缺少 'default' 字段")),
        Some(d) => match res_base(d) {
            Some(b) => Ok(b),
            None => Err(generic_error("无法获取资源路径配置 (resourcesBasePath 和 baseUrl 均为空)")),
        },
    }
}

/// Where a pre-download comes from: its resource base path and its version.
#[derive(Debug)]
pub struct PredownloadSource {
    pub res_base: String,
    pub version: String,
}

/// The resource base path (from `predownload.config`) and the target version
/// (`predownload.version`, or `unknown`) of the pre-download.
pub fn predownload_source(info: &Json) -> (r: Result<PredownloadSource, WwError>)
    ensures
        match r {
            Ok(s) => member(*info, "predownload"@) matches Some(p) && member(p, "config"@) matches Some(c)
                && res_base_spec(c) == Some(s.res_base@)
                && s.version@ == or_else(str_member(p, "version"@), "unknown"@),
            Err(e) => match member(*info, "predownload"@) {
                None => e@ == (ErrorKind::Config, "无法获取预下载配置"@),
                Some(p) => match member(p, "config"@) {
                    None => e@ == (ErrorKind::Config, "预下载配置中缺少 'config'"@),
                    Some(c) => res_base_spec(c) is None && e@ == (ErrorKind::Generic,
                        "无法获取预下载资源路径配置 (resourcesBasePath 和 baseUrl 均为空)"@),
                },
            },
        },
{
    let p = match info.get("predownload") {
        Some(p) => p,
        None => return Err(config_error("无法获取预下载配置")),
    };
    let c = match p.get("config") {
        Some(c) => c,
        None => return Err(config_error("预下载配置中缺少 'config'")),
    };
    let base = match res_base(c) {
        Some(b) => b,
        None => return Err(generic_error("无法获取预下载资源路径配置 (resourcesBasePath 和 baseUrl 均为空)")),
    };
    let version = match p.str_member("version") {
        Some(v) => v,
        None => "unknown".to_owned(),
    };
    Ok(PredownloadSource { res_base: base, version })
}

/// The error when the server offers no pre-download.
pub fn no_predownload_error() -> (r: WwError)
    ensures
        r@ == (ErrorKind::Config, "当前服务器未开放预下载，或未能获取到预下载配置。"@),
{
    config_error("当前服务器未开放预下载，或未能获取到预下载配置。")
}

/// The error when the pre-download folder to merge does not exist.
pub fn predownload_missing_error() -> (r: WwError)
    ensures
        r@ == (ErrorKind::Config, "预下载目录不存在"@),
{
    config_error("预下载目录不存在")
}

/// What a pre-download marker file records: the version and the server.
#[derive(Debug)]
pub struct PredownloadMarker {
    pub version: String,
    pub server: String,
}

/// The marker of the pre-download marker file `pd`: its `version` (or
/// `unknown`) and `server` (or empty).
pub fn predownload_marker(pd: &Json) -> (r: PredownloadMarker)
    ensures
        r.version@ == or_else(str_member(*pd, "version"@), "unknown"@),
        r.server@ == or_else(str_member(*pd, "server"@), Seq::empty()),
{
    let version = match pd.str_member("version") {
        Some(v) => v,
        None => "unknown".to_owned(),
    };
    let server = match pd.str_member("server") {
        Some(s) => s,
        None => String::new(),
    };
    PredownloadMarker { version, server }
}

/// A JSON object with string members, listed in the order given.
pub open spec fn string_object(members: Seq<(Seq<char>, Seq<char>)>, j: Json) -> bool {
    match j {
        Json::Object(m) => m@.len() == members.len() && forall|i: int| 0 <= i < members.len() ==> {
            &&& (#[trigger] m@[i]).0@ == members[i].0
            &&& m@[i].1 matches Json::Str(s) && s@ == members[i].1
        },
        _ => false,
    }
}

/// The content of the local configuration file that records `version` and
/// the application id `app_id` (members in the order the file lists them).
pub fn local_config_doc(version: &str, app_id: &str) -> (r: Json)
    ensures
        string_object(seq![("appId"@, app_id@), ("group"@, "default"@), ("version"@, version@)], r),
{
    let members = vec![
        ("appId".to_owned(), Json::Str(app_id.to_owned())),
        ("group".to_owned(), Json::Str("default".to_owned())),
        ("version".to_owned(), Json::Str(version.to_owned())),
    ];
    Json::Object(members)
}

/// The content of the pre-download marker file for `version` of `server`.
pub fn predownload_marker_doc(version: &str, server: &str) -> (r: Json)
    ensures
        string_object(seq![("server"@, server@), ("version"@, version@)], r),
{
    let members = vec![
        ("server".to_owned(), Json::Str(server.to_owned())),
        ("version".to_owned(), Json::Str(version.to_owned())),
    ];
    Json::Object(members)
}

/// How the game is updated.
#[derive(PartialEq, Eq, Structural, Clone, Copy, Debug)]
pub enum UpdatePlan {
    /// The installed version is the server's: nothing to do.
    UpToDate,
    /// The pre-download is for this server and version: clear the game
    /// folder but the pre-download, move the pre-download in, and check.
    ApplyPredownload,
    /// The pre-download is older than the server's version: clear
    /// everything and download the full client.
    OutdatedPredownload,
    /// The pre-download is for another server: clear everything and
    /// download the full client.
    ForeignPredownload,
    /// No usable pre-download: clear the game folder but the pre-download
    /// and download the full client.
    FreshDownload,
}

/// How the game is updated from `local` to `server_version` on server
/// `server_type`, given the pre-download marker `pre` (version, server) if any.
pub open spec fn update_plan_spec(
    local: Seq<char>,
    server_version: Seq<char>,
    pre: Option<(Seq<char>, Seq<char>)>,
    server_type: Seq<char>,
) -> UpdatePlan {
    if local == server_version {
        UpdatePlan::UpToDate
    } else {
        match pre {
            None => UpdatePlan::FreshDownload,
            Some((pv, ps)) => if ps == server_type && pv == server_version {
                UpdatePlan::ApplyPredownload
            } else if lex_less(pv, server_version) {
                UpdatePlan::OutdatedPredownload
            } else if ps != server_type {
                UpdatePlan::ForeignPredownload
            } else {
                UpdatePlan::FreshDownload
            },
        }
    }
}

/// The update decisions, stated on the versions and servers themselves:
/// nothing is done exactly when the installed version is the server's;
/// otherwise, without a marker the client is downloaded afresh; a marker for
/// this server and the server's version is applied; a marker whose version
/// sorts below the server's is outdated, whatever version is installed; a
/// marker for another server that is not outdated is foreign; and a marker
/// for this server with another version that is not outdated is ignored.
pub proof fn lemma_update_decisions(
    local: Seq<char>,
    server_version: Seq<char>,
    pre: Option<(Seq<char>, Seq<char>)>,
    server_type: Seq<char>,
)
    ensures
        update_plan_spec(local, server_version, pre, server_type) == UpdatePlan::UpToDate <==> local == server_version,
        local != server_version && pre is None
            ==> update_plan_spec(local, server_version, pre, server_type) == UpdatePlan::FreshDownload,
        forall|pv: Seq<char>, ps: Seq<char>| local != server_version && pre == Some((pv, ps)) ==> {
            &&& ps == server_type && pv == server_version
                ==> update_plan_spec(local, server_version, pre, server_type) == UpdatePlan::ApplyPredownload
            &&& lex_less(pv, server_version) && !(ps == server_type && pv == server_version)
                ==> update_plan_spec(local, server_version, pre, server_type) == UpdatePlan::OutdatedPredownload
            &&& !lex_less(pv, server_version) && ps != server_type
                ==> update_plan_spec(local, server_version, pre, server_type) == UpdatePlan::ForeignPredownload
            &&& !lex_less(pv, server_version) && ps == server_type && pv != server_version
                ==> update_plan_spec(local, server_version, pre, server_type) == UpdatePlan::FreshDownload
        },
{
}

/// The view of a pre-download marker.
pub open spec fn marker_view(pre: Option<&PredownloadMarker>) -> Option<(Seq<char>, Seq<char>)> {
    match pre {
        Some(m) => Some((m.version@, m.server@)),
        None => None,
    }
}

/// How the game is updated.
pub fn plan_update(
    local: &str,
    server_version: &str,
    pre: Option<&PredownloadMarker>,
    server_type: &str,
) -> (r: UpdatePlan)
    ensures
        r == update_plan_spec(local@, server_version@, marker_view(pre), server_type@),
        r == UpdatePlan::UpToDate <==> local@ == server_version@,
        local@ != server_version@ && pre is None ==> r == UpdatePlan::FreshDownload,
        forall|pv: Seq<char>, ps: Seq<char>| local@ != server_version@ && marker_view(pre) == Some((pv, ps)) ==> {
            &&& ps == server_type@ && pv == server_version@ ==> r == UpdatePlan::ApplyPredownload
            &&& lex_less(pv, server_version@) && !(ps == server_type@ && pv == server_version@)
                ==> r == UpdatePlan::OutdatedPredownload
            &&& !lex_less(pv, server_version@) && ps != server_type@ ==> r == UpdatePlan::ForeignPredownload
            &&& !lex_less(pv, server_version@) && ps == server_type@ && pv != server_version@
                ==> r == UpdatePlan::FreshDownload
        },
{
    if str_eq(local, server_version) {
        return UpdatePlan::UpToDate;
    }
    match pre {
        None => UpdatePlan::FreshDownload,
        Some(m) => {
            let same_server = str_eq(m.server.as_str(), server_type);
            if same_server && str_eq(m.version.as_str(), server_version) {
                UpdatePlan::ApplyPredownload
            } else if str_less(m.version.as_str(), server_version) {
                UpdatePlan::OutdatedPredownload
            } else if !same_server {
                UpdatePlan::ForeignPredownload
            } else {
                UpdatePlan::FreshDownload
            }
        },
    }
}

/// Nothing is downloaded when the installed version is the server's, and a
/// pre-download is applied only when it was made for this server and for the
/// version the server now offers.
pub proof fn lemma_update_plan_guards(
    local: Seq<char>,
    server_version: Seq<char>,
    pre: Option<(Seq<char>, Seq<char>)>,
    server_type: Seq<char>,
)
    ensures
        (update_plan_spec(local, server_version, pre, server_type) == UpdatePlan::UpToDate) <==> local == server_version,
        update_plan_spec(local, server_version, pre, server_type) == UpdatePlan::ApplyPredownload ==>
            pre == Some((server_version, server_type)),
        (local != server_version && pre == Some((server_version, server_type))) ==>
            update_plan_spec(local, server_version, pre, server_type) == UpdatePlan::ApplyPredownload,
{
}

} // verus!
