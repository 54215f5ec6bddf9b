use vstd::prelude::*;
use vstd::string::*;
use crate::text::{str_eq, concat2};
use crate::paths::{PathStyle, join, join_spec};

verus! {

/// Launcher endpoint and application id of one server.
#[derive(Debug)]
pub struct ServerConfig {
    pub api_url: String,
    pub app_id: String,
}

impl View for ServerConfig {
    type V = (Seq<char>, Seq<char>);

    open spec fn view(&self) -> (Seq<char>, Seq<char>) {
        (self.api_url@, self.app_id@)
    }
}

/// What the application remembers between runs.
#[derive(Debug)]
pub struct AppConfig {
    pub default_path: Option<String>,
    pub latest_available_version: Option<String>,
    pub dx_mode: Option<String>,
}

/// The view of an optional string.
pub open spec fn opt_view(o: Option<String>) -> Option<Seq<char>> {
    match o {
        Some(s) => Some(s@),
        None => None,
    }
}

impl View for AppConfig {
    type V = (Option<Seq<char>>, Option<Seq<char>>, Option<Seq<char>>);

    open spec fn view(&self) -> (Option<Seq<char>>, Option<Seq<char>>, Option<Seq<char>>) {
        (opt_view(self.default_path), opt_view(self.latest_available_version), opt_view(self.dx_mode))
    }
}

impl Default for AppConfig {
    fn default() -> (r: Self)
        ensures
            r@ == (None::<Seq<char>>, None::<Seq<char>>, None::<Seq<char>>),
    {
        AppConfig { default_path: None, latest_available_version: None, dx_mode: None }
    }
}

pub const CN_API_URL: &'static str = "https://prod-cn-alicdn-gamestarter.kurogame.com/launcher/game/G152/10003_Y8xXrXk65DqFHEDgApn3cpK5lfczpFx5/index.json";
pub const GLOBAL_API_URL: &'static str = "https://prod-alicdn-gamestarter.kurogame.com/launcher/game/G153/50004_obOHXFrFanqsaIEOmuKroCcbZkQRBC7c/index.json";
pub const BILIBILI_API_URL: &'static str = "https://prod-cn-alicdn-gamestarter.kurogame.com/launcher/game/G152/10004_j5GWFUuFlb8N31Wi2uS3ZAVHcb7ZGN7y/index.json";

pub const KURO_LOGIN_DLL: &'static str = "Client/Binaries/Win64/kuro_login.dll";
pub const KURO_PAK: &'static str = "Client/Content/Paks/pakchunk1-Kuro-Win64-Shipping.pak";
pub const BILIBILI_SDK_DLL: &'static str = "Client/Binaries/Win64/bilibili_sdk.dll";
pub const BILIBILI_PAK: &'static str = "Client/Content/Paks/pakchunk1-Bilibili-Win64-Shipping.pak";

/// The three servers, in the order the library lists them.
pub open spec fn server_keys() -> Seq<Seq<char>> {
    seq!["cn"@, "global"@, "bilibili"@]
}

/// Launcher endpoint of the server named `key`.
pub open spec fn server_api_url(key: Seq<char>) -> Option<Seq<char>> {
    if key == "cn"@ {
        Some(CN_API_URL@)
    } else if key == "global"@ {
        Some(GLOBAL_API_URL@)
    } else if key == "bilibili"@ {
        Some(BILIBILI_API_URL@)
    } else {
        None
    }
}

/// Application id of the server named `key`.
pub open spec fn server_app_id(key: Seq<char>) -> Option<Seq<char>> {
    if key == "cn"@ {
        Some("10003"@)
    } else if key == "global"@ {
        Some("50004"@)
    } else if key == "bilibili"@ {
        Some("10004"@)
    } else {
        None
    }
}

/// Whether `c` is the configuration of the server named `key`.
pub open spec fn is_server_config(key: Seq<char>, c: (Seq<char>, Seq<char>)) -> bool {
    server_api_url(key) == Some(c.0) && server_app_id(key) == Some(c.1)
}

/// Whether `key` names one of the servers.
pub open spec fn is_server(key: Seq<char>) -> bool {
    server_app_id(key) is Some
}

/// The server whose application id is `app_id`.
pub open spec fn server_of_app_id(app_id: Seq<char>) -> Option<Seq<char>> {
    if app_id == "10003"@ {
        Some("cn"@)
    } else if app_id == "50004"@ {
        Some("global"@)
    } else if app_id == "10004"@ {
        Some("bilibili"@)
    } else {
        None
    }
}

/// The files that differ between servers, for the server named `key`.
pub open spec fn server_diff_entry(key: Seq<char>) -> Option<Seq<Seq<char>>> {
    if key == "cn"@ {
        Some(seq![KURO_LOGIN_DLL@, KURO_PAK@])
    } else if key == "bilibili"@ {
        Some(seq![BILIBILI_SDK_DLL@, BILIBILI_PAK@])
    } else if key == "global"@ {
        Some(seq![KURO_LOGIN_DLL@, KURO_PAK@])
    } else {
        None
    }
}

/// The server table: each server's key with its launcher endpoint and application id.
pub fn server_configs() -> (res: Vec<(String, ServerConfig)>)
    ensures
        res@.len() == 3,
        forall|i: int| 0 <= i < 3 ==> #[trigger] res@[i].0@ == server_keys()[i]
            && is_server_config(server_keys()[i], res@[i].1@),
{
    let res = vec![
        (
            "cn".to_owned(),
            ServerConfig { api_url: CN_API_URL.to_owned(), app_id: "10003".to_owned() },
        ),
        (
            "global".to_owned(),
            ServerConfig { api_url: GLOBAL_API_URL.to_owned(), app_id: "50004".to_owned() },
        ),
        (
            "bilibili".to_owned(),
            ServerConfig { api_url: BILIBILI_API_URL.to_owned(), app_id: "10004".to_owned() },
        ),
    ];
    proof {
        lemma_literals_distinct();
    }
    res
}

/// The table from application id to server key.
pub fn appid_to_server() -> (res: Vec<(String, String)>)
    ensures
        res@.len() == 3,
        forall|i: int| 0 <= i < 3 ==> #[trigger] res@[i].1@ == server_keys()[i]
            && server_app_id(server_keys()[i]) == Some(res@[i].0@),
{
    let res = vec![
        ("10003".to_owned(), "cn".to_owned()),
        ("50004".to_owned(), "global".to_owned()),
        ("10004".to_owned(), "bilibili".to_owned()),
    ];
    proof {
        lemma_literals_distinct();
    }
    res
}

/// The files that differ between servers, per server.
pub fn server_diff_files() -> (res: Vec<(String, Vec<String>)>)
    ensures
        res@.len() == 3,
        forall|i: int| 0 <= i < 3 ==> #[trigger] res@[i].0@ == server_keys()[i]
            && server_diff_entry(server_keys()[i]) == Some(res@[i].1@.map_values(|s: String| s@)),
{
    let res = vec![
        ("cn".to_owned(), vec![KURO_LOGIN_DLL.to_owned(), KURO_PAK.to_owned()]),
        ("global".to_owned(), vec![KURO_LOGIN_DLL.to_owned(), KURO_PAK.to_owned()]),
        ("bilibili".to_owned(), vec![BILIBILI_SDK_DLL.to_owned(), BILIBILI_PAK.to_owned()]),
    ];
    proof {
        lemma_literals_distinct();
        assert(res@[0].1@.map_values(|s: String| s@) =~= seq![KURO_LOGIN_DLL@, KURO_PAK@]);
        assert(res@[1].1@.map_values(|s: String| s@) =~= seq![KURO_LOGIN_DLL@, KURO_PAK@]);
        assert(res@[2].1@.map_values(|s: String| s@) =~= seq![BILIBILI_SDK_DLL@, BILIBILI_PAK@]);
    }
    res
}

/// The configuration of the server named `key`, if there is such a server.
pub fn server_config(key: &str) -> (res: Option<ServerConfig>)
    ensures
        match res {
            Some(c) => is_server_config(key@, c@),
            None => !is_server(key@),
        },
{
    proof { lemma_literals_distinct(); }
    if str_eq(key, "cn") {
        Some(ServerConfig { api_url: CN_API_URL.to_owned(), app_id: "10003".to_owned() })
    } else if str_eq(key, "global") {
        Some(ServerConfig { api_url: GLOBAL_API_URL.to_owned(), app_id: "50004".to_owned() })
    } else if str_eq(key, "bilibili") {
        Some(ServerConfig { api_url: BILIBILI_API_URL.to_owned(), app_id: "10004".to_owned() })
    } else {
        None
    }
}

/// The server whose application id is `app_id`, if any.
pub fn server_for_app_id(app_id: &str) -> (res: Option<String>)
    ensures
        opt_view(res) == server_of_app_id(app_id@),
{
    proof { lemma_literals_distinct(); }
    if str_eq(app_id, "10003") {
        Some("cn".to_owned())
    } else if str_eq(app_id, "50004") {
        Some("global".to_owned())
    } else if str_eq(app_id, "10004") {
        Some("bilibili".to_owned())
    } else {
        None
    }
}

/// The files that differ between servers for the server named `key`, if any.
pub fn diff_files_for(key: &str) -> (res: Option<Vec<String>>)
    ensures
        match res {
            Some(v) => server_diff_entry(key@) == Some(v@.map_values(|s: String| s@)),
            None => server_diff_entry(key@) is None,
        },
{
    proof { lemma_literals_distinct(); }
    if str_eq(key, "cn") || str_eq(key, "global") {
        let v = vec![KURO_LOGIN_DLL.to_owned(), KURO_PAK.to_owned()];
        assert(v@.map_values(|s: String| s@) =~= seq![KURO_LOGIN_DLL@, KURO_PAK@]);
        Some(v)
    } else if str_eq(key, "bilibili") {
        let v = vec![BILIBILI_SDK_DLL.to_owned(), BILIBILI_PAK.to_owned()];
        assert(v@.map_values(|s: String| s@) =~= seq![BILIBILI_SDK_DLL@, BILIBILI_PAK@]);
        Some(v)
    } else {
        None
    }
}

/// The configuration directory: on Windows `ww_manager` under `%APPDATA%`,
/// or under `AppData/Roaming` of the home directory when `APPDATA` is unset;
/// elsewhere `.config/ww_manager` under the home directory. A missing home
/// directory counts as `.`.
pub open spec fn config_dir_spec(style: PathStyle, appdata: Option<Seq<char>>, home: Option<Seq<char>>) -> Seq<char> {
    let h = match home {
        Some(h) => h,
        None => "."@,
    };
    if style == PathStyle::Windows {
        match appdata {
            Some(a) => join_spec(style, a, "ww_manager"@),
            None => join_spec(style, join_spec(style, join_spec(style, h, "AppData"@), "Roaming"@), "ww_manager"@),
        }
    } else {
        join_spec(style, join_spec(style, h, ".config"@), "ww_manager"@)
    }
}

/// The configuration directory on a machine whose paths follow `style`, given
/// the values of `APPDATA` and of the home directory variable, where set.
pub fn config_dir_for(style: PathStyle, appdata: Option<String>, home: Option<String>) -> (r: String)
    ensures
        r@ == config_dir_spec(style, opt_view(appdata), opt_view(home)),
{
    let h: String = match home {
        Some(h) => h,
        None => ".".to_owned(),
    };
    match style {
        PathStyle::Windows => match appdata {
            Some(a) => join(style, a.as_str(), "ww_manager"),
            None => {
                let x = join(style, h.as_str(), "AppData");
                let y = join(style, x.as_str(), "Roaming");
                join(style, y.as_str(), "ww_manager")
            },
        },
        PathStyle::Unix => {
            let x = join(style, h.as_str(), ".config");
            join(style, x.as_str(), "ww_manager")
        },
    }
}

/// The path of the configuration file inside the configuration directory `config_dir`.
pub fn get_config_file(style: PathStyle, config_dir: &str) -> (res: String)
    ensures
        res@ == join_spec(style, config_dir@, "config.json"@),
{
    join(style, config_dir, "config.json")
}

/// The literal keys and application ids are pairwise distinct.
pub proof fn lemma_literals_distinct()
    ensures
        "cn"@ != "global"@,
        "cn"@ != "bilibili"@,
        "global"@ != "bilibili"@,
        "10003"@ != "50004"@,
        "10003"@ != "10004"@,
        "50004"@ != "10004"@,
{
    reveal_strlit("cn");
    reveal_strlit("global");
    reveal_strlit("bilibili");
    reveal_strlit("10003");
    reveal_strlit("50004");
    reveal_strlit("10004");
    assert("cn"@.len() == 2);
    assert("global"@.len() == 6);
    assert("bilibili"@.len() == 8);
    assert("10003"@[0] != "50004"@[0]);
    assert("10003"@[4] != "10004"@[4]);
    assert("50004"@[0] != "10004"@[0]);
}

/// The configuration of the server named `key`; a configuration error
/// naming it when there is no such server.
pub fn server_config_or_error(key: &str) -> (r: Result<ServerConfig, crate::error::WwError>)
    ensures
        match r {
            Ok(c) => is_server_config(key@, c@),
            Err(e) => !is_server(key@) && e@ == (crate::error::ErrorKind::Config, "无效的服务器类型: "@ + key@),
        },
{
    match server_config(key) {
        Some(c) => Ok(c),
        None => Err(crate::error::WwError::Config(concat2("无效的服务器类型: ", key))),
    }
}

/// Each server's application id leads back to that server.
pub proof fn lemma_app_id_round_trip(key: Seq<char>)
    requires
        is_server(key),
    ensures
        server_of_app_id(server_app_id(key)->0) == Some(key),
{
    lemma_literals_distinct();
}

/// Each known application id names a server whose application id it is.
pub proof fn lemma_server_of_app_id_sound(app_id: Seq<char>)
    requires
        server_of_app_id(app_id) is Some,
    ensures
        server_app_id(server_of_app_id(app_id)->0) == Some(app_id),
{
    lemma_literals_distinct();
}

/// The servers with a configuration are exactly the listed servers, and
/// exactly the servers with a list of server-specific files.
pub proof fn lemma_diff_files_cover_servers(key: Seq<char>)
    ensures
        is_server(key) <==> server_diff_entry(key) is Some,
        is_server(key) <==> server_keys().contains(key),
{
    lemma_literals_distinct();
    if is_server(key) {
        if key == "cn"@ {
            assert(server_keys()[0] == key);
        } else if key == "global"@ {
            assert(server_keys()[1] == key);
        } else {
            assert(server_keys()[2] == key);
        }
    }
}

} // verus!
