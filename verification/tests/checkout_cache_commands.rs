use ww_manager::paths::PathStyle;
use std::collections::BTreeSet;

use ww_manager::checkout::{checkout_candidates, plan_checkout};
use ww_manager::commands::{
    checkout_done_message, detect_server, download_done_message, game_exe_path, launch_argument,
    resolve_game_path, server_list, status_of, validate_server, with_dx_mode,
};
use ww_manager::config::AppConfig;
use ww_manager::digest::{md5_hex, Md5Stream};
use ww_manager::json::Json;
use ww_manager::launcher::local_config_doc;
use ww_manager::md5_cache::{clear_key, lookup_key, CacheEntry, CacheTable};
use ww_manager::progress::{delete_event, download_done_event, log_event, merge_event, verify_event};
use ww_manager::commands::{launch_outcome, missing_exe_message};

const KURO_DLL: &str = "Client/Binaries/Win64/kuro_login.dll";
const KURO_PAK: &str = "Client/Content/Paks/pakchunk1-Kuro-Win64-Shipping.pak";
const BILI_DLL: &str = "Client/Binaries/Win64/bilibili_sdk.dll";
const BILI_PAK: &str = "Client/Content/Paks/pakchunk1-Bilibili-Win64-Shipping.pak";

fn apply(present: &[&str], target: &str) -> (BTreeSet<String>, bool, usize) {
    let v: Vec<String> = present.iter().map(|s| s.to_string()).collect();
    let plan = plan_checkout(PathStyle::Unix, &v, target);
    let mut fs: BTreeSet<String> = v.iter().cloned().collect();
    for r in &plan.renames {
        assert!(fs.remove(&r.from), "renamed a missing file {}", r.from);
        fs.insert(r.to.clone());
        assert!(r.live == r.from || r.live == r.to);
        assert!(!r.live.ends_with(".bak"));
    }
    (fs, plan.missing, plan.renames.len())
}

fn set(items: &[&str]) -> BTreeSet<String> {
    items.iter().map(|s| s.to_string()).collect()
}

#[test]
fn switch_from_cn_to_bilibili() {
    let bak = |s: &str| format!("{}.bak", s);
    let (fs, missing, _) = apply(&[KURO_DLL, KURO_PAK, &bak(BILI_DLL), &bak(BILI_PAK)], "bilibili");
    assert!(!missing);
    assert_eq!(fs, set(&[BILI_DLL, BILI_PAK, &bak(KURO_DLL), &bak(KURO_PAK)]));
}

#[test]
fn switch_back_to_cn() {
    let bak = |s: &str| format!("{}.bak", s);
    let (fs, missing, _) = apply(&[BILI_DLL, BILI_PAK, &bak(KURO_DLL), &bak(KURO_PAK)], "cn");
    assert!(!missing);
    assert_eq!(fs, set(&[KURO_DLL, KURO_PAK, &bak(BILI_DLL), &bak(BILI_PAK)]));
}

#[test]
fn switch_between_servers_sharing_files() {
    let bak = |s: &str| format!("{}.bak", s);
    let (fs, missing, _) = apply(&[KURO_DLL, KURO_PAK], "global");
    assert!(!missing);
    assert_eq!(fs, set(&[KURO_DLL, KURO_PAK]));
    let (fs, missing, _) = apply(&[KURO_DLL], "bilibili");
    assert!(missing);
    assert_eq!(fs, set(&[&bak(KURO_DLL)]));
}

#[test]
fn switch_to_unknown_server_disables_everything() {
    let bak = |s: &str| format!("{}.bak", s);
    let (fs, missing, _) = apply(&[KURO_DLL, BILI_PAK, "other.txt"], "eu");
    assert!(!missing);
    assert_eq!(fs, set(&[&bak(KURO_DLL), &bak(BILI_PAK), "other.txt"]));
}

#[test]
fn candidates_cover_files_and_disabled_copies() {
    let c: BTreeSet<String> = checkout_candidates(PathStyle::Unix).into_iter().collect();
    assert_eq!(c.len(), 8);
    assert!(c.contains(KURO_DLL) && c.contains(&format!("{}.bak", BILI_PAK)));
}

#[test]
fn md5_digests() {
    assert_eq!(md5_hex(b""), "d41d8cd98f00b204e9800998ecf8427e");
    assert_eq!(md5_hex(b"abc"), "900150983cd24fb0d6963f7d28e17f72");
    let mut s = Md5Stream::new();
    s.feed(b"a");
    s.feed(b"bc");
    assert_eq!(s.finish(), md5_hex(b"abc"));
}

#[test]
fn cache_read_your_write() {
    let mut t = CacheTable::new();
    assert!(!t.needs_save());
    assert_eq!(t.lookup("Client/a.pak", 5), None);
    t.record("Client/a.pak".into(), 5, "aaa".into());
    assert!(t.needs_save());
    assert_eq!(t.lookup("Client/a.pak", 5).as_deref(), Some("aaa"));
    assert_eq!(t.lookup("Client/a.pak", 6), None);
    t.record("Client/a.pak".into(), 6, "bbb".into());
    assert_eq!(t.lookup("Client/a.pak", 6).as_deref(), Some("bbb"));
    assert_eq!(t.entries().len(), 1);
    t.mark_saved();
    t.forget("Client/none.pak");
    assert!(!t.needs_save());
    t.forget("Client/a.pak");
    assert!(t.needs_save());
    assert_eq!(t.lookup("Client/a.pak", 6), None);
}

#[test]
fn cache_loads_entries() {
    let loaded = vec![
        ("a".to_string(), CacheEntry { mtime: 1, md5: "x".into() }),
        ("b".to_string(), CacheEntry { mtime: 2, md5: "y".into() }),
        ("a".to_string(), CacheEntry { mtime: 3, md5: "z".into() }),
    ];
    let t = CacheTable::from_entries(loaded);
    assert!(!t.needs_save());
    assert_eq!(t.lookup("a", 3).as_deref(), Some("z"));
    assert_eq!(t.lookup("a", 1), None);
    assert_eq!(t.lookup("b", 2).as_deref(), Some("y"));
}

#[test]
fn cache_keys() {
    assert_eq!(lookup_key(PathStyle::Unix, "/g/ww/Client/a.pak", "/g/ww"), "Client/a.pak");
    assert_eq!(lookup_key(PathStyle::Windows, "C:\\g\\ww\\Client\\a.pak", "C:\\g\\ww"), "Client/a.pak");
    assert_eq!(lookup_key(PathStyle::Unix, "/elsewhere/a.pak", "/g/ww"), "a.pak");
    assert_eq!(clear_key(PathStyle::Unix, "/g/ww/Client/a.pak", "/g/ww").as_deref(), Some("Client/a.pak"));
    assert_eq!(clear_key(PathStyle::Unix, "/elsewhere/a.pak", "/g/ww"), None);
}

fn cfg(p: Option<&str>) -> AppConfig {
    AppConfig { default_path: p.map(String::from), latest_available_version: Some("2.4".into()), dx_mode: None }
}

#[test]
fn game_folder_resolution() {
    let c = resolve_game_path(Some("/g/ww".into()), &cfg(None)).unwrap();
    assert_eq!(c.path, "/g/ww");
    let saved = c.save.unwrap();
    assert_eq!(saved.default_path.as_deref(), Some("/g/ww"));
    assert_eq!(saved.latest_available_version.as_deref(), Some("2.4"));
    let again = resolve_game_path(None, &saved).unwrap();
    assert_eq!(again.path, "/g/ww");
    assert!(again.save.is_none());
    assert!(resolve_game_path(Some("/g/ww".into()), &saved).unwrap().save.is_none());
    assert_eq!(
        resolve_game_path(None, &cfg(None)).err().unwrap(),
        "未设置游戏路径。请在设置中配置或传入 path 参数。"
    );
}

#[test]
fn server_validation() {
    assert!(validate_server("cn").is_ok());
    assert!(validate_server("bilibili").is_ok());
    assert_eq!(validate_server("jp").unwrap_err(), "无效的服务器类型: jp。可选: cn, global, bilibili");
}

#[test]
fn server_detection() {
    assert_eq!(detect_server(None), "cn");
    assert_eq!(detect_server(Some(&local_config_doc("2.4.0", "10004"))), "bilibili");
    assert_eq!(detect_server(Some(&local_config_doc("2.4.0", "50004"))), "global");
    assert_eq!(detect_server(Some(&local_config_doc("2.4.0", "1"))), "cn");
    assert_eq!(detect_server(Some(&Json::Null)), "cn");
}

#[test]
fn status_report() {
    let st = status_of(&local_config_doc("2.4.0", "50004"));
    assert_eq!((st.server.as_str(), st.version.as_str(), st.app_id.as_str()), ("global", "2.4.0", "50004"));
    let st = status_of(&Json::Object(vec![]));
    assert_eq!((st.server.as_str(), st.version.as_str(), st.app_id.as_str()), ("未知", "未知", ""));
}

#[test]
fn launching() {
    assert_eq!(launch_argument(Some("dx11")), "-dx11");
    assert_eq!(launch_argument(Some("dx12")), "-dx12");
    assert_eq!(launch_argument(Some("vulkan")), "");
    assert_eq!(launch_argument(None), "");
    assert_eq!(game_exe_path(PathStyle::Unix, "/g/ww"), "/g/ww/Client/Binaries/Win64/Client-Win64-Shipping.exe");
    let c = with_dx_mode(&cfg(Some("/g")), "dx11");
    assert_eq!(c.dx_mode.as_deref(), Some("dx11"));
    assert_eq!(c.default_path.as_deref(), Some("/g"));
}

#[test]
fn server_listing_and_messages() {
    let l = server_list();
    assert_eq!(l, vec![
        ("cn".to_string(), "10003".to_string()),
        ("global".to_string(), "50004".to_string()),
        ("bilibili".to_string(), "10004".to_string()),
    ]);
    assert_eq!(download_done_message("cn"), "cn 服下载完成");
    assert_eq!(checkout_done_message("global"), "已切换到 global 服");
}

#[test]
fn progress_events() {
    let e = log_event("hello", "log");
    assert_eq!((e.event_type.as_str(), e.message.as_str(), e.current, e.total), ("log", "hello", 0, 0));
    let e = download_done_event(3, 10, "a.pak");
    assert_eq!(e.message, "[3] a.pak");
    assert_eq!(e.file_name.as_deref(), Some("a.pak"));
    assert_eq!(verify_event(50, 120, "b").message, "校验中: 50/120");
    assert_eq!(delete_event("清理旧版本: ", 2, 5, "Client").message, "清理旧版本: Client");
    let e = merge_event(10, 30);
    assert_eq!((e.message.as_str(), e.event_type.as_str()), ("合并预下载: 10/30", "delete_progress"));
}

#[test]
fn validated_servers_have_configurations() {
    for s in ["cn", "global", "bilibili", "jp", "", "CN"] {
        assert_eq!(validate_server(s).is_ok(), ww_manager::config::server_config(s).is_some());
        assert_eq!(validate_server(s).is_ok(), ww_manager::config::diff_files_for(s).is_some());
    }
}

#[test]
fn cache_keys_agree_inside_the_game_folder() {
    for f in ["/g/ww/Client/a.pak", "/g/ww/Client\\Win64\\b.dll"] {
        assert_eq!(clear_key(PathStyle::Unix, f, "/g/ww"), Some(lookup_key(PathStyle::Unix, f, "/g/ww")));
    }
}

/// Carries out the planned renames on a map from each present name to the
/// name whose content it holds.
fn apply_contents(present: &[&str], target: &str) -> std::collections::BTreeMap<String, String> {
    let v: Vec<String> = present.iter().map(|s| s.to_string()).collect();
    let plan = plan_checkout(PathStyle::Unix, &v, target);
    let mut fs: std::collections::BTreeMap<String, String> = v.iter().map(|s| (s.clone(), s.clone())).collect();
    for r in &plan.renames {
        let content = fs.remove(&r.from).expect("renamed a missing file");
        fs.insert(r.to.clone(), content);
    }
    fs
}

#[test]
fn switch_keeps_the_live_copy_when_both_exist() {
    let bak = |s: &str| format!("{}.bak", s);
    let fs = apply_contents(&[KURO_DLL, &bak(KURO_DLL), KURO_PAK], "cn");
    assert_eq!(fs.get(KURO_DLL).map(|s| s.as_str()), Some(KURO_DLL));
    assert_eq!(fs.get(KURO_PAK).map(|s| s.as_str()), Some(KURO_PAK));
    assert_eq!(fs.len(), 2);
}

#[test]
fn switch_restores_disabled_copies_and_disables_the_rest() {
    let bak = |s: &str| format!("{}.bak", s);
    let old_bili = bak(BILI_DLL);
    let fs = apply_contents(&[KURO_DLL, &bak(KURO_DLL), &old_bili], "bilibili");
    // the live kuro dll replaces its older disabled copy
    assert_eq!(fs.get(&bak(KURO_DLL)).map(|s| s.as_str()), Some(KURO_DLL));
    // the bilibili dll comes back from its disabled copy
    assert_eq!(fs.get(BILI_DLL), Some(&old_bili));
    assert_eq!(fs.len(), 2);
}

#[test]
fn launch_outcomes() {
    assert_eq!(launch_outcome(42), Ok(()));
    assert_eq!(launch_outcome(33), Ok(()));
    assert_eq!(launch_outcome(32), Err("无法启动游戏: 错误代码 32".to_string()));
    assert_eq!(launch_outcome(2), Err("无法启动游戏: 错误代码 2".to_string()));
    assert_eq!(launch_outcome(-5), Err("无法启动游戏: 错误代码 -5".to_string()));
    assert_eq!(
        launch_outcome(i64::MIN),
        Err(format!("无法启动游戏: 错误代码 {}", i64::MIN))
    );
    assert_eq!(missing_exe_message("D:/Wuthering Waves/Client.exe"), "找不到游戏可执行文件: D:/Wuthering Waves/Client.exe");
}
