use ww_manager::downloads::{full_download_done_message, full_download_steps, steps_after_sync_plan, FullDownloadStep, SyncStep};
use ww_manager::launcher::predownload_missing_error;
use ww_manager::paths::PathStyle;
use ww_manager::cdn::{best_node, cdn_list_from_info, recommended_cdn, CdnNode};
use ww_manager::downloads::{
    batch_totals, merge_progress_due, needs_predownload, needs_sync, plan_predownload, plan_sync,
    predownload_entries, progress_due, progress_interval, res_base, resource_entries,
    resource_path, verify_progress_due, DownloadTask, FileObservation, ResourceEntry,
};
use ww_manager::error::WwError;
use ww_manager::json::Json;
use ww_manager::launcher::{
    game_index_file, game_res_base, index_url, local_config_doc, local_version_of, no_predownload_error,
    plan_update, predownload_index_file, predownload_marker, predownload_marker_doc, predownload_source,
    server_version_of, PredownloadMarker, UpdatePlan,
};
use ww_manager::transfer::{
    attempt_outcome, chunk_len, chunk_size_error, download_route, http_status_error, is_last_attempt,
    merged_size_error, range_header, resume_point, resume_range_header, retry_delay_secs,
    status_acceptable, DownloadRoute,
};
use ww_manager::urls::{check_url, resolve_url, try_resolve_url};
use ww_manager::transfer::retry_after_failure;
use ww_manager::transfer::{chunk_attempt_step, ChunkAction, ChunkEvent};
use ww_manager::downloads::batch_result;
use ww_manager::transfer::chunked_result;
use ww_manager::downloads::{predownload_destination, DOWNLOAD_CONCURRENT, VERIFY_CONCURRENT};

fn s(x: &str) -> Json {
    Json::Str(x.to_string())
}

fn obj(members: Vec<(&str, Json)>) -> Json {
    Json::Object(members.into_iter().map(|(k, v)| (k.to_string(), v)).collect())
}

fn node(url: &str, p: i64, k1: i64, k2: i64) -> Json {
    obj(vec![("url", s(url)), ("P", Json::Int(p)), ("K1", Json::Int(k1)), ("K2", Json::Int(k2))])
}

fn info_with_nodes(nodes: Vec<Json>) -> Json {
    obj(vec![("default", obj(vec![("cdnList", Json::Array(nodes))]))])
}

fn net_msg(e: WwError) -> String {
    match e {
        WwError::Network(m) => m,
        other => panic!("expected a network error, got {:?}", other),
    }
}

#[test]
fn cdn_list_marks_highest_priority_eligible_node() {
    let info = info_with_nodes(vec![
        node("https://a/", 5, 1, 1),
        node("https://b/", 9, 1, 0),
        node("https://c/", 7, 1, 1),
        node("https://d/", 2, 1, 1),
    ]);
    let list = cdn_list_from_info(&info).unwrap();
    let marks: Vec<bool> = list.iter().map(|n| n.recommended).collect();
    assert_eq!(marks, vec![false, false, true, false]);
    assert_eq!(recommended_cdn(&list).unwrap(), "https://c/");
}

#[test]
fn cdn_ties_go_to_the_last_node() {
    let info = info_with_nodes(vec![node("https://a/", 5, 1, 1), node("https://b/", 5, 1, 1)]);
    let list = cdn_list_from_info(&info).unwrap();
    assert!(!list[0].recommended && list[1].recommended);
    assert_eq!(best_node(&list), Some(1));
}

#[test]
fn cdn_defaults_and_errors() {
    let info = info_with_nodes(vec![obj(vec![("url", s("https://x/"))])]);
    let list = cdn_list_from_info(&info).unwrap();
    assert_eq!((list[0].priority, list[0].k1, list[0].k2, list[0].recommended), (0, 0, 0, false));
    assert_eq!(net_msg(recommended_cdn(&list).unwrap_err()), "没有可用的 CDN 节点");
    assert_eq!(net_msg(cdn_list_from_info(&obj(vec![])).unwrap_err()), "launcher info 缺少 'default' 字段");
    assert_eq!(net_msg(cdn_list_from_info(&obj(vec![("default", obj(vec![]))])).unwrap_err()), "CDN 列表为空");
    let missing_url = info_with_nodes(vec![node("https://a/", 1, 1, 1), obj(vec![("P", Json::Int(3))])]);
    assert_eq!(net_msg(cdn_list_from_info(&missing_url).unwrap_err()), "CDN 节点缺少 url");
    let empty: Vec<CdnNode> = Vec::new();
    assert!(recommended_cdn(&empty).is_err());
}

#[test]
fn urls_resolve_against_cdn() {
    assert_eq!(
        resolve_url("https://cdn.example.com/base/", "res/path/Client/a.pak").unwrap(),
        "https://cdn.example.com/base/res/path/Client/a.pak"
    );
    assert_eq!(resolve_url("https://cdn.example.com/base", "index.json").unwrap(), "https://cdn.example.com/index.json");
    assert!(check_url("https://cdn.example.com/").is_ok());
    let e = check_url("not a url").unwrap_err();
    assert_eq!(net_msg(e), "URL parse error: relative URL without a base");
    assert!(try_resolve_url("::", "x").is_none());
    assert_eq!(net_msg(resolve_url("::", "x").unwrap_err()), "URL parse error: relative URL without a base");
    assert_eq!(net_msg(check_url("http://[::1").unwrap_err()), "URL parse error: invalid IPv6 address");
    assert_eq!(net_msg(check_url("http://host:99999/").unwrap_err()), "URL parse error: invalid port number");
}

fn index() -> Json {
    obj(vec![(
        "resource",
        Json::Array(vec![
            obj(vec![("dest", s("Client/a.pak")), ("md5", s("aaa")), ("size", Json::Int(10))]),
            obj(vec![("dest", s("Client/b.pak")), ("md5", s("bbb")), ("size", Json::Int(20))]),
            obj(vec![("dest", s("Client/c.pak"))]),
        ]),
    )])
}

#[test]
fn resources_of_an_index() {
    let e = resource_entries(&index()).unwrap();
    assert_eq!(e.len(), 3);
    assert_eq!((e[0].dest.as_str(), e[0].md5.as_str(), e[0].size), ("Client/a.pak", "aaa", 10));
    assert_eq!((e[2].dest.as_str(), e[2].md5.as_str(), e[2].size), ("Client/c.pak", "", 0));
    assert_eq!(net_msg(resource_entries(&obj(vec![])).unwrap_err()), "游戏索引中缺少 'resource' 列表");
    assert!(predownload_entries(&obj(vec![("resource", Json::Null)])).is_none());
    assert_eq!(predownload_entries(&index()).unwrap().len(), 3);
}

fn entry(dest: &str, md5: &str, size: i64) -> ResourceEntry {
    ResourceEntry { dest: dest.into(), md5: md5.into(), size }
}

fn seen(exists: bool, len: Option<u64>, md5: Option<&str>) -> FileObservation {
    FileObservation { exists, len, md5: md5.map(|m| m.to_string()) }
}

#[test]
fn which_files_need_a_download() {
    let e = entry("a", "abc", 10);
    assert!(needs_sync(&seen(false, None, None), false, &e));
    assert!(!needs_sync(&seen(true, Some(10), None), false, &e));
    assert!(needs_sync(&seen(true, Some(11), None), false, &e));
    assert!(needs_sync(&seen(true, None, None), false, &e));
    assert!(!needs_sync(&seen(true, Some(11), Some("abc")), true, &e));
    assert!(needs_sync(&seen(true, Some(10), Some("abd")), true, &e));
    assert!(needs_sync(&seen(true, Some(10), None), true, &e));
    assert!(!needs_sync(&seen(true, None, None), false, &entry("a", "", -1)));
    assert!(needs_predownload(false, None, 0));
    assert!(!needs_predownload(true, None, 0));
    assert!(needs_predownload(true, Some(3), 4));
    assert!(!needs_predownload(true, Some(4), 4));
}

#[test]
fn sync_plan_lists_needed_files_in_order() {
    let entries = vec![entry("Client/a.pak", "aaa", 10), entry("Client/b.pak", "bbb", 20), entry("Client/c.pak", "ccc", 30)];
    let obs = vec![seen(true, Some(10), Some("aaa")), seen(true, Some(20), Some("xxx")), seen(false, None, None)];
    let tasks = plan_sync(&entries, &obs, true, PathStyle::Unix, "/g/ww", "res/base", "https://cdn.example.com/p/");
    let got: Vec<(&str, &str, u64)> = tasks.iter().map(|t| (t.url.as_str(), t.path.as_str(), t.size)).collect();
    assert_eq!(
        got,
        vec![
            ("https://cdn.example.com/p/res/base/Client/b.pak", "/g/ww/Client/b.pak", 20),
            ("https://cdn.example.com/p/res/base/Client/c.pak", "/g/ww/Client/c.pak", 30),
        ]
    );
    let none = plan_sync(&entries, &vec![seen(true, Some(10), None), seen(true, Some(20), None), seen(true, Some(30), None)], false, PathStyle::Unix, "/g", "r", "https://c/");
    assert!(none.is_empty());
    assert_eq!(resource_path(PathStyle::Unix, "/g/ww", "Client/a.pak"), "/g/ww/Client/a.pak");
}

#[test]
fn predownload_plan_by_size() {
    let entries = vec![entry("a.pak", "", 5), entry("b.pak", "", 6)];
    let obs = vec![seen(true, Some(5), None), seen(true, Some(1), None)];
    let tasks = plan_predownload(&entries, &obs, PathStyle::Unix, "/g/.predownload", "pre", "https://cdn/");
    assert_eq!(tasks.len(), 1);
    assert_eq!(tasks[0].path, "/g/.predownload/b.pak");
    assert_eq!(tasks[0].url, "https://cdn/pre/b.pak");
    assert_eq!(tasks[0].size, 6);
}

#[test]
fn batch_totals_and_reporting() {
    let tasks = vec![
        DownloadTask { url: "u".into(), path: "p".into(), size: 3 },
        DownloadTask { url: "u".into(), path: "q".into(), size: 4 },
    ];
    assert_eq!(batch_totals(&tasks), (2, 7));
    assert_eq!(batch_totals(&Vec::new()), (0, 0));
    assert_eq!(progress_interval(200), 1);
    assert_eq!(progress_interval(201), 20);
    assert!(progress_due(37, 20, 37));
    assert!(!progress_due(37, 20, 300));
    assert!(progress_due(40, 20, 300));
    assert!(verify_progress_due(true, 50, 1000));
    assert!(!verify_progress_due(false, 50, 1000));
    assert!(verify_progress_due(true, 7, 7));
    assert!(merge_progress_due(10, 33) && merge_progress_due(33, 33) && !merge_progress_due(11, 33));
}

fn launcher_info() -> Json {
    obj(vec![
        (
            "default",
            obj(vec![
                ("version", s("2.4.0")),
                ("resourcesBasePath", s("launcher/res")),
                ("config", obj(vec![("indexFile", s("launcher/index.json"))])),
            ]),
        ),
        (
            "predownload",
            obj(vec![
                ("version", s("2.5.0")),
                ("config", obj(vec![("indexFile", s("pre/index.json")), ("baseUrl", s("pre/res"))])),
            ]),
        ),
    ])
}

#[test]
fn launcher_information() {
    let info = launcher_info();
    assert_eq!(server_version_of(&info), "2.4.0");
    assert_eq!(server_version_of(&obj(vec![])), "unknown");
    assert_eq!(game_index_file(&info).unwrap(), "launcher/index.json");
    assert_eq!(net_msg(game_index_file(&obj(vec![])).unwrap_err()), "launcher info 缺少 'default' 字段");
    assert_eq!(net_msg(game_index_file(&obj(vec![("default", obj(vec![]))])).unwrap_err()), "缺少 indexFile 配置");
    assert_eq!(predownload_index_file(&info).as_deref(), Some("pre/index.json"));
    assert_eq!(predownload_index_file(&obj(vec![])), None);
    assert_eq!(game_res_base(&info).unwrap(), "launcher/res");
    match game_res_base(&obj(vec![("default", obj(vec![]))])) {
        Err(WwError::Generic(m)) => assert_eq!(m, "无法获取资源路径配置 (resourcesBasePath 和 baseUrl 均为空)"),
        _ => panic!(),
    }
    let src = predownload_source(&info).unwrap();
    assert_eq!((src.res_base.as_str(), src.version.as_str()), ("pre/res", "2.5.0"));
    match predownload_source(&obj(vec![])) {
        Err(WwError::Config(m)) => assert_eq!(m, "无法获取预下载配置"),
        _ => panic!(),
    }
    match predownload_source(&obj(vec![("predownload", obj(vec![]))])) {
        Err(WwError::Config(m)) => assert_eq!(m, "预下载配置中缺少 'config'"),
        _ => panic!(),
    }
    match no_predownload_error() {
        WwError::Config(m) => assert_eq!(m, "当前服务器未开放预下载，或未能获取到预下载配置。"),
        _ => panic!(),
    }
    assert_eq!(index_url("https://cdn.example.com/x/", "launcher/index.json").unwrap(), "https://cdn.example.com/x/launcher/index.json");
}

#[test]
fn resource_base_prefers_resources_base_path() {
    assert_eq!(res_base(&obj(vec![("resourcesBasePath", s("a")), ("baseUrl", s("b"))])).as_deref(), Some("a"));
    assert_eq!(res_base(&obj(vec![("baseUrl", s("b"))])).as_deref(), Some("b"));
    assert_eq!(res_base(&obj(vec![("resourcesBasePath", Json::Null), ("baseUrl", s("b"))])), None);
}

#[test]
fn local_files() {
    let doc = local_config_doc("2.4.0", "10004");
    assert_eq!(local_version_of(Some(&doc)), "2.4.0");
    assert_eq!(local_version_of(None), "unknown");
    let m = predownload_marker(&predownload_marker_doc("2.5.0", "global"));
    assert_eq!((m.version.as_str(), m.server.as_str()), ("2.5.0", "global"));
    let m = predownload_marker(&obj(vec![]));
    assert_eq!((m.version.as_str(), m.server.as_str()), ("unknown", ""));
}

fn marker(v: &str, s: &str) -> PredownloadMarker {
    PredownloadMarker { version: v.into(), server: s.into() }
}

#[test]
fn update_decisions() {
    assert_eq!(plan_update("2.4.0", "2.4.0", Some(&marker("2.4.0", "cn")), "cn"), UpdatePlan::UpToDate);
    assert_eq!(plan_update("2.3.0", "2.4.0", None, "cn"), UpdatePlan::FreshDownload);
    assert_eq!(plan_update("2.3.0", "2.4.0", Some(&marker("2.4.0", "cn")), "cn"), UpdatePlan::ApplyPredownload);
    assert_eq!(plan_update("2.3.0", "2.4.0", Some(&marker("2.3.5", "cn")), "cn"), UpdatePlan::OutdatedPredownload);
    assert_eq!(plan_update("2.3.0", "2.4.0", Some(&marker("2.4.0", "global")), "cn"), UpdatePlan::ForeignPredownload);
    assert_eq!(plan_update("2.3.0", "2.4.0", Some(&marker("2.5.0", "cn")), "cn"), UpdatePlan::FreshDownload);
    assert_eq!(plan_update("unknown", "2.4.0", Some(&marker("2.3.0", "global")), "cn"), UpdatePlan::OutdatedPredownload);
}

#[test]
fn download_mechanics() {
    assert_eq!(download_route(Some(100), 100), DownloadRoute::ReuseTemp);
    assert_eq!(download_route(Some(5), 5 * 1024 * 1024), DownloadRoute::Chunked);
    assert_eq!(download_route(None, 4 * 1024 * 1024), DownloadRoute::Single);
    assert_eq!(resume_point(Some(10), 10), None);
    assert_eq!(resume_point(Some(4), 10), Some(4));
    assert_eq!(resume_point(None, 10), Some(0));
    assert_eq!(resume_range_header(1024), "bytes=1024-");
    assert_eq!(range_header(0, 67108863), "bytes=0-67108863");
    assert!(status_acceptable(200) && status_acceptable(206) && !status_acceptable(404));
    assert_eq!(net_msg(http_status_error(404)), "HTTP 404");
    assert_eq!(attempt_outcome(10, 10, Some("m".into())).unwrap().as_deref(), Some("m"));
    assert_eq!(attempt_outcome(11, 10, Some("m".into())).unwrap(), None);
    assert_eq!(net_msg(attempt_outcome(9, 10, None).unwrap_err()), "下载不完整");
    assert_eq!(chunk_len(100, 199), 100);
    assert_eq!(net_msg(merged_size_error(10, 9)), "下载不完整: 期望 10 字节，实际 9 字节");
    assert_eq!(net_msg(chunk_size_error("x.chunk_1", 5, 4)), "分块 x.chunk_1 下载不完整: 期望 5 字节，实际 4 字节");
    assert_eq!(retry_delay_secs(0), 1);
    assert_eq!(retry_delay_secs(2), 3);
    assert!(!is_last_attempt(1) && is_last_attempt(2));
}

#[test]
fn retry_schedule() {
    assert_eq!(retry_after_failure(0), Some(1));
    assert_eq!(retry_after_failure(1), Some(2));
    assert_eq!(retry_after_failure(2), None);
}

#[test]
fn chunk_attempt_steps() {
    let c = "/g/file.tmp.chunk0";
    assert!(matches!(chunk_attempt_step(0, c, 10, ChunkEvent::Status(200)), ChunkAction::ReadBody));
    assert!(matches!(chunk_attempt_step(2, c, 10, ChunkEvent::Status(206)), ChunkAction::ReadBody));
    assert!(matches!(
        chunk_attempt_step(0, c, 10, ChunkEvent::Status(500)),
        ChunkAction::Retry { delay_secs: 1, discard: false }
    ));
    match chunk_attempt_step(2, c, 10, ChunkEvent::Status(404)) {
        ChunkAction::Fail { error, discard } => {
            assert!(!discard);
            assert_eq!(net_msg(error), "HTTP 404");
        }
        other => panic!("unexpected {:?}", other),
    }
    assert!(matches!(
        chunk_attempt_step(1, c, 10, ChunkEvent::RequestFailed("timeout".into())),
        ChunkAction::Retry { delay_secs: 2, discard: false }
    ));
    match chunk_attempt_step(2, c, 10, ChunkEvent::RequestFailed("timeout".into())) {
        ChunkAction::Fail { error, discard } => {
            assert!(!discard);
            assert_eq!(net_msg(error), "HTTP 请求失败: timeout");
        }
        other => panic!("unexpected {:?}", other),
    }
    assert!(matches!(chunk_attempt_step(0, c, 10, ChunkEvent::Received(10)), ChunkAction::Done));
    assert!(matches!(
        chunk_attempt_step(0, c, 10, ChunkEvent::Received(7)),
        ChunkAction::Retry { delay_secs: 1, discard: true }
    ));
    match chunk_attempt_step(2, c, 10, ChunkEvent::Received(7)) {
        ChunkAction::Fail { error, discard } => {
            assert!(discard);
            assert_eq!(net_msg(error), "分块 /g/file.tmp.chunk0 下载不完整: 期望 10 字节，实际 7 字节");
        }
        other => panic!("unexpected {:?}", other),
    }
}

#[test]
fn failures_are_aggregated() {
    assert!(batch_result(&vec![]).is_ok());
    assert!(batch_result(&vec![true, true]).is_ok());
    assert_eq!(net_msg(batch_result(&vec![true, false, true]).unwrap_err()), "部分文件下载失败，请重试。");
    assert!(chunked_result(&vec![true; 8]).is_ok());
    assert_eq!(net_msg(chunked_result(&vec![false]).unwrap_err()), "分块下载失败，请重试。");
}

#[test]
fn predownload_files_to_move() {
    let root = "/g/.predownload";
    assert_eq!(
        predownload_destination(PathStyle::Unix, root, "/g", "/g/.predownload/Client/Content/a.pak", true),
        Some("/g/Client/Content/a.pak".to_string())
    );
    assert_eq!(predownload_destination(PathStyle::Unix, root, "/g", "/g/.predownload/predownload_version.json", true), None);
    assert_eq!(predownload_destination(PathStyle::Unix, root, "/g", "/g/.predownload/Client", false), None);
    assert_eq!(predownload_destination(PathStyle::Unix, root, "/g", "/g/.predownload", false), None);
    assert_eq!(
        predownload_destination(PathStyle::Windows, root, "D:\\g", "/g/.predownload\\Client\\b.dll", true),
        Some("D:\\g\\Client\\b.dll".to_string())
    );
    assert_eq!(DOWNLOAD_CONCURRENT, 8);
    assert_eq!(VERIFY_CONCURRENT, 64);
}

#[test]
fn steps_of_a_sync_and_a_full_download() {
    assert_eq!(steps_after_sync_plan(0), vec![SyncStep::ReportAllPassed]);
    assert_eq!(
        steps_after_sync_plan(3),
        vec![SyncStep::DownloadTasks, SyncStep::SaveMd5Cache, SyncStep::RefreshLocalConfig]
    );
    assert_eq!(
        full_download_steps(),
        vec![
            FullDownloadStep::AnnounceStart,
            FullDownloadStep::CreateGameFolder,
            FullDownloadStep::Sync { force_check_md5: false },
            FullDownloadStep::AnnounceCheck,
            FullDownloadStep::Sync { force_check_md5: true },
            FullDownloadStep::AnnounceDone,
        ]
    );
    assert_eq!(full_download_done_message("cn"), "cn 服完整客户端下载完毕！");
    match predownload_missing_error() {
        WwError::Config(m) => assert_eq!(m, "预下载目录不存在"),
        other => panic!("unexpected {:?}", other),
    }
}
