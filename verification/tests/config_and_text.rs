use ww_manager::paths::PathStyle;
use ww_manager::config::{
    appid_to_server, diff_files_for, get_config_file, server_config, server_config_or_error,
    server_configs, server_diff_files, server_for_app_id, AppConfig, CN_API_URL,
};
use ww_manager::error::{json_failure, url_parse_failure, WwError};
use ww_manager::text::{
    concat2, concat3, replace_backslashes, str_eq, str_less, to_decimal, to_hex_lower,
};
use ww_manager::config::config_dir_for;
use ww_manager::text::to_signed_decimal;

#[test]
fn server_table_lists_three_servers() {
    let t = server_configs();
    let keys: Vec<&str> = t.iter().map(|(k, _)| k.as_str()).collect();
    assert_eq!(keys, vec!["cn", "global", "bilibili"]);
    assert_eq!(t[0].1.app_id, "10003");
    assert_eq!(t[1].1.app_id, "50004");
    assert_eq!(t[2].1.app_id, "10004");
    assert_eq!(t[0].1.api_url, CN_API_URL);
    assert!(t[1].1.api_url.contains("G153/50004_"));
}

#[test]
fn app_ids_map_back_to_servers() {
    for (app_id, server) in appid_to_server() {
        assert_eq!(server_for_app_id(&app_id).as_deref(), Some(server.as_str()));
        let cfg = server_config(&server).unwrap();
        assert_eq!(cfg.app_id, app_id);
    }
    assert_eq!(server_for_app_id("99999"), None);
}

#[test]
fn unknown_server_has_no_config() {
    assert!(server_config("eu").is_none());
    match server_config_or_error("eu") {
        Err(WwError::Config(m)) => assert_eq!(m, "无效的服务器类型: eu"),
        _ => panic!("expected a configuration error"),
    }
    assert!(server_config_or_error("global").is_ok());
}

#[test]
fn diff_files_per_server() {
    let t = server_diff_files();
    assert_eq!(t.len(), 3);
    assert_eq!(
        diff_files_for("bilibili").unwrap(),
        vec![
            "Client/Binaries/Win64/bilibili_sdk.dll".to_string(),
            "Client/Content/Paks/pakchunk1-Bilibili-Win64-Shipping.pak".to_string()
        ]
    );
    assert_eq!(diff_files_for("cn"), diff_files_for("global"));
    assert!(diff_files_for("xx").is_none());
}

#[test]
fn config_file_is_in_config_dir() {
    assert_eq!(get_config_file(PathStyle::Unix, "/home/u/.config/ww_manager"), "/home/u/.config/ww_manager/config.json");
    assert_eq!(get_config_file(PathStyle::Unix, "/home/u/.config/ww_manager/"), "/home/u/.config/ww_manager/config.json");
}

#[test]
fn default_app_config_is_empty() {
    let c = AppConfig::default();
    assert!(c.default_path.is_none() && c.latest_available_version.is_none() && c.dx_mode.is_none());
}

#[test]
fn error_messages() {
    assert_eq!(WwError::Network("x".into()).message(), "Network error: x");
    assert_eq!(WwError::Config("y".into()).message(), "Config error: y");
    assert_eq!(WwError::Generic("z".into()).message(), "z");
    assert_eq!(url_parse_failure("relative URL without a base").message(), "Network error: URL parse error: relative URL without a base");
    match json_failure("eof") {
        WwError::Generic(m) => assert_eq!(m, "JSON error: eof"),
        _ => panic!(),
    }
}

#[test]
fn decimal_and_hex() {
    assert_eq!(to_decimal(0), "0");
    assert_eq!(to_decimal(7), "7");
    assert_eq!(to_decimal(1234567890), "1234567890");
    assert_eq!(to_decimal(u64::MAX), "18446744073709551615");
    assert_eq!(to_hex_lower(&[0x00, 0x0f, 0xa5, 0xff]), "000fa5ff");
    assert_eq!(to_hex_lower(&[]), "");
}

#[test]
fn string_helpers() {
    assert!(str_eq("abc", "abc"));
    assert!(!str_eq("abc", "abd"));
    assert_eq!(concat2("a", "b"), "ab");
    assert_eq!(concat3("a", "b", "c"), "abc");
    assert_eq!(replace_backslashes("Client\\Binaries\\x.dll"), "Client/Binaries/x.dll");
}

#[test]
fn lexicographic_order_matches_str() {
    let cases = [("2.3.0", "2.4.1"), ("2.4.1", "2.3.0"), ("2.10", "2.9"), ("a", "ab"), ("ab", "a"), ("", ""), ("", "x"), ("版本", "版")];
    for (a, b) in cases {
        assert_eq!(str_less(a, b), a < b, "{} < {}", a, b);
    }
}

#[test]
fn config_directory_choice() {
    assert_eq!(config_dir_for(PathStyle::Windows, Some("C:\\Users\\a\\AppData\\Roaming".into()), Some("C:\\Users\\a".into())),
        "C:\\Users\\a\\AppData\\Roaming\\ww_manager");
    assert_eq!(config_dir_for(PathStyle::Windows, None, Some("C:\\Users\\a".into())), "C:\\Users\\a\\AppData\\Roaming\\ww_manager");
    assert_eq!(config_dir_for(PathStyle::Unix, Some("ignored".into()), Some("/home/a".into())), "/home/a/.config/ww_manager");
    assert_eq!(config_dir_for(PathStyle::Unix, None, None), "./.config/ww_manager");
    assert_eq!(config_dir_for(PathStyle::Windows, None, None), ".\\AppData\\Roaming\\ww_manager");
}

#[test]
fn signed_decimal_text() {
    assert_eq!(to_signed_decimal(0), "0");
    assert_eq!(to_signed_decimal(-1), "-1");
    assert_eq!(to_signed_decimal(i64::MAX), i64::MAX.to_string());
    assert_eq!(to_signed_decimal(i64::MIN), i64::MIN.to_string());
}
