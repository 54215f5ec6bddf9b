use ww_manager::chunks::{chunk_count_for, plan_chunks, MIN_CHUNKED_SIZE};
use ww_manager::paths::{
    chunk_path, extension, file_name, join, strip_prefix, temp_path_for, with_bak_extension,
    with_extension, PathStyle,
};

const U: PathStyle = PathStyle::Unix;
const W: PathStyle = PathStyle::Windows;

#[test]
fn file_names_and_extensions() {
    assert_eq!(file_name(U, "a/b/c.txt").as_deref(), Some("c.txt"));
    assert_eq!(file_name(U, "c.txt").as_deref(), Some("c.txt"));
    assert_eq!(file_name(W, "a\\b\\c.pak").as_deref(), Some("c.pak"));
    assert_eq!(extension(U, "a/b.tar.gz").as_deref(), Some("gz"));
    assert_eq!(extension(U, "a/.bashrc").as_deref(), None);
    assert_eq!(extension(U, "a/noext").as_deref(), None);
    assert_eq!(extension(U, "a.b/noext").as_deref(), None);
    assert_eq!(extension(U, "a/b.").as_deref(), Some(""));
}

#[test]
fn file_names_follow_the_platform() {
    // on Unix a backslash is part of a file name
    assert_eq!(file_name(U, "a\\b\\c.pak").as_deref(), Some("a\\b\\c.pak"));
    assert_eq!(file_name(W, "a/b\\c.pak").as_deref(), Some("c.pak"));
    // trailing separators and `.` components do not count
    assert_eq!(file_name(U, "a/b/").as_deref(), Some("b"));
    assert_eq!(file_name(U, "a/b/.").as_deref(), Some("b"));
    assert_eq!(file_name(U, "a/b/./").as_deref(), Some("b"));
    assert_eq!(file_name(W, "a\\b\\").as_deref(), Some("b"));
    // no file name
    assert_eq!(file_name(U, "a/..").as_deref(), None);
    assert_eq!(file_name(U, "/").as_deref(), None);
    assert_eq!(file_name(U, ".").as_deref(), None);
    assert_eq!(file_name(U, "").as_deref(), None);
    // drive prefixes exist on Windows only
    assert_eq!(file_name(W, "C:").as_deref(), None);
    assert_eq!(file_name(W, "C:\\").as_deref(), None);
    assert_eq!(file_name(W, "C:x.pak").as_deref(), Some("x.pak"));
    assert_eq!(file_name(U, "C:x.pak").as_deref(), Some("C:x.pak"));
}

#[test]
fn replacing_extensions() {
    assert_eq!(with_extension(U, "a/b.tar.gz", "bak"), "a/b.tar.bak");
    assert_eq!(with_extension(U, "a/b", "txt"), "a/b.txt");
    assert_eq!(with_extension(U, "a/b.txt", ""), "a/b");
    // what follows the file name is dropped
    assert_eq!(with_extension(U, "a/", "txt"), "a.txt");
    assert_eq!(with_extension(U, "a/b/.", "txt"), "a/b.txt");
    assert_eq!(with_extension(U, "a/..", "txt"), "a/..");
    assert_eq!(with_extension(W, "C:x", "txt"), "C:x.txt");
}

#[test]
fn joining_paths() {
    assert_eq!(join(U, "/games/ww", "Client/x.pak"), "/games/ww/Client/x.pak");
    assert_eq!(join(U, "/games/ww/", "Client/x.pak"), "/games/ww/Client/x.pak");
    assert_eq!(join(U, "", "x"), "x");
    assert_eq!(join(U, "/games/ww", "/abs/x"), "/abs/x");
    assert_eq!(join(U, "/games\\", "x"), "/games\\/x");
    assert_eq!(join(W, "D:\\games\\ww", "Client/x.pak"), "D:\\games\\ww\\Client/x.pak");
    assert_eq!(join(W, "D:\\games\\ww\\", "x"), "D:\\games\\ww\\x");
    assert_eq!(join(W, "D:\\games", "\\abs\\x"), "D:\\abs\\x");
    assert_eq!(join(W, "\\games", "\\abs"), "\\abs");
    assert_eq!(join(W, "D:\\games", "E:\\x"), "E:\\x");
    assert_eq!(join(W, "D:", "x"), "D:x");
}

#[test]
fn stripping_prefixes() {
    assert_eq!(strip_prefix(U, "/g/ww/Client/x.pak", "/g/ww").as_deref(), Some("Client/x.pak"));
    assert_eq!(strip_prefix(U, "/g/ww/Client/x.pak", "/g/ww/").as_deref(), Some("Client/x.pak"));
    assert_eq!(strip_prefix(U, "/g/ww", "/g/ww").as_deref(), Some(""));
    assert_eq!(strip_prefix(U, "/g/www/x", "/g/ww"), None);
    assert_eq!(strip_prefix(U, "/h/x", "/g"), None);
    assert_eq!(strip_prefix(U, "C:\\g\\x", "C:\\g"), None);
    assert_eq!(strip_prefix(W, "C:\\g\\x", "C:\\g").as_deref(), Some("x"));
}

#[test]
fn disabled_and_temporary_names() {
    assert_eq!(with_bak_extension(U, "Client/Binaries/Win64/kuro_login.dll"), "Client/Binaries/Win64/kuro_login.dll.bak");
    assert_eq!(with_bak_extension(W, "D:\\ww\\Client/Binaries/Win64/kuro_login.dll"), "D:\\ww\\Client/Binaries/Win64/kuro_login.dll.bak");
    assert_eq!(with_bak_extension(U, "dir/noext"), "dir/noext.bak");
    assert_eq!(temp_path_for(U, "a/b.pak"), "a/b.pak.temp");
    assert_eq!(temp_path_for(U, "a/b"), "a/b.tmp.temp");
    assert_eq!(chunk_path(U, "a/b.pak.temp", 3), "a/b.pak.chunk_3");
}

#[test]
fn chunk_counts() {
    assert_eq!(chunk_count_for(MIN_CHUNKED_SIZE + 1), 4);
    assert_eq!(chunk_count_for(300 * 1024 * 1024), 5);
    assert_eq!(chunk_count_for(64 * 1024 * 1024 * 6), 6);
    assert_eq!(chunk_count_for(1024 * 1024 * 1024), 8);
    assert_eq!(chunk_count_for(0), 4);
}

#[test]
fn chunk_counts_never_decrease() {
    let mut last = 0;
    for mib in (0..2000u64).step_by(7) {
        let c = chunk_count_for(mib * 1024 * 1024);
        assert!(c >= last && (4..=8).contains(&c));
        last = c;
    }
}

fn check_partition(size: u64) {
    let plan = plan_chunks(size);
    assert!(!plan.is_empty());
    assert_eq!(plan[0].start, 0);
    assert_eq!(plan.last().unwrap().end, size - 1);
    for w in plan.windows(2) {
        assert_eq!(w[0].end + 1, w[1].start);
    }
    for (i, c) in plan.iter().enumerate() {
        assert_eq!(c.index, i as u64);
        assert!(c.start <= c.end);
    }
    assert!(plan.len() <= chunk_count_for(size));
}

#[test]
fn chunks_partition_the_file() {
    for size in [1u64, 2, 3, 5, 7, 4 * 1024 * 1024 + 1, 10_000_019, 300 * 1024 * 1024 + 3, 5 * 1024 * 1024 * 1024] {
        check_partition(size);
    }
}

#[test]
fn chunk_plan_exact_values() {
    let plan = plan_chunks(10);
    // 4 chunks of ceil(10 / 4) = 3 bytes: 0-2, 3-5, 6-8, 9-9
    let ranges: Vec<(u64, u64)> = plan.iter().map(|c| (c.start, c.end)).collect();
    assert_eq!(ranges, vec![(0, 2), (3, 5), (6, 8), (9, 9)]);
    // 5 bytes in 4 chunks of 2: 0-1, 2-3, 4-4 (the fourth would start past the end)
    let plan = plan_chunks(5);
    let ranges: Vec<(u64, u64)> = plan.iter().map(|c| (c.start, c.end)).collect();
    assert_eq!(ranges, vec![(0, 1), (2, 3), (4, 4)]);
}

#[test]
fn chunk_count_at_the_largest_sizes() {
    assert_eq!(chunk_count_for(u64::MAX), 8);
    assert_eq!(chunk_count_for(u64::MAX - 64 * 1024 * 1024 + 1), 8);
}

#[test]
fn chunk_plan_of_the_largest_size() {
    let plan = plan_chunks(u64::MAX);
    // ceil((2^64 - 1) / 8) = 2^61 bytes per chunk
    let cs: u64 = 1 << 61;
    assert_eq!(plan.len(), 8);
    assert_eq!(plan[0].start, 0);
    assert_eq!(plan[0].end, cs - 1);
    assert_eq!(plan[7].start, 7 * cs);
    assert_eq!(plan[7].end, u64::MAX - 1);
}
