use sigscan::blocklist::BlocklistStore;
use sigscan::cache::BlocklistCache;
use sigscan::digest::digest_bytes;
use sigscan::scan::scan;
use sigscan::scan::scan_lines;
use sigscan::scan::classify;
use sigscan::scan::ScanItem;
use sigscan::scan::ScanResult;
use sigscan::walk::is_candidate_path;
use sigscan::walk::filter_candidates;

fn lines(raw: &[&str]) -> Vec<String> {
    raw.iter().map(|s| s.to_string()).collect()
}

#[test]
fn candidate_filter_accepts_exe_and_dll_only() {
    assert!(is_candidate_path("a.exe"));
    assert!(is_candidate_path("lib.dll"));
    assert!(is_candidate_path("dir/sub/tool.exe"));
    assert!(is_candidate_path("C:\\dir\\tool.dll"));
    assert!(is_candidate_path("archive.tar.exe"));
    assert!(!is_candidate_path("b.txt"));
    assert!(!is_candidate_path("x.EXE"));
    assert!(!is_candidate_path(".exe"));
    assert!(!is_candidate_path("dir/.dll"));
    assert!(!is_candidate_path("exe"));
    assert!(!is_candidate_path(""));
}

#[test]
fn filtering_keeps_candidates_in_walk_order() {
    let walked = lines(&["r/a.exe", "r/b.txt", "r/c.dll", "r/.exe", "r/d.EXE", "r/e.exe"]);
    let candidates = filter_candidates(&walked);
    assert_eq!(candidates, lines(&["r/a.exe", "r/c.dll", "r/e.exe"]));
}

#[test]
fn result_lines_have_the_exact_formats() {
    let flagged = ScanResult::Flagged { path: "p.exe".to_string(), digest: "d1".to_string() };
    assert_eq!(flagged.format_line(), "🚨 MALWARE DETECTED: p.exe (hash: d1)");
    let clean = ScanResult::Clean { path: "p.exe".to_string(), digest: "d1".to_string() };
    assert_eq!(clean.format_line(), "✅ Clean: p.exe");
    let error = ScanResult::ReadError { path: "p.exe".to_string(), message: "gone".to_string() };
    assert_eq!(error.format_line(), "❌ Error reading p.exe: gone");
}

#[test]
fn classification_follows_membership() {
    let store = BlocklistStore::from_lines(&lines(&["bad1", "bad2"]));
    let flagged = classify(&"a".to_string(), &Ok("bad1".to_string()), &store);
    assert!(matches!(flagged, ScanResult::Flagged { .. }));
    let clean = classify(&"a".to_string(), &Ok("good".to_string()), &store);
    assert!(matches!(clean, ScanResult::Clean { .. }));
    let error = classify(&"a".to_string(), &Err("denied".to_string()), &store);
    assert!(matches!(error, ScanResult::ReadError { .. }));
}

#[test]
fn flagged_candidate_yields_exactly_one_flagged_line() {
    // One candidate file whose digest is on the blocklist.
    let content = b"malicious bytes".to_vec();
    let digest = digest_bytes(&content);
    let store = BlocklistStore::from_lines(&lines(&[digest.as_str()]));
    let items = vec![ScanItem { path: "root/a.exe".to_string(), outcome: Ok(digest.clone()) }];
    let result = scan(Ok(&store), &items).unwrap();
    assert_eq!(result.len(), 1);
    assert_eq!(result[0], format!("🚨 MALWARE DETECTED: root/a.exe (hash: {})", digest));
}

#[test]
fn non_candidates_are_never_visited_and_clean_files_report_clean() {
    // A directory holding b.txt and c.dll against an empty blocklist: the
    // filter drops the .txt file before any digesting, and the .dll is clean.
    let store = BlocklistStore::from_lines(&lines(&[]));
    let walked = lines(&["root/b.txt", "root/c.dll"]);
    let candidates = filter_candidates(&walked);
    assert_eq!(candidates, vec!["root/c.dll".to_string()]);
    let mut items = Vec::new();
    for path in candidates {
        let digest = digest_bytes(&b"library bytes".to_vec());
        items.push(ScanItem { path, outcome: Ok(digest) });
    }
    let result = scan(Ok(&store), &items).unwrap();
    assert_eq!(result.len(), 1);
    assert_eq!(result[0], "✅ Clean: root/c.dll");
}

#[test]
fn empty_root_yields_empty_list_not_error() {
    let store = BlocklistStore::from_lines(&lines(&["feed"]));
    let items: Vec<ScanItem> = Vec::new();
    let result = scan(Ok(&store), &items);
    assert_eq!(result, Ok(Vec::new()));
}

#[test]
fn blocklist_failure_aborts_with_error_and_no_list() {
    let items = vec![ScanItem { path: "root/a.exe".to_string(), outcome: Ok("d".to_string()) }];
    let result = scan(Err("No such file or directory (os error 2)".to_string()), &items);
    assert!(result.is_err());
    assert_eq!(result.unwrap_err(), "No such file or directory (os error 2)");
}

#[test]
fn a_vanished_file_yields_one_error_line_and_the_rest_proceed() {
    let store = BlocklistStore::from_lines(&lines(&["bad"]));
    let items = vec![
        ScanItem { path: "root/a.exe".to_string(), outcome: Ok("bad".to_string()) },
        ScanItem { path: "root/b.dll".to_string(), outcome: Err("file vanished".to_string()) },
        ScanItem { path: "root/c.exe".to_string(), outcome: Ok("good".to_string()) },
    ];
    let result = scan(Ok(&store), &items).unwrap();
    assert_eq!(result.len(), 3);
    assert!(result.contains(&"🚨 MALWARE DETECTED: root/a.exe (hash: bad)".to_string()));
    assert!(result.contains(&"❌ Error reading root/b.dll: file vanished".to_string()));
    assert!(result.contains(&"✅ Clean: root/c.exe".to_string()));
}

#[test]
fn scan_lines_gives_one_line_per_item() {
    let store = BlocklistStore::from_lines(&lines(&["bad"]));
    let items = vec![
        ScanItem { path: "x.exe".to_string(), outcome: Ok("bad".to_string()) },
        ScanItem { path: "y.dll".to_string(), outcome: Ok("fine".to_string()) },
    ];
    let result = scan_lines(&items, &store);
    assert_eq!(result.len(), 2);
}

#[test]
fn cache_keeps_the_first_store_regardless_of_later_paths() {
    // A store from source A is cached first; a later install built from a
    // different source changes nothing.
    let mut cache = BlocklistCache::new();
    assert!(cache.cached().is_none());
    let from_a = BlocklistStore::from_lines(&lines(&["entry-a"]));
    cache.install(from_a);
    let cached = cache.cached().unwrap();
    assert!(cached.contains(&"entry-a".to_string()));
    let from_b = BlocklistStore::from_lines(&lines(&["entry-b"]));
    cache.install(from_b);
    let second = cache.cached().unwrap();
    assert!(second.contains(&"entry-a".to_string()));
    assert!(!second.contains(&"entry-b".to_string()));
}
