use std::collections::{HashMap, HashSet};

use mojify_sync::catalog::{malformed, CatalogEntry, FetchError, FileVariant};
use mojify_sync::error::SyncError;
use mojify_sync::mapping::MappingStore;
use mojify_sync::sync::{Counters, EmoteFailure, Phase, Step, SyncEngine, SyncReport};

fn entry(id: &str, name: &str) -> CatalogEntry {
    CatalogEntry {
        id: id.to_string(),
        name: name.to_string(),
        host_url: "//cdn.7tv.app/emote/x".to_string(),
        files: vec![FileVariant {
            name: "4x.gif".to_string(),
            format: "GIF".to_string(),
            width: 128,
            height: 128,
            frame_count: 10,
            size: 2048,
        }],
    }
}

/// A stand-in for the network and the disk.
struct World {
    catalogs: HashMap<String, Result<Option<Vec<(String, String)>>, String>>,
    files: HashSet<String>,
    failing_urls: HashSet<String>,
    persist_fails: bool,
}

impl World {
    fn new() -> World {
        World {
            catalogs: HashMap::new(),
            files: HashSet::new(),
            failing_urls: HashSet::new(),
            persist_fails: false,
        }
    }

    fn catalog(&mut self, channel: &str, emotes: &[(&str, &str)]) {
        let list = emotes.iter().map(|(i, n)| (i.to_string(), n.to_string())).collect();
        self.catalogs.insert(channel.to_string(), Ok(Some(list)));
    }

    fn outcome(&self, channel: &str) -> Result<Option<Vec<CatalogEntry>>, FetchError> {
        match self.catalogs.get(channel) {
            None => Err(FetchError::HttpStatus(404)),
            Some(Err(raw)) => Err(malformed("expected value".to_string(), raw)),
            Some(Ok(None)) => Ok(None),
            Some(Ok(Some(list))) => Ok(Some(list.iter().map(|(i, n)| entry(i, n)).collect())),
        }
    }

    /// Runs a whole sync and returns the report, the mapping text and the
    /// persistence status.
    fn run(&mut self, list: &str, mapping: MappingStore) -> Result<(SyncReport, String, Result<(), SyncError>), SyncError> {
        let mut engine = SyncEngine::start(list, mapping)?;
        loop {
            match engine.next_step() {
                Step::FetchCatalog { channel_id, .. } => {
                    let o = self.outcome(&channel_id);
                    engine.on_catalog(o);
                }
                Step::CheckExisting { relative_path } => {
                    let exists = self.files.contains(&relative_path);
                    engine.on_existing(exists);
                }
                Step::Download { url, relative_path } => {
                    if self.failing_urls.contains(&url) {
                        engine.on_download(Err(EmoteFailure::HttpStatus(500)));
                    } else {
                        self.files.insert(relative_path);
                        engine.on_download(Ok(()));
                    }
                }
                Step::PersistMapping => {
                    let text = engine.mapping_text();
                    let persisted = if self.persist_fails { Err("disk full".to_string()) } else { Ok(()) };
                    let (report, status) = engine.finish(persisted);
                    return Ok((report, text, status));
                }
            }
        }
    }
}

fn counters(processed: u64, downloaded: u64, skipped: u64, failed: u64) -> Counters {
    Counters { processed, downloaded, skipped, failed }
}

#[test]
fn one_existing_one_new_and_an_empty_channel() {
    let mut w = World::new();
    w.catalog("123", &[("e1", "Old"), ("e2", "New")]);
    w.catalog("456", &[]);
    w.files.insert("7tv_emotes/123/Old.gif".to_string());
    let (report, text, status) = w.run("123, 456", MappingStore::new()).unwrap();
    assert_eq!(status, Ok(()));
    assert_eq!(report.totals, counters(2, 1, 1, 0));
    assert_eq!(report.channels.len(), 2);
    assert_eq!(report.channels[0].channel_id, "123");
    assert_eq!(report.channels[0].counters, counters(2, 1, 1, 0));
    assert_eq!(report.channels[1].channel_id, "456");
    assert_eq!(report.channels[1].counters, counters(0, 0, 0, 0));
    assert_eq!(report.channels[1].fetch_error, None);
    let (m, _) = MappingStore::from_json(&text);
    assert_eq!(m.get(&":Old:".to_string()), Some("7tv_emotes/123/Old.gif".to_string()));
    assert_eq!(m.get(&":New:".to_string()), Some("7tv_emotes/123/New.gif".to_string()));
}

#[test]
fn empty_input_is_fatal() {
    let mut w = World::new();
    assert!(matches!(w.run("", MappingStore::new()), Err(SyncError::InvalidChannelList)));
    assert!(matches!(SyncEngine::start("  ,  ", MappingStore::new()), Err(SyncError::InvalidChannelList)));
}

#[test]
fn malformed_catalog_is_contained_to_its_channel() {
    let mut w = World::new();
    w.catalog("1", &[("a", "A")]);
    w.catalogs.insert("2".to_string(), Err("{\"emote_set\": 5".to_string()));
    w.catalog("3", &[("b", "B"), ("c", "C")]);
    let (report, _, status) = w.run("1,2,3", MappingStore::new()).unwrap();
    assert_eq!(status, Ok(()));
    assert_eq!(report.totals, counters(3, 3, 0, 0));
    assert_eq!(report.channels[1].counters, counters(0, 0, 0, 0));
    assert!(matches!(report.channels[1].fetch_error, Some(FetchError::Malformed { .. })));
    assert_eq!(report.channels[0].counters, counters(1, 1, 0, 0));
    assert_eq!(report.channels[2].counters, counters(2, 2, 0, 0));
}

#[test]
fn http_failure_and_absent_set_are_not_errors() {
    let mut w = World::new();
    w.catalogs.insert("none".to_string(), Ok(None));
    w.catalog("ok", &[("a", "A")]);
    let (report, _, status) = w.run("missing,none,ok", MappingStore::new()).unwrap();
    assert_eq!(status, Ok(()));
    assert_eq!(report.channels[0].fetch_error, Some(FetchError::HttpStatus(404)));
    assert_eq!(report.channels[1].fetch_error, None);
    assert_eq!(report.totals, counters(1, 1, 0, 0));
}

#[test]
fn corrupt_mapping_file_is_replaced_by_this_run() {
    let (m, warned) = MappingStore::from_json("not json at all");
    assert!(warned);
    let mut w = World::new();
    w.catalog("9", &[("a", "A")]);
    let (_, text, status) = w.run("9", m).unwrap();
    assert_eq!(status, Ok(()));
    let (fresh, warned_again) = MappingStore::from_json(&text);
    assert!(!warned_again);
    let mut expected = MappingStore::new();
    expected.insert(":A:".to_string(), "7tv_emotes/9/A.gif".to_string());
    assert_eq!(fresh.to_json(), expected.to_json());
}

#[test]
fn download_failure_does_not_stop_the_run() {
    let mut w = World::new();
    w.catalog("c1", &[("x1", "One"), ("bad", "Two"), ("x3", "Three")]);
    w.catalog("c2", &[("x4", "Four")]);
    w.failing_urls.insert("https://cdn.7tv.app/emote/bad/4x.gif".to_string());
    let (report, text, _) = w.run("c1,c2", MappingStore::new()).unwrap();
    assert_eq!(report.channels[0].counters, counters(3, 2, 0, 1));
    assert_eq!(report.channels[1].counters, counters(1, 1, 0, 0));
    assert_eq!(report.totals, counters(4, 3, 0, 1));
    assert_eq!(report.failures.len(), 1);
    assert_eq!(report.failures[0].channel_id, "c1");
    assert_eq!(report.failures[0].emote_name, "Two");
    assert_eq!(report.failures[0].reason, EmoteFailure::HttpStatus(500));
    let (m, _) = MappingStore::from_json(&text);
    assert!(!m.contains(&":Two:".to_string()));
    assert!(m.contains(&":Three:".to_string()));
    assert!(m.contains(&":Four:".to_string()));
}

#[test]
fn second_run_downloads_nothing_and_keeps_mapping() {
    let mut w = World::new();
    w.catalog("123", &[("e1", "A"), ("e2", "B")]);
    w.catalog("456", &[("e3", "C")]);
    let (first, text1, _) = w.run("123,456", MappingStore::new()).unwrap();
    assert_eq!(first.totals, counters(3, 3, 0, 0));
    let (loaded, _) = MappingStore::from_json(&text1);
    let (second, text2, _) = w.run("123,456", loaded).unwrap();
    assert_eq!(second.totals, counters(3, 0, 3, 0));
    assert_eq!(text1, text2);
}

#[test]
fn existing_files_are_backfilled_into_mapping() {
    let mut w = World::new();
    w.catalog("7", &[("e1", "Lost")]);
    w.files.insert("7tv_emotes/7/Lost.gif".to_string());
    let mut m = MappingStore::new();
    m.insert(":Kept:".to_string(), "7tv_emotes/1/Kept.png".to_string());
    let (report, text, _) = w.run("7", m).unwrap();
    assert_eq!(report.totals, counters(1, 0, 1, 0));
    let (after, _) = MappingStore::from_json(&text);
    assert_eq!(after.get(&":Lost:".to_string()), Some("7tv_emotes/7/Lost.gif".to_string()));
    assert_eq!(after.get(&":Kept:".to_string()), Some("7tv_emotes/1/Kept.png".to_string()));
}

#[test]
fn existing_file_does_not_override_mapped_token() {
    let mut w = World::new();
    w.catalog("7", &[("e1", "Dup")]);
    w.files.insert("7tv_emotes/7/Dup.gif".to_string());
    let mut m = MappingStore::new();
    m.insert(":Dup:".to_string(), "7tv_emotes/1/Dup.png".to_string());
    let (_, text, _) = w.run("7", m).unwrap();
    let (after, _) = MappingStore::from_json(&text);
    assert_eq!(after.get(&":Dup:".to_string()), Some("7tv_emotes/1/Dup.png".to_string()));
}

#[test]
fn persist_failure_is_reported_distinctly() {
    let mut w = World::new();
    w.catalog("1", &[("a", "A")]);
    w.persist_fails = true;
    let (report, _, status) = w.run("1", MappingStore::new()).unwrap();
    assert_eq!(report.totals, counters(1, 1, 0, 0));
    assert_eq!(status, Err(SyncError::MappingPersist("disk full".to_string())));
}

#[test]
fn failure_list_is_bounded() {
    let mut w = World::new();
    let ids: Vec<(String, String)> = (0..53).map(|i| (format!("id{}", i), format!("E{}", i))).collect();
    let refs: Vec<(&str, &str)> = ids.iter().map(|(a, b)| (a.as_str(), b.as_str())).collect();
    w.catalog("1", &refs);
    for (id, _) in &ids {
        w.failing_urls.insert(format!("https://cdn.7tv.app/emote/{}/4x.gif", id));
    }
    let (report, _, _) = w.run("1", MappingStore::new()).unwrap();
    assert_eq!(report.totals, counters(53, 0, 0, 53));
    assert_eq!(report.failures.len(), 50);
    assert_eq!(report.omitted_failures, 3);
    assert_eq!(report.failures[0].emote_name, "E0");
}

#[test]
fn steps_follow_the_channel_order() {
    let mut w = World::new();
    w.catalog("b", &[("x", "X")]);
    let mut e = SyncEngine::start(" a , b ", MappingStore::new()).unwrap();
    assert_eq!(
        e.next_step(),
        Step::FetchCatalog { channel_id: "a".to_string(), url: "https://7tv.io/v3/users/twitch/a".to_string() }
    );
    e.on_catalog(w.outcome("a"));
    assert_eq!(e.phase, Phase::AwaitCatalog);
    e.on_catalog(w.outcome("b"));
    assert_eq!(e.next_step(), Step::CheckExisting { relative_path: "7tv_emotes/b/X.gif".to_string() });
    e.on_existing(false);
    assert_eq!(
        e.next_step(),
        Step::Download {
            url: "https://cdn.7tv.app/emote/x/4x.gif".to_string(),
            relative_path: "7tv_emotes/b/X.gif".to_string()
        }
    );
    e.on_download(Err(EmoteFailure::Write("read-only".to_string())));
    assert_eq!(e.next_step(), Step::PersistMapping);
}

#[test]
fn error_messages_are_readable() {
    assert_eq!(SyncError::InvalidChannelList.message(), "Invalid channel ID list");
    assert_eq!(SyncError::MappingPersist("x".to_string()).message(), "Failed to save emote mapping: x");
}

#[test]
fn cancel_keeps_completed_work_and_persists() {
    let mut w = World::new();
    w.catalog("1", &[("a", "A"), ("b", "B"), ("c", "C")]);
    w.catalog("2", &[("d", "D")]);
    let mut e = SyncEngine::start("1,2", MappingStore::new()).unwrap();
    e.on_catalog(w.outcome("1"));
    e.on_existing(false);
    e.on_download(Ok(()));
    e.cancel();
    assert_eq!(e.next_step(), Step::PersistMapping);
    assert_eq!(e.totals, counters(1, 1, 0, 0));
    let text = e.mapping_text();
    let (m, _) = MappingStore::from_json(&text);
    assert_eq!(m.get(&":A:".to_string()), Some("7tv_emotes/1/A.gif".to_string()));
    assert!(!m.contains(&":B:".to_string()));
    let (report, status) = e.finish(Ok(()));
    assert_eq!(status, Ok(()));
    assert_eq!(report.channels.len(), 1);
    assert_eq!(report.channels[0].counters, counters(1, 1, 0, 0));
}

#[test]
fn cancel_before_any_catalog() {
    let mut e = SyncEngine::start("1,2", MappingStore::new()).unwrap();
    e.cancel();
    assert_eq!(e.phase, Phase::AwaitPersist);
    let (report, _) = e.finish(Ok(()));
    assert_eq!(report.totals, counters(0, 0, 0, 0));
    assert!(report.channels.is_empty());
}

#[test]
fn backslashes_in_paths_become_forward_slashes() {
    let mut w = World::new();
    w.catalog("a\\b", &[("e1", "Back\\Slash")]);
    let (_, text, _) = w.run("a\\b", MappingStore::new()).unwrap();
    let (m, _) = MappingStore::from_json(&text);
    assert_eq!(m.get(&":Back_Slash:".to_string()), Some("7tv_emotes/a/b/Back_Slash.gif".to_string()));
    assert_eq!(
        mojify_sync::sync::relative_path("x\\y", "f.we\\bp"),
        "7tv_emotes/x/y/f.we/bp"
    );
}

#[test]
fn repeated_run_with_a_failing_emote_downloads_nothing_new() {
    let mut w = World::new();
    w.catalog("1", &[("ok", "Good"), ("bad", "Broken")]);
    w.failing_urls.insert("https://cdn.7tv.app/emote/bad/4x.gif".to_string());
    let (first, text1, _) = w.run("1", MappingStore::new()).unwrap();
    assert_eq!(first.totals, counters(2, 1, 0, 1));
    let (loaded, _) = MappingStore::from_json(&text1);
    let (second, text2, _) = w.run("1", loaded).unwrap();
    assert_eq!(second.totals, counters(2, 0, 1, 1));
    assert_eq!(text1, text2);
}

#[test]
fn channel_list_of_commas_only_is_refused() {
    assert!(matches!(SyncEngine::start(",,,", MappingStore::new()), Err(SyncError::InvalidChannelList)));
}

#[test]
fn malformed_channel_run_equals_run_without_it() {
    let mut w1 = World::new();
    w1.catalog("a", &[("x", "X"), ("y", "Y")]);
    w1.catalogs.insert("b".to_string(), Err("<html>".to_string()));
    w1.catalog("c", &[("z", "Z")]);
    w1.files.insert("7tv_emotes/a/Y.gif".to_string());
    let mut w2 = World::new();
    w2.catalog("a", &[("x", "X"), ("y", "Y")]);
    w2.catalog("c", &[("z", "Z")]);
    w2.files.insert("7tv_emotes/a/Y.gif".to_string());
    let (r1, t1, _) = w1.run("a,b,c", MappingStore::new()).unwrap();
    let (r2, t2, _) = w2.run("a,c", MappingStore::new()).unwrap();
    assert_eq!(r1.totals, r2.totals);
    assert_eq!(r1.totals, counters(3, 2, 1, 0));
    assert_eq!(t1, t2);
    assert_eq!(w1.files, w2.files);
}
