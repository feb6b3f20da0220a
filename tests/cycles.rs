use media_scan::cache::TimingCache;
use media_scan::cycle::{LocationOutcome, LocationRun, Reply, Stage, Step};
use media_scan::plugin::{MediaLocation, Plugin};
use media_scan::reload::ReloadScheduler;
use media_scan::scan::{DirEntry, DirTree, Extension, FileEntry};
use media_scan::signing::SigningService;
use media_scan::status::ScanStatus;
use media_scan::time::Timestamp;
use rsa::pkcs1::EncodeRsaPrivateKey;

fn at(secs: i64) -> Timestamp {
    Timestamp { secs, nanos: 0 }
}

fn file(path: &str, ext: &str, secs: i64) -> DirEntry {
    DirEntry::File(FileEntry {
        path: path.to_string(),
        path_is_text: true,
        extension: Extension::Text(ext.to_string()),
        modified: Some(at(secs)),
    })
}

fn photos() -> DirTree {
    DirTree {
        entries: vec![
            file("/p/a.jpg", "jpg", 10),
            file("/p/b.txt", "txt", 20),
            DirEntry::Dir(DirTree { entries: vec![file("/p/sub/c.png", "png", 30)] }),
        ],
    }
}

fn s(x: &str) -> String {
    x.to_string()
}

#[test]
fn reload_every_third_cycle() {
    let mut r = ReloadScheduler::new(Some(3));
    assert_eq!(r.remaining, 3);
    assert!(!r.next_cycle());
    assert!(!r.next_cycle());
    assert!(!r.next_cycle());
    assert_eq!(r.remaining, 0);
    assert!(r.next_cycle());
    assert_eq!(r.remaining, 3);
    assert!(!r.next_cycle());
    assert_eq!(r.remaining, 2);
}

#[test]
fn reload_without_interval_never_forces() {
    let mut r = ReloadScheduler::new(None);
    for _ in 0..10 {
        assert!(!r.next_cycle());
    }
}

#[test]
fn reload_interval_zero_forces_every_cycle() {
    let mut r = ReloadScheduler::new(Some(0));
    assert!(r.next_cycle());
    assert!(r.next_cycle());
}

#[test]
fn cache_get_and_update() {
    let c = TimingCache::new();
    assert_eq!(c.get(&s("/p")), None);
    let c = c.with_cutoff(&s("/p"), at(5));
    let c = c.with_cutoff(&s("/q"), at(7));
    let c = c.with_cutoff(&s("/p"), at(9));
    assert_eq!(c.get(&s("/p")), Some(at(9)));
    assert_eq!(c.get(&s("/q")), Some(at(7)));
    assert_eq!(c.get(&s("/r")), None);
    assert_eq!(c.entries.len(), 2);
    let d = c.duplicate();
    assert_eq!(d.get(&s("/p")), Some(at(9)));
}

fn saved(step: &Step) -> TimingCache {
    match step {
        Step::SaveCache(c) => c.duplicate(),
        _ => panic!("expected a cache save"),
    }
}

#[test]
fn first_encounter_saves_sentinel_then_scans() {
    let mut cache = TimingCache::new();
    let (mut run, step) = LocationRun::start(&s("Photos"), &s("/p"), false, &cache);
    assert_eq!(run.stage, Stage::SavingSentinel);
    assert_eq!(saved(&step).get(&s("/p")), Some(Timestamp::epoch()));
    let step = run.advance(&mut cache, Reply::CacheSaved(true));
    assert_eq!(cache.get(&s("/p")), Some(Timestamp::epoch()));
    assert_eq!(run.cutoff, Timestamp::epoch());
    assert!(matches!(step, Step::List(ref p) if p == "/p"));
    let step = run.advance(&mut cache, Reply::Listed(Some(photos())));
    match step {
        Step::FindExisting(paths) => assert_eq!(paths, vec!["/p/a.jpg", "/p/sub/c.png"]),
        _ => panic!("expected a lookup"),
    }
    let step = run.advance(&mut cache, Reply::Existing(Some(vec![s("/p/a.jpg")])));
    match step {
        Step::Insert(batch) => {
            assert_eq!(batch.len(), 1);
            assert_eq!(batch[0].id, "/p/sub/c.png");
            assert_eq!(batch[0].event.path, "/p/sub/c.png");
            assert_eq!(batch[0].timing, at(30));
            assert_eq!(batch[0].event.location_name, "Photos");
        }
        _ => panic!("expected an insert"),
    }
    let step = run.advance(&mut cache, Reply::Inserted(true));
    assert_eq!(saved(&step).get(&s("/p")), Some(at(30)));
    assert_eq!(cache.get(&s("/p")), Some(Timestamp::epoch()));
    let step = run.advance(&mut cache, Reply::CacheSaved(true));
    assert!(matches!(step, Step::Done(LocationOutcome::Indexed)));
    assert_eq!(cache.get(&s("/p")), Some(at(30)));
}

#[test]
fn failed_sentinel_save_stops_the_location() {
    let mut cache = TimingCache::new();
    let (mut run, _) = LocationRun::start(&s("Photos"), &s("/p"), false, &cache);
    let step = run.advance(&mut cache, Reply::CacheSaved(false));
    assert!(matches!(step, Step::Done(LocationOutcome::CacheFailed)));
    assert_eq!(cache.get(&s("/p")), None);
}

#[test]
fn listing_and_query_failures_leave_cache() {
    let mut cache = TimingCache::new().with_cutoff(&s("/p"), at(3));
    let (mut run, step) = LocationRun::start(&s("Photos"), &s("/p"), false, &cache);
    assert_eq!(run.cutoff, at(3));
    assert!(matches!(step, Step::List(_)));
    let step = run.advance(&mut cache, Reply::Listed(None));
    assert!(matches!(step, Step::Done(LocationOutcome::ScanFailed)));
    let (mut run, _) = LocationRun::start(&s("Photos"), &s("/p"), false, &cache);
    run.advance(&mut cache, Reply::Listed(Some(photos())));
    let step = run.advance(&mut cache, Reply::Existing(None));
    assert!(matches!(step, Step::Done(LocationOutcome::QueryFailed)));
    assert_eq!(cache.get(&s("/p")), Some(at(3)));
}

#[test]
fn empty_delta_keeps_cutoff() {
    let mut cache = TimingCache::new().with_cutoff(&s("/p"), at(0));
    let (mut run, _) = LocationRun::start(&s("Photos"), &s("/p"), false, &cache);
    run.advance(&mut cache, Reply::Listed(Some(photos())));
    let step = run.advance(
        &mut cache,
        Reply::Existing(Some(vec![s("/p/a.jpg"), s("/p/sub/c.png")])),
    );
    assert!(matches!(step, Step::Done(LocationOutcome::NothingNew)));
    assert_eq!(cache.get(&s("/p")), Some(at(0)));
}

#[test]
fn files_before_1970_are_indexed_on_first_scan() {
    let mut cache = TimingCache::new();
    let (mut run, _) = LocationRun::start(&s("Old"), &s("/o"), false, &cache);
    run.advance(&mut cache, Reply::CacheSaved(true));
    let step = run.advance(&mut cache, Reply::Listed(Some(DirTree { entries: vec![file("/o/x.jpg", "jpg", -100)] })));
    assert!(matches!(step, Step::FindExisting(ref p) if p == &vec![s("/o/x.jpg")]));
    assert_eq!(run.newest, at(-100));
}

#[test]
fn full_reload_never_lowers_cutoff() {
    let mut cache = TimingCache::new().with_cutoff(&s("/p"), at(100));
    let (mut run, step) = LocationRun::start(&s("Photos"), &s("/p"), true, &cache);
    assert_eq!(run.cutoff, Timestamp::epoch());
    assert!(matches!(step, Step::List(_)));
    run.advance(&mut cache, Reply::Listed(Some(photos())));
    assert_eq!(run.newest, at(30));
    run.advance(&mut cache, Reply::Existing(Some(vec![])));
    run.advance(&mut cache, Reply::Inserted(true));
    run.advance(&mut cache, Reply::CacheSaved(true));
    assert_eq!(cache.get(&s("/p")), Some(at(100)));
}

fn test_signer() -> SigningService {
    let key = rsa::RsaPrivateKey::new(&mut rand::thread_rng(), 1024).unwrap();
    SigningService::new(key.to_pkcs1_der().unwrap().as_bytes().to_vec()).unwrap()
}

fn run_location(plugin: &mut Plugin, ignore: bool, tree: DirTree, insert_ok: bool) -> LocationOutcome {
    let (mut run, mut step) = plugin.start_location(0, ignore);
    let mut tree = Some(tree);
    loop {
        let reply = match step {
            Step::SaveCache(_) => Reply::CacheSaved(true),
            Step::List(_) => Reply::Listed(tree.take()),
            Step::FindExisting(_) => Reply::Existing(Some(vec![])),
            Step::Insert(_) => Reply::Inserted(insert_ok),
            Step::Done(outcome) => return outcome,
        };
        step = plugin.advance_location(&mut run, reply);
    }
}

#[test]
fn failed_insert_retries_same_window() {
    let locations = vec![MediaLocation::named(&s("Photos"), s("/p"))];
    let cache = TimingCache::new().with_cutoff(&s("/p"), at(5));
    let mut plugin = Plugin::new(locations, 10, None, cache, test_signer(), at(1));
    let ignore = plugin.start_cycle();
    assert!(!ignore);
    assert_eq!(run_location(&mut plugin, ignore, photos(), false), LocationOutcome::InsertFailed);
    assert_eq!(plugin.cache.get(&s("/p")), Some(at(5)));
    plugin.finish_cycle(at(2));
    let ignore = plugin.start_cycle();
    let (run, step) = plugin.start_location(0, ignore);
    assert_eq!(run.cutoff, at(5));
    assert!(matches!(step, Step::List(_)));
    assert_eq!(run_location(&mut plugin, ignore, photos(), true), LocationOutcome::Indexed);
    assert_eq!(plugin.cache.get(&s("/p")), Some(at(30)));
}

#[test]
fn plugin_status_follows_cycle() {
    let locations = vec![MediaLocation::named(&s("Photos"), s("/p"))];
    let mut plugin = Plugin::new(locations, 10, Some(3), TimingCache::new(), test_signer(), at(1431648000));
    assert_eq!(plugin.status_text(), "Waiting since: 2015-05-15 00:00:00 UTC");
    assert_eq!(plugin.scheduler.remaining, 3);
    let ignore = plugin.start_cycle();
    plugin.start_location(0, ignore);
    assert!(matches!(plugin.status, ScanStatus::Busy(ref n) if n == "Photos"));
    assert_eq!(plugin.status_text(), "Busy with: Photos");
    plugin.finish_cycle(Timestamp { secs: 0, nanos: 500_000_000 });
    assert_eq!(plugin.status_text(), "Waiting since: 1970-01-01 00:00:00.500 UTC");
}

#[test]
fn status_out_of_range_time() {
    let st = ScanStatus::Waiting(Timestamp { secs: i64::MAX, nanos: 0 });
    assert_eq!(st.to_text(), "Waiting");
}
