use cabat_assets::asset_loader::AssetLoader;
use cabat_assets::asset_storage::{
    AssetLoadError, AssetLoadOptions, AssetStorage, MaintenanceError, PathKind,
};
use cabat_assets::handle::{HandleId, ReferenceCountSignal};
use cabat_assets::Asset;

struct TagLoader {
    tag: &'static str,
    exts: &'static [&'static str],
}

impl AssetLoader<String, ()> for TagLoader {
    fn load_path(&self, _context: &(), path: &str) -> Result<String, anyhow::Error> {
        Ok(format!("{}:{}", self.tag, path))
    }

    fn extensions(&self) -> &[&str] {
        self.exts
    }
}

struct FailingLoader;

impl AssetLoader<String, ()> for FailingLoader {
    fn load_path(&self, _context: &(), _path: &str) -> Result<String, anyhow::Error> {
        Err(anyhow::Error::msg("cannot decode"))
    }

    fn extensions(&self) -> &[&str] {
        &["bad"]
    }
}

#[derive(Debug, PartialEq)]
struct Blob(Vec<u8>);

impl Asset for Blob {}

fn probe(path: &str) -> PathKind {
    let p = std::path::Path::new(path);
    match p.try_exists() {
        Ok(true) if p.is_file() => PathKind::File,
        Ok(true) => PathKind::NotFile,
        _ => PathKind::Missing,
    }
}

fn id(n: u32) -> HandleId<String> {
    HandleId::from_id(n)
}

#[test]
fn load_missing_file_reports_path() {
    let options = AssetLoadOptions::new("res".to_string());
    let resolved = std::path::Path::new(options.load_path())
        .join("missing.bin")
        .to_string_lossy()
        .into_owned();
    let mut storage: AssetStorage<Blob, ()> = AssetStorage::new();
    let r = storage.load_file(&(), &resolved, probe(&resolved));
    match r {
        Err(AssetLoadError::FileDoesNotExist(p)) => assert_eq!(p, resolved),
        _ => panic!("expected FileDoesNotExist"),
    }
    assert!(storage.get_storage().is_empty());
}

#[test]
fn clone_and_drop_then_maintenance_evicts_at_zero() {
    let mut storage: AssetStorage<String, ()> = AssetStorage::new();
    let h1 = storage.insert_asset("data".to_string());
    assert_eq!(h1.id().value(), 0);
    let h2 = h1.clone();
    assert_eq!(h2.id().value(), 0);
    assert!(h1 == h2);
    storage.update_handles().unwrap();
    assert_eq!(storage.handle_count(id(0)), Some(2));
    drop(h1);
    storage.update_handles().unwrap();
    assert_eq!(storage.get_asset(id(0)).map(|s| s.as_str()), Some("data"));
    assert_eq!(storage.handle_count(id(0)), Some(1));
    drop(h2);
    storage.update_handles().unwrap();
    assert!(storage.get_asset(id(0)).is_none());
    assert_eq!(storage.handle_count(id(0)), None);
    assert_eq!(storage.removed_assets(), &vec![0u32]);
}

#[test]
fn registered_loader_decodes_file() {
    let mut storage: AssetStorage<String, ()> = AssetStorage::new();
    storage.register_loader(Box::new(TagLoader { tag: "text", exts: &["txt"] }));
    let h = storage.load_file(&(), "res/notes.txt", PathKind::File).unwrap();
    assert_eq!(h.inner(), "text:res/notes.txt");
    assert_eq!(h.id().value(), 0);
    assert_eq!(storage.get_asset(h.id()).map(|s| s.as_str()), Some("text:res/notes.txt"));
}

#[test]
fn first_registered_loader_wins() {
    let mut storage: AssetStorage<String, ()> = AssetStorage::new();
    storage.register_loader(Box::new(TagLoader { tag: "first", exts: &["a", "b"] }));
    storage.register_loader(Box::new(TagLoader { tag: "second", exts: &["b"] }));
    let h = storage.load_file(&(), "dir/x.b", PathKind::File).unwrap();
    assert_eq!(h.inner(), "first:dir/x.b");
    assert_eq!(storage.find_loader("b"), Some(0));
    assert_eq!(storage.find_loader("a"), Some(0));
    assert_eq!(storage.find_loader("c"), None);
}

#[test]
fn later_loader_used_when_earlier_does_not_match() {
    let mut storage: AssetStorage<String, ()> = AssetStorage::new();
    storage.register_loader(Box::new(TagLoader { tag: "first", exts: &["a"] }));
    storage.register_loader(Box::new(TagLoader { tag: "second", exts: &["b"] }));
    let h = storage.load_file(&(), "x.b", PathKind::File).unwrap();
    assert_eq!(h.inner(), "second:x.b");
    assert_eq!(storage.find_loader("b"), Some(1));
}

#[test]
fn directory_is_not_a_file() {
    let mut storage: AssetStorage<String, ()> = AssetStorage::new();
    storage.register_loader(Box::new(TagLoader { tag: "t", exts: &["txt"] }));
    match storage.load_file(&(), "res/dir.txt", PathKind::NotFile) {
        Err(AssetLoadError::IsNotFile(p)) => assert_eq!(p, "res/dir.txt"),
        _ => panic!("expected IsNotFile"),
    }
}

#[test]
fn path_without_extension_is_refused() {
    let mut storage: AssetStorage<String, ()> = AssetStorage::new();
    storage.register_loader(Box::new(TagLoader { tag: "t", exts: &["txt"] }));
    assert!(matches!(
        storage.load_file(&(), "res/notes", PathKind::File),
        Err(AssetLoadError::InvalidExtension)
    ));
    assert!(matches!(
        storage.load_file(&(), "res/.hidden", PathKind::File),
        Err(AssetLoadError::InvalidExtension)
    ));
    assert!(storage.get_storage().is_empty());
}

#[test]
fn unknown_extension_names_it() {
    let mut storage: AssetStorage<String, ()> = AssetStorage::new();
    storage.register_loader(Box::new(TagLoader { tag: "t", exts: &["txt"] }));
    match storage.load_file(&(), "res/image.png", PathKind::File) {
        Err(AssetLoadError::NoLoaderForExtension(e)) => assert_eq!(e, "png"),
        _ => panic!("expected NoLoaderForExtension"),
    }
}

#[test]
fn loader_failure_is_passed_on_and_nothing_is_stored() {
    let mut storage: AssetStorage<String, ()> = AssetStorage::new();
    storage.register_loader(Box::new(FailingLoader));
    match storage.load_file(&(), "broken.bad", PathKind::File) {
        Err(AssetLoadError::Other(e)) => assert_eq!(e.to_string(), "cannot decode"),
        _ => panic!("expected the loader's error"),
    }
    assert!(storage.get_storage().is_empty());
    let h = storage.insert_asset("x".to_string());
    assert_eq!(h.id().value(), 0);
}

#[test]
fn select_loader_checks_in_order() {
    let mut storage: AssetStorage<String, ()> = AssetStorage::new();
    storage.register_loader(Box::new(TagLoader { tag: "t", exts: &["txt", "md"] }));
    assert!(matches!(
        storage.select_loader("p.txt", PathKind::Missing, Some("txt")),
        Err(AssetLoadError::FileDoesNotExist(_))
    ));
    assert!(matches!(
        storage.select_loader("p.txt", PathKind::NotFile, Some("txt")),
        Err(AssetLoadError::IsNotFile(_))
    ));
    assert!(matches!(
        storage.select_loader("p", PathKind::File, None),
        Err(AssetLoadError::InvalidExtension)
    ));
    assert!(matches!(storage.select_loader("p.md", PathKind::File, Some("md")), Ok(0)));
    assert!(matches!(
        storage.select_loader("p.rs", PathKind::File, Some("rs")),
        Err(AssetLoadError::NoLoaderForExtension(_))
    ));
}

#[test]
fn second_pass_without_activity_changes_nothing() {
    let mut storage: AssetStorage<String, ()> = AssetStorage::new();
    let keep = storage.insert_asset("keep".to_string());
    let gone = storage.insert_asset("gone".to_string());
    drop(gone);
    storage.update_handles().unwrap();
    assert_eq!(storage.removed_assets(), &vec![1u32]);
    storage.update_handles().unwrap();
    assert!(storage.removed_assets().is_empty());
    assert_eq!(storage.handle_count(keep.id()), Some(1));
    assert_eq!(storage.get_storage().len(), 1);
}

#[test]
fn clone_then_drop_clone_keeps_count() {
    let mut storage: AssetStorage<String, ()> = AssetStorage::new();
    let h = storage.insert_asset("a".to_string());
    storage.update_handles().unwrap();
    assert_eq!(storage.handle_count(h.id()), Some(1));
    let c = h.clone();
    drop(c);
    storage.update_handles().unwrap();
    assert_eq!(storage.handle_count(h.id()), Some(1));
    assert!(storage.get_asset(h.id()).is_some());
}

#[test]
fn evicted_id_is_never_reused() {
    let mut storage: AssetStorage<String, ()> = AssetStorage::new();
    let h = storage.insert_asset("old".to_string());
    let old_id = h.id();
    drop(h);
    storage.update_handles().unwrap();
    assert!(storage.get_asset(old_id).is_none());
    let n = storage.insert_asset("new".to_string());
    assert_eq!(n.id().value(), 1);
    assert!(storage.get_asset(old_id).is_none());
}

#[test]
fn asset_with_live_handle_survives_maintenance() {
    let mut storage: AssetStorage<String, ()> = AssetStorage::new();
    let h = storage.insert_asset("live".to_string());
    for _ in 0..3 {
        storage.update_handles().unwrap();
        assert_eq!(storage.get_asset(h.id()).map(|s| s.as_str()), Some("live"));
    }
}

#[test]
fn reconcile_applies_signals_in_order() {
    let mut storage: AssetStorage<String, ()> = AssetStorage::new();
    let h = storage.insert_asset("a".to_string());
    storage.update_handles().unwrap();
    let signals = vec![
        ReferenceCountSignal::Increase(id(0)),
        ReferenceCountSignal::Increase(id(0)),
        ReferenceCountSignal::Decrease(id(0)),
    ];
    assert_eq!(storage.reconcile(&signals), Ok(()));
    assert_eq!(storage.handle_count(id(0)), Some(2));
    let down = vec![ReferenceCountSignal::Decrease(id(0)), ReferenceCountSignal::Decrease(id(0))];
    assert_eq!(storage.reconcile(&down), Ok(()));
    assert_eq!(storage.removed_assets(), &vec![0u32]);
    assert!(storage.get_asset(id(0)).is_none());
    drop(h);
}

#[test]
fn reconcile_rejects_unknown_id() {
    let mut storage: AssetStorage<String, ()> = AssetStorage::new();
    let signals = vec![ReferenceCountSignal::Increase(id(7))];
    assert_eq!(storage.reconcile(&signals), Err(MaintenanceError::UnmatchedSignal));
}

#[test]
fn reconcile_rejects_decrease_below_zero() {
    let mut storage: AssetStorage<String, ()> = AssetStorage::new();
    let h = storage.insert_asset("a".to_string());
    let signals = vec![ReferenceCountSignal::Decrease(id(0))];
    assert_eq!(storage.reconcile(&signals), Err(MaintenanceError::UnmatchedSignal));
    assert!(storage.get_asset(id(0)).is_some());
    drop(h);
}

#[test]
fn handle_ids_advance_one_by_one() {
    let mut gen: HandleId<String> = HandleId::from_id(5);
    let a = gen.get_next();
    let b = gen.get_next();
    assert_eq!(a.value(), 5);
    assert_eq!(b.value(), 6);
    assert_eq!(gen.value(), 7);
    assert!(a == HandleId::from_id(5));
    assert!(a != b);
}

#[test]
fn load_options_keep_base_directory() {
    let options = AssetLoadOptions::new("/srv/game/res".to_string());
    assert_eq!(options.load_path(), "/srv/game/res");
}

#[test]
fn largest_id_is_issued_last() {
    let mut gen: HandleId<String> = HandleId::from_id(u32::MAX - 1);
    let last = gen.get_next();
    assert_eq!(last.value(), u32::MAX - 1);
    assert_eq!(gen.value(), u32::MAX);
}

#[test]
fn loader_without_extensions_never_matches() {
    let mut storage: AssetStorage<String, ()> = AssetStorage::new();
    storage.register_loader(Box::new(TagLoader { tag: "none", exts: &[] }));
    assert_eq!(storage.find_loader(""), None);
    match storage.load_file(&(), "a.txt", PathKind::File) {
        Err(AssetLoadError::NoLoaderForExtension(e)) => assert_eq!(e, "txt"),
        _ => panic!("expected NoLoaderForExtension"),
    }
    assert_eq!(storage.next_id(), 0);
}

#[test]
fn empty_storage_has_nothing_to_evict() {
    let mut storage: AssetStorage<String, ()> = AssetStorage::new();
    assert_eq!(storage.update_handles(), Ok(()));
    assert!(storage.removed_assets().is_empty());
    assert!(storage.get_asset(id(0)).is_none());
    assert_eq!(storage.handle_count(id(0)), None);
}

#[test]
fn insert_assigns_increasing_ids() {
    let mut storage: AssetStorage<String, ()> = AssetStorage::new();
    let a = storage.insert_asset("a".to_string());
    let b = storage.insert_asset("b".to_string());
    assert_eq!(a.id().value(), 0);
    assert_eq!(b.id().value(), 1);
    assert_eq!(storage.next_id(), 2);
    assert_eq!(storage.handle_count(a.id()), Some(0));
    storage.update_handles().unwrap();
    assert_eq!(storage.handle_count(a.id()), Some(1));
    assert_eq!(b.inner(), "b");
    assert!(a != b);
}

#[test]
fn refused_batch_changes_nothing() {
    let mut storage: AssetStorage<String, ()> = AssetStorage::new();
    let keep = storage.insert_asset("keep".to_string());
    let gone = storage.insert_asset("gone".to_string());
    drop(gone);
    storage.update_handles().unwrap();
    assert_eq!(storage.removed_assets(), &vec![1u32]);
    let signals = vec![
        ReferenceCountSignal::Increase(id(0)),
        ReferenceCountSignal::Decrease(id(0)),
        ReferenceCountSignal::Decrease(id(0)),
        ReferenceCountSignal::Increase(id(9)),
    ];
    assert_eq!(storage.reconcile(&signals), Err(MaintenanceError::UnmatchedSignal));
    assert_eq!(storage.handle_count(id(0)), Some(1));
    assert_eq!(storage.removed_assets(), &vec![1u32]);
    assert_eq!(storage.get_asset(id(0)).map(|s| s.as_str()), Some("keep"));
    drop(keep);
}

#[test]
fn handle_converts_into_its_id() {
    let mut storage: AssetStorage<String, ()> = AssetStorage::new();
    let _first = storage.insert_asset("a".to_string());
    let h = storage.insert_asset("b".to_string());
    let id: HandleId<String> = HandleId::from(h);
    assert_eq!(id.value(), 1);
}
