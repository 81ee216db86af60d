use mod_store::cache::ProviderCache;
use mod_store::error::Error;
use mod_store::events::{DataRequest, DataResponse};
use mod_store::kv::StrMap;
use mod_store::mod_info::ModResolution;
use mod_store::modio_data::{ModioFile, ModioMod};
use mod_store::store::{FetchOutcome, ModStore, ResolveOutcome};

fn res(url: &str) -> ModResolution {
    ModResolution::new(url.to_string())
}

fn store_with_modio(dir: &tempfile::TempDir) -> ModStore {
    let mut modio_params: StrMap<String> = StrMap::new();
    modio_params.insert("oauth".to_string(), "token".to_string());
    let mut params: StrMap<StrMap<String>> = StrMap::new();
    params.insert("modio".to_string(), modio_params);
    ModStore::new(
        dir.path().to_str().unwrap().to_string(),
        ProviderCache::new(),
        &params,
    )
}

fn store_plain(dir: &tempfile::TempDir) -> ModStore {
    let params: StrMap<StrMap<String>> = StrMap::new();
    ModStore::new(
        dir.path().to_str().unwrap().to_string(),
        ProviderCache::new(),
        &params,
    )
}

#[test]
fn fetch_local_file_returns_the_path_unchanged() {
    let dir = tempfile::tempdir().unwrap();
    let local = tempfile::tempdir().unwrap();
    let file_path = format!("{}/mod.zip", local.path().to_str().unwrap());
    fs_err::write(&file_path, b"payload").unwrap();
    let store = store_plain(&dir);
    let mut fs = store.fetch_mods(&vec![res(&file_path)], false);
    match store.fetch_step(&mut fs).unwrap() {
        FetchOutcome::Progress => {},
        _ => panic!("a local path needs no download"),
    }
    match store.fetch_step(&mut fs).unwrap() {
        FetchOutcome::Finished => {},
        _ => panic!("one resolution, one path"),
    }
    let paths = store.fetch_finish(fs);
    assert_eq!(paths, vec![file_path.clone()]);
    assert_eq!(fs_err::read(&paths[0]).unwrap(), b"payload");
}

#[test]
fn fetch_http_validates_content_type_then_stores() {
    let dir = tempfile::tempdir().unwrap();
    let mut store = store_plain(&dir);
    let url = "https://example.com/a.zip";
    let mut fs = store.fetch_mods(&vec![res(url)], false);
    match store.fetch_step(&mut fs).unwrap() {
        FetchOutcome::Need(DataRequest::HttpDownload { url: u }) => assert_eq!(u, url),
        _ => panic!("an uncached url needs a download"),
    }
    let bad = store.fetch_store_http(&mut fs, &Some("text/html".to_string()), &b"nope".to_vec());
    match bad.unwrap_err() {
        Error::UnexpectedContentType { content_type } => assert_eq!(content_type, "text/html"),
        other => panic!("expected UnexpectedContentType, got {:?}", other),
    }
    store
        .fetch_store_http(&mut fs, &Some("application/zip".to_string()), &b"zipbytes".to_vec())
        .unwrap();
    match store.fetch_step(&mut fs).unwrap() {
        FetchOutcome::Finished => {},
        _ => panic!("one resolution, one path"),
    }
    let paths = store.fetch_finish(fs);
    assert_eq!(paths.len(), 1);
    assert_eq!(fs_err::read(&paths[0]).unwrap(), b"zipbytes");

    // A later batch for the same url is served from the cache, with no
    // download request.
    let mut again = store.fetch_mods(&vec![res(url)], false);
    match store.fetch_step(&mut again).unwrap() {
        FetchOutcome::Progress => {},
        _ => panic!("a cached url is served without a download"),
    }
    match store.fetch_step(&mut again).unwrap() {
        FetchOutcome::Finished => {},
        _ => panic!("one resolution, one path"),
    }
    let cached_paths = store.fetch_finish(again);
    assert_eq!(cached_paths, paths);
}

#[test]
fn fetch_ordered_keeps_input_order_when_later_item_is_ready_first() {
    let dir = tempfile::tempdir().unwrap();
    let mut store = store_plain(&dir);
    let url_a = "https://example.com/a.zip";
    let url_b = "https://example.com/b.zip";
    // The bytes for b are "already downloaded" before a's: servicing order
    // must not leak into output order.
    let bytes_a = b"contents of a".to_vec();
    let bytes_b = b"contents of b".to_vec();
    let mut fs = store.fetch_mods_ordered(&vec![res(url_a), res(url_b)], false);
    match store.fetch_step(&mut fs).unwrap() {
        FetchOutcome::Need(DataRequest::HttpDownload { url }) => assert_eq!(url, url_a),
        _ => panic!("a needs a download"),
    }
    store
        .fetch_store_http(&mut fs, &None, &bytes_a)
        .unwrap();
    match store.fetch_step(&mut fs).unwrap() {
        FetchOutcome::Need(DataRequest::HttpDownload { url }) => assert_eq!(url, url_b),
        _ => panic!("b needs a download"),
    }
    store
        .fetch_store_http(&mut fs, &None, &bytes_b)
        .unwrap();
    match store.fetch_step(&mut fs).unwrap() {
        FetchOutcome::Finished => {},
        _ => panic!("two resolutions, two paths"),
    }
    let paths = store.fetch_finish(fs);
    assert_eq!(paths.len(), 2);
    assert_eq!(fs_err::read(&paths[0]).unwrap(), bytes_a);
    assert_eq!(fs_err::read(&paths[1]).unwrap(), bytes_b);
}

#[test]
fn fetch_modio_downloads_once_then_hits_cache() {
    let dir = tempfile::tempdir().unwrap();
    let mut store = store_with_modio(&dir);
    let url = "https://mod.io/g/drg/m/coolmod#10/5";
    let mut fs = store.fetch_mods(&vec![res(url)], false);
    match store.fetch_step(&mut fs).unwrap() {
        FetchOutcome::Need(DataRequest::ModioDownload { mod_id, modfile_id }) => {
            assert_eq!(mod_id, 10);
            assert_eq!(modfile_id, 5);
        },
        _ => panic!("an uncached registry file needs a download"),
    }
    store.fetch_store_modio(&mut fs, &b"modbytes".to_vec()).unwrap();
    match store.fetch_step(&mut fs).unwrap() {
        FetchOutcome::Finished => {},
        _ => panic!("one resolution, one path"),
    }
    let paths = store.fetch_finish(fs);
    assert_eq!(fs_err::read(&paths[0]).unwrap(), b"modbytes");

    let mut again = store.fetch_mods(&vec![res(url)], false);
    match store.fetch_step(&mut again).unwrap() {
        FetchOutcome::Progress => {},
        _ => panic!("a stored registry file is served from the cache"),
    }
    match store.fetch_step(&mut again).unwrap() {
        FetchOutcome::Finished => {},
        _ => panic!("one resolution, one path"),
    }
    assert_eq!(store.fetch_finish(again), paths);
}

#[test]
fn fetch_modio_without_file_id_is_rejected() {
    let dir = tempfile::tempdir().unwrap();
    let store = store_with_modio(&dir);
    let mut fs = store.fetch_mods(&vec![res("https://mod.io/g/drg/m/coolmod#10")], false);
    match store.fetch_step(&mut fs).unwrap_err() {
        Error::ImpreciseUrl { url } => assert_eq!(url, "https://mod.io/g/drg/m/coolmod#10"),
        other => panic!("expected ImpreciseUrl, got {:?}", other),
    }
}

#[test]
fn resolve_then_fetch_single_mod() {
    let dir = tempfile::tempdir().unwrap();
    let mut store = store_with_modio(&dir);
    let original = "https://mod.io/g/drg/m/coolmod#10/5";
    let mut session = store.resolve_mod(
        &mod_store::mod_info::ModSpecification::new(original.to_string()),
        false,
    );
    let resolution: String;
    loop {
        match store.resolve_step(&mut session).unwrap() {
            ResolveOutcome::Progress => {},
            ResolveOutcome::Need(req) => {
                let resp = match req {
                    DataRequest::ModioModWithDeps { mod_id } => DataResponse::ModioModWithDeps {
                        mod_id,
                        m: ModioMod::new(
                            "coolmod".to_string(),
                            "Cool Mod".to_string(),
                            Some(5),
                            vec![ModioFile::new(5, 0, None, None)],
                            Vec::new(),
                        ),
                        deps: Vec::new(),
                    },
                    other => panic!("unexpected request {:?}", other),
                };
                store.store_response(resp).unwrap();
            },
            ResolveOutcome::Finished => {
                let map = session.finish();
                let info = map.get(&original.to_string()).unwrap();
                resolution = match &info.status {
                    mod_store::mod_info::ResolvableStatus::Resolvable(r) => r.url.clone(),
                    _ => panic!("resolvable"),
                };
                break;
            },
        }
    }
    let mut fs = store.fetch_mod(&res(&resolution), false);
    match store.fetch_step(&mut fs).unwrap() {
        FetchOutcome::Need(DataRequest::ModioDownload { .. }) => {},
        _ => panic!("first fetch downloads"),
    }
    store.fetch_store_modio(&mut fs, &b"bytes".to_vec()).unwrap();
    match store.fetch_step(&mut fs).unwrap() {
        FetchOutcome::Finished => {},
        _ => panic!("done"),
    }
    let paths = store.fetch_finish(fs);
    assert_eq!(fs_err::read(&paths[0]).unwrap(), b"bytes");
}

#[test]
fn order_buffer_holds_back_later_completions() {
    let mut buf = mod_store::store::OrderBuffer::new(3);
    // The middle download finishes first; nothing can be emitted yet.
    buf.complete(1, "path-b".to_string());
    assert!(buf.pop_ready().is_none());
    buf.complete(0, "path-a".to_string());
    assert_eq!(buf.pop_ready().unwrap(), "path-a");
    assert_eq!(buf.pop_ready().unwrap(), "path-b");
    assert!(buf.pop_ready().is_none());
    buf.complete(2, "path-c".to_string());
    assert_eq!(buf.pop_ready().unwrap(), "path-c");
    assert!(buf.pop_ready().is_none());
}

#[test]
fn forced_update_redownloads_a_cached_registry_file() {
    let dir = tempfile::tempdir().unwrap();
    let mut store = store_with_modio(&dir);
    let url = "https://mod.io/g/drg/m/coolmod#10/5";
    let mut fs = store.fetch_mods(&vec![res(url)], false);
    match store.fetch_step(&mut fs).unwrap() {
        FetchOutcome::Need(DataRequest::ModioDownload { .. }) => {},
        _ => panic!("first fetch downloads"),
    }
    store.fetch_store_modio(&mut fs, &b"old bytes".to_vec()).unwrap();

    // With update forced, the cached blob must not be consulted.
    let mut forced = store.fetch_mods(&vec![res(url)], true);
    match store.fetch_step(&mut forced).unwrap() {
        FetchOutcome::Need(DataRequest::ModioDownload { mod_id, modfile_id }) => {
            assert_eq!(mod_id, 10);
            assert_eq!(modfile_id, 5);
        },
        _ => panic!("a forced update downloads again"),
    }
    store.fetch_store_modio(&mut forced, &b"new bytes".to_vec()).unwrap();
    match store.fetch_step(&mut forced).unwrap() {
        FetchOutcome::Finished => {},
        _ => panic!("one resolution, one path"),
    }
    let paths = store.fetch_finish(forced);
    assert_eq!(fs_err::read(&paths[0]).unwrap(), b"new bytes");
}
