use mod_store::cache::ProviderCache;
use mod_store::error::Error;
use mod_store::events::{DataRequest, DataResponse};
use mod_store::kv::StrMap;
use mod_store::mod_info::{ModInfo, ModSpecification, ResolvableStatus};
use mod_store::modio_data::{ModioFile, ModioMod};
use mod_store::store::{ModStore, ResolveOutcome};

fn spec(url: &str) -> ModSpecification {
    ModSpecification::new(url.to_string())
}

fn store_with_modio(dir: &tempfile::TempDir) -> ModStore {
    let mut modio_params: StrMap<String> = StrMap::new();
    modio_params.insert("oauth".to_string(), "token".to_string());
    let mut params: StrMap<StrMap<String>> = StrMap::new();
    params.insert("modio".to_string(), modio_params);
    ModStore::new(
        dir.path().to_str().unwrap().to_string(),
        ProviderCache::new(),
        &params,
    )
}

fn store_plain(dir: &tempfile::TempDir) -> ModStore {
    let params: StrMap<StrMap<String>> = StrMap::new();
    ModStore::new(
        dir.path().to_str().unwrap().to_string(),
        ProviderCache::new(),
        &params,
    )
}

fn run_resolve<F>(
    store: &mut ModStore,
    specs: Vec<ModSpecification>,
    update: bool,
    responder: F,
) -> Result<StrMap<ModInfo>, Error> where F: Fn(&DataRequest) -> DataResponse {
    let mut session = store.resolve_mods(&specs, update);
    loop {
        match store.resolve_step(&mut session)? {
            ResolveOutcome::Progress => {},
            ResolveOutcome::Need(req) => {
                let resp = responder(&req);
                store.store_response(resp)?;
            },
            ResolveOutcome::Finished => return Ok(session.finish()),
        }
    }
}

fn mk_mod(name_id: &str, name: &str, latest: Option<u32>, files: Vec<ModioFile>, tags: Vec<String>) -> ModioMod {
    ModioMod::new(name_id.to_string(), name.to_string(), latest, files, tags)
}

fn no_requests(_req: &DataRequest) -> DataResponse {
    panic!("no outside request expected");
}

#[test]
fn resolve_empty_batch_returns_empty_map() {
    let dir = tempfile::tempdir().unwrap();
    let mut store = store_plain(&dir);
    let map = run_resolve(&mut store, Vec::new(), false, no_requests).unwrap();
    assert!(map.is_empty());
}

#[test]
fn resolve_local_file_yields_unresolvable_named_after_file() {
    let dir = tempfile::tempdir().unwrap();
    let local = tempfile::tempdir().unwrap();
    let file_path = format!("{}/mod.zip", local.path().to_str().unwrap());
    fs_err::write(&file_path, b"payload").unwrap();
    let mut store = store_plain(&dir);
    let map = run_resolve(&mut store, vec![spec(&file_path)], false, no_requests).unwrap();
    let info = map.get(&file_path).expect("input spec must be a key");
    assert_eq!(info.name, "mod.zip");
    assert_eq!(info.provider, "file");
    match &info.status {
        ResolvableStatus::Unresolvable { name } => assert_eq!(name, "mod.zip"),
        _ => panic!("a bare local file is unresolvable"),
    }
    assert!(info.suggested_dependencies.is_empty());
    assert_eq!(info.versions.len(), 1);
}

#[test]
fn resolve_unmatched_locator_fails_with_no_provider_naming_it() {
    let dir = tempfile::tempdir().unwrap();
    let mut store = store_plain(&dir);
    let err = run_resolve(
        &mut store,
        vec![spec("nonsense::locator")],
        false,
        no_requests,
    )
    .unwrap_err();
    match err {
        Error::NoProvider { url, factory_id } => {
            assert_eq!(url, "nonsense::locator");
            assert!(factory_id.is_none());
        },
        other => panic!("expected NoProvider, got {:?}", other),
    }
}

#[test]
fn resolve_modio_locator_without_configured_backend_names_descriptor() {
    let dir = tempfile::tempdir().unwrap();
    let mut store = store_plain(&dir);
    let err = run_resolve(
        &mut store,
        vec![spec("https://mod.io/g/drg/m/coolmod")],
        false,
        no_requests,
    )
    .unwrap_err();
    match err {
        Error::NoProvider { url, factory_id } => {
            assert_eq!(url, "https://mod.io/g/drg/m/coolmod");
            assert_eq!(factory_id.unwrap(), "modio");
        },
        other => panic!("expected NoProvider, got {:?}", other),
    }
}

#[test]
fn resolve_http_locator_to_itself() {
    let dir = tempfile::tempdir().unwrap();
    let mut store = store_plain(&dir);
    let url = "https://example.com/thing.zip";
    let map = run_resolve(&mut store, vec![spec(url)], false, no_requests).unwrap();
    let info = map.get(&url.to_string()).unwrap();
    assert_eq!(info.provider, "http");
    assert_eq!(info.spec.url, url);
    match &info.status {
        ResolvableStatus::Resolvable(res) => assert_eq!(res.url, url),
        _ => panic!("an http url is resolvable"),
    }
}

#[test]
fn resolve_by_name_follows_redirects_and_keys_by_original() {
    let dir = tempfile::tempdir().unwrap();
    let mut store = store_with_modio(&dir);
    let original = "https://mod.io/g/drg/m/coolmod";
    let files = vec![ModioFile::new(5, 100, Some("1.0".to_string()), None)];
    let map = run_resolve(&mut store, vec![spec(original)], false, |req| match req {
        DataRequest::ModioModByName { name_id } => DataResponse::ModioModByName {
            name_id: name_id.clone(),
            results: vec![(10, mk_mod("coolmod", "Cool Mod", Some(5), vec![ModioFile::new(5, 100, Some("1.0".to_string()), None)], vec![]))],
        },
        DataRequest::ModioDependencies { mod_id } => DataResponse::ModioDependencies {
            mod_id: *mod_id,
            deps: Vec::new(),
        },
        other => panic!("unexpected request {:?}", other),
    })
    .unwrap();
    let info = map
        .get(&original.to_string())
        .expect("keyed by the original spec despite redirects");
    assert_eq!(info.name, "Cool Mod");
    assert_eq!(info.provider, "modio");
    assert_eq!(info.spec.url, "https://mod.io/g/drg/m/coolmod#10");
    match &info.status {
        ResolvableStatus::Resolvable(res) => {
            assert_eq!(res.url, "https://mod.io/g/drg/m/coolmod#10/5")
        },
        _ => panic!("a registry mod with files is resolvable"),
    }
    assert_eq!(info.versions.len(), files.len());
    assert_eq!(info.versions[0].url, "https://mod.io/g/drg/m/coolmod#10/5");
}

#[test]
fn resolve_covers_dependency_closure() {
    let dir = tempfile::tempdir().unwrap();
    let mut store = store_with_modio(&dir);
    let original = "https://mod.io/g/drg/m/coolmod#10/5";
    let map = run_resolve(&mut store, vec![spec(original)], false, |req| match req {
        DataRequest::ModioModWithDeps { mod_id: 10 } => DataResponse::ModioModWithDeps {
            mod_id: 10,
            m: mk_mod("coolmod", "Cool Mod", Some(5), vec![ModioFile::new(5, 0, None, None)], vec![]),
            deps: vec![11],
        },
        DataRequest::ModioModById { mod_id: 11 } => DataResponse::ModioModById {
            mod_id: 11,
            m: mk_mod("depmod", "Dep Mod", Some(7), vec![ModioFile::new(7, 0, None, None)], vec![]),
        },
        DataRequest::ModioDependencies { mod_id } => DataResponse::ModioDependencies {
            mod_id: *mod_id,
            deps: Vec::new(),
        },
        other => panic!("unexpected request {:?}", other),
    })
    .unwrap();
    let root = map.get(&original.to_string()).unwrap();
    assert_eq!(root.suggested_dependencies.len(), 1);
    let dep_url = root.suggested_dependencies[0].url.clone();
    assert_eq!(dep_url, "https://mod.io/g/drg/m/unknown#11");
    let dep = map.get(&dep_url).expect("every suggested dependency is resolved");
    assert_eq!(dep.name, "Dep Mod");
    assert_eq!(dep.spec.url, "https://mod.io/g/drg/m/depmod#11");
}

#[test]
fn resolve_mod_without_files_is_no_modfile_error() {
    let dir = tempfile::tempdir().unwrap();
    let mut store = store_with_modio(&dir);
    let err = run_resolve(
        &mut store,
        vec![spec("https://mod.io/g/drg/m/empty")],
        false,
        |req| match req {
            DataRequest::ModioModByName { name_id } => DataResponse::ModioModByName {
                name_id: name_id.clone(),
                results: vec![(3, mk_mod("empty", "Empty", None, Vec::new(), Vec::new()))],
            },
            other => panic!("unexpected request {:?}", other),
        },
    )
    .unwrap_err();
    match err {
        Error::NoModfile { url } => assert_eq!(url, "https://mod.io/g/drg/m/empty"),
        other => panic!("expected NoModfile, got {:?}", other),
    }
}

#[test]
fn search_with_no_hits_is_an_error() {
    let dir = tempfile::tempdir().unwrap();
    let mut store = store_with_modio(&dir);
    let err = run_resolve(
        &mut store,
        vec![spec("https://mod.io/g/drg/m/ghost")],
        false,
        |req| match req {
            DataRequest::ModioModByName { name_id } => DataResponse::ModioModByName {
                name_id: name_id.clone(),
                results: Vec::new(),
            },
            other => panic!("unexpected request {:?}", other),
        },
    )
    .unwrap_err();
    match err {
        Error::NoModsForName { name_id } => assert_eq!(name_id, "ghost"),
        other => panic!("expected NoModsForName, got {:?}", other),
    }
}

#[test]
fn search_with_two_hits_is_an_error() {
    let dir = tempfile::tempdir().unwrap();
    let mut store = store_with_modio(&dir);
    let err = run_resolve(
        &mut store,
        vec![spec("https://mod.io/g/drg/m/dup")],
        false,
        |req| match req {
            DataRequest::ModioModByName { name_id } => DataResponse::ModioModByName {
                name_id: name_id.clone(),
                results: vec![
                    (1, mk_mod("dup", "One", Some(1), vec![ModioFile::new(1, 0, None, None)], vec![])),
                    (2, mk_mod("dup", "Two", Some(2), vec![ModioFile::new(2, 0, None, None)], vec![])),
                ],
            },
            other => panic!("unexpected request {:?}", other),
        },
    )
    .unwrap_err();
    match err {
        Error::MultipleModsForName { name_id } => assert_eq!(name_id, "dup"),
        other => panic!("expected MultipleModsForName, got {:?}", other),
    }
}

#[test]
fn required_tag_suggests_require() {
    let dir = tempfile::tempdir().unwrap();
    let mut store = store_with_modio(&dir);
    let original = "https://mod.io/g/drg/m/core#4/9";
    let map = run_resolve(&mut store, vec![spec(original)], false, |req| match req {
        DataRequest::ModioModWithDeps { mod_id: 4 } => DataResponse::ModioModWithDeps {
            mod_id: 4,
            m: mk_mod(
                "core",
                "Core",
                Some(9),
                vec![ModioFile::new(9, 0, None, None)],
                vec!["RequiredByAll".to_string()],
            ),
            deps: Vec::new(),
        },
        other => panic!("unexpected request {:?}", other),
    })
    .unwrap();
    assert!(map.get(&original.to_string()).unwrap().suggested_require);
}

#[test]
fn offline_queries_read_the_cache() {
    let dir = tempfile::tempdir().unwrap();
    let mut store = store_with_modio(&dir);
    let original = "https://mod.io/g/drg/m/coolmod#10/5";
    run_resolve(&mut store, vec![spec(original)], false, |req| match req {
        DataRequest::ModioModWithDeps { mod_id: 10 } => DataResponse::ModioModWithDeps {
            mod_id: 10,
            m: mk_mod(
                "coolmod",
                "Cool Mod",
                Some(6),
                vec![
                    ModioFile::new(5, 0, Some("1.0".to_string()), None),
                    ModioFile::new(6, 1, None, None),
                ],
                vec![],
            ),
            deps: Vec::new(),
        },
        other => panic!("unexpected request {:?}", other),
    })
    .unwrap();

    let info = store.get_mod_info(&spec("https://mod.io/g/drg/m/coolmod#10")).unwrap();
    assert_eq!(info.name, "Cool Mod");
    assert_eq!(info.spec.url, "https://mod.io/g/drg/m/coolmod#10");

    assert!(store.is_pinned(&spec("https://mod.io/g/drg/m/coolmod#10/5")));
    assert!(!store.is_pinned(&spec("https://mod.io/g/drg/m/coolmod#10")));

    assert_eq!(
        store.get_version_name(&spec("https://mod.io/g/drg/m/coolmod#10/5")).unwrap(),
        "5 - 1.0"
    );
    assert_eq!(
        store.get_version_name(&spec("https://mod.io/g/drg/m/coolmod#10/6")).unwrap(),
        "6"
    );
    assert_eq!(
        store.get_version_name(&spec("https://mod.io/g/drg/m/coolmod#10")).unwrap(),
        "latest"
    );
}

#[test]
fn add_provider_without_required_parameter_is_rejected() {
    let dir = tempfile::tempdir().unwrap();
    let mut store = store_plain(&dir);
    let factories = store.get_provider_factories();
    assert_eq!(factories.len(), 3);
    let modio_factory_kind = factories[0].kind;
    let modio_factory = mod_store::registry::ProviderFactory {
        kind: modio_factory_kind,
        id: factories[0].id.clone(),
        parameters: Vec::new(),
    };
    let empty: StrMap<String> = StrMap::new();
    let err = store.add_provider(&modio_factory, &empty).unwrap_err();
    match err {
        Error::MissingParameter { id } => assert_eq!(id, "oauth"),
        other => panic!("expected MissingParameter, got {:?}", other),
    }
    let mut with_token: StrMap<String> = StrMap::new();
    with_token.insert("oauth".to_string(), "token".to_string());
    store.add_provider(&modio_factory, &with_token).unwrap();
}

#[test]
fn update_cache_succeeds_and_store_messages_exist() {
    let dir = tempfile::tempdir().unwrap();
    let mut store = store_with_modio(&dir);
    store.update_cache().unwrap();
    let m = mod_store::mod_info::Message::Log("ready".to_string());
    match m {
        mod_store::mod_info::Message::Log(s) => assert_eq!(s, "ready"),
        _ => panic!("constructed a log message"),
    }
    let e = Error::NoProvider { url: "x".to_string(), factory_id: None };
    assert!(e.message().contains("x"));
}

#[test]
fn modio_fetch_of_unparseable_locator_is_invalid_url() {
    let dir = tempfile::tempdir().unwrap();
    let store = store_with_modio(&dir);
    let provider = mod_store::modio_provider::ModioProvider::new();
    let cache = store.provider_cache();
    let blob = mod_store::blob::BlobCache::new(dir.path().to_str().unwrap().to_string());
    let res = mod_store::mod_info::ModResolution::new("not a registry locator".to_string());
    match provider.fetch_cached(&res, cache, &blob).unwrap_err() {
        Error::InvalidUrl { url } => assert_eq!(url, "not a registry locator"),
        other => panic!("expected InvalidUrl, got {:?}", other),
    }
}

#[test]
fn trailing_separator_resolves_like_the_bare_directory() {
    let dir = tempfile::tempdir().unwrap();
    let local = tempfile::tempdir().unwrap();
    let dir_url = format!("{}/", local.path().to_str().unwrap());
    let base_name = std::path::Path::new(local.path())
        .file_name()
        .unwrap()
        .to_str()
        .unwrap()
        .to_string();
    let mut store = store_plain(&dir);
    let map = run_resolve(&mut store, vec![spec(&dir_url)], false, no_requests).unwrap();
    assert_eq!(map.get(&dir_url).unwrap().name, base_name);
}

#[test]
fn trailing_dot_component_resolves_like_the_bare_directory() {
    let dir = tempfile::tempdir().unwrap();
    let local = tempfile::tempdir().unwrap();
    let dot_url = format!("{}/.", local.path().to_str().unwrap());
    let base_name = std::path::Path::new(local.path())
        .file_name()
        .unwrap()
        .to_str()
        .unwrap()
        .to_string();
    assert_eq!(
        std::path::Path::new(&dot_url).file_name().unwrap().to_str().unwrap(),
        base_name
    );
    let mut store = store_plain(&dir);
    let map = run_resolve(&mut store, vec![spec(&dot_url)], false, no_requests).unwrap();
    assert_eq!(map.get(&dot_url).unwrap().name, base_name);
}

#[test]
fn resolving_a_parent_locator_has_no_file_name() {
    let dir = tempfile::tempdir().unwrap();
    let local = tempfile::tempdir().unwrap();
    let parent_url = format!("{}/..", local.path().to_str().unwrap());
    let mut store = store_plain(&dir);
    let err = run_resolve(&mut store, vec![spec(&parent_url)], false, no_requests).unwrap_err();
    match err {
        Error::MissingFileName { url } => assert_eq!(url, parent_url),
        other => panic!("expected MissingFileName, got {:?}", other),
    }
}
