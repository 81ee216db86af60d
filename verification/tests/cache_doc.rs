use mod_store::blob::BlobRef;
use mod_store::cache::ProviderCache;
use mod_store::kv::{StrMap, U32Map};
use mod_store::modio_data::{ModioFile, ModioMod};

#[test]
fn typed_read_on_missing_section_is_none() {
    let doc = ProviderCache::new();
    assert!(doc.get_http(&"http".to_string()).is_none());
    assert!(doc.get_modio(&"modio".to_string()).is_none());
}

#[test]
fn typed_take_default_constructs_and_read_observes_it() {
    let mut doc = ProviderCache::new();
    let id = "http".to_string();
    let mut section = doc.take_http(&id);
    assert!(section.url_blobs.get(&"u".to_string()).is_none());
    section
        .url_blobs
        .insert("u".to_string(), BlobRef("aa".to_string()));
    doc.put_http(id.clone(), section);
    let read = doc.get_http(&id).expect("section was just stored");
    assert_eq!(read.url_blobs.get(&"u".to_string()).unwrap().0, "aa");
}

#[test]
fn typed_read_of_incompatible_section_is_none() {
    let mut doc = ProviderCache::new();
    let id = "shared".to_string();
    let mut s = doc.take_http(&id);
    s.url_blobs.insert("k".to_string(), BlobRef("bb".to_string()));
    doc.put_http(id.clone(), s);
    assert!(doc.get_http(&id).is_some());
    assert!(doc.get_modio(&id).is_none());
    let fresh = doc.take_modio(&id);
    assert!(fresh.mods.get(1).is_none());
}

#[test]
fn sections_of_different_providers_are_independent() {
    let mut doc = ProviderCache::new();
    let http_id = "http".to_string();
    let modio_id = "modio".to_string();
    let mut h = doc.take_http(&http_id);
    h.url_blobs.insert("u".to_string(), BlobRef("cc".to_string()));
    doc.put_http(http_id.clone(), h);
    let mut m = doc.take_modio(&modio_id);
    m.mod_id_map.insert("name".to_string(), 4);
    doc.put_modio(modio_id.clone(), m);
    assert_eq!(
        doc.get_http(&http_id).unwrap().url_blobs.get(&"u".to_string()).unwrap().0,
        "cc"
    );
    assert_eq!(
        *doc.get_modio(&modio_id).unwrap().mod_id_map.get(&"name".to_string()).unwrap(),
        4
    );
}

#[test]
fn str_map_insert_get_overwrite_take() {
    let mut m: StrMap<u32> = StrMap::new();
    assert!(m.is_empty());
    m.insert("a".to_string(), 1);
    m.insert("b".to_string(), 2);
    m.insert("a".to_string(), 3);
    assert!(!m.is_empty());
    assert_eq!(*m.get(&"a".to_string()).unwrap(), 3);
    assert_eq!(*m.get(&"b".to_string()).unwrap(), 2);
    assert!(m.get(&"c".to_string()).is_none());
    assert_eq!(m.take(&"a".to_string()), Some(3));
    assert!(m.get(&"a".to_string()).is_none());
    assert!(m.take(&"a".to_string()).is_none());
}

#[test]
fn u32_map_insert_get_overwrite() {
    let mut m: U32Map<String> = U32Map::new();
    m.insert(10, "x".to_string());
    m.insert(20, "y".to_string());
    m.insert(10, "z".to_string());
    assert_eq!(m.get(10).unwrap(), "z");
    assert_eq!(m.get(20).unwrap(), "y");
    assert!(m.get(30).is_none());
    assert!(m.contains_key(20));
    assert!(!m.contains_key(30));
}

#[test]
fn modio_record_tags_and_files() {
    let files = vec![
        ModioFile::new(5, 100, Some("1.0".to_string()), None),
        ModioFile::new(6, 200, None, Some("notes".to_string())),
    ];
    let m = ModioMod::new(
        "coolmod".to_string(),
        "Cool Mod".to_string(),
        Some(6),
        files,
        vec!["RequiredByAll".to_string(), "QoL".to_string()],
    );
    assert!(m.has_tag(&"RequiredByAll".to_string()));
    assert!(m.has_tag(&"QoL".to_string()));
    assert!(!m.has_tag(&"requiredbyall".to_string()));
    assert_eq!(m.latest_modfile, Some(6));
    assert_eq!(m.modfiles.len(), 2);
    assert_eq!(m.modfiles[0].id, 5);
}
