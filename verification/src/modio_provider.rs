use vstd::prelude::*;
use crate::blob::{spec_blob_address, spec_join, BlobCache, BlobRef};
use crate::cache::{ProviderCache, Section};
use crate::error::Error;
use crate::events::{DataRequest, DataResponse};
use crate::mod_info::{ModInfo, ModResolution, ModResponse, ModSpecification, ResolvableStatus};
use crate::modio_data::{ModioFile, ModioMod};
use crate::strutil::{spec_dec, u32_dec};
use crate::urls::{format_spec, parse_modio_url, spec_format_modio, spec_parse_modio};

verus! {

/// The mod records the registry backend has cached, by mod id; empty when
/// its section is absent or incompatible.
pub open spec fn spec_modio_mods(doc: Map<Seq<char>, Section>) -> Map<u32, ModioMod> {
    if doc.contains_key("modio"@) {
        match doc["modio"@] {
            Section::Modio(s) => s.mods@,
            _ => Map::empty(),
        }
    } else {
        Map::empty()
    }
}

/// The cached name id to mod id mapping.
pub open spec fn spec_modio_ids(doc: Map<Seq<char>, Section>) -> Map<Seq<char>, u32> {
    if doc.contains_key("modio"@) {
        match doc["modio"@] {
            Section::Modio(s) => s.mod_id_map@,
            _ => Map::empty(),
        }
    } else {
        Map::empty()
    }
}

/// The cached dependency ids, by mod id.
pub open spec fn spec_modio_deps(doc: Map<Seq<char>, Section>) -> Map<u32, Vec<u32>> {
    if doc.contains_key("modio"@) {
        match doc["modio"@] {
            Section::Modio(s) => s.dependencies@,
            _ => Map::empty(),
        }
    } else {
        Map::empty()
    }
}

/// Which blob each downloaded mod file was stored under, by file id.
pub open spec fn spec_modio_blobs(doc: Map<Seq<char>, Section>) -> Map<u32, BlobRef> {
    if doc.contains_key("modio"@) {
        match doc["modio"@] {
            Section::Modio(s) => s.modfile_blobs@,
            _ => Map::empty(),
        }
    } else {
        Map::empty()
    }
}

/// The locator under which a dependency id is suggested before its name is
/// known: resolving it redirects to the precise locator.
pub open spec fn spec_dep_url(d: u32) -> Seq<char> {
    spec_format_modio("unknown"@, d, None)
}

/// What the metadata built for a resolved mod says: name and versions from
/// the cached record, the precise spec under the record's own name id, and
/// one suggested dependency locator per cached dependency id.
pub open spec fn spec_built_info(
    url: Seq<char>,
    mod_id: u32,
    m: ModioMod,
    deps: Vec<u32>,
    info: ModInfo,
) -> bool {
    &&& info.provider@ == "modio"@
    &&& info.name@ == m.name@
    &&& info.spec.url@ == spec_format_modio(m.name_id@, mod_id, None)
    &&& info.versions@.len() == m.modfiles@.len()
    &&& forall|i: int|
        0 <= i < m.modfiles@.len() ==> info.versions@[i].url@ == spec_format_modio(
            m.name_id@,
            mod_id,
            Some(m.modfiles@[i].id),
        )
    &&& info.status matches ResolvableStatus::Resolvable(res) && res.url@ == url
    &&& info.suggested_require == m.spec_has_tag("RequiredByAll"@)
    &&& info.suggested_dependencies@.len() == deps@.len()
    &&& forall|i: int|
        0 <= i < deps@.len() ==> info.suggested_dependencies@[i].url@ == spec_dep_url(deps@[i])
}

fn build_info(url: &String, mod_id: u32, m: &ModioMod, deps: &Vec<u32>) -> (info: ModInfo)
    ensures
        spec_built_info(url@, mod_id, *m, *deps, info),
{
    let mut versions: Vec<ModSpecification> = Vec::new();
    let nf = m.modfiles.len();
    let mut i: usize = 0;
    while i < nf
        invariant
            nf == m.modfiles@.len(),
            i <= nf,
            versions@.len() == i as int,
            forall|j: int|
                0 <= j < i ==> versions@[j].url@ == spec_format_modio(
                    m.name_id@,
                    mod_id,
                    Some(m.modfiles@[j].id),
                ),
        decreases nf - i,
    {
        versions.push(format_spec(&m.name_id, mod_id, Some(m.modfiles[i].id)));
        i += 1;
    }
    let mut dep_specs: Vec<ModSpecification> = Vec::new();
    let nd = deps.len();
    let unknown = String::from_str("unknown");
    let mut k: usize = 0;
    while k < nd
        invariant
            nd == deps@.len(),
            k <= nd,
            unknown@ == "unknown"@,
            dep_specs@.len() == k as int,
            forall|j: int| 0 <= j < k ==> dep_specs@[j].url@ == spec_dep_url(deps@[j]),
        decreases nd - k,
    {
        dep_specs.push(format_spec(&unknown, deps[k], None));
        k += 1;
    }
    let tag = String::from_str("RequiredByAll");
    ModInfo {
        provider: String::from_str("modio"),
        name: m.name.clone(),
        spec: format_spec(&m.name_id, mod_id, None),
        versions,
        status: ResolvableStatus::Resolvable(ModResolution { url: url.clone() }),
        suggested_require: m.has_tag(&tag),
        suggested_dependencies: dep_specs,
    }
}

/// One resolution step's outcome: a terminal response, or outside work that
/// must be done and recorded first.
pub enum ResolveStep {
    Done(ModResponse),
    Need(DataRequest),
}

/// The backend for mod registry locators. All of its decisions are made
/// here, over the cached records; the network calls it needs are named as
/// requests, performed by the caller, and recorded through
/// `store_response` before the step is retried.
pub struct ModioProvider {}

impl ModioProvider {
    pub fn new() -> Self {
        ModioProvider {  }
    }

    /// One resolution step. A locator with mod and file id resolves from
    /// the cached record and dependency list; one with only a mod id
    /// redirects to that record's newest file; one with only a name
    /// redirects through the cached name mapping. What is missing from the
    /// cache, or everything when `update` forces a refresh, is requested.
    pub fn resolve_mod(&self, spec: &ModSpecification, update: bool, cache: &ProviderCache) -> (r:
        Result<ResolveStep, Error>)
        requires
            cache.wf(),
        ensures
            match r {
                Err(e) => match e {
                    Error::InvalidUrl { url } => url@ == spec.url@ && spec_parse_modio(spec.url@)
                        is None,
                    Error::NoModfile { url } => url@ == spec.url@ && !update && match spec_parse_modio(
                        spec.url@,
                    ) {
                        Some((name, Some(mid), None)) => spec_modio_mods(cache@).contains_key(mid)
                            && spec_modio_mods(cache@)[mid].latest_modfile is None,
                        Some((name, None, None)) => spec_modio_ids(cache@).contains_key(name) && {
                            let mid = spec_modio_ids(cache@)[name];
                            spec_modio_mods(cache@).contains_key(mid) && spec_modio_mods(
                                cache@,
                            ).index(mid).latest_modfile is None
                        },
                        _ => false,
                    },
                    _ => false,
                },
                Ok(ResolveStep::Need(req)) => match req {
                    DataRequest::ModioModWithDeps { mod_id } => (match spec_parse_modio(
                        spec.url@,
                    ) {
                        Some((_, Some(mid), Some(_))) => mid == mod_id,
                        _ => false,
                    }) && (update || !spec_modio_mods(cache@).contains_key(mod_id)),
                    DataRequest::ModioDependencies { mod_id } => (match spec_parse_modio(
                        spec.url@,
                    ) {
                        Some((_, Some(mid), Some(_))) => mid == mod_id,
                        _ => false,
                    }) && !update && spec_modio_mods(cache@).contains_key(mod_id)
                        && !spec_modio_deps(cache@).contains_key(mod_id),
                    DataRequest::ModioModById { mod_id } => match spec_parse_modio(spec.url@) {
                        Some((_, Some(mid), None)) => mid == mod_id && (update || !spec_modio_mods(
                            cache@,
                        ).contains_key(mod_id)),
                        Some((name, None, None)) => !update && spec_modio_ids(
                            cache@,
                        ).contains_key(name) && spec_modio_ids(cache@)[name] == mod_id
                            && !spec_modio_mods(cache@).contains_key(mod_id),
                        _ => false,
                    },
                    DataRequest::ModioModByName { name_id } => match spec_parse_modio(spec.url@) {
                        Some((name, None, None)) => name_id@ == name && (update || !spec_modio_ids(
                            cache@,
                        ).contains_key(name)),
                        _ => false,
                    },
                    _ => false,
                },
                Ok(ResolveStep::Done(resp)) => !update && match resp {
                    ModResponse::Redirect(s) => match spec_parse_modio(spec.url@) {
                        Some((name, Some(mid), None)) => spec_modio_mods(cache@).contains_key(mid)
                            && {
                            let m = spec_modio_mods(cache@)[mid];
                            m.latest_modfile matches Some(f) && s.url@ == spec_format_modio(
                                m.name_id@,
                                mid,
                                Some(f),
                            )
                        },
                        Some((name, None, None)) => spec_modio_ids(cache@).contains_key(name) && {
                            let mid = spec_modio_ids(cache@)[name];
                            spec_modio_mods(cache@).contains_key(mid) && (spec_modio_mods(
                                cache@,
                            ).index(mid).latest_modfile matches Some(f) && s.url@
                                == spec_format_modio(name, mid, Some(f)))
                        },
                        _ => false,
                    },
                    ModResponse::Resolve(info) => match spec_parse_modio(spec.url@) {
                        Some((name, Some(mid), Some(_))) => spec_modio_mods(
                            cache@,
                        ).contains_key(mid) && spec_modio_deps(cache@).contains_key(mid)
                            && spec_built_info(
                            spec.url@,
                            mid,
                            spec_modio_mods(cache@)[mid],
                            spec_modio_deps(cache@)[mid],
                            info,
                        ),
                        _ => false,
                    },
                },
            },
    {
        let id = String::from_str("modio");
        let parsed = match parse_modio_url(&spec.url) {
            Some(p) => p,
            None => {
                return Err(Error::InvalidUrl { url: spec.url.clone() });
            },
        };
        match (parsed.mod_id, parsed.modfile_id) {
            (Some(mod_id), Some(_file)) => {
                if update {
                    return Ok(ResolveStep::Need(DataRequest::ModioModWithDeps { mod_id }));
                }
                let sec = match cache.get_modio(&id) {
                    Some(s) => s,
                    None => {
                        return Ok(ResolveStep::Need(DataRequest::ModioModWithDeps { mod_id }));
                    },
                };
                let m = match sec.mods.get(mod_id) {
                    Some(m) => m,
                    None => {
                        return Ok(ResolveStep::Need(DataRequest::ModioModWithDeps { mod_id }));
                    },
                };
                let deps = match sec.dependencies.get(mod_id) {
                    Some(d) => d,
                    None => {
                        return Ok(ResolveStep::Need(DataRequest::ModioDependencies { mod_id }));
                    },
                };
                Ok(ResolveStep::Done(ModResponse::Resolve(build_info(&spec.url, mod_id, m, deps))))
            },
            (Some(mod_id), None) => {
                if update {
                    return Ok(ResolveStep::Need(DataRequest::ModioModById { mod_id }));
                }
                let sec = match cache.get_modio(&id) {
                    Some(s) => s,
                    None => {
                        return Ok(ResolveStep::Need(DataRequest::ModioModById { mod_id }));
                    },
                };
                let m = match sec.mods.get(mod_id) {
                    Some(m) => m,
                    None => {
                        return Ok(ResolveStep::Need(DataRequest::ModioModById { mod_id }));
                    },
                };
                match m.latest_modfile {
                    None => Err(Error::NoModfile { url: spec.url.clone() }),
                    Some(f) => Ok(
                        ResolveStep::Done(
                            ModResponse::Redirect(format_spec(&m.name_id, mod_id, Some(f))),
                        ),
                    ),
                }
            },
            (None, _) => {
                if update {
                    return Ok(
                        ResolveStep::Need(
                            DataRequest::ModioModByName { name_id: parsed.name_id },
                        ),
                    );
                }
                let sec = match cache.get_modio(&id) {
                    Some(s) => s,
                    None => {
                        return Ok(
                            ResolveStep::Need(
                                DataRequest::ModioModByName { name_id: parsed.name_id },
                            ),
                        );
                    },
                };
                let mid = match sec.mod_id_map.get(&parsed.name_id) {
                    Some(x) => *x,
                    None => {
                        return Ok(
                            ResolveStep::Need(
                                DataRequest::ModioModByName { name_id: parsed.name_id },
                            ),
                        );
                    },
                };
                let m = match sec.mods.get(mid) {
                    Some(m) => m,
                    None => {
                        return Ok(ResolveStep::Need(DataRequest::ModioModById { mod_id: mid }));
                    },
                };
                match m.latest_modfile {
                    None => Err(Error::NoModfile { url: spec.url.clone() }),
                    Some(f) => Ok(
                        ResolveStep::Done(
                            ModResponse::Redirect(format_spec(&parsed.name_id, mid, Some(f))),
                        ),
                    ),
                }
            },
        }
    }

    /// Records one fetched outcome in the cache section. A search that hit
    /// nothing or more than one mod is the corresponding error and leaves
    /// the cache as it was.
    pub fn store_response(&self, resp: DataResponse, cache: &mut ProviderCache) -> (r: Result<
        (),
        Error,
    >)
        requires
            old(cache).wf(),
        ensures
            final(cache).wf(),
            match resp {
                DataResponse::ModioModById { mod_id, m } => r is Ok && spec_modio_mods(
                    final(cache)@,
                ) =~= spec_modio_mods(old(cache)@).insert(mod_id, m) && spec_modio_ids(
                    final(cache)@,
                ) =~= spec_modio_ids(old(cache)@).insert(m.name_id@, mod_id) && spec_modio_deps(
                    final(cache)@,
                ) =~= spec_modio_deps(old(cache)@) && spec_modio_blobs(final(cache)@)
                    =~= spec_modio_blobs(old(cache)@),
                DataResponse::ModioModWithDeps { mod_id, m, deps } => r is Ok && spec_modio_mods(
                    final(cache)@,
                ) =~= spec_modio_mods(old(cache)@).insert(mod_id, m) && spec_modio_ids(
                    final(cache)@,
                ) =~= spec_modio_ids(old(cache)@).insert(m.name_id@, mod_id) && spec_modio_deps(
                    final(cache)@,
                ) =~= spec_modio_deps(old(cache)@).insert(mod_id, deps) && spec_modio_blobs(
                    final(cache)@,
                ) =~= spec_modio_blobs(old(cache)@),
                DataResponse::ModioDependencies { mod_id, deps } => r is Ok && spec_modio_mods(
                    final(cache)@,
                ) =~= spec_modio_mods(old(cache)@) && spec_modio_ids(final(cache)@)
                    =~= spec_modio_ids(old(cache)@) && spec_modio_deps(final(cache)@)
                    =~= spec_modio_deps(old(cache)@).insert(mod_id, deps) && spec_modio_blobs(
                    final(cache)@,
                ) =~= spec_modio_blobs(old(cache)@),
                DataResponse::ModioModByName { name_id, results } => if results@.len() == 0 {
                    (r matches Err(Error::NoModsForName { name_id: n }) && n@ == name_id@)
                        && final(cache)@ == old(cache)@
                } else if results@.len() == 1 {
                    r is Ok && spec_modio_mods(final(cache)@) =~= spec_modio_mods(
                        old(cache)@,
                    ).insert(results@[0].0, results@[0].1) && spec_modio_ids(final(cache)@)
                        =~= spec_modio_ids(old(cache)@).insert(
                        results@[0].1.name_id@,
                        results@[0].0,
                    ) && spec_modio_deps(final(cache)@) =~= spec_modio_deps(old(cache)@)
                        && spec_modio_blobs(final(cache)@) =~= spec_modio_blobs(old(cache)@)
                } else {
                    (r matches Err(Error::MultipleModsForName { name_id: n }) && n@ == name_id@)
                        && final(cache)@ == old(cache)@
                },
            },
    {
        match resp {
            DataResponse::ModioModById { mod_id, m } => {
                insert_mod_record(cache, mod_id, m);
                Ok(())
            },
            DataResponse::ModioModWithDeps { mod_id, m, deps } => {
                insert_mod_record(cache, mod_id, m);
                insert_deps_record(cache, mod_id, deps);
                Ok(())
            },
            DataResponse::ModioDependencies { mod_id, deps } => {
                insert_deps_record(cache, mod_id, deps);
                Ok(())
            },
            DataResponse::ModioModByName { name_id, mut results } => {
                if results.len() == 0 {
                    Err(Error::NoModsForName { name_id })
                } else if results.len() == 1 {
                    match results.pop() {
                        Some((mid, m)) => {
                            insert_mod_record(cache, mid, m);
                            Ok(())
                        },
                        None => {
                            proof {
                                assert(false);
                            }
                            Err(Error::NoModsForName { name_id })
                        },
                    }
                } else {
                    Err(Error::MultipleModsForName { name_id })
                }
            },
        }
    }

    /// The cached path for a fully specified locator, when its file's bytes
    /// were stored before and the blob is still present. A locator that
    /// does not parse, or that lacks the mod or file id, is rejected.
    pub fn fetch_cached(
        &self,
        res: &ModResolution,
        cache: &ProviderCache,
        blob_cache: &BlobCache,
    ) -> (r: Result<Option<String>, Error>)
        requires
            cache.wf(),
        ensures
            match r {
                Ok(opt) => (match spec_parse_modio(res.url@) {
                    Some((_, Some(_), Some(_))) => true,
                    _ => false,
                }) && match opt {
                    Some(p) => match spec_parse_modio(res.url@) {
                        Some((_, _, Some(fid))) => spec_modio_blobs(cache@).contains_key(fid)
                            && p@ == spec_join(
                            blob_cache.dir(),
                            spec_modio_blobs(cache@)[fid].0@,
                        ),
                        _ => false,
                    },
                    None => true,
                },
                Err(e) => match e {
                    Error::InvalidUrl { url } => url@ == res.url@ && spec_parse_modio(res.url@)
                        is None,
                    Error::ImpreciseUrl { url } => url@ == res.url@ && match spec_parse_modio(
                        res.url@,
                    ) {
                        Some((_, Some(_), Some(_))) => false,
                        Some(_) => true,
                        None => false,
                    },
                    _ => false,
                },
            },
    {
        let id = String::from_str("modio");
        let parsed = match parse_modio_url(&res.url) {
            Some(p) => p,
            None => {
                return Err(Error::InvalidUrl { url: res.url.clone() });
            },
        };
        match (parsed.mod_id, parsed.modfile_id) {
            (Some(_mod_id), Some(modfile_id)) => {
                match cache.get_modio(&id) {
                    Some(sec) => match sec.modfile_blobs.get(modfile_id) {
                        Some(b) => Ok(blob_cache.get_path(b)),
                        None => Ok(None),
                    },
                    None => Ok(None),
                }
            },
            _ => Err(Error::ImpreciseUrl { url: res.url.clone() }),
        }
    }

    /// Stores a downloaded file's bytes under their content address and
    /// maps the file id to that address.
    pub fn store_fetched(
        &self,
        modfile_id: u32,
        bytes: &Vec<u8>,
        cache: &mut ProviderCache,
        blob_cache: &BlobCache,
    ) -> (r: Result<String, Error>)
        requires
            old(cache).wf(),
        ensures
            final(cache).wf(),
            match r {
                Ok(p) => {
                    &&& exists|b: BlobRef|
                        b.0@ == spec_blob_address(bytes@) && spec_modio_blobs(final(cache)@)
                            =~= spec_modio_blobs(old(cache)@).insert(modfile_id, b)
                    &&& p@ == spec_join(blob_cache.dir(), spec_blob_address(bytes@))
                },
                Err(e) => e is StoreWrite && final(cache)@ == old(cache)@,
            },
    {
        let b = match blob_cache.write(bytes) {
            Ok(b) => b,
            Err(e) => {
                return Err(e);
            },
        };
        let p = match blob_cache.get_path(&b) {
            Some(p) => p,
            None => blob_cache.address_path(&b),
        };
        let id = String::from_str("modio");
        let mut section = cache.take_modio(&id);
        let ghost old_blobs = spec_modio_blobs(old(cache)@);
        proof {
            assert(section.modfile_blobs@ =~= old_blobs);
        }
        let ghost gb = b;
        section.modfile_blobs.insert(modfile_id, b);
        cache.put_modio(id, section);
        proof {
            assert(spec_modio_blobs(cache@) =~= old_blobs.insert(modfile_id, gb));
        }
        Ok(p)
    }

    /// The cache-only view of a mod: its metadata when the record and its
    /// dependency list are both cached, and the locator names or maps to a
    /// mod id; none otherwise.
    pub fn get_mod_info(&self, spec: &ModSpecification, cache: &ProviderCache) -> (r: Option<
        ModInfo,
    >)
        requires
            cache.wf(),
        ensures
            match r {
                Some(info) => match spec_parse_modio(spec.url@) {
                    Some((name, om, _)) => {
                        let mid = match om {
                            Some(m0) => m0,
                            None => spec_modio_ids(cache@)[name],
                        };
                        &&& (om is Some || spec_modio_ids(cache@).contains_key(name))
                        &&& spec_modio_mods(cache@).contains_key(mid)
                        &&& spec_modio_deps(cache@).contains_key(mid)
                        &&& spec_built_info(
                            spec.url@,
                            mid,
                            spec_modio_mods(cache@)[mid],
                            spec_modio_deps(cache@)[mid],
                            info,
                        )
                    },
                    None => false,
                },
                None => match spec_parse_modio(spec.url@) {
                    None => true,
                    Some((name, om, _)) => match om {
                        Some(m0) => !spec_modio_mods(cache@).contains_key(m0)
                            || !spec_modio_deps(cache@).contains_key(m0),
                        None => !spec_modio_ids(cache@).contains_key(name) || {
                            let mid = spec_modio_ids(cache@)[name];
                            !spec_modio_mods(cache@).contains_key(mid) || !spec_modio_deps(
                                cache@,
                            ).contains_key(mid)
                        },
                    },
                },
            },
    {
        let id = String::from_str("modio");
        let parsed = match parse_modio_url(&spec.url) {
            Some(p) => p,
            None => {
                return None;
            },
        };
        let sec = match cache.get_modio(&id) {
            Some(s) => s,
            None => {
                return None;
            },
        };
        let mid = match parsed.mod_id {
            Some(m0) => m0,
            None => match sec.mod_id_map.get(&parsed.name_id) {
                Some(x) => *x,
                None => {
                    return None;
                },
            },
        };
        let m = match sec.mods.get(mid) {
            Some(m) => m,
            None => {
                return None;
            },
        };
        let deps = match sec.dependencies.get(mid) {
            Some(d) => d,
            None => {
                return None;
            },
        };
        Some(build_info(&spec.url, mid, m, deps))
    }

    /// Whether the locator pins one concrete file: it parses and names a
    /// file id.
    pub fn is_pinned(&self, spec: &ModSpecification) -> (r: bool)
        ensures
            r == match spec_parse_modio(spec.url@) {
                Some((_, _, Some(_))) => true,
                _ => false,
            },
    {
        match parse_modio_url(&spec.url) {
            Some(p) => p.modfile_id.is_some(),
            None => false,
        }
    }

    /// The display name of the version a locator names: the file id with
    /// its version string when the cached record lists that file, the bare
    /// file id otherwise, and "latest" when no file id is given. None when
    /// the record is not cached or the locator does not map to a mod.
    pub fn get_version_name(&self, spec: &ModSpecification, cache: &ProviderCache) -> (r: Option<
        String,
    >)
        requires
            cache.wf(),
        ensures
            match r {
                Some(s) => match spec_parse_modio(spec.url@) {
                    Some((name, om, of)) => {
                        let mid = match om {
                            Some(m0) => m0,
                            None => spec_modio_ids(cache@)[name],
                        };
                        &&& (om is Some || spec_modio_ids(cache@).contains_key(name))
                        &&& spec_modio_mods(cache@).contains_key(mid)
                        &&& match of {
                            Some(fid) => match spec_find_file(
                                spec_modio_mods(cache@)[mid].modfiles@,
                                fid,
                            ) {
                                Some(f) => match f.version {
                                    Some(v) => s@ == spec_dec(fid as int) + " - "@ + v@,
                                    None => s@ == spec_dec(fid as int),
                                },
                                None => s@ == spec_dec(fid as int),
                            },
                            None => s@ == "latest"@,
                        }
                    },
                    None => false,
                },
                None => match spec_parse_modio(spec.url@) {
                    None => true,
                    Some((name, om, _)) => match om {
                        Some(m0) => !spec_modio_mods(cache@).contains_key(m0),
                        None => !spec_modio_ids(cache@).contains_key(name) || !spec_modio_mods(
                            cache@,
                        ).contains_key(spec_modio_ids(cache@)[name]),
                    },
                },
            },
    {
        let id = String::from_str("modio");
        let parsed = match parse_modio_url(&spec.url) {
            Some(p) => p,
            None => {
                return None;
            },
        };
        let sec = match cache.get_modio(&id) {
            Some(s) => s,
            None => {
                return None;
            },
        };
        let mid = match parsed.mod_id {
            Some(m0) => m0,
            None => match sec.mod_id_map.get(&parsed.name_id) {
                Some(x) => *x,
                None => {
                    return None;
                },
            },
        };
        let m = match sec.mods.get(mid) {
            Some(m) => m,
            None => {
                return None;
            },
        };
        match parsed.modfile_id {
            Some(fid) => {
                let digits = u32_dec(fid);
                match find_file(&m.modfiles, fid) {
                    Some(f) => match &f.version {
                        Some(v) => {
                            proof {
                                reveal_strlit(" - ");
                            }
                            let mut s = digits;
                            s.append(" - ");
                            s.append(v.as_str());
                            Some(s)
                        },
                        None => Some(digits),
                    },
                    None => Some(digits),
                }
            },
            None => Some(String::from_str("latest")),
        }
    }

    /// The registry backend's refresh hook; this library records fetched
    /// data as it arrives, so there is nothing further to refresh here.
    pub fn update_cache(&self, cache: &mut ProviderCache) -> (r: Result<(), Error>)
        requires
            old(cache).wf(),
        ensures
            final(cache).wf(),
            final(cache)@ == old(cache)@,
            r is Ok,
    {
        Ok(())
    }
}

fn insert_mod_record(cache: &mut ProviderCache, mod_id: u32, m: ModioMod)
    requires
        old(cache).wf(),
    ensures
        final(cache).wf(),
        spec_modio_mods(final(cache)@) =~= spec_modio_mods(old(cache)@).insert(mod_id, m),
        spec_modio_ids(final(cache)@) =~= spec_modio_ids(old(cache)@).insert(m.name_id@, mod_id),
        spec_modio_deps(final(cache)@) =~= spec_modio_deps(old(cache)@),
        spec_modio_blobs(final(cache)@) =~= spec_modio_blobs(old(cache)@),
{
    let id = String::from_str("modio");
    let mut section = cache.take_modio(&id);
    proof {
        assert(section.mods@ =~= spec_modio_mods(old(cache)@));
        assert(section.mod_id_map@ =~= spec_modio_ids(old(cache)@));
        assert(section.dependencies@ =~= spec_modio_deps(old(cache)@));
        assert(section.modfile_blobs@ =~= spec_modio_blobs(old(cache)@));
    }
    let name_key = m.name_id.clone();
    let ghost gm = m;
    section.mods.insert(mod_id, m);
    section.mod_id_map.insert(name_key, mod_id);
    cache.put_modio(id, section);
    proof {
        assert(spec_modio_mods(cache@) =~= spec_modio_mods(old(cache)@).insert(mod_id, gm));
    }
}

fn insert_deps_record(cache: &mut ProviderCache, mod_id: u32, deps: Vec<u32>)
    requires
        old(cache).wf(),
    ensures
        final(cache).wf(),
        spec_modio_mods(final(cache)@) =~= spec_modio_mods(old(cache)@),
        spec_modio_ids(final(cache)@) =~= spec_modio_ids(old(cache)@),
        spec_modio_deps(final(cache)@) =~= spec_modio_deps(old(cache)@).insert(mod_id, deps),
        spec_modio_blobs(final(cache)@) =~= spec_modio_blobs(old(cache)@),
{
    let id = String::from_str("modio");
    let mut section = cache.take_modio(&id);
    proof {
        assert(section.mods@ =~= spec_modio_mods(old(cache)@));
        assert(section.mod_id_map@ =~= spec_modio_ids(old(cache)@));
        assert(section.dependencies@ =~= spec_modio_deps(old(cache)@));
        assert(section.modfile_blobs@ =~= spec_modio_blobs(old(cache)@));
    }
    let ghost gd = deps;
    section.dependencies.insert(mod_id, deps);
    cache.put_modio(id, section);
    proof {
        assert(spec_modio_deps(cache@) =~= spec_modio_deps(old(cache)@).insert(mod_id, gd));
    }
}

/// How long a throttled transport should wait before retrying: the whole
/// retry header read as decimal seconds, or nothing when the header is
/// absent or not a plain number.
pub fn retry_delay_seconds(header: &Option<String>) -> (r: Option<u32>)
    ensures
        r == match header {
            Some(h) => crate::urls::spec_digits_u32(h@),
            None => None::<u32>,
        },
{
    match header {
        Some(h) => {
            proof {
                crate::strutil::lemma_digits_val_nonneg(h@);
            }
            crate::strutil::parse_u32(h.as_str())
        },
        None => None,
    }
}

/// The first cached file record carrying the id, if any.
pub open spec fn spec_find_file(files: Seq<ModioFile>, fid: u32) -> Option<ModioFile>
    decreases files.len(),
{
    if files.len() == 0 {
        None
    } else if files.first().id == fid {
        Some(files.first())
    } else {
        spec_find_file(files.drop_first(), fid)
    }
}

proof fn lemma_find_file_at(files: Seq<ModioFile>, fid: u32, i: int)
    requires
        0 <= i < files.len(),
        files[i].id == fid,
        forall|j: int| 0 <= j < i ==> files[j].id != fid,
    ensures
        spec_find_file(files, fid) == Some(files[i]),
    decreases files.len(),
{
    if i > 0 {
        assert(forall|j: int|
            0 <= j < files.drop_first().len() ==> files.drop_first()[j] == files[j + 1]);
        lemma_find_file_at(files.drop_first(), fid, i - 1);
    }
}

proof fn lemma_find_file_none(files: Seq<ModioFile>, fid: u32)
    requires
        forall|j: int| 0 <= j < files.len() ==> files[j].id != fid,
    ensures
        spec_find_file(files, fid) is None,
    decreases files.len(),
{
    if files.len() > 0 {
        assert(forall|j: int|
            0 <= j < files.drop_first().len() ==> files.drop_first()[j] == files[j + 1]);
        lemma_find_file_none(files.drop_first(), fid);
    }
}

fn find_file(files: &Vec<ModioFile>, fid: u32) -> (r: Option<&ModioFile>)
    ensures
        match r {
            Some(f) => spec_find_file(files@, fid) == Some(*f),
            None => spec_find_file(files@, fid) is None,
        },
{
    let n = files.len();
    let mut i: usize = 0;
    while i < n
        invariant
            n == files@.len(),
            i <= n,
            forall|j: int| 0 <= j < i ==> files@[j].id != fid,
        decreases n - i,
    {
        if files[i].id == fid {
            proof {
                lemma_find_file_at(files@, fid, i as int);
            }
            return Some(&files[i]);
        }
        i += 1;
    }
    proof {
        lemma_find_file_none(files@, fid);
    }
    None
}

} // verus!
