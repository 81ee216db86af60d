use vstd::prelude::*;
use crate::blob::{spec_blob_address, spec_join, BlobCache, BlobRef};
use crate::cache::{ProviderCache, Section};
use crate::error::Error;
use crate::mod_info::{ModInfo, ModResolution, ModResponse, ModSpecification, ResolvableStatus};

verus! {

/// The map from fetched URLs to blob references that the HTTP backend keeps
/// in its cache section; empty when the section is absent or incompatible.
pub open spec fn spec_http_blobs(doc: Map<Seq<char>, Section>) -> Map<Seq<char>, BlobRef> {
    if doc.contains_key("http"@) {
        match doc["http"@] {
            Section::Http(h) => h.url_blobs@,
            _ => Map::empty(),
        }
    } else {
        Map::empty()
    }
}

/// Whether a reported content type is one the store accepts for downloaded
/// artifacts; an absent header is accepted.
pub open spec fn spec_content_type_ok(ct: Option<Seq<char>>) -> bool {
    match ct {
        None => true,
        Some(c) => c == "application/zip"@ || c == "application/octet-stream"@,
    }
}

/// The backend for generic HTTP locators: a URL resolves to itself and its
/// bytes are stored under their content address.
pub struct HttpProvider {}

impl HttpProvider {
    pub fn new() -> Self {
        HttpProvider {  }
    }

    /// A generic URL is already precise: it resolves to itself, with no
    /// dependencies and one known version.
    pub fn resolve_mod(&self, spec: &ModSpecification) -> (r: Result<ModResponse, Error>)
        ensures
            match r {
                Ok(resp) => match resp {
                    ModResponse::Resolve(info) => info.provider@ == "http"@ && info.name@
                        == spec.url@ && info.spec.url@ == spec.url@ && info.versions@.len() == 1
                        && info.versions@[0].url@ == spec.url@ && (
                    info.status matches ResolvableStatus::Resolvable(res) && res.url@ == spec.url@)
                        && info.suggested_require == false
                        && info.suggested_dependencies@.len() == 0,
                    ModResponse::Redirect(_) => false,
                },
                Err(_) => false,
            },
    {
        let mut versions: Vec<ModSpecification> = Vec::new();
        versions.push(spec.duplicate());
        Ok(
            ModResponse::Resolve(
                ModInfo {
                    provider: String::from_str("http"),
                    name: spec.url.clone(),
                    spec: spec.duplicate(),
                    versions,
                    status: ResolvableStatus::Resolvable(ModResolution { url: spec.url.clone() }),
                    suggested_require: false,
                    suggested_dependencies: Vec::new(),
                },
            ),
        )
    }

    /// The cached path for a URL, when its bytes were stored before and the
    /// blob is still present.
    pub fn fetch_cached(
        &self,
        res: &ModResolution,
        cache: &ProviderCache,
        blob_cache: &BlobCache,
    ) -> (r: Option<String>)
        requires
            cache.wf(),
        ensures
            match r {
                Some(p) => spec_http_blobs(cache@).contains_key(res.url@) && p@ == spec_join(
                    blob_cache.dir(),
                    spec_http_blobs(cache@)[res.url@].0@,
                ),
                None => true,
            },
    {
        let id = String::from_str("http");
        match cache.get_http(&id) {
            Some(section) => match section.url_blobs.get(&res.url) {
                Some(b) => blob_cache.get_path(b),
                None => None,
            },
            None => None,
        }
    }

    /// Validates a download and stores its bytes: the reported content type
    /// must be acceptable, the bytes go into the blob store under their
    /// content address, and the URL is mapped to that address.
    pub fn store_fetched(
        &self,
        url: &String,
        content_type: &Option<String>,
        bytes: &Vec<u8>,
        cache: &mut ProviderCache,
        blob_cache: &BlobCache,
    ) -> (r: Result<String, Error>)
        requires
            old(cache).wf(),
        ensures
            final(cache).wf(),
            match r {
                Ok(p) => {
                    &&& spec_content_type_ok(match content_type {
                        Some(c) => Some(c@),
                        None => None,
                    })
                    &&& exists|b: BlobRef|
                        b.0@ == spec_blob_address(bytes@) && spec_http_blobs(final(cache)@)
                            =~= spec_http_blobs(old(cache)@).insert(url@, b)
                    &&& p@ == spec_join(blob_cache.dir(), spec_blob_address(bytes@))
                },
                Err(e) => match e {
                    Error::UnexpectedContentType { content_type: c } => {
                        &&& content_type matches Some(ct) && ct@ == c@
                        &&& !spec_content_type_ok(match content_type {
                            Some(c2) => Some(c2@),
                            None => None,
                        })
                        &&& final(cache)@ == old(cache)@
                    },
                    Error::StoreWrite { .. } => spec_content_type_ok(
                        match content_type {
                            Some(c) => Some(c@),
                            None => None,
                        },
                    ) && final(cache)@ == old(cache)@,
                    _ => false,
                },
            },
    {
        proof {
            reveal_strlit("application/zip");
            reveal_strlit("application/octet-stream");
            reveal_strlit("http");
        }
        match content_type {
            Some(ct) => {
                let zip = String::from_str("application/zip");
                let octet = String::from_str("application/octet-stream");
                if !ct.eq(&zip) && !ct.eq(&octet) {
                    return Err(Error::UnexpectedContentType { content_type: ct.clone() });
                }
            },
            None => {},
        }
        let b = match blob_cache.write(bytes) {
            Ok(b) => b,
            Err(e) => {
                return Err(e);
            },
        };
        let p = match blob_cache.get_path(&b) {
            Some(p) => p,
            None => blob_cache.address_path(&b),
        };
        let id = String::from_str("http");
        let mut section = cache.take_http(&id);
        let ghost old_blobs = spec_http_blobs(old(cache)@);
        proof {
            assert(section.url_blobs@ =~= old_blobs);
        }
        let ghost gb = b;
        section.url_blobs.insert(url.clone(), b);
        cache.put_http(id, section);
        proof {
            assert(spec_http_blobs(cache@) =~= old_blobs.insert(url@, gb));
        }
        Ok(p)
    }

    /// A generic HTTP backend needs no credentials; connectivity failures
    /// surface on fetch.
    pub fn check(&self) -> (r: Result<(), Error>)
        ensures
            r is Ok,
    {
        Ok(())
    }

    /// A generic URL names one fixed artifact, so it is always pinned.
    pub fn is_pinned(&self, _spec: &ModSpecification) -> (r: bool)
        ensures
            r == true,
    {
        true
    }

    /// Generic URLs carry no version metadata.
    pub fn get_version_name(&self, _spec: &ModSpecification) -> (r: Option<String>)
        ensures
            r is None,
    {
        None
    }
}

} // verus!
