use vstd::prelude::*;
use crate::error::Error;
use crate::mod_info::{ModInfo, ModResolution, ModResponse, ModSpecification, ResolvableStatus};
use crate::urls::{file_name_of, spec_file_name};

verus! {

/// The backend for locators that are plain local paths: it never fetches
/// anything, the locator itself is the artifact.
pub struct FileProvider {}

impl FileProvider {
    pub fn new() -> Self {
        FileProvider {  }
    }

    /// A local path resolves to itself: unresolvable status named after the
    /// file, one known version, no dependencies.
    pub fn resolve_mod(&self, spec: &ModSpecification) -> (r: Result<ModResponse, Error>)
        ensures
            match r {
                Ok(resp) => match resp {
                    ModResponse::Resolve(info) => spec_file_name(spec.url@) matches Some(name)
                        && info.provider@ == "file"@ && info.name@ == name && info.spec.url@
                        == spec.url@ && info.versions@.len() == 1 && info.versions@[0].url@
                        == spec.url@ && (info.status matches ResolvableStatus::Unresolvable {
                        name: n,
                    } && n@ == name) && info.suggested_require == false
                        && info.suggested_dependencies@.len() == 0,
                    ModResponse::Redirect(_) => false,
                },
                Err(e) => spec_file_name(spec.url@) is None && (e matches Error::MissingFileName {
                    url,
                } && url@ == spec.url@),
            },
    {
        match file_name_of(&spec.url) {
            Some(name) => {
                let mut versions: Vec<ModSpecification> = Vec::new();
                versions.push(spec.duplicate());
                Ok(
                    ModResponse::Resolve(
                        ModInfo {
                            provider: String::from_str("file"),
                            name: name.clone(),
                            spec: spec.duplicate(),
                            versions,
                            status: ResolvableStatus::Unresolvable { name },
                            suggested_require: false,
                            suggested_dependencies: Vec::new(),
                        },
                    ),
                )
            },
            None => Err(Error::MissingFileName { url: spec.url.clone() }),
        }
    }

    /// Fetching a local path returns that same path unchanged, with no copy
    /// and no store traffic.
    pub fn fetch_mod(&self, res: &ModResolution) -> (r: Result<String, Error>)
        ensures
            r matches Ok(p) && p@ == res.url@,
    {
        Ok(res.url.clone())
    }

    /// A local backend needs no connectivity or credentials.
    pub fn check(&self) -> (r: Result<(), Error>)
        ensures
            r is Ok,
    {
        Ok(())
    }

    /// The cache-only view equals what resolving would build, or none where
    /// the locator has no file name part.
    pub fn get_mod_info(&self, spec: &ModSpecification) -> (r: Option<ModInfo>)
        ensures
            match r {
                Some(info) => spec_file_name(spec.url@) matches Some(name) && info.provider@
                    == "file"@ && info.name@ == name && info.spec.url@ == spec.url@
                    && info.versions@.len() == 1 && info.versions@[0].url@ == spec.url@ && (
                info.status matches ResolvableStatus::Unresolvable { name: n } && n@ == name)
                    && info.suggested_require == false && info.suggested_dependencies@.len() == 0,
                None => spec_file_name(spec.url@) is None,
            },
    {
        match self.resolve_mod(spec) {
            Ok(ModResponse::Resolve(info)) => Some(info),
            _ => None,
        }
    }

    /// A local path names one fixed artifact, so it is always pinned.
    pub fn is_pinned(&self, _spec: &ModSpecification) -> (r: bool)
        ensures
            r == true,
    {
        true
    }

    /// Local files carry no version metadata beyond "latest".
    pub fn get_version_name(&self, _spec: &ModSpecification) -> (r: Option<String>)
        ensures
            r matches Some(v) && v@ == "latest"@,
    {
        Some(String::from_str("latest"))
    }
}

} // verus!
