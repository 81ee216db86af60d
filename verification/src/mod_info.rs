use vstd::prelude::*;

verus! {

/// A locator string naming a requested artifact; identity is exact string
/// equality, and the locator may be imprecise ("latest version of X").
#[derive(Debug)]
pub struct ModSpecification {
    pub url: String,
}

/// A precise, fetchable locator produced once a specification has been
/// resolved; it is the key used when fetching content.
#[derive(Debug)]
pub struct ModResolution {
    pub url: String,
}

/// Whether a resolved artifact can be fetched through its provider, or is
/// only known by name (for example a bare local file).
#[derive(Debug)]
pub enum ResolvableStatus {
    Resolvable(ModResolution),
    Unresolvable { name: String },
}

/// Resolved metadata for one artifact: the owning provider id, a display
/// name, the precise spec it resolved to, the known version specs, its
/// status, and the dependency specs the provider suggests.
#[derive(Debug)]
pub struct ModInfo {
    pub provider: String,
    pub name: String,
    pub spec: ModSpecification,
    pub versions: Vec<ModSpecification>,
    pub status: ResolvableStatus,
    pub suggested_require: bool,
    pub suggested_dependencies: Vec<ModSpecification>,
}

/// One resolution step's outcome: either terminal metadata, or a more
/// precise specification that must be resolved in turn.
#[derive(Debug)]
pub enum ModResponse {
    Resolve(ModInfo),
    Redirect(ModSpecification),
}

/// Observational event emitted while fetching.
#[derive(Debug)]
pub enum FetchProgress {
    Progress { resolution: ModResolution, progress: u64, size: u64 },
    Complete { resolution: ModResolution },
}

/// What the background workers report to a user interface: a log line, a
/// finished resolution under its request id, or a finished integration.
#[derive(Debug)]
pub enum Message {
    Log(String),
    ResolveMod(u64, Result<(ModSpecification, ModInfo), crate::error::Error>),
    Integrate(u64, Result<(), crate::error::Error>),
}

/// The sequence of url views of a sequence of specifications.
pub open spec fn spec_urls(v: Seq<ModSpecification>) -> Seq<Seq<char>> {
    v.map_values(|s: ModSpecification| s.url@)
}

impl ModSpecification {
    pub fn new(url: String) -> (r: Self)
        ensures
            r.url@ == url@,
    {
        ModSpecification { url }
    }

    pub fn duplicate(&self) -> (r: Self)
        ensures
            r.url@ == self.url@,
    {
        ModSpecification { url: self.url.clone() }
    }
}

impl ModResolution {
    pub fn new(url: String) -> (r: Self)
        ensures
            r.url@ == url@,
    {
        ModResolution { url }
    }

    pub fn duplicate(&self) -> (r: Self)
        ensures
            r.url@ == self.url@,
    {
        ModResolution { url: self.url.clone() }
    }
}

impl FetchProgress {
    /// The resolution an event speaks of, whichever kind it is.
    pub fn resolution(&self) -> (r: &ModResolution)
        ensures
            r == match self {
                FetchProgress::Progress { resolution, .. } => resolution,
                FetchProgress::Complete { resolution } => resolution,
            },
    {
        match self {
            FetchProgress::Progress { resolution, .. } => resolution,
            FetchProgress::Complete { resolution } => resolution,
        }
    }
}

} // verus!
