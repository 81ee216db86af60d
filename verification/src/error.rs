use vstd::prelude::*;

verus! {

/// Why a resolve or fetch call failed. A single failure aborts the whole
/// batch: a partially resolved dependency graph is never returned.
#[derive(Debug)]
pub enum Error {
    /// No registered backend claims the locator, or the matching backend is
    /// not configured. `factory_id` names the matched descriptor when one
    /// matched but was unconfigured.
    NoProvider { url: String, factory_id: Option<String> },
    /// The locator does not follow the grammar its provider expects.
    InvalidUrl { url: String },
    /// A fetch locator lacks the id parts that name one concrete file.
    ImpreciseUrl { url: String },
    /// The artifact has no associated file to fetch.
    NoModfile { url: String },
    /// A name lookup returned more than one artifact.
    MultipleModsForName { name_id: String },
    /// A name lookup returned no artifact.
    NoModsForName { name_id: String },
    /// A locator that should name a file has no file name part.
    MissingFileName { url: String },
    /// A download reported a content type the store does not accept.
    UnexpectedContentType { content_type: String },
    /// A backend was constructed without a required parameter.
    MissingParameter { id: String },
    /// A provider redirected more times than the configured bound allows;
    /// redirect cycles are a backend fault made detectable here.
    RedirectLimit { url: String },
    /// Dependency discovery ran more passes than the configured bound
    /// allows; a provider whose suggestions never stabilize is made
    /// detectable here.
    ResolveLimit,
    /// Writing fetched bytes into the content-addressed store failed.
    StoreWrite { path: String },
}

impl Error {
    /// A short human-readable description, for callers that display errors.
    pub fn message(&self) -> (r: String)
    {
        match self {
            Error::NoProvider { url, .. } => {
                let mut s = String::from_str("no provider for ");
                s.append(url.as_str());
                s
            },
            Error::InvalidUrl { url } => {
                let mut s = String::from_str("invalid url ");
                s.append(url.as_str());
                s
            },
            Error::ImpreciseUrl { url } => {
                let mut s = String::from_str("download url must be fully specified: ");
                s.append(url.as_str());
                s
            },
            Error::NoModfile { url } => {
                let mut s = String::from_str("mod has no associated modfile: ");
                s.append(url.as_str());
                s
            },
            Error::MultipleModsForName { name_id } => {
                let mut s = String::from_str("multiple mods returned for mod name ");
                s.append(name_id.as_str());
                s
            },
            Error::NoModsForName { name_id } => {
                let mut s = String::from_str("no mods returned for mod name ");
                s.append(name_id.as_str());
                s
            },
            Error::MissingFileName { url } => {
                let mut s = String::from_str("could not determine file name of ");
                s.append(url.as_str());
                s
            },
            Error::UnexpectedContentType { content_type } => {
                let mut s = String::from_str("unexpected content type ");
                s.append(content_type.as_str());
                s
            },
            Error::MissingParameter { id } => {
                let mut s = String::from_str("missing required parameter ");
                s.append(id.as_str());
                s
            },
            Error::RedirectLimit { url } => {
                let mut s = String::from_str("redirect limit reached while resolving ");
                s.append(url.as_str());
                s
            },
            Error::ResolveLimit => String::from_str("dependency discovery did not stabilize"),
            Error::StoreWrite { path } => {
                let mut s = String::from_str("could not write blob ");
                s.append(path.as_str());
                s
            },
        }
    }
}

} // verus!
