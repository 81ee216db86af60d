use vstd::prelude::*;
use crate::urls::{http_hostname, parse_modio_url, spec_http_hostname, spec_parse_modio};

verus! {

/// Which backend a registered descriptor constructs.
#[derive(Clone, Copy, Debug, PartialEq, Eq, Structural)]
pub enum ProviderKind {
    File,
    Http,
    Modio,
}

/// One construction parameter a backend requires, for prompting: its id,
/// display name, help text, and an optional link to where the value is
/// obtained.
#[derive(Debug)]
pub struct ProviderParameter {
    pub id: String,
    pub name: String,
    pub description: String,
    pub link: Option<String>,
}

/// A registered backend descriptor: its id, kind, and the parameters its
/// constructor requires.
#[derive(Debug)]
pub struct ProviderFactory {
    pub kind: ProviderKind,
    pub id: String,
    pub parameters: Vec<ProviderParameter>,
}

/// The append-only set of backend descriptors, in declared registration
/// order; selection scans it in that order. Locators are claimed by the
/// registry grammar first, then the generic HTTP grammar, then local
/// paths. Unlike the open link-time plug-in point it replaces, this
/// registry is the closed set of the three backends the library verifies;
/// a new backend is added here, together with its contracts.
pub struct ProviderRegistry {
    pub factories: Vec<ProviderFactory>,
}

/// The declared registration order and shape of the descriptors: the
/// registry backend first with its one token parameter, then the generic
/// HTTP backend, then the local-path backend, each under its id.
pub open spec fn spec_standard_factories(fs: Seq<ProviderFactory>) -> bool {
    &&& fs.len() == 3
    &&& fs[0].kind is Modio
    &&& fs[0].id@ == "modio"@
    &&& fs[1].kind is Http
    &&& fs[1].id@ == "http"@
    &&& fs[2].kind is File
    &&& fs[2].id@ == "file"@
    &&& fs[0].parameters@.len() == 1
    &&& fs[0].parameters@[0].id@ == "oauth"@
    &&& fs[1].parameters@.len() == 0
    &&& fs[2].parameters@.len() == 0
}

impl ProviderRegistry {
    pub open spec fn wf(&self) -> bool {
        spec_standard_factories(self.factories@)
    }

    /// Populates the registry with every known backend, in the declared
    /// registration order.
    pub fn standard() -> (r: Self)
        ensures
            r.wf(),
    {
        let mut factories: Vec<ProviderFactory> = Vec::new();
        let mut modio_params: Vec<ProviderParameter> = Vec::new();
        modio_params.push(
            ProviderParameter {
                id: String::from_str("oauth"),
                name: String::from_str("OAuth Token"),
                description: String::from_str(
                    "mod.io OAuth token. Obtain from https://mod.io/me/access",
                ),
                link: Some(String::from_str("https://mod.io/me/access")),
            },
        );
        factories.push(
            ProviderFactory {
                kind: ProviderKind::Modio,
                id: String::from_str("modio"),
                parameters: modio_params,
            },
        );
        factories.push(
            ProviderFactory {
                kind: ProviderKind::Http,
                id: String::from_str("http"),
                parameters: Vec::new(),
            },
        );
        factories.push(
            ProviderFactory {
                kind: ProviderKind::File,
                id: String::from_str("file"),
                parameters: Vec::new(),
            },
        );
        ProviderRegistry { factories }
    }
}

/// Whether the mod registry backend claims a locator: it follows the
/// registry grammar.
pub open spec fn spec_is_modio_url(url: Seq<char>) -> bool {
    spec_parse_modio(url) is Some
}

/// Whether the generic HTTP backend claims a locator: an HTTP URL whose
/// hostname is not one of the registry's own hosts.
pub open spec fn spec_is_http_url(url: Seq<char>) -> bool {
    match spec_http_hostname(url) {
        Some(h) => h != "mod.io"@ && h != "drg.mod.io"@ && h != "drg.old.mod.io"@,
        None => false,
    }
}

pub fn can_provide_modio(url: &String) -> (r: bool)
    ensures
        r == spec_is_modio_url(url@),
{
    parse_modio_url(url).is_some()
}

pub fn can_provide_http(url: &String) -> (r: bool)
    ensures
        r == spec_is_http_url(url@),
{
    match http_hostname(url) {
        Some(h) => !h.eq(&String::from_str("mod.io")) && !h.eq(&String::from_str("drg.mod.io"))
            && !h.eq(&String::from_str("drg.old.mod.io")),
        None => false,
    }
}

} // verus!
