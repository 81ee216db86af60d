use vstd::prelude::*;
use crate::blob::BlobRef;
use crate::kv::{StrMap, U32Map};
use crate::modio_data::ModioMod;

verus! {

/// The HTTP backend's private cache section: which blob each URL's bytes
/// were stored under.
#[derive(Debug)]
pub struct HttpProviderCache {
    pub url_blobs: StrMap<BlobRef>,
}

impl HttpProviderCache {
    pub open spec fn wf(&self) -> bool {
        self.url_blobs.wf()
    }

    pub open spec fn is_empty(&self) -> bool {
        self.url_blobs@ == Map::<Seq<char>, BlobRef>::empty()
    }

    pub fn new() -> (r: Self)
        ensures
            r.wf(),
            r.is_empty(),
    {
        HttpProviderCache { url_blobs: StrMap::new() }
    }
}

/// The mod registry backend's private cache section: the name to id map,
/// which blob each file was stored under, each mod's dependency ids, and
/// the mod records themselves.
#[derive(Debug)]
pub struct ModioCache {
    pub mod_id_map: StrMap<u32>,
    pub modfile_blobs: U32Map<BlobRef>,
    pub dependencies: U32Map<Vec<u32>>,
    pub mods: U32Map<ModioMod>,
}

impl ModioCache {
    pub open spec fn wf(&self) -> bool {
        self.mod_id_map.wf() && self.modfile_blobs.wf() && self.dependencies.wf()
            && self.mods.wf()
    }

    pub open spec fn is_empty(&self) -> bool {
        self.mod_id_map@ == Map::<Seq<char>, u32>::empty() && self.modfile_blobs@ == Map::<
            u32,
            BlobRef,
        >::empty() && self.dependencies@ == Map::<u32, Vec<u32>>::empty() && self.mods@ == Map::<
            u32,
            ModioMod,
        >::empty()
    }

    pub fn new() -> (r: Self)
        ensures
            r.wf(),
            r.is_empty(),
    {
        ModioCache {
            mod_id_map: StrMap::new(),
            modfile_blobs: U32Map::new(),
            dependencies: U32Map::new(),
            mods: U32Map::new(),
        }
    }
}

/// One provider's private section of the persisted document. A section a
/// version of this library does not know is carried as opaque text and
/// preserved.
#[derive(Debug)]
pub enum Section {
    Http(HttpProviderCache),
    Modio(ModioCache),
    Opaque(String),
}

pub open spec fn section_wf(s: Section) -> bool {
    match s {
        Section::Http(h) => h.wf(),
        Section::Modio(m) => m.wf(),
        Section::Opaque(_) => true,
    }
}

/// One persisted document holding an independent named section per provider
/// id; each section's structure is private to its owner. A typed read
/// returns none when the section is absent or of another owner's shape; a
/// typed take default-constructs it when absent or incompatible.
#[derive(Debug)]
pub struct ProviderCache {
    sections: StrMap<Section>,
}

impl View for ProviderCache {
    type V = Map<Seq<char>, Section>;

    closed spec fn view(&self) -> Map<Seq<char>, Section> {
        self.sections@
    }
}

impl ProviderCache {
    pub closed spec fn wf(&self) -> bool {
        self.sections.wf() && forall|k: Seq<char>|
            self.sections@.contains_key(k) ==> section_wf(#[trigger] self.sections@[k])
    }

    pub fn new() -> (r: Self)
        ensures
            r.wf(),
            r@ == Map::<Seq<char>, Section>::empty(),
    {
        ProviderCache { sections: StrMap::new() }
    }

    /// Typed read of the HTTP section: none when absent or incompatible.
    pub fn get_http(&self, id: &String) -> (r: Option<&HttpProviderCache>)
        requires
            self.wf(),
        ensures
            match r {
                Some(s) => self@.contains_key(id@) && self@[id@] == Section::Http(*s) && s.wf(),
                None => !self@.contains_key(id@) || !(self@[id@] is Http),
            },
    {
        match self.sections.get(id) {
            Some(Section::Http(h)) => Some(h),
            _ => None,
        }
    }

    /// Typed read of the mod registry section: none when absent or
    /// incompatible.
    pub fn get_modio(&self, id: &String) -> (r: Option<&ModioCache>)
        requires
            self.wf(),
        ensures
            match r {
                Some(s) => self@.contains_key(id@) && self@[id@] == Section::Modio(*s) && s.wf(),
                None => !self@.contains_key(id@) || !(self@[id@] is Modio),
            },
    {
        match self.sections.get(id) {
            Some(Section::Modio(m)) => Some(m),
            _ => None,
        }
    }

    /// Typed mutable access, take half: removes and returns the HTTP
    /// section, default-constructing it when absent or incompatible.
    pub fn take_http(&mut self, id: &String) -> (r: HttpProviderCache)
        requires
            old(self).wf(),
        ensures
            final(self).wf(),
            final(self)@ == old(self)@.remove(id@),
            r.wf(),
            if old(self)@.contains_key(id@) && old(self)@[id@] is Http {
                Section::Http(r) == old(self)@[id@]
            } else {
                r.is_empty()
            },
    {
        let taken = self.sections.take(id);
        proof {
            assert(self.sections@ =~= old(self)@.remove(id@));
        }
        match taken {
            Some(Section::Http(h)) => h,
            _ => HttpProviderCache::new(),
        }
    }

    /// Typed mutable access, take half: removes and returns the mod
    /// registry section, default-constructing it when absent or
    /// incompatible.
    pub fn take_modio(&mut self, id: &String) -> (r: ModioCache)
        requires
            old(self).wf(),
        ensures
            final(self).wf(),
            final(self)@ == old(self)@.remove(id@),
            r.wf(),
            if old(self)@.contains_key(id@) && old(self)@[id@] is Modio {
                Section::Modio(r) == old(self)@[id@]
            } else {
                r.is_empty()
            },
    {
        let taken = self.sections.take(id);
        proof {
            assert(self.sections@ =~= old(self)@.remove(id@));
        }
        match taken {
            Some(Section::Modio(m)) => m,
            _ => ModioCache::new(),
        }
    }

    /// Typed mutable access, put half: stores the HTTP section back under
    /// `id`.
    pub fn put_http(&mut self, id: String, s: HttpProviderCache)
        requires
            old(self).wf(),
            s.wf(),
        ensures
            final(self).wf(),
            final(self)@ == old(self)@.insert(id@, Section::Http(s)),
    {
        self.sections.insert(id, Section::Http(s));
        proof {
            assert(self.sections@ =~= old(self)@.insert(id@, Section::Http(s)));
        }
    }

    /// Stores a section owned by a provider this version does not know,
    /// carried as opaque text so that it survives load and save unchanged.
    pub fn put_opaque(&mut self, id: String, text: String)
        requires
            old(self).wf(),
        ensures
            final(self).wf(),
            final(self)@ == old(self)@.insert(id@, Section::Opaque(text)),
    {
        self.sections.insert(id, Section::Opaque(text));
        proof {
            assert(self.sections@ =~= old(self)@.insert(id@, Section::Opaque(text)));
        }
    }

    /// The whole document, for callers that persist it.
    pub fn sections(&self) -> (r: &StrMap<Section>)
        requires
            self.wf(),
        ensures
            r.wf(),
            r@ == self@,
    {
        &self.sections
    }

    /// Typed mutable access, put half: stores the mod registry section back
    /// under `id`.
    pub fn put_modio(&mut self, id: String, s: ModioCache)
        requires
            old(self).wf(),
            s.wf(),
        ensures
            final(self).wf(),
            final(self)@ == old(self)@.insert(id@, Section::Modio(s)),
    {
        self.sections.insert(id, Section::Modio(s));
        proof {
            assert(self.sections@ =~= old(self)@.insert(id@, Section::Modio(s)));
        }
    }
}

} // verus!
