use vstd::prelude::*;

verus! {

/// One released file of a mod, as the backend's registry lists it.
#[derive(Debug)]
pub struct ModioFile {
    pub id: u32,
    pub date_added: u64,
    pub version: Option<String>,
    pub changelog: Option<String>,
}

impl ModioFile {
    pub fn new(id: u32, date_added: u64, version: Option<String>, changelog: Option<String>) -> (r:
        Self)
        ensures
            r.id == id,
            r.date_added == date_added,
            r.version == version,
            r.changelog == changelog,
    {
        ModioFile { id, date_added, version, changelog }
    }
}

/// A mod's registry record: its stable name id, display name, newest file
/// if any, known files, and tags.
#[derive(Debug)]
pub struct ModioMod {
    pub name_id: String,
    pub name: String,
    pub latest_modfile: Option<u32>,
    pub modfiles: Vec<ModioFile>,
    pub tags: Vec<String>,
}

impl ModioMod {
    pub fn new(
        name_id: String,
        name: String,
        latest_modfile: Option<u32>,
        modfiles: Vec<ModioFile>,
        tags: Vec<String>,
    ) -> (r: Self)
        ensures
            r.name_id == name_id,
            r.name == name,
            r.latest_modfile == latest_modfile,
            r.modfiles == modfiles,
            r.tags == tags,
    {
        ModioMod { name_id, name, latest_modfile, modfiles, tags }
    }

    /// Whether some tag reads exactly `t`.
    pub open spec fn spec_has_tag(&self, t: Seq<char>) -> bool {
        exists|i: int| 0 <= i < self.tags.len() && self.tags[i]@ == t
    }

    pub fn has_tag(&self, t: &String) -> (r: bool)
        ensures
            r == self.spec_has_tag(t@),
    {
        let n = self.tags.len();
        let mut i: usize = 0;
        while i < n
            invariant
                n == self.tags.len(),
                i <= n,
                forall|j: int| 0 <= j < i ==> self.tags[j]@ != t@,
            decreases n - i,
        {
            if self.tags[i].eq(t) {
                return true;
            }
            i += 1;
        }
        false
    }
}

} // verus!
