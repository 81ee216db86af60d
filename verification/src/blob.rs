use vstd::prelude::*;
use crate::error::Error;
use sha2::Digest;

verus! {

/// The 256-bit digest that the store derives a blob's address from. It is a
/// function of the bytes alone, computed by an outside crate, so only its
/// name is stated here.
pub uninterp spec fn sha256_of(b: Seq<u8>) -> Seq<u8>;

/// The lowercase hex character for a value below sixteen.
pub open spec fn hex_char_of(d: int) -> char {
    if d < 10 {
        crate::strutil::spec_digit_char(d)
    } else if d == 10 {
        'a'
    } else if d == 11 {
        'b'
    } else if d == 12 {
        'c'
    } else if d == 13 {
        'd'
    } else if d == 14 {
        'e'
    } else {
        'f'
    }
}

/// Lowercase hex of a byte sequence: two digits for each byte, high first.
pub open spec fn spec_hex_of(b: Seq<u8>) -> Seq<char>
    decreases b.len(),
{
    if b.len() == 0 {
        Seq::empty()
    } else {
        seq![hex_char_of(b.first() as int / 16), hex_char_of(b.first() as int % 16)] + spec_hex_of(
            b.drop_first(),
        )
    }
}

/// A blob's address: the lowercase hex digest of its content.
pub open spec fn spec_blob_address(b: Seq<u8>) -> Seq<char> {
    spec_hex_of(sha256_of(b))
}

/// Relies on sha2::Sha256 (a 256-bit digest of the bytes alone) and on
/// hex::encode (two lowercase hex digits for each byte, high nibble first).
#[verifier::external_body]
fn sha256_hex(b: &Vec<u8>) -> (r: String)
    ensures
        r@ == spec_hex_of(sha256_of(b@)),
{
    hex::encode(sha2::Sha256::digest(b.as_slice()))
}

/// Relies on fs_err::write: writes the whole byte slice to the file at the
/// path, creating it if absent, and says whether that succeeded.
#[verifier::external_body]
fn fs_write(path: &String, bytes: &Vec<u8>) -> (r: bool)
{
    fs_err::write(path, bytes.as_slice()).is_ok()
}

/// Relies on fs_err::rename: moves the file at `from` to `to` in one step
/// (atomic within one filesystem), and says whether that succeeded.
#[verifier::external_body]
fn fs_rename(from: &String, to: &String) -> (r: bool)
{
    fs_err::rename(from, to).is_ok()
}

/// Relies on fs_err::create_dir: makes the directory; an error (for example
/// because it already exists) is deliberately ignored, as creation is lazy.
#[verifier::external_body]
fn fs_create_dir(path: &String)
{
    let _ = fs_err::create_dir(path);
}

/// Relies on fs_err::metadata: says whether a file exists at the path now.
#[verifier::external_body]
pub(crate) fn path_exists(path: &String) -> (r: bool)
{
    fs_err::metadata(path).is_ok()
}

/// The path of the entry `name` directly under `dir`.
pub open spec fn spec_join(dir: Seq<char>, name: Seq<char>) -> Seq<char> {
    dir + seq!['/'] + name
}

pub fn join_path(dir: &String, name: &str) -> (r: String)
    ensures
        r@ == spec_join(dir@, name@),
{
    proof {
        reveal_strlit("/");
    }
    let mut s = dir.clone();
    s.append("/");
    s.append(name);
    proof {
        assert(s@ =~= spec_join(dir@, name@));
    }
    s
}

/// The content address of previously stored bytes: their lowercase hex
/// digest.
#[derive(Debug)]
pub struct BlobRef(pub String);

impl BlobRef {
    pub fn duplicate(&self) -> (r: Self)
        ensures
            r.0@ == self.0@,
    {
        BlobRef(self.0.clone())
    }
}

/// A content-addressed store: a directory of files, each named by the
/// lowercase hex digest of its content. Writes go to a hidden temporary
/// file first and are renamed into place, so no reader observes a partial
/// write; temporary names are never valid blob references.
#[derive(Debug)]
pub struct BlobCache {
    path: String,
}

impl BlobCache {
    pub closed spec fn dir(&self) -> Seq<char> {
        self.path@
    }

    /// The store directory is created lazily here; failure to create it
    /// surfaces later, as a write error.
    pub fn new(path: String) -> (r: Self)
        ensures
            r.dir() == path@,
    {
        fs_create_dir(&path);
        BlobCache { path }
    }

    /// Stores `blob` under its content address and returns that address.
    /// Writing equal bytes twice yields the same reference, so the store
    /// holds at most one file per address.
    pub fn write(&self, blob: &Vec<u8>) -> (r: Result<BlobRef, Error>)
        ensures
            match r {
                Ok(b) => b.0@ == spec_blob_address(blob@),
                Err(e) => e is StoreWrite,
            },
    {
        proof {
            reveal_strlit(".");
        }
        let hash = sha256_hex(blob);
        let mut tmp_name = String::from_str(".");
        tmp_name.append(hash.as_str());
        let tmp = join_path(&self.path, tmp_name.as_str());
        let dest = join_path(&self.path, hash.as_str());
        if !fs_write(&tmp, blob) {
            return Err(Error::StoreWrite { path: tmp });
        }
        if !fs_rename(&tmp, &dest) {
            return Err(Error::StoreWrite { path: dest });
        }
        Ok(BlobRef(hash))
    }

    /// The path a reference would name, with no existence check.
    pub fn address_path(&self, blob: &BlobRef) -> (r: String)
        ensures
            r@ == spec_join(self.dir(), blob.0@),
    {
        join_path(&self.path, blob.0.as_str())
    }

    /// An existence check only: the path a reference names, if a blob is
    /// present there now.
    pub fn get_path(&self, blob: &BlobRef) -> (r: Option<String>)
        ensures
            match r {
                Some(p) => p@ == spec_join(self.dir(), blob.0@),
                None => true,
            },
    {
        let p = join_path(&self.path, blob.0.as_str());
        if path_exists(&p) {
            Some(p)
        } else {
            None
        }
    }
}

/// Equal byte sequences always have the same content address, so two
/// writes of the same bytes name the same blob.
pub proof fn lemma_blob_address_deterministic(b1: Seq<u8>, b2: Seq<u8>)
    requires
        b1 == b2,
    ensures
        spec_blob_address(b1) == spec_blob_address(b2),
{
}

} // verus!
