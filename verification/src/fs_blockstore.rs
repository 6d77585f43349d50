//! Content-addressed blocks stored as files: each block lives in a file
//! named by its CID, inside a sub-directory named by the first two
//! characters of the CID, under the store's base directory.

use vstd::prelude::*;

verus! {

/// `base` with the relative path `name` appended, as a Unix path: a `/`
/// goes between them unless `base` is empty or already ends with one.
pub open spec fn joined(base: Seq<char>, name: Seq<char>) -> Seq<char> {
    if base.len() == 0 {
        name
    } else if base.last() == '/' {
        base + name
    } else {
        base + "/"@ + name
    }
}

/// Appends the relative path `name` to `base`.
pub fn join_path(base: &str, name: &str) -> (r: String)
    ensures
        r@ == joined(base@, name@),
{
    let n = base.unicode_len();
    let mut out = String::from_str(base);
    if n > 0 && base.get_char(n - 1) != '/' {
        out.append("/");
    }
    out.append(name);
    out
}

/// The sub-directories made in advance, for the usual CID prefixes.
pub open spec fn common_prefixes() -> Seq<Seq<char>> {
    seq!["ba"@, "bb"@, "bc"@, "bd"@, "be"@, "bf"@]
}

/// The text of the CID encoded by `bytes`, as the `cid` crate displays it
/// (`None` when the bytes are no CID).
pub uninterp spec fn cid_text(bytes: Seq<u8>) -> Option<Seq<char>>;

/// The value of an optional text.
pub open spec fn opt_string_view(r: &Option<String>) -> Option<Seq<char>> {
    match r {
        Some(s) => Some(s@),
        None => None,
    }
}

/// Decodes a CID with `Cid::try_from` and renders it with its `Display`.
/// The contract claims only that the outcome is a function of the bytes.
#[verifier::external_body]
fn cid_to_text(bytes: &[u8]) -> (r: Option<String>)
    ensures
        opt_string_view(&r) == cid_text(bytes@),
{
    cid::Cid::try_from(bytes).ok().map(|c| c.to_string())
}

/// The file that holds the block with CID text `cid`: `<base>/<first two
/// characters of cid>/<cid>` (a shorter CID text is its own prefix).
pub open spec fn block_file(base: Seq<char>, cid: Seq<char>) -> Seq<char> {
    let prefix = cid.subrange(0, if cid.len() < 2 { cid.len() as int } else { 2 });
    joined(joined(base, prefix), cid)
}

/// Why a file operation failed.
#[derive(Debug)]
pub struct IoFailure {
    /// The file did not exist.
    pub not_found: bool,
    pub message: String,
}

/// An error of the block store.
#[derive(Debug)]
pub enum StoreError {
    /// The file system failed, with its message.
    Executor(String),
}

/// A block store kept in a directory.
#[derive(Debug, Clone)]
pub struct FsBlockstore {
    pub base_path: String,
}

impl FsBlockstore {
    /// A store under `base_path` (the directories are made by the caller,
    /// see `directories`).
    pub fn new(base_path: String) -> (r: FsBlockstore)
        ensures
            r.base_path@ == base_path@,
    {
        FsBlockstore { base_path }
    }

    /// The directories to create before use: the base directory first,
    /// then one for each usual CID prefix.
    pub fn directories(&self) -> (r: Vec<String>)
        ensures
            r@.len() == 7,
            r@[0]@ == self.base_path@,
            forall|i: int| 0 <= i < 6 ==> (#[trigger] r@[i + 1])@ == joined(self.base_path@, common_prefixes()[i]),
    {
        let mut out: Vec<String> = Vec::new();
        out.push(self.base_path.clone());
        out.push(join_path(self.base_path.as_str(), "ba"));
        out.push(join_path(self.base_path.as_str(), "bb"));
        out.push(join_path(self.base_path.as_str(), "bc"));
        out.push(join_path(self.base_path.as_str(), "bd"));
        out.push(join_path(self.base_path.as_str(), "be"));
        out.push(join_path(self.base_path.as_str(), "bf"));
        assert forall|i: int| 0 <= i < 6 implies (#[trigger] out@[i + 1])@ == joined(self.base_path@, common_prefixes()[i]) by {
            if i == 0 {} else if i == 1 {} else if i == 2 {} else if i == 3 {} else if i == 4 {} else {}
        }
        out
    }

    /// The file for a block whose CID has the text `cid`.
    pub fn block_path_for_text(&self, cid: &str) -> (r: String)
        ensures
            r@ == block_file(self.base_path@, cid@),
    {
        let n = cid.unicode_len();
        let k = if n < 2 { n } else { 2 };
        let prefix = cid.substring_char(0, k);
        let dir = join_path(self.base_path.as_str(), prefix);
        join_path(dir.as_str(), cid)
    }

    /// The file for the block whose CID is encoded by `cid`, or `None` when
    /// the bytes are no CID.
    pub fn block_path(&self, cid: &[u8]) -> (r: Option<String>)
        ensures
            r matches Some(p) ==> cid_text(cid@) matches Some(t) && p@ == block_file(self.base_path@, t),
            r is None ==> cid_text(cid@) is None,
    {
        match cid_to_text(cid) {
            Some(t) => Some(self.block_path_for_text(t.as_str())),
            None => None,
        }
    }
}

/// A read of a block file, interpreted: the data, no block when the file
/// is missing, or the file system's error.
pub fn read_outcome(r: Result<Vec<u8>, IoFailure>) -> (out: Result<Option<Vec<u8>>, StoreError>)
    ensures
        r matches Ok(d) ==> (out matches Ok(Some(v)) && v@ == d@),
        r matches Err(f) ==> (f.not_found ==> out matches Ok(None)),
        r matches Err(f) ==> (!f.not_found ==> (out matches Err(StoreError::Executor(m)) && m@ == f.message@)),
{
    match r {
        Ok(d) => Ok(Some(d)),
        Err(f) => {
            if f.not_found {
                Ok(None)
            } else {
                Err(StoreError::Executor(f.message))
            }
        },
    }
}

/// A write of a block file, interpreted: any failure is the file system's error.
pub fn write_outcome(r: Result<(), IoFailure>) -> (out: Result<(), StoreError>)
    ensures
        r is Ok ==> out is Ok,
        r matches Err(f) ==> (out matches Err(StoreError::Executor(m)) && m@ == f.message@),
{
    match r {
        Ok(()) => Ok(()),
        Err(f) => Err(StoreError::Executor(f.message)),
    }
}

/// A removal of a block file, interpreted: removing a missing block succeeds.
pub fn remove_outcome(r: Result<(), IoFailure>) -> (out: Result<(), StoreError>)
    ensures
        r is Ok ==> out is Ok,
        r matches Err(f) ==> (f.not_found ==> out is Ok),
        r matches Err(f) ==> (!f.not_found ==> (out matches Err(StoreError::Executor(m)) && m@ == f.message@)),
{
    match r {
        Ok(()) => Ok(()),
        Err(f) => {
            if f.not_found {
                Ok(())
            } else {
                Err(StoreError::Executor(f.message))
            }
        },
    }
}

/// A check for a block file, interpreted: a failed check counts as absent.
pub fn exists_outcome(r: Result<bool, IoFailure>) -> (out: bool)
    ensures
        out == (r matches Ok(b) && b),
{
    match r {
        Ok(b) => b,
        Err(_) => false,
    }
}

} // verus!
