//! Content-addressed store layout.
//!
//! An in-flight upload streams into a staging file named
//! `tmp-<nonce>-<filename>` under a destination root; on success it is
//! renamed to `<sha1-hex>.<ext>`, so identical content always lands on the
//! same final path and the store is idempotent under identical bytes.

use vstd::prelude::*;
use vstd::string::StrSliceExecFns;
use vstd::string::StringExecFns;
use crate::codec::{decimal_chars, hex_chars, u64_to_string};
use crate::crypto::sha1_digest;
use crate::error::{ErrorKind, MyError};
use crate::sniff::{ext_chars, ImageKind};

verus! {

/// A usable client filename: free of path separators, so it cannot escape
/// the destination root.
pub open spec fn filename_ok(name: Seq<char>) -> bool {
    forall|i: int| 0 <= i < name.len() ==> name[i] != '/'
}

/// True when the filename contains no path separator.
pub fn validate_filename(name: &str) -> (r: bool)
    ensures
        r == filename_ok(name@),
{
    let n = name.unicode_len();
    let mut i: usize = 0;
    while i < n
        invariant
            n == name@.len(),
            i <= n,
            forall|j: int| 0 <= j < i ==> name@[j] != '/',
        decreases n - i,
    {
        if name.get_char(i) == '/' {
            return false;
        }
        i = i + 1;
    }
    true
}

/// `dir` and `name` joined by a single path separator.
pub open spec fn path_join(dir: Seq<char>, name: Seq<char>) -> Seq<char> {
    dir + seq!['/'] + name
}

/// The staging file name of an in-flight upload: `tmp-<nonce>-<filename>`.
/// The nonce prefix keeps concurrent uploads of the same client filename
/// from colliding.
pub open spec fn staging_name_chars(nonce: nat, filename: Seq<char>) -> Seq<char> {
    seq!['t', 'm', 'p', '-'] + decimal_chars(nonce) + seq!['-'] + filename
}

/// The final file name of a stored object: the lowercase hex SHA-1 digest
/// of its content, dot, the canonical extension of its classified format.
pub open spec fn final_name_chars(content: Seq<u8>, kind: ImageKind) -> Seq<char> {
    hex_chars(sha1_digest(content)) + seq!['.'] + ext_chars(kind)
}

/// The staging path for an upload: `<dir>/tmp-<nonce>-<filename>`.
pub fn staging_path(dir: &str, nonce: u64, filename: &str) -> (r: String)
    ensures
        r@ =~= path_join(dir@, staging_name_chars(nonce as nat, filename@)),
{
    proof {
        reveal_strlit("/tmp-");
        reveal_strlit("-");
    }
    let mut s = dir.to_owned();
    s.append("/tmp-");
    let num = u64_to_string(nonce);
    s.append(num.as_str());
    s.append("-");
    s.append(filename);
    s
}

/// The final path for a stored object: `<dir>/<hash>.<ext>`. `hash` is the
/// hex digest string of the content; `ext` the canonical extension.
pub fn final_path(dir: &str, hash: &str, ext: &str) -> (r: String)
    ensures
        r@ =~= path_join(dir@, hash@ + seq!['.'] + ext@),
{
    proof {
        reveal_strlit("/");
        reveal_strlit(".");
    }
    let mut s = dir.to_owned();
    s.append("/");
    s.append(hash);
    s.append(".");
    s.append(ext);
    s
}

/// The configured destination roots: one default directory, plus any
/// number of alternates keyed by a client-suppliable index string.
pub struct StoreConfig {
    /// The default destination root.
    pub default_dir: String,
    /// Alternate roots: pairs of index string and directory path.
    pub extra_dirs: Vec<(String, String)>,
}

/// The directory configured for an index: the first pair carrying it.
pub open spec fn lookup_dir(entries: Seq<(String, String)>, idx: Seq<char>) -> Option<Seq<char>>
    decreases entries.len(),
{
    if entries.len() == 0 {
        None
    } else if entries[0].0@ == idx {
        Some(entries[0].1@)
    } else {
        lookup_dir(entries.drop_first(), idx)
    }
}

/// The destination root an upload resolves to: the default when no index
/// was supplied (or an empty one), the configured alternate for a known
/// index, and nothing for an unknown index.
pub open spec fn resolved_dir(cfg: &StoreConfig, index: Option<&str>) -> Option<Seq<char>> {
    match index {
        None => Some(cfg.default_dir@),
        Some(idx) => if idx@.len() == 0 {
            Some(cfg.default_dir@)
        } else {
            lookup_dir(cfg.extra_dirs@, idx@)
        },
    }
}

impl StoreConfig {
    /// Resolves the destination root for an upload from the optional
    /// client-supplied index header: the default root when the header is
    /// absent or empty, the configured alternate for a known index, and an
    /// unknown-index error otherwise. On success also returns the index
    /// that was honoured, for echoing in the response.
    pub fn resolve_dir(&self, index: Option<&str>) -> (r: Result<(String, Option<String>), MyError>)
        ensures
            (r is Ok) <==> resolved_dir(self, index) is Some,
            r is Ok ==> r->Ok_0.0@ == resolved_dir(self, index)->0,
            r is Ok ==> match r->Ok_0.1 {
                None => index is None || index->0@.len() == 0,
                Some(echoed) => index is Some && echoed@ == index->0@ && index->0@.len() > 0,
            },
            r is Err ==> r->Err_0.kind == ErrorKind::UnknownDirIndex,
    {
        match index {
            None => Ok((self.default_dir.clone(), None)),
            Some(idx) => {
                proof {
                    assert(index == Some(idx));
                }
                if idx.is_empty() {
                    return Ok((self.default_dir.clone(), None));
                }
                let key = idx.to_owned();
                proof {
                    assert(self.extra_dirs@.skip(0) =~= self.extra_dirs@);
                }
                let mut i: usize = 0;
                while i < self.extra_dirs.len()
                    invariant
                        i <= self.extra_dirs@.len(),
                        key@ == idx@,
                        idx@.len() > 0,
                        index == Some(idx),
                        lookup_dir(self.extra_dirs@.skip(i as int), idx@) == lookup_dir(
                            self.extra_dirs@,
                            idx@,
                        ),
                    decreases self.extra_dirs@.len() - i,
                {
                    if self.extra_dirs[i].0 == key {
                        proof {
                            assert(self.extra_dirs@.skip(i as int)[0] == self.extra_dirs@[i as int]);
                            assert(lookup_dir(self.extra_dirs@.skip(i as int), idx@) == Some(
                                self.extra_dirs@[i as int].1@,
                            ));
                            assert(resolved_dir(self, index) == lookup_dir(
                                self.extra_dirs@,
                                idx@,
                            ));
                        }
                        return Ok((self.extra_dirs[i].1.clone(), Some(key)));
                    }
                    proof {
                        assert(self.extra_dirs@.skip(i as int).drop_first() =~= self.extra_dirs@.skip(
                            i + 1,
                        ));
                        assert(self.extra_dirs@.skip(i as int)[0] == self.extra_dirs@[i as int]);
                    }
                    i = i + 1;
                }
                proof {
                    assert(self.extra_dirs@.skip(i as int) =~= Seq::<(String, String)>::empty());
                }
                let mut msg = String::new();
                msg.append("Unknown dir index: ");
                msg.append(idx);
                Err(MyError::new(ErrorKind::UnknownDirIndex, msg))
            },
        }
    }
}

/// Two uploads with byte-identical content resolve to the same digest and
/// the same final name, whatever their client filenames were: the store
/// holds one object per distinct content.
pub proof fn lemma_identical_content_same_address(c1: Seq<u8>, c2: Seq<u8>, kind: ImageKind)
    requires
        c1 =~= c2,
    ensures
        hex_chars(sha1_digest(c1)) =~= hex_chars(sha1_digest(c2)),
        final_name_chars(c1, kind) =~= final_name_chars(c2, kind),
{
}

} // verus!
