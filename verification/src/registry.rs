//! The watch registry: the single-owner table from armed watch handles to
//! the files they observe, together with the per-notification bookkeeping of
//! the change-detection loop.
//!
//! Watches are one-shot: a handle delivers at most one notification and is
//! then inert. On each notification the loop removes the fired handle
//! ([`Registry::resolve`]), re-arms the path under a fresh handle, re-reads
//! and re-fingerprints the file ([`fingerprint_file`]), and re-inserts the
//! fresh record while recording a genuine content change
//! ([`Registry::reinstate`]).

use std::collections::HashMap;
use vstd::prelude::*;

use crate::digest::digest_eq;
use crate::digest::digest_of;
use crate::digest::fingerprint_bytes;
use crate::errors::WatcherError;

verus! {

broadcast use vstd::std_specs::hash::group_hash_axioms;

/// One file under observation: its path as the caller supplied it, and the
/// digest of its content at last observation.
pub struct WatchedFile {
    pub path: String,
    pub fingerprint: [u8; 32],
}

/// Builds the watched-file record for `path` from the outcome of reading the
/// file's bytes: on a successful read, the record carrying the content's
/// fingerprint; otherwise the read error naming the path and the cause.
pub fn fingerprint_file(path: String, content: Result<Vec<u8>, String>) -> (r: Result<
    WatchedFile,
    WatcherError,
>)
    ensures
        content matches Ok(bytes) ==> (r matches Ok(f) && f.path@ == path@ && f.fingerprint@
            == digest_of(bytes@)),
        content matches Err(cause) ==> (r matches Err(e) && (e matches WatcherError::Read {
            path: p,
            cause: c,
        } && p@ == path@ && c@ == cause@)),
{
    match content {
        Ok(bytes) => {
            let fp = fingerprint_bytes(bytes.as_slice());
            Ok(WatchedFile { path, fingerprint: fp })
        },
        Err(cause) => Err(WatcherError::Read { path, cause }),
    }
}

/// The set of paths that a handle table keeps under observation.
pub open spec fn paths_of(m: Map<i32, WatchedFile>) -> Set<Seq<char>> {
    Set::new(|p: Seq<char>| exists|h: i32| #[trigger] m.dom().contains(h) && m[h].path@ == p)
}

/// No two live handles observe the same path.
pub open spec fn distinct_paths(m: Map<i32, WatchedFile>) -> bool {
    forall|h1: i32, h2: i32|
        #![trigger m.dom().contains(h1), m.dom().contains(h2)]
        m.dom().contains(h1) && m.dom().contains(h2) && m[h1].path@ == m[h2].path@ ==> h1 == h2
}

/// The changed list after one notification's bookkeeping: the path is
/// appended exactly when the fresh fingerprint differs from the previous one.
pub open spec fn changed_after(changed: Seq<String>, previous: Seq<u8>, file: WatchedFile) -> Seq<
    String,
> {
    if file.fingerprint@ == previous {
        changed
    } else {
        changed.push(file.path)
    }
}

/// The single-owner mapping from armed watch handles to watched files.
pub struct Registry {
    map: HashMap<i32, WatchedFile>,
}

impl View for Registry {
    type V = Map<i32, WatchedFile>;

    closed spec fn view(&self) -> Map<i32, WatchedFile> {
        self.map@
    }
}

impl Registry {
    /// An empty registry: nothing is observed yet.
    pub fn new() -> (r: Registry)
        ensures
            r@ == Map::<i32, WatchedFile>::empty(),
    {
        Registry { map: HashMap::new() }
    }

    /// How many watches are currently armed.
    pub fn len(&self) -> (n: usize)
        ensures
            n == self@.len(),
    {
        self.map.len()
    }

    /// Puts `file` under `handle`: the startup registration, with the handle
    /// the notification facility assigned when the path was armed.
    pub fn register(&mut self, handle: i32, file: WatchedFile)
        ensures
            final(self)@ == old(self)@.insert(handle, file),
    {
        self.map.insert(handle, file);
    }

    /// Resolves a notification to the file it concerns, removing the fired
    /// handle from the table. An unknown handle is an internal consistency
    /// violation and is reported as such; the registry is then unchanged.
    pub fn resolve(&mut self, handle: i32) -> (r: Result<WatchedFile, WatcherError>)
        ensures
            old(self)@.contains_key(handle) ==> (r matches Ok(f) && f == old(self)@[handle]
                && final(self)@ == old(self)@.remove(handle)),
            !old(self)@.contains_key(handle) ==> ((r matches Err(e)
                && e matches WatcherError::Consistency { handle: h } && h == handle) && final(self)@
                == old(self)@),
    {
        match self.map.remove(&handle) {
            Some(f) => Ok(f),
            None => {
                proof {
                    assert(old(self)@.remove(handle) =~= old(self)@);
                }
                Err(WatcherError::Consistency { handle })
            },
        }
    }

    /// One notification's bookkeeping after the path was re-armed under
    /// `new_handle`: compares the fresh fingerprint in `file` against the
    /// `previous` one, appends the path to `changed` exactly when the content
    /// really changed, and re-inserts the fresh record — whether or not the
    /// content changed — so the path stays under observation.
    pub fn reinstate(
        &mut self,
        previous: &[u8; 32],
        file: WatchedFile,
        new_handle: i32,
        changed: &mut Vec<String>,
    )
        ensures
            final(self)@ == old(self)@.insert(new_handle, file),
            final(changed)@ == changed_after(old(changed)@, previous@, file),
            old(changed)@.is_prefix_of(final(changed)@),
    {
        if !digest_eq(previous, &file.fingerprint) {
            changed.push(file.path.clone());
        }
        self.map.insert(new_handle, file);
    }
}

} // verus!
