//! The resource resolver: the in-memory main source, and a cache of
//! resolved files keyed by a stable numeric identity.
//!
//! The environment that actually reads files is outside this crate. It
//! asks the resolver first, performs the one physical read on a miss, and
//! stores the bytes back; the resolver owns everything decidable from the
//! stored values: the main-source bypass, the cache lookup, and the lazy
//! decoding of bytes as text (leading byte-order marks stripped, UTF-8
//! validated, result memoized per entry).
//!
//! A current-date query is deliberately unsupported: the resolver answers
//! it with nothing rather than fabricate a value.

use std::collections::HashMap;
use vstd::prelude::*;
use vstd::utf8::{decode_utf8, valid_utf8};

verus! {

broadcast use vstd::std_specs::hash::group_hash_axioms;

/// Failure to resolve a resource to the form a caller asked for.
#[derive(Clone, Copy, PartialEq, Eq, Structural, Debug)]
pub enum ResolveError {
    /// No bytes are stored under the identity.
    Missing,
    /// The stored bytes are not valid UTF-8 once leading byte-order
    /// marks are stripped.
    InvalidUtf8,
}

/// `bytes` with every leading byte-order mark removed.
pub open spec fn strip_bom(bytes: Seq<u8>) -> Seq<u8>
    decreases bytes.len(),
{
    if bytes.len() >= 3 && bytes[0] == 0xef && bytes[1] == 0xbb && bytes[2] == 0xbf {
        strip_bom(bytes.subrange(3, bytes.len() as int))
    } else {
        bytes
    }
}

/// Copy of `bytes` with every leading byte-order mark removed.
fn stripped_copy(bytes: &Vec<u8>) -> (r: Vec<u8>)
    ensures
        r@ == strip_bom(bytes@),
{
    let n = bytes.len();
    let mut k: usize = 0;
    proof {
        assert(bytes@.subrange(0, n as int) =~= bytes@);
    }
    while k < n && n - k >= 3 && bytes[k] == 0xef && bytes[k + 1] == 0xbb && bytes[k + 2] == 0xbf
        invariant
            0 <= k <= n,
            n == bytes@.len(),
            strip_bom(bytes@) == strip_bom(bytes@.subrange(k as int, n as int)),
        decreases n - k,
    {
        proof {
            let tail = bytes@.subrange(k as int, n as int);
            assert(tail[0] == bytes@[k as int]);
            assert(tail[1] == bytes@[k as int + 1]);
            assert(tail[2] == bytes@[k as int + 2]);
            assert(tail.subrange(3, tail.len() as int) =~= bytes@.subrange(
                k as int + 3,
                n as int,
            ));
        }
        k = k + 3;
    }
    proof {
        let tail = bytes@.subrange(k as int, n as int);
        assert(strip_bom(tail) == tail);
    }
    let mut out: Vec<u8> = Vec::new();
    let mut i: usize = k;
    while i < n
        invariant
            k <= i <= n,
            n == bytes@.len(),
            out@ =~= bytes@.subrange(k as int, i as int),
        decreases n - i,
    {
        out.push(bytes[i]);
        proof {
            assert(out@ =~= bytes@.subrange(k as int, i as int + 1));
        }
        i = i + 1;
    }
    proof {
        assert(out@ =~= bytes@.subrange(k as int, n as int));
    }
    out
}

/// Relies on `String::from_utf8`: it succeeds exactly on valid UTF-8
/// input, and then returns the string those bytes encode. Stated over
/// vstd's own UTF-8 specification.
#[verifier::external_body]
fn string_from_utf8(bytes: Vec<u8>) -> (r: Option<String>)
    ensures
        r is Some <==> valid_utf8(bytes@),
        r matches Some(s) ==> s@ == decode_utf8(bytes@),
{
    String::from_utf8(bytes).ok()
}

/// One resolved resource: its raw bytes, and its decoded text once some
/// caller has asked for it as text.
pub struct FileEntry {
    bytes: Vec<u8>,
    source: Option<String>,
}

impl FileEntry {
    /// The stored bytes.
    pub closed spec fn spec_bytes(self) -> Seq<u8> {
        self.bytes@
    }

    /// Whether the decoded text has been materialized.
    pub closed spec fn spec_decoded(self) -> bool {
        self.source is Some
    }

    /// A memoized decode, when present, is the decode of the stored
    /// bytes.
    pub closed spec fn wf(self) -> bool {
        self.source matches Some(s) ==> valid_utf8(strip_bom(self.bytes@)) && s@ == decode_utf8(
            strip_bom(self.bytes@),
        )
    }

    /// A fresh entry: bytes stored, nothing decoded yet.
    pub fn new(bytes: Vec<u8>) -> (r: FileEntry)
        ensures
            r.spec_bytes() == bytes@,
            !r.spec_decoded(),
            r.wf(),
    {
        FileEntry { bytes, source: None }
    }

    /// The stored bytes.
    pub fn bytes(&self) -> (r: &Vec<u8>)
        ensures
            r@ == self.spec_bytes(),
    {
        &self.bytes
    }

    /// The entry as text: leading byte-order marks stripped, decoded as
    /// UTF-8, memoized on first success. Fails exactly when the stripped
    /// bytes are not valid UTF-8.
    pub fn source(&mut self) -> (r: Result<String, ResolveError>)
        requires
            old(self).wf(),
        ensures
            final(self).wf(),
            final(self).spec_bytes() == old(self).spec_bytes(),
            valid_utf8(strip_bom(old(self).spec_bytes())) ==> (r matches Ok(s) && s@
                == decode_utf8(strip_bom(old(self).spec_bytes())) && final(self).spec_decoded()),
            !valid_utf8(strip_bom(old(self).spec_bytes())) ==> (r matches Err(e) && e
                == ResolveError::InvalidUtf8 && !final(self).spec_decoded()),
    {
        if let Some(s) = &self.source {
            return Ok(s.clone());
        }
        let stripped = stripped_copy(&self.bytes);
        match string_from_utf8(stripped) {
            Some(s) => {
                let out = s.clone();
                self.source = Some(s);
                Ok(out)
            },
            None => Err(ResolveError::InvalidUtf8),
        }
    }
}

/// The per-compilation resource resolver: the main source held in
/// memory, and a cache of file entries keyed by stable identity. It is
/// owned by one compile session and passed by reference, never shared
/// process-wide.
pub struct Resolver {
    main_id: u64,
    main_text: String,
    files: HashMap<u64, FileEntry>,
}

impl Resolver {
    /// The identity of the main source.
    pub closed spec fn spec_main_id(self) -> u64 {
        self.main_id
    }

    /// The main source text.
    pub closed spec fn spec_main_text(self) -> Seq<char> {
        self.main_text@
    }

    /// The cache contents.
    pub closed spec fn spec_files(self) -> Map<u64, FileEntry> {
        self.files@
    }

    /// Every cached entry is internally consistent.
    pub closed spec fn wf(self) -> bool {
        forall|id: u64|
            self.files@.contains_key(id) ==> (#[trigger] self.files@[id]).wf()
    }

    /// A fresh resolver: the main source in memory, an empty cache.
    pub fn new(main_id: u64, main_text: String) -> (r: Resolver)
        ensures
            r.spec_main_id() == main_id,
            r.spec_main_text() == main_text@,
            r.spec_files() == Map::<u64, FileEntry>::empty(),
            r.wf(),
    {
        let files: HashMap<u64, FileEntry> = HashMap::new();
        Resolver { main_id, main_text, files }
    }

    /// The main source, bypassing the cache.
    pub fn main_source(&self) -> (r: &String)
        ensures
            r@ == self.spec_main_text(),
    {
        &self.main_text
    }

    /// The identity the main source answers to.
    pub fn main_id(&self) -> (r: u64)
        ensures
            r == self.spec_main_id(),
    {
        self.main_id
    }

    /// Whether bytes are cached under `id`.
    pub fn contains(&self, id: u64) -> (r: bool)
        ensures
            r == self.spec_files().contains_key(id),
    {
        self.files.contains_key(&id)
    }

    /// Store the bytes read for `id`. Other entries and the main source
    /// are untouched.
    pub fn store(&mut self, id: u64, bytes: Vec<u8>)
        requires
            old(self).wf(),
        ensures
            final(self).wf(),
            final(self).spec_main_id() == old(self).spec_main_id(),
            final(self).spec_main_text() == old(self).spec_main_text(),
            final(self).spec_files().contains_key(id),
            final(self).spec_files()[id].spec_bytes() == bytes@,
            !final(self).spec_files()[id].spec_decoded(),
            forall|k: u64|
                k != id ==> old(self).spec_files().contains_key(k) == final(self).spec_files().contains_key(k),
            forall|k: u64|
                k != id && old(self).spec_files().contains_key(k) ==> old(self).spec_files()[k]
                    == #[trigger] final(self).spec_files()[k],
    {
        let entry = FileEntry::new(bytes);
        self.files.insert(id, entry);
    }

    /// The cached bytes for `id`, if any.
    pub fn file_bytes(&self, id: u64) -> (r: Option<&Vec<u8>>)
        ensures
            match r {
                Some(v) => self.spec_files().contains_key(id) && v@
                    == self.spec_files()[id].spec_bytes(),
                None => !self.spec_files().contains_key(id),
            },
    {
        match self.files.get(&id) {
            Some(entry) => Some(entry.bytes()),
            None => None,
        }
    }

    /// The resource under `id` as text. The main source is answered from
    /// memory; any other identity from the cache, decoding its bytes on
    /// first use and memoizing the result. Succeeds exactly for the main
    /// source and for cached entries whose stripped bytes are valid
    /// UTF-8.
    pub fn source_of(&mut self, id: u64) -> (r: Result<String, ResolveError>)
        requires
            old(self).wf(),
        ensures
            final(self).wf(),
            final(self).spec_main_id() == old(self).spec_main_id(),
            final(self).spec_main_text() == old(self).spec_main_text(),
            forall|k: u64|
                old(self).spec_files().contains_key(k) == final(self).spec_files().contains_key(k),
            forall|k: u64|
                old(self).spec_files().contains_key(k) ==> (#[trigger] final(self).spec_files()[k]).spec_bytes() == old(self).spec_files()[k].spec_bytes(),
            id == old(self).spec_main_id() ==> (r matches Ok(s) && s@ == old(self).spec_main_text()),
            id != old(self).spec_main_id() && !old(self).spec_files().contains_key(id)
                ==> (r matches Err(e) && e == ResolveError::Missing),
            id != old(self).spec_main_id() && old(self).spec_files().contains_key(id)
                && valid_utf8(strip_bom(old(self).spec_files()[id].spec_bytes())) ==> (r matches
            Ok(s) && s@ == decode_utf8(strip_bom(old(self).spec_files()[id].spec_bytes()))),
            id != old(self).spec_main_id() && old(self).spec_files().contains_key(id)
                && !valid_utf8(strip_bom(old(self).spec_files()[id].spec_bytes())) ==> (r matches
            Err(e) && e == ResolveError::InvalidUtf8),
    {
        if id == self.main_id {
            return Ok(self.main_text.clone());
        }
        let entry = self.files.remove(&id);
        match entry {
            None => Err(ResolveError::Missing),
            Some(mut e) => {
                let out = e.source();
                self.files.insert(id, e);
                out
            },
        }
    }

    /// A current-date query: deliberately unsupported by this
    /// environment. The answer is always nothing; a caller needing a
    /// date must fail rather than receive a fabricated one.
    pub fn today(&self) -> (r: Option<i64>)
        ensures
            r is None,
    {
        None
    }
}

} // verus!
