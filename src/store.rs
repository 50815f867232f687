//! The registered roots and, for each, the result of its latest scan.
//! A scan replaces the stored result of its root as a whole.
use vstd::prelude::*;

use crate::chars::{chars_of, copy_text, same_chars, string_of};
use crate::model::{extend_services, services_view, ParsedService, ServiceSpec};
use crate::scan::{
    assemble_scan, contents_view, scan_spec, strings_view, ScanResult, ScanSpec,
};

verus! {

/// Why an operation on a root could not be done.
#[derive(Debug, Clone, Copy, PartialEq, Eq, Structural)]
pub enum ScanError {
    /// No root is registered under the given id.
    RootNotFound,
}

/// A registered root: its id, its directory, and its latest scan, if any.
pub struct RootEntry {
    pub id: String,
    pub path: String,
    pub result: Option<ScanResult>,
}

/// The view of a [`RootEntry`] under its id.
pub struct EntrySpec {
    pub path: Seq<char>,
    pub result: Option<ScanSpec>,
}

/// The view of an entry.
pub open spec fn entry_view(e: RootEntry) -> EntrySpec {
    EntrySpec {
        path: e.path@,
        result: match e.result {
            Some(r) => Some(r@),
            None => None,
        },
    }
}

/// The roots that a sequence of entries holds; a later entry for an id
/// stands over an earlier one.
pub open spec fn roots_map(s: Seq<RootEntry>) -> Map<Seq<char>, EntrySpec>
    decreases s.len(),
{
    if s.len() == 0 {
        Map::empty()
    } else {
        roots_map(s.drop_last()).insert(s.last().id@, entry_view(s.last()))
    }
}

/// The roots after a scan of the registered root `id` over the given files
/// and contents: its result is replaced, all else stays.
pub open spec fn after_scan(
    m: Map<Seq<char>, EntrySpec>,
    id: Seq<char>,
    files: Seq<Seq<char>>,
    contents: Seq<Option<Seq<char>>>,
) -> Map<Seq<char>, EntrySpec> {
    m.insert(id, EntrySpec { path: m[id].path, result: Some(scan_spec(m[id].path, files, contents)) })
}

/// Registered roots, keyed by id, with their latest scan results.
pub struct ScanStore {
    entries: Vec<RootEntry>,
}

impl View for ScanStore {
    type V = Map<Seq<char>, EntrySpec>;

    closed spec fn view(&self) -> Map<Seq<char>, EntrySpec> {
        roots_map(self.entries@)
    }
}

/// Entries after index `k` that do not hold `id` leave its lookup to the
/// entries before `k`.
proof fn lemma_lookup_prefix(s: Seq<RootEntry>, k: int, id: Seq<char>)
    requires
        0 <= k <= s.len(),
        forall|t: int| k <= t < s.len() ==> (#[trigger] s[t]).id@ != id,
    ensures
        roots_map(s).contains_key(id) == roots_map(s.take(k)).contains_key(id),
        roots_map(s).contains_key(id) ==> roots_map(s)[id] == roots_map(s.take(k))[id],
    decreases s.len(),
{
    if s.len() == k {
        assert(s.take(k) =~= s);
    } else {
        let d = s.drop_last();
        assert(s[s.len() - 1].id@ != id);
        lemma_lookup_prefix(d, k, id);
        assert(d.take(k) =~= s.take(k));
    }
}

/// The ids that a sequence of entries holds are the keys of its roots.
proof fn lemma_keys(s: Seq<RootEntry>)
    ensures
        forall|id: Seq<char>|
            roots_map(s).contains_key(id) <==> exists|t: int| 0 <= t < s.len() && (#[trigger] s[t]).id@ == id,
    decreases s.len(),
{
    if s.len() > 0 {
        let d = s.drop_last();
        lemma_keys(d);
        assert(roots_map(s) == roots_map(d).insert(s.last().id@, entry_view(s.last())));
        assert forall|id: Seq<char>|
            roots_map(s).contains_key(id) <==> exists|t: int| 0 <= t < s.len() && (#[trigger] s[t]).id@ == id by {
            if id == s.last().id@ {
                assert(s[s.len() - 1].id@ == id);
            }
            if roots_map(s).contains_key(id) && id != s.last().id@ {
                assert(roots_map(d).contains_key(id));
                let t = choose|t: int| 0 <= t < d.len() && (#[trigger] d[t]).id@ == id;
                assert(s[t] == d[t]);
            }
            if exists|t: int| 0 <= t < s.len() && (#[trigger] s[t]).id@ == id {
                let t = choose|t: int| 0 <= t < s.len() && (#[trigger] s[t]).id@ == id;
                if t < s.len() - 1 {
                    assert(d[t] == s[t]);
                }
            }
        }
    }
}

/// The services of a stored result, none where the root was never scanned.
pub open spec fn stored_services(e: EntrySpec) -> Seq<ServiceSpec> {
    match e.result {
        Some(r) => r.services,
        None => seq![],
    }
}

/// The files of a stored result, none where the root was never scanned.
pub open spec fn stored_files(e: EntrySpec) -> Seq<Seq<char>> {
    match e.result {
        Some(r) => r.files,
        None => seq![],
    }
}

impl ScanStore {
    /// A store with no roots.
    pub fn new() -> (r: ScanStore)
        ensures
            r@ == Map::<Seq<char>, EntrySpec>::empty(),
    {
        ScanStore { entries: Vec::new() }
    }

    /// Where the entry for `id` stands, if there is one.
    fn position(&self, id: &Vec<char>) -> (r: Option<usize>)
        ensures
            match r {
                Some(i) => i < self.entries@.len() && self@.contains_key(id@) && self@[id@]
                    == entry_view(self.entries@[i as int]) && self.entries@[i as int].id@
                    == id@,
                None => !self@.contains_key(id@),
            },
    {
        let mut k: usize = self.entries.len();
        while k > 0
            invariant
                k <= self.entries@.len(),
                forall|t: int| k <= t < self.entries@.len() ==> (#[trigger] self.entries@[t]).id@
                    != id@,
            decreases k,
        {
            let here = chars_of(self.entries[k - 1].id.as_str());
            if same_chars(&here, id) {
                proof {
                    lemma_lookup_prefix(self.entries@, k as int, id@);
                    assert(self.entries@.take(k as int).drop_last() =~= self.entries@.take(
                        k - 1,
                    ));
                }
                return Some(k - 1);
            }
            k = k - 1;
        }
        proof {
            lemma_lookup_prefix(self.entries@, 0, id@);
        }
        None
    }

    /// The entries other than those for `id`, in their order.
    fn take_without(&mut self, id: &Vec<char>) -> (r: Vec<RootEntry>)
        ensures
            roots_map(r@) == old(self)@.remove(id@),
    {
        let mut rest: Vec<RootEntry> = Vec::new();
        let mut src: Vec<RootEntry> = Vec::new();
        std::mem::swap(&mut src, &mut self.entries);
        let ghost orig = src@;
        let ghost n = src@.len();
        let ghost mut k: int = 0;
        while src.len() > 0
            invariant
                orig == old(self).entries@,
                n == orig.len(),
                0 <= k,
                k + src@.len() == n,
                src@ == orig.skip(k),
                roots_map(rest@) == roots_map(orig.take(k)).remove(id@),
            decreases src@.len(),
        {
            let e = src.remove(0);
            assert(e == orig[k]);
            assert(orig.take(k + 1).drop_last() =~= orig.take(k));
            assert(src@ =~= orig.skip(k + 1));
            let here = chars_of(e.id.as_str());
            if !same_chars(&here, id) {
                let ghost prev = rest@;
                rest.push(e);
                assert(rest@.drop_last() =~= prev);
                assert(roots_map(rest@) =~= roots_map(orig.take(k + 1)).remove(id@));
            } else {
                assert(roots_map(rest@) =~= roots_map(orig.take(k + 1)).remove(id@));
            }
            proof {
                k = k + 1;
            }
        }
        assert(orig.take(k) =~= orig);
        rest
    }

    /// Registers `id` as the root at `path`, with no scan yet; a root already
    /// registered under `id` is replaced.
    pub fn register_root(&mut self, id: &str, path: &str)
        ensures
            final(self)@ == old(self)@.insert(id@, EntrySpec { path: path@, result: None }),
    {
        let key = chars_of(id);
        let mut rest = self.take_without(&key);
        let e = RootEntry { id: string_of(chars_of(id)), path: string_of(chars_of(path)), result: None };
        let ghost prev = rest@;
        rest.push(e);
        assert(rest@.drop_last() =~= prev);
        self.entries = rest;
        assert(self@ =~= old(self)@.insert(id@, EntrySpec { path: path@, result: None }));
    }

    /// Forgets the root `id` and its scan result.
    pub fn remove_root(&mut self, id: &str)
        ensures
            final(self)@ == old(self)@.remove(id@),
    {
        let key = chars_of(id);
        self.entries = self.take_without(&key);
    }

    /// The directory of the root `id`.
    pub fn root_path(&self, id: &str) -> (r: Result<String, ScanError>)
        ensures
            match r {
                Ok(p) => self@.contains_key(id@) && p@ == self@[id@].path,
                Err(e) => !self@.contains_key(id@) && e == ScanError::RootNotFound,
            },
    {
        let key = chars_of(id);
        match self.position(&key) {
            Some(i) => Ok(copy_text(&self.entries[i].path)),
            None => Err(ScanError::RootNotFound),
        }
    }

    /// Scans the root `id` from the absolute paths of its definition files
    /// and their contents (`None` for a file that could not be read), and
    /// stores the result in place of the previous one.
    pub fn publish_scan(&mut self, id: &str, files_abs: &Vec<String>, contents: &Vec<Option<String>>) -> (r: Result<(), ScanError>)
        requires
            files_abs@.len() == contents@.len(),
        ensures
            match r {
                Ok(()) => old(self)@.contains_key(id@) && final(self)@ == after_scan(
                    old(self)@,
                    id@,
                    strings_view(files_abs@),
                    contents_view(contents@),
                ),
                Err(e) => !old(self)@.contains_key(id@) && final(self)@ == old(self)@ && e
                    == ScanError::RootNotFound,
            },
    {
        let key = chars_of(id);
        let path = match self.position(&key) {
            Some(i) => copy_text(&self.entries[i].path),
            None => return Err(ScanError::RootNotFound),
        };
        let result = assemble_scan(path.as_str(), files_abs, contents);
        let ghost spec_entry = EntrySpec { path: path@, result: Some(result@) };
        let mut rest = self.take_without(&key);
        let e = RootEntry { id: string_of(chars_of(id)), path, result: Some(result) };
        let ghost prev = rest@;
        rest.push(e);
        assert(rest@.drop_last() =~= prev);
        self.entries = rest;
        assert(self@ =~= old(self)@.insert(id@, spec_entry));
        Ok(())
    }

    /// The files that the latest scan of `id` found, relative to its root;
    /// none where `id` is not registered or was never scanned.
    pub fn files(&self, id: &str) -> (r: Vec<String>)
        ensures
            strings_view(r@) == (if self@.contains_key(id@) {
                stored_files(self@[id@])
            } else {
                seq![]
            }),
    {
        let key = chars_of(id);
        let mut out: Vec<String> = Vec::new();
        match self.position(&key) {
            Some(i) => match &self.entries[i].result {
                Some(res) => {
                    let mut k: usize = 0;
                    while k < res.files.len()
                        invariant
                            k <= res.files@.len(),
                            strings_view(out@) == strings_view(res.files@.take(k as int)),
                        decreases res.files@.len() - k,
                    {
                        let ghost prev = strings_view(out@);
                        out.push(copy_text(&res.files[k]));
                        assert(strings_view(out@) =~= prev.push(res.files@[k as int]@));
                        assert(strings_view(res.files@.take(k + 1)) =~= strings_view(
                            res.files@.take(k as int),
                        ).push(res.files@[k as int]@));
                        k = k + 1;
                    }
                    assert(res.files@.take(k as int) =~= res.files@);
                },
                None => {},
            },
            None => {},
        }
        out
    }

    /// The services that the latest scan of `id` found; none where `id` is
    /// not registered or was never scanned.
    pub fn services(&self, id: &str) -> (r: Vec<ParsedService>)
        ensures
            services_view(r@) == (if self@.contains_key(id@) {
                stored_services(self@[id@])
            } else {
                seq![]
            }),
    {
        let key = chars_of(id);
        let mut out: Vec<ParsedService> = Vec::new();
        match self.position(&key) {
            Some(i) => match &self.entries[i].result {
                Some(res) => {
                    extend_services(&mut out, &res.services);
                    assert(services_view(out@) =~= services_view(res.services@));
                },
                None => {},
            },
            None => {},
        }
        out
    }

    /// The ids of the registered roots.
    pub fn root_ids(&self) -> (r: Vec<String>)
        ensures
            forall|id: Seq<char>| self@.contains_key(id) <==> strings_view(r@).contains(id),
    {
        let mut out: Vec<String> = Vec::new();
        let mut k: usize = 0;
        while k < self.entries.len()
            invariant
                k <= self.entries@.len(),
                out@.len() == k,
                forall|t: int| 0 <= t < k ==> (#[trigger] out@[t])@ == self.entries@[t].id@,
            decreases self.entries@.len() - k,
        {
            out.push(copy_text(&self.entries[k].id));
            k = k + 1;
        }
        proof {
            lemma_keys(self.entries@);
            assert forall|id: Seq<char>| self@.contains_key(id) <==> strings_view(out@).contains(id) by {
                if self@.contains_key(id) {
                    let t = choose|t: int| 0 <= t < self.entries@.len() && (#[trigger] self.entries@[t]).id@ == id;
                    assert(strings_view(out@)[t] == id);
                }
                if strings_view(out@).contains(id) {
                    let t = choose|t: int| 0 <= t < strings_view(out@).len() && strings_view(out@)[t] == id;
                    assert(out@[t]@ == id);
                    assert(self.entries@[t].id@ == id);
                }
            }
        }
        out
    }
}

} // verus!
