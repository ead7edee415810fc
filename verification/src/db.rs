//! The package database: every package installed through ark, by name.

use vstd::prelude::*;
use vstd::string::StringExecFns;

use crate::clock::Timestamp;
use crate::error::{ArkError, ErrorKind};
use crate::source::PackageSource;
use crate::text::{contains_seq, lowercase, str_contains, str_eq, to_lowercase, vec_contains_str};

verus! {

/// An entry in the unified package database.
#[derive(Debug, Clone)]
pub struct PackageDbEntry {
    pub name: String,
    pub version: String,
    pub source: PackageSource,
    pub installed_at: Timestamp,
    pub installed_by: String,
    pub size_bytes: u64,
    pub checksum: String,
    /// List of files installed by this package (absolute paths).
    pub files: Vec<String>,
    /// Runtime dependencies.
    pub dependencies: Vec<String>,
    /// Transaction that installed this package.
    pub transaction_id: Option<String>,
}

#[verifier::ext_equal]
pub struct EntryView {
    pub name: Seq<char>,
    pub version: Seq<char>,
    pub source: PackageSource,
    pub installed_at: Timestamp,
    pub installed_by: Seq<char>,
    pub size_bytes: u64,
    pub checksum: Seq<char>,
    pub files: Seq<Seq<char>>,
    pub dependencies: Seq<Seq<char>>,
    pub transaction_id: Option<Seq<char>>,
}

impl View for PackageDbEntry {
    type V = EntryView;

    open spec fn view(&self) -> EntryView {
        EntryView {
            name: self.name@,
            version: self.version@,
            source: self.source,
            installed_at: self.installed_at,
            installed_by: self.installed_by@,
            size_bytes: self.size_bytes,
            checksum: self.checksum@,
            files: self.files.deep_view(),
            dependencies: self.dependencies.deep_view(),
            transaction_id: self.transaction_id.deep_view(),
        }
    }
}

/// Types of integrity issues.
#[derive(Debug, Clone, PartialEq, Eq)]
pub enum IntegrityIssueType {
    /// Package has no file manifest — cannot verify or clean-remove.
    NoFileManifest,
    /// A file listed in the manifest is missing from disk.
    MissingFile(String),
    /// A file's checksum doesn't match the manifest.
    ChecksumMismatch(String),
}

/// An integrity issue found during package database validation.
#[derive(Debug, Clone)]
pub struct IntegrityIssue {
    pub package: String,
    pub issue_type: IntegrityIssueType,
}

/// The unified package database. Tracks every package installed via ark,
/// regardless of source; one entry per name.
pub struct PackageDb {
    packages: Vec<PackageDbEntry>,
}

pub open spec fn entries_view(v: Seq<PackageDbEntry>) -> Seq<EntryView> {
    Seq::new(v.len(), |i: int| v[i]@)
}

impl View for PackageDb {
    type V = Seq<EntryView>;

    /// The entries, in the order their names were first registered.
    closed spec fn view(&self) -> Seq<EntryView> {
        entries_view(self.packages@)
    }
}

/// No two entries share a name.
pub open spec fn db_wf(s: Seq<EntryView>) -> bool {
    forall|i: int, j: int| 0 <= i < j < s.len() ==> #[trigger] s[i].name != #[trigger] s[j].name
}

/// Index of the first entry at or after `i` named `name`.
pub open spec fn find_entry_from(s: Seq<EntryView>, name: Seq<char>, i: int) -> Option<int>
    decreases s.len() - i,
{
    if i < 0 || i >= s.len() {
        None
    } else if s[i].name == name {
        Some(i)
    } else {
        find_entry_from(s, name, i + 1)
    }
}

/// Index of the entry named `name`, if there is one.
pub open spec fn find_entry(s: Seq<EntryView>, name: Seq<char>) -> Option<int> {
    find_entry_from(s, name, 0)
}

/// The database as a map from names to entries.
pub open spec fn db_map(s: Seq<EntryView>) -> Map<Seq<char>, EntryView> {
    Map::new(|k: Seq<char>| find_entry(s, k) is Some, |k: Seq<char>| s[find_entry(s, k)->0])
}

/// `register`: the entry replaces the one of its name, or is appended.
pub open spec fn register_spec(s: Seq<EntryView>, e: EntryView) -> Seq<EntryView> {
    match find_entry(s, e.name) {
        Some(i) => s.update(i, e),
        None => s.push(e),
    }
}

/// `unregister`: the entry of that name is taken out, and handed back.
pub open spec fn unregister_spec(s: Seq<EntryView>, name: Seq<char>) -> (Seq<EntryView>, Option<EntryView>) {
    match find_entry(s, name) {
        Some(i) => (s.remove(i), Some(s[i])),
        None => (s, None),
    }
}

pub proof fn lemma_find_entry_from(s: Seq<EntryView>, name: Seq<char>, i: int)
    requires
        0 <= i,
    ensures
        match find_entry_from(s, name, i) {
            Some(k) => i <= k < s.len() && s[k].name == name && forall|j: int|
                i <= j < k ==> s[j].name != name,
            None => forall|j: int| i <= j < s.len() ==> s[j].name != name,
        },
    decreases s.len() - i,
{
    if i < s.len() && s[i].name != name {
        lemma_find_entry_from(s, name, i + 1);
    }
}

/// In a database with distinct names, each entry is found under its name.
pub proof fn lemma_find_entry_unique(s: Seq<EntryView>, k: int)
    requires
        0 <= k < s.len(),
        db_wf(s),
    ensures
        find_entry(s, s[k].name) == Some(k),
{
    lemma_find_entry_from(s, s[k].name, 0);
    match find_entry(s, s[k].name) {
        Some(j) => {
            if j < k {
                assert(s[j].name != s[k].name);
            }
        },
        None => {},
    }
}

/// The entries that `keep` lets through, in order.
pub open spec fn filter_entries(s: Seq<EntryView>, keep: spec_fn(EntryView) -> bool) -> Seq<EntryView>
    decreases s.len(),
{
    if s.len() == 0 {
        Seq::empty()
    } else if keep(s.last()) {
        filter_entries(s.drop_last(), keep).push(s.last())
    } else {
        filter_entries(s.drop_last(), keep)
    }
}

/// The total of the sizes.
pub open spec fn total_size_of(s: Seq<EntryView>) -> nat
    decreases s.len(),
{
    if s.len() == 0 {
        0
    } else {
        total_size_of(s.drop_last()) + s.last().size_bytes as nat
    }
}

/// Whether an entry's name, lowercased, holds the lowercased query.
pub open spec fn name_matches(e: EntryView, query: Seq<char>) -> bool {
    contains_seq(lowercase(e.name), lowercase(query))
}

/// Index of the first entry at or after `i` that lists `path` among its files.
pub open spec fn owner_from(s: Seq<EntryView>, path: Seq<char>, i: int) -> Option<int>
    decreases s.len() - i,
{
    if i < 0 || i >= s.len() {
        None
    } else if s[i].files.contains(path) {
        Some(i)
    } else {
        owner_from(s, path, i + 1)
    }
}

impl PackageDb {
    /// An empty database.
    pub fn new() -> (r: PackageDb)
        ensures
            r@ == Seq::<EntryView>::empty(),
            db_wf(r@),
    {
        let r = PackageDb { packages: Vec::new() };
        assert(r@ =~= Seq::<EntryView>::empty());
        r
    }

    fn find_index(&self, name: &str) -> (r: Option<usize>)
        ensures
            match r {
                Some(i) => find_entry(self@, name@) == Some(i as int) && i < self.packages@.len(),
                None => find_entry(self@, name@) is None,
            },
            self@.len() == self.packages@.len(),
    {
        let ghost s = self@;
        let mut k: usize = 0;
        while k < self.packages.len()
            invariant
                s == self@,
                s.len() == self.packages@.len(),
                k <= self.packages.len(),
                find_entry(s, name@) == find_entry_from(s, name@, k as int),
            decreases self.packages.len() - k,
        {
            assert(s[k as int] == self.packages@[k as int]@);
            if str_eq(self.packages[k].name.as_str(), name) {
                return Some(k);
            }
            k = k + 1;
        }
        None
    }

    /// Register a newly installed package (replacing any entry of its name).
    pub fn register(&mut self, entry: PackageDbEntry)
        requires
            db_wf(old(self)@),
        ensures
            db_wf(final(self)@),
            final(self)@ == register_spec(old(self)@, entry@),
    {
        let ghost before = self@;
        let ghost ev = entry@;
        proof {
            lemma_find_entry_from(before, ev.name, 0);
        }
        match self.find_index(entry.name.as_str()) {
            Some(i) => {
                self.packages.set(i, entry);
            },
            None => {
                self.packages.push(entry);
            },
        }
        assert(self@ =~= register_spec(before, ev));
        proof {
            let s = self@;
            assert forall|a: int, b: int| 0 <= a < b < s.len() implies #[trigger] s[a].name
                != #[trigger] s[b].name by {
                if s[a].name == ev.name || s[b].name == ev.name {
                } else if b < before.len() {
                    assert(s[a] == before[a]);
                    assert(s[b] == before[b]);
                }
            }
        }
    }

    /// Remove a package from the database. Returns the entry if it existed.
    pub fn unregister(&mut self, name: &str) -> (r: Option<PackageDbEntry>)
        requires
            db_wf(old(self)@),
        ensures
            db_wf(final(self)@),
            unregister_spec(old(self)@, name@) == (
                final(self)@,
                match r {
                    Some(e) => Some(e@),
                    None => None,
                },
            ),
    {
        let ghost before = self@;
        match self.find_index(name) {
            Some(i) => {
                let e = self.packages.remove(i);
                assert(self@ =~= before.remove(i as int));
                proof {
                    let s = self@;
                    assert forall|a: int, b: int| 0 <= a < b < s.len() implies #[trigger] s[a].name
                        != #[trigger] s[b].name by {
                        let a0 = if a < i { a } else { a + 1 };
                        let b0 = if b < i { b } else { b + 1 };
                        assert(s[a] == before[a0]);
                        assert(s[b] == before[b0]);
                    }
                }
                Some(e)
            },
            None => None,
        }
    }

    /// Look up a package by name.
    pub fn get(&self, name: &str) -> (r: Option<&PackageDbEntry>)
        ensures
            match find_entry(self@, name@) {
                Some(i) => r matches Some(e) && e@ == self@[i],
                None => r is None,
            },
    {
        match self.find_index(name) {
            Some(i) => Some(&self.packages[i]),
            None => None,
        }
    }

    /// Check if a package is installed.
    pub fn is_installed(&self, name: &str) -> (r: bool)
        ensures
            r == (find_entry(self@, name@) is Some),
    {
        self.find_index(name).is_some()
    }

    /// List all installed packages.
    pub fn list(&self) -> (r: Vec<&PackageDbEntry>)
        ensures
            Seq::new(r@.len(), |i: int| r@[i]@) == self@,
    {
        let mut r: Vec<&PackageDbEntry> = Vec::new();
        let mut k: usize = 0;
        while k < self.packages.len()
            invariant
                k <= self.packages@.len(),
                self@.len() == self.packages@.len(),
                r@.len() == k,
                forall|j: int| 0 <= j < k ==> #[trigger] r@[j]@ == self@[j],
            decreases self.packages.len() - k,
        {
            r.push(&self.packages[k]);
            k = k + 1;
        }
        assert(Seq::new(r@.len(), |i: int| r@[i]@) =~= self@);
        r
    }

    /// The entries that `keep` lets through, as chosen by `choose` for each.
    fn select(&self, Ghost(keep): Ghost<spec_fn(EntryView) -> bool>, picks: Vec<bool>) -> (r: Vec<
        &PackageDbEntry,
    >)
        requires
            picks@.len() == self@.len(),
            forall|i: int| 0 <= i < picks@.len() ==> picks@[i] == keep(self@[i]),
        ensures
            Seq::new(r@.len(), |i: int| r@[i]@) == filter_entries(self@, keep),
    {
        let ghost s = self@;
        let mut r: Vec<&PackageDbEntry> = Vec::new();
        let mut k: usize = 0;
        while k < self.packages.len()
            invariant
                s == self@,
                k <= self.packages@.len(),
                s.len() == self.packages@.len(),
                picks@.len() == s.len(),
                forall|i: int| 0 <= i < picks@.len() ==> picks@[i] == keep(s[i]),
                Seq::new(r@.len(), |i: int| r@[i]@) == filter_entries(s.take(k as int), keep),
            decreases self.packages.len() - k,
        {
            assert(s.take(k + 1).drop_last() =~= s.take(k as int));
            let ghost before = Seq::new(r@.len(), |i: int| r@[i]@);
            if picks[k] {
                r.push(&self.packages[k]);
                assert(Seq::new(r@.len(), |i: int| r@[i]@) =~= before.push(s[k as int]));
            }
            k = k + 1;
        }
        assert(s.take(self.packages.len() as int) =~= s);
        r
    }

    /// List packages whose name, lowercased, holds the lowercased query.
    pub fn search(&self, query: &str) -> (r: Vec<&PackageDbEntry>)
        ensures
            Seq::new(r@.len(), |i: int| r@[i]@) == filter_entries(
                self@,
                |e: EntryView| name_matches(e, query@),
            ),
    {
        let q = to_lowercase(query);
        let mut picks: Vec<bool> = Vec::new();
        let mut k: usize = 0;
        while k < self.packages.len()
            invariant
                k <= self.packages@.len(),
                self@.len() == self.packages@.len(),
                q@ == lowercase(query@),
                picks@.len() == k,
                forall|i: int| 0 <= i < k ==> picks@[i] == name_matches(self@[i], query@),
            decreases self.packages.len() - k,
        {
            let lowered = to_lowercase(self.packages[k].name.as_str());
            picks.push(str_contains(lowered.as_str(), q.as_str()));
            k = k + 1;
        }
        self.select(Ghost(|e: EntryView| name_matches(e, query@)), picks)
    }

    /// List packages from a specific source.
    pub fn by_source(&self, source: &PackageSource) -> (r: Vec<&PackageDbEntry>)
        ensures
            Seq::new(r@.len(), |i: int| r@[i]@) == filter_entries(
                self@,
                |e: EntryView| e.source == *source,
            ),
    {
        let mut picks: Vec<bool> = Vec::new();
        let mut k: usize = 0;
        while k < self.packages.len()
            invariant
                k <= self.packages@.len(),
                self@.len() == self.packages@.len(),
                picks@.len() == k,
                forall|i: int| 0 <= i < k ==> picks@[i] == (self@[i].source == *source),
            decreases self.packages.len() - k,
        {
            picks.push(self.packages[k].source == *source);
            k = k + 1;
        }
        self.select(Ghost(|e: EntryView| e.source == *source), picks)
    }

    /// Total number of installed packages.
    pub fn count(&self) -> (r: usize)
        ensures
            r == self@.len(),
    {
        self.packages.len()
    }

    /// Total disk usage across all installed packages.
    pub fn total_size(&self) -> (r: u64)
        requires
            total_size_of(self@) <= u64::MAX,
        ensures
            r == total_size_of(self@),
    {
        let ghost s = self@;
        let mut total: u64 = 0;
        let mut k: usize = 0;
        while k < self.packages.len()
            invariant
                s == self@,
                k <= self.packages@.len(),
                s.len() == self.packages@.len(),
                total_size_of(s) <= u64::MAX,
                total == total_size_of(s.take(k as int)),
            decreases self.packages.len() - k,
        {
            assert(s.take(k + 1).drop_last() =~= s.take(k as int));
            proof {
                lemma_total_prefix(s, k + 1);
            }
            total = total + self.packages[k].size_bytes;
            k = k + 1;
        }
        assert(s.take(self.packages.len() as int) =~= s);
        total
    }

    /// Packages that have no file manifest, one issue each, in order.
    pub fn check_integrity(&self) -> (r: Vec<IntegrityIssue>)
        ensures
            r@.len() == filter_entries(self@, |e: EntryView| e.files.len() == 0).len(),
            forall|i: int|
                0 <= i < r@.len() ==> #[trigger] r@[i].package@ == filter_entries(
                    self@,
                    |e: EntryView| e.files.len() == 0,
                )[i].name && r@[i].issue_type == IntegrityIssueType::NoFileManifest,
    {
        let ghost s = self@;
        let ghost keep = |e: EntryView| e.files.len() == 0;
        let mut issues: Vec<IntegrityIssue> = Vec::new();
        let mut k: usize = 0;
        while k < self.packages.len()
            invariant
                s == self@,
                k <= self.packages@.len(),
                s.len() == self.packages@.len(),
                keep == (|e: EntryView| e.files.len() == 0),
                issues@.len() == filter_entries(s.take(k as int), keep).len(),
                forall|i: int|
                    0 <= i < issues@.len() ==> #[trigger] issues@[i].package@ == filter_entries(
                        s.take(k as int),
                        keep,
                    )[i].name && issues@[i].issue_type == IntegrityIssueType::NoFileManifest,
            decreases self.packages.len() - k,
        {
            assert(s.take(k + 1).drop_last() =~= s.take(k as int));
            let entry = &self.packages[k];
            if entry.files.len() == 0 {
                issues.push(
                    IntegrityIssue {
                        package: entry.name.clone(),
                        issue_type: IntegrityIssueType::NoFileManifest,
                    },
                );
            }
            k = k + 1;
        }
        assert(s.take(self.packages.len() as int) =~= s);
        issues
    }

    /// Get all files owned by a package (none for an unknown package).
    pub fn files_for(&self, name: &str) -> (r: Vec<&str>)
        ensures
            Seq::new(r@.len(), |i: int| r@[i]@) == match find_entry(self@, name@) {
                Some(i) => self@[i].files,
                None => Seq::empty(),
            },
    {
        let mut r: Vec<&str> = Vec::new();
        match self.find_index(name) {
            Some(i) => {
                let files = &self.packages[i].files;
                let mut k: usize = 0;
                while k < files.len()
                    invariant
                        k <= files@.len(),
                        r@.len() == k,
                        forall|j: int| 0 <= j < k ==> #[trigger] r@[j]@ == files@[j]@,
                    decreases files.len() - k,
                {
                    r.push(files[k].as_str());
                    k = k + 1;
                }
                assert(Seq::new(r@.len(), |j: int| r@[j]@) =~= self@[i as int].files);
            },
            None => {
                assert(Seq::new(r@.len(), |j: int| r@[j]@) =~= Seq::<Seq<char>>::empty());
            },
        }
        r
    }

    /// Find which package owns a given file path (the first entry listing it).
    pub fn owner_of(&self, file_path: &str) -> (r: Option<&str>)
        ensures
            match owner_from(self@, file_path@, 0) {
                Some(i) => r matches Some(n) && n@ == self@[i].name,
                None => r is None,
            },
    {
        let ghost s = self@;
        let mut k: usize = 0;
        while k < self.packages.len()
            invariant
                s == self@,
                k <= self.packages@.len(),
                s.len() == self.packages@.len(),
                owner_from(s, file_path@, 0) == owner_from(s, file_path@, k as int),
            decreases self.packages.len() - k,
        {
            let found = vec_contains_str(&self.packages[k].files, file_path);
            assert(s[k as int].files == self.packages@[k as int].files.deep_view());
            if found {
                return Some(self.packages[k].name.as_str());
            }
            k = k + 1;
        }
        None
    }
}

impl Default for PackageDb {
    fn default() -> (r: PackageDb)
        ensures
            r@ == Seq::<EntryView>::empty(),
            db_wf(r@),
    {
        PackageDb::new()
    }
}

proof fn lemma_total_prefix(s: Seq<EntryView>, k: int)
    requires
        0 <= k <= s.len(),
    ensures
        total_size_of(s.take(k)) <= total_size_of(s),
    decreases s.len() - k,
{
    if k < s.len() {
        lemma_total_prefix(s, k + 1);
        assert(s.take(k + 1).drop_last() =~= s.take(k));
    } else {
        assert(s.take(k) =~= s);
    }
}

} // verus!

verus! {

// ---------------------------------------------------------------------------
// Install order
// ---------------------------------------------------------------------------

/// The dependencies that the database records for `name` (none without an entry).
pub open spec fn deps_of(s: Seq<EntryView>, name: Seq<char>) -> Seq<Seq<char>> {
    match find_entry(s, name) {
        Some(i) => s[i].dependencies,
        None => Seq::empty(),
    }
}

/// `b` is a recorded dependency of `a`, and is among the packages to install.
pub open spec fn dep_edge(s: Seq<EntryView>, all: Seq<Seq<char>>, a: Seq<char>, b: Seq<char>) -> bool {
    deps_of(s, a).contains(b) && all.contains(b)
}

/// Each element of `p` depends on the next.
pub open spec fn is_dep_path(s: Seq<EntryView>, all: Seq<Seq<char>>, p: Seq<Seq<char>>) -> bool {
    forall|k: int| 0 <= k < p.len() - 1 ==> #[trigger] dep_edge(s, all, p[k], p[k + 1])
}

/// `c` is a dependency cycle among the packages to install: each depends on
/// the next, and the last on the first.
pub open spec fn is_dep_cycle(s: Seq<EntryView>, all: Seq<Seq<char>>, c: Seq<Seq<char>>) -> bool {
    &&& c.len() > 0
    &&& forall|k: int| 0 <= k < c.len() ==> all.contains(#[trigger] c[k])
    &&& is_dep_path(s, all, c)
    &&& dep_edge(s, all, c.last(), c[0])
}

/// The packages to install depend on one another in a cycle.
pub open spec fn has_dep_cycle(s: Seq<EntryView>, all: Seq<Seq<char>>) -> bool {
    exists|c: Seq<Seq<char>>| is_dep_cycle(s, all, c)
}

/// Every package of `order` comes after the ones it depends on.
pub open spec fn deps_first(s: Seq<EntryView>, all: Seq<Seq<char>>, order: Seq<Seq<char>>) -> bool {
    forall|i: int, j: int|
        0 <= i < order.len() && 0 <= j < order.len() && #[trigger] dep_edge(
            s,
            all,
            order[i],
            order[j],
        ) ==> j < i
}

/// Every dependency (among the packages to install) of a package of `order`
/// is in `order` too.
pub open spec fn deps_closed(s: Seq<EntryView>, all: Seq<Seq<char>>, order: Seq<Seq<char>>) -> bool {
    forall|i: int, y: Seq<char>|
        0 <= i < order.len() && #[trigger] dep_edge(s, all, order[i], y) ==> order.contains(y)
}

pub open spec fn within(x: Seq<Seq<char>>, all: Seq<Seq<char>>) -> bool {
    forall|k: int| 0 <= k < x.len() ==> all.contains(#[trigger] x[k])
}

pub open spec fn disjoint(a: Seq<Seq<char>>, b: Seq<Seq<char>>) -> bool {
    forall|k: int| 0 <= k < a.len() ==> !b.contains(#[trigger] a[k])
}

/// What a partial order built so far keeps: distinct packages to install,
/// each after its dependencies, with all of them present.
pub open spec fn order_ok(s: Seq<EntryView>, all: Seq<Seq<char>>, order: Seq<Seq<char>>) -> bool {
    &&& order.no_duplicates()
    &&& within(order, all)
    &&& deps_first(s, all, order)
    &&& deps_closed(s, all, order)
}

/// What the stack of packages being visited keeps: distinct packages to
/// install, each depending on the next.
pub open spec fn stack_ok(s: Seq<EntryView>, all: Seq<Seq<char>>, stack: Seq<Seq<char>>) -> bool {
    &&& stack.no_duplicates()
    &&& within(stack, all)
    &&& is_dep_path(s, all, stack)
}

/// The depth-first visit of `pkg`, with `stack` the packages whose visit is
/// under way and `order` the packages placed so far: a package placed already
/// is skipped; one under way again is a cycle, named by it; otherwise its
/// dependencies among `all` are visited in their recorded order, then it is
/// placed.  (A stack of distinct packages of `all` is never as long as `all`
/// while a package of `all` is off it; the length test only bounds the walk.)
pub open spec fn visit_spec(
    s: Seq<EntryView>,
    all: Seq<Seq<char>>,
    pkg: Seq<char>,
    stack: Seq<Seq<char>>,
    order: Seq<Seq<char>>,
) -> Result<Seq<Seq<char>>, Seq<char>>
    decreases all.len() - stack.len(), 0int, 0int,
{
    if order.contains(pkg) {
        Ok(order)
    } else if stack.contains(pkg) || stack.len() >= all.len() {
        Err(pkg)
    } else {
        match visit_deps_spec(s, all, deps_of(s, pkg), 0, stack.push(pkg), order) {
            Ok(o) => Ok(o.push(pkg)),
            Err(n) => Err(n),
        }
    }
}

/// The visits of `deps[i..]` that are among `all`, one after the other,
/// stopping at the first cycle.
pub open spec fn visit_deps_spec(
    s: Seq<EntryView>,
    all: Seq<Seq<char>>,
    deps: Seq<Seq<char>>,
    i: int,
    stack: Seq<Seq<char>>,
    order: Seq<Seq<char>>,
) -> Result<Seq<Seq<char>>, Seq<char>>
    decreases all.len() - stack.len(), 1int, deps.len() - i,
{
    if i >= deps.len() {
        Ok(order)
    } else if all.contains(deps[i]) {
        match visit_spec(s, all, deps[i], stack, order) {
            Ok(o) => visit_deps_spec(s, all, deps, i + 1, stack, o),
            Err(n) => Err(n),
        }
    } else {
        visit_deps_spec(s, all, deps, i + 1, stack, order)
    }
}

/// The visits of `all[k..]`, each from an empty stack, one after the other.
pub open spec fn visit_all_spec(s: Seq<EntryView>, all: Seq<Seq<char>>, k: int, order: Seq<Seq<char>>) -> Result<
    Seq<Seq<char>>,
    Seq<char>,
>
    decreases all.len() - k,
{
    if k >= all.len() {
        Ok(order)
    } else {
        match visit_spec(s, all, all[k], Seq::empty(), order) {
            Ok(o) => visit_all_spec(s, all, k + 1, o),
            Err(n) => Err(n),
        }
    }
}

/// The install order of `all`: the packages in the order a depth-first walk
/// from each of them, in turn, places them; or the package at which it meets
/// a cycle.
pub open spec fn install_order_spec(s: Seq<EntryView>, all: Seq<Seq<char>>) -> Result<Seq<Seq<char>>, Seq<char>> {
    visit_all_spec(s, all, 0, Seq::empty())
}

/// A sequence of distinct elements of `all` is no longer than `all`.
proof fn lemma_distinct_within_len(x: Seq<Seq<char>>, all: Seq<Seq<char>>)
    requires
        x.no_duplicates(),
        within(x, all),
    ensures
        x.len() <= all.len(),
{
    x.unique_seq_to_set();
    all.lemma_cardinality_of_set();
    assert forall|e: Seq<char>| x.to_set().contains(e) implies all.to_set().contains(e) by {
        let k = choose|k: int| 0 <= k < x.len() && x[k] == e;
        assert(all.contains(x[k]));
    }
    vstd::set_lib::lemma_len_subset(x.to_set(), all.to_set());
}

/// An order in which every package comes after its dependencies has no cycle.
pub proof fn lemma_deps_first_acyclic(s: Seq<EntryView>, all: Seq<Seq<char>>, order: Seq<Seq<char>>)
    requires
        deps_first(s, all, order),
        forall|x: Seq<char>| all.contains(x) ==> #[trigger] order.contains(x),
    ensures
        !has_dep_cycle(s, all),
{
    if has_dep_cycle(s, all) {
        let c = choose|c: Seq<Seq<char>>| is_dep_cycle(s, all, c);
        // Along the cycle, positions in `order` strictly fall.
        let pos = |x: Seq<char>| choose|i: int| 0 <= i < order.len() && order[i] == x;
        assert forall|k: int| 0 <= k < c.len() implies 0 <= #[trigger] pos(c[k]) < order.len() && order[pos(c[k])]
            == c[k] by {
            assert(all.contains(c[k]));
            assert(order.contains(c[k]));
        }
        assert forall|k: int| 0 <= k < c.len() implies #[trigger] pos(c[k]) <= pos(c[0]) - k by {
            lemma_cycle_positions(s, all, order, c, pos, k);
        }
        let last = c.len() - 1;
        assert(dep_edge(s, all, c[last], c[0]));
        assert(dep_edge(s, all, order[pos(c[last])], order[pos(c[0])]));
        assert(pos(c[0]) < pos(c[last]));
    }
}

proof fn lemma_cycle_positions(
    s: Seq<EntryView>,
    all: Seq<Seq<char>>,
    order: Seq<Seq<char>>,
    c: Seq<Seq<char>>,
    pos: spec_fn(Seq<char>) -> int,
    k: int,
)
    requires
        deps_first(s, all, order),
        is_dep_path(s, all, c),
        0 <= k < c.len(),
        forall|m: int| 0 <= m < c.len() ==> 0 <= #[trigger] pos(c[m]) < order.len() && order[pos(c[m])]
            == c[m],
    ensures
        pos(c[k]) <= pos(c[0]) - k,
    decreases k,
{
    if k > 0 {
        lemma_cycle_positions(s, all, order, c, pos, k - 1);
        assert(dep_edge(s, all, c[k - 1], c[(k - 1) + 1]));
        assert(dep_edge(s, all, order[pos(c[k - 1])], order[pos(c[k])]));
    }
}

/// Whether `all` holds a string equal to `s`.
fn strs_contain(all: &[&str], s: &str) -> (r: bool)
    ensures
        r == crate::cli::arg_views(all@).contains(s@),
{
    let ghost a = crate::cli::arg_views(all@);
    let mut k: usize = 0;
    while k < all.len()
        invariant
            a == crate::cli::arg_views(all@),
            k <= all@.len(),
            forall|i: int| 0 <= i < k ==> a[i] != s@,
        decreases all.len() - k,
    {
        if str_eq(all[k], s) {
            assert(a[k as int] == s@);
            return true;
        }
        k = k + 1;
    }
    false
}

impl PackageDb {
    /// Visits `pkg`: its dependencies among `all` first, then `pkg` itself,
    /// appended to `order`.  `visiting` holds the packages whose visit is under
    /// way; meeting one of them again is a cycle.
    fn resolve_visit(
        &self,
        pkg: &str,
        all: &[&str],
        visiting: &mut Vec<String>,
        order: &mut Vec<String>,
    ) -> (r: Result<(), ArkError>)
        requires
            crate::cli::arg_views(all@).contains(pkg@),
            stack_ok(self@, crate::cli::arg_views(all@), old(visiting).deep_view()),
            old(visiting).deep_view().len() > 0 ==> dep_edge(
                self@,
                crate::cli::arg_views(all@),
                old(visiting).deep_view().last(),
                pkg@,
            ),
            order_ok(self@, crate::cli::arg_views(all@), old(order).deep_view()),
            disjoint(old(visiting).deep_view(), old(order).deep_view()),
        ensures
            match r {
                Ok(_) => {
                    let a = crate::cli::arg_views(all@);
                    &&& final(visiting).deep_view() == old(visiting).deep_view()
                    &&& order_ok(self@, a, final(order).deep_view())
                    &&& disjoint(final(visiting).deep_view(), final(order).deep_view())
                    &&& final(order).deep_view().contains(pkg@)
                    &&& forall|x: Seq<char>|
                        old(order).deep_view().contains(x) ==> #[trigger] final(order).deep_view().contains(x)
                },
                Err(e) => e@.kind == ErrorKind::CircularDependency && e@.detail.len() == 0 && exists|
                    c: Seq<Seq<char>>,
                | #[trigger] is_dep_cycle(self@, crate::cli::arg_views(all@), c) && c[0] == e@.subject,
            },
            match visit_spec(
                self@,
                crate::cli::arg_views(all@),
                pkg@,
                old(visiting).deep_view(),
                old(order).deep_view(),
            ) {
                Ok(o) => r is Ok && final(order).deep_view() == o,
                Err(n) => r matches Err(e) && e@.subject == n,
            },
        decreases crate::cli::arg_views(all@).len() - old(visiting).deep_view().len(),
    {
        let ghost a = crate::cli::arg_views(all@);
        let ghost s = self@;
        let ghost stack = visiting.deep_view();
        let ghost ord0 = order.deep_view();
        if vec_contains_str(order, pkg) {
            return Ok(());
        }
        if vec_contains_str(visiting, pkg) {
            proof {
                let j = choose|j: int| 0 <= j < stack.len() && stack[j] == pkg@;
                let c = stack.subrange(j, stack.len() as int);
                assert(c.last() == stack.last());
                assert forall|k: int| 0 <= k < c.len() - 1 implies #[trigger] dep_edge(s, a, c[k], c[k + 1]) by {
                    assert(c[k] == stack[j + k]);
                    assert(c[k + 1] == stack[j + k + 1]);
                    assert(dep_edge(s, a, stack[j + k], stack[j + k + 1]));
                }
                assert forall|k: int| 0 <= k < c.len() implies a.contains(#[trigger] c[k]) by {
                    assert(c[k] == stack[j + k]);
                }
                assert(is_dep_cycle(s, a, c));
            }
            return Err(ArkError::about(ErrorKind::CircularDependency, pkg));
        }
        proof {
            lemma_distinct_within_len(stack.push(pkg@), a);
            assert(stack.push(pkg@).no_duplicates());
        }
        let ghost before_push = visiting.deep_view();
        visiting.push(String::from_str(pkg));
        assert(visiting.deep_view() =~= stack.push(pkg@));
        let ghost stack1 = visiting.deep_view();
        proof {
            assert forall|k: int| 0 <= k < stack1.len() - 1 implies #[trigger] dep_edge(s, a, stack1[k], stack1[k + 1]) by {
                if k < stack.len() - 1 {
                    assert(stack1[k] == stack[k]);
                    assert(stack1[k + 1] == stack[k + 1]);
                    assert(dep_edge(s, a, stack[k], stack[k + 1]));
                } else {
                    assert(stack1[k] == stack.last());
                }
            }
            assert forall|k: int| 0 <= k < stack1.len() implies !ord0.contains(#[trigger] stack1[k]) by {
                if k < stack.len() {
                    assert(stack1[k] == stack[k]);
                }
            }
        }
        match self.find_index(pkg) {
            Some(idx) => {
                let deps = &self.packages[idx].dependencies;
                let ghost dv = deps.deep_view();
                assert(dv == deps_of(s, pkg@));
                let mut k: usize = 0;
                while k < deps.len()
                    invariant
                        a == crate::cli::arg_views(all@),
                        s == self@,
                        dv == deps.deep_view(),
                        dv == deps_of(s, pkg@),
                        k <= deps@.len(),
                        stack1 == stack.push(pkg@),
                        stack == old(visiting).deep_view(),
                        stack1.len() <= a.len(),
                        visiting.deep_view() == stack1,
                        stack_ok(s, a, stack1),
                        order_ok(s, a, order.deep_view()),
                        disjoint(stack1, order.deep_view()),
                        forall|x: Seq<char>| ord0.contains(x) ==> #[trigger] order.deep_view().contains(x),
                        forall|j: int|
                            0 <= j < k && a.contains(dv[j]) ==> order.deep_view().contains(#[trigger] dv[j]),
                        ord0 == old(order).deep_view(),
                        !ord0.contains(pkg@),
                        !stack.contains(pkg@),
                        visit_deps_spec(s, a, dv, 0, stack1, ord0) == visit_deps_spec(
                            s,
                            a,
                            dv,
                            k as int,
                            stack1,
                            order.deep_view(),
                        ),
                    decreases deps.len() - k,
                {
                    let dep = deps[k].as_str();
                    assert(dep@ == dv[k as int]);
                    if strs_contain(all, dep) {
                        assert(dv.contains(dep@));
                        assert(dep_edge(s, a, stack1.last(), dep@));
                        let ghost ord_before = order.deep_view();
                        let res = self.resolve_visit(dep, all, visiting, order);
                        match res {
                            Ok(_) => {},
                            Err(e) => {
                                proof {
                                    assert(visit_deps_spec(s, a, dv, k as int, stack1, ord_before) == Err::<
                                        Seq<Seq<char>>,
                                        Seq<char>,
                                    >(e@.subject));
                                }
                                return Err(e);
                            },
                        }
                        assert forall|j: int|
                            0 <= j < k + 1 && a.contains(dv[j]) implies order.deep_view().contains(
                            #[trigger] dv[j],
                        ) by {
                            if j < k {
                                assert(ord_before.contains(dv[j]));
                            }
                        }
                    }
                    k = k + 1;
                }
            },
            None => {
                assert(deps_of(s, pkg@) =~= Seq::<Seq<char>>::empty());
            },
        }
        let ghost ord1 = order.deep_view();
        // Every dependency of `pkg` among `all` is in the order now.
        assert forall|y: Seq<char>| #[trigger] dep_edge(s, a, pkg@, y) implies ord1.contains(y) by {
            let dv = deps_of(s, pkg@);
            let j = choose|j: int| 0 <= j < dv.len() && dv[j] == y;
        }
        assert(visiting.deep_view() == stack1);
        let ghost pre_pop = visiting@;
        visiting.pop();
        assert(visiting@ =~= pre_pop.subrange(0, pre_pop.len() - 1));
        assert forall|i: int| 0 <= i < visiting.deep_view().len() implies visiting.deep_view()[i] == stack[i] by {
            assert(visiting.deep_view()[i] == visiting@[i]@);
            assert(visiting@[i] == pre_pop[i]);
            assert(stack1[i] == pre_pop[i]@);
        }
        assert(visiting.deep_view() =~= stack);
        assert(!ord1.contains(pkg@)) by {
            assert(stack1[stack.len() as int] == pkg@);
        }
        let ghost ord2_expected = ord1.push(pkg@);
        order.push(String::from_str(pkg));
        assert(order.deep_view() =~= ord2_expected);
        proof {
            let o = order.deep_view();
            let n = ord1.len() as int;
            assert forall|i: int, j: int| 0 <= i < o.len() && 0 <= j < o.len() && #[trigger] dep_edge(
                s,
                a,
                o[i],
                o[j],
            ) implies j < i by {
                if i < n && j < n {
                    assert(o[i] == ord1[i] && o[j] == ord1[j]);
                } else if i < n && j == n {
                    assert(o[i] == ord1[i]);
                    assert(dep_edge(s, a, ord1[i], pkg@));
                    assert(ord1.contains(pkg@));
                } else if i == n && j == n {
                    assert(dep_edge(s, a, pkg@, pkg@));
                    assert(ord1.contains(pkg@));
                }
            }
            assert forall|i: int, y: Seq<char>| 0 <= i < o.len() && #[trigger] dep_edge(s, a, o[i], y) implies o.contains(
                y,
            ) by {
                if i < n {
                    assert(o[i] == ord1[i]);
                    assert(ord1.contains(y));
                    let m = choose|m: int| 0 <= m < ord1.len() && ord1[m] == y;
                    assert(o[m] == y);
                } else {
                    assert(ord1.contains(y));
                    let m = choose|m: int| 0 <= m < ord1.len() && ord1[m] == y;
                    assert(o[m] == y);
                }
            }
            assert forall|k: int| 0 <= k < o.len() implies a.contains(#[trigger] o[k]) by {
                if k < n {
                    assert(o[k] == ord1[k]);
                }
            }
            assert forall|x: Seq<char>| ord0.contains(x) implies #[trigger] o.contains(x) by {
                assert(ord1.contains(x));
                let m = choose|m: int| 0 <= m < ord1.len() && ord1[m] == x;
                assert(o[m] == x);
            }
            assert(o[n] == pkg@);
            assert forall|k: int| 0 <= k < stack.len() implies !o.contains(#[trigger] stack[k]) by {
                assert(stack1[k] == stack[k]);
                assert(!ord1.contains(stack[k]));
                if o.contains(stack[k]) {
                    let m = choose|m: int| 0 <= m < o.len() && o[m] == stack[k];
                    if m < n {
                        assert(ord1[m] == stack[k]);
                    } else {
                        assert(stack[k] == pkg@);
                        assert(stack.contains(pkg@));
                    }
                }
            }
        }
        Ok(())
    }

    /// The packages of `to_install` in an order to install them: each after the
    /// ones it depends on (by the dependencies this database records).  Fails,
    /// naming a package on the cycle, when they depend on one another in a cycle.
    pub fn resolve_install_order(&self, to_install: &[&str]) -> (r: Result<Vec<String>, ArkError>)
        ensures
            match r {
                Ok(order) => {
                    let a = crate::cli::arg_views(to_install@);
                    &&& order.deep_view().no_duplicates()
                    &&& order.deep_view().to_set() == a.to_set()
                    &&& deps_first(self@, a, order.deep_view())
                },
                Err(e) => e@.kind == ErrorKind::CircularDependency && e@.detail.len() == 0 && exists|
                    c: Seq<Seq<char>>,
                | #[trigger] is_dep_cycle(self@, crate::cli::arg_views(to_install@), c) && c[0]
                    == e@.subject,
            },
            r is Err <==> has_dep_cycle(self@, crate::cli::arg_views(to_install@)),
            match install_order_spec(self@, crate::cli::arg_views(to_install@)) {
                Ok(o) => r matches Ok(order) && order.deep_view() == o,
                Err(n) => r matches Err(e) && e@.subject == n,
            },
    {
        let ghost a = crate::cli::arg_views(to_install@);
        let mut order: Vec<String> = Vec::new();
        let mut visiting: Vec<String> = Vec::new();
        assert(order.deep_view() =~= Seq::<Seq<char>>::empty());
        assert(visiting.deep_view() =~= Seq::<Seq<char>>::empty());
        let mut k: usize = 0;
        while k < to_install.len()
            invariant
                a == crate::cli::arg_views(to_install@),
                k <= to_install@.len(),
                visiting.deep_view() == Seq::<Seq<char>>::empty(),
                order_ok(self@, a, order.deep_view()),
                forall|j: int| 0 <= j < k ==> order.deep_view().contains(#[trigger] a[j]),
                install_order_spec(self@, a) == visit_all_spec(self@, a, k as int, order.deep_view()),
            decreases to_install.len() - k,
        {
            assert(a[k as int] == to_install@[k as int]@);
            assert(a.contains(a[k as int]));
            let ghost ord_before = order.deep_view();
            match self.resolve_visit(to_install[k], to_install, &mut visiting, &mut order) {
                Ok(_) => {},
                Err(e) => {
                    return Err(e);
                },
            }
            assert forall|j: int| 0 <= j < k + 1 implies order.deep_view().contains(#[trigger] a[j]) by {
                if j < k {
                    assert(ord_before.contains(a[j]));
                }
            }
            k = k + 1;
        }
        let ghost o = order.deep_view();
        assert forall|x: Seq<char>| a.contains(x) implies #[trigger] o.contains(x) by {
            let j = choose|j: int| 0 <= j < a.len() && a[j] == x;
        }
        assert(o.to_set() =~= a.to_set()) by {
            assert forall|x: Seq<char>| o.to_set().contains(x) implies a.to_set().contains(x) by {
                let j = choose|j: int| 0 <= j < o.len() && o[j] == x;
                assert(a.contains(o[j]));
            }
        }
        proof {
            lemma_deps_first_acyclic(self@, a, o);
        }
        Ok(order)
    }
}

} // verus!

verus! {

/// Registering an entry makes it what its name looks up; other names look up
/// what they did: the database, as a map, gains (or replaces) that one entry.
pub proof fn law_register_then_get(s: Seq<EntryView>, e: EntryView)
    requires
        db_wf(s),
    ensures
        find_entry(register_spec(s, e), e.name) matches Some(k) && register_spec(s, e)[k] == e,
        db_map(register_spec(s, e)) == db_map(s).insert(e.name, e),
{
    let s2 = register_spec(s, e);
    lemma_find_entry_from(s, e.name, 0);
    lemma_register_wf(s, e);
    let k = match find_entry(s, e.name) {
        Some(i) => i,
        None => s.len() as int,
    };
    assert(s2[k] == e);
    lemma_find_entry_unique(s2, k);
    assert forall|n: Seq<char>| n != e.name implies #[trigger] find_entry(s2, n) == find_entry(s, n)
        && (find_entry(s, n) is Some ==> s2[find_entry(s2, n)->0] == s[find_entry(s, n)->0]) by {
        lemma_find_entry_from(s, n, 0);
        lemma_find_entry_from(s2, n, 0);
        match find_entry(s, n) {
            Some(i) => {
                assert(s2[i] == s[i]);
                lemma_find_entry_unique(s2, i);
            },
            None => {
                if find_entry(s2, n) is Some {
                    let j = find_entry(s2, n)->0;
                    if j < s.len() {
                        assert(s2[j] == s[j]);
                    }
                }
            },
        }
    }
    assert(db_map(s2) =~= db_map(s).insert(e.name, e));
}

/// Unregistering a name hands back its entry and leaves no entry of that
/// name; other names look up what they did.
pub proof fn law_unregister_then_absent(s: Seq<EntryView>, name: Seq<char>)
    requires
        db_wf(s),
    ensures
        find_entry(unregister_spec(s, name).0, name) is None,
        unregister_spec(s, name).1 == db_map(s).get(name),
        db_map(unregister_spec(s, name).0) == db_map(s).remove(name),
{
    let s2 = unregister_spec(s, name).0;
    lemma_find_entry_from(s, name, 0);
    lemma_find_entry_from(s2, name, 0);
    match find_entry(s, name) {
        Some(i) => {
            assert forall|j: int| 0 <= j < s2.len() implies s2[j].name != name by {
                let j0 = if j < i { j } else { j + 1 };
                assert(s2[j] == s[j0]);
                assert(s[j0].name != s[i].name);
            }
            lemma_find_entry_from(s2, name, 0);
            assert forall|n: Seq<char>| n != name implies #[trigger] find_entry(s2, n) is Some == find_entry(s, n) is Some
                && (find_entry(s2, n) is Some ==> s2[find_entry(s2, n)->0] == s[find_entry(s, n)->0]) by {
                lemma_find_entry_from(s, n, 0);
                lemma_find_entry_from(s2, n, 0);
                match find_entry(s, n) {
                    Some(m) => {
                        let m2 = if m < i { m } else { m - 1 };
                        assert(m != i);
                        assert(s2[m2] == s[m]);
                        lemma_unregister_wf(s, i);
                        lemma_find_entry_unique(s2, m2);
                    },
                    None => {
                        if find_entry(s2, n) is Some {
                            let j = find_entry(s2, n)->0;
                            let j0 = if j < i { j } else { j + 1 };
                            assert(s2[j] == s[j0]);
                        }
                    },
                }
            }
            assert(db_map(s2) =~= db_map(s).remove(name));
        },
        None => {
            assert(db_map(s2) =~= db_map(s).remove(name));
        },
    }
}

/// Unregistering a package that was just registered under a new name gives
/// back the database as it was, and the entry.
pub proof fn law_register_unregister_roundtrip(s: Seq<EntryView>, e: EntryView)
    requires
        db_wf(s),
        find_entry(s, e.name) is None,
    ensures
        unregister_spec(register_spec(s, e), e.name) == (s, Some(e)),
{
    let s2 = register_spec(s, e);
    lemma_find_entry_from(s, e.name, 0);
    lemma_register_wf(s, e);
    lemma_find_entry_unique(s2, s.len() as int);
    assert(s2.remove(s.len() as int) =~= s);
}

pub proof fn lemma_register_wf(s: Seq<EntryView>, e: EntryView)
    requires
        db_wf(s),
    ensures
        db_wf(register_spec(s, e)),
{
    let s2 = register_spec(s, e);
    lemma_find_entry_from(s, e.name, 0);
    assert forall|a: int, b: int| 0 <= a < b < s2.len() implies #[trigger] s2[a].name != #[trigger] s2[b].name by {
        if s2[a].name == e.name || s2[b].name == e.name {
        } else if b < s.len() {
            assert(s2[a] == s[a]);
            assert(s2[b] == s[b]);
        }
    }
}

pub proof fn lemma_unregister_wf(s: Seq<EntryView>, i: int)
    requires
        db_wf(s),
        0 <= i < s.len(),
    ensures
        db_wf(s.remove(i)),
{
    let s2 = s.remove(i);
    assert forall|a: int, b: int| 0 <= a < b < s2.len() implies #[trigger] s2[a].name != #[trigger] s2[b].name by {
        let a0 = if a < i { a } else { a + 1 };
        let b0 = if b < i { b } else { b + 1 };
        assert(s2[a] == s[a0]);
        assert(s2[b] == s[b0]);
    }
}

} // verus!
