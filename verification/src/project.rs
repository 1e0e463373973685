//! The scan: ecosystem adapters, the file-inclusion policy, and the engine
//! that aggregates per-file matches into the final unused-dependency set.
//!
//! The engine does no input or output itself.  The caller reads the
//! manifest file and hands the outcome to [`ScanEngine::new`], walks the
//! project tree, filters entries through [`should_scan_file`], reads each
//! accepted file and hands its text to [`ScanEngine::search_file`], and
//! closes the scan with [`ScanEngine::finish`].  Failure to read the
//! manifest is fatal to the scan; failure to read an individual file is
//! left to the caller's policy (the bundled driver warns and skips the
//! file).

use vstd::prelude::*;

use crate::file_handler::string_exists_in_multiline_text;
use crate::names::strictly_sorted;
use crate::text::{chars_of, contains_exec, contains_seq, has_extension, has_extension_exec,
    lex_lt, seq_eq, text_has_term};

pub mod node;
pub mod node_js;
pub mod rust;

verus! {

/// Why a scan could not run.
#[derive(Debug, PartialEq, Eq)]
pub enum ScanError {
    /// The manifest file was missing or unreadable; the message says why.
    /// Surfaced before any file is visited.
    ManifestRead(String),
    /// The manifest file was read but its text is not a well-formed
    /// manifest of the ecosystem.
    ManifestParse,
}

/// An ecosystem adapter: knows the manifest file name, which files are
/// eligible for scanning, and how manifest text yields the candidate
/// dependency names.
pub trait Project: Sized {
    /// Validity of the adapter's current state.
    spec fn wf(&self) -> bool;

    /// The candidate dependency names currently held.
    spec fn spec_deps(&self) -> Seq<Seq<char>>;

    /// The manifest file name.
    spec fn spec_deps_file() -> Seq<char>;

    /// File-name extensions of files that are searched.
    spec fn spec_allowed_extensions() -> Seq<Seq<char>>;

    /// Path fragments that exclude a file from the search outright.
    spec fn spec_excluded_paths() -> Seq<Seq<char>>;

    /// What parsing manifest text yields for this ecosystem: `None` when
    /// the text is not a well-formed manifest, otherwise the candidate
    /// dependency names.
    spec fn spec_candidates(text: Seq<char>) -> Option<Seq<Seq<char>>>;

    /// The manifest file name, relative to the project root.
    fn deps_file() -> (r: String)
        ensures
            r@ == Self::spec_deps_file(),
    ;

    /// The extensions of files eligible for scanning.
    fn allowed_extensions() -> (r: Vec<String>)
        ensures
            r.deep_view() == Self::spec_allowed_extensions(),
    ;

    /// Path fragments whose presence excludes a file.
    fn excluded_paths() -> (r: Vec<String>)
        ensures
            r.deep_view() == Self::spec_excluded_paths(),
    ;

    /// Parses manifest text and stores the candidate dependency names;
    /// returns how many there are.  A malformed manifest is a
    /// [`ScanError::ManifestParse`] and leaves the adapter unchanged.
    fn parse_deps(&mut self, deps_file_content: &str) -> (r: Result<usize, ScanError>)
        requires
            old(self).wf(),
        ensures
            match r {
                Ok(n) => final(self).wf() && Self::spec_candidates(deps_file_content@) == Some(
                    final(self).spec_deps(),
                ) && n == final(self).spec_deps().len(),
                Err(e) => {
                    &&& e == ScanError::ManifestParse
                    &&& Self::spec_candidates(deps_file_content@) is None
                    &&& *final(self) == *old(self)
                },
            },
    ;

    /// The candidate dependency names currently held.
    fn deps(&self) -> (r: &Vec<String>)
        ensures
            r.deep_view() == self.spec_deps(),
    ;
}

/// The file-inclusion policy: the root path `"."` is always accepted; a
/// path containing an excluded fragment is rejected, and this check takes
/// priority over extension matching; otherwise a path is accepted exactly
/// when it carries one of the allowed extensions.
pub open spec fn should_scan_spec(
    path: Seq<char>,
    excluded: Seq<Seq<char>>,
    allowed: Seq<Seq<char>>,
) -> bool {
    if path == "."@ {
        true
    } else if exists|i: int| 0 <= i < excluded.len() && contains_seq(path, #[trigger] excluded[i]) {
        false
    } else {
        exists|i: int| 0 <= i < allowed.len() && has_extension(path, #[trigger] allowed[i])
    }
}

/// Whether the file at `file_path` should be searched, under adapter `T`'s
/// inclusion policy.  Directories are not the policy's business: the
/// traversal must skip them before asking.
pub fn should_scan_file<T: Project>(file_path: &str) -> (r: bool)
    ensures
        r == should_scan_spec(file_path@, T::spec_excluded_paths(), T::spec_allowed_extensions()),
{
    let pathv = chars_of(file_path);
    let root = chars_of(".");
    if seq_eq(&pathv, &root) {
        return true;
    }
    let excluded = T::excluded_paths();
    let mut i: usize = 0;
    while i < excluded.len()
        invariant
            pathv@ == file_path@,
            pathv@ != "."@,
            excluded.deep_view() == T::spec_excluded_paths(),
            excluded.len() == T::spec_excluded_paths().len(),
            i <= excluded.len(),
            forall|k: int|
                0 <= k < i ==> !contains_seq(pathv@, #[trigger] T::spec_excluded_paths()[k]),
        decreases excluded.len() - i,
    {
        let frag = chars_of(excluded[i].as_str());
        assert(frag@ == T::spec_excluded_paths()[i as int]);
        if contains_exec(&pathv, &frag) {
            return false;
        }
        i = i + 1;
    }
    let allowed = T::allowed_extensions();
    let mut j: usize = 0;
    while j < allowed.len()
        invariant
            pathv@ == file_path@,
            pathv@ != "."@,
            allowed.deep_view() == T::spec_allowed_extensions(),
            allowed.len() == T::spec_allowed_extensions().len(),
            j <= allowed.len(),
            forall|k: int|
                0 <= k < T::spec_excluded_paths().len() ==> !contains_seq(
                    pathv@,
                    #[trigger] T::spec_excluded_paths()[k],
                ),
            forall|k: int|
                0 <= k < j ==> !has_extension(pathv@, #[trigger] T::spec_allowed_extensions()[k]),
        decreases allowed.len() - j,
    {
        let ext = chars_of(allowed[j].as_str());
        assert(ext@ == T::spec_allowed_extensions()[j as int]);
        if has_extension_exec(&pathv, &ext) {
            assert(should_scan_spec(
                file_path@,
                T::spec_excluded_paths(),
                T::spec_allowed_extensions(),
            ));
            return true;
        }
        j = j + 1;
    }
    false
}

/// `name` occurs (line-wise) in at least one of the searched contents.
pub open spec fn found_in_some(searched: Seq<Seq<char>>, name: Seq<char>) -> bool {
    exists|k: int| 0 <= k < searched.len() && text_has_term(#[trigger] searched[k], name)
}

/// The names of `deps`, in order, that occur in none of the searched
/// contents.
pub open spec fn unused_of(deps: Seq<Seq<char>>, searched: Seq<Seq<char>>) -> Seq<Seq<char>>
    decreases deps.len(),
{
    if deps.len() == 0 {
        Seq::empty()
    } else {
        unused_of(deps.drop_last(), searched) + (if found_in_some(searched, deps.last()) {
            Seq::empty()
        } else {
            seq![deps.last()]
        })
    }
}

/// The names of `deps` not yet marked used that occur in `content`, in
/// order.
pub open spec fn newly_found(deps: Seq<Seq<char>>, used: Seq<bool>, content: Seq<char>) -> Seq<
    Seq<char>,
>
    recommends
        used.len() == deps.len(),
    decreases deps.len(),
{
    if deps.len() == 0 {
        Seq::empty()
    } else {
        newly_found(deps.drop_last(), used.drop_last(), content) + (if !used.last()
            && text_has_term(content, deps.last()) {
            seq![deps.last()]
        } else {
            Seq::empty()
        })
    }
}

/// The immutable summary of one completed scan.
pub struct ScanResult {
    /// How many candidate dependencies the manifest declared.
    pub declared_count: usize,
    /// How many files were actually searched.
    pub scanned_file_count: usize,
    /// The declared names found in no searched file, sorted.
    pub unused_deps: Vec<String>,
    /// Wall-clock time of the scan, as measured by the caller.
    pub elapsed_ms: u64,
}

/// One scan in progress: the candidate names, which of them have been
/// confirmed used, and how many files were searched so far.
pub struct ScanEngine<T: Project> {
    project: T,
    used: Vec<bool>,
    scanned_file_count: usize,
    searched: Ghost<Seq<Seq<char>>>,
}

impl<T: Project> ScanEngine<T> {
    /// The candidate dependency names of this scan.
    pub closed spec fn spec_deps(&self) -> Seq<Seq<char>> {
        self.project.spec_deps()
    }

    /// The contents of every file searched so far.
    pub closed spec fn spec_searched(&self) -> Seq<Seq<char>> {
        self.searched@
    }

    /// How many files were searched so far.
    pub closed spec fn spec_scanned(&self) -> usize {
        self.scanned_file_count
    }

    /// The used-so-far marks, one per candidate.
    pub closed spec fn spec_used(&self) -> Seq<bool> {
        self.used@
    }

    /// Validity: one mark per candidate, and a candidate is marked exactly
    /// when its name occurs in some searched content.
    pub closed spec fn wf(&self) -> bool {
        &&& self.project.wf()
        &&& self.used@.len() == self.project.spec_deps().len()
        &&& forall|i: int|
            0 <= i < self.used@.len() ==> (#[trigger] self.used@[i] <==> found_in_some(
                self.searched@,
                self.project.spec_deps()[i],
            ))
    }

    /// Starts one scan from the outcome of reading the manifest file.  A
    /// read failure or a malformed manifest aborts the scan before any
    /// file is visited.
    pub fn new(project: T, manifest: Result<String, String>) -> (r: Result<ScanEngine<T>, ScanError>)
        requires
            project.wf(),
        ensures
            match r {
                Ok(engine) => {
                    &&& engine.wf()
                    &&& manifest matches Ok(text) && T::spec_candidates(text@) == Some(
                        engine.spec_deps(),
                    )
                    &&& engine.spec_scanned() == 0
                    &&& engine.spec_searched() == Seq::<Seq<char>>::empty()
                },
                Err(e) => match manifest {
                    Ok(text) => e == ScanError::ManifestParse && T::spec_candidates(text@) is None,
                    Err(msg) => e matches ScanError::ManifestRead(m) && m == msg,
                },
            },
    {
        match manifest {
            Ok(text) => {
                let mut project = project;
                match project.parse_deps(text.as_str()) {
                    Ok(_n) => {
                        let len = project.deps().len();
                        assert(len == project.spec_deps().len());
                        let mut used: Vec<bool> = Vec::new();
                        let mut i: usize = 0;
                        while i < len
                            invariant
                                i <= len,
                                used@.len() == i,
                                forall|k: int| 0 <= k < i ==> !(#[trigger] used@[k]),
                            decreases len - i,
                        {
                            used.push(false);
                            i = i + 1;
                        }
                        Ok(
                            ScanEngine {
                                project,
                                used,
                                scanned_file_count: 0,
                                searched: Ghost(Seq::empty()),
                            },
                        )
                    },
                    Err(e) => Err(e),
                }
            },
            Err(msg) => Err(ScanError::ManifestRead(msg)),
        }
    }

    /// How many candidate dependencies this scan watches.
    pub fn declared_count(&self) -> (r: usize)
        ensures
            r == self.spec_deps().len(),
    {
        let r = self.project.deps().len();
        assert(r == self.spec_deps().len());
        r
    }

    /// How many files were searched so far.
    pub fn scanned_file_count(&self) -> (r: usize)
        ensures
            r == self.spec_scanned(),
    {
        self.scanned_file_count
    }

    /// Searches one file's text: every candidate not yet confirmed used is
    /// looked up in `content`, and the newly confirmed names are returned,
    /// in order.  The caller must have passed `file_path` through the
    /// inclusion policy.
    pub fn search_file(&mut self, file_path: &str, content: &str) -> (found: Vec<String>)
        requires
            old(self).wf(),
            should_scan_spec(
                file_path@,
                T::spec_excluded_paths(),
                T::spec_allowed_extensions(),
            ),
            old(self).spec_scanned() < usize::MAX,
        ensures
            final(self).wf(),
            final(self).spec_deps() == old(self).spec_deps(),
            final(self).spec_searched() == old(self).spec_searched().push(content@),
            final(self).spec_scanned() == old(self).spec_scanned() + 1,
            forall|i: int|
                0 <= i < final(self).spec_used().len() ==> (#[trigger] final(self).spec_used()[i]
                    == (old(self).spec_used()[i] || text_has_term(
                    content@,
                    old(self).spec_deps()[i],
                ))),
            found.deep_view() == newly_found(
                old(self).spec_deps(),
                old(self).spec_used(),
                content@,
            ),
    {
        let ghost deps = self.project.spec_deps();
        let ghost used0 = self.used@;
        let mut found: Vec<String> = Vec::new();
        let n = self.project.deps().len();
        assert(n == deps.len());
        let mut i: usize = 0;
        assert(found.deep_view() =~= newly_found(
            deps.subrange(0, 0),
            used0.subrange(0, 0),
            content@,
        ));
        while i < n
            invariant
                i <= n,
                n == deps.len(),
                n == used0.len(),
                self.project == old(self).project,
                self.project.spec_deps() == deps,
                self.scanned_file_count == old(self).scanned_file_count,
                self.searched == old(self).searched,
                self.used@.len() == n,
                forall|k: int| i <= k < n ==> #[trigger] self.used@[k] == used0[k],
                forall|k: int|
                    0 <= k < i ==> #[trigger] self.used@[k] == (used0[k] || text_has_term(
                        content@,
                        deps[k],
                    )),
                found.deep_view() == newly_found(
                    deps.subrange(0, i as int),
                    used0.subrange(0, i as int),
                    content@,
                ),
            decreases n - i,
        {
            let was_used = self.used[i];
            if !was_used {
                let name = self.project.deps()[i].clone();
                assert(name@ == deps[i as int]);
                if string_exists_in_multiline_text(name.as_str(), content) {
                    self.used[i] = true;
                    found.push(name);
                }
            }
            i = i + 1;
            proof {
                assert(deps.subrange(0, i as int).drop_last() =~= deps.subrange(0, i - 1));
                assert(used0.subrange(0, i as int).drop_last() =~= used0.subrange(0, i - 1));
                assert(deps.subrange(0, i as int).last() == deps[i - 1]);
                assert(used0.subrange(0, i as int).last() == used0[i - 1]);
                assert(found.deep_view() =~= newly_found(
                    deps.subrange(0, i as int),
                    used0.subrange(0, i as int),
                    content@,
                ));
            }
        }
        proof {
            assert(deps.subrange(0, n as int) =~= deps);
            assert(used0.subrange(0, n as int) =~= used0);
        }
        self.scanned_file_count = self.scanned_file_count + 1;
        let ghost searched0 = self.searched@;
        proof {
            self.searched@ = self.searched@.push(content@);
        }
        proof {
            assert forall|idx: int| 0 <= idx < self.used@.len() implies (#[trigger] self.used@[idx]
                <==> found_in_some(self.searched@, deps[idx])) by {
                if used0[idx] {
                    let k = choose|k: int|
                        0 <= k < searched0.len() && text_has_term(#[trigger] searched0[k], deps[idx]);
                    assert(self.searched@[k] == searched0[k]);
                    assert(found_in_some(self.searched@, deps[idx]));
                } else if text_has_term(content@, deps[idx]) {
                    assert(self.searched@[searched0.len() as int] == content@);
                    assert(found_in_some(self.searched@, deps[idx]));
                } else {
                    assert(!found_in_some(searched0, deps[idx]));
                    assert forall|k: int| 0 <= k < self.searched@.len() implies !text_has_term(
                        #[trigger] self.searched@[k],
                        deps[idx],
                    ) by {
                        if k < searched0.len() {
                            assert(self.searched@[k] == searched0[k]);
                        } else {
                            assert(self.searched@[k] == content@);
                        }
                    }
                }
            }
        }
        found
    }

    /// How many candidates are still unconfirmed, i.e. would be reported
    /// unused if the scan ended now.
    pub fn unused_count(&self) -> (r: usize)
        requires
            self.wf(),
        ensures
            r == unused_of(self.spec_deps(), self.spec_searched()).len(),
    {
        let ghost deps = self.project.spec_deps();
        let n = self.used.len();
        let mut count: usize = 0;
        let mut i: usize = 0;
        while i < n
            invariant
                i <= n,
                n == self.used@.len(),
                n == deps.len(),
                deps == self.project.spec_deps(),
                self.wf(),
                count == unused_of(deps.subrange(0, i as int), self.searched@).len(),
                count <= i,
            decreases n - i,
        {
            if !self.used[i] {
                count = count + 1;
            }
            i = i + 1;
            proof {
                assert(deps.subrange(0, i as int).drop_last() =~= deps.subrange(0, i - 1));
                assert(deps.subrange(0, i as int).last() == deps[i - 1]);
            }
        }
        proof {
            assert(deps.subrange(0, n as int) =~= deps);
        }
        count
    }

    /// Ends the scan: freezes the counts, the unused-name set and the
    /// caller-measured elapsed time into a [`ScanResult`].
    pub fn finish(self, elapsed_ms: u64) -> (r: ScanResult)
        requires
            self.wf(),
        ensures
            r.declared_count == self.spec_deps().len(),
            r.scanned_file_count == self.spec_scanned(),
            r.unused_deps.deep_view() == unused_of(self.spec_deps(), self.spec_searched()),
            r.elapsed_ms == elapsed_ms,
    {
        let ghost deps = self.project.spec_deps();
        let n = self.project.deps().len();
        assert(n == deps.len());
        let mut unused: Vec<String> = Vec::new();
        let mut i: usize = 0;
        assert(unused.deep_view() =~= unused_of(deps.subrange(0, 0), self.searched@));
        while i < n
            invariant
                i <= n,
                n == deps.len(),
                deps == self.project.spec_deps(),
                self.wf(),
                unused.deep_view() == unused_of(deps.subrange(0, i as int), self.searched@),
            decreases n - i,
        {
            if !self.used[i] {
                let name = self.project.deps()[i].clone();
                assert(name@ == deps[i as int]);
                unused.push(name);
            }
            i = i + 1;
            proof {
                assert(deps.subrange(0, i as int).drop_last() =~= deps.subrange(0, i - 1));
                assert(deps.subrange(0, i as int).last() == deps[i - 1]);
                assert(unused.deep_view() =~= unused_of(
                    deps.subrange(0, i as int),
                    self.searched@,
                ));
            }
        }
        proof {
            assert(deps.subrange(0, n as int) =~= deps);
        }
        ScanResult {
            declared_count: n,
            scanned_file_count: self.scanned_file_count,
            unused_deps: unused,
            elapsed_ms,
        }
    }
}

proof fn lemma_append_contains(a: Seq<Seq<char>>, b: Seq<Seq<char>>, y: Seq<char>)
    ensures
        (a + b).contains(y) <==> (a.contains(y) || b.contains(y)),
{
    let c = a + b;
    if c.contains(y) {
        let i = choose|i: int| 0 <= i < c.len() && c[i] == y;
        if i < a.len() {
            assert(a[i] == y);
            assert(a.contains(y));
        } else {
            assert(b[i - a.len()] == y);
            assert(b.contains(y));
        }
    }
    if a.contains(y) {
        let i = choose|i: int| 0 <= i < a.len() && a[i] == y;
        assert(c[i] == y);
        assert(c.contains(y));
    }
    if b.contains(y) {
        let i = choose|i: int| 0 <= i < b.len() && b[i] == y;
        assert(c[a.len() + i] == y);
        assert(c.contains(y));
    }
}

/// A scan over an empty candidate set reports nothing unused, whatever
/// contents were searched.
pub proof fn lemma_no_candidates_no_unused(searched: Seq<Seq<char>>)
    ensures
        unused_of(Seq::empty(), searched) == Seq::<Seq<char>>::empty(),
{
}

/// A name is reported unused exactly when it is a candidate whose text
/// occurs in none of the searched contents.
pub proof fn lemma_unused_iff_never_found(
    deps: Seq<Seq<char>>,
    searched: Seq<Seq<char>>,
    name: Seq<char>,
)
    ensures
        unused_of(deps, searched).contains(name) <==> (deps.contains(name) && !found_in_some(
            searched,
            name,
        )),
    decreases deps.len(),
{
    if deps.len() == 0 {
        assert(!deps.contains(name));
        assert(!unused_of(deps, searched).contains(name));
    } else {
        let pre = deps.drop_last();
        lemma_unused_iff_never_found(pre, searched, name);
        let tail: Seq<Seq<char>> = if found_in_some(searched, deps.last()) {
            Seq::empty()
        } else {
            seq![deps.last()]
        };
        lemma_append_contains(unused_of(pre, searched), tail, name);
        assert(deps =~= pre.push(deps.last()));
        lemma_append_contains(pre, seq![deps.last()], name);
        assert(pre + seq![deps.last()] =~= deps);
        if tail.len() == 1 && name == deps.last() {
            assert(tail[0] == name);
            assert(tail.contains(name));
        }
        if tail.contains(name) {
            assert(tail[choose|i: int| 0 <= i < tail.len() && tail[i] == name] == name);
            assert(name == deps.last());
        }
        if seq![deps.last()].contains(name) {
            assert(name == deps.last());
        }
        if name == deps.last() {
            assert(seq![deps.last()][0] == name);
            assert(seq![deps.last()].contains(name));
        }
    }
}

/// The unused-name report keeps the candidate order: over strictly
/// sorted candidates it is itself strictly sorted, so it holds each
/// unused name once.
pub proof fn lemma_unused_sorted(deps: Seq<Seq<char>>, searched: Seq<Seq<char>>)
    requires
        strictly_sorted(deps),
    ensures
        strictly_sorted(unused_of(deps, searched)),
    decreases deps.len(),
{
    if deps.len() > 0 {
        let pre = deps.drop_last();
        assert(strictly_sorted(pre)) by {
            assert forall|i: int, j: int| 0 <= i < j < pre.len() implies lex_lt(pre[i], pre[j]) by {
                assert(lex_lt(deps[i], deps[j]));
            }
        }
        lemma_unused_sorted(pre, searched);
        let u = unused_of(pre, searched);
        if !found_in_some(searched, deps.last()) {
            let r = u + seq![deps.last()];
            assert forall|i: int, j: int| 0 <= i < j < r.len() implies lex_lt(r[i], r[j]) by {
                if j == r.len() - 1 {
                    assert(u.contains(u[i]));
                    lemma_unused_iff_never_found(pre, searched, u[i]);
                    let k = choose|k: int| 0 <= k < pre.len() && pre[k] == u[i];
                    assert(lex_lt(deps[k], deps.last()));
                } else {
                    assert(lex_lt(u[i], u[j]));
                }
            }
        } else {
            assert(unused_of(deps, searched) =~= u);
        }
    }
}

/// Scanning is deterministic up to traversal order: two scans over the
/// same candidates whose searched contents are the same collection — in
/// any order, with any repetition — report the same unused set.
pub proof fn lemma_scan_order_irrelevant(
    deps: Seq<Seq<char>>,
    s1: Seq<Seq<char>>,
    s2: Seq<Seq<char>>,
)
    requires
        forall|t: Seq<char>| #[trigger] s1.contains(t) <==> #[trigger] s2.contains(t),
    ensures
        unused_of(deps, s1) == unused_of(deps, s2),
    decreases deps.len(),
{
    if deps.len() > 0 {
        lemma_scan_order_irrelevant(deps.drop_last(), s1, s2);
        assert(found_in_some(s1, deps.last()) <==> found_in_some(s2, deps.last())) by {
            if found_in_some(s1, deps.last()) {
                let k = choose|k: int|
                    0 <= k < s1.len() && text_has_term(#[trigger] s1[k], deps.last());
                assert(s1.contains(s1[k]));
                assert(s2.contains(s1[k]));
                let j = choose|j: int| 0 <= j < s2.len() && s2[j] == s1[k];
                assert(text_has_term(s2[j], deps.last()));
                assert(found_in_some(s2, deps.last()));
            }
            if found_in_some(s2, deps.last()) {
                let k = choose|k: int|
                    0 <= k < s2.len() && text_has_term(#[trigger] s2[k], deps.last());
                assert(s2.contains(s2[k]));
                assert(s1.contains(s2[k]));
                let j = choose|j: int| 0 <= j < s1.len() && s1[j] == s2[k];
                assert(text_has_term(s1[j], deps.last()));
                assert(found_in_some(s1, deps.last()));
            }
        }
    }
}

/// Exclusion has priority: a path (other than the root path) that holds an
/// excluded fragment is never scanned, whatever extension it carries.
pub proof fn lemma_exclusion_priority(
    path: Seq<char>,
    excluded: Seq<Seq<char>>,
    allowed: Seq<Seq<char>>,
    i: int,
)
    requires
        path != "."@,
        0 <= i < excluded.len(),
        contains_seq(path, excluded[i]),
    ensures
        !should_scan_spec(path, excluded, allowed),
{
}

} // verus!
