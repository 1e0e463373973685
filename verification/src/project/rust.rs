//! The Rust-style ecosystem adapter: a TOML manifest named `Cargo.toml`
//! with a `dependencies` table.  There is no exemption rule: every
//! declared dependency key is a candidate.

use vstd::prelude::*;

use crate::names::{insert_name_unique, lemma_sorted_insert_unique_sorted, sorted_insert_unique,
    strictly_sorted};
use crate::project::{Project, ScanError};
use crate::text::chars_of;

verus! {

/// The part of a Rust-style TOML manifest that the scan reads: the keys
/// of the `dependencies` table, in the order the decoder yields them.
/// The values of the table — version strings or richer tables — are never
/// read, so they are not kept.
pub struct RustPackagesHandler {
    /// The declared dependency names.
    pub dependencies: Vec<String>,
}

/// What decoding the `dependencies` table of TOML manifest text yields:
/// `None` when the text is not well-formed TOML or the table is present
/// but is not a table; otherwise its keys in the decoder's order, an
/// absent table yielding none.
pub uninterp spec fn toml_dependency_names_of(text: Seq<char>) -> Option<Seq<Seq<char>>>;

/// Relies on `toml::from_str` for `toml::Table` and on `toml::Value`:
/// decoding TOML text and listing the keys of its `dependencies` table.
/// The table is backed by an ordered map, so the keys come sorted and the
/// result is a function of the text alone.
#[verifier::external_body]
pub(crate) fn toml_dependency_names(text: &str) -> (r: Option<Vec<String>>)
    ensures
        r.deep_view() == toml_dependency_names_of(text@),
{
    let root: toml::Table = match toml::from_str(text) {
        Ok(table) => table,
        Err(_) => return None,
    };
    match root.get("dependencies") {
        None => Some(Vec::new()),
        Some(toml::Value::Table(table)) => Some(table.keys().cloned().collect()),
        Some(_) => None,
    }
}

/// The candidate names derived from the decoded keys: the non-empty ones,
/// sorted and without duplicates.
pub open spec fn rust_candidate_names(deps: Seq<Seq<char>>) -> Seq<Seq<char>>
    decreases deps.len(),
{
    if deps.len() == 0 {
        Seq::empty()
    } else {
        let rest = rust_candidate_names(deps.drop_last());
        if deps.last().len() > 0 {
            sorted_insert_unique(rest, deps.last())
        } else {
            rest
        }
    }
}

/// What parsing Rust-style manifest text yields: `None` when the text is
/// malformed, otherwise the candidate names.
pub open spec fn rust_candidates_spec(text: Seq<char>) -> Option<Seq<Seq<char>>> {
    match toml_dependency_names_of(text) {
        Some(deps) => Some(rust_candidate_names(deps)),
        None => None,
    }
}

/// The candidate set is strictly sorted, hence free of duplicates: for
/// one manifest the scan always sees the same candidates in the same
/// order, whatever order the decoder yielded the keys in.
pub proof fn lemma_rust_candidates_sorted(deps: Seq<Seq<char>>)
    ensures
        strictly_sorted(rust_candidate_names(deps)),
    decreases deps.len(),
{
    if deps.len() > 0 {
        lemma_rust_candidates_sorted(deps.drop_last());
        if deps.last().len() > 0 {
            lemma_sorted_insert_unique_sorted(rust_candidate_names(deps.drop_last()), deps.last());
        }
    }
}

/// Derives the candidate dependency names from a decoded manifest: drops
/// empty names and sorts the rest without duplicates.
pub fn get_deps_names(parsed_file: RustPackagesHandler) -> (r: Vec<String>)
    ensures
        r.deep_view() == rust_candidate_names(parsed_file.dependencies.deep_view()),
{
    let ghost deps = parsed_file.dependencies.deep_view();
    let mut acc: Vec<String> = Vec::new();
    let mut i: usize = 0;
    assert(acc.deep_view() =~= rust_candidate_names(deps.subrange(0, 0)));
    while i < parsed_file.dependencies.len()
        invariant
            deps == parsed_file.dependencies.deep_view(),
            i <= parsed_file.dependencies.len(),
            parsed_file.dependencies.len() == deps.len(),
            acc.deep_view() == rust_candidate_names(deps.subrange(0, i as int)),
        decreases deps.len() - i,
    {
        let name = parsed_file.dependencies[i].clone();
        let namev = chars_of(name.as_str());
        assert(namev@ == deps[i as int]);
        if namev.len() > 0 {
            acc = insert_name_unique(acc, name);
        }
        i = i + 1;
        proof {
            assert(deps.subrange(0, i as int).drop_last() =~= deps.subrange(0, i - 1));
            assert(deps.subrange(0, i as int).last() == deps[i - 1]);
        }
    }
    proof {
        assert(deps.subrange(0, deps.len() as int) =~= deps);
    }
    acc
}

/// The Rust-style adapter: holds the candidate names of the manifest it
/// last parsed.
pub struct RustProject {
    deps: Vec<String>,
}

impl RustProject {
    /// A fresh adapter with no candidates yet.
    pub fn new() -> (r: RustProject)
        ensures
            r.wf(),
            r.spec_deps() == Seq::<Seq<char>>::empty(),
    {
        let r = RustProject { deps: Vec::new() };
        assert(r.deps.deep_view() =~= Seq::<Seq<char>>::empty());
        r
    }
}

impl Project for RustProject {
    open spec fn wf(&self) -> bool {
        true
    }

    closed spec fn spec_deps(&self) -> Seq<Seq<char>> {
        self.deps.deep_view()
    }

    open spec fn spec_deps_file() -> Seq<char> {
        "Cargo.toml"@
    }

    open spec fn spec_allowed_extensions() -> Seq<Seq<char>> {
        seq!["rs"@]
    }

    open spec fn spec_excluded_paths() -> Seq<Seq<char>> {
        seq!["Cargo.toml"@]
    }

    open spec fn spec_candidates(text: Seq<char>) -> Option<Seq<Seq<char>>> {
        rust_candidates_spec(text)
    }

    fn deps_file() -> (r: String) {
        "Cargo.toml".to_owned()
    }

    fn allowed_extensions() -> (r: Vec<String>) {
        let mut r: Vec<String> = Vec::new();
        r.push("rs".to_owned());
        assert(r.deep_view() =~= Self::spec_allowed_extensions());
        r
    }

    fn excluded_paths() -> (r: Vec<String>) {
        let mut r: Vec<String> = Vec::new();
        r.push("Cargo.toml".to_owned());
        assert(r.deep_view() =~= Self::spec_excluded_paths());
        r
    }

    fn parse_deps(&mut self, deps_file_content: &str) -> (r: Result<usize, ScanError>) {
        match toml_dependency_names(deps_file_content) {
            Some(names) => {
                let handler = RustPackagesHandler { dependencies: names };
                let candidates = get_deps_names(handler);
                let n = candidates.len();
                self.deps = candidates;
                Ok(n)
            },
            None => Err(ScanError::ManifestParse),
        }
    }

    fn deps(&self) -> (r: &Vec<String>) {
        &self.deps
    }
}

} // verus!
