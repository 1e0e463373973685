//! The Node-style ecosystem adapter: a JSON manifest named `package.json`
//! with a `dependencies` map and a `scripts` map.
//!
//! Its exemption rule: a dependency whose name carries the ambient-types
//! namespace prefix `@types/`, or whose name occurs in the body of a
//! declared script, is never a candidate (scripts are invoked by name
//! from outside the sources, so a source search would not find them).

use vstd::prelude::*;

use crate::names::{insert_name_unique, lemma_sorted_insert_unique_membership,
    lemma_sorted_insert_unique_sorted, sorted_insert_unique, strictly_sorted};
use crate::project::{Project, ScanError};
use crate::text::{chars_of, contains_exec, contains_seq, starts_with, starts_with_exec};

verus! {

/// The parts of a Node-style JSON manifest that the scan reads: the
/// `dependencies` map and the `scripts` map, each as (name, text) pairs
/// in the order the decoder yields them.
pub struct NodePackagesHandler {
    /// Dependency name and declared version.
    pub dependencies: Vec<(String, String)>,
    /// Script name and script body.
    pub scripts: Vec<(String, String)>,
}

/// What decoding one named section of JSON manifest text yields: `None`
/// when the text is not a JSON object or the section is present but is
/// not an object with string values; otherwise the section's (key, value)
/// pairs in the decoder's order, an absent section yielding none.
pub uninterp spec fn json_string_section_of(text: Seq<char>, section: Seq<char>) -> Option<
    Seq<(Seq<char>, Seq<char>)>,
>;

/// Relies on `serde_json::from_str` for `serde_json::Value` and on
/// `serde_json::Map`: decoding JSON text and listing one section's
/// entries.  The map is backed by an ordered map, so the pairs come in
/// sorted key order and the result is a function of the text and the
/// section name alone.
#[verifier::external_body]
pub(crate) fn json_string_section(text: &str, section: &str) -> (r: Option<Vec<(String, String)>>)
    ensures
        r.deep_view() == json_string_section_of(text@, section@),
{
    let root = match serde_json::from_str(text) {
        Ok(serde_json::Value::Object(map)) => map,
        _ => return None,
    };
    let entries = match root.get(section) {
        None => return Some(Vec::new()),
        Some(serde_json::Value::Object(map)) => map,
        Some(_) => return None,
    };
    let mut pairs: Vec<(String, String)> = Vec::new();
    for (name, value) in entries {
        pairs.push((name.clone(), value.as_str()?.to_string()));
    }
    Some(pairs)
}

/// The Node-style exemption predicate: `name` carries the ambient-types
/// prefix, or occurs in the body of some script.
pub open spec fn node_exempt(name: Seq<char>, scripts: Seq<(Seq<char>, Seq<char>)>) -> bool {
    starts_with(name, "@types/"@) || exists|k: int|
        0 <= k < scripts.len() && contains_seq((#[trigger] scripts[k]).1, name)
}

/// The candidate names derived from a decoded manifest: the non-empty,
/// non-exempt dependency names, sorted and without duplicates.
pub open spec fn node_candidate_names(
    deps: Seq<(Seq<char>, Seq<char>)>,
    scripts: Seq<(Seq<char>, Seq<char>)>,
) -> Seq<Seq<char>>
    decreases deps.len(),
{
    if deps.len() == 0 {
        Seq::empty()
    } else {
        let rest = node_candidate_names(deps.drop_last(), scripts);
        let name = deps.last().0;
        if name.len() > 0 && !node_exempt(name, scripts) {
            sorted_insert_unique(rest, name)
        } else {
            rest
        }
    }
}

/// What parsing Node-style manifest text yields: `None` when the text is
/// malformed, otherwise the candidate names.
pub open spec fn node_candidates_spec(text: Seq<char>) -> Option<Seq<Seq<char>>> {
    match (
        json_string_section_of(text, "dependencies"@),
        json_string_section_of(text, "scripts"@),
    ) {
        (Some(deps), Some(scripts)) => Some(node_candidate_names(deps, scripts)),
        _ => None,
    }
}

/// Whether `name`'s text occurs in the body of any script of the parsed
/// manifest.
pub fn is_used_in_package_scripts(parsed_file: &NodePackagesHandler, name: &str) -> (r: bool)
    ensures
        r == exists|k: int|
            0 <= k < parsed_file.scripts.deep_view().len() && contains_seq(
                (#[trigger] parsed_file.scripts.deep_view()[k]).1,
                name@,
            ),
{
    let namev = chars_of(name);
    let ghost scripts = parsed_file.scripts.deep_view();
    let mut k: usize = 0;
    while k < parsed_file.scripts.len()
        invariant
            namev@ == name@,
            scripts == parsed_file.scripts.deep_view(),
            k <= parsed_file.scripts.len(),
            parsed_file.scripts.len() == scripts.len(),
            forall|j: int| 0 <= j < k ==> !contains_seq((#[trigger] scripts[j]).1, namev@),
        decreases scripts.len() - k,
    {
        let body = chars_of(parsed_file.scripts[k].1.as_str());
        assert(body@ == scripts[k as int].1);
        if contains_exec(&body, &namev) {
            return true;
        }
        k = k + 1;
    }
    false
}

/// Derives the candidate dependency names from a decoded manifest: drops
/// empty names, names with the ambient-types prefix and names referenced
/// by a script body, and sorts the rest without duplicates.
pub fn get_deps_names(parsed_file: NodePackagesHandler) -> (r: Vec<String>)
    ensures
        r.deep_view() == node_candidate_names(
            parsed_file.dependencies.deep_view(),
            parsed_file.scripts.deep_view(),
        ),
{
    let prefix = chars_of("@types/");
    let ghost deps = parsed_file.dependencies.deep_view();
    let ghost scripts = parsed_file.scripts.deep_view();
    let mut acc: Vec<String> = Vec::new();
    let mut i: usize = 0;
    assert(acc.deep_view() =~= node_candidate_names(deps.subrange(0, 0), scripts));
    while i < parsed_file.dependencies.len()
        invariant
            prefix@ == "@types/"@,
            deps == parsed_file.dependencies.deep_view(),
            scripts == parsed_file.scripts.deep_view(),
            i <= parsed_file.dependencies.len(),
            parsed_file.dependencies.len() == deps.len(),
            acc.deep_view() == node_candidate_names(deps.subrange(0, i as int), scripts),
        decreases deps.len() - i,
    {
        let name = parsed_file.dependencies[i].0.clone();
        let namev = chars_of(name.as_str());
        assert(namev@ == deps[i as int].0);
        let keep = if namev.len() == 0 {
            false
        } else if starts_with_exec(&namev, &prefix) {
            false
        } else {
            !is_used_in_package_scripts(&parsed_file, name.as_str())
        };
        assert(keep == (deps[i as int].0.len() > 0 && !node_exempt(deps[i as int].0, scripts)));
        if keep {
            acc = insert_name_unique(acc, name);
        }
        i = i + 1;
        proof {
            assert(deps.subrange(0, i as int).drop_last() =~= deps.subrange(0, i - 1));
            assert(deps.subrange(0, i as int).last() == deps[i - 1]);
        }
    }
    proof {
        assert(deps.subrange(0, deps.len() as int) =~= deps);
    }
    acc
}

/// The Node-style adapter: holds the candidate names of the manifest it
/// last parsed.
pub struct NodeProject {
    deps: Vec<String>,
}

impl NodeProject {
    /// A fresh adapter with no candidates yet.
    pub fn new() -> (r: NodeProject)
        ensures
            r.wf(),
            r.spec_deps() == Seq::<Seq<char>>::empty(),
    {
        let r = NodeProject { deps: Vec::new() };
        assert(r.deps.deep_view() =~= Seq::<Seq<char>>::empty());
        r
    }
}

impl Project for NodeProject {
    open spec fn wf(&self) -> bool {
        true
    }

    closed spec fn spec_deps(&self) -> Seq<Seq<char>> {
        self.deps.deep_view()
    }

    open spec fn spec_deps_file() -> Seq<char> {
        "package.json"@
    }

    open spec fn spec_allowed_extensions() -> Seq<Seq<char>> {
        seq!["js"@, "jsx"@, "ts"@, "tsx"@, "scss"@, "sass"@, "json"@]
    }

    open spec fn spec_excluded_paths() -> Seq<Seq<char>> {
        seq!["package.json"@, "node_modules/"@]
    }

    open spec fn spec_candidates(text: Seq<char>) -> Option<Seq<Seq<char>>> {
        node_candidates_spec(text)
    }

    fn deps_file() -> (r: String) {
        "package.json".to_owned()
    }

    fn allowed_extensions() -> (r: Vec<String>) {
        let mut r: Vec<String> = Vec::new();
        r.push("js".to_owned());
        r.push("jsx".to_owned());
        r.push("ts".to_owned());
        r.push("tsx".to_owned());
        r.push("scss".to_owned());
        r.push("sass".to_owned());
        r.push("json".to_owned());
        assert(r.deep_view() =~= Self::spec_allowed_extensions());
        r
    }

    fn excluded_paths() -> (r: Vec<String>) {
        let mut r: Vec<String> = Vec::new();
        r.push("package.json".to_owned());
        r.push("node_modules/".to_owned());
        assert(r.deep_view() =~= Self::spec_excluded_paths());
        r
    }

    fn parse_deps(&mut self, deps_file_content: &str) -> (r: Result<usize, ScanError>) {
        let deps = json_string_section(deps_file_content, "dependencies");
        let scripts = json_string_section(deps_file_content, "scripts");
        match (deps, scripts) {
            (Some(d), Some(s)) => {
                let handler = NodePackagesHandler { dependencies: d, scripts: s };
                let names = get_deps_names(handler);
                let n = names.len();
                self.deps = names;
                Ok(n)
            },
            _ => Err(ScanError::ManifestParse),
        }
    }

    fn deps(&self) -> (r: &Vec<String>) {
        &self.deps
    }
}

/// The candidate set is strictly sorted, hence free of duplicates: for
/// one manifest the scan always sees the same candidates in the same
/// order, whatever order the decoder yielded the entries in.
pub proof fn lemma_node_candidates_sorted(
    deps: Seq<(Seq<char>, Seq<char>)>,
    scripts: Seq<(Seq<char>, Seq<char>)>,
)
    ensures
        strictly_sorted(node_candidate_names(deps, scripts)),
    decreases deps.len(),
{
    if deps.len() > 0 {
        lemma_node_candidates_sorted(deps.drop_last(), scripts);
        let rest = node_candidate_names(deps.drop_last(), scripts);
        let name = deps.last().0;
        if name.len() > 0 && !node_exempt(name, scripts) {
            lemma_sorted_insert_unique_sorted(rest, name);
        }
    }
}

/// Exemption law: a dependency name with the ambient-types prefix is
/// never in the candidate set, whatever else the manifest declares.
pub proof fn lemma_ambient_types_never_candidate(
    deps: Seq<(Seq<char>, Seq<char>)>,
    scripts: Seq<(Seq<char>, Seq<char>)>,
    name: Seq<char>,
)
    requires
        starts_with(name, "@types/"@),
    ensures
        !node_candidate_names(deps, scripts).contains(name),
    decreases deps.len(),
{
    if deps.len() == 0 {
        assert(!node_candidate_names(deps, scripts).contains(name));
    } else {
        lemma_ambient_types_never_candidate(deps.drop_last(), scripts, name);
        let rest = node_candidate_names(deps.drop_last(), scripts);
        let nm = deps.last().0;
        if nm.len() > 0 && !node_exempt(nm, scripts) {
            lemma_sorted_insert_unique_membership(rest, nm, name);
            assert(name != nm);
        }
    }
}

} // verus!
