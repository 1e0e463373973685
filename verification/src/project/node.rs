//! A Node-style project description with a configurable list of source
//! extensions, for callers that want to restrict which file kinds count
//! as importers.  It reads only the `dependencies` section of the
//! manifest and applies no exemption rule; the full adapter of the scan
//! is [`crate::project::node_js::NodeProject`].

use vstd::prelude::*;

use crate::names::{insert_name, sort_names_spec};
use crate::project::ScanError;
use crate::project::node_js::{json_string_section, json_string_section_of};
use crate::text::{chars_of, has_extension, has_extension_exec};

verus! {

/// The decoded `dependencies` section of a Node-style JSON manifest, as
/// (name, version) pairs.
pub struct PackageJson {
    /// Dependency name and declared version.
    pub dependencies: Vec<(String, String)>,
}

/// The names of the pairs, in order.
pub open spec fn dependency_keys(pairs: Seq<(Seq<char>, Seq<char>)>) -> Seq<Seq<char>> {
    pairs.map_values(|p: (Seq<char>, Seq<char>)| p.0)
}

/// A Node-style project that searches only files whose extension is in
/// its own configurable list.
pub struct NodeProject {
    /// Extensions of files that count as dependency importers.
    pub allowed_extensions: Vec<String>,
    /// The sorted dependency names of the manifest last parsed.
    pub deps: Vec<String>,
}

impl NodeProject {
    /// A project that treats exactly the given extensions as importers.
    pub fn new(allowed_extensions: Vec<String>) -> (r: NodeProject)
        ensures
            r.allowed_extensions@ == allowed_extensions@,
            r.deps@.len() == 0,
    {
        NodeProject { allowed_extensions, deps: Vec::new() }
    }

    /// Whether a file with this name can import dependencies, i.e.
    /// carries one of the configured extensions.
    pub fn is_deps_importer(&self, file_name: &str) -> (r: bool)
        ensures
            r == exists|i: int|
                0 <= i < self.allowed_extensions.deep_view().len() && has_extension(
                    file_name@,
                    #[trigger] self.allowed_extensions.deep_view()[i],
                ),
    {
        let pathv = chars_of(file_name);
        let ghost exts = self.allowed_extensions.deep_view();
        let mut i: usize = 0;
        while i < self.allowed_extensions.len()
            invariant
                pathv@ == file_name@,
                exts == self.allowed_extensions.deep_view(),
                i <= self.allowed_extensions.len(),
                self.allowed_extensions.len() == exts.len(),
                forall|k: int| 0 <= k < i ==> !has_extension(pathv@, #[trigger] exts[k]),
            decreases exts.len() - i,
        {
            let ext = chars_of(self.allowed_extensions[i].as_str());
            assert(ext@ == exts[i as int]);
            if has_extension_exec(&pathv, &ext) {
                return true;
            }
            i = i + 1;
        }
        false
    }

    /// The dependency names of `parsed_file`, sorted; duplicates are
    /// kept.
    pub fn get_deps_names(&self, parsed_file: PackageJson) -> (r: Vec<String>)
        ensures
            r.deep_view() == sort_names_spec(
                dependency_keys(parsed_file.dependencies.deep_view()),
            ),
    {
        let ghost pairs = parsed_file.dependencies.deep_view();
        let ghost keys = dependency_keys(pairs);
        let mut sorted: Vec<String> = Vec::new();
        let mut i: usize = 0;
        assert(sorted.deep_view() =~= sort_names_spec(keys.subrange(0, 0)));
        while i < parsed_file.dependencies.len()
            invariant
                pairs == parsed_file.dependencies.deep_view(),
                keys == dependency_keys(pairs),
                i <= parsed_file.dependencies.len(),
                parsed_file.dependencies.len() == pairs.len(),
                sorted.deep_view() == sort_names_spec(keys.subrange(0, i as int)),
            decreases pairs.len() - i,
        {
            let name = parsed_file.dependencies[i].0.clone();
            assert(name@ == keys[i as int]);
            sorted = insert_name(sorted, name);
            i = i + 1;
            proof {
                assert(keys.subrange(0, i as int).drop_last() =~= keys.subrange(0, i - 1));
                assert(keys.subrange(0, i as int).last() == keys[i - 1]);
            }
        }
        proof {
            assert(keys.subrange(0, keys.len() as int) =~= keys);
        }
        sorted
    }

    /// Parses manifest text and stores the sorted dependency names;
    /// returns how many there are.  A malformed manifest is a
    /// [`ScanError::ManifestParse`] and leaves the project unchanged.
    pub fn parse_deps(&mut self, deps_file_content: &str) -> (r: Result<usize, ScanError>)
        ensures
            match r {
                Ok(n) => {
                    &&& json_string_section_of(deps_file_content@, "dependencies"@)
                        matches Some(pairs) && final(self).deps.deep_view() == sort_names_spec(
                        dependency_keys(pairs),
                    )
                    &&& n == final(self).deps@.len()
                    &&& final(self).allowed_extensions@ == old(self).allowed_extensions@
                },
                Err(e) => {
                    &&& e == ScanError::ManifestParse
                    &&& json_string_section_of(deps_file_content@, "dependencies"@) is None
                    &&& *final(self) == *old(self)
                },
            },
    {
        match json_string_section(deps_file_content, "dependencies") {
            Some(pairs) => {
                let handler = PackageJson { dependencies: pairs };
                let names = self.get_deps_names(handler);
                let n = names.len();
                self.deps = names;
                Ok(n)
            },
            None => Err(ScanError::ManifestParse),
        }
    }
}

impl Default for NodeProject {
    /// The preset extension list: JavaScript and TypeScript sources.
    fn default() -> (r: NodeProject)
        ensures
            r.allowed_extensions.deep_view() == seq!["js"@, "jsx"@, "ts"@, "tsx"@],
            r.deps@.len() == 0,
    {
        let mut allowed_extensions: Vec<String> = Vec::new();
        allowed_extensions.push("js".to_owned());
        allowed_extensions.push("jsx".to_owned());
        allowed_extensions.push("ts".to_owned());
        allowed_extensions.push("tsx".to_owned());
        assert(allowed_extensions.deep_view() =~= seq!["js"@, "jsx"@, "ts"@, "tsx"@]);
        NodeProject { allowed_extensions, deps: Vec::new() }
    }
}

} // verus!
