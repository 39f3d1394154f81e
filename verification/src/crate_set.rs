//! The crates whose rustdoc JSON an API is built from: the crate whose public
//! API is listed, and the external crates whose items it re-exports.

use std::collections::HashMap;

use rustdoc_types::{Crate, ExternalCrate, Id, Item, ItemSummary};

use serde_json::Error as JsonError;

use vstd::prelude::*;

use crate::error::{Error, Result};

verus! {

#[verifier::external_type_specification]
#[verifier::external_body]
pub struct ExCrate(Crate);

#[verifier::external_type_specification]
#[verifier::external_body]
pub struct ExExternalCrate(ExternalCrate);

#[verifier::external_type_specification]
#[verifier::external_body]
pub struct ExId(Id);

#[verifier::external_type_specification]
#[verifier::external_body]
pub struct ExItem(Item);

#[verifier::external_type_specification]
#[verifier::external_body]
pub struct ExItemSummary(ItemSummary);

/// The `crate_id` of an entry of the `paths` map of a crate's rustdoc JSON.
pub uninterp spec fn summary_crate_id(summary: ItemSummary) -> u32;

/// The `crate_id` of an entry of the `paths` map.
///
/// Trusted: reads the field `ItemSummary::crate_id` of `rustdoc_types`; the
/// contract claims that it is the one that [`summary_crate_id`] names.
#[verifier::external_body]
pub(crate) fn crate_id_of(summary: &ItemSummary) -> (r: u32)
    ensures
        r == summary_crate_id(*summary),
{
    summary.crate_id
}

/// Identifies which crate's rustdoc JSON an item or [`Id`] belongs to.
///
/// [`Id`]s are only unique within a single crate's rustdoc JSON, so all
/// lookups must be qualified with the crate they belong to.
#[derive(Clone, Copy, PartialEq, Eq, Structural, Hash, Debug)]
pub enum CrateTag {
    /// The crate for which the public API is being generated.
    Main,
    /// An external crate whose rustdoc JSON was provided, so that re-exports
    /// of its items can be inlined. The index is into [`CrateSet`]'s
    /// externals.
    External(usize),
}

/// The `external_crates` map of a crate's rustdoc JSON: from the `crate_id`
/// used in the crate's `paths` to the external crate's description.
pub uninterp spec fn crate_external_crates(krate: Crate) -> Map<u32, ExternalCrate>;

/// The path from where an external crate was loaded, as text.
pub uninterp spec fn external_crate_path(external: ExternalCrate) -> Seq<char>;

/// The `index` map of a crate's rustdoc JSON: from an [`Id`] to its item.
pub uninterp spec fn crate_index(krate: Crate) -> Map<Id, Item>;

/// Whether two paths, given as text, name the same path (`std::path::Path`
/// compares them component by component).
pub uninterp spec fn paths_equal(a: Seq<char>, b: Seq<char>) -> bool;

/// Whether a text is rustdoc JSON that deserializes into a [`Crate`], nested
/// no deeper than `serde_json`'s recursion limit of 128 arrays and objects.
pub uninterp spec fn rustdoc_json_parses(json: Seq<char>) -> bool;

/// The `external_crates` map of the crate that rustdoc JSON describes.
pub uninterp spec fn json_external_crates(json: Seq<char>) -> Map<u32, ExternalCrate>;

/// The ids of the items in the `index` of the crate that rustdoc JSON
/// describes.
pub uninterp spec fn json_index_ids(json: Seq<char>) -> Set<Id>;

/// Deserializes rustdoc JSON into a [`Crate`].
///
/// Trusted: calls `Deserialize::deserialize` of `serde` on a
/// `serde_json::Deserializer` made by `from_str`, into
/// `rustdoc_types::Crate`. The deserializer keeps `serde_json`'s recursion
/// limit, under which it refuses, with an error, text nested deeper than 128
/// arrays and objects, and so cannot exhaust the stack. The contract claims
/// that the text alone decides whether it succeeds, and that the crate it
/// gives has the external crates and the index ids that
/// [`json_external_crates`] and [`json_index_ids`] name. The items themselves,
/// which hold maps that each process seeds, are not named.
#[verifier::external_body]
fn deserialize_crate(json: &str) -> (r: std::result::Result<Crate, JsonError>)
    ensures
        r is Ok <==> rustdoc_json_parses(json@),
        r matches Ok(c) ==> crate_external_crates(c) == json_external_crates(json@) && crate_index(
            c,
        ).dom() == json_index_ids(json@),
{
    let mut deserializer = serde_json::Deserializer::from_str(json);
    serde::de::Deserialize::deserialize(&mut deserializer)
}

/// Parses rustdoc JSON into a [`Crate`]: the crate, when the text is
/// rustdoc JSON nested no deeper than 128 arrays and objects, and the JSON
/// error otherwise.
pub fn parse_rustdoc_json(json: &str) -> (r: Result<Crate>)
    ensures
        r is Ok <==> rustdoc_json_parses(json@),
        r matches Ok(c) ==> crate_external_crates(c) == json_external_crates(json@) && crate_index(
            c,
        ).dom() == json_index_ids(json@),
        r matches Err(e) ==> e is SerdeJsonError,
{
    match deserialize_crate(json) {
        Ok(c) => Ok(c),
        Err(e) => Err(Error::SerdeJsonError(e)),
    }
}

/// The `external_crates` field of `krate`.
///
/// Trusted: reads the field `Crate::external_crates` of `rustdoc_types`; the
/// contract claims that the map handed back is the one that
/// [`crate_external_crates`] names.
#[verifier::external_body]
fn external_crates_of(krate: &Crate) -> (m: &HashMap<u32, ExternalCrate>)
    ensures
        m@ == crate_external_crates(*krate),
{
    &krate.external_crates
}

/// The path of an external crate as text.
///
/// Trusted: reads the field `ExternalCrate::path` of `rustdoc_types` and
/// converts it with `Path::to_string_lossy`; the contract claims that the
/// text is the one that [`external_crate_path`] names. For a crate read from
/// rustdoc JSON the path came from a JSON string, which is UTF-8, so the
/// conversion loses nothing; a path that is not UTF-8 would have its invalid
/// bytes replaced.
#[verifier::external_body]
fn path_of_external(external: &ExternalCrate) -> (p: String)
    ensures
        p@ == external_crate_path(*external),
{
    external.path.to_string_lossy().into_owned()
}

/// Whether two paths are the same path.
///
/// Trusted: calls `PartialEq::eq` of `std::path::Path`; the contract claims
/// that the result is the one that [`paths_equal`] names, and, since `Path`
/// is `Eq`, that a path is the same path as itself.
#[verifier::external_body]
pub(crate) fn same_path(a: &str, b: &str) -> (r: bool)
    ensures
        r == paths_equal(a@, b@),
        a@ == b@ ==> r,
{
    std::path::Path::new(a) == std::path::Path::new(b)
}

/// The item with the given `id` in the index of `krate`, if there is one.
///
/// Trusted: calls `HashMap::get` on the field `Crate::index` of
/// `rustdoc_types`; the contract claims that it gives back what
/// [`crate_index`] holds for `id`, or `None` where it holds nothing.
#[verifier::external_body]
pub(crate) fn indexed_item<'c>(krate: &'c Crate, id: &Id) -> (r: Option<&'c Item>)
    ensures
        match r {
            Some(item) => crate_index(*krate).contains_key(*id) && crate_index(*krate)[*id] == *item,
            None => !crate_index(*krate).contains_key(*id),
        },
{
    krate.index.get(id)
}

/// A set of [`Crate`]s (deserialized rustdoc JSON): the crate for which the
/// public API is generated, plus the rustdoc JSON of external crates that
/// have been provided so that re-exports of their items can be resolved.
pub struct CrateSet<'c> {
    /// The crate for which the public API is being generated.
    main: &'c Crate,
    /// The provided external crates. Each was compiled to the artifact path
    /// passed alongside it to [`CrateSet::new`].
    externals: Vec<&'c Crate>,
    /// Maps the key of an entry in the main crate's `external_crates` (the
    /// `crate_id` of `paths` map entries) to the tag of the corresponding
    /// provided external crate.
    external_tags: HashMap<u32, CrateTag>,
}

/// The paths of a list of artifacts, each as its text.
pub open spec fn paths_view(paths: Seq<String>) -> Seq<Seq<char>> {
    paths.map_values(|p: String| p@)
}

/// Some path of `paths` is the same path as `target`.
pub open spec fn has_match(paths: Seq<Seq<char>>, target: Seq<char>) -> bool {
    exists|pos: int| 0 <= pos < paths.len() && paths_equal(#[trigger] paths[pos], target)
}

/// `pos` is the first position in `paths` of a path that is the same path
/// as `target`.
pub open spec fn is_first_match(paths: Seq<Seq<char>>, target: Seq<char>, pos: int) -> bool {
    &&& 0 <= pos < paths.len()
    &&& paths_equal(paths[pos], target)
    &&& forall|j: int| 0 <= j < pos ==> !paths_equal(#[trigger] paths[j], target)
}

/// The path from which the external crate with key `crate_id` in the
/// `external_crates` of `main` was loaded.
pub open spec fn loaded_from(main: Crate, crate_id: u32) -> Seq<char> {
    external_crate_path(crate_external_crates(main)[crate_id])
}

/// `tags` maps exactly the external crates of `main` that were loaded from
/// one of the `artifacts` to the first such artifact.
pub open spec fn tags_match_artifacts(
    tags: Map<u32, CrateTag>,
    main: Crate,
    artifacts: Seq<Seq<char>>,
) -> bool {
    &&& forall|id: u32| #[trigger]
        tags.contains_key(id) <==> crate_external_crates(main).contains_key(id) && has_match(
            artifacts,
            loaded_from(main, id),
        )
    &&& forall|id: u32| #[trigger]
        tags.contains_key(id) ==> (tags[id] matches CrateTag::External(pos) && is_first_match(
            artifacts,
            loaded_from(main, id),
            pos as int,
        ))
}

/// The first position in `paths` of a path that is the same path as
/// `target`, if there is one.
fn position_of_path(paths: &Vec<String>, target: &str) -> (r: Option<usize>)
    ensures
        match r {
            Some(pos) => is_first_match(paths_view(paths@), target@, pos as int),
            None => !has_match(paths_view(paths@), target@),
        },
{
    let ghost pv = paths_view(paths@);
    let mut i: usize = 0;
    while i < paths.len()
        invariant
            i <= paths.len(),
            pv == paths_view(paths@),
            forall|j: int| 0 <= j < i ==> !paths_equal(#[trigger] pv[j], target@),
        decreases paths.len() - i,
    {
        if same_path(paths[i].as_str(), target) {
            return Some(i);
        }
        i = i + 1;
    }
    None
}

/// The path from which the external crate with key `crate_id` in the
/// `external_crates` of `main` was loaded, as text, if `main` has such an
/// external crate.
pub fn loaded_from_path(main: &Crate, crate_id: u32) -> (r: Option<String>)
    ensures
        match r {
            Some(p) => crate_external_crates(*main).contains_key(crate_id) && p@ == loaded_from(
                *main,
                crate_id,
            ),
            None => !crate_external_crates(*main).contains_key(crate_id),
        },
{
    broadcast use vstd::std_specs::hash::group_hash_axioms;

    let crates = external_crates_of(main);
    match crates.get(&crate_id) {
        Some(external) => Some(path_of_external(external)),
        None => None,
    }
}

impl<'c> CrateSet<'c> {
    /// Every tag of an external crate points into the provided externals.
    #[verifier::type_invariant]
    spec fn tags_in_range(&self) -> bool {
        forall|id: u32| #[trigger]
            self.external_tags@.contains_key(id) ==> (self.external_tags@[id] matches CrateTag::External(
                pos,
            ) && pos < self.externals@.len())
    }

    /// The crate for which the public API is being generated.
    pub closed spec fn main_spec(&self) -> Crate {
        *self.main
    }

    /// The provided external crates, in order.
    pub closed spec fn externals_spec(&self) -> Seq<Crate> {
        self.externals@.map_values(|c: &Crate| *c)
    }

    /// The tag of each external crate of the main crate whose rustdoc JSON
    /// was provided, by its key in the main crate's `external_crates`.
    pub closed spec fn tags_spec(&self) -> Map<u32, CrateTag> {
        self.external_tags@
    }

    /// Whether `tag` names a crate of this set.
    pub open spec fn valid_tag(&self, tag: CrateTag) -> bool {
        match tag {
            CrateTag::Main => true,
            CrateTag::External(pos) => pos < self.externals_spec().len(),
        }
    }

    /// The crate that `tag` names.
    pub open spec fn crate_spec(&self, tag: CrateTag) -> Crate {
        match tag {
            CrateTag::Main => self.main_spec(),
            CrateTag::External(pos) => self.externals_spec()[pos as int],
        }
    }

    /// `externals` and `artifact_paths` are parallel: `artifact_paths[i]` is
    /// the compiled artifact of `externals[i]`, used to match against the
    /// main crate's `external_crates[].path` (the crate identity).
    ///
    /// Each external crate of `main` that was loaded from one of the
    /// artifacts gets the tag of the first such artifact.
    pub fn new(main: &'c Crate, externals: Vec<&'c Crate>, artifact_paths: Vec<String>) -> (r: Self)
        requires
            externals.len() == artifact_paths.len(),
        ensures
            r.main_spec() == *main,
            r.externals_spec() == externals@.map_values(|c: &Crate| *c),
            tags_match_artifacts(r.tags_spec(), *main, paths_view(artifact_paths@)),
    {
        broadcast use vstd::std_specs::hash::group_hash_axioms;

        let ghost artifacts = paths_view(artifact_paths@);
        let mut external_tags: HashMap<u32, CrateTag> = HashMap::new();
        let crates = external_crates_of(main);
        for entry in it: crates.iter()
            invariant
                artifacts == paths_view(artifact_paths@),
                crates@ == crate_external_crates(*main),
                externals.len() == artifact_paths.len(),
                forall|id: u32| #[trigger]
                    external_tags@.contains_key(id) ==> {
                        &&& crates@.contains_key(id)
                        &&& has_match(artifacts, loaded_from(*main, id))
                        &&& external_tags@[id] matches CrateTag::External(pos)
                        &&& is_first_match(artifacts, loaded_from(*main, id), pos as int)
                        &&& pos < externals.len()
                    },
                forall|i: int|
                    0 <= i < it.index() && has_match(artifacts, loaded_from(*main, *#[trigger] it.seq()[i].0))
                        ==> external_tags@.contains_key(*it.seq()[i].0),
                forall|id: u32| #[trigger]
                    crates@.contains_key(id) ==> exists|i: int|
                        0 <= i < it.seq().len() && *it.seq()[i].0 == id,
        {
            let (crate_id, external) = entry;
            let path = path_of_external(external);
            proof {
                assert(crates@.contains_key(*crate_id) && crates@[*crate_id] == *external);
            }
            match position_of_path(&artifact_paths, path.as_str()) {
                Some(pos) => {
                    external_tags.insert(*crate_id, CrateTag::External(pos));
                },
                None => {},
            }
        }
        assert(forall|id: u32| #[trigger]
            crates@.contains_key(id) && has_match(artifacts, loaded_from(*main, id))
                ==> external_tags@.contains_key(id));
        CrateSet { main, externals, external_tags }
    }

    /// The crate for which the public API is being generated.
    pub fn main(&self) -> (r: &'c Crate)
        ensures
            *r == self.main_spec(),
    {
        self.main
    }

    /// The crate with the given tag.
    pub fn get(&self, tag: CrateTag) -> (r: &'c Crate)
        requires
            self.valid_tag(tag),
        ensures
            *r == self.crate_spec(tag),
    {
        match tag {
            CrateTag::Main => self.main,
            CrateTag::External(pos) => self.externals[pos],
        }
    }

    /// The tag of the provided external crate that corresponds to `crate_id`
    /// in the main crate's `external_crates`, if its rustdoc JSON was
    /// provided. Every tag handed out names a crate of this set.
    pub fn external_tag(&self, crate_id: u32) -> (r: Option<CrateTag>)
        ensures
            r == (if self.tags_spec().contains_key(crate_id) {
                Some(self.tags_spec()[crate_id])
            } else {
                None
            }),
            r matches Some(tag) ==> self.valid_tag(tag),
    {
        broadcast use vstd::std_specs::hash::group_hash_axioms;

        proof {
            use_type_invariant(self);
        }
        match self.external_tags.get(&crate_id) {
            Some(tag) => Some(*tag),
            None => None,
        }
    }

    /// The item with the given `id` in the crate with the given tag, if the
    /// crate's index has one.
    pub fn get_item(&self, tag: CrateTag, id: Id) -> (r: Option<&'c Item>)
        requires
            self.valid_tag(tag),
        ensures
            match r {
                Some(item) => crate_index(self.crate_spec(tag)).contains_key(id) && crate_index(
                    self.crate_spec(tag),
                )[id] == *item,
                None => !crate_index(self.crate_spec(tag)).contains_key(id),
            },
    {
        indexed_item(self.get(tag), &id)
    }
}

} // verus!
