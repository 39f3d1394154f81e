//! The decisions taken while building the rustdoc JSON of a crate and of the
//! external crates it re-exports: which library target names the JSON file,
//! which compiled artifacts are library dependencies, which external crates
//! are re-exported from, and how a dependency is documented.
//!
//! Running `cargo` and reading files is left to the caller; the functions here
//! take what was read as plain values.

use vstd::prelude::*;

use rustdoc_types::{Crate, Id, ItemSummary};

use crate::crate_set::{
    crate_id_of, crate_index, indexed_item, paths_equal, same_path, summary_crate_id,
};
use crate::text_order::{chars_of, compare_text, lemma_text_order_basics};

verus! {

/// Appends one character to a string.
///
/// Trusted: calls `String::push` of `std`, which appends the character.
#[verifier::external_body]
fn push_char(s: &mut String, c: char)
    ensures
        final(s)@ == old(s)@.push(c),
{
    s.push(c)
}

/// Whether two strings are the same text.
pub fn text_equal(a: &str, b: &str) -> (r: bool)
    ensures
        r == (a@ == b@),
{
    let c = compare_text(a, b);
    proof {
        lemma_text_order_basics(a@, b@);
    }
    c == 0
}

/// Whether `s` ends with `suffix`.
pub open spec fn ends_with_spec(s: Seq<char>, suffix: Seq<char>) -> bool {
    suffix.len() <= s.len() && s.skip(s.len() - suffix.len()) == suffix
}

/// Whether the text `s` ends with the text `suffix`.
pub fn ends_with(s: &str, suffix: &str) -> (r: bool)
    ensures
        r == ends_with_spec(s@, suffix@),
{
    let cs = chars_of(s);
    let cx = chars_of(suffix);
    if cx.len() > cs.len() {
        return false;
    }
    let offset = cs.len() - cx.len();
    let mut i: usize = 0;
    while i < cx.len()
        invariant
            cs@ == s@,
            cx@ == suffix@,
            offset == cs.len() - cx.len(),
            i <= cx.len(),
            forall|j: int| 0 <= j < i ==> cs@[offset + j] == cx@[j],
        decreases cx.len() - i,
    {
        if cs[offset + i] != cx[i] {
            proof {
                assert(s@.skip(offset as int)[i as int] != suffix@[i as int]);
            }
            return false;
        }
        i = i + 1;
    }
    assert(s@.skip(offset as int) =~= suffix@);
    true
}

/// The name of the JSON file (without extension) that rustdoc writes for a
/// crate: the crate's name with each `-` replaced by `_`.
pub open spec fn file_stem_spec(name: Seq<char>) -> Seq<char> {
    name.map_values(|c: char| if c == '-' { '_' } else { c })
}

/// The file stem has the name's length, has `_` where the name has `-`, and
/// keeps every other character of the name.
pub proof fn law_file_stem_replaces_only_dashes(name: Seq<char>)
    ensures
        file_stem_spec(name).len() == name.len(),
        forall|i: int| 0 <= i < name.len() && name[i] == '-' ==> #[trigger] file_stem_spec(name)[i] == '_',
        forall|i: int| 0 <= i < name.len() && name[i] != '-' ==> #[trigger] file_stem_spec(name)[i] == name[i],
{
}

/// The crate's name with each `-` replaced by `_`.
pub fn lib_file_stem(name: &str) -> (r: String)
    ensures
        r@ == file_stem_spec(name@),
{
    let chars = chars_of(name);
    let mut r = String::new();
    let mut i: usize = 0;
    while i < chars.len()
        invariant
            chars@ == name@,
            i <= chars.len(),
            r@ == file_stem_spec(chars@.take(i as int)),
        decreases chars.len() - i,
    {
        let c = chars[i];
        if c == '-' {
            push_char(&mut r, '_');
        } else {
            push_char(&mut r, c);
        }
        assert(file_stem_spec(chars@.take(i + 1)) =~= file_stem_spec(chars@.take(i as int)).push(
            if c == '-' { '_' } else { c },
        ));
        i = i + 1;
    }
    assert(chars@.take(chars.len() as int) =~= chars@);
    r
}

/// A target of a package, as `cargo metadata` describes it.
pub struct MetadataTarget {
    /// The kinds of the target, such as `lib` or `bin`.
    pub kind: Vec<String>,
    /// The name of the target.
    pub name: String,
}

/// A package, as `cargo metadata` describes it.
pub struct MetadataPackage {
    /// The path of the package's manifest.
    pub manifest_path: String,
    /// The targets of the package.
    pub targets: Vec<MetadataTarget>,
}

/// Whether a list of kinds holds `lib`.
pub open spec fn has_lib_kind(kinds: Seq<String>) -> bool {
    exists|i: int| 0 <= i < kinds.len() && #[trigger] kinds[i]@ == "lib"@
}

/// `p` is the first package whose manifest is `manifest`.
pub open spec fn is_first_package(packages: Seq<MetadataPackage>, manifest: Seq<char>, p: int) -> bool {
    &&& 0 <= p < packages.len()
    &&& packages[p].manifest_path@ == manifest
    &&& forall|j: int| 0 <= j < p ==> #[trigger] packages[j].manifest_path@ != manifest
}

/// `t` is the first library target among `targets`.
pub open spec fn is_first_lib_target(targets: Seq<MetadataTarget>, t: int) -> bool {
    &&& 0 <= t < targets.len()
    &&& has_lib_kind(targets[t].kind@)
    &&& forall|j: int| 0 <= j < t ==> !has_lib_kind(#[trigger] targets[j].kind@)
}

/// Whether the target kinds hold `lib`.
fn is_lib_target(kinds: &Vec<String>) -> (r: bool)
    ensures
        r == has_lib_kind(kinds@),
{
    let lib = "lib";
    proof {
        reveal_strlit("lib");
    }
    let mut i: usize = 0;
    while i < kinds.len()
        invariant
            i <= kinds.len(),
            lib@ == "lib"@,
            forall|j: int| 0 <= j < i ==> #[trigger] kinds@[j]@ != "lib"@,
        decreases kinds.len() - i,
    {
        if text_equal(kinds[i].as_str(), lib) {
            return true;
        }
        i = i + 1;
    }
    false
}

/// The name of the JSON file of the library of the package whose manifest
/// is `manifest_path`: the name of the first library target of the first
/// such package, with each `-` replaced by `_`. `None` when there is no such
/// package, or when it has no library target.
pub fn find_lib_name(packages: &Vec<MetadataPackage>, manifest_path: &str) -> (r: Option<String>)
    ensures
        match r {
            Some(name) => exists|p: int, t: int|
                is_first_package(packages@, manifest_path@, p) && is_first_lib_target(
                    packages@[p].targets@,
                    t,
                ) && name@ == file_stem_spec(#[trigger] packages@[p].targets@[t].name@),
            None => forall|p: int|
                is_first_package(packages@, manifest_path@, p) ==> forall|t: int|
                    !is_first_lib_target(#[trigger] packages@[p].targets@, t),
        },
{
    let mut p: usize = 0;
    while p < packages.len()
        invariant
            p <= packages.len(),
            forall|j: int| 0 <= j < p ==> #[trigger] packages@[j].manifest_path@ != manifest_path@,
        decreases packages.len() - p,
    {
        let package = &packages[p];
        if text_equal(package.manifest_path.as_str(), manifest_path) {
            let targets = &package.targets;
            let mut t: usize = 0;
            while t < targets.len()
                invariant
                    p < packages.len(),
                    forall|j: int| 0 <= j < p ==> #[trigger] packages@[j].manifest_path@ != manifest_path@,
                    packages@[p as int].manifest_path@ == manifest_path@,
                    targets@ == packages@[p as int].targets@,
                    t <= targets.len(),
                    forall|j: int| 0 <= j < t ==> !has_lib_kind(#[trigger] targets@[j].kind@),
                decreases targets.len() - t,
            {
                if is_lib_target(&targets[t].kind) {
                    let name = lib_file_stem(targets[t].name.as_str());
                    assert(is_first_package(packages@, manifest_path@, p as int));
                    assert(is_first_lib_target(packages@[p as int].targets@, t as int));
                    return Some(name);
                }
                t = t + 1;
            }
            assert forall|q: int| is_first_package(packages@, manifest_path@, q) implies forall|u: int|
                !is_first_lib_target(#[trigger] packages@[q].targets@, u) by {
                assert(q == p);
            }
            return None;
        }
        p = p + 1;
    }
    None
}

/// An entry of the `paths` map of a crate's rustdoc JSON, as far as
/// [`reexported_crate_ids`] reads it: whether the item is in the crate's
/// index, and the `crate_id` of the item.
pub struct PathEntry {
    /// Whether the crate's `index` holds the item.
    pub in_index: bool,
    /// The key of the item's crate in `external_crates` (`0` for the crate
    /// itself).
    pub crate_id: u32,
}

/// What [`reexported_crate_ids`] reads of the entry of the `paths` map of
/// `krate` for the item `id`: whether the index of `krate` holds the item,
/// and the item's `crate_id`.
pub fn path_entry(krate: &Crate, id: &Id, summary: &ItemSummary) -> (r: PathEntry)
    ensures
        r.in_index == crate_index(*krate).contains_key(*id),
        r.crate_id == summary_crate_id(*summary),
{
    PathEntry { in_index: indexed_item(krate, id).is_some(), crate_id: crate_id_of(summary) }
}

/// The entry names an item of an external crate that the crate's index
/// lacks: an item that the crate re-exports.
pub open spec fn is_reexport(e: PathEntry) -> bool {
    !e.in_index && e.crate_id != 0
}

/// Some entry among the first `n` of `entries` is a re-export from the crate
/// with key `c`.
pub open spec fn reexported_before(entries: Seq<PathEntry>, c: u32, n: int) -> bool {
    exists|i: int| 0 <= i < n && is_reexport(#[trigger] entries[i]) && entries[i].crate_id == c
}

/// The keys of the external crates that items are re-exported from: of each
/// entry that names an item missing from the crate's index and not of the
/// crate itself, its `crate_id`, each key once, in the order in which the
/// entries first name it.
pub fn reexported_crate_ids(entries: &Vec<PathEntry>) -> (r: Vec<u32>)
    ensures
        r@.no_duplicates(),
        forall|c: u32| r@.contains(c) <==> reexported_before(entries@, c, entries@.len() as int),
        forall|i: int, j: int, k: int|
            0 <= i < j < r@.len() && 0 <= k < entries@.len() && is_reexport(#[trigger] entries@[k])
                && entries@[k].crate_id == #[trigger] r@[j] ==> reexported_before(entries@, #[trigger] r@[i], k),
{
    let mut wanted: Vec<u32> = Vec::new();
    let mut n: usize = 0;
    while n < entries.len()
        invariant
            n <= entries.len(),
            wanted@.no_duplicates(),
            forall|c: u32| wanted@.contains(c) <==> reexported_before(entries@, c, n as int),
            forall|i: int, j: int, k: int|
                0 <= i < j < wanted@.len() && 0 <= k < n && is_reexport(#[trigger] entries@[k])
                    && entries@[k].crate_id == #[trigger] wanted@[j] ==> reexported_before(entries@, #[trigger] wanted@[i], k),
        decreases entries.len() - n,
    {
        let e = &entries[n];
        let ghost old_wanted = wanted@;
        let ghost c = e.crate_id;
        proof {
            // A re-export seen before `k` was seen before any later index.
            assert forall|x: u32, k: int, m: int|
                #![trigger reexported_before(entries@, x, k), reexported_before(entries@, x, m)]
                reexported_before(entries@, x, k) && k <= m implies reexported_before(entries@, x, m) by {
                let i = choose|i: int| 0 <= i < k && is_reexport(#[trigger] entries@[i]) && entries@[i].crate_id == x;
                assert(0 <= i < m && is_reexport(entries@[i]) && entries@[i].crate_id == x);
            }
        }
        if !e.in_index && e.crate_id != 0 && !contains_id(&wanted, e.crate_id) {
            wanted.push(e.crate_id);
            proof {
                assert(!reexported_before(entries@, c, n as int));
                assert(is_reexport(entries@[n as int]));
                assert forall|x: u32| wanted@.contains(x) <==> reexported_before(entries@, x, n + 1) by {
                    if x == c {
                        assert(wanted@[old_wanted.len() as int] == x);
                        assert(entries@[n as int].crate_id == x);
                    } else {
                        if wanted@.contains(x) {
                            let i = choose|i: int| 0 <= i < wanted@.len() && wanted@[i] == x;
                            assert(old_wanted[i] == x);
                            assert(old_wanted.contains(x));
                        }
                        if reexported_before(entries@, x, n + 1) {
                            let i = choose|i: int| 0 <= i < n + 1 && is_reexport(#[trigger] entries@[i]) && entries@[i].crate_id == x;
                            assert(i < n);
                            assert(reexported_before(entries@, x, n as int));
                            assert(old_wanted.contains(x));
                            let j = choose|j: int| 0 <= j < old_wanted.len() && old_wanted[j] == x;
                            assert(wanted@[j] == x);
                        }
                    }
                }
                assert forall|i: int, j: int, k: int|
                    0 <= i < j < wanted@.len() && 0 <= k < n + 1 && is_reexport(#[trigger] entries@[k])
                        && entries@[k].crate_id == #[trigger] wanted@[j] implies reexported_before(entries@, #[trigger] wanted@[i], k) by {
                    assert(wanted@[i] == old_wanted[i]);
                    if j == old_wanted.len() {
                        if k < n {
                            assert(reexported_before(entries@, c, n as int));
                        }
                        assert(old_wanted.contains(old_wanted[i]));
                    } else {
                        assert(wanted@[j] == old_wanted[j]);
                        if k == n {
                            assert(old_wanted.contains(old_wanted[j]));
                        }
                    }
                }
            }
        } else {
            proof {
                assert forall|x: u32| wanted@.contains(x) <==> reexported_before(entries@, x, n + 1) by {
                    if reexported_before(entries@, x, n + 1) {
                        let i = choose|i: int| 0 <= i < n + 1 && is_reexport(#[trigger] entries@[i]) && entries@[i].crate_id == x;
                        if i < n {
                            assert(reexported_before(entries@, x, n as int));
                        } else {
                            assert(x == c);
                        }
                    }
                }
                assert forall|i: int, j: int, k: int|
                    0 <= i < j < wanted@.len() && 0 <= k < n + 1 && is_reexport(#[trigger] entries@[k])
                        && entries@[k].crate_id == #[trigger] wanted@[j] implies reexported_before(entries@, #[trigger] wanted@[i], k) by {
                    if k == n {
                        assert(wanted@.contains(wanted@[j]));
                        assert(reexported_before(entries@, wanted@[j], n as int));
                        let k2 = choose|k2: int| 0 <= k2 < n && is_reexport(#[trigger] entries@[k2]) && entries@[k2].crate_id == wanted@[j];
                        assert(reexported_before(entries@, wanted@[i], k2));
                    }
                }
            }
        }
        n = n + 1;
    }
    wanted
}

/// Whether `ids` holds `id`.
fn contains_id(ids: &Vec<u32>, id: u32) -> (r: bool)
    ensures
        r == ids@.contains(id),
{
    let mut i: usize = 0;
    while i < ids.len()
        invariant
            i <= ids.len(),
            forall|j: int| 0 <= j < i ==> ids@[j] != id,
        decreases ids.len() - i,
    {
        if ids[i] == id {
            return true;
        }
        i = i + 1;
    }
    false
}

/// The strings of a list, each by its characters.
pub open spec fn strings_view(v: Seq<String>) -> Seq<Seq<char>> {
    v.map_values(|s: String| s@)
}

/// A copy of a list of strings.
fn copy_strings(v: &Vec<String>) -> (r: Vec<String>)
    ensures
        strings_view(r@) == strings_view(v@),
{
    let mut r: Vec<String> = Vec::new();
    let mut i: usize = 0;
    while i < v.len()
        invariant
            i <= v.len(),
            strings_view(r@) == strings_view(v@.take(i as int)),
        decreases v.len() - i,
    {
        r.push(v[i].clone());
        assert(strings_view(v@.take(i + 1)) =~= strings_view(v@.take(i as int)).push(v@[i as int]@));
        i = i + 1;
    }
    assert(v@.take(v.len() as int) =~= v@);
    r
}

#[verifier::external_type_specification]
#[verifier::external_body]
pub struct ExJsonValue(serde_json::Value);

/// The JSON value that a text parses into, if it is JSON.
pub uninterp spec fn parsed_json(text: Seq<char>) -> Option<serde_json::Value>;

/// The member `key` of a JSON object, or `null` where the value is no object
/// or has no such member.
pub uninterp spec fn json_member(v: serde_json::Value, key: Seq<char>) -> serde_json::Value;

/// The text of a JSON string, if the value is a string.
pub uninterp spec fn json_text(v: serde_json::Value) -> Option<Seq<char>>;

/// The elements of a JSON array, if the value is an array.
pub uninterp spec fn json_elements(v: serde_json::Value) -> Option<Seq<serde_json::Value>>;

/// Parses a text as JSON.
///
/// Trusted: calls `serde_json::from_str::<serde_json::Value>` and drops the
/// error; the contract claims that the value is the one that [`parsed_json`]
/// names (objects are kept in sorted maps, so the text alone fixes the
/// value).
#[verifier::external_body]
fn parse_json(text: &str) -> (r: Option<serde_json::Value>)
    ensures
        r == parsed_json(text@),
{
    serde_json::from_str::<serde_json::Value>(text).ok()
}

/// The member `key` of a JSON value.
///
/// Trusted: calls `Index::index` of `serde_json::Value` with a `&str`, which
/// gives `null` where the value is no object or lacks the member; the
/// contract claims that the value is the one that [`json_member`] names.
#[verifier::external_body]
fn member<'a>(v: &'a serde_json::Value, key: &str) -> (r: &'a serde_json::Value)
    ensures
        *r == json_member(*v, key@),
{
    &v[key]
}

/// The text of a JSON string.
///
/// Trusted: calls `serde_json::Value::as_str`; the contract claims that the
/// text is the one that [`json_text`] names.
#[verifier::external_body]
fn text_of(v: &serde_json::Value) -> (r: Option<&str>)
    ensures
        match r {
            Some(t) => json_text(*v) == Some(t@),
            None => json_text(*v) is None,
        },
{
    v.as_str()
}

/// The elements of a JSON array.
///
/// Trusted: calls `serde_json::Value::as_array`; the contract claims that the
/// elements are the ones that [`json_elements`] names.
#[verifier::external_body]
fn elements_of(v: &serde_json::Value) -> (r: Option<&Vec<serde_json::Value>>)
    ensures
        match r {
            Some(a) => json_elements(*v) == Some(a@),
            None => json_elements(*v) is None,
        },
{
    v.as_array()
}

/// Whether a JSON value is a string.
pub open spec fn is_json_string(v: serde_json::Value) -> bool {
    json_text(v) is Some
}

/// The texts of the strings among JSON values, in order.
pub open spec fn texts_among(values: Seq<serde_json::Value>) -> Seq<Seq<char>> {
    values.filter(|v: serde_json::Value| is_json_string(v)).map_values(
        |v: serde_json::Value| json_text(v)->0,
    )
}

/// The texts of the strings in a JSON array; none if the value is no array.
pub open spec fn json_strings_spec(v: serde_json::Value) -> Seq<Seq<char>> {
    match json_elements(v) {
        Some(values) => texts_among(values),
        None => Seq::empty(),
    }
}

/// The text of a JSON string, as a `String`.
fn string_of(v: &serde_json::Value) -> (r: Option<String>)
    ensures
        match r {
            Some(s) => json_text(*v) == Some(s@),
            None => json_text(*v) is None,
        },
{
    match text_of(v) {
        Some(t) => Some(String::from_str(t)),
        None => None,
    }
}

/// The texts of the strings in a JSON array (none if it is no array).
fn json_strings(v: &serde_json::Value) -> (r: Vec<String>)
    ensures
        strings_view(r@) == json_strings_spec(*v),
{
    let mut r: Vec<String> = Vec::new();
    match elements_of(v) {
        None => {
            assert(strings_view(r@) =~= Seq::<Seq<char>>::empty());
        },
        Some(values) => {
            let ghost is_str = |x: serde_json::Value| is_json_string(x);
            let ghost text = |x: serde_json::Value| json_text(x)->0;
            let mut i: usize = 0;
            while i < values.len()
                invariant
                    i <= values.len(),
                    is_str == (|x: serde_json::Value| is_json_string(x)),
                    text == (|x: serde_json::Value| json_text(x)->0),
                    strings_view(r@) == values@.take(i as int).filter(is_str).map_values(text),
                decreases values.len() - i,
            {
                let ghost before = r@;
                let elem = &values[i];
                proof {
                    assert(values@.take(i + 1) =~= values@.take(i as int).push(*elem));
                    values@.take(i as int).lemma_filter_push(*elem, is_str);
                }
                match string_of(elem) {
                    Some(t) => {
                        r.push(t);
                        assert(strings_view(r@) =~= strings_view(before).push(text(*elem)));
                        assert(values@.take(i as int).filter(is_str).push(*elem).map_values(text)
                            =~= values@.take(i as int).filter(is_str).map_values(text).push(text(*elem)));
                    },
                    None => {},
                }
                i = i + 1;
            }
            assert(values@.take(values.len() as int) =~= values@);
        },
    }
    r
}

/// What a JSON message that `cargo` prints while building (with
/// `--message-format=json`) says, as far as finding the library dependencies
/// of a crate goes. Each field holds what the message holds where it has the
/// expected JSON type; values of another type count as absent.
pub struct CargoMessage {
    /// The message's `reason`, if it is a string.
    pub reason: Option<String>,
    /// The strings in the array `target.kind` (none if it is no array).
    pub target_kinds: Vec<String>,
    /// The target's `name`, if it is a string.
    pub target_name: Option<String>,
    /// The package's `manifest_path`, if it is a string.
    pub manifest_path: Option<String>,
    /// The strings in the array `features` (none if it is no array).
    pub features: Vec<String>,
    /// The strings in the array `filenames` (none if it is no array).
    pub filenames: Vec<String>,
}

/// What a [`CargoMessage`] holds, each string by its characters.
pub struct CargoMessageView {
    pub reason: Option<Seq<char>>,
    pub target_kinds: Seq<Seq<char>>,
    pub target_name: Option<Seq<char>>,
    pub manifest_path: Option<Seq<char>>,
    pub features: Seq<Seq<char>>,
    pub filenames: Seq<Seq<char>>,
}

/// The characters of an optional string.
pub open spec fn opt_view(s: Option<String>) -> Option<Seq<char>> {
    match s {
        Some(t) => Some(t@),
        None => None,
    }
}

impl View for CargoMessage {
    type V = CargoMessageView;

    open spec fn view(&self) -> CargoMessageView {
        CargoMessageView {
            reason: opt_view(self.reason),
            target_kinds: strings_view(self.target_kinds@),
            target_name: opt_view(self.target_name),
            manifest_path: opt_view(self.manifest_path),
            features: strings_view(self.features@),
            filenames: strings_view(self.filenames@),
        }
    }
}

/// What a JSON message of `cargo` says.
pub open spec fn message_of_json(v: serde_json::Value) -> CargoMessageView {
    let target = json_member(v, "target"@);
    CargoMessageView {
        reason: json_text(json_member(v, "reason"@)),
        target_kinds: json_strings_spec(json_member(target, "kind"@)),
        target_name: json_text(json_member(target, "name"@)),
        manifest_path: json_text(json_member(v, "manifest_path"@)),
        features: json_strings_spec(json_member(v, "features"@)),
        filenames: json_strings_spec(json_member(v, "filenames"@)),
    }
}

/// Reads what a JSON message of `cargo` says.
pub fn cargo_message(v: &serde_json::Value) -> (r: CargoMessage)
    ensures
        r@ == message_of_json(*v),
{
    let target = member(v, "target");
    CargoMessage {
        reason: string_of(member(v, "reason")),
        target_kinds: json_strings(member(target, "kind")),
        target_name: string_of(member(target, "name")),
        manifest_path: string_of(member(v, "manifest_path")),
        features: json_strings(member(v, "features")),
        filenames: json_strings(member(v, "filenames")),
    }
}

/// A compiled library that the crate under analysis depends on.
pub struct DepArtifact {
    /// The name of the dependency's library target.
    pub name: String,
    /// The path of the compiled `.rmeta` or `.rlib`.
    pub artifact: String,
    /// The path of the dependency's manifest.
    pub manifest_path: String,
    /// The features the dependency is compiled with.
    pub features: Vec<String>,
}

/// What a [`DepArtifact`] holds, each string by its characters.
pub struct DepArtifactView {
    pub name: Seq<char>,
    pub artifact: Seq<char>,
    pub manifest_path: Seq<char>,
    pub features: Seq<Seq<char>>,
}

impl View for DepArtifact {
    type V = DepArtifactView;

    open spec fn view(&self) -> DepArtifactView {
        DepArtifactView {
            name: self.name@,
            artifact: self.artifact@,
            manifest_path: self.manifest_path@,
            features: strings_view(self.features@),
        }
    }
}

/// A list of artifacts, each by its view.
pub open spec fn artifacts_view(v: Seq<DepArtifact>) -> Seq<DepArtifactView> {
    v.map_values(|a: DepArtifact| a@)
}

/// The message reports a compiled library of a package other than the one
/// whose manifest is `own_manifest`.
pub open spec fn reports_dependency_library(msg: CargoMessageView, own_manifest: Seq<char>) -> bool {
    &&& msg.reason == Some("compiler-artifact"@)
    &&& msg.target_kinds.contains("lib"@)
    &&& msg.manifest_path matches Some(m) && !paths_equal(m, own_manifest)
}

/// A file name of a compiled library: one that ends with `.rmeta` or `.rlib`.
pub open spec fn is_library_file(f: Seq<char>) -> bool {
    ends_with_spec(f, ".rmeta"@) || ends_with_spec(f, ".rlib"@)
}

/// The artifact that a message reporting a dependency library gives for one
/// of its library files.
pub open spec fn artifact_for(msg: CargoMessageView, file: Seq<char>) -> DepArtifactView {
    DepArtifactView {
        name: match msg.target_name {
            Some(n) => n,
            None => Seq::empty(),
        },
        artifact: file,
        manifest_path: msg.manifest_path->0,
        features: msg.features,
    }
}

/// The library dependencies that one `cargo` message reports: when the
/// message reports a compiled library of another package than the one whose
/// manifest is `own_manifest`, one artifact for each of its `.rmeta` and
/// `.rlib` files, in order; otherwise none.
pub open spec fn message_artifacts(msg: CargoMessageView, own_manifest: Seq<char>) -> Seq<DepArtifactView> {
    if reports_dependency_library(msg, own_manifest) {
        msg.filenames.filter(|f: Seq<char>| is_library_file(f)).map_values(
            |f: Seq<char>| artifact_for(msg, f),
        )
    } else {
        Seq::empty()
    }
}

/// The library dependencies that one `cargo` message reports.
pub fn dependency_artifacts(msg: &CargoMessage, own_manifest: &str) -> (r: Vec<DepArtifact>)
    ensures
        artifacts_view(r@) == message_artifacts(msg@, own_manifest@),
{
    let mut r: Vec<DepArtifact> = Vec::new();
    let compiler_artifact = "compiler-artifact";
    proof {
        reveal_strlit("compiler-artifact");
        reveal_strlit("lib");
    }
    let is_artifact = match &msg.reason {
        Some(reason) => text_equal(reason.as_str(), compiler_artifact),
        None => false,
    };
    let is_lib = is_lib_target(&msg.target_kinds);
    proof {
        if has_lib_kind(msg.target_kinds@) {
            let i = choose|i: int| 0 <= i < msg.target_kinds@.len() && #[trigger] msg.target_kinds@[i]@ == "lib"@;
            assert(strings_view(msg.target_kinds@)[i] == "lib"@);
        }
        if msg@.target_kinds.contains("lib"@) {
            let i = choose|i: int| 0 <= i < msg@.target_kinds.len() && msg@.target_kinds[i] == "lib"@;
            assert(msg.target_kinds@[i]@ == "lib"@);
        }
    }
    if !is_artifact || !is_lib {
        assert(artifacts_view(r@) =~= message_artifacts(msg@, own_manifest@));
        return r;
    }
    let manifest = match &msg.manifest_path {
        Some(m) => m,
        None => {
            assert(artifacts_view(r@) =~= message_artifacts(msg@, own_manifest@));
            return r;
        },
    };
    // Skip the crate itself; we only want its dependencies.
    if same_path(manifest.as_str(), own_manifest) {
        assert(artifacts_view(r@) =~= message_artifacts(msg@, own_manifest@));
        return r;
    }
    let rmeta = ".rmeta";
    let rlib = ".rlib";
    proof {
        reveal_strlit(".rmeta");
        reveal_strlit(".rlib");
    }
    let ghost m = msg@;
    let ghost files = m.filenames;
    let ghost lib_file = |f: Seq<char>| is_library_file(f);
    let ghost make = |f: Seq<char>| artifact_for(m, f);
    let mut i: usize = 0;
    while i < msg.filenames.len()
        invariant
            i <= msg.filenames.len(),
            m == msg@,
            files == strings_view(msg.filenames@),
            lib_file == (|f: Seq<char>| is_library_file(f)),
            make == (|f: Seq<char>| artifact_for(m, f)),
            rmeta@ == ".rmeta"@,
            rlib@ == ".rlib"@,
            msg.manifest_path == Some(*manifest),
            artifacts_view(r@) == files.take(i as int).filter(lib_file).map_values(make),
        decreases msg.filenames.len() - i,
    {
        let f = &msg.filenames[i];
        let keep = ends_with(f.as_str(), rmeta) || ends_with(f.as_str(), rlib);
        let ghost before = r@;
        proof {
            assert(files.take(i + 1) =~= files.take(i as int).push(f@));
            assert(keep == lib_file(f@));
            files.take(i as int).lemma_filter_push(f@, lib_file);
        }
        if keep {
            let name = match &msg.target_name {
                Some(n) => n.clone(),
                None => String::new(),
            };
            let artifact = DepArtifact {
                name,
                artifact: f.clone(),
                manifest_path: manifest.clone(),
                features: copy_strings(&msg.features),
            };
            r.push(artifact);
            assert(artifacts_view(r@) =~= artifacts_view(before).push(make(f@)));
            assert(files.take(i as int).filter(lib_file).push(f@).map_values(make)
                =~= files.take(i as int).filter(lib_file).map_values(make).push(make(f@)));
        }
        i = i + 1;
    }
    assert(files.take(msg.filenames.len() as int) =~= files);
    r
}

/// `line` without a carriage return at its end, if it has one.
pub open spec fn without_cr(line: Seq<char>) -> Seq<char> {
    if line.len() > 0 && line.last() == '\r' {
        line.drop_last()
    } else {
        line
    }
}

/// The lines of a text, as `str::lines` gives them: the text is split after
/// each `\n`, each piece loses its `\n` and then a `\r` before it, and an
/// empty piece after a final `\n` is no line.
pub open spec fn lines_of(s: Seq<char>) -> Seq<Seq<char>>
    decreases s.len(),
{
    if s.len() == 0 {
        Seq::empty()
    } else {
        match s.index_of_first('\n') {
            Some(i) => {
                proof {
                    s.index_of_first_ensures('\n');
                }
                seq![without_cr(s.take(i))] + lines_of(s.skip(i + 1))
            },
            None => seq![s],
        }
    }
}

/// The characters `from..to` of `cs`, as a string.
fn string_from_chars(cs: &Vec<char>, from: usize, to: usize) -> (r: String)
    requires
        from <= to <= cs.len(),
    ensures
        r@ == cs@.subrange(from as int, to as int),
{
    let mut r = String::new();
    let mut i = from;
    while i < to
        invariant
            from <= i <= to <= cs.len(),
            r@ == cs@.subrange(from as int, i as int),
        decreases to - i,
    {
        push_char(&mut r, cs[i]);
        assert(cs@.subrange(from as int, i + 1) =~= cs@.subrange(from as int, i as int).push(cs@[i as int]));
        i = i + 1;
    }
    r
}

/// The lines of a text, as `str::lines` gives them.
pub fn lines(s: &str) -> (r: Vec<String>)
    ensures
        strings_view(r@) == lines_of(s@),
{
    let cs = chars_of(s);
    let n = cs.len();
    let mut r: Vec<String> = Vec::new();
    let mut start: usize = 0;
    assert(cs@.skip(0) =~= cs@);
    while start < n
        invariant
            cs@ == s@,
            n == cs.len(),
            start <= n,
            strings_view(r@) + lines_of(cs@.skip(start as int)) == lines_of(s@),
        decreases n - start,
    {
        let ghost t = cs@.skip(start as int);
        let mut j = start;
        while j < n && cs[j] != '\n'
            invariant
                start <= j <= n,
                n == cs.len(),
                forall|k: int| start <= k < j ==> cs@[k] != '\n',
            decreases n - j,
        {
            j = j + 1;
        }
        proof {
            t.index_of_first_ensures('\n');
        }
        let ghost before = r@;
        if j < n {
            let mut end = j;
            if end > start && cs[end - 1] == '\r' {
                end = end - 1;
            }
            let line = string_from_chars(&cs, start, end);
            r.push(line);
            proof {
                let k = j - start;
                assert(t[k] == '\n');
                assert forall|x: int| 0 <= x < k implies t[x] != '\n' by {
                    assert(t[x] == cs@[start + x]);
                }
                assert(t.index_of_first('\n') == Some(k as int));
                assert(without_cr(t.take(k as int)) =~= cs@.subrange(start as int, end as int));
                assert(t.skip(k + 1) =~= cs@.skip(j + 1));
                assert(strings_view(r@) =~= strings_view(before).push(line@));
                assert(lines_of(t) == seq![without_cr(t.take(k as int))] + lines_of(t.skip(k + 1)));
                assert(strings_view(r@) + lines_of(cs@.skip(j + 1)) =~= strings_view(before) + lines_of(t));
            }
            start = j + 1;
        } else {
            let line = string_from_chars(&cs, start, n);
            r.push(line);
            proof {
                assert(!t.contains('\n')) by {
                    if t.contains('\n') {
                        let x = choose|x: int| 0 <= x < t.len() && t[x] == '\n';
                        assert(cs@[start + x] == '\n');
                    }
                }
                assert(t =~= cs@.subrange(start as int, n as int));
                assert(lines_of(t) == seq![t]);
                assert(cs@.skip(n as int) =~= Seq::<char>::empty());
                assert(strings_view(r@) =~= strings_view(before).push(line@));
                assert(strings_view(r@) + lines_of(cs@.skip(n as int)) =~= strings_view(before) + lines_of(t));
            }
            start = n;
        }
    }
    assert(cs@.skip(n as int) =~= Seq::<char>::empty());
    assert(strings_view(r@) =~= strings_view(r@) + lines_of(cs@.skip(n as int)));
    r
}

/// The library dependencies that one line of `cargo`'s output reports: those
/// of the message it holds, if it is JSON; none otherwise.
pub open spec fn line_artifacts(line: Seq<char>, own_manifest: Seq<char>) -> Seq<DepArtifactView> {
    match parsed_json(line) {
        Some(v) => message_artifacts(message_of_json(v), own_manifest),
        None => Seq::empty(),
    }
}

/// The library dependencies that lines of `cargo`'s output report, line after
/// line.
pub open spec fn output_artifacts(lines: Seq<Seq<char>>, own_manifest: Seq<char>) -> Seq<DepArtifactView>
    decreases lines.len(),
{
    if lines.len() == 0 {
        Seq::empty()
    } else {
        output_artifacts(lines.drop_last(), own_manifest) + line_artifacts(lines.last(), own_manifest)
    }
}

/// The library dependencies that the output of a `cargo` build (with
/// `--message-format=json`) reports for the package whose manifest is
/// `own_manifest`: for each line of the output, in order, those of the
/// message it holds; lines that are not JSON report none.
pub fn dependency_artifacts_in_output(stdout: &str, own_manifest: &str) -> (r: Vec<DepArtifact>)
    ensures
        artifacts_view(r@) == output_artifacts(lines_of(stdout@), own_manifest@),
{
    let all = lines(stdout);
    let ghost ls = lines_of(stdout@);
    let mut r: Vec<DepArtifact> = Vec::new();
    let mut i: usize = 0;
    while i < all.len()
        invariant
            i <= all.len(),
            strings_view(all@) == ls,
            artifacts_view(r@) == output_artifacts(ls.take(i as int), own_manifest@),
        decreases all.len() - i,
    {
        let ghost before = r@;
        let line = &all[i];
        proof {
            assert(ls.take(i + 1).drop_last() =~= ls.take(i as int));
            assert(ls.take(i + 1).last() == line@);
        }
        match parse_json(line.as_str()) {
            Some(v) => {
                let msg = cargo_message(&v);
                let mut found = dependency_artifacts(&msg, own_manifest);
                r.append(&mut found);
                assert(artifacts_view(r@) =~= artifacts_view(before) + line_artifacts(line@, own_manifest@));
            },
            None => {
                assert(artifacts_view(r@) =~= artifacts_view(before) + line_artifacts(line@, own_manifest@));
            },
        }
        i = i + 1;
    }
    assert(ls.take(all.len() as int) =~= ls);
    r
}

/// The first dependency whose artifact is the same path as `path`, if any.
pub fn find_dependency(deps: &Vec<DepArtifact>, path: &str) -> (r: Option<usize>)
    ensures
        match r {
            Some(i) => i < deps@.len() && paths_equal(deps@[i as int].artifact@, path@) && forall|j: int|
                0 <= j < i ==> !paths_equal(#[trigger] deps@[j].artifact@, path@),
            None => forall|j: int| 0 <= j < deps@.len() ==> !paths_equal(#[trigger] deps@[j].artifact@, path@),
        },
{
    let mut i: usize = 0;
    while i < deps.len()
        invariant
            i <= deps.len(),
            forall|j: int| 0 <= j < i ==> !paths_equal(#[trigger] deps@[j].artifact@, path@),
        decreases deps.len() - i,
    {
        if same_path(deps[i].artifact.as_str(), path) {
            return Some(i);
        }
        i = i + 1;
    }
    None
}

/// The `cargo` arguments with which a dependency is documented: without its
/// default features, and with exactly the features it is compiled with.
pub open spec fn doc_args_spec(features: Seq<Seq<char>>) -> Seq<Seq<char>> {
    if features.len() == 0 {
        seq!["--no-default-features"@]
    } else {
        seq!["--no-default-features"@, "--features="@ + comma_joined(features)]
    }
}

/// The strings of `parts`, with a comma between each two.
pub open spec fn comma_joined(parts: Seq<Seq<char>>) -> Seq<char>
    decreases parts.len(),
{
    if parts.len() == 0 {
        Seq::empty()
    } else if parts.len() == 1 {
        parts[0]
    } else {
        comma_joined(parts.drop_last()) + seq![','] + parts.last()
    }
}

/// One string joined with commas is itself.
pub proof fn law_comma_joined_one(f: Seq<char>)
    ensures
        comma_joined(seq![f]) == f,
{
}

/// Joining two non-empty runs of strings with commas joins each run and puts
/// a comma between them: so every string appears, in order, with a comma
/// between each two.
pub proof fn law_comma_joined_concatenates(a: Seq<Seq<char>>, b: Seq<Seq<char>>)
    requires
        a.len() > 0,
        b.len() > 0,
    ensures
        comma_joined(a + b) == comma_joined(a) + seq![','] + comma_joined(b),
    decreases b.len(),
{
    if b.len() == 1 {
        assert((a + b).drop_last() =~= a);
        assert((a + b).last() == b[0]);
        assert(comma_joined(b) == b[0]);
    } else {
        law_comma_joined_concatenates(a, b.drop_last());
        assert((a + b).drop_last() =~= a + b.drop_last());
        assert((a + b).last() == b.last());
        assert(comma_joined(a + b) =~= comma_joined(a) + seq![','] + comma_joined(b));
    }
}

/// A dependency is documented without default features, and, when it has
/// features, with one more argument that names all of them, in order, joined
/// with commas; no feature is left out.
pub proof fn law_doc_args_name_every_feature(features: Seq<Seq<char>>)
    ensures
        doc_args_spec(features)[0] == "--no-default-features"@,
        features.len() == 0 ==> doc_args_spec(features).len() == 1,
        features.len() > 0 ==> doc_args_spec(features).len() == 2 && doc_args_spec(features)[1]
            == "--features="@ + comma_joined(features),
        features.len() == 1 ==> doc_args_spec(features)[1] == "--features="@ + features[0],
        forall|k: int|
            0 < k < features.len() ==> #[trigger] comma_joined(features) == comma_joined(features.take(k))
                + seq![','] + comma_joined(features.skip(k)),
{
    assert forall|k: int| 0 < k < features.len() implies #[trigger] comma_joined(features)
        == comma_joined(features.take(k)) + seq![','] + comma_joined(features.skip(k)) by {
        assert(features =~= features.take(k) + features.skip(k));
        law_comma_joined_concatenates(features.take(k), features.skip(k));
    }
    if features.len() == 1 {
        assert(features =~= seq![features[0]]);
    }
}

/// The arguments of `cargo rustdoc` that select the features of a
/// dependency: `--no-default-features`, then, if it has features,
/// `--features=` followed by the features separated by commas.
pub fn dependency_doc_args(features: &Vec<String>) -> (r: Vec<String>)
    ensures
        strings_view(r@) == doc_args_spec(strings_view(features@)),
{
    let mut r: Vec<String> = Vec::new();
    r.push(String::from_str("--no-default-features"));
    if features.len() == 0 {
        assert(strings_view(r@) =~= doc_args_spec(strings_view(features@)));
        return r;
    }
    let mut arg = String::from_str("--features=");
    let ghost fs = strings_view(features@);
    let mut i: usize = 0;
    while i < features.len()
        invariant
            i <= features.len(),
            fs == strings_view(features@),
            arg@ == "--features="@ + comma_joined(fs.take(i as int)),
        decreases features.len() - i,
    {
        if i > 0 {
            let comma = ",";
            proof {
                reveal_strlit(",");
            }
            arg.append(comma);
        }
        arg.append(features[i].as_str());
        proof {
            let next = fs.take(i + 1);
            assert(next.drop_last() =~= fs.take(i as int));
            if i == 0 {
                assert(comma_joined(next) == next[0]);
                assert(fs.take(0) =~= Seq::<Seq<char>>::empty());
            }
            assert(arg@ =~= "--features="@ + comma_joined(next));
        }
        i = i + 1;
    }
    assert(fs.take(features.len() as int) =~= fs);
    r.push(arg);
    assert(strings_view(r@) =~= doc_args_spec(strings_view(features@)));
    r
}

} // verus!
