use std::collections::HashMap;
use std::path::PathBuf;

use rustdoc_types::{
    Crate, ExternalCrate, Generics, Id, Impl, Item, ItemEnum, ItemKind, ItemSummary, Module, Path,
    Target, Type, Visibility,
};

use public_api_tricks::build_plan::path_entry;

use public_api_tricks::crate_set::{loaded_from_path, parse_rustdoc_json};
use public_api_tricks::Error;
use public_api_tricks::intermediate_public_item::{IntermediatePublicItem, PathComponent};
use public_api_tricks::tokens::Token;
use public_api_tricks::{CrateSet, CrateTag, PublicItem};

fn item(id: u32, inner: ItemEnum) -> Item {
    Item {
        id: Id(id),
        crate_id: 0,
        name: Some(format!("item{id}")),
        span: None,
        visibility: Visibility::Public,
        docs: None,
        links: HashMap::new(),
        attrs: Vec::new(),
        deprecation: None,
        stability: None,
        const_stability: None,
        inner,
    }
}

fn module(id: u32) -> Item {
    item(id, ItemEnum::Module(Module { is_crate: false, items: Vec::new(), is_stripped: false }))
}

fn impl_item(id: u32, of_trait: bool) -> Item {
    let trait_ = if of_trait {
        Some(Path { path: "Clone".to_string(), id: Id(99), args: None })
    } else {
        None
    };
    item(
        id,
        ItemEnum::Impl(Impl {
            is_unsafe: false,
            generics: Generics { params: Vec::new(), where_predicates: Vec::new() },
            provided_trait_methods: Vec::new(),
            trait_,
            for_: Type::Primitive("u8".to_string()),
            items: Vec::new(),
            is_negative: false,
            is_synthetic: false,
            blanket_impl: None,
        }),
    )
}

fn krate(items: Vec<Item>, externals: Vec<(u32, &str)>) -> Crate {
    let mut index = HashMap::new();
    for i in items {
        index.insert(i.id, i);
    }
    let mut external_crates = HashMap::new();
    for (id, path) in externals {
        external_crates.insert(
            id,
            ExternalCrate {
                name: format!("dep{id}"),
                html_root_url: None,
                path: PathBuf::from(path),
            },
        );
    }
    Crate {
        root: Id(0),
        crate_version: None,
        includes_private: false,
        index,
        paths: HashMap::new(),
        external_crates,
        target: Target { triple: "x86_64-unknown-linux-gnu".to_string(), target_features: Vec::new() },
        format_version: 57,
    }
}

#[test]
fn tags_follow_artifact_paths() {
    let main = krate(
        vec![module(0)],
        vec![(1, "/t/deps/liba.rmeta"), (2, "/t/deps/libb.rmeta"), (3, "/t/deps/libstd.rlib")],
    );
    let a = krate(vec![module(5)], vec![]);
    let b = krate(vec![module(6)], vec![]);
    let set = CrateSet::new(
        &main,
        vec![&b, &a],
        vec!["/t/deps/libb.rmeta".to_string(), "/t/deps/liba.rmeta".to_string()],
    );
    assert_eq!(set.external_tag(1), Some(CrateTag::External(1)));
    assert_eq!(set.external_tag(2), Some(CrateTag::External(0)));
    assert_eq!(set.external_tag(3), None);
    assert_eq!(set.external_tag(4), None);
    assert!(std::ptr::eq(set.get(CrateTag::Main), &main));
    assert!(std::ptr::eq(set.main(), &main));
    assert!(std::ptr::eq(set.get(CrateTag::External(0)), &b));
    assert!(std::ptr::eq(set.get(set.external_tag(1).unwrap()), &a));
}

#[test]
fn paths_are_compared_as_paths() {
    let main = krate(vec![], vec![(1, "/t/deps//liba.rmeta")]);
    let a = krate(vec![], vec![]);
    let set = CrateSet::new(&main, vec![&a], vec!["/t/deps/liba.rmeta".to_string()]);
    assert_eq!(set.external_tag(1), Some(CrateTag::External(0)));
}

#[test]
fn the_first_matching_artifact_wins() {
    let main = krate(vec![], vec![(7, "/t/liba.rmeta")]);
    let a = krate(vec![], vec![]);
    let set = CrateSet::new(
        &main,
        vec![&a, &a],
        vec!["/t/liba.rmeta".to_string(), "/t/liba.rmeta".to_string()],
    );
    assert_eq!(set.external_tag(7), Some(CrateTag::External(0)));
}

#[test]
fn no_externals_no_tags() {
    let main = krate(vec![], vec![(1, "/t/liba.rmeta")]);
    let set = CrateSet::new(&main, Vec::new(), Vec::new());
    assert_eq!(set.external_tag(1), None);
}

#[test]
fn items_are_looked_up_in_the_tagged_crate() {
    let main = krate(vec![module(1)], vec![(1, "/t/liba.rmeta")]);
    let a = krate(vec![module(2)], vec![]);
    let set = CrateSet::new(&main, vec![&a], vec!["/t/liba.rmeta".to_string()]);
    assert_eq!(set.get_item(CrateTag::Main, Id(1)).map(|i| i.id), Some(Id(1)));
    assert!(set.get_item(CrateTag::Main, Id(2)).is_none());
    assert_eq!(set.get_item(CrateTag::External(0), Id(2)).map(|i| i.id), Some(Id(2)));
    assert!(set.get_item(CrateTag::External(0), Id(1)).is_none());
}

#[test]
fn loaded_from_path_reads_external_crates() {
    let main = krate(vec![], vec![(3, "/t/libc.rlib")]);
    assert_eq!(loaded_from_path(&main, 3), Some("/t/libc.rlib".to_string()));
    assert_eq!(loaded_from_path(&main, 4), None);
}

fn component<'c>(item: &'c Item, sortable: &str, renamed: Option<&str>) -> PathComponent<'c> {
    PathComponent {
        item,
        overridden_name: renamed.map(String::from),
        sortable_name: sortable.to_string(),
    }
}

#[test]
fn intermediate_item_reads_its_path() {
    let m = module(1);
    let f = module(2);
    let parent = Some((CrateTag::External(3), Id(7)));
    let i = IntermediatePublicItem::new(
        vec![component(&m, "0-krate", None), component(&f, "1-f", None)],
        parent,
        (CrateTag::Main, Id(2)),
    );
    assert_eq!(i.tag(), CrateTag::Main);
    assert_eq!(i.parent(), parent);
    assert_eq!(i.item().id, Id(2));
    assert_eq!(i.path().len(), 2);
    assert_eq!(i.sortable_path(), vec!["0-krate".to_string(), "1-f".to_string()]);
    assert!(!i.path_contains_renamed_item());
}

#[test]
fn intermediate_item_sees_renamed_components() {
    let m = module(1);
    let f = module(2);
    let i = IntermediatePublicItem::new(
        vec![component(&m, "0-krate", Some("other")), component(&f, "1-f", None)],
        None,
        (CrateTag::External(0), Id(2)),
    );
    assert_eq!(i.tag(), CrateTag::External(0));
    assert_eq!(i.parent(), None);
    assert!(i.path_contains_renamed_item());
}

#[test]
fn items_of_a_trait_impl_get_its_header_as_context() {
    let parent = impl_item(10, true);
    let m = module(1);
    let f = module(11);
    let intermediate = IntermediatePublicItem::new(
        vec![component(&m, "a", None), component(&f, "clone", None)],
        Some((CrateTag::Main, Id(10))),
        (CrateTag::Main, Id(11)),
    );
    let header = vec![
        Token::Keyword("impl".to_string()),
        Token::Whitespace,
        Token::Type("Clone".to_string()),
    ];
    let i = PublicItem::from_intermediate_public_item(
        &intermediate,
        vec![Token::Function("clone".to_string())],
        Some((&parent, header)),
    );
    assert_eq!(i.context(), Some("[impl: impl Clone]"));
    assert_eq!(i.display_with_context(), "clone [impl: impl Clone]");
}

#[test]
fn items_of_an_inherent_impl_get_no_context() {
    let parent = impl_item(10, false);
    let m = module(3);
    let intermediate = IntermediatePublicItem::new(
        vec![component(&m, "a", None)],
        Some((CrateTag::Main, Id(10))),
        (CrateTag::Main, Id(3)),
    );
    let i = PublicItem::from_intermediate_public_item(
        &intermediate,
        vec![Token::Function("new".to_string())],
        Some((&parent, vec![Token::Keyword("impl".to_string())])),
    );
    assert_eq!(i.context(), None);
    let j = PublicItem::from_intermediate_public_item(
        &intermediate,
        vec![Token::Function("f".to_string())],
        Some((&m, vec![Token::Keyword("mod".to_string())])),
    );
    assert_eq!(j.context(), None);
    let k = PublicItem::from_intermediate_public_item(&intermediate, vec![], None);
    assert_eq!(k.context(), None);
    assert_eq!(k.to_string(), "");
    // The sortable path comes from the intermediate form.
    let other = PublicItem::new(vec!["a".to_string()], vec![], None);
    assert_eq!(k.grouping_cmp(&other), std::cmp::Ordering::Equal);
}

#[test]
fn rustdoc_json_round_trips() {
    let main = krate(vec![module(4)], vec![(2, "/t/libb.rmeta")]);
    let json = serde_json::to_string(&main).unwrap();
    let parsed = parse_rustdoc_json(&json).unwrap();
    assert_eq!(parsed, main);
    assert_eq!(loaded_from_path(&parsed, 2), Some("/t/libb.rmeta".to_string()));
}

#[test]
fn malformed_rustdoc_json_is_a_json_error() {
    assert!(matches!(parse_rustdoc_json("{"), Err(Error::SerdeJsonError(_))));
    assert!(matches!(parse_rustdoc_json("{\"root\": 0}"), Err(Error::SerdeJsonError(_))));
}

#[test]
fn path_entries_tell_whether_the_index_holds_the_item() {
    let main = krate(vec![module(1)], vec![]);
    let summary = |crate_id: u32| ItemSummary { crate_id, path: vec!["x".to_string()], kind: ItemKind::Struct };
    let indexed = path_entry(&main, &Id(1), &summary(0));
    assert!(indexed.in_index);
    assert_eq!(indexed.crate_id, 0);
    let reexported = path_entry(&main, &Id(9), &summary(4));
    assert!(!reexported.in_index);
    assert_eq!(reexported.crate_id, 4);
}

#[test]
fn deeply_nested_json_is_refused_not_overflowed() {
    let deep = format!("{}{}", "[".repeat(100_000), "]".repeat(100_000));
    assert!(matches!(parse_rustdoc_json(&deep), Err(Error::SerdeJsonError(_))));
}
