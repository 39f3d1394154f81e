use std::cmp::Ordering;
use std::collections::hash_map::DefaultHasher;
use std::hash::{Hash, Hasher};

use public_api_tricks::public_item::different_or_none;
use public_api_tricks::tokens::tokens_to_string;
use public_api_tricks::{PublicApi, PublicItem, Token};

fn s(text: &str) -> String {
    text.to_string()
}

fn path(parts: &[&str]) -> Vec<String> {
    parts.iter().map(|p| p.to_string()).collect()
}

/// The tokens of `pub struct <name>`.
fn struct_tokens(name: &str) -> Vec<Token> {
    vec![
        Token::Qualifier(s("pub")),
        Token::Whitespace,
        Token::Kind(s("struct")),
        Token::Whitespace,
        Token::Type(s(name)),
    ]
}

fn item(parts: &[&str], tokens: Vec<Token>) -> PublicItem {
    PublicItem::new(path(parts), tokens, None)
}

fn hash_of(item: &PublicItem) -> u64 {
    let mut h = DefaultHasher::new();
    item.hash(&mut h);
    h.finish()
}

#[test]
fn token_texts_are_concatenated() {
    let tokens = struct_tokens("example::Struct");
    assert_eq!(tokens_to_string(&tokens), "pub struct example::Struct");
    assert_eq!(Token::Whitespace.text(), " ");
    assert_eq!(Token::Lifetime(s("'a")).text(), "'a");
    assert_eq!(tokens_to_string(&Vec::new()), "");
}

#[test]
fn item_displays_its_tokens() {
    let i = item(&["example", "Struct"], struct_tokens("example::Struct"));
    assert_eq!(i.to_string(), "pub struct example::Struct");
    assert_eq!(i.context(), None);
    assert_eq!(i.display_with_context(), "pub struct example::Struct");
}

#[test]
fn item_displays_its_context_after_a_space() {
    let tokens = vec![
        Token::Keyword(s("fn")),
        Token::Whitespace,
        Token::Function(s("clone")),
    ];
    let i = PublicItem::new(path(&["a", "S", "clone"]), tokens, Some(s("[impl: impl Clone for S]")));
    assert_eq!(i.context(), Some("[impl: impl Clone for S]"));
    assert_eq!(i.display_with_context(), "fn clone [impl: impl Clone for S]");
}

#[test]
fn equality_ignores_context_and_path() {
    let a = PublicItem::new(path(&["a"]), struct_tokens("a::S"), None);
    let b = PublicItem::new(path(&["b"]), struct_tokens("a::S"), Some(s("[impl: x]")));
    let c = PublicItem::new(path(&["a"]), struct_tokens("a::T"), None);
    assert!(a == b);
    assert!(a != c);
    assert_eq!(hash_of(&a), hash_of(&b));
}

#[test]
fn equality_tells_token_kinds_apart() {
    let a = PublicItem::new(path(&["a"]), vec![Token::Type(s("u8"))], None);
    let b = PublicItem::new(path(&["a"]), vec![Token::Primitive(s("u8"))], None);
    assert_eq!(a.to_string(), b.to_string());
    assert!(a != b);
}

#[test]
fn grouping_cmp_orders_by_path_first() {
    let a = item(&["x", "a"], struct_tokens("z"));
    let b = item(&["x", "b"], struct_tokens("a"));
    assert_eq!(a.grouping_cmp(&b), Ordering::Less);
    assert_eq!(b.grouping_cmp(&a), Ordering::Greater);
}

#[test]
fn grouping_cmp_puts_a_path_before_its_extensions() {
    let parent = item(&["x", "S"], struct_tokens("x::S"));
    let field = item(&["x", "S", "field"], vec![Token::Identifier(s("field"))]);
    assert_eq!(parent.grouping_cmp(&field), Ordering::Less);
    assert_eq!(field.grouping_cmp(&parent), Ordering::Greater);
}

#[test]
fn grouping_cmp_falls_back_to_text() {
    let a = item(&["x"], struct_tokens("A"));
    let b = item(&["x"], struct_tokens("B"));
    assert_eq!(a.grouping_cmp(&b), Ordering::Less);
    assert_eq!(b.grouping_cmp(&a), Ordering::Greater);
    assert_eq!(a.grouping_cmp(&a.clone()), Ordering::Equal);
}

#[test]
fn grouping_cmp_compares_strings_by_bytes() {
    // Upper case sorts before lower case, and a prefix before its extensions.
    let upper = item(&["x", "Z"], vec![]);
    let lower = item(&["x", "a"], vec![]);
    let shorter = item(&["x", "ab"], vec![]);
    let longer = item(&["x", "abc"], vec![]);
    assert_eq!(upper.grouping_cmp(&lower), Ordering::Less);
    assert_eq!(shorter.grouping_cmp(&longer), Ordering::Less);
    // Characters beyond ASCII compare by code point.
    let e_acute = item(&["\u{e9}"], vec![]);
    let z = item(&["z"], vec![]);
    assert_eq!(z.grouping_cmp(&e_acute), Ordering::Less);
}

#[test]
fn different_or_none_gives_none_for_equal_paths() {
    assert_eq!(different_or_none(&path(&["a", "b"]), &path(&["a", "b"])), None);
    assert_eq!(different_or_none(&path(&["a"]), &path(&["a", "b"])), Some(Ordering::Less));
    assert_eq!(different_or_none(&path(&["b"]), &path(&["a", "b"])), Some(Ordering::Greater));
    assert_eq!(different_or_none(&path(&[]), &path(&[])), None);
}

#[test]
fn api_items_are_sorted_into_groups() {
    let items = vec![
        item(&["c", "S", "f"], vec![Token::Identifier(s("f"))]),
        item(&["a"], struct_tokens("a")),
        item(&["c", "S"], struct_tokens("c::S")),
        item(&["b"], struct_tokens("b")),
        item(&["c", "T"], struct_tokens("c::T")),
    ];
    let api = PublicApi::new(items);
    let texts: Vec<String> = api.items().iter().map(|i| i.to_string()).collect();
    assert_eq!(
        texts,
        vec!["pub struct a", "pub struct b", "pub struct c::S", "f", "pub struct c::T"]
    );
}

#[test]
fn api_sort_is_stable() {
    // Same path and same text: the order of the input is kept.
    let first = PublicItem::new(path(&["a"]), struct_tokens("S"), Some(s("first")));
    let second = PublicItem::new(path(&["a"]), struct_tokens("S"), Some(s("second")));
    let other = item(&["0"], struct_tokens("S"));
    let api = PublicApi::new(vec![first, other, second]);
    let contexts: Vec<Option<&str>> = api.items().iter().map(|i| i.context()).collect();
    assert_eq!(contexts, vec![None, Some("first"), Some("second")]);
}

#[test]
fn api_sort_of_sorted_items_keeps_them() {
    let items = vec![
        item(&["b"], struct_tokens("b")),
        item(&["a", "x"], struct_tokens("ax")),
        item(&["a"], struct_tokens("a")),
    ];
    let api = PublicApi::new(items);
    let once: Vec<String> = api.items().iter().map(|i| i.to_string()).collect();
    let again = PublicApi::new(api.into_items());
    let twice: Vec<String> = again.items().iter().map(|i| i.to_string()).collect();
    assert_eq!(once, twice);
    assert_eq!(once, vec!["pub struct a", "pub struct ax", "pub struct b"]);
}

#[test]
fn api_of_no_items_is_empty() {
    let api = PublicApi::new(Vec::new());
    assert!(api.items().is_empty());
    assert_eq!(api.to_string(), "");
    assert!(api.into_items().is_empty());
}

#[test]
fn api_text_has_one_line_per_item() {
    let items = vec![
        PublicItem::new(path(&["b"]), struct_tokens("b"), Some(s("[impl: X]"))),
        item(&["a"], struct_tokens("a")),
    ];
    let api = PublicApi::new(items);
    assert_eq!(api.to_string(), "pub struct a\npub struct b [impl: X]\n");
}

#[test]
fn into_items_keeps_the_sorted_order() {
    let api = PublicApi::new(vec![item(&["b"], vec![]), item(&["a"], vec![])]);
    let items = api.into_items();
    assert_eq!(items.len(), 2);
    assert_eq!(items[0].grouping_cmp(&items[1]), Ordering::Less);
}

#[test]
fn sorting_ignores_the_input_order() {
    let make = || {
        vec![
            item(&["b"], struct_tokens("b")),
            item(&["a", "f"], vec![Token::Identifier(s("f"))]),
            PublicItem::new(path(&["a"]), struct_tokens("a"), Some(s("one"))),
            item(&["c"], struct_tokens("c")),
            PublicItem::new(path(&["a"]), struct_tokens("a"), Some(s("two"))),
        ]
    };
    let forward = PublicApi::new(make());
    let mut reversed_input = make();
    reversed_input.reverse();
    let backward = PublicApi::new(reversed_input);
    let texts = |api: &PublicApi| -> Vec<String> { api.items().iter().map(|i| i.to_string()).collect() };
    assert_eq!(texts(&forward), texts(&backward));
    // Only the two items of one group keep the order they came in.
    let contexts = |api: &PublicApi| -> Vec<Option<String>> {
        api.items().iter().map(|i| i.context().map(String::from)).collect()
    };
    assert_eq!(contexts(&forward)[0..2], [Some(s("one")), Some(s("two"))]);
    assert_eq!(contexts(&backward)[0..2], [Some(s("two")), Some(s("one"))]);
}
