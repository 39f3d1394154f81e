//! Lexicographic orders on strings and on paths of strings.
//!
//! Strings are ordered by their characters, one after the other; since
//! UTF-8 keeps the order of code points, this is the order of their bytes.
//! A path (a sequence of strings) is ordered by its components, one after
//! the other, each compared as a string.

use vstd::prelude::*;

verus! {

/// Sign of the lexicographic comparison of two character sequences:
/// `-1` when `a` sorts first, `0` when they are equal, `1` otherwise.
pub open spec fn text_order(a: Seq<char>, b: Seq<char>) -> int
    decreases a.len(),
{
    if a.len() == 0 {
        if b.len() == 0 {
            0
        } else {
            -1
        }
    } else if b.len() == 0 {
        1
    } else if a[0] < b[0] {
        -1
    } else if b[0] < a[0] {
        1
    } else {
        text_order(a.drop_first(), b.drop_first())
    }
}

/// The components of a path, each as its characters.
pub open spec fn path_view(p: Seq<String>) -> Seq<Seq<char>> {
    p.map_values(|s: String| s@)
}

/// Sign of the lexicographic comparison of two paths, whose components are
/// compared with [`text_order`].
pub open spec fn path_order(a: Seq<Seq<char>>, b: Seq<Seq<char>>) -> int
    decreases a.len(),
{
    if a.len() == 0 {
        if b.len() == 0 {
            0
        } else {
            -1
        }
    } else if b.len() == 0 {
        1
    } else if text_order(a[0], b[0]) != 0 {
        text_order(a[0], b[0])
    } else {
        path_order(a.drop_first(), b.drop_first())
    }
}

/// `text_order` is a sign, it is reversed by swapping its arguments, and it is
/// zero exactly on equal sequences.
pub proof fn lemma_text_order_basics(a: Seq<char>, b: Seq<char>)
    ensures
        -1 <= text_order(a, b) <= 1,
        text_order(a, b) == -text_order(b, a),
        text_order(a, b) == 0 <==> a == b,
    decreases a.len(),
{
    if a.len() > 0 && b.len() > 0 {
        lemma_text_order_basics(a.drop_first(), b.drop_first());
        if a[0] == b[0] && a.drop_first() == b.drop_first() {
            assert(a =~= seq![a[0]] + a.drop_first());
            assert(b =~= seq![b[0]] + b.drop_first());
        }
        if a == b {
            assert(a.drop_first() == b.drop_first());
        }
    } else if a.len() == 0 && b.len() == 0 {
        assert(a =~= b);
    }
}

/// `text_order` is transitive.
pub proof fn lemma_text_order_transitive(a: Seq<char>, b: Seq<char>, c: Seq<char>)
    requires
        text_order(a, b) <= 0,
        text_order(b, c) <= 0,
    ensures
        text_order(a, c) <= 0,
    decreases a.len(),
{
    if a.len() > 0 && b.len() > 0 && c.len() > 0 {
        if a[0] == b[0] && b[0] == c[0] {
            lemma_text_order_transitive(a.drop_first(), b.drop_first(), c.drop_first());
        }
    }
}

/// Comparing after a common prefix gives the same sign as comparing the whole.
proof fn lemma_text_order_skip(a: Seq<char>, b: Seq<char>, i: int)
    requires
        0 <= i < a.len(),
        i < b.len(),
        a[i] == b[i],
    ensures
        text_order(a.skip(i), b.skip(i)) == text_order(a.skip(i + 1), b.skip(i + 1)),
{
    assert(a.skip(i).drop_first() =~= a.skip(i + 1));
    assert(b.skip(i).drop_first() =~= b.skip(i + 1));
}

/// `path_order` is a sign, it is reversed by swapping its arguments, and it is
/// zero exactly on equal paths.
pub proof fn lemma_path_order_basics(a: Seq<Seq<char>>, b: Seq<Seq<char>>)
    ensures
        -1 <= path_order(a, b) <= 1,
        path_order(a, b) == -path_order(b, a),
        path_order(a, b) == 0 <==> a == b,
    decreases a.len(),
{
    if a.len() > 0 && b.len() > 0 {
        lemma_text_order_basics(a[0], b[0]);
        lemma_path_order_basics(a.drop_first(), b.drop_first());
        if a[0] == b[0] && a.drop_first() == b.drop_first() {
            assert(a =~= seq![a[0]] + a.drop_first());
            assert(b =~= seq![b[0]] + b.drop_first());
        }
        if a == b {
            assert(a.drop_first() == b.drop_first());
        }
    } else if a.len() == 0 && b.len() == 0 {
        assert(a =~= b);
    }
}

/// `path_order` is transitive.
pub proof fn lemma_path_order_transitive(a: Seq<Seq<char>>, b: Seq<Seq<char>>, c: Seq<Seq<char>>)
    requires
        path_order(a, b) <= 0,
        path_order(b, c) <= 0,
    ensures
        path_order(a, c) <= 0,
    decreases a.len(),
{
    if a.len() > 0 && b.len() > 0 && c.len() > 0 {
        lemma_text_order_basics(a[0], b[0]);
        lemma_text_order_basics(b[0], c[0]);
        lemma_text_order_basics(a[0], c[0]);
        lemma_text_order_transitive(a[0], b[0], c[0]);
        if a[0] == b[0] && b[0] == c[0] {
            lemma_path_order_transitive(a.drop_first(), b.drop_first(), c.drop_first());
        }
    }
}

/// Every path that sorts between a path `p` and an extension of `p` is
/// itself an extension of `p`.
pub proof fn lemma_path_prefix_interval(p: Seq<Seq<char>>, x: Seq<Seq<char>>, b: Seq<Seq<char>>)
    requires
        p.len() <= b.len(),
        b.take(p.len() as int) == p,
        path_order(p, x) <= 0,
        path_order(x, b) <= 0,
    ensures
        p.len() <= x.len(),
        x.take(p.len() as int) == p,
    decreases p.len(),
{
    if p.len() == 0 {
        assert(x.take(0) =~= p);
    } else {
        assert(b[0] == b.take(p.len() as int)[0]);
        assert(x.len() > 0);
        lemma_text_order_basics(p[0], x[0]);
        lemma_text_order_basics(x[0], b[0]);
        assert(x[0] == p[0]);
        assert(b.drop_first().take(p.len() - 1) =~= p.drop_first()) by {
            assert forall|i: int| 0 <= i < p.len() - 1 implies b.drop_first()[i] == p.drop_first()[i] by {
                assert(b.take(p.len() as int)[i + 1] == b[i + 1]);
            }
        }
        lemma_path_prefix_interval(p.drop_first(), x.drop_first(), b.drop_first());
        assert(x.take(p.len() as int) =~= p) by {
            assert forall|i: int| 0 <= i < p.len() implies x.take(p.len() as int)[i] == p[i] by {
                if i > 0 {
                    assert(x.drop_first().take(p.len() - 1)[i - 1] == p.drop_first()[i - 1]);
                }
            }
        }
    }
}

proof fn lemma_path_order_skip(a: Seq<Seq<char>>, b: Seq<Seq<char>>, i: int)
    requires
        0 <= i < a.len(),
        i < b.len(),
        a[i] == b[i],
    ensures
        path_order(a.skip(i), b.skip(i)) == path_order(a.skip(i + 1), b.skip(i + 1)),
{
    lemma_text_order_basics(a[i], b[i]);
    assert(a.skip(i).drop_first() =~= a.skip(i + 1));
    assert(b.skip(i).drop_first() =~= b.skip(i + 1));
}

/// Strings are ordered lexicographically: at the first position where two
/// strings differ, the one with the smaller character sorts first, whatever
/// their lengths.
pub proof fn law_text_order_first_difference(a: Seq<char>, b: Seq<char>, i: int)
    requires
        0 <= i < a.len(),
        i < b.len(),
        forall|j: int| 0 <= j < i ==> a[j] == b[j],
        a[i] != b[i],
    ensures
        a[i] < b[i] ==> text_order(a, b) == -1,
        b[i] < a[i] ==> text_order(a, b) == 1,
    decreases i,
{
    if i > 0 {
        assert forall|j: int| 0 <= j < i - 1 implies a.drop_first()[j] == b.drop_first()[j] by {
            assert(a[j + 1] == b[j + 1]);
        }
        assert(a[0] == b[0]);
        law_text_order_first_difference(a.drop_first(), b.drop_first(), i - 1);
    }
}

/// A proper prefix of a string sorts before the string.
pub proof fn law_text_order_prefix_first(a: Seq<char>, b: Seq<char>)
    requires
        a.len() < b.len(),
        forall|j: int| 0 <= j < a.len() ==> a[j] == b[j],
    ensures
        text_order(a, b) == -1,
        text_order(b, a) == 1,
    decreases a.len(),
{
    if a.len() > 0 {
        assert forall|j: int| 0 <= j < a.len() - 1 implies a.drop_first()[j] == b.drop_first()[j] by {
            assert(a[j + 1] == b[j + 1]);
        }
        assert(a[0] == b[0]);
        law_text_order_prefix_first(a.drop_first(), b.drop_first());
    }
}

/// Paths are ordered lexicographically by their components: at the first
/// component where two paths differ, the order of the paths is the order of
/// those components.
pub proof fn law_path_order_first_difference(a: Seq<Seq<char>>, b: Seq<Seq<char>>, i: int)
    requires
        0 <= i < a.len(),
        i < b.len(),
        forall|j: int| 0 <= j < i ==> a[j] == b[j],
        a[i] != b[i],
    ensures
        path_order(a, b) == text_order(a[i], b[i]),
        path_order(a, b) != 0,
    decreases i,
{
    lemma_text_order_basics(a[i], b[i]);
    if i > 0 {
        assert forall|j: int| 0 <= j < i - 1 implies a.drop_first()[j] == b.drop_first()[j] by {
            assert(a[j + 1] == b[j + 1]);
        }
        assert(a[0] == b[0]);
        lemma_text_order_basics(a[0], b[0]);
        law_path_order_first_difference(a.drop_first(), b.drop_first(), i - 1);
    }
}

/// A proper prefix of a path sorts before the path.
pub proof fn law_path_order_prefix_first(a: Seq<Seq<char>>, b: Seq<Seq<char>>)
    requires
        a.len() < b.len(),
        forall|j: int| 0 <= j < a.len() ==> a[j] == b[j],
    ensures
        path_order(a, b) == -1,
        path_order(b, a) == 1,
    decreases a.len(),
{
    if a.len() > 0 {
        assert forall|j: int| 0 <= j < a.len() - 1 implies a.drop_first()[j] == b.drop_first()[j] by {
            assert(a[j + 1] == b[j + 1]);
        }
        assert(a[0] == b[0]);
        lemma_text_order_basics(a[0], b[0]);
        law_path_order_prefix_first(a.drop_first(), b.drop_first());
    }
}

/// The characters of `s`, in order.
pub fn chars_of(s: &str) -> (r: Vec<char>)
    ensures
        r@ == s@,
{
    let mut r: Vec<char> = Vec::new();
    for c in it: s.chars()
        invariant
            r@ == it.seq().take(it.index()),
    {
        r.push(c);
    }
    r
}

/// Compares two character sequences lexicographically.
pub fn compare_chars(a: &Vec<char>, b: &Vec<char>) -> (r: i8)
    ensures
        r == text_order(a@, b@),
{
    let mut i: usize = 0;
    assert(a@.skip(0) =~= a@);
    assert(b@.skip(0) =~= b@);
    while i < a.len() && i < b.len()
        invariant
            i <= a.len(),
            i <= b.len(),
            text_order(a@, b@) == text_order(a@.skip(i as int), b@.skip(i as int)),
        decreases a.len() - i,
    {
        if a[i] < b[i] {
            return -1;
        } else if b[i] < a[i] {
            return 1;
        }
        proof {
            lemma_text_order_skip(a@, b@, i as int);
        }
        i = i + 1;
    }
    if i < a.len() {
        1
    } else if i < b.len() {
        -1
    } else {
        0
    }
}

/// Compares two strings lexicographically.
pub fn compare_text(a: &str, b: &str) -> (r: i8)
    ensures
        r == text_order(a@, b@),
{
    let ca = chars_of(a);
    let cb = chars_of(b);
    compare_chars(&ca, &cb)
}

/// Compares two paths lexicographically, component by component.
pub fn compare_paths(a: &Vec<String>, b: &Vec<String>) -> (r: i8)
    ensures
        r == path_order(path_view(a@), path_view(b@)),
{
    let ghost pa = path_view(a@);
    let ghost pb = path_view(b@);
    let mut i: usize = 0;
    assert(pa.skip(0) =~= pa);
    assert(pb.skip(0) =~= pb);
    while i < a.len() && i < b.len()
        invariant
            i <= a.len(),
            i <= b.len(),
            pa == path_view(a@),
            pb == path_view(b@),
            path_order(pa, pb) == path_order(pa.skip(i as int), pb.skip(i as int)),
        decreases a.len() - i,
    {
        let c = compare_text(a[i].as_str(), b[i].as_str());
        assert(pa.skip(i as int)[0] == a@[i as int]@);
        assert(pb.skip(i as int)[0] == b@[i as int]@);
        if c != 0 {
            return c;
        }
        proof {
            lemma_text_order_basics(a@[i as int]@, b@[i as int]@);
            lemma_path_order_skip(pa, pb, i as int);
        }
        i = i + 1;
    }
    if i < a.len() {
        1
    } else if i < b.len() {
        -1
    } else {
        0
    }
}

} // verus!
