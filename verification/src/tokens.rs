//! The tokens that a rendered public item is made of.

use vstd::prelude::*;

verus! {

/// A token of a rendered public item, such as a keyword, an identifier or a
/// symbol. Each kind of token carries the text it is rendered as, except
/// whitespace, which is always a single space.
#[derive(Clone, Debug, Hash)]
pub enum Token {
    /// A symbol, like `=` or `::<`.
    Symbol(String),
    /// A qualifier, like `pub` or `const`.
    Qualifier(String),
    /// The kind of an item, like `fn` or `trait`.
    Kind(String),
    /// A single space.
    Whitespace,
    /// An identifier, like the parts of the path of an item.
    Identifier(String),
    /// An annotation, such as an attribute.
    Annotation(String),
    /// The identifier `self` or `Self`.
    Self_(String),
    /// The name of a function.
    Function(String),
    /// A lifetime, apostrophe included, like `'a`.
    Lifetime(String),
    /// A keyword, like `impl`, `where` or `dyn`.
    Keyword(String),
    /// A generic parameter, like `T`.
    Generic(String),
    /// A primitive type, like `usize`.
    Primitive(String),
    /// A type that is not primitive, like the name of a struct.
    Type(String),
}

/// What a [`Token`] is: its kind and its text.
pub enum TokenView {
    Symbol(Seq<char>),
    Qualifier(Seq<char>),
    Kind(Seq<char>),
    Whitespace,
    Identifier(Seq<char>),
    Annotation(Seq<char>),
    Self_(Seq<char>),
    Function(Seq<char>),
    Lifetime(Seq<char>),
    Keyword(Seq<char>),
    Generic(Seq<char>),
    Primitive(Seq<char>),
    Type(Seq<char>),
}

impl TokenView {
    /// The text the token is rendered as.
    pub open spec fn text(self) -> Seq<char> {
        match self {
            TokenView::Whitespace => seq![' '],
            TokenView::Symbol(s) => s,
            TokenView::Qualifier(s) => s,
            TokenView::Kind(s) => s,
            TokenView::Identifier(s) => s,
            TokenView::Annotation(s) => s,
            TokenView::Self_(s) => s,
            TokenView::Function(s) => s,
            TokenView::Lifetime(s) => s,
            TokenView::Keyword(s) => s,
            TokenView::Generic(s) => s,
            TokenView::Primitive(s) => s,
            TokenView::Type(s) => s,
        }
    }
}

impl View for Token {
    type V = TokenView;

    open spec fn view(&self) -> TokenView {
        match self {
            Token::Whitespace => TokenView::Whitespace,
            Token::Symbol(s) => TokenView::Symbol(s@),
            Token::Qualifier(s) => TokenView::Qualifier(s@),
            Token::Kind(s) => TokenView::Kind(s@),
            Token::Identifier(s) => TokenView::Identifier(s@),
            Token::Annotation(s) => TokenView::Annotation(s@),
            Token::Self_(s) => TokenView::Self_(s@),
            Token::Function(s) => TokenView::Function(s@),
            Token::Lifetime(s) => TokenView::Lifetime(s@),
            Token::Keyword(s) => TokenView::Keyword(s@),
            Token::Generic(s) => TokenView::Generic(s@),
            Token::Primitive(s) => TokenView::Primitive(s@),
            Token::Type(s) => TokenView::Type(s@),
        }
    }
}

/// The tokens of a sequence, each by its view.
pub open spec fn tokens_view(tokens: Seq<Token>) -> Seq<TokenView> {
    tokens.map_values(|t: Token| t@)
}

/// The text of a sequence of tokens: the texts of the tokens, one after the
/// other.
pub open spec fn tokens_text(tokens: Seq<TokenView>) -> Seq<char>
    decreases tokens.len(),
{
    if tokens.len() == 0 {
        Seq::empty()
    } else {
        tokens_text(tokens.drop_last()) + tokens.last().text()
    }
}

/// A token renders as the string it carries; whitespace renders as a single
/// space.
pub proof fn law_token_renders_as_its_string(t: Token)
    ensures
        match t {
            Token::Whitespace => t@.text() == seq![' '],
            Token::Symbol(s) => t@.text() == s@,
            Token::Qualifier(s) => t@.text() == s@,
            Token::Kind(s) => t@.text() == s@,
            Token::Identifier(s) => t@.text() == s@,
            Token::Annotation(s) => t@.text() == s@,
            Token::Self_(s) => t@.text() == s@,
            Token::Function(s) => t@.text() == s@,
            Token::Lifetime(s) => t@.text() == s@,
            Token::Keyword(s) => t@.text() == s@,
            Token::Generic(s) => t@.text() == s@,
            Token::Primitive(s) => t@.text() == s@,
            Token::Type(s) => t@.text() == s@,
        },
{
}

/// The view of a sequence of tokens holds the view of each token, in order.
pub proof fn law_tokens_view_is_pointwise(tokens: Seq<Token>)
    ensures
        tokens_view(tokens).len() == tokens.len(),
        forall|i: int| 0 <= i < tokens.len() ==> #[trigger] tokens_view(tokens)[i] == tokens[i]@,
{
}

/// A single token renders as its own text.
pub proof fn law_tokens_text_of_one_token(t: TokenView)
    ensures
        tokens_text(seq![t]) == t.text(),
{
    assert(seq![t].drop_last() =~= Seq::<TokenView>::empty());
    assert(tokens_text(Seq::<TokenView>::empty()) + t.text() =~= t.text());
}

/// The text of two runs of tokens, one after the other, is the text of the
/// first followed by the text of the second; so the text of a sequence of
/// tokens is the texts of its tokens, concatenated in order.
pub proof fn law_tokens_text_concatenates(x: Seq<TokenView>, y: Seq<TokenView>)
    ensures
        tokens_text(x + y) == tokens_text(x) + tokens_text(y),
    decreases y.len(),
{
    if y.len() == 0 {
        assert(x + y =~= x);
        assert(tokens_text(x) + tokens_text(y) =~= tokens_text(x));
    } else {
        law_tokens_text_concatenates(x, y.drop_last());
        assert((x + y).drop_last() =~= x + y.drop_last());
        assert((x + y).last() == y.last());
        assert(tokens_text(x + y) =~= tokens_text(x) + tokens_text(y));
    }
}

impl Token {
    /// The text this token is rendered as.
    pub fn text(&self) -> (r: &str)
        ensures
            r@ == self@.text(),
    {
        match self {
            Token::Whitespace => {
                let space = " ";
                proof {
                    reveal_strlit(" ");
                }
                space
            },
            Token::Symbol(s) => s.as_str(),
            Token::Qualifier(s) => s.as_str(),
            Token::Kind(s) => s.as_str(),
            Token::Identifier(s) => s.as_str(),
            Token::Annotation(s) => s.as_str(),
            Token::Self_(s) => s.as_str(),
            Token::Function(s) => s.as_str(),
            Token::Lifetime(s) => s.as_str(),
            Token::Keyword(s) => s.as_str(),
            Token::Generic(s) => s.as_str(),
            Token::Primitive(s) => s.as_str(),
            Token::Type(s) => s.as_str(),
        }
    }
}

impl PartialEq for Token {
    fn eq(&self, other: &Self) -> (r: bool) {
        match (self, other) {
            (Token::Whitespace, Token::Whitespace) => true,
            (Token::Symbol(a), Token::Symbol(b)) => *a == *b,
            (Token::Qualifier(a), Token::Qualifier(b)) => *a == *b,
            (Token::Kind(a), Token::Kind(b)) => *a == *b,
            (Token::Identifier(a), Token::Identifier(b)) => *a == *b,
            (Token::Annotation(a), Token::Annotation(b)) => *a == *b,
            (Token::Self_(a), Token::Self_(b)) => *a == *b,
            (Token::Function(a), Token::Function(b)) => *a == *b,
            (Token::Lifetime(a), Token::Lifetime(b)) => *a == *b,
            (Token::Keyword(a), Token::Keyword(b)) => *a == *b,
            (Token::Generic(a), Token::Generic(b)) => *a == *b,
            (Token::Primitive(a), Token::Primitive(b)) => *a == *b,
            (Token::Type(a), Token::Type(b)) => *a == *b,
            _ => false,
        }
    }
}

impl vstd::std_specs::cmp::PartialEqSpecImpl for Token {
    open spec fn obeys_eq_spec() -> bool {
        true
    }

    open spec fn eq_spec(&self, other: &Token) -> bool {
        self@ == other@
    }
}

impl Eq for Token {
}

/// Whether two sequences of tokens are the same, token by token.
pub fn tokens_equal(a: &Vec<Token>, b: &Vec<Token>) -> (r: bool)
    ensures
        r == (tokens_view(a@) == tokens_view(b@)),
{
    if a.len() != b.len() {
        proof {
            assert(tokens_view(a@).len() != tokens_view(b@).len());
        }
        return false;
    }
    let mut i: usize = 0;
    while i < a.len()
        invariant
            i <= a.len(),
            a.len() == b.len(),
            forall|j: int| 0 <= j < i ==> a@[j]@ == b@[j]@,
        decreases a.len() - i,
    {
        if !(a[i] == b[i]) {
            proof {
                assert(tokens_view(a@)[i as int] != tokens_view(b@)[i as int]);
            }
            return false;
        }
        i = i + 1;
    }
    proof {
        assert(tokens_view(a@) =~= tokens_view(b@));
    }
    true
}

/// The text of a sequence of tokens, rendered one after the other.
pub fn tokens_to_string(tokens: &Vec<Token>) -> (r: String)
    ensures
        r@ == tokens_text(tokens_view(tokens@)),
{
    let mut r = String::new();
    let mut i: usize = 0;
    while i < tokens.len()
        invariant
            i <= tokens.len(),
            r@ == tokens_text(tokens_view(tokens@.take(i as int))),
        decreases tokens.len() - i,
    {
        r.append(tokens[i].text());
        proof {
            let next = tokens_view(tokens@.take(i + 1));
            assert(next.drop_last() =~= tokens_view(tokens@.take(i as int)));
        }
        i = i + 1;
    }
    assert(tokens@.take(tokens.len() as int) =~= tokens@);
    r
}

} // verus!
