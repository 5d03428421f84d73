use vstd::prelude::*;

use crate::text::str_eq;

verus! {

/// The delimiter of a token group.
#[derive(Clone, Copy, Debug, PartialEq, Eq)]
pub enum Delimiter {
    /// `( ... )`
    Parenthesis,
    /// `{ ... }`
    Brace,
    /// `[ ... ]`
    Bracket,
    /// An invisible delimiter, as around a macro fragment
    /// (`Delimiter::None` of the compiler's token model).
    Invisible,
}

/// Whether a punctuation character is followed at once by another one.
#[derive(Clone, Copy, Debug, PartialEq, Eq)]
pub enum Spacing {
    /// Followed immediately by another punctuation character (as `=` in `==`).
    Joint,
    /// Followed by something else.
    Alone,
}

/// A token tree of a macro's input, held as plain values.
///
/// `S` is the span that an identifier carries along.
#[derive(Debug, PartialEq, Eq)]
pub enum EzTokenTree<S> {
    /// A delimited group of token trees.
    EzGroup(Delimiter, Vec<EzTokenTree<S>>),
    /// An identifier (its text) with its span.
    EzId(String, S),
    /// A punctuation character.
    EzPu(char, Spacing),
    /// A literal, held as its source text (a string literal keeps its quotes).
    EzLi(String),
}

/// The mathematical value of a token tree.
pub enum TokenView<S> {
    /// A delimited group.
    Group(Delimiter, Seq<TokenView<S>>),
    /// An identifier.
    Ident(Seq<char>, S),
    /// A punctuation character.
    Punct(char, Spacing),
    /// A literal, by its source text.
    Literal(Seq<char>),
}

/// The value of one token tree.
pub open spec fn token_view<S>(t: EzTokenTree<S>) -> TokenView<S>
    decreases t,
{
    match t {
        EzTokenTree::EzGroup(d, v) => TokenView::Group(d, tokens_view(v@)),
        EzTokenTree::EzId(s, sp) => TokenView::Ident(s@, sp),
        EzTokenTree::EzPu(c, sp) => TokenView::Punct(c, sp),
        EzTokenTree::EzLi(s) => TokenView::Literal(s@),
    }
}

/// The value of a sequence of token trees, element by element.
pub open spec fn tokens_view<S>(s: Seq<EzTokenTree<S>>) -> Seq<TokenView<S>>
    decreases s,
{
    if s.len() == 0 {
        Seq::empty()
    } else {
        tokens_view(s.drop_last()).push(token_view(s.last()))
    }
}

impl<S> View for EzTokenTree<S> {
    type V = TokenView<S>;

    open spec fn view(&self) -> TokenView<S> {
        token_view(*self)
    }
}

/// A token tree of a macro's expansion: a token tree as the input holds them,
/// a literal made from its value, or a group of such trees.
#[derive(Debug, PartialEq, Eq)]
pub enum OutTree<S> {
    /// A token tree of the input model (passed through, or made like one).
    Token(EzTokenTree<S>),
    /// A string literal whose value is the given text.
    Str(String),
    /// A character literal whose value is the given character.
    Char(char),
    /// A delimited group of expansion trees.
    Group(Delimiter, Vec<OutTree<S>>),
}

/// The mathematical value of an expansion tree.
pub enum OutView<S> {
    /// A token tree of the input model.
    Token(TokenView<S>),
    /// A string literal, by its value.
    Str(Seq<char>),
    /// A character literal, by its value.
    Char(char),
    /// A delimited group.
    Group(Delimiter, Seq<OutView<S>>),
}

/// The value of one expansion tree.
pub open spec fn out_view<S>(t: OutTree<S>) -> OutView<S>
    decreases t,
{
    match t {
        OutTree::Token(t) => OutView::Token(token_view(t)),
        OutTree::Str(s) => OutView::Str(s@),
        OutTree::Char(c) => OutView::Char(c),
        OutTree::Group(d, v) => OutView::Group(d, outs_view(v@)),
    }
}

/// The value of a sequence of expansion trees, element by element.
pub open spec fn outs_view<S>(s: Seq<OutTree<S>>) -> Seq<OutView<S>>
    decreases s,
{
    if s.len() == 0 {
        Seq::empty()
    } else {
        outs_view(s.drop_last()).push(out_view(s.last()))
    }
}

impl<S> View for OutTree<S> {
    type V = OutView<S>;

    open spec fn view(&self) -> OutView<S> {
        out_view(*self)
    }
}

impl<S> EzTokenTree<S> {
    /// The literal's source text, if the tree is a literal.
    pub fn get_literal(&self) -> (r: Option<&str>)
        ensures
            match token_view(*self) {
                TokenView::Literal(text) => r is Some && r.unwrap()@ == text,
                _ => r is None,
            },
    {
        match self {
            EzTokenTree::EzLi(s) => Some(s.as_str()),
            _ => None,
        }
    }
}

/// Pushing a token tree adds its value at the end.
pub proof fn lemma_tokens_view_push<S>(s: Seq<EzTokenTree<S>>, t: EzTokenTree<S>)
    ensures
        tokens_view(s.push(t)) == tokens_view(s).push(token_view(t)),
{
    assert(s.push(t).drop_last() =~= s);
}

/// The value of a sequence has one value per token tree, in order.
pub proof fn lemma_tokens_view_index<S>(s: Seq<EzTokenTree<S>>)
    ensures
        tokens_view(s).len() == s.len(),
        forall|i: int| 0 <= i < s.len() ==> #[trigger] tokens_view(s)[i] == token_view(s[i]),
    decreases s.len(),
{
    if s.len() > 0 {
        lemma_tokens_view_index(s.drop_last());
    }
}

/// Pushing an expansion tree adds its value at the end.
pub proof fn lemma_outs_view_push<S>(s: Seq<OutTree<S>>, t: OutTree<S>)
    ensures
        outs_view(s.push(t)) == outs_view(s).push(out_view(t)),
{
    assert(s.push(t).drop_last() =~= s);
}

/// The value of a sequence has one value per expansion tree, in order.
pub proof fn lemma_outs_view_index<S>(s: Seq<OutTree<S>>)
    ensures
        outs_view(s).len() == s.len(),
        forall|i: int| 0 <= i < s.len() ==> #[trigger] outs_view(s)[i] == out_view(s[i]),
    decreases s.len(),
{
    if s.len() > 0 {
        lemma_outs_view_index(s.drop_last());
    }
}

/// Whether the value is a literal.
pub open spec fn is_literal<S>(t: TokenView<S>) -> bool {
    t is Literal
}

/// Whether the value is the punctuation character `c`, with either spacing.
pub open spec fn is_punct<S>(t: TokenView<S>, c: char) -> bool {
    t matches TokenView::Punct(c2, _) && c2 == c
}

/// Whether the value is the punctuation character `c` with spacing `sp`.
pub open spec fn is_punct_spaced<S>(t: TokenView<S>, c: char, sp: Spacing) -> bool {
    t matches TokenView::Punct(c2, sp2) && c2 == c && sp2 == sp
}

/// Whether the value is the identifier `name`.
pub open spec fn is_ident<S>(t: TokenView<S>, name: Seq<char>) -> bool {
    t matches TokenView::Ident(s, _) && s == name
}

/// The text that a token prints as, where it is one token's text: that of an
/// identifier, a punctuation character or a literal, also when it stands alone
/// in a group with invisible delimiters (which print as nothing). Other groups
/// have no such text.
pub open spec fn token_text<S>(t: TokenView<S>) -> Option<Seq<char>>
    decreases t,
{
    match t {
        TokenView::Ident(s, _) => Some(s),
        TokenView::Punct(c, _) => Some(seq![c]),
        TokenView::Literal(s) => Some(s),
        TokenView::Group(d, items) => if d == Delimiter::Invisible && items.len() == 1 {
            token_text(items[0])
        } else {
            None
        },
    }
}

/// Whether the tree is the punctuation character `c`, with either spacing.
pub fn punct_is<S>(t: &EzTokenTree<S>, c: char) -> (r: bool)
    ensures
        r == is_punct(token_view(*t), c),
{
    match t {
        EzTokenTree::EzPu(c2, _) => *c2 == c,
        _ => false,
    }
}

/// Whether the tree is the identifier `name`.
pub fn ident_is<S>(t: &EzTokenTree<S>, name: &str) -> (r: bool)
    ensures
        r == is_ident(token_view(*t), name@),
{
    match t {
        EzTokenTree::EzId(s, _) => str_eq(s.as_str(), name),
        _ => false,
    }
}

/// Whether the tree prints as the text `text`.
pub fn text_is<S>(t: &EzTokenTree<S>, text: &str) -> (r: bool)
    ensures
        r == (token_text(token_view(*t)) == Some(text@)),
    decreases t,
{
    match t {
        EzTokenTree::EzId(s, _) => str_eq(s.as_str(), text),
        EzTokenTree::EzLi(s) => str_eq(s.as_str(), text),
        EzTokenTree::EzPu(c, _) => {
            let n: usize = text.unicode_len();
            if n == 1 && text.get_char(0) == *c {
                assert(text@ =~= seq![*c]);
                true
            } else {
                assert(text@ != seq![*c]);
                false
            }
        },
        EzTokenTree::EzGroup(d, v) => {
            proof {
                lemma_tokens_view_index(v@);
            }
            let invisible = match d {
                Delimiter::Invisible => true,
                _ => false,
            };
            if invisible && v.len() == 1 {
                text_is(&v[0], text)
            } else {
                false
            }
        },
    }
}

/// The one-character string of `c`, as `char::to_string` makes it.
#[verifier::external_body]
fn char_string(c: char) -> (s: String)
    ensures
        s@ == seq![c],
{
    c.to_string()
}

/// The text that the tree prints as, where it is one token's text.
pub fn token_text_of<S>(t: &EzTokenTree<S>) -> (r: Option<String>)
    ensures
        match r {
            Some(s) => token_text(token_view(*t)) == Some(s@),
            None => token_text(token_view(*t)) is None,
        },
    decreases t,
{
    match t {
        EzTokenTree::EzId(s, _) => Some(String::from_str(s.as_str())),
        EzTokenTree::EzLi(s) => Some(String::from_str(s.as_str())),
        EzTokenTree::EzPu(c, _) => Some(char_string(*c)),
        EzTokenTree::EzGroup(d, v) => {
            proof {
                lemma_tokens_view_index(v@);
            }
            let invisible = match d {
                Delimiter::Invisible => true,
                _ => false,
            };
            if invisible && v.len() == 1 {
                token_text_of(&v[0])
            } else {
                None
            }
        },
    }
}

} // verus!
