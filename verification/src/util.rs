use vstd::prelude::*;

use crate::error::MacroError;
use crate::text::{decimal, push_decimal, str_eq, str_literal_content};
use crate::token::{
    is_punct, lemma_outs_view_push, lemma_tokens_view_index, lemma_tokens_view_push, outs_view,
    token_view, tokens_view, Delimiter, EzTokenTree, OutTree, OutView, Spacing, TokenView,
};

verus! {

/// The value of an optional string.
pub open spec fn opt_str_view(o: Option<String>) -> Option<Seq<char>> {
    match o {
        Some(s) => Some(s@),
        None => None,
    }
}

/// The value of a string, or the error.
pub open spec fn str_result_view(r: Result<String, MacroError>) -> Result<Seq<char>, MacroError> {
    match r {
        Ok(s) => Ok(s@),
        Err(e) => Err(e),
    }
}

/// The value of an expansion, or the error.
pub open spec fn stream_result_view<S>(r: Result<Vec<OutTree<S>>, MacroError>) -> Result<
    Seq<OutView<S>>,
    MacroError,
> {
    match r {
        Ok(v) => Ok(outs_view(v@)),
        Err(e) => Err(e),
    }
}

/// The prefix of every local label.
pub open spec fn local_label_prefix() -> Seq<char> {
    ".L_bracer_local_label_"@
}

/// The local label of number `n`.
pub open spec fn local_label(n: u64) -> Seq<char> {
    local_label_prefix() + decimal(n as nat)
}

/// Makes the next local label: the label of the number `counter` holds, which
/// then moves on by one (wrapping around after `u64::MAX`).
pub fn next_local_label(counter: &mut u64) -> (label: String)
    ensures
        label@ == local_label(*old(counter)),
        *final(counter) == (*old(counter)).wrapping_add(1),
{
    let n: u64 = *counter;
    *counter = n.wrapping_add(1);
    let mut label = String::from_str(".L_bracer_local_label_");
    push_decimal(&mut label, n);
    label
}

/// Gets out the group's delimiter and token trees, if the tree is a group.
pub fn get_group<S>(tree: EzTokenTree<S>) -> (r: Option<(Delimiter, Vec<EzTokenTree<S>>)>)
    ensures
        r == (match tree {
            EzTokenTree::EzGroup(d, v) => Some((d, v)),
            _ => None,
        }),
{
    match tree {
        EzTokenTree::EzGroup(d, v) => Some((d, v)),
        _ => None,
    }
}

/// Gets out the identifier's text and span, if the tree is an identifier.
pub fn get_ident<S>(tree: EzTokenTree<S>) -> (r: Option<(String, S)>)
    ensures
        r == (match tree {
            EzTokenTree::EzId(s, sp) => Some((s, sp)),
            _ => None,
        }),
{
    match tree {
        EzTokenTree::EzId(s, sp) => Some((s, sp)),
        _ => None,
    }
}

/// Gets out the punctuation character and its spacing, if the tree is one.
pub fn get_punct<S>(tree: EzTokenTree<S>) -> (r: Option<(char, Spacing)>)
    ensures
        r == (match tree {
            EzTokenTree::EzPu(c, sp) => Some((c, sp)),
            _ => None,
        }),
{
    match tree {
        EzTokenTree::EzPu(c, sp) => Some((c, sp)),
        _ => None,
    }
}

/// Gets out the literal's source text, if the tree is a literal.
pub fn get_literal<S>(tree: EzTokenTree<S>) -> (r: Option<String>)
    ensures
        r == (match tree {
            EzTokenTree::EzLi(s) => Some(s),
            _ => None,
        }),
{
    match tree {
        EzTokenTree::EzLi(s) => Some(s),
        _ => None,
    }
}

/// The boolean that the value names, if it is the identifier `true` or `false`.
pub open spec fn token_bool<S>(t: TokenView<S>) -> Option<bool> {
    match t {
        TokenView::Ident(s, _) => if s == "true"@ {
            Some(true)
        } else if s == "false"@ {
            Some(false)
        } else {
            None
        },
        _ => None,
    }
}

/// Gets out the `bool`, if the tree is the identifier `true` or `false`.
pub fn get_bool<S>(tree: &EzTokenTree<S>) -> (r: Option<bool>)
    ensures
        r == token_bool(token_view(*tree)),
{
    match tree {
        EzTokenTree::EzId(s, _) => {
            if str_eq(s.as_str(), "true") {
                Some(true)
            } else if str_eq(s.as_str(), "false") {
                Some(false)
            } else {
                None
            }
        },
        _ => None,
    }
}

/// The content of the value, if it is a string literal.
pub open spec fn literal_content<S>(t: TokenView<S>) -> Option<Seq<char>> {
    match t {
        TokenView::Literal(text) => str_literal_content(text),
        _ => None,
    }
}

/// Gets the content inside a string literal (its source text between the
/// quotes, escapes left as written), if the tree is one. A source text that is
/// a lone `"` is no literal and gives `None`.
pub fn get_str_literal_content<S>(tree: &EzTokenTree<S>) -> (r: Option<String>)
    ensures
        opt_str_view(r) == literal_content(token_view(*tree)),
{
    match tree {
        EzTokenTree::EzLi(l) => {
            let s = l.as_str();
            let n: usize = s.unicode_len();
            if n >= 2 && s.get_char(0) == '"' && s.get_char(n - 1) == '"' {
                Some(String::from_str(s.substring_char(1, n - 1)))
            } else {
                None
            }
        },
        _ => None,
    }
}

/// The content of the one string literal that a token stream must hold.
pub open spec fn spec_one_str_literal<S>(ts: Seq<TokenView<S>>) -> Result<Seq<char>, MacroError> {
    if ts.len() == 0 {
        Err(MacroError::NotEnoughInput)
    } else {
        match literal_content(ts[0]) {
            None => Err(MacroError::OneStrLiteralOnly),
            Some(c) => if ts.len() > 1 {
                Err(MacroError::OneStrLiteralOnly)
            } else {
                Ok(c)
            },
        }
    }
}

/// The content of the stream's one string literal, for a stream that holds
/// exactly one.
pub fn one_str_literal_or_panic<S>(token_stream: Vec<EzTokenTree<S>>) -> (content: String)
    requires
        spec_one_str_literal(tokens_view(token_stream@)) is Ok,
    ensures
        spec_one_str_literal(tokens_view(token_stream@)) == Ok::<Seq<char>, MacroError>(content@),
{
    proof {
        lemma_tokens_view_index(token_stream@);
    }
    let r = get_str_literal_content(&token_stream[0]);
    match r {
        Some(c) => c,
        None => {
            proof {
                assert(false);
            }
            String::new()
        },
    }
}

/// The content of the stream's one string literal, or why the stream is not
/// one string literal.
pub fn one_str_literal<S>(token_stream: Vec<EzTokenTree<S>>) -> (r: Result<String, MacroError>)
    ensures
        str_result_view(r) == spec_one_str_literal(tokens_view(token_stream@)),
{
    proof {
        lemma_tokens_view_index(token_stream@);
    }
    if token_stream.len() == 0 {
        return Err(MacroError::NotEnoughInput);
    }
    let first = get_str_literal_content(&token_stream[0]);
    if first.is_none() || token_stream.len() > 1 {
        return Err(MacroError::OneStrLiteralOnly);
    }
    Ok(one_str_literal_or_panic(token_stream))
}

/// The tokens that end one line of a `concat!` argument list: a comma, a
/// newline character literal, and another comma.
pub open spec fn line_break<S>() -> Seq<OutView<S>> {
    seq![
        OutView::Token(TokenView::Punct(',', Spacing::Alone)),
        OutView::Char('\n'),
        OutView::Token(TokenView::Punct(',', Spacing::Alone)),
    ]
}

/// Whether the expansion tree is a comma.
pub open spec fn is_out_comma<S>(t: OutView<S>) -> bool {
    t matches OutView::Token(tok) && is_punct(tok, ',')
}

/// Ends the last expression of a non-empty list that does not yet end with a
/// comma.
pub open spec fn close_line<S>(s: Seq<OutView<S>>) -> Seq<OutView<S>> {
    if s.len() > 0 && !is_out_comma(s.last()) {
        s + line_break()
    } else {
        s
    }
}

/// The input items, with each comma turned into a line break.
pub open spec fn as_lines<S>(items: Seq<TokenView<S>>) -> Seq<OutView<S>>
    decreases items.len(),
{
    if items.len() == 0 {
        Seq::empty()
    } else {
        as_lines(items.drop_last()) + if is_punct(items.last(), ',') {
            line_break()
        } else {
            seq![OutView::Token(items.last())]
        }
    }
}

/// The list `exprs` extended by `items`, one line per expression.
pub open spec fn concat_lines<S>(exprs: Seq<OutView<S>>, items: Seq<TokenView<S>>) -> Seq<
    OutView<S>,
> {
    close_line(close_line(exprs) + as_lines(items))
}

fn push_line_break<S>(v: &mut Vec<OutTree<S>>)
    ensures
        outs_view(final(v)@) == outs_view(old(v)@) + line_break(),
{
    proof {
        lemma_outs_view_push(v@, OutTree::Token(EzTokenTree::EzPu(',', Spacing::Alone)));
    }
    v.push(OutTree::Token(EzTokenTree::EzPu(',', Spacing::Alone)));
    proof {
        lemma_outs_view_push(v@, OutTree::Char('\n'));
    }
    v.push(OutTree::Char('\n'));
    proof {
        lemma_outs_view_push(v@, OutTree::Token(EzTokenTree::EzPu(',', Spacing::Alone)));
    }
    v.push(OutTree::Token(EzTokenTree::EzPu(',', Spacing::Alone)));
    assert(outs_view(v@) =~= outs_view(old(v)@) + line_break());
}

fn is_comma<S>(t: &EzTokenTree<S>) -> (r: bool)
    ensures
        r == is_punct(token_view(*t), ','),
{
    match t {
        EzTokenTree::EzPu(c, _) => *c == ',',
        _ => false,
    }
}

fn ends_line<S>(t: &OutTree<S>) -> (r: bool)
    ensures
        r == is_out_comma(crate::token::out_view(*t)),
{
    match t {
        OutTree::Token(tok) => is_comma(tok),
        _ => false,
    }
}

fn close_line_exec<S>(v: &mut Vec<OutTree<S>>)
    ensures
        outs_view(final(v)@) == close_line(outs_view(old(v)@)),
{
    proof {
        crate::token::lemma_outs_view_index(v@);
    }
    let n: usize = v.len();
    if n > 0 && !ends_line(&v[n - 1]) {
        push_line_break(v);
    }
}

/// Extends a list of expressions meant for `concat!` with the given token
/// trees.
///
/// Each `,` among the items becomes a comma, a newline and another comma, so
/// that the `concat!` puts each expression on a line of its own. The list
/// always ends with a `,` afterwards, unless it is empty; it need not end with
/// one before.
pub fn extend_concat_as_lines<S>(concat_exprs: &mut Vec<OutTree<S>>, iter: Vec<EzTokenTree<S>>)
    ensures
        outs_view(final(concat_exprs)@) == concat_lines(
            outs_view(old(concat_exprs)@),
            tokens_view(iter@),
        ),
{
    close_line_exec(concat_exprs);
    let ghost start = outs_view(concat_exprs@);
    let ghost orig = iter@;
    let total: usize = iter.len();
    assert(orig.len() == total);
    let mut rest = iter;
    let mut k: usize = 0;
    while rest.len() > 0
        invariant
            k <= orig.len() <= usize::MAX,
            rest@ == orig.skip(k as int),
            outs_view(concat_exprs@) == start + as_lines(tokens_view(orig.take(k as int))),
        decreases rest.len(),
    {
        let t = rest.remove(0);
        proof {
            assert(t == orig[k as int]);
            assert(orig.take(k + 1) =~= orig.take(k as int).push(t));
            lemma_tokens_view_push(orig.take(k as int), t);
        }
        if is_comma(&t) {
            push_line_break(concat_exprs);
        } else {
            proof {
                lemma_outs_view_push(concat_exprs@, OutTree::Token(t));
            }
            concat_exprs.push(OutTree::Token(t));
        }
        k = k + 1;
        proof {
            let tv = tokens_view(orig.take(k as int));
            assert(tv.drop_last() == tokens_view(orig.take(k - 1)));
            assert(outs_view(concat_exprs@) =~= start + as_lines(tv));
            assert(rest@ =~= orig.skip(k as int));
        }
    }
    assert(orig.take(k as int) =~= orig);
    close_line_exec(concat_exprs);
}

/// The expression `concat!( args )`, its name carrying the span `call_site`.
pub open spec fn concat_call<S>(call_site: S, args: Seq<OutView<S>>) -> Seq<OutView<S>> {
    seq![
        OutView::Token(TokenView::Ident("concat"@, call_site)),
        OutView::Token(TokenView::Punct('!', Spacing::Alone)),
        OutView::Group(Delimiter::Parenthesis, args),
    ]
}

/// Makes the expression `concat!( args )`.
pub fn make_concat_call<S>(call_site: S, args: Vec<OutTree<S>>) -> (r: Vec<OutTree<S>>)
    ensures
        outs_view(r@) == concat_call(call_site, outs_view(args@)),
{
    let ghost a = args@;
    let name = OutTree::Token(EzTokenTree::EzId(String::from_str("concat"), call_site));
    let bang = OutTree::Token(EzTokenTree::EzPu('!', Spacing::Alone));
    let group = OutTree::Group(Delimiter::Parenthesis, args);
    let mut r: Vec<OutTree<S>> = Vec::new();
    proof {
        lemma_outs_view_push(r@, name);
    }
    r.push(name);
    proof {
        lemma_outs_view_push(r@, bang);
    }
    r.push(bang);
    proof {
        lemma_outs_view_push(r@, group);
    }
    r.push(group);
    assert(outs_view(r@) =~= concat_call(call_site, outs_view(a)));
    r
}

} // verus!
