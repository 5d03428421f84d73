use vstd::prelude::*;

use crate::error::MacroError;
use crate::text::{decimal, parse_u32, push_decimal, spec_parse_u32};
use crate::token::{
    ident_is, is_ident, is_literal, is_punct, is_punct_spaced, lemma_tokens_view_index,
    lemma_outs_view_push, outs_view, punct_is, token_view, tokens_view, EzTokenTree, OutTree, OutView,
    Spacing,
    TokenView,
};
use crate::util::{
    concat_call, concat_lines, extend_concat_as_lines, get_str_literal_content, literal_content,
    make_concat_call, stream_result_view,
};

verus! {

/// The condition code of the branch that skips the body: the negation of the
/// test `lhs op rhs`, where `op` is `==`, `!=`, or `<`, `<=`, `>`, `>=`
/// followed by `u` (unsigned) or `i` (signed).
pub open spec fn branch_condition<S>(test: Seq<TokenView<S>>) -> Option<Seq<char>> {
    if test.len() == 4 && is_literal(test[0]) && is_literal(test[3]) {
        if is_punct_spaced(test[1], '=', Spacing::Joint) && is_punct(test[2], '=') {
            Some("ne"@)
        } else if is_punct_spaced(test[1], '!', Spacing::Joint) && is_punct(test[2], '=') {
            Some("eq"@)
        } else if is_punct_spaced(test[1], '<', Spacing::Alone) && is_ident(test[2], "u"@) {
            Some("hs"@)
        } else if is_punct_spaced(test[1], '>', Spacing::Alone) && is_ident(test[2], "u"@) {
            Some("ls"@)
        } else if is_punct_spaced(test[1], '<', Spacing::Alone) && is_ident(test[2], "i"@) {
            Some("ge"@)
        } else if is_punct_spaced(test[1], '>', Spacing::Alone) && is_ident(test[2], "i"@) {
            Some("le"@)
        } else {
            None
        }
    } else if test.len() == 5 && is_literal(test[0]) && is_literal(test[4]) && is_punct(
        test[2],
        '=',
    ) {
        if is_punct_spaced(test[1], '>', Spacing::Joint) && is_ident(test[3], "u"@) {
            Some("lo"@)
        } else if is_punct_spaced(test[1], '<', Spacing::Joint) && is_ident(test[3], "u"@) {
            Some("hi"@)
        } else if is_punct_spaced(test[1], '>', Spacing::Joint) && is_ident(test[3], "i"@) {
            Some("lt"@)
        } else if is_punct_spaced(test[1], '<', Spacing::Joint) && is_ident(test[3], "i"@) {
            Some("gt"@)
        } else {
            None
        }
    } else {
        None
    }
}

/// The compare-and-branch lines that start a `when` block.
pub open spec fn when_header(lhs: Seq<char>, rhs: Seq<char>, cond: Seq<char>, label: u32) -> Seq<
    char,
> {
    "cmp "@ + lhs + ", "@ + rhs + "\nb"@ + cond + " "@ + decimal(label as nat) + "f\n"@
}

/// The label line that ends a `when` block.
pub open spec fn when_footer(label: u32) -> Seq<char> {
    decimal(label as nat) + ":\n"@
}

/// The token trees of a group.
pub open spec fn group_items<S>(t: TokenView<S>) -> Option<Seq<TokenView<S>>> {
    match t {
        TokenView::Group(_, items) => Some(items),
        _ => None,
    }
}

/// The label number that a label group's token trees hold.
pub open spec fn spec_label<S>(items: Seq<TokenView<S>>) -> Result<u32, MacroError> {
    if items.len() == 1 {
        match items[0] {
            TokenView::Literal(text) => match spec_parse_u32(text) {
                Some(n) => Ok(n),
                None => Err(MacroError::LabelNotU32),
            },
            _ => Err(MacroError::LabelNotOneLiteral),
        }
    } else {
        Err(MacroError::LabelNotOneLiteral)
    }
}

/// The `concat!` arguments of a `when` block, once its parts are read.
pub open spec fn when_args<S>(
    test: Seq<TokenView<S>>,
    label_items: Seq<TokenView<S>>,
    body: Seq<TokenView<S>>,
) -> Result<Seq<OutView<S>>, MacroError> {
    match spec_label(label_items) {
        Err(e) => Err(e),
        Ok(label) => match branch_condition(test) {
            None => Err(MacroError::UnknownTestExpression),
            Some(cond) => match literal_content(test[0]) {
                None => Err(MacroError::TestInputNotStr),
                Some(lhs) => match literal_content(test.last()) {
                    None => Err(MacroError::TestInputNotStr),
                    Some(rhs) => Ok(
                        concat_lines(
                            seq![
                                OutView::Str(when_header(lhs, rhs, cond, label)),
                                OutView::Token(TokenView::Punct(',', Spacing::Alone)),
                            ],
                            body,
                        ).push(OutView::Str(when_footer(label))),
                    ),
                },
            },
        },
    }
}

/// What `when` makes of the groups `(test)[label]{body}`.
pub open spec fn spec_when<S>(t: Seq<TokenView<S>>, call_site: S) -> Result<
    Seq<OutView<S>>,
    MacroError,
> {
    if t.len() < 1 {
        Err(MacroError::TooFewTokens)
    } else if group_items(t[0]) is None {
        Err(MacroError::TestGroupMissing)
    } else if t.len() < 2 {
        Err(MacroError::TooFewTokens)
    } else if group_items(t[1]) is None {
        Err(MacroError::LabelGroupMissing)
    } else if t.len() < 3 {
        Err(MacroError::TooFewTokens)
    } else if group_items(t[2]) is None {
        Err(MacroError::BodyGroupMissing)
    } else if t.len() > 3 {
        Err(MacroError::TooManyTokens)
    } else {
        match when_args(
            group_items(t[0]).unwrap(),
            group_items(t[1]).unwrap(),
            group_items(t[2]).unwrap(),
        ) {
            Ok(args) => Ok(concat_call(call_site, args)),
            Err(e) => Err(e),
        }
    }
}

fn is_group<S>(t: &EzTokenTree<S>) -> (r: bool)
    ensures
        r == group_items(token_view(*t)) is Some,
{
    match t {
        EzTokenTree::EzGroup(_, _) => true,
        _ => false,
    }
}

fn is_lit<S>(t: &EzTokenTree<S>) -> (r: bool)
    ensures
        r == is_literal(token_view(*t)),
{
    match t {
        EzTokenTree::EzLi(_) => true,
        _ => false,
    }
}

fn punct_spaced<S>(t: &EzTokenTree<S>, c: char, joint: bool) -> (r: bool)
    ensures
        r == is_punct_spaced(
            token_view(*t),
            c,
            if joint {
                Spacing::Joint
            } else {
                Spacing::Alone
            },
        ),
{
    match t {
        EzTokenTree::EzPu(c2, sp) => *c2 == c && match sp {
            Spacing::Joint => joint,
            Spacing::Alone => !joint,
        },
        _ => false,
    }
}

fn group_tokens<S>(t: EzTokenTree<S>) -> (r: Vec<EzTokenTree<S>>)
    requires
        group_items(token_view(t)) is Some,
    ensures
        group_items(token_view(t)) == Some(tokens_view(r@)),
{
    match t {
        EzTokenTree::EzGroup(_, v) => v,
        _ => {
            proof {
                assert(false);
            }
            Vec::new()
        },
    }
}

fn branch_cond<S>(test: &Vec<EzTokenTree<S>>) -> (r: Option<&'static str>)
    ensures
        match r {
            Some(c) => branch_condition(tokens_view(test@)) == Some(c@),
            None => branch_condition(tokens_view(test@)) is None,
        },
{
    proof {
        lemma_tokens_view_index(test@);
    }
    let n: usize = test.len();
    if n == 4 && is_lit(&test[0]) && is_lit(&test[3]) {
        if punct_spaced(&test[1], '=', true) && punct_is(&test[2], '=') {
            Some("ne")
        } else if punct_spaced(&test[1], '!', true) && punct_is(&test[2], '=') {
            Some("eq")
        } else if punct_spaced(&test[1], '<', false) && ident_is(&test[2], "u") {
            Some("hs")
        } else if punct_spaced(&test[1], '>', false) && ident_is(&test[2], "u") {
            Some("ls")
        } else if punct_spaced(&test[1], '<', false) && ident_is(&test[2], "i") {
            Some("ge")
        } else if punct_spaced(&test[1], '>', false) && ident_is(&test[2], "i") {
            Some("le")
        } else {
            None
        }
    } else if n == 5 && is_lit(&test[0]) && is_lit(&test[4]) && punct_is(&test[2], '=') {
        if punct_spaced(&test[1], '>', true) && ident_is(&test[3], "u") {
            Some("lo")
        } else if punct_spaced(&test[1], '<', true) && ident_is(&test[3], "u") {
            Some("hi")
        } else if punct_spaced(&test[1], '>', true) && ident_is(&test[3], "i") {
            Some("lt")
        } else if punct_spaced(&test[1], '<', true) && ident_is(&test[3], "i") {
            Some("gt")
        } else {
            None
        }
    } else {
        None
    }
}

fn read_label<S>(items: &Vec<EzTokenTree<S>>) -> (r: Result<u32, MacroError>)
    ensures
        r == spec_label(tokens_view(items@)),
{
    proof {
        lemma_tokens_view_index(items@);
    }
    if items.len() != 1 {
        return Err(MacroError::LabelNotOneLiteral);
    }
    match &items[0] {
        EzTokenTree::EzLi(text) => match parse_u32(text.as_str()) {
            Some(n) => Ok(n),
            None => Err(MacroError::LabelNotU32),
        },
        _ => Err(MacroError::LabelNotOneLiteral),
    }
}

/// Emits code that performs the test and skips past the body when the test
/// does not pass.
///
/// The input is three groups, with any delimiters: the test, such as
/// `("r0" != "#0")`; the number of the local label placed at the end of the
/// body, such as `[1]`; and the lines of the body, separated by commas. The
/// output is a `concat!` expression (its name carrying the span `call_site`)
/// of a compare, a branch on the negated condition, the body lines, and the
/// label.
pub fn when_impl<S>(token_stream: Vec<EzTokenTree<S>>, call_site: S) -> (r: Result<
    Vec<OutTree<S>>,
    MacroError,
>)
    ensures
        stream_result_view(r) == spec_when(tokens_view(token_stream@), call_site),
{
    proof {
        lemma_tokens_view_index(token_stream@);
    }
    let ghost tv = tokens_view(token_stream@);
    let n: usize = token_stream.len();
    if n < 1 {
        return Err(MacroError::TooFewTokens);
    }
    if !is_group(&token_stream[0]) {
        return Err(MacroError::TestGroupMissing);
    }
    if n < 2 {
        return Err(MacroError::TooFewTokens);
    }
    if !is_group(&token_stream[1]) {
        return Err(MacroError::LabelGroupMissing);
    }
    if n < 3 {
        return Err(MacroError::TooFewTokens);
    }
    if !is_group(&token_stream[2]) {
        return Err(MacroError::BodyGroupMissing);
    }
    if n > 3 {
        return Err(MacroError::TooManyTokens);
    }
    let mut ts = token_stream;
    let test_tree = ts.remove(0);
    let label_tree = ts.remove(0);
    let body_tree = ts.remove(0);
    let test = group_tokens(test_tree);
    let label_items = group_tokens(label_tree);
    let body = group_tokens(body_tree);
    let ghost test_v = tokens_view(test@);
    let ghost body_v = tokens_view(body@);
    let label = match read_label(&label_items) {
        Ok(l) => l,
        Err(e) => return Err(e),
    };
    let cond = match branch_cond(&test) {
        Some(c) => c,
        None => return Err(MacroError::UnknownTestExpression),
    };
    proof {
        lemma_tokens_view_index(test@);
    }
    let lhs = match get_str_literal_content(&test[0]) {
        Some(s) => s,
        None => return Err(MacroError::TestInputNotStr),
    };
    let rhs = match get_str_literal_content(&test[test.len() - 1]) {
        Some(s) => s,
        None => return Err(MacroError::TestInputNotStr),
    };
    let mut header = String::from_str("cmp ");
    header.append(lhs.as_str());
    header.append(", ");
    header.append(rhs.as_str());
    header.append("\nb");
    header.append(cond);
    header.append(" ");
    push_decimal(&mut header, label as u64);
    header.append("f\n");
    let mut footer = String::new();
    push_decimal(&mut footer, label as u64);
    footer.append(":\n");
    let mut out_buffer: Vec<OutTree<S>> = Vec::new();
    let first = OutTree::Str(header);
    proof {
        lemma_outs_view_push(out_buffer@, first);
    }
    out_buffer.push(first);
    let comma = OutTree::Token(EzTokenTree::EzPu(',', Spacing::Alone));
    proof {
        lemma_outs_view_push(out_buffer@, comma);
    }
    out_buffer.push(comma);
    assert(outs_view(out_buffer@) =~= seq![
        OutView::Str(when_header(lhs@, rhs@, cond@, label)),
        OutView::Token(TokenView::Punct(',', Spacing::Alone)),
    ]);
    extend_concat_as_lines(&mut out_buffer, body);
    let last = OutTree::Str(footer);
    proof {
        lemma_outs_view_push(out_buffer@, last);
        assert(footer@ =~= when_footer(label));
    }
    out_buffer.push(last);
    Ok(make_concat_call(call_site, out_buffer))
}

} // verus!
