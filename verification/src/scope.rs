use vstd::prelude::*;

use crate::token::{
    lemma_outs_view_push, outs_view, tokens_view, EzTokenTree, OutTree, OutView, Spacing, TokenView,
};
use crate::util::{concat_call, concat_lines, extend_concat_as_lines, make_concat_call};

verus! {

/// The `concat!` arguments that wrap the lines `items` in `.code 32` and
/// `.code 16` directives.
pub open spec fn a32_scope_args<S>(items: Seq<TokenView<S>>) -> Seq<OutView<S>> {
    concat_lines(
        seq![
            OutView::Str(".code 32\n"@),
            OutView::Token(TokenView::Punct(',', Spacing::Alone)),
        ],
        items,
    ).push(OutView::Str(".code 16\n"@))
}

/// Places `.code 32` at the start and `.code 16` at the end of the input
/// sequence.
///
/// The input is zero or more expressions, separated by commas, that could each
/// be used within an `asm!` block. The output is a single `concat!`
/// expression (its name carrying the span `call_site`) with a newline after
/// each input expression and the `.code` directives at the start and end.
pub fn a32_within_t32_impl<S>(token_stream: Vec<EzTokenTree<S>>, call_site: S) -> (r: Vec<
    OutTree<S>,
>)
    ensures
        outs_view(r@) == concat_call(call_site, a32_scope_args(tokens_view(token_stream@))),
{
    let mut out_buffer: Vec<OutTree<S>> = Vec::new();
    let first = OutTree::Str(String::from_str(".code 32\n"));
    proof {
        lemma_outs_view_push(out_buffer@, first);
    }
    out_buffer.push(first);
    let comma = OutTree::Token(EzTokenTree::EzPu(',', Spacing::Alone));
    proof {
        lemma_outs_view_push(out_buffer@, comma);
    }
    out_buffer.push(comma);
    assert(outs_view(out_buffer@) =~= seq![
        OutView::Str(".code 32\n"@),
        OutView::Token(TokenView::Punct(',', Spacing::Alone)),
    ]);
    extend_concat_as_lines(&mut out_buffer, token_stream);
    let last = OutTree::Str(String::from_str(".code 16\n"));
    proof {
        lemma_outs_view_push(out_buffer@, last);
    }
    out_buffer.push(last);
    make_concat_call(call_site, out_buffer)
}

} // verus!
