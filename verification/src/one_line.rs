use vstd::prelude::*;

use crate::error::MacroError;
use crate::token::{lemma_outs_view_push, outs_view, tokens_view, EzTokenTree, OutTree, OutView, TokenView};
use crate::util::{one_str_literal, spec_one_str_literal, stream_result_view};

verus! {

/// The output of a macro that takes one string literal `s` and expands to the
/// string literal `before + s + after`.
pub open spec fn spec_wrap_literal<S>(
    ts: Seq<TokenView<S>>,
    before: Seq<char>,
    after: Seq<char>,
) -> Result<Seq<OutView<S>>, MacroError> {
    match spec_one_str_literal(ts) {
        Ok(s) => Ok(seq![OutView::Str(before + s + after)]),
        Err(e) => Err(e),
    }
}

/// What `a32_read_spsr_to` makes of its tokens.
pub open spec fn spec_a32_read_spsr_to<S>(ts: Seq<TokenView<S>>) -> Result<Seq<OutView<S>>, MacroError> {
    spec_wrap_literal(ts, "mrs "@, ", SPSR"@)
}

/// What `a32_write_spsr_from` makes of its tokens.
pub open spec fn spec_a32_write_spsr_from<S>(ts: Seq<TokenView<S>>) -> Result<
    Seq<OutView<S>>,
    MacroError,
> {
    spec_wrap_literal(ts, "msr "@, ", SPSR"@)
}

/// What `a32_fake_blx` makes of its tokens.
pub open spec fn spec_a32_fake_blx<S>(ts: Seq<TokenView<S>>) -> Result<Seq<OutView<S>>, MacroError> {
    spec_wrap_literal(ts, "add lr, pc, #0\nbx "@, ""@)
}

/// What `put_fn_in_section` makes of its tokens.
pub open spec fn spec_put_fn_in_section<S>(ts: Seq<TokenView<S>>) -> Result<
    Seq<OutView<S>>,
    MacroError,
> {
    spec_wrap_literal(ts, ".section "@, ",\"ax\",%progbits"@)
}

fn wrap_literal<S>(token_stream: Vec<EzTokenTree<S>>, before: &str, after: &str) -> (r: Result<
    Vec<OutTree<S>>,
    MacroError,
>)
    ensures
        stream_result_view(r) == spec_wrap_literal(tokens_view(token_stream@), before@, after@),
{
    match one_str_literal(token_stream) {
        Ok(s) => {
            let mut line = String::from_str(before);
            line.append(s.as_str());
            line.append(after);
            let mut out: Vec<OutTree<S>> = Vec::new();
            proof {
                lemma_outs_view_push(out@, OutTree::Str(line));
            }
            out.push(OutTree::Str(line));
            assert(outs_view(out@) =~= seq![OutView::<S>::Str(before@ + s@ + after@)]);
            Ok(out)
        },
        Err(e) => Err(e),
    }
}

/// Expands to one line of assembly that reads SPSR (with `mrs`) to the
/// register that the input's one string literal names (such as `"r0"` or
/// `"{temp}"`).
pub fn a32_read_spsr_to_impl<S>(token_stream: Vec<EzTokenTree<S>>) -> (r: Result<
    Vec<OutTree<S>>,
    MacroError,
>)
    ensures
        stream_result_view(r) == spec_a32_read_spsr_to(tokens_view(token_stream@)),
{
    wrap_literal(token_stream, "mrs ", ", SPSR")
}

/// Expands to one line of assembly that writes SPSR (with `msr`) from the
/// register that the input's one string literal names.
pub fn a32_write_spsr_from_impl<S>(token_stream: Vec<EzTokenTree<S>>) -> (r: Result<
    Vec<OutTree<S>>,
    MacroError,
>)
    ensures
        stream_result_view(r) == spec_a32_write_spsr_from(tokens_view(token_stream@)),
{
    wrap_literal(token_stream, "msr ", ", SPSR")
}

/// Expands to a "fake" `blx` for ARMv4T, which lacks the instruction: `lr` is
/// set to just after the `bx` to the register that the input's one string
/// literal names.
pub fn a32_fake_blx_impl<S>(token_stream: Vec<EzTokenTree<S>>) -> (r: Result<
    Vec<OutTree<S>>,
    MacroError,
>)
    ensures
        stream_result_view(r) == spec_a32_fake_blx(tokens_view(token_stream@)),
{
    wrap_literal(token_stream, "add lr, pc, #0\nbx ", "")
}

/// Expands to a `.section` directive that places the code that follows in the
/// section that the input's one string literal names, marked allocated and
/// executable.
pub fn put_fn_in_section_impl<S>(token_stream: Vec<EzTokenTree<S>>) -> (r: Result<
    Vec<OutTree<S>>,
    MacroError,
>)
    ensures
        stream_result_view(r) == spec_put_fn_in_section(tokens_view(token_stream@)),
{
    wrap_literal(token_stream, ".section ", ",\"ax\",%progbits")
}

} // verus!
