use vstd::prelude::*;

use crate::error::{CpuControlError, MacroError};
use crate::token::{
    lemma_outs_view_push, lemma_tokens_view_index, outs_view, text_is, token_text, token_text_of,
    token_view, tokens_view, EzTokenTree, OutTree, OutView, TokenView,
};
use crate::util::{get_bool, opt_str_view, token_bool};

verus! {

/// The mode bits (`MMMMM` of CPSR) of the CPU mode that the value's text
/// names by its long or its short name.
pub open spec fn cpu_mode_bits<S>(t: TokenView<S>) -> Option<Seq<char>> {
    match token_text(t) {
        Some(s) => if s == "User"@ || s == "usr"@ {
            Some("10000"@)
        } else if s == "FIQ"@ || s == "fiq"@ {
            Some("10001"@)
        } else if s == "IRQ"@ || s == "irq"@ {
            Some("10010"@)
        } else if s == "Supervisor"@ || s == "svc"@ {
            Some("10011"@)
        } else if s == "System"@ || s == "sys"@ {
            Some("11111"@)
        } else {
            None
        },
        None => None,
    }
}

/// Whether the value prints as `text`.
pub open spec fn has_text<S>(t: TokenView<S>, text: Seq<char>) -> bool {
    token_text(t) == Some(text)
}

/// A refusal of `a32_set_cpu_control` that names no token.
pub open spec fn refuse<S>(e: MacroError) -> Result<Seq<OutView<S>>, (MacroError, Option<Seq<char>>)> {
    Err((e, None))
}

/// The value of a result of `a32_set_cpu_control`.
pub open spec fn cpu_result_view<S>(r: Result<Vec<OutTree<S>>, CpuControlError>) -> Result<
    Seq<OutView<S>>,
    (MacroError, Option<Seq<char>>),
> {
    match r {
        Ok(v) => Ok(outs_view(v@)),
        Err(e) => Err((e.error, opt_str_view(e.found))),
    }
}

/// The digit of a flag bit.
pub open spec fn bit_char(b: bool) -> Seq<char> {
    if b {
        "1"@
    } else {
        "0"@
    }
}

/// The instruction that sets the control bits of CPSR (`I F T MMMMM`, with
/// `T` left as 0).
pub open spec fn cpu_control_line(mode: Seq<char>, irq_masked: bool, fiq_masked: bool) -> Seq<
    char,
> {
    "msr CPSR_c, #0b"@ + bit_char(irq_masked) + bit_char(fiq_masked) + "0"@ + mode
}

/// What `a32_set_cpu_control` makes of the tokens
/// `{mode_name}, irq_masked = {bool}, fiq_masked = {bool}`. Each part but the
/// two flags is compared by the text its token prints as; the flags must be
/// the identifiers `true` or `false`.
pub open spec fn spec_a32_set_cpu_control<S>(t: Seq<TokenView<S>>) -> Result<
    Seq<OutView<S>>,
    (MacroError, Option<Seq<char>>),
> {
    if t.len() < 1 {
        refuse(MacroError::TooFewTokens)
    } else if cpu_mode_bits(t[0]) is None {
        Err((MacroError::InvalidCpuMode, token_text(t[0])))
    } else if t.len() < 2 {
        refuse(MacroError::TooFewTokens)
    } else if !has_text(t[1], ","@) {
        refuse(MacroError::MissingCommaAfterFirstArg)
    } else if t.len() < 3 {
        refuse(MacroError::TooFewTokens)
    } else if !has_text(t[2], "irq_masked"@) {
        refuse(MacroError::ExpectedIrqMasked)
    } else if t.len() < 4 {
        refuse(MacroError::TooFewTokens)
    } else if !has_text(t[3], "="@) {
        refuse(MacroError::ExpectedEqAfterIrqMasked)
    } else if t.len() < 5 {
        refuse(MacroError::TooFewTokens)
    } else if token_bool(t[4]) is None {
        refuse(MacroError::IrqMaskedNotBool)
    } else if t.len() < 6 {
        refuse(MacroError::TooFewTokens)
    } else if !has_text(t[5], ","@) {
        refuse(MacroError::MissingCommaAfterSecondArg)
    } else if t.len() < 7 {
        refuse(MacroError::TooFewTokens)
    } else if !has_text(t[6], "fiq_masked"@) {
        refuse(MacroError::ExpectedFiqMasked)
    } else if t.len() < 8 {
        refuse(MacroError::TooFewTokens)
    } else if !has_text(t[7], "="@) {
        refuse(MacroError::ExpectedEqAfterFiqMasked)
    } else if t.len() < 9 {
        refuse(MacroError::TooFewTokens)
    } else if token_bool(t[8]) is None {
        refuse(MacroError::FiqMaskedNotBool)
    } else if t.len() > 9 {
        refuse(MacroError::TooManyTokens)
    } else {
        Ok(
            seq![
                OutView::Str(
                    cpu_control_line(
                        cpu_mode_bits(t[0]).unwrap(),
                        token_bool(t[4]).unwrap(),
                        token_bool(t[8]).unwrap(),
                    ),
                ),
            ],
        )
    }
}

fn mode_bits<S>(t: &EzTokenTree<S>) -> (r: Option<&'static str>)
    ensures
        match r {
            Some(m) => cpu_mode_bits(token_view(*t)) == Some(m@),
            None => cpu_mode_bits(token_view(*t)) is None,
        },
{
    if text_is(t, "User") || text_is(t, "usr") {
        Some("10000")
    } else if text_is(t, "FIQ") || text_is(t, "fiq") {
        Some("10001")
    } else if text_is(t, "IRQ") || text_is(t, "irq") {
        Some("10010")
    } else if text_is(t, "Supervisor") || text_is(t, "svc") {
        Some("10011")
    } else if text_is(t, "System") || text_is(t, "sys") {
        Some("11111")
    } else {
        None
    }
}

fn bit_str(b: bool) -> (s: &'static str)
    ensures
        s@ == bit_char(b),
{
    if b {
        "1"
    } else {
        "0"
    }
}

/// Generates the assembly line that sets the CPU control bits.
///
/// The input must be `{mode_name}, irq_masked = {bool}, fiq_masked = {bool}`,
/// where the mode is named by its long or short name: `User`/`usr`,
/// `FIQ`/`fiq`, `IRQ`/`irq`, `Supervisor`/`svc` or `System`/`sys`. Each
/// part is compared by the kind and text of its token; a group is never taken
/// for the token it holds.
pub fn a32_set_cpu_control_impl<S>(token_stream: Vec<EzTokenTree<S>>) -> (r: Result<
    Vec<OutTree<S>>,
    CpuControlError,
>)
    ensures
        cpu_result_view(r) == spec_a32_set_cpu_control(tokens_view(token_stream@)),
{
    proof {
        lemma_tokens_view_index(token_stream@);
    }
    let t = &token_stream;
    let n: usize = t.len();
    if n < 1 {
        return Err(refusal(MacroError::TooFewTokens));
    }
    let mode = match mode_bits(&t[0]) {
        Some(m) => m,
        None => return Err(CpuControlError { error: MacroError::InvalidCpuMode, found: token_text_of(&t[0]) }),
    };
    if n < 2 {
        return Err(refusal(MacroError::TooFewTokens));
    }
    if !text_is(&t[1], ",") {
        return Err(refusal(MacroError::MissingCommaAfterFirstArg));
    }
    if n < 3 {
        return Err(refusal(MacroError::TooFewTokens));
    }
    if !text_is(&t[2], "irq_masked") {
        return Err(refusal(MacroError::ExpectedIrqMasked));
    }
    if n < 4 {
        return Err(refusal(MacroError::TooFewTokens));
    }
    if !text_is(&t[3], "=") {
        return Err(refusal(MacroError::ExpectedEqAfterIrqMasked));
    }
    if n < 5 {
        return Err(refusal(MacroError::TooFewTokens));
    }
    let i = match get_bool(&t[4]) {
        Some(b) => b,
        None => return Err(refusal(MacroError::IrqMaskedNotBool)),
    };
    if n < 6 {
        return Err(refusal(MacroError::TooFewTokens));
    }
    if !text_is(&t[5], ",") {
        return Err(refusal(MacroError::MissingCommaAfterSecondArg));
    }
    if n < 7 {
        return Err(refusal(MacroError::TooFewTokens));
    }
    if !text_is(&t[6], "fiq_masked") {
        return Err(refusal(MacroError::ExpectedFiqMasked));
    }
    if n < 8 {
        return Err(refusal(MacroError::TooFewTokens));
    }
    if !text_is(&t[7], "=") {
        return Err(refusal(MacroError::ExpectedEqAfterFiqMasked));
    }
    if n < 9 {
        return Err(refusal(MacroError::TooFewTokens));
    }
    let f = match get_bool(&t[8]) {
        Some(b) => b,
        None => return Err(refusal(MacroError::FiqMaskedNotBool)),
    };
    if n > 9 {
        return Err(refusal(MacroError::TooManyTokens));
    }
    let mut line = String::from_str("msr CPSR_c, #0b");
    line.append(bit_str(i));
    line.append(bit_str(f));
    line.append("0");
    line.append(mode);
    let mut out: Vec<OutTree<S>> = Vec::new();
    proof {
        lemma_outs_view_push(out@, OutTree::Str(line));
    }
    out.push(OutTree::Str(line));
    assert(outs_view(out@) =~= seq![OutView::<S>::Str(cpu_control_line(mode@, i, f))]);
    Ok(out)
}

fn refusal(error: MacroError) -> (r: CpuControlError)
    ensures
        r.error == error,
        r.found is None,
{
    CpuControlError { error, found: None }
}

} // verus!
