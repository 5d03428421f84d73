use vstd::prelude::*;

verus! {

/// Why a macro refuses its input.
#[derive(Clone, Copy, Debug, PartialEq, Eq)]
pub enum MacroError {
    /// The input holds no token.
    NotEnoughInput,
    /// The input is not exactly one string literal.
    OneStrLiteralOnly,
    /// The input ends before all its parts were seen.
    TooFewTokens,
    /// Tokens follow the last part of the input.
    TooManyTokens,
    /// The first argument names no CPU mode.
    InvalidCpuMode,
    /// No comma follows the first argument.
    MissingCommaAfterFirstArg,
    /// The second setting is not `irq_masked`.
    ExpectedIrqMasked,
    /// No `=` follows `irq_masked`.
    ExpectedEqAfterIrqMasked,
    /// `irq_masked` is set to something other than `true` or `false`.
    IrqMaskedNotBool,
    /// No comma follows the second argument.
    MissingCommaAfterSecondArg,
    /// The third setting is not `fiq_masked`.
    ExpectedFiqMasked,
    /// No `=` follows `fiq_masked`.
    ExpectedEqAfterFiqMasked,
    /// `fiq_masked` is set to something other than `true` or `false`.
    FiqMaskedNotBool,
    /// The test is not a group.
    TestGroupMissing,
    /// The label is not a group.
    LabelGroupMissing,
    /// The body is not a group.
    BodyGroupMissing,
    /// The label group does not hold exactly one literal.
    LabelNotOneLiteral,
    /// The label literal is no valid `u32`.
    LabelNotU32,
    /// The test matches none of the known comparisons.
    UnknownTestExpression,
    /// An operand of the test is not a string literal.
    TestInputNotStr,
}

impl MacroError {
    /// The message that reports this error.
    pub open spec fn spec_message(self) -> Seq<char> {
        match self {
            MacroError::NotEnoughInput => "Not enough input"@,
            MacroError::OneStrLiteralOnly => "Provide one string literal only."@,
            MacroError::TooFewTokens => "too few tokens"@,
            MacroError::TooManyTokens => "too many tokens"@,
            MacroError::InvalidCpuMode => "First argument must be a valid cpu mode name"@,
            MacroError::MissingCommaAfterFirstArg => "must have comma after the first arg"@,
            MacroError::ExpectedIrqMasked => "second setting must be `irq_masked`"@,
            MacroError::ExpectedEqAfterIrqMasked => "after `irq_masked` must be a `=`"@,
            MacroError::IrqMaskedNotBool => "`irq_masked` must be set as `true` or `false`"@,
            MacroError::MissingCommaAfterSecondArg => "must have comma after the second arg"@,
            MacroError::ExpectedFiqMasked => "third setting must be `fiq_masked`"@,
            MacroError::ExpectedEqAfterFiqMasked => "after `fiq_masked` must be a `=`"@,
            MacroError::FiqMaskedNotBool => "`fiq_masked` must be set as `true` or `false`"@,
            MacroError::TestGroupMissing => "must have a group for the test"@,
            MacroError::LabelGroupMissing => "must have a group for the label"@,
            MacroError::BodyGroupMissing => "must have a group for the body"@,
            MacroError::LabelNotOneLiteral => "please provide only 1 literal for the label"@,
            MacroError::LabelNotU32 => "literal must be a valid u32"@,
            MacroError::UnknownTestExpression => "unknown test expression"@,
            MacroError::TestInputNotStr => "test input must be a str literal"@,
        }
    }

    /// The message that reports this error.
    pub fn message(&self) -> (m: &'static str)
        ensures
            m@ == self.spec_message(),
    {
        match self {
            MacroError::NotEnoughInput => "Not enough input",
            MacroError::OneStrLiteralOnly => "Provide one string literal only.",
            MacroError::TooFewTokens => "too few tokens",
            MacroError::TooManyTokens => "too many tokens",
            MacroError::InvalidCpuMode => "First argument must be a valid cpu mode name",
            MacroError::MissingCommaAfterFirstArg => "must have comma after the first arg",
            MacroError::ExpectedIrqMasked => "second setting must be `irq_masked`",
            MacroError::ExpectedEqAfterIrqMasked => "after `irq_masked` must be a `=`",
            MacroError::IrqMaskedNotBool => "`irq_masked` must be set as `true` or `false`",
            MacroError::MissingCommaAfterSecondArg => "must have comma after the second arg",
            MacroError::ExpectedFiqMasked => "third setting must be `fiq_masked`",
            MacroError::ExpectedEqAfterFiqMasked => "after `fiq_masked` must be a `=`",
            MacroError::FiqMaskedNotBool => "`fiq_masked` must be set as `true` or `false`",
            MacroError::TestGroupMissing => "must have a group for the test",
            MacroError::LabelGroupMissing => "must have a group for the label",
            MacroError::BodyGroupMissing => "must have a group for the body",
            MacroError::LabelNotOneLiteral => "please provide only 1 literal for the label",
            MacroError::LabelNotU32 => "literal must be a valid u32",
            MacroError::UnknownTestExpression => "unknown test expression",
            MacroError::TestInputNotStr => "test input must be a str literal",
        }
    }
}

/// A refusal of `a32_set_cpu_control`: the error, and for an invalid mode the
/// text of the token found where the mode name belongs (where that token has
/// one token's text).
#[derive(Debug, PartialEq, Eq)]
pub struct CpuControlError {
    /// Why the input is refused.
    pub error: MacroError,
    /// The text of the token that names no CPU mode.
    pub found: Option<String>,
}

/// The message that reports `error`, naming the token text `found` if given.
pub open spec fn spec_found_message(error: MacroError, found: Option<Seq<char>>) -> Seq<char> {
    match found {
        Some(text) => error.spec_message() + ", got `"@ + text + "`"@,
        None => error.spec_message(),
    }
}

impl CpuControlError {
    /// The message that reports this refusal.
    pub fn message(&self) -> (m: String)
        ensures
            m@ == spec_found_message(
                self.error,
                match self.found {
                    Some(t) => Some(t@),
                    None => None,
                },
            ),
    {
        let mut m = String::from_str(self.error.message());
        match &self.found {
            Some(t) => {
                m.append(", got `");
                m.append(t.as_str());
                m.append("`");
            },
            None => {},
        }
        m
    }
}

} // verus!
