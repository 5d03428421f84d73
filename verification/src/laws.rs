use vstd::prelude::*;

use crate::cpu_control::spec_a32_set_cpu_control;
use crate::text::{all_digits, decimal, digit_char, digits_value, is_digit, spec_parse_u32};
use crate::token::{is_punct, Delimiter, OutView, TokenView};
use crate::when::{branch_condition, spec_when, when_args, when_footer, when_header};
use crate::one_line::{
    spec_a32_fake_blx, spec_a32_read_spsr_to, spec_a32_write_spsr_from, spec_put_fn_in_section,
};
use crate::scope::a32_scope_args;
use crate::token::Spacing;
use crate::util::{
    as_lines, close_line, concat_lines, is_out_comma, line_break, local_label, local_label_prefix,
    spec_one_str_literal,
};

verus! {

proof fn lemma_decimal(n: nat)
    ensures
        decimal(n).len() > 0,
        all_digits(decimal(n)),
        digits_value(decimal(n)) == n,
        decimal(n)[0] != '+',
    decreases n,
{
    if n < 10 {
        assert(decimal(n).drop_last() =~= Seq::<char>::empty());
        assert(is_digit(decimal(n)[0]));
        assert(digit_char(n) as int == 48 + n);
        assert(digits_value(Seq::<char>::empty()) == 0);
    } else {
        lemma_decimal(n / 10);
        let d = decimal(n);
        assert(d.drop_last() =~= decimal(n / 10));
        assert(is_digit(digit_char(n % 10)));
        assert(digit_char(n % 10) as int == 48 + n % 10);
        assert(n == (n / 10) * 10 + n % 10) by (nonlinear_arith);
        assert forall|i: int| 0 <= i < d.len() implies #[trigger] is_digit(d[i]) by {
            if i < d.len() - 1 {
                assert(d[i] == decimal(n / 10)[i]);
            }
        }
    }
}

/// Reading back the decimal text of a `u32` gives the number again.
pub proof fn law_parse_u32_reads_decimal(n: u32)
    ensures
        spec_parse_u32(decimal(n as nat)) == Some(n),
{
    lemma_decimal(n as nat);
}

/// Different numbers give different local labels, so every label that the
/// counter hands out before it wraps around is unique.
pub proof fn law_local_labels_unique(a: u64, b: u64)
    ensures
        local_label(a) == local_label(b) ==> a == b,
{
    if local_label(a) == local_label(b) {
        let k = local_label_prefix().len() as int;
        assert(local_label(a).skip(k) =~= decimal(a as nat));
        assert(local_label(b).skip(k) =~= decimal(b as nat));
        lemma_decimal(a as nat);
        lemma_decimal(b as nat);
    }
}

/// A token stream of one quoted string literal is read back as the text
/// between the quotes.
pub proof fn law_quoted_literal_reads_back<S>(content: Seq<char>)
    ensures
        spec_one_str_literal(seq![TokenView::<S>::Literal(seq!['"'] + content + seq!['"'])])
            == Ok::<Seq<char>, crate::error::MacroError>(content),
{
    let text = seq!['"'] + content + seq!['"'];
    assert(text.subrange(1, text.len() - 1) =~= content);
}

/// Unless it is empty, a list extended for `concat!` ends with a comma.
pub proof fn law_concat_lines_end_with_comma<S>(exprs: Seq<OutView<S>>, items: Seq<TokenView<S>>)
    ensures
        concat_lines(exprs, items).len() == 0 || is_out_comma(concat_lines(exprs, items).last()),
{
}

/// The list being extended is kept as the start of the result.
pub proof fn law_concat_lines_keep_exprs<S>(exprs: Seq<OutView<S>>, items: Seq<TokenView<S>>)
    ensures
        exprs.len() <= concat_lines(exprs, items).len(),
        concat_lines(exprs, items).subrange(0, exprs.len() as int) == exprs,
{
    let r = concat_lines(exprs, items);
    assert(r.subrange(0, exprs.len() as int) =~= exprs);
}

/// A comma after the last expression changes nothing: one line of input may
/// be given with or without it.
pub proof fn law_trailing_comma_changes_nothing<S>(
    exprs: Seq<OutView<S>>,
    items: Seq<TokenView<S>>,
    comma: TokenView<S>,
)
    requires
        items.len() > 0,
        !is_punct(items.last(), ','),
        is_punct(comma, ','),
    ensures
        concat_lines(exprs, items.push(comma)) == concat_lines(exprs, items),
{
    assert(items.push(comma).drop_last() =~= items);
    let lines = as_lines(items);
    assert(lines =~= as_lines(items.drop_last()) + seq![OutView::Token(items.last())]);
    let base = close_line(exprs) + lines;
    assert(base.last() == OutView::Token(items.last()));
    assert(close_line(exprs) + as_lines(items.push(comma)) =~= base + line_break());
    assert(close_line(base) =~= base + line_break());
}

/// The CPSR control line keeps the `T` bit clear and holds the `I`, `F`,
/// `T` and five mode bits after `#0b`.
pub proof fn law_cpu_control_leaves_t_bit_clear<S>(t: Seq<TokenView<S>>)
    ensures
        match spec_a32_set_cpu_control(t) {
            Ok(out) => out.len() == 1 && match out[0] {
                OutView::Str(line) => line.len() == 23 && line[17] == '0',
                _ => false,
            },
            Err(_) => true,
        },
{
    reveal_strlit("msr CPSR_c, #0b");
    reveal_strlit("0");
    reveal_strlit("1");
    reveal_strlit("10000");
    reveal_strlit("10001");
    reveal_strlit("10010");
    reveal_strlit("10011");
    reveal_strlit("11111");
}

/// `when` does not care which delimiters its three groups use.
pub proof fn law_when_ignores_delimiters<S>(
    test: Seq<TokenView<S>>,
    label: Seq<TokenView<S>>,
    body: Seq<TokenView<S>>,
    d: (Delimiter, Delimiter, Delimiter),
    e: (Delimiter, Delimiter, Delimiter),
    call_site: S,
)
    ensures
        spec_when(
            seq![
                TokenView::Group(d.0, test),
                TokenView::Group(d.1, label),
                TokenView::Group(d.2, body),
            ],
            call_site,
        ) == spec_when(
            seq![
                TokenView::Group(e.0, test),
                TokenView::Group(e.1, label),
                TokenView::Group(e.2, body),
            ],
            call_site,
        ),
{
}

/// The text of a string literal whose content is `c`.
pub open spec fn quoted(c: Seq<char>) -> Seq<char> {
    seq!['"'] + c + seq!['"']
}

/// Each one-line macro copies the content of its string literal whole and
/// unchanged into its line.
pub proof fn law_one_line_macros_copy_the_content<S>(c: Seq<char>)
    ensures
        spec_a32_read_spsr_to(seq![TokenView::<S>::Literal(quoted(c))]) == Ok::<
            Seq<OutView<S>>,
            crate::error::MacroError,
        >(seq![OutView::Str("mrs "@ + c + ", SPSR"@)]),
        spec_a32_write_spsr_from(seq![TokenView::<S>::Literal(quoted(c))]) == Ok::<
            Seq<OutView<S>>,
            crate::error::MacroError,
        >(seq![OutView::Str("msr "@ + c + ", SPSR"@)]),
        spec_a32_fake_blx(seq![TokenView::<S>::Literal(quoted(c))]) == Ok::<
            Seq<OutView<S>>,
            crate::error::MacroError,
        >(seq![OutView::Str("add lr, pc, #0\nbx "@ + c)]),
        spec_put_fn_in_section(seq![TokenView::<S>::Literal(quoted(c))]) == Ok::<
            Seq<OutView<S>>,
            crate::error::MacroError,
        >(seq![OutView::Str(".section "@ + c + ",\"ax\",%progbits"@)]),
{
    law_quoted_literal_reads_back::<S>(c);
    assert(seq!['"'] + c + seq!['"'] == quoted(c));
    assert("add lr, pc, #0\nbx "@ + c + ""@ =~= "add lr, pc, #0\nbx "@ + c) by {
        reveal_strlit("");
    }
}

/// The ARM encoding of a CPU mode, by its long or its short name.
pub open spec fn arm_mode_encoding(name: Seq<char>) -> Option<Seq<char>> {
    if name == "User"@ || name == "usr"@ {
        Some("10000"@)
    } else if name == "FIQ"@ || name == "fiq"@ {
        Some("10001"@)
    } else if name == "IRQ"@ || name == "irq"@ {
        Some("10010"@)
    } else if name == "Supervisor"@ || name == "svc"@ {
        Some("10011"@)
    } else if name == "System"@ || name == "sys"@ {
        Some("11111"@)
    } else {
        None
    }
}

/// The name of a boolean.
pub open spec fn bool_name(b: bool) -> Seq<char> {
    if b {
        "true"@
    } else {
        "false"@
    }
}

/// The digit of a boolean flag.
pub open spec fn flag_digit(b: bool) -> Seq<char> {
    if b {
        "1"@
    } else {
        "0"@
    }
}

/// `{mode}, irq_masked = {irq}, fiq_masked = {fiq}` sets CPSR's control bits to
/// the `I` flag, the `F` flag, a clear `T` bit and the mode's ARM encoding;
/// the long and short name of a mode give the same line.
pub proof fn law_cpu_control_line<S>(t: Seq<TokenView<S>>, mode: Seq<char>, irq: bool, fiq: bool)
    requires
        t.len() == 9,
        t[0] matches TokenView::Ident(s, _) && s == mode,
        arm_mode_encoding(mode) is Some,
        t[1] matches TokenView::Punct(c, _) && c == ',',
        t[2] matches TokenView::Ident(s, _) && s == "irq_masked"@,
        t[3] matches TokenView::Punct(c, _) && c == '=',
        t[4] matches TokenView::Ident(s, _) && s == bool_name(irq),
        t[5] matches TokenView::Punct(c, _) && c == ',',
        t[6] matches TokenView::Ident(s, _) && s == "fiq_masked"@,
        t[7] matches TokenView::Punct(c, _) && c == '=',
        t[8] matches TokenView::Ident(s, _) && s == bool_name(fiq),
    ensures
        spec_a32_set_cpu_control(t) == Ok::<
            Seq<OutView<S>>,
            (crate::error::MacroError, Option<Seq<char>>),
        >(
            seq![
                OutView::Str(
                    "msr CPSR_c, #0b"@ + flag_digit(irq) + flag_digit(fiq) + "0"@
                        + arm_mode_encoding(mode).unwrap(),
                ),
            ],
        ),
{
    reveal_strlit("User");
    reveal_strlit("usr");
    reveal_strlit("FIQ");
    reveal_strlit("fiq");
    reveal_strlit("IRQ");
    reveal_strlit("irq");
    reveal_strlit("Supervisor");
    reveal_strlit("svc");
    reveal_strlit("System");
    reveal_strlit("sys");
    reveal_strlit(",");
    reveal_strlit("=");
    reveal_strlit("true");
    reveal_strlit("false");
    reveal_strlit("irq_masked");
    reveal_strlit("fiq_masked");
    assert(","@ =~= seq![',']);
    assert("="@ =~= seq!['=']);
    assert(crate::token::token_text(t[1]) == Some(","@));
    assert(crate::token::token_text(t[3]) == Some("="@));
    assert(crate::token::token_text(t[5]) == Some(","@));
    assert(crate::token::token_text(t[7]) == Some("="@));
    assert("true"@.len() != "false"@.len());
    assert(crate::util::token_bool(t[4]) == Some(irq));
    assert(crate::util::token_bool(t[8]) == Some(fiq));
    assert(crate::cpu_control::cpu_mode_bits(t[0]) == arm_mode_encoding(mode));
}

/// The label placed after a `when` block is the number the label group
/// holds, and it is the target that the branch jumps forward to.
pub proof fn law_when_label_is_branch_target<S>(t: Seq<TokenView<S>>, call_site: S)
    ensures
        match spec_when(t, call_site) {
            Ok(out) => match (t[1], out[2]) {
                (TokenView::Group(_, label), OutView::Group(d, args)) => match label[0] {
                    TokenView::Literal(text) => match spec_parse_u32(text) {
                        Some(n) => {
                            &&& d == Delimiter::Parenthesis
                            &&& args.len() >= 2
                            &&& args.last() == OutView::<S>::Str(decimal(n as nat) + ":\n"@)
                            &&& exists|h: Seq<char>, p: Seq<char>|
                                args[0] == OutView::<S>::Str(h) && h == p + " "@ + decimal(
                                    n as nat,
                                ) + "f\n"@
                        },
                        None => false,
                    },
                    _ => false,
                },
                _ => false,
            },
            Err(_) => true,
        },
{
    if let Ok(out) = spec_when(t, call_site) {
        let test = crate::when::group_items(t[0]).unwrap();
        let label = crate::when::group_items(t[1]).unwrap();
        let body = crate::when::group_items(t[2]).unwrap();
        let n = crate::when::spec_label(label)->Ok_0;
        let cond = branch_condition(test).unwrap();
        let lhs = crate::util::literal_content(test[0]).unwrap();
        let rhs = crate::util::literal_content(test.last()).unwrap();
        let exprs = seq![
            OutView::<S>::Str(when_header(lhs, rhs, cond, n)),
            OutView::Token(TokenView::Punct(',', Spacing::Alone)),
        ];
        law_concat_lines_keep_exprs(exprs, body);
        let lines = concat_lines(exprs, body);
        assert(lines.subrange(0, 2)[0] == lines[0]);
        let h = when_header(lhs, rhs, cond, n);
        let p = "cmp "@ + lhs + ", "@ + rhs + "\nb"@ + cond;
        assert(h == p + " "@ + decimal(n as nat) + "f\n"@);
        assert(when_footer(n) == decimal(n as nat) + ":\n"@);
    }
}

/// `when` branches past the body on the negation of its test: `==` and `!=`
/// regardless of signedness.
pub proof fn law_when_equality_tests<S>(a: Seq<char>, b: Seq<char>, sp: Spacing)
    ensures
        branch_condition(
            seq![
                TokenView::<S>::Literal(a),
                TokenView::Punct('=', Spacing::Joint),
                TokenView::Punct('=', sp),
                TokenView::Literal(b),
            ],
        ) == Some("ne"@),
        branch_condition(
            seq![
                TokenView::<S>::Literal(a),
                TokenView::Punct('!', Spacing::Joint),
                TokenView::Punct('=', sp),
                TokenView::Literal(b),
            ],
        ) == Some("eq"@),
{
}

/// `when` branches past the body on the negation of a strict comparison:
/// unsigned `<u` skips on `hs`, `>u` on `ls`; signed `<i` on `ge`, `>i` on `le`.
pub proof fn law_when_strict_comparisons<S>(a: Seq<char>, b: Seq<char>, sp: S)
    ensures
        branch_condition(
            seq![
                TokenView::<S>::Literal(a),
                TokenView::Punct('<', Spacing::Alone),
                TokenView::Ident("u"@, sp),
                TokenView::Literal(b),
            ],
        ) == Some("hs"@),
        branch_condition(
            seq![
                TokenView::<S>::Literal(a),
                TokenView::Punct('>', Spacing::Alone),
                TokenView::Ident("u"@, sp),
                TokenView::Literal(b),
            ],
        ) == Some("ls"@),
        branch_condition(
            seq![
                TokenView::<S>::Literal(a),
                TokenView::Punct('<', Spacing::Alone),
                TokenView::Ident("i"@, sp),
                TokenView::Literal(b),
            ],
        ) == Some("ge"@),
        branch_condition(
            seq![
                TokenView::<S>::Literal(a),
                TokenView::Punct('>', Spacing::Alone),
                TokenView::Ident("i"@, sp),
                TokenView::Literal(b),
            ],
        ) == Some("le"@),
{
    reveal_strlit("u");
    reveal_strlit("i");
    assert("u"@[0] != "i"@[0]);
}

/// `when` branches past the body on the negation of a non-strict comparison:
/// unsigned `>=u` skips on `lo`, `<=u` on `hi`; signed `>=i` on `lt`, `<=i` on
/// `gt`.
pub proof fn law_when_non_strict_comparisons<S>(a: Seq<char>, b: Seq<char>, eq: Spacing, sp: S)
    ensures
        branch_condition(
            seq![
                TokenView::<S>::Literal(a),
                TokenView::Punct('>', Spacing::Joint),
                TokenView::Punct('=', eq),
                TokenView::Ident("u"@, sp),
                TokenView::Literal(b),
            ],
        ) == Some("lo"@),
        branch_condition(
            seq![
                TokenView::<S>::Literal(a),
                TokenView::Punct('<', Spacing::Joint),
                TokenView::Punct('=', eq),
                TokenView::Ident("u"@, sp),
                TokenView::Literal(b),
            ],
        ) == Some("hi"@),
        branch_condition(
            seq![
                TokenView::<S>::Literal(a),
                TokenView::Punct('>', Spacing::Joint),
                TokenView::Punct('=', eq),
                TokenView::Ident("i"@, sp),
                TokenView::Literal(b),
            ],
        ) == Some("lt"@),
        branch_condition(
            seq![
                TokenView::<S>::Literal(a),
                TokenView::Punct('<', Spacing::Joint),
                TokenView::Punct('=', eq),
                TokenView::Ident("i"@, sp),
                TokenView::Literal(b),
            ],
        ) == Some("gt"@),
{
    reveal_strlit("u");
    reveal_strlit("i");
    assert("u"@[0] != "i"@[0]);
}

/// The lines of a `t32_with_a32_scope` block always start with the
/// `.code 32` directive and end with the `.code 16` directive, after a comma
/// that closes the last line.
pub proof fn law_scope_is_wrapped_in_code_directives<S>(items: Seq<TokenView<S>>)
    ensures
        a32_scope_args(items).len() >= 3,
        a32_scope_args(items)[0] == OutView::<S>::Str(".code 32\n"@),
        a32_scope_args(items).last() == OutView::<S>::Str(".code 16\n"@),
        is_out_comma(a32_scope_args(items)[a32_scope_args(items).len() - 2]),
{
    let exprs = seq![
        OutView::<S>::Str(".code 32\n"@),
        OutView::Token(TokenView::Punct(',', Spacing::Alone)),
    ];
    law_concat_lines_keep_exprs(exprs, items);
    law_concat_lines_end_with_comma(exprs, items);
    let lines = concat_lines(exprs, items);
    assert(lines.subrange(0, 2)[0] == lines[0]);
}

proof fn lemma_as_lines_without_commas<S>(items: Seq<TokenView<S>>)
    requires
        forall|i: int| 0 <= i < items.len() ==> !is_punct(#[trigger] items[i], ','),
    ensures
        as_lines(items) == items.map_values(|t: TokenView<S>| OutView::Token(t)),
    decreases items.len(),
{
    if items.len() > 0 {
        let rest = items.drop_last();
        assert forall|i: int| 0 <= i < rest.len() implies !is_punct(#[trigger] rest[i], ',') by {
            assert(rest[i] == items[i]);
        }
        lemma_as_lines_without_commas(rest);
        assert(!is_punct(items[items.len() - 1], ','));
        assert(as_lines(items) =~= items.map_values(|t: TokenView<S>| OutView::Token(t)));
    }
}

/// Items without commas are one line: they follow the list unchanged, in
/// order, and one line break ends them.
pub proof fn law_items_without_commas_form_one_line<S>(
    exprs: Seq<OutView<S>>,
    items: Seq<TokenView<S>>,
)
    requires
        exprs.len() == 0 || is_out_comma(exprs.last()),
        items.len() > 0,
        forall|i: int| 0 <= i < items.len() ==> !is_punct(#[trigger] items[i], ','),
    ensures
        concat_lines(exprs, items) == exprs + items.map_values(|t: TokenView<S>| OutView::Token(t))
            + line_break(),
{
    lemma_as_lines_without_commas(items);
    let mapped = items.map_values(|t: TokenView<S>| OutView::Token(t));
    assert(!is_punct(items[items.len() - 1], ','));
    assert((exprs + mapped).last() == mapped.last());
}

/// Reading back the text `+` followed by the decimal text of a `u32` gives
/// the number.
pub proof fn law_parse_u32_reads_plus_sign(n: u32)
    ensures
        spec_parse_u32(seq!['+'] + decimal(n as nat)) == Some(n),
{
    lemma_decimal(n as nat);
    assert((seq!['+'] + decimal(n as nat)).drop_first() =~= decimal(n as nat));
}

/// The identifiers `true` and `false` are the only names of booleans.
pub proof fn law_bool_names<S>(name: Seq<char>, sp: S)
    ensures
        crate::util::token_bool(TokenView::Ident(name, sp)) == if name == "true"@ {
            Some(true)
        } else if name == "false"@ {
            Some(false)
        } else {
            None::<bool>
        },
{
}

/// Every local label is `.L_bracer_local_label_` followed by the decimal
/// text of its number.
pub proof fn law_local_label_text(n: u64)
    ensures
        local_label(n) == ".L_bracer_local_label_"@ + decimal(n as nat),
{
}

/// A successful `when` compares the contents of the two string literals of
/// its test, branches on the test's condition code to the label, then holds
/// the body's lines and the label.
pub proof fn law_when_header_compares_operands<S>(t: Seq<TokenView<S>>, call_site: S)
    ensures
        match spec_when(t, call_site) {
            Ok(out) => match (t[0], t[1], t[2], out[2]) {
                (
                    TokenView::Group(_, test),
                    TokenView::Group(_, label),
                    TokenView::Group(_, body),
                    OutView::Group(_, args),
                ) => match (
                    crate::util::literal_content(test[0]),
                    crate::util::literal_content(test.last()),
                    branch_condition(test),
                    label[0],
                ) {
                    (Some(lhs), Some(rhs), Some(cond), TokenView::Literal(text)) => match spec_parse_u32(
                        text,
                    ) {
                        Some(n) => args.drop_last() == concat_lines(
                            seq![
                                OutView::Str(
                                    "cmp "@ + lhs + ", "@ + rhs + "\nb"@ + cond + " "@ + decimal(
                                        n as nat,
                                    ) + "f\n"@,
                                ),
                                OutView::Token(TokenView::Punct(',', Spacing::Alone)),
                            ],
                            body,
                        ),
                        None => false,
                    },
                    _ => false,
                },
                _ => false,
            },
            Err(_) => true,
        },
{
    if let Ok(out) = spec_when(t, call_site) {
        let test = crate::when::group_items(t[0]).unwrap();
        let body = crate::when::group_items(t[2]).unwrap();
        let label = crate::when::group_items(t[1]).unwrap();
        let n = crate::when::spec_label(label)->Ok_0;
        let cond = branch_condition(test).unwrap();
        let lhs = crate::util::literal_content(test[0]).unwrap();
        let rhs = crate::util::literal_content(test.last()).unwrap();
        let exprs = seq![
            OutView::<S>::Str(when_header(lhs, rhs, cond, n)),
            OutView::Token(TokenView::Punct(',', Spacing::Alone)),
        ];
        let lines = concat_lines(exprs, body);
        assert(lines.push(OutView::Str(when_footer(n))).drop_last() =~= lines);
    }
}

proof fn lemma_as_lines_append<S>(a: Seq<TokenView<S>>, b: Seq<TokenView<S>>)
    ensures
        as_lines(a + b) == as_lines(a) + as_lines(b),
    decreases b.len(),
{
    if b.len() == 0 {
        assert(a + b =~= a);
        assert(as_lines(a) + as_lines(b) =~= as_lines(a));
    } else {
        lemma_as_lines_append(a, b.drop_last());
        assert((a + b).drop_last() =~= a + b.drop_last());
        assert((a + b).last() == b.last());
        assert(as_lines(a + b) =~= as_lines(a) + as_lines(b));
    }
}

/// A comma ends a line: extending a list by `first`, a comma and `rest` is
/// extending it by `first`, then by `rest`, when `first` is a line of its own
/// (not empty, and not ending with a comma already).
pub proof fn law_comma_separates_lines<S>(
    exprs: Seq<OutView<S>>,
    first: Seq<TokenView<S>>,
    comma: TokenView<S>,
    rest: Seq<TokenView<S>>,
)
    requires
        first.len() > 0,
        !is_punct(first.last(), ','),
        is_punct(comma, ','),
    ensures
        concat_lines(exprs, first.push(comma) + rest) == concat_lines(
            concat_lines(exprs, first),
            rest,
        ),
{
    lemma_as_lines_append(first.push(comma), rest);
    assert(first.push(comma).drop_last() =~= first);
    let lines = as_lines(first);
    assert(lines =~= as_lines(first.drop_last()) + seq![OutView::Token(first.last())]);
    let base = close_line(exprs) + lines;
    assert(base.last() == OutView::Token(first.last()));
    let closed = base + line_break();
    assert(close_line(base) == closed);
    assert(close_line(closed) == closed);
    assert(close_line(exprs) + as_lines(first.push(comma) + rest) =~= closed + as_lines(rest));
}

} // verus!
