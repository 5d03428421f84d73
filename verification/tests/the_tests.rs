use bracer::{
    a32_fake_blx_impl, a32_read_spsr_to_impl, a32_set_cpu_control_impl, a32_within_t32_impl,
    a32_write_spsr_from_impl, put_fn_in_section_impl, when_impl, Delimiter, EzTokenTree, OutTree,
    Spacing,
};

type Tree = EzTokenTree<()>;
type Out = OutTree<()>;

/// A string literal token, as written in source: `"text"`.
fn lit(text: &str) -> Tree {
    EzTokenTree::EzLi(format!("\"{}\"", text))
}

/// A literal token by its raw source text, such as a number.
fn raw(text: &str) -> Tree {
    EzTokenTree::EzLi(text.to_string())
}

fn id(name: &str) -> Tree {
    EzTokenTree::EzId(name.to_string(), ())
}

fn alone(c: char) -> Tree {
    EzTokenTree::EzPu(c, Spacing::Alone)
}

fn joint(c: char) -> Tree {
    EzTokenTree::EzPu(c, Spacing::Joint)
}

fn group(d: Delimiter, items: Vec<Tree>) -> Tree {
    EzTokenTree::EzGroup(d, items)
}

fn one_str(text: &str) -> Vec<Out> {
    vec![OutTree::Str(text.to_string())]
}

fn tok(t: Tree) -> Out {
    OutTree::Token(t)
}

/// The value of a string literal's source text.
fn unescape(text: &str) -> String {
    let inner = &text[1..text.len() - 1];
    let mut out = String::new();
    let mut chars = inner.chars();
    while let Some(c) = chars.next() {
        if c == '\\' {
            match chars.next() {
                Some('n') => out.push('\n'),
                Some('t') => out.push('\t'),
                Some('0') => out.push('\0'),
                Some(other) => out.push(other),
                None => {}
            }
        } else {
            out.push(c);
        }
    }
    out
}

/// The string that a `concat!` expression of literals evaluates to.
fn concat_value(expr: &[Out]) -> String {
    assert_eq!(expr.len(), 3);
    assert!(matches!(&expr[0], OutTree::Token(EzTokenTree::EzId(name, _)) if name == "concat"));
    assert!(matches!(&expr[1], OutTree::Token(EzTokenTree::EzPu('!', _))));
    let args = match &expr[2] {
        OutTree::Group(Delimiter::Parenthesis, args) => args,
        _ => panic!("concat! needs a parenthesized argument list"),
    };
    let mut out = String::new();
    let mut expect_expr = true;
    for arg in args {
        if expect_expr {
            match arg {
                OutTree::Str(s) => out.push_str(s),
                OutTree::Char(c) => out.push(*c),
                OutTree::Token(EzTokenTree::EzLi(text)) => out.push_str(&unescape(text)),
                _ => panic!("concat! argument is no literal"),
            }
        } else {
            assert!(matches!(arg, OutTree::Token(EzTokenTree::EzPu(',', _))));
        }
        expect_expr = !expect_expr;
    }
    out
}

fn when_body() -> Tree {
    group(
        Delimiter::Brace,
        vec![lit("add r1, r2, r3"), alone(','), lit("add r0, r1, r4"), alone(',')],
    )
}

fn when_tokens(test: Vec<Tree>) -> Vec<Tree> {
    vec![
        group(Delimiter::Parenthesis, test),
        group(Delimiter::Bracket, vec![raw("1")]),
        when_body(),
    ]
}

#[test]
fn test_a32_read_spsr_to() {
    assert_eq!(a32_read_spsr_to_impl(vec![lit("r0")]), Ok(one_str("mrs r0, SPSR")));
    assert_eq!(a32_read_spsr_to_impl(vec![lit("R0")]), Ok(one_str("mrs R0, SPSR")));
    assert_eq!(a32_read_spsr_to_impl(vec![lit("lr")]), Ok(one_str("mrs lr, SPSR")));
    assert_eq!(a32_read_spsr_to_impl(vec![lit("{temp}")]), Ok(one_str("mrs {temp}, SPSR")));
}

#[test]
fn test_a32_write_spsr_from() {
    assert_eq!(a32_write_spsr_from_impl(vec![lit("r0")]), Ok(one_str("msr r0, SPSR")));
    assert_eq!(a32_write_spsr_from_impl(vec![lit("R0")]), Ok(one_str("msr R0, SPSR")));
    assert_eq!(a32_write_spsr_from_impl(vec![lit("lr")]), Ok(one_str("msr lr, SPSR")));
    assert_eq!(
        a32_write_spsr_from_impl(vec![lit("{temp}")]),
        Ok(one_str("msr {temp}, SPSR"))
    );
}

#[test]
fn test_a32_fake_blx() {
    let expected = "add lr, pc, #0\nbx r12";
    let actual = a32_fake_blx_impl(vec![lit("r12")]);
    assert_eq!(actual, Ok(one_str(expected)));
}

#[test]
fn test_put_fn_in_section() {
    let expected = ".section .text._start,\"ax\",%progbits";
    let actual = put_fn_in_section_impl(vec![lit(".text._start")]);
    assert_eq!(actual, Ok(one_str(expected)));
}

#[test]
fn test_a32_set_cpu_control() {
    let expected = "msr CPSR_c, #0b00011111";
    let actual = a32_set_cpu_control_impl(vec![
        id("System"),
        alone(','),
        id("irq_masked"),
        alone('='),
        id("false"),
        alone(','),
        id("fiq_masked"),
        alone('='),
        id("false"),
    ]);
    assert_eq!(actual, Ok(one_str(expected)));

    let expected = "msr CPSR_c, #0b10010011";
    let actual = a32_set_cpu_control_impl(vec![
        id("Supervisor"),
        alone(','),
        id("irq_masked"),
        alone('='),
        id("true"),
        alone(','),
        id("fiq_masked"),
        alone('='),
        id("false"),
    ]);
    assert_eq!(actual, Ok(one_str(expected)));
}

#[test]
fn test_t32_with_a32_scope() {
    // another macro call among the lines is passed through untouched
    let actual = a32_within_t32_impl(
        vec![
            lit("add r0, r0, r0"),
            alone(','),
            id("a32_read_spsr_to"),
            alone('!'),
            group(Delimiter::Parenthesis, vec![lit("r0")]),
            alone(','),
        ],
        (),
    );
    let expected_args = vec![
        OutTree::Str(".code 32\n".to_string()),
        tok(alone(',')),
        tok(lit("add r0, r0, r0")),
        tok(alone(',')),
        OutTree::Char('\n'),
        tok(alone(',')),
        tok(id("a32_read_spsr_to")),
        tok(alone('!')),
        tok(group(Delimiter::Parenthesis, vec![lit("r0")])),
        tok(alone(',')),
        OutTree::Char('\n'),
        tok(alone(',')),
        OutTree::Str(".code 16\n".to_string()),
    ];
    assert_eq!(
        actual,
        vec![tok(id("concat")), tok(alone('!')), OutTree::Group(Delimiter::Parenthesis, expected_args)]
    );

    // test that 'multi-line' input works (where there's a comma on the end)
    let expected = ".code 32\nmov r0, #0\nadd r0, r0, r0\n.code 16\n";
    let actual = a32_within_t32_impl(
        vec![lit("mov r0, #0"), alone(','), lit("add r0, r0, r0"), alone(',')],
        (),
    );
    assert_eq!(expected, concat_value(&actual));

    // test that 'one line' of input works (with no comma on the end)
    let expected = ".code 32\nadd r0, r0, r0\n.code 16\n";
    let actual = a32_within_t32_impl(vec![lit("add r0, r0, r0")], ());
    assert_eq!(expected, concat_value(&actual));

    // test that the macro works on an empty input sequence.
    let expected = ".code 32\n.code 16\n";
    let actual = a32_within_t32_impl(vec![], ());
    assert_eq!(expected, concat_value(&actual));
}

#[test]
fn test_when() {
    let expected = "cmp r0, #0\nbeq 1f\nadd r1, r2, r3\nadd r0, r1, r4\n1:\n";
    let actual =
        when_impl(when_tokens(vec![lit("r0"), joint('!'), alone('='), lit("#0")]), ()).unwrap();
    assert_eq!(expected, concat_value(&actual));

    // signedness doesn't matter
    assert!(when_impl(when_tokens(vec![lit("r0"), joint('='), alone('='), lit("#0")]), ()).is_ok());
    assert!(when_impl(when_tokens(vec![lit("r0"), joint('!'), alone('='), lit("#0")]), ()).is_ok());

    // unsigned
    assert!(
        when_impl(when_tokens(vec![lit("r0"), joint('>'), alone('='), id("u"), lit("#0")]), ())
            .is_ok()
    );
    assert!(
        when_impl(when_tokens(vec![lit("r0"), joint('<'), alone('='), id("u"), lit("#0")]), ())
            .is_ok()
    );
    assert!(when_impl(when_tokens(vec![lit("r0"), alone('<'), id("u"), lit("#0")]), ()).is_ok());
    assert!(when_impl(when_tokens(vec![lit("r0"), alone('>'), id("u"), lit("#0")]), ()).is_ok());

    // signed
    assert!(
        when_impl(when_tokens(vec![lit("r0"), joint('>'), alone('='), id("i"), lit("#0")]), ())
            .is_ok()
    );
    assert!(
        when_impl(when_tokens(vec![lit("r0"), joint('<'), alone('='), id("i"), lit("#0")]), ())
            .is_ok()
    );
    assert!(when_impl(when_tokens(vec![lit("r0"), alone('<'), id("i"), lit("#0")]), ()).is_ok());
    assert!(when_impl(when_tokens(vec![lit("r0"), alone('>'), id("i"), lit("#0")]), ()).is_ok());
}
