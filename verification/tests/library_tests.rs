use bracer::{
    a32_set_cpu_control_impl, a32_within_t32_impl, extend_concat_as_lines, get_bool, get_group,
    get_ident, get_literal, get_punct, get_str_literal_content, next_local_label,
    one_str_literal, one_str_literal_or_panic, parse_u32, when_impl, CpuControlError, Delimiter,
    EzTokenTree, MacroError, OutTree, Spacing,
};

type Tree = EzTokenTree<()>;
type Out = OutTree<()>;

fn tok(t: Tree) -> Out {
    OutTree::Token(t)
}

fn refused(error: MacroError) -> CpuControlError {
    CpuControlError { error, found: None }
}

fn lit(text: &str) -> Tree {
    EzTokenTree::EzLi(format!("\"{}\"", text))
}

fn raw(text: &str) -> Tree {
    EzTokenTree::EzLi(text.to_string())
}

fn id(name: &str) -> Tree {
    EzTokenTree::EzId(name.to_string(), ())
}

fn alone(c: char) -> Tree {
    EzTokenTree::EzPu(c, Spacing::Alone)
}

fn joint(c: char) -> Tree {
    EzTokenTree::EzPu(c, Spacing::Joint)
}

fn group(d: Delimiter, items: Vec<Tree>) -> Tree {
    EzTokenTree::EzGroup(d, items)
}

fn line_break() -> Vec<Out> {
    vec![tok(alone(',')), OutTree::Char('\n'), tok(alone(','))]
}

fn cpu_control(mode: &str, irq: &str, fiq: &str) -> Vec<Tree> {
    vec![
        id(mode),
        alone(','),
        id("irq_masked"),
        alone('='),
        id(irq),
        alone(','),
        id("fiq_masked"),
        alone('='),
        id(fiq),
    ]
}

fn str_out<E: std::fmt::Debug>(r: Result<Vec<Out>, E>) -> String {
    match r.unwrap().as_slice() {
        [OutTree::Str(s)] => s.clone(),
        other => panic!("not one string literal: {:?}", other),
    }
}

fn when_with(test: Vec<Tree>, label: Vec<Tree>) -> Result<Vec<Out>, MacroError> {
    when_impl(
        vec![
            group(Delimiter::Parenthesis, test),
            group(Delimiter::Bracket, label),
            group(Delimiter::Brace, vec![lit("nop")]),
        ],
        (),
    )
}

fn when_header(r: Result<Vec<Out>, MacroError>) -> String {
    let out = r.unwrap();
    match &out[2] {
        OutTree::Group(Delimiter::Parenthesis, args) => match &args[0] {
            OutTree::Str(s) => s.clone(),
            other => panic!("no header: {:?}", other),
        },
        other => panic!("no argument list: {:?}", other),
    }
}

#[test]
fn one_str_literal_reads_the_content() {
    assert_eq!(one_str_literal(vec![lit("r0")]), Ok("r0".to_string()));
    assert_eq!(one_str_literal_or_panic(vec![lit("{temp}")]), "{temp}".to_string());
    // the content is the source text between the quotes, escapes included
    assert_eq!(one_str_literal(vec![lit("a\\nb")]), Ok("a\\nb".to_string()));
    assert_eq!(one_str_literal(vec![raw("\"\"")]), Ok(String::new()));
}

#[test]
fn one_str_literal_refuses_other_input() {
    assert_eq!(one_str_literal::<()>(vec![]), Err(MacroError::NotEnoughInput));
    assert_eq!(one_str_literal(vec![id("r0")]), Err(MacroError::OneStrLiteralOnly));
    assert_eq!(one_str_literal(vec![raw("5")]), Err(MacroError::OneStrLiteralOnly));
    assert_eq!(one_str_literal(vec![raw("b\"r0\"")]), Err(MacroError::OneStrLiteralOnly));
    assert_eq!(one_str_literal(vec![lit("r0"), lit("r1")]), Err(MacroError::OneStrLiteralOnly));
    assert_eq!(
        bracer::a32_read_spsr_to_impl::<()>(vec![]),
        Err(MacroError::NotEnoughInput)
    );
    assert_eq!(
        bracer::put_fn_in_section_impl(vec![lit(".text"), alone(',')]),
        Err(MacroError::OneStrLiteralOnly)
    );
}

#[test]
fn token_getters() {
    assert_eq!(
        get_group(group(Delimiter::Brace, vec![id("x")])),
        Some((Delimiter::Brace, vec![id("x")]))
    );
    assert_eq!(get_group(id("x")), None);
    assert_eq!(get_ident(id("x")), Some(("x".to_string(), ())));
    assert_eq!(get_ident(alone(',')), None);
    assert_eq!(get_punct(joint('=')), Some(('=', Spacing::Joint)));
    assert_eq!(get_punct(raw("1")), None);
    assert_eq!(get_literal(raw("1")), Some("1".to_string()));
    assert_eq!(get_literal(lit("r0")), Some("\"r0\"".to_string()));
    assert_eq!(raw("1").get_literal(), Some("1"));
    assert_eq!(id("x").get_literal(), None);
    assert_eq!(get_bool(&id("true")), Some(true));
    assert_eq!(get_bool(&id("false")), Some(false));
    assert_eq!(get_bool(&id("True")), None);
    assert_eq!(get_bool(&raw("true")), None);
}

#[test]
fn string_literal_content() {
    assert_eq!(get_str_literal_content(&lit("r0")), Some("r0".to_string()));
    assert_eq!(get_str_literal_content(&raw("r#\"r0\"#")), None);
    assert_eq!(get_str_literal_content(&raw("\"")), None);
    assert_eq!(get_str_literal_content(&raw("'a'")), None);
    assert_eq!(get_str_literal_content(&id("r0")), None);
}

#[test]
fn cpu_control_modes_and_flags() {
    assert_eq!(str_out(a32_set_cpu_control_impl(cpu_control("usr", "false", "false"))), "msr CPSR_c, #0b00010000");
    assert_eq!(str_out(a32_set_cpu_control_impl(cpu_control("FIQ", "false", "true"))), "msr CPSR_c, #0b01010001");
    assert_eq!(str_out(a32_set_cpu_control_impl(cpu_control("irq", "true", "true"))), "msr CPSR_c, #0b11010010");
    assert_eq!(str_out(a32_set_cpu_control_impl(cpu_control("svc", "false", "false"))), "msr CPSR_c, #0b00010011");
    assert_eq!(str_out(a32_set_cpu_control_impl(cpu_control("sys", "true", "false"))), "msr CPSR_c, #0b10011111");
    // the T bit is always clear
    let line = str_out(a32_set_cpu_control_impl(cpu_control("User", "true", "true")));
    assert_eq!(line.len(), 23);
    assert_eq!(&line[17..18], "0");
}

#[test]
fn cpu_control_errors() {
    let full = cpu_control("System", "false", "false");
    assert_eq!(a32_set_cpu_control_impl::<()>(vec![]), Err(refused(MacroError::TooFewTokens)));
    let abort = a32_set_cpu_control_impl(cpu_control("Abort", "false", "false")).unwrap_err();
    assert_eq!(
        abort,
        CpuControlError { error: MacroError::InvalidCpuMode, found: Some("Abort".to_string()) }
    );
    assert_eq!(abort.message(), "First argument must be a valid cpu mode name, got `Abort`");
    let mut punct_first = cpu_control("User", "false", "false");
    punct_first[0] = alone('#');
    assert_eq!(
        a32_set_cpu_control_impl(punct_first).unwrap_err().message(),
        "First argument must be a valid cpu mode name, got `#`"
    );
    let mut paren_first = cpu_control("User", "false", "false");
    paren_first[0] = group(Delimiter::Parenthesis, vec![id("User")]);
    assert_eq!(
        a32_set_cpu_control_impl(paren_first),
        Err(CpuControlError { error: MacroError::InvalidCpuMode, found: None })
    );
    let expected_for_prefix = [
        MacroError::TooFewTokens,
        MacroError::TooFewTokens,
        MacroError::TooFewTokens,
        MacroError::TooFewTokens,
        MacroError::TooFewTokens,
        MacroError::TooFewTokens,
        MacroError::TooFewTokens,
        MacroError::TooFewTokens,
    ];
    for (k, e) in expected_for_prefix.iter().enumerate() {
        let prefix: Vec<Tree> = cpu_control("System", "false", "false").into_iter().take(k + 1).collect();
        assert_eq!(a32_set_cpu_control_impl(prefix), Err(refused(*e)));
    }
    let wrong_at = |k: usize, t: Tree| {
        let mut v = cpu_control("System", "false", "false");
        v[k] = t;
        a32_set_cpu_control_impl(v).map_err(|e| e.error)
    };
    assert_eq!(wrong_at(1, alone(';')), Err(MacroError::MissingCommaAfterFirstArg));
    assert_eq!(wrong_at(2, id("fiq_masked")), Err(MacroError::ExpectedIrqMasked));
    assert_eq!(wrong_at(3, alone(':')), Err(MacroError::ExpectedEqAfterIrqMasked));
    assert_eq!(wrong_at(4, raw("1")), Err(MacroError::IrqMaskedNotBool));
    assert_eq!(wrong_at(5, alone(';')), Err(MacroError::MissingCommaAfterSecondArg));
    assert_eq!(wrong_at(6, id("irq_masked")), Err(MacroError::ExpectedFiqMasked));
    assert_eq!(wrong_at(7, alone(':')), Err(MacroError::ExpectedEqAfterFiqMasked));
    assert_eq!(wrong_at(8, id("yes")), Err(MacroError::FiqMaskedNotBool));
    let mut long = full;
    long.push(alone(','));
    assert_eq!(a32_set_cpu_control_impl(long), Err(refused(MacroError::TooManyTokens)));
}

#[test]
fn cpu_control_reads_parts_by_their_text() {
    // a name or sign alone in an invisible group prints as itself
    let invisible = |t: Tree| group(Delimiter::Invisible, vec![t]);
    let mut v = cpu_control("svc", "true", "false");
    v[0] = invisible(id("svc"));
    v[1] = invisible(alone(','));
    v[2] = invisible(id("irq_masked"));
    v[3] = invisible(alone('='));
    assert_eq!(str_out(a32_set_cpu_control_impl(v)), "msr CPSR_c, #0b10010011");
    // the flags themselves must be identifiers
    let mut v = cpu_control("svc", "true", "false");
    v[4] = invisible(id("true"));
    assert_eq!(
        a32_set_cpu_control_impl(v),
        Err(refused(MacroError::IrqMaskedNotBool))
    );
}

#[test]
fn when_branch_conditions() {
    let cases: Vec<(Vec<Tree>, &str)> = vec![
        (vec![lit("r0"), joint('='), alone('='), lit("#0")], "bne"),
        (vec![lit("r0"), joint('!'), alone('='), lit("#0")], "beq"),
        (vec![lit("r0"), joint('>'), alone('='), id("u"), lit("#0")], "blo"),
        (vec![lit("r0"), joint('<'), alone('='), id("u"), lit("#0")], "bhi"),
        (vec![lit("r0"), alone('<'), id("u"), lit("#0")], "bhs"),
        (vec![lit("r0"), alone('>'), id("u"), lit("#0")], "bls"),
        (vec![lit("r0"), joint('>'), alone('='), id("i"), lit("#0")], "blt"),
        (vec![lit("r0"), joint('<'), alone('='), id("i"), lit("#0")], "bgt"),
        (vec![lit("r0"), alone('<'), id("i"), lit("#0")], "bge"),
        (vec![lit("r0"), alone('>'), id("i"), lit("#0")], "ble"),
    ];
    for (test, branch) in cases {
        let header = when_header(when_with(test, vec![raw("7")]));
        assert_eq!(header, format!("cmp r0, #0\n{} 7f\n", branch));
    }
}

#[test]
fn when_labels_and_delimiters() {
    let test = || vec![lit("r1"), joint('!'), alone('='), lit("r2")];
    assert_eq!(when_header(when_with(test(), vec![raw("+42")])), "cmp r1, r2\nbeq 42f\n");
    assert_eq!(
        when_header(when_with(test(), vec![raw("4294967295")])),
        "cmp r1, r2\nbeq 4294967295f\n"
    );
    let out = when_with(test(), vec![raw("007")]).unwrap();
    match &out[2] {
        OutTree::Group(_, args) => {
            assert_eq!(args.last(), Some(&OutTree::Str("7:\n".to_string())));
        }
        _ => panic!("no argument list"),
    }
    // the groups may use any delimiters
    let a = when_impl(
        vec![
            group(Delimiter::Brace, test()),
            group(Delimiter::Parenthesis, vec![raw("3")]),
            group(Delimiter::Bracket, vec![lit("nop")]),
        ],
        (),
    );
    let b = when_impl(
        vec![
            group(Delimiter::Parenthesis, test()),
            group(Delimiter::Bracket, vec![raw("3")]),
            group(Delimiter::Brace, vec![lit("nop")]),
        ],
        (),
    );
    assert_eq!(a, b);
}

#[test]
fn when_errors() {
    let test = || vec![lit("r1"), joint('!'), alone('='), lit("r2")];
    let g = |items: Vec<Tree>| group(Delimiter::Parenthesis, items);
    assert_eq!(when_impl::<()>(vec![], ()), Err(MacroError::TooFewTokens));
    assert_eq!(when_impl(vec![id("x")], ()), Err(MacroError::TestGroupMissing));
    assert_eq!(when_impl(vec![g(test())], ()), Err(MacroError::TooFewTokens));
    assert_eq!(when_impl(vec![g(test()), raw("1")], ()), Err(MacroError::LabelGroupMissing));
    assert_eq!(when_impl(vec![g(test()), g(vec![raw("1")])], ()), Err(MacroError::TooFewTokens));
    assert_eq!(
        when_impl(vec![g(test()), g(vec![raw("1")]), lit("nop")], ()),
        Err(MacroError::BodyGroupMissing)
    );
    assert_eq!(
        when_impl(vec![g(test()), g(vec![raw("1")]), g(vec![]), alone(';')], ()),
        Err(MacroError::TooManyTokens)
    );
    assert_eq!(when_with(test(), vec![]), Err(MacroError::LabelNotOneLiteral));
    assert_eq!(when_with(test(), vec![raw("1"), raw("2")]), Err(MacroError::LabelNotOneLiteral));
    assert_eq!(when_with(test(), vec![id("one")]), Err(MacroError::LabelNotOneLiteral));
    assert_eq!(when_with(test(), vec![raw("4294967296")]), Err(MacroError::LabelNotU32));
    assert_eq!(when_with(test(), vec![raw("1u32")]), Err(MacroError::LabelNotU32));
    assert_eq!(when_with(test(), vec![raw("-1")]), Err(MacroError::LabelNotU32));
    assert_eq!(
        when_with(vec![lit("r1"), joint('<'), lit("r2")], vec![raw("1")]),
        Err(MacroError::UnknownTestExpression)
    );
    assert_eq!(
        when_with(vec![lit("r1"), alone('<'), id("x"), lit("r2")], vec![raw("1")]),
        Err(MacroError::UnknownTestExpression)
    );
    assert_eq!(
        when_with(vec![raw("0"), joint('!'), alone('='), lit("r2")], vec![raw("1")]),
        Err(MacroError::TestInputNotStr)
    );
    assert_eq!(
        when_with(vec![lit("r1"), joint('!'), alone('='), raw("0")], vec![raw("1")]),
        Err(MacroError::TestInputNotStr)
    );
}

#[test]
fn concat_lines_end_with_a_comma() {
    let mut empty: Vec<Out> = vec![];
    extend_concat_as_lines(&mut empty, vec![]);
    assert_eq!(empty, vec![]);

    let mut exprs = vec![tok(lit("a"))];
    extend_concat_as_lines(&mut exprs, vec![]);
    let mut expected = vec![tok(lit("a"))];
    expected.extend(line_break());
    assert_eq!(exprs, expected);

    let mut exprs = vec![OutTree::Str("a".to_string())];
    extend_concat_as_lines(&mut exprs, vec![lit("b"), joint(','), lit("c")]);
    let mut expected = vec![OutTree::Str("a".to_string())];
    expected.extend(line_break());
    expected.push(tok(lit("b")));
    expected.extend(line_break());
    expected.push(tok(lit("c")));
    expected.extend(line_break());
    assert_eq!(exprs, expected);
}

#[test]
fn trailing_comma_changes_nothing() {
    let with = a32_within_t32_impl(vec![lit("nop"), alone(',')], ());
    let without = a32_within_t32_impl(vec![lit("nop")], ());
    assert_eq!(with, without);
}

#[test]
fn local_labels() {
    let mut counter: u64 = 0;
    let first = next_local_label(&mut counter);
    let second = next_local_label(&mut counter);
    assert_eq!(first, ".L_bracer_local_label_0");
    assert_eq!(second, ".L_bracer_local_label_1");
    assert_eq!(counter, 2);
    assert_ne!(first, second);

    let mut counter: u64 = 1234567890;
    assert_eq!(next_local_label(&mut counter), ".L_bracer_local_label_1234567890");
    let mut counter: u64 = u64::MAX;
    assert_eq!(next_local_label(&mut counter), ".L_bracer_local_label_18446744073709551615");
    assert_eq!(counter, 0);
}

#[test]
fn parse_u32_as_std_does() {
    for s in ["0", "7", "+7", "007", "4294967295", "", "+", "-1", "4294967296", "1_0", "12a", "++1", "99999999999999999999"] {
        assert_eq!(parse_u32(s), s.parse::<u32>().ok(), "input {:?}", s);
    }
}

#[test]
fn error_messages() {
    assert_eq!(MacroError::NotEnoughInput.message(), "Not enough input");
    assert_eq!(MacroError::OneStrLiteralOnly.message(), "Provide one string literal only.");
    assert_eq!(MacroError::UnknownTestExpression.message(), "unknown test expression");
    assert_eq!(MacroError::ExpectedIrqMasked.message(), "second setting must be `irq_masked`");
}
