use goboscript::ast::{
    BinOp, Block, Derivation, EventKind, Expr, List, NamedSprite, Number, Project, Repr, Span,
    Sprite, Stmt, UnOp, Value,
};
use goboscript::diagnostic::{Diagnostic, DiagnosticKind};
use goboscript::lexer::{lex, string_value};
use goboscript::parser::parse;
use goboscript::token::Token;
use goboscript::translation_unit::TranslationUnit;
use goboscript::visitor::pass5::visit_project;

fn parse_str(src: &str) -> (Sprite, Vec<Diagnostic>) {
    parse(&TranslationUnit { text: src.as_bytes().to_vec() })
}

fn to_vec<T>(l: &List<T>) -> Vec<&T> {
    let mut out = Vec::new();
    let mut cur = l;
    while let List::Cons(x, rest) = cur {
        out.push(x);
        cur = rest;
    }
    out
}

fn text<'a>(src: &'a str, span: Span) -> &'a str {
    &src[span.start..span.end]
}

/// The statements of the only event of a sprite.
fn event_body(sprite: &Sprite) -> Vec<&Stmt> {
    let events = to_vec(&sprite.events);
    assert_eq!(events.len(), 1);
    to_vec(&events[0].body)
}

fn span(start: usize, end: usize) -> Span {
    Span { start, end }
}

// ─── Tokenizer ──────────────────────────────────────────────────────────────

#[test]
fn lex_names_keywords_and_literals() {
    let src = "onflag foo $bar 12 0x1F 3.5 \"a\\\"b\" div";
    let (tokens, diagnostics) = lex(src.as_bytes());
    assert!(diagnostics.is_empty());
    let expected = vec![
        (0, Token::OnFlag, 6),
        (7, Token::Name, 10),
        (11, Token::Arg, 15),
        (16, Token::Number, 18),
        (19, Token::Number, 23),
        (24, Token::Number, 27),
        (28, Token::Str, 34),
        (35, Token::Div, 38),
    ];
    assert_eq!(tokens, expected);
}

#[test]
fn lex_operators_take_the_longest_match() {
    let src = "a+=b++&&c div= 2 //x\n/* y */!=";
    let (tokens, diagnostics) = lex(src.as_bytes());
    assert!(diagnostics.is_empty());
    let kinds: Vec<Token> = tokens.iter().map(|t| t.1).collect();
    assert_eq!(
        kinds,
        vec![
            Token::Name,
            Token::PlusAssign,
            Token::Name,
            Token::PlusPlus,
            Token::AmpAmp,
            Token::Name,
            Token::DivAssign,
            Token::Number,
            Token::Ne,
        ]
    );
}

#[test]
fn lex_reports_invalid_bytes_and_goes_on() {
    let src = "say @ 1; é";
    let (tokens, diagnostics) = lex(src.as_bytes());
    assert_eq!(
        diagnostics,
        vec![
            Diagnostic { kind: DiagnosticKind::InvalidToken, span: span(4, 5) },
            Diagnostic { kind: DiagnosticKind::InvalidToken, span: span(9, 11) },
        ]
    );
    assert_eq!(tokens, vec![(0, Token::Name, 3), (6, Token::Number, 7), (7, Token::Semi, 8)]);
}

#[test]
fn lex_reports_unterminated_string_and_comment() {
    let (_, d1) = lex(b"say \"open");
    assert_eq!(d1, vec![Diagnostic { kind: DiagnosticKind::UnterminatedString, span: span(4, 9) }]);
    let (_, d2) = lex(b"x /* open");
    assert_eq!(d2, vec![Diagnostic { kind: DiagnosticKind::UnterminatedComment, span: span(2, 9) }]);
    let (_, d3) = lex(b"a | b");
    assert_eq!(d3, vec![Diagnostic { kind: DiagnosticKind::InvalidToken, span: span(2, 3) }]);
}

#[test]
fn lex_number_forms() {
    let (tokens, _) = lex(b"0b1010 0o777 0x 1.x 0b2");
    let spans: Vec<(usize, Token, usize)> = tokens;
    assert_eq!(
        spans,
        vec![
            (0, Token::Number, 6),
            (7, Token::Number, 12),
            (13, Token::Number, 14),
            (14, Token::Name, 15),
            (16, Token::Number, 17),
            (17, Token::Dot, 18),
            (18, Token::Name, 19),
            (20, Token::Number, 21),
            (21, Token::Name, 23),
        ]
    );
}

#[test]
fn string_value_resolves_escapes() {
    let src = "\"tab:\\there \\\"q\\\" \\\\ \\n\"";
    let value = string_value(src.as_bytes(), span(0, src.len()));
    assert_eq!(value, b"tab:\there \"q\" \\ \n".to_vec());
}

// ─── Preprocessor ───────────────────────────────────────────────────────────

#[test]
fn define_expands_names() {
    let src = "%define LIMIT 5\nonflag() {\n    say LIMIT;\n}\n";
    let (sprite, diagnostics) = parse_str(src);
    assert!(diagnostics.is_empty(), "{:?}", diagnostics);
    match event_body(&sprite)[0] {
        Stmt::Block { block: Block::Say, args, .. } => match to_vec(args)[0] {
            Expr::Value { value: Value::Number(Number::Literal { span, .. }), .. } => {
                assert_eq!(text(src, *span), "5");
            }
            other => panic!("{:?}", other),
        },
        other => panic!("{:?}", other),
    }
}

#[test]
fn define_body_ends_at_the_line_end() {
    let src = "%define GREETING \"hi\" , \"there\"\nonflag() { say GREETING; }\n";
    let (sprite, diagnostics) = parse_str(src);
    assert!(diagnostics.is_empty(), "{:?}", diagnostics);
    match event_body(&sprite)[0] {
        Stmt::Block { args, .. } => assert_eq!(to_vec(args).len(), 2),
        other => panic!("{:?}", other),
    }
}

#[test]
fn undef_removes_the_definition() {
    let src = "%define X 1\n%undef X\nonflag() { say X; }\n";
    let (sprite, diagnostics) = parse_str(src);
    assert!(diagnostics.is_empty(), "{:?}", diagnostics);
    match event_body(&sprite)[0] {
        Stmt::Block { args, .. } => match to_vec(args)[0] {
            Expr::Name(s) => assert_eq!(text(src, *s), "X"),
            other => panic!("{:?}", other),
        },
        other => panic!("{:?}", other),
    }
}

#[test]
fn undef_of_unknown_macro_is_reported() {
    let src = "%undef NOPE\n";
    let (_, diagnostics) = parse_str(src);
    assert_eq!(diagnostics[0], Diagnostic { kind: DiagnosticKind::UndefinedMacro, span: span(7, 11) });
}

#[test]
fn directive_without_name_is_reported() {
    let src = "%define\nonflag() {}\n";
    let (_, diagnostics) = parse_str(src);
    assert_eq!(diagnostics[0], Diagnostic { kind: DiagnosticKind::MacroNameExpected, span: span(0, 7) });
}

// ─── Parser ─────────────────────────────────────────────────────────────────

#[test]
fn multiplication_binds_tighter_than_addition() {
    let src = "onflag() { x = 1 + 2 * 3; }";
    let (sprite, diagnostics) = parse_str(src);
    assert!(diagnostics.is_empty());
    match event_body(&sprite)[0] {
        Stmt::SetVar { value: Expr::BinOp { op: BinOp::Add, rhs, span: s, .. }, is_local: false, .. } => {
            assert_eq!(text(src, *s), "1 + 2 * 3");
            match rhs.as_ref() {
                Expr::BinOp { op: BinOp::Mul, .. } => {}
                other => panic!("{:?}", other),
            }
        }
        other => panic!("{:?}", other),
    }
}

#[test]
fn or_binds_looser_than_and_and_comparisons() {
    let src = "onflag() { if a < 1 || b == 2 && !c { } }";
    let (sprite, diagnostics) = parse_str(src);
    assert!(diagnostics.is_empty());
    match event_body(&sprite)[0] {
        Stmt::Branch { cond: Expr::BinOp { op: BinOp::Or, lhs, rhs, .. }, .. } => {
            assert!(matches!(lhs.as_ref(), Expr::BinOp { op: BinOp::Lt, .. }));
            match rhs.as_ref() {
                Expr::BinOp { op: BinOp::And, rhs: inner, .. } => {
                    assert!(matches!(inner.as_ref(), Expr::UnOp { op: UnOp::Not, .. }))
                }
                other => panic!("{:?}", other),
            }
        }
        other => panic!("{:?}", other),
    }
}

#[test]
fn while_runs_until_the_negated_condition() {
    let src = "onflag() { while (i < 10) { i++; } }";
    let (sprite, diagnostics) = parse_str(src);
    assert!(diagnostics.is_empty());
    match event_body(&sprite)[0] {
        Stmt::Until { cond: Expr::UnOp { op: UnOp::Not, opr, .. }, body } => {
            assert!(matches!(opr.as_ref(), Expr::BinOp { op: BinOp::Lt, .. }));
            match to_vec(body)[0] {
                Stmt::ChangeVar { value: Expr::Value { value: Value::Number(Number::Int(1)), .. }, .. } => {}
                other => panic!("{:?}", other),
            }
        }
        other => panic!("{:?}", other),
    }
}

#[test]
fn else_if_nests_a_branch_in_the_else_body() {
    let src = "onflag() { if a { say 1; } else if b { say 2; } else { say 3; } }";
    let (sprite, diagnostics) = parse_str(src);
    assert!(diagnostics.is_empty());
    match event_body(&sprite)[0] {
        Stmt::Branch { else_body, .. } => {
            let nested = to_vec(else_body);
            assert_eq!(nested.len(), 1);
            match nested[0] {
                Stmt::Branch { else_body, .. } => assert_eq!(to_vec(else_body).len(), 1),
                other => panic!("{:?}", other),
            }
        }
        other => panic!("{:?}", other),
    }
}

#[test]
fn compound_assignments() {
    let src = "onflag() { x -= 3; x *= 2; x div= 4; x--; }";
    let (sprite, diagnostics) = parse_str(src);
    assert!(diagnostics.is_empty());
    let body = event_body(&sprite);
    assert!(matches!(body[0], Stmt::ChangeVar { value: Expr::UnOp { op: UnOp::Minus, .. }, .. }));
    assert!(matches!(body[1], Stmt::SetVar { value: Expr::BinOp { op: BinOp::Mul, .. }, .. }));
    assert!(matches!(body[2], Stmt::SetVar { value: Expr::BinOp { op: BinOp::FloorDiv, .. }, .. }));
    assert!(matches!(body[3], Stmt::ChangeVar { value: Expr::UnOp { op: UnOp::Minus, .. }, .. }));
}

#[test]
fn calls_blocks_reporters_and_struct_literals() {
    let src = "onflag() { greet \"a\", loud: true; say random(1, 10); p = Point { x: 1, y: 2 }; }";
    let (sprite, diagnostics) = parse_str(src);
    assert!(diagnostics.is_empty(), "{:?}", diagnostics);
    let body = event_body(&sprite);
    match body[0] {
        Stmt::ProcCall { name, args, kwargs, span: s } => {
            assert_eq!(text(src, *name), "greet");
            assert_eq!(to_vec(args).len(), 1);
            assert_eq!(text(src, to_vec(kwargs)[0].name), "loud");
            assert_eq!(text(src, *s), "greet \"a\", loud: true;");
        }
        other => panic!("{:?}", other),
    }
    match body[1] {
        Stmt::Block { block: Block::Say, args, .. } => {
            assert!(matches!(to_vec(args)[0], Expr::Repr { repr: Repr::Random, .. }))
        }
        other => panic!("{:?}", other),
    }
    match body[2] {
        Stmt::SetVar { value: Expr::StructLiteral { fields, .. }, .. } => {
            assert_eq!(to_vec(fields).len(), 2)
        }
        other => panic!("{:?}", other),
    }
}

#[test]
fn list_statements() {
    let src = "list l;\nonflag() { add 1 to l; delete l[1]; insert 2 at l[1]; l[1] = 3; delete l; }";
    let (sprite, diagnostics) = parse_str(src);
    assert!(diagnostics.is_empty(), "{:?}", diagnostics);
    let body = event_body(&sprite);
    assert!(matches!(body[0], Stmt::AddToList { .. }));
    assert!(matches!(body[1], Stmt::DeleteListIndex { .. }));
    assert!(matches!(body[2], Stmt::InsertAtList { .. }));
    assert!(matches!(body[3], Stmt::SetListIndex { .. }));
    assert!(matches!(body[4], Stmt::DeleteList(_)));
    assert_eq!(to_vec(&sprite.lists).len(), 1);
}

#[test]
fn declarations_keep_their_order() {
    let src = "costumes \"a.svg\", \"b.svg\";\nvar x = 1;\nvar y;\nstruct P { a, b }\nenum E { A }\nfunction f(a, b) {}\nnowarp function g(): number { return 1; }\nonkey(\"space\") {}\non(\"go\") {}\n";
    let (sprite, diagnostics) = parse_str(src);
    assert!(diagnostics.is_empty(), "{:?}", diagnostics);
    let costumes: Vec<&str> = to_vec(&sprite.costumes).iter().map(|s| text(src, **s)).collect();
    assert_eq!(costumes, vec!["\"a.svg\"", "\"b.svg\""]);
    assert_eq!(to_vec(&sprite.variables).len(), 2);
    assert!(to_vec(&sprite.variables)[1].default.is_none());
    assert_eq!(to_vec(&to_vec(&sprite.structs)[0].fields).len(), 2);
    assert!(to_vec(&sprite.procs)[0].warp);
    assert!(!to_vec(&sprite.funcs)[0].warp);
    let kinds: Vec<EventKind> = to_vec(&sprite.events).iter().map(|e| e.kind).collect();
    assert!(matches!(kinds[0], EventKind::OnKey(_)));
    assert!(matches!(kinds[1], EventKind::OnBroadcast(_)));
}

#[test]
fn parse_error_keeps_earlier_declarations() {
    let src = "var a = 1;\nproc x {}\nvar b = 2;\n";
    let (sprite, diagnostics) = parse_str(src);
    assert_eq!(to_vec(&sprite.variables).len(), 1);
    assert_eq!(
        diagnostics,
        vec![Diagnostic { kind: DiagnosticKind::UnrecognizedToken, span: span(11, 15) }]
    );
}

#[test]
fn early_end_of_input_is_reported_at_the_end() {
    let src = "onflag() {\n    say 1;\n";
    let (_, diagnostics) = parse_str(src);
    assert_eq!(
        diagnostics,
        vec![Diagnostic { kind: DiagnosticKind::UnrecognizedEof, span: span(21, 21) }]
    );
}

#[test]
fn diagnostics_come_in_stage_order() {
    let src = "@\n%undef Q\n";
    let (_, diagnostics) = parse_str(src);
    let kinds: Vec<DiagnosticKind> = diagnostics.iter().map(|d| d.kind).collect();
    assert_eq!(kinds, vec![DiagnosticKind::InvalidToken, DiagnosticKind::UndefinedMacro, DiagnosticKind::UnrecognizedToken]);
}

/// The value of a digit list, least significant digit first.
fn digits(l: &List<u16>) -> u128 {
    match l {
        List::Nil => 0,
        List::Cons(d, rest) => *d as u128 + 65536 * digits(rest),
    }
}

fn literal_values(src: &str) -> Vec<(u128, u128)> {
    let (sprite, diagnostics) = parse_str(src);
    assert!(diagnostics.is_empty(), "{:?}", diagnostics);
    event_body(&sprite)
        .iter()
        .map(|st| match st {
            Stmt::Block { args, .. } => match to_vec(args)[0] {
                Expr::Value { value: Value::Number(Number::Literal { num, den, .. }), .. } => {
                    (digits(num), digits(den))
                }
                other => panic!("{:?}", other),
            },
            other => panic!("{:?}", other),
        })
        .collect()
}

#[test]
fn zero_literals_are_recognised() {
    let values = literal_values("onflag() { say 0; say 0.000; say 0x00; say 0.5; say 10; }");
    let zero: Vec<bool> = values.iter().map(|v| v.0 == 0).collect();
    assert_eq!(zero, vec![true, true, true, false, false]);
}

#[test]
fn literals_record_their_exact_value() {
    let values = literal_values(
        "onflag() { say 12.5; say 0x1F; say 0b101; say 0o17; say 7; say 0.0625; \
         say 123456789012345678901234567890; }",
    );
    assert_eq!(
        values,
        vec![
            (125, 10),
            (31, 1),
            (5, 1),
            (15, 1),
            (7, 1),
            (625, 10000),
            (123456789012345678901234567890, 1),
        ]
    );
}

// ─── Number obfuscation ─────────────────────────────────────────────────────

fn project_of(src: &str) -> Project {
    let (sprite, diagnostics) = parse_str(src);
    assert!(diagnostics.is_empty(), "{:?}", diagnostics);
    Project { stage: sprite, sprites: List::Nil }
}

#[test]
fn visit_project_replaces_numbers_by_operations() {
    // With the fixed seed, the generator gives 1635523509, 2740165808,
    // 3363532434 and 277279878 first: r = 3510 and the form `(n - r) + r`
    // for the first number, then r = 2435 and the form `0 * r` for zero.
    let src = "onflag() { say 5; say 0; }";
    let mut project = project_of(src);
    visit_project(&mut project);
    let body = event_body(&project.stage);
    match body[0] {
        Stmt::Block { args, .. } => match to_vec(args)[0] {
            Expr::BinOp { op: BinOp::Add, lhs, rhs, span: s } => {
                assert_eq!(text(src, *s), "5");
                match (lhs.as_ref(), rhs.as_ref()) {
                    (
                        Expr::Value {
                            value: Value::Number(Number::Derived { kind: Derivation::NSubR, base, r: 3510 }),
                            ..
                        },
                        Expr::Value { value: Value::Number(Number::Int(3510)), .. },
                    ) => assert!(matches!(base.as_ref(), Number::Literal { .. })),
                    other => panic!("{:?}", other),
                }
            }
            other => panic!("{:?}", other),
        },
        other => panic!("{:?}", other),
    }
    match body[1] {
        Stmt::Block { args, .. } => match to_vec(args)[0] {
            Expr::BinOp { op: BinOp::Mul, lhs, rhs, .. } => {
                assert!(matches!(lhs.as_ref(), Expr::Value { value: Value::Number(Number::Int(0)), .. }));
                assert!(matches!(rhs.as_ref(), Expr::Value { value: Value::Number(Number::Int(2435)), .. }));
            }
            other => panic!("{:?}", other),
        },
        other => panic!("{:?}", other),
    }
}

#[test]
fn visit_project_is_reproducible() {
    let src = "function f(a) { say $a + 1; }\nonflag() { repeat 3 { f 2.5; } x = -7; }";
    let mut first = project_of(src);
    let mut second = project_of(src);
    visit_project(&mut first);
    visit_project(&mut second);
    assert_eq!(format!("{:?}", first), format!("{:?}", second));
}

#[test]
fn visit_project_leaves_calls_names_and_strings() {
    let src = "onflag() { say f(1) & \"s\" & x; }";
    let mut project = project_of(src);
    let before = format!("{:?}", project);
    visit_project(&mut project);
    assert_eq!(format!("{:?}", project), before);
}

#[test]
fn visit_project_goes_through_the_stage_then_the_sprites() {
    let stage = project_of("onflag() { say 5; }").stage;
    let (sprite, _) = parse_str("onflag() { say 0; }");
    let mut project = Project {
        stage,
        sprites: List::Cons(
            NamedSprite { name: "main".to_string(), sprite },
            Box::new(List::Nil),
        ),
    };
    visit_project(&mut project);
    let sprites = to_vec(&project.sprites);
    assert_eq!(sprites[0].name, "main");
    match event_body(&sprites[0].sprite)[0] {
        Stmt::Block { args, .. } => {
            assert!(matches!(to_vec(args)[0], Expr::BinOp { op: BinOp::Mul, .. }))
        }
        other => panic!("{:?}", other),
    }
}

/// The f64 value of a number whose literals come from `src`.
fn eval_number(src: &str, n: &Number) -> f64 {
    match n {
        Number::Literal { span, .. } => text(src, *span).parse::<f64>().unwrap(),
        Number::Int(k) => *k as f64,
        Number::Derived { kind, base, r } => {
            let n = eval_number(src, base);
            let r = *r as f64;
            match kind {
                Derivation::RDivN => r / n,
                Derivation::RSubN => r - n,
                Derivation::NSubR => n - r,
                Derivation::NMulR => n * r,
                Derivation::NAddR => n + r,
            }
        }
    }
}

fn eval_expr(src: &str, e: &Expr) -> f64 {
    match e {
        Expr::Value { value: Value::Number(n), .. } => eval_number(src, n),
        Expr::BinOp { op, lhs, rhs, .. } => {
            let (a, b) = (eval_expr(src, lhs), eval_expr(src, rhs));
            match op {
                BinOp::Add => a + b,
                BinOp::Sub => a - b,
                BinOp::Mul => a * b,
                BinOp::Div => a / b,
                other => panic!("{:?}", other),
            }
        }
        other => panic!("{:?}", other),
    }
}

#[test]
fn obfuscated_numbers_keep_their_value() {
    let src = "onflag() { say 5; say 0; say 12; say 0.25; say 7; say 3; say 100; say 0; }";
    let mut project = project_of(src);
    visit_project(&mut project);
    let expected = [5.0, 0.0, 12.0, 0.25, 7.0, 3.0, 100.0, 0.0];
    for (st, want) in event_body(&project.stage).iter().zip(expected.iter()) {
        match st {
            Stmt::Block { args, .. } => {
                let e = to_vec(args)[0];
                assert!(matches!(e, Expr::BinOp { .. }));
                let got = eval_expr(src, e);
                assert!((got - want).abs() < 1e-9, "{} != {}", got, want);
            }
            other => panic!("{:?}", other),
        }
    }
}

#[test]
fn each_sprite_keeps_the_values_of_its_own_source() {
    let stage_src = "onflag() { say 2.5; say 40; }";
    let sprite_src = "// a sprite\nonflag() { say 0.5; say 9; say 0; }";
    let stage = project_of(stage_src).stage;
    let (sprite, _) = parse_str(sprite_src);
    let mut project = Project {
        stage,
        sprites: List::Cons(NamedSprite { name: "s".to_string(), sprite }, Box::new(List::Nil)),
    };
    visit_project(&mut project);
    let check = |src: &str, sprite: &Sprite, expected: &[f64]| {
        let body = event_body(sprite);
        assert_eq!(body.len(), expected.len());
        for (st, want) in body.iter().zip(expected.iter()) {
            match st {
                Stmt::Block { args, .. } => {
                    let got = eval_expr(src, to_vec(args)[0]);
                    assert!((got - want).abs() < 1e-9, "{} != {}", got, want);
                }
                other => panic!("{:?}", other),
            }
        }
    };
    check(stage_src, &project.stage, &[2.5, 40.0]);
    check(sprite_src, &to_vec(&project.sprites)[0].sprite, &[0.5, 9.0, 0.0]);
}

fn derived(kind: Derivation, base: Number, r: u32) -> Number {
    Number::Derived { kind, base: Box::new(base), r }
}

/// A project whose only script sets a variable to `value`.
fn project_setting(value: Number) -> Project {
    let mut project = project_of("onflag() { x = 1; }");
    match &mut project.stage.events {
        List::Cons(event, _) => match &mut event.body {
            List::Cons(Stmt::SetVar { value: v, .. }, _) => {
                *v = Expr::Value { value: Value::Number(value), span: span(11, 16) }
            }
            other => panic!("{:?}", other),
        },
        other => panic!("{:?}", other),
    }
    project
}

fn value_set(project: &Project) -> &Expr {
    match event_body(&project.stage)[0] {
        Stmt::SetVar { value, .. } => value,
        other => panic!("{:?}", other),
    }
}

#[test]
fn derived_numbers_are_obfuscated_again() {
    // 370 - 5 is 365: with the seed, r = 3510 and the form `(n - r) + r`.
    let mut project = project_setting(derived(Derivation::RSubN, Number::Int(5), 370));
    visit_project(&mut project);
    let e = value_set(&project);
    match e {
        Expr::BinOp { op: BinOp::Add, lhs, rhs, .. } => {
            match (lhs.as_ref(), rhs.as_ref()) {
                (
                    Expr::Value {
                        value: Value::Number(Number::Derived { kind: Derivation::NSubR, base, r: 3510 }),
                        ..
                    },
                    Expr::Value { value: Value::Number(Number::Int(3510)), .. },
                ) => assert!(matches!(
                    base.as_ref(),
                    Number::Derived { kind: Derivation::RSubN, r: 370, .. }
                )),
                other => panic!("{:?}", other),
            }
        }
        other => panic!("{:?}", other),
    }
    assert!((eval_expr("", e) - 365.0).abs() < 1e-9);
}

#[test]
fn derived_number_of_value_zero_takes_the_zero_forms() {
    // 5 - 5 is 0: with the seed, r = 3510 and the form `r - r`.
    let mut project = project_setting(derived(Derivation::RSubN, Number::Int(5), 5));
    visit_project(&mut project);
    match value_set(&project) {
        Expr::BinOp { op: BinOp::Sub, lhs, rhs, .. } => {
            assert!(matches!(lhs.as_ref(), Expr::Value { value: Value::Number(Number::Int(3510)), .. }));
            assert!(matches!(rhs.as_ref(), Expr::Value { value: Value::Number(Number::Int(3510)), .. }));
        }
        other => panic!("{:?}", other),
    }
}

#[test]
fn division_by_zero_is_left_as_it_is() {
    let mut project = project_setting(derived(Derivation::RDivN, Number::Int(0), 3));
    let before = format!("{:?}", project);
    visit_project(&mut project);
    assert_eq!(format!("{:?}", project), before);
}

#[test]
fn a_second_pass_keeps_the_values() {
    let src = "onflag() { say 5; say 0; say 0.25; say 12; say 3; }";
    let mut project = project_of(src);
    visit_project(&mut project);
    visit_project(&mut project);
    let expected = [5.0, 0.0, 0.25, 12.0, 3.0];
    for (st, want) in event_body(&project.stage).iter().zip(expected.iter()) {
        match st {
            Stmt::Block { args, .. } => {
                let e = to_vec(args)[0];
                match e {
                    Expr::BinOp { lhs, rhs, .. } => {
                        assert!(matches!(lhs.as_ref(), Expr::BinOp { .. }) || matches!(rhs.as_ref(), Expr::BinOp { .. }));
                    }
                    other => panic!("{:?}", other),
                }
                let got = eval_expr(src, e);
                assert!((got - want).abs() < 1e-9, "{} != {}", got, want);
            }
            other => panic!("{:?}", other),
        }
    }
}

#[test]
fn comments_read_as_blank_space() {
    let with_comments = "x = 10 /* c */;\n// d\ny = 2 // 3\n;";
    let blank = "x = 10        ;\n    \ny = 2     \n;";
    assert_eq!(with_comments.len(), blank.len());
    let (t1, d1) = lex(with_comments.as_bytes());
    let (t2, d2) = lex(blank.as_bytes());
    assert_eq!(t1, t2);
    assert!(d1.is_empty() && d2.is_empty());
    let (s1, e1) = parse_str(&format!("onflag() {{ {} }}", with_comments));
    let (s2, e2) = parse_str(&format!("onflag() {{ {} }}", blank));
    assert_eq!(format!("{:?}", s1), format!("{:?}", s2));
    assert_eq!(e1, e2);
}

#[test]
fn numbers_under_properties_and_function_call_statements_are_obfuscated() {
    let five = || Expr::Value { value: Value::Number(Number::Int(5)), span: span(11, 16) };
    let mut project = project_setting(Number::Int(0));
    match &mut project.stage.events {
        List::Cons(event, _) => {
            event.body = List::Cons(
                Stmt::SetVar {
                    name: span(11, 12),
                    value: Expr::Property {
                        object: Box::new(five()),
                        property: span(0, 1),
                        span: span(11, 16),
                    },
                    ty: None,
                    is_local: false,
                },
                Box::new(List::Cons(
                    Stmt::FuncCall {
                        name: span(0, 1),
                        args: Box::new(List::Cons(five(), Box::new(List::Nil))),
                        kwargs: Box::new(List::Nil),
                        span: span(0, 1),
                    },
                    Box::new(List::Nil),
                )),
            )
        }
        other => panic!("{:?}", other),
    }
    visit_project(&mut project);
    let body = event_body(&project.stage);
    match body[0] {
        Stmt::SetVar { value: Expr::Property { object, .. }, .. } => {
            assert!(matches!(object.as_ref(), Expr::BinOp { .. }));
            assert!((eval_expr("", object) - 5.0).abs() < 1e-9);
        }
        other => panic!("{:?}", other),
    }
    match body[1] {
        Stmt::FuncCall { args, .. } => {
            let e = to_vec(args)[0];
            assert!(matches!(e, Expr::BinOp { .. }));
            assert!((eval_expr("", e) - 5.0).abs() < 1e-9);
        }
        other => panic!("{:?}", other),
    }
}

#[test]
fn comments_parse_as_blank_space_keeping_line_breaks() {
    let with_comments = "%define N 4 /* a\nb */ + 1\nonflag() { x = 10 // 3\n; say N; }";
    let blank = "%define N 4     \n     + 1\nonflag() { x = 10     \n; say N; }";
    assert_eq!(with_comments.len(), blank.len());
    let (s1, e1) = parse_str(with_comments);
    let (s2, e2) = parse_str(blank);
    assert_eq!(format!("{:?}", s1), format!("{:?}", s2));
    assert_eq!(e1, e2);
}

#[test]
fn tokens_are_in_order_inside_the_source() {
    let src = "costumes \"a\"; /* c */ onflag() { x = 1 + 2; // end\n say \"s\" & x; } @ ~";
    let (tokens, diagnostics) = lex(src.as_bytes());
    let mut last = 0;
    for (start, _, end) in &tokens {
        assert!(last <= *start && start < end && *end <= src.len());
        last = *end;
    }
    let mut last = 0;
    for d in &diagnostics {
        assert!(last <= d.span.start && d.span.start < d.span.end && d.span.end <= src.len());
        last = d.span.end;
    }
    assert_eq!(diagnostics.len(), 2);
}

#[test]
fn tokens_without_directives_pass_the_preprocessor_unchanged() {
    let src = "onflag() { say LIMIT; x = y + 1; }";
    let (tokens, _) = lex(src.as_bytes());
    let (out, diagnostic) =
        goboscript::pre_processor::preprocess_tokens(src.as_bytes(), &tokens);
    assert_eq!(out, tokens);
    assert_eq!(diagnostic, None);
}

#[test]
fn double_slash_starts_a_comment() {
    let src = "onflag() {\n    x = 10 // 3\n    ;\n}\n";
    let (sprite, diagnostics) = parse_str(src);
    assert!(diagnostics.is_empty(), "{:?}", diagnostics);
    match event_body(&sprite)[0] {
        Stmt::SetVar { value: Expr::Value { value: Value::Number(Number::Literal { span, .. }), .. }, .. } => {
            assert_eq!(text(src, *span), "10")
        }
        other => panic!("{:?}", other),
    }
}
