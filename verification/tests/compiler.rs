use tinybasic::assembly::{Entry, Immediate, Label, Mnemonic, Operand, Program, Register};
use tinybasic::elf;
use tinybasic::error::SyntaxError;
use tinybasic::generate::{Counters, Generate};
use tinybasic::optimize::Optimize;
use tinybasic::parse_tree::{ParseNode, ParseRule};
use tinybasic::symbol_table::{SymbolTable, Type};
use tinybasic::syntax_tree::{Arexpr, ArOp, Expr, RelOp, Stmt, SyntaxTree};
use tinybasic::text::{parse_i32, parse_unsigned};

fn node(rule: ParseRule, text: &str, line: usize, children: Vec<ParseNode>) -> ParseNode {
    ParseNode { rule, text: text.to_string(), line, children }
}

fn num(text: &str, line: usize) -> ParseNode {
    node(ParseRule::Number, text, line, vec![])
}

fn ident(text: &str, line: usize) -> ParseNode {
    node(ParseRule::Ident, text, line, vec![])
}

fn kw(rule: ParseRule, line: usize) -> ParseNode {
    node(rule, "", line, vec![])
}

fn stmt_print_str(text: &str, line: usize) -> ParseNode {
    node(
        ParseRule::Stmt,
        "",
        line,
        vec![
            kw(ParseRule::Print, line),
            node(
                ParseRule::Expr,
                "",
                line,
                vec![node(ParseRule::StringLit, text, line, vec![])],
            ),
        ],
    )
}

fn arexpr(children: Vec<ParseNode>, line: usize) -> ParseNode {
    node(ParseRule::Arexpr, "", line, children)
}

fn stmt_let(name: &str, expr: ParseNode, line: usize) -> ParseNode {
    node(
        ParseRule::Stmt,
        "",
        line,
        vec![kw(ParseRule::Let, line), ident(name, line), expr],
    )
}

fn line_node(number: &str, stmt: ParseNode, line: usize) -> ParseNode {
    node(ParseRule::Line, "", line, vec![num(number, line), stmt])
}

fn file(lines: Vec<ParseNode>) -> ParseNode {
    let mut children = lines;
    children.push(node(ParseRule::Eoi, "", 0, vec![]));
    node(ParseRule::File, "", 1, children)
}

fn relop_node(op: ParseRule, line: usize) -> ParseNode {
    node(ParseRule::Relop, "", line, vec![kw(op, line)])
}

fn build(root: &ParseNode) -> (SyntaxTree, SymbolTable) {
    assert!(root.check_file());
    let mut st = SymbolTable::default();
    let tree = SyntaxTree::from_pairs(root, &mut st).expect("tree");
    (tree, st)
}

fn compile(root: &ParseNode) -> (Program, SymbolTable) {
    let (tree, st) = build(root);
    assert!(tree.check_generate_ready(&st));
    let mut counters = Counters::new();
    let program = tree.generate(Program::default(), &st, &mut counters);
    (program, st)
}

#[test]
fn symbol_insert_then_get_returns_original() {
    let mut st = SymbolTable::default();
    st.insert("A", Type::Int);
    st.insert("B", Type::Int);
    st.insert("A", Type::Int);
    let a = st.get("A").expect("A");
    assert_eq!(a.st_addr(), 0);
    assert_eq!(a.end_addr(), 8);
    let b = st.get("B").expect("B");
    assert_eq!(b.st_addr(), 8);
    assert_eq!(st.size(), 16);
    assert!(st.get("C").is_none());
}

#[test]
fn symbol_size_counts_distinct_int_names() {
    let mut st = SymbolTable::default();
    for _ in 0..3 {
        st.insert("X", Type::Int);
        st.insert("Y", Type::Int);
    }
    assert_eq!(st.size(), 16);
}

#[test]
fn wrong_line_number_points_at_third_line() {
    let root = file(vec![
        line_node("10", stmt_print_str("\"A\"", 1), 1),
        line_node("20", stmt_print_str("\"B\"", 2), 2),
        line_node("15", stmt_print_str("\"C\"", 3), 3),
    ]);
    let mut st = SymbolTable::default();
    let r = SyntaxTree::from_pairs(&root, &mut st);
    assert_eq!(r.unwrap_err(), SyntaxError::WrongLineNumber(3));
}

#[test]
fn out_of_range_literal_is_parse_int_error() {
    let root = file(vec![line_node(
        "10",
        stmt_let("A", arexpr(vec![num("2147483648", 1)], 1), 1),
        1,
    )]);
    let mut st = SymbolTable::default();
    let r = SyntaxTree::from_pairs(&root, &mut st);
    assert_eq!(r.unwrap_err(), SyntaxError::ParseIntError);
}

#[test]
fn parse_units() {
    assert_eq!(parse_i32("42"), Some(42));
    assert_eq!(parse_i32("-2147483648"), Some(i32::MIN));
    assert_eq!(parse_i32("2147483648"), None);
    assert_eq!(parse_i32(""), None);
    assert_eq!(parse_i32("1a"), None);
    assert_eq!(parse_unsigned("007", u64::MAX), Some(7));
}

#[test]
fn folding_computes_two_plus_three_times_four() {
    let root = file(vec![line_node(
        "10",
        stmt_let(
            "A",
            arexpr(
                vec![
                    num("2", 1),
                    kw(ParseRule::Add, 1),
                    num("3", 1),
                    kw(ParseRule::Mul, 1),
                    num("4", 1),
                ],
                1,
            ),
            1,
        ),
        1,
    )]);
    let (tree, _) = build(&root);
    let opt = tree.optimize();
    assert_eq!(opt.lines.len(), 1);
    assert_eq!(opt.lines[0].number, 10);
    match &opt.lines[0].stmt {
        Stmt::Let(name, Arexpr::Num(v)) => {
            assert_eq!(name, "A");
            assert_eq!(*v, 14);
        },
        s => panic!("unexpected statement {:?}", s),
    }
}

#[test]
fn folding_is_idempotent_on_programs() {
    let make = || {
        let root = file(vec![
            line_node(
                "10",
                stmt_let(
                    "A",
                    arexpr(
                        vec![num("1", 1), kw(ParseRule::Add, 1), num("2", 1)],
                        1,
                    ),
                    1,
                ),
                1,
            ),
            line_node(
                "20",
                node(
                    ParseRule::Stmt,
                    "",
                    2,
                    vec![
                        kw(ParseRule::If, 2),
                        node(
                            ParseRule::Cond,
                            "",
                            2,
                            vec![num("1", 2), relop_node(ParseRule::Eq, 2), num("2", 2)],
                        ),
                        stmt_print_str("\"A\"", 2),
                        stmt_print_str("\"B\"", 2),
                    ],
                ),
                2,
            ),
        ]);
        build(&root).0
    };
    let once = make().optimize();
    let twice = make().optimize().optimize();
    assert_eq!(once, twice);
}

#[test]
fn dead_branch_is_eliminated() {
    let root = file(vec![line_node(
        "10",
        node(
            ParseRule::Stmt,
            "",
            1,
            vec![
                kw(ParseRule::If, 1),
                node(
                    ParseRule::Cond,
                    "",
                    1,
                    vec![num("1", 1), relop_node(ParseRule::Eq, 1), num("2", 1)],
                ),
                stmt_print_str("\"A\"", 1),
                stmt_print_str("\"B\"", 1),
            ],
        ),
        1,
    )]);
    let (tree, _) = build(&root);
    let opt = tree.optimize();
    assert_eq!(opt.lines.len(), 1);
    match &opt.lines[0].stmt {
        Stmt::Print(Expr::String(s)) => assert_eq!(s, "B"),
        s => panic!("if was not resolved: {:?}", s),
    }
}

#[test]
fn division_by_zero_is_not_folded() {
    let root = file(vec![line_node(
        "10",
        stmt_let(
            "A",
            arexpr(vec![num("1", 1), kw(ParseRule::Div, 1), num("0", 1)], 1),
            1,
        ),
        1,
    )]);
    let (tree, _) = build(&root);
    let opt = tree.optimize();
    match &opt.lines[0].stmt {
        Stmt::Let(_, Arexpr::BinExpr { op: ArOp::Div, .. }) => {},
        s => panic!("division by zero was folded: {:?}", s),
    }
}

#[test]
fn division_truncates_toward_zero() {
    assert_eq!(ArOp::Div.execute(7, 2), 3);
    assert_eq!(ArOp::Div.execute(-7, 2), -3);
    assert_eq!(ArOp::Div.execute(7, -2), -3);
    assert_eq!(ArOp::Div.execute(-7, -2), 3);
}

#[test]
fn addition_wraps_per_twos_complement() {
    assert_eq!(ArOp::Add.execute(i32::MAX, 1), i32::MIN);
    assert_eq!(ArOp::Mul.execute(1 << 20, 1 << 20), 0);
}

#[test]
fn peephole_rewrites_the_window_cases() {
    let p = Program::default()
        .add(Mnemonic::Push(Operand::Reg(Register::Rax)))
        .add(Mnemonic::Pop(Register::Rbx))
        .add(Mnemonic::Add(Register::Rcx, Operand::Imm(Immediate::Imm32(1))))
        .add(Mnemonic::Add(Register::Rdx, Operand::Imm(Immediate::Imm32(0))))
        .add(Mnemonic::Mov(Register::R8, Operand::Imm(Immediate::Imm32(0))));
    let out = p.optimize();
    assert_eq!(
        out.entries,
        vec![
            Entry::Instr(Mnemonic::Mov(Register::Rbx, Operand::Reg(Register::Rax))),
            Entry::Instr(Mnemonic::Inc(Register::Rcx)),
            Entry::Instr(Mnemonic::Xor(Register::R8, Operand::Reg(Register::R8))),
        ],
    );
}

#[test]
fn peephole_is_idempotent_on_streams() {
    let make = || {
        Program::default()
            .add(Mnemonic::Push(Operand::Imm(Immediate::Imm32(0))))
            .add(Mnemonic::Pop(Register::Rbx))
            .add(Mnemonic::Sub(Register::Rcx, Operand::Imm(Immediate::Imm32(1))))
            .add(Mnemonic::Mov(Register::R9, Operand::Imm(Immediate::Imm32(7))))
    };
    let once = make().optimize();
    let twice = make().optimize().optimize();
    assert_eq!(once.entries, twice.entries);
}

#[test]
fn print_hi_interns_the_literal_and_calls_print() {
    let root = file(vec![line_node("10", stmt_print_str("\"HI\"", 1), 1)]);
    let (program, _) = compile(&root);
    assert_eq!(program.data.len(), 1);
    assert_eq!(program.data[0].label, Label::Literal(1));
    assert_eq!(program.data[0].bytes, b"HI".to_vec());
    assert!(program.entries.contains(&Entry::Instr(Mnemonic::Mov(
        Register::Rdx,
        Operand::Imm(Immediate::Imm32(2)),
    ))));
    assert!(program.entries.contains(&Entry::Instr(Mnemonic::Call(Label::Print))));
    let image = elf::emit(&program).expect("elf");
    assert_eq!(&image[0..4], &[0x7F, 0x45, 0x4C, 0x46]);
    assert!(image.len() > 176);
}

#[test]
fn escapes_expand_during_lowering() {
    let root = file(vec![line_node("10", stmt_print_str("\"A\\nB\\tC\"", 1), 1)]);
    let (program, _) = compile(&root);
    assert_eq!(program.data[0].bytes, vec![b'A', b'\n', b'B', b'\t', b'C']);
}

#[test]
fn if_with_variable_lowers_to_compare_and_jump() {
    let root = file(vec![
        line_node("10", stmt_let("X", arexpr(vec![num("5", 1)], 1), 1), 1),
        line_node(
            "20",
            node(
                ParseRule::Stmt,
                "",
                2,
                vec![
                    kw(ParseRule::If, 2),
                    node(
                        ParseRule::Cond,
                        "",
                        2,
                        vec![ident("X", 2), relop_node(ParseRule::Gt, 2), num("3", 2)],
                    ),
                    stmt_print_str("\"Y\"", 2),
                    stmt_print_str("\"N\"", 2),
                ],
            ),
            2,
        ),
    ]);
    let (program, _) = compile(&root);
    assert!(program.entries.contains(&Entry::Instr(Mnemonic::Jg(Label::Then(1)))));
    assert!(program.entries.contains(&Entry::LabelDef(Label::Then(1))));
    assert!(program.entries.contains(&Entry::LabelDef(Label::Fi(1))));
    let image = elf::emit(&program).expect("elf");
    assert_eq!(&image[0..4], &[0x7F, 0x45, 0x4C, 0x46]);
}

#[test]
fn goto_loop_resolves_its_line_labels() {
    let root = file(vec![
        line_node("10", stmt_let("I", arexpr(vec![num("0", 1)], 1), 1), 1),
        line_node(
            "20",
            stmt_let(
                "I",
                arexpr(vec![ident("I", 2), kw(ParseRule::Add, 2), num("1", 2)], 2),
                2,
            ),
            2,
        ),
        line_node(
            "30",
            node(
                ParseRule::Stmt,
                "",
                3,
                vec![
                    kw(ParseRule::If, 3),
                    node(
                        ParseRule::Cond,
                        "",
                        3,
                        vec![ident("I", 3), relop_node(ParseRule::Lt, 3), num("3", 3)],
                    ),
                    node(
                        ParseRule::Stmt,
                        "",
                        3,
                        vec![kw(ParseRule::Goto, 3), num("20", 3)],
                    ),
                ],
            ),
            3,
        ),
        line_node(
            "40",
            node(
                ParseRule::Stmt,
                "",
                4,
                vec![
                    kw(ParseRule::Print, 4),
                    node(
                        ParseRule::Expr,
                        "",
                        4,
                        vec![arexpr(vec![ident("I", 4)], 4)],
                    ),
                ],
            ),
            4,
        ),
    ]);
    let (program, _) = compile(&root);
    assert!(program.entries.contains(&Entry::Instr(Mnemonic::Jmp(Label::Line(20)))));
    assert!(program.entries.contains(&Entry::LabelDef(Label::Line(20))));
    assert!(program.entries.contains(&Entry::Instr(Mnemonic::Call(Label::Printn))));
    let image = elf::emit(&program).expect("elf");
    assert_eq!(&image[0..4], &[0x7F, 0x45, 0x4C, 0x46]);
}

#[test]
fn goto_to_a_missing_line_is_an_unknown_label() {
    let root = file(vec![line_node(
        "10",
        node(
            ParseRule::Stmt,
            "",
            1,
            vec![kw(ParseRule::Goto, 1), num("99", 1)],
        ),
        1,
    )]);
    let (program, _) = compile(&root);
    assert_eq!(elf::emit(&program), Err(tinybasic::elf::EmitError::UnknownLabel));
}

#[test]
fn comment_lines_have_number_zero_and_are_dropped_by_optimization() {
    let root = file(vec![
        node(ParseRule::Rem, "REM hello", 1, vec![]),
        line_node("10", stmt_print_str("\"X\"", 2), 2),
    ]);
    let (tree, _) = build(&root);
    assert_eq!(tree.lines.len(), 2);
    assert_eq!(tree.lines[0].number, 0);
    assert!(tree.lines[0].is_empty());
    let opt = tree.optimize();
    assert_eq!(opt.lines.len(), 1);
}

#[test]
fn unnumbered_line_inherits_last_plus_one() {
    let root = file(vec![
        line_node("10", stmt_print_str("\"A\"", 1), 1),
        node(
            ParseRule::Line,
            "",
            2,
            vec![stmt_print_str("\"B\"", 2)],
        ),
    ]);
    let (tree, _) = build(&root);
    assert_eq!(tree.lines[1].number, 11);
}

#[test]
fn strip_removes_the_outer_quotes() {
    assert_eq!(tinybasic::syntax_tree::strip("\"HI\""), "HI");
    assert_eq!(tinybasic::syntax_tree::strip("\"\""), "");
}

#[test]
fn relop_execute_matches_the_comparison() {
    assert!(RelOp::Eq.execute(1, 1));
    assert!(RelOp::Ne.execute(1, 2));
    assert!(RelOp::Ge.execute(2, 2));
    assert!(RelOp::Gt.execute(3, 2));
    assert!(RelOp::Le.execute(2, 2));
    assert!(RelOp::Lt.execute(1, 2));
    assert!(!RelOp::Gt.execute(2, 3));
}

#[test]
fn input_lowers_to_a_read_call() {
    let root = file(vec![line_node(
        "10",
        node(
            ParseRule::Stmt,
            "",
            1,
            vec![kw(ParseRule::Input, 1), ident("N", 1)],
        ),
        1,
    )]);
    let (program, st) = compile(&root);
    assert!(st.get("N").is_some());
    assert!(program.entries.contains(&Entry::Instr(Mnemonic::Call(Label::Read))));
    assert!(program.entries.contains(&Entry::Instr(Mnemonic::Sub(
        Register::Rbx,
        Operand::Imm(Immediate::Imm32(48)),
    ))));
}

#[test]
fn emit_rejects_an_unencodable_immediate() {
    let p = Program::default().add(Mnemonic::Push(Operand::Imm(Immediate::Imm64(1))));
    assert_eq!(elf::emit(&p), Err(tinybasic::elf::EmitError::Unencodable));
}

#[test]
fn malformed_rule_trees_are_rejected() {
    let lone_stmt = node(ParseRule::Stmt, "", 1, vec![]);
    assert!(!lone_stmt.check_stmt());
    let bad_root = node(ParseRule::Line, "", 1, vec![]);
    assert!(!bad_root.check_file());
}

#[test]
fn goto_target_out_of_range_is_a_parse_int_error() {
    let root = file(vec![line_node(
        "10",
        node(
            ParseRule::Stmt,
            "",
            1,
            vec![kw(ParseRule::Goto, 1), num("4294967296", 1)],
        ),
        1,
    )]);
    let mut st = SymbolTable::default();
    let r = SyntaxTree::from_pairs(&root, &mut st);
    assert_eq!(r.unwrap_err(), SyntaxError::ParseIntError);
}

#[test]
fn program_prologue_reserves_the_frame() {
    let root = file(vec![
        line_node("10", stmt_let("A", arexpr(vec![num("1", 1)], 1), 1), 1),
        line_node("20", stmt_let("B", arexpr(vec![num("2", 2)], 2), 2), 2),
    ]);
    let (program, st) = compile(&root);
    assert_eq!(st.size(), 16);
    assert_eq!(
        program.entries[0],
        Entry::Instr(Mnemonic::Mov(Register::R15, Operand::Reg(Register::Rsp))),
    );
    assert_eq!(
        program.entries[1],
        Entry::Instr(Mnemonic::Sub(Register::Rsp, Operand::Imm(Immediate::Imm32(16)))),
    );
}

#[test]
fn printed_numbers_go_through_the_slot_wide_digit_buffer() {
    let root = file(vec![
        line_node(
            "10",
            stmt_let(
                "A",
                arexpr(
                    vec![
                        num("2", 1),
                        kw(ParseRule::Add, 1),
                        num("3", 1),
                        kw(ParseRule::Mul, 1),
                        num("4", 1),
                    ],
                    1,
                ),
                1,
            ),
            1,
        ),
        line_node(
            "20",
            node(
                ParseRule::Stmt,
                "",
                2,
                vec![
                    kw(ParseRule::Print, 2),
                    node(
                        ParseRule::Expr,
                        "",
                        2,
                        vec![arexpr(vec![ident("A", 2)], 2)],
                    ),
                ],
            ),
            2,
        ),
    ]);
    let (program, _) = compile(&root);
    assert!(program.entries.contains(&Entry::Instr(Mnemonic::Call(Label::Printn))));
    // each pushed digit occupies a full 8-byte stack slot, so the printed
    // length is the digit count times eight
    assert!(program.entries.contains(&Entry::Instr(Mnemonic::IMul(
        Register::Rcx,
        Operand::Imm(Immediate::Imm32(8)),
    ))));
}
