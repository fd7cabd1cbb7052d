use neoh::ast::{
    BlockStmt, GroupItem, OutTarget, PassParams, PutStmt, RetAssign, Statement, VerifCmd, Width,
};
use neoh::emitter::Emitter;
use neoh::parse_tree::{ParseNode, Rule};
use neoh::transformer::{
    build_ast, build_block, build_piece, build_ret_assign, build_testgroup, build_verif_cmd,
    try_build_ast,
};

fn leaf(rule: Rule, text: &str) -> ParseNode {
    ParseNode { rule, text: text.to_string(), children: vec![] }
}

fn ident(text: &str) -> ParseNode {
    leaf(Rule::other, text)
}

fn node(rule: Rule, text: &str, children: Vec<ParseNode>) -> ParseNode {
    ParseNode { rule, text: text.to_string(), children }
}

fn s(x: &str) -> String {
    x.to_string()
}

fn port(dir: &str, name: &str) -> ParseNode {
    node(Rule::port, &format!("{} {}", dir, name), vec![ident(dir), ident(name)])
}

fn width(msb: &str, lsb: &str) -> ParseNode {
    node(Rule::width_constraint, "[always ...]", vec![ident(msb), ident(lsb)])
}

/// `block Example(in a, in b, out c) logic { ret tempassign c [always 7:0] <= a + b; ret c; }`
fn example_block() -> ParseNode {
    node(
        Rule::block_def,
        "block Example(...) logic {...}",
        vec![
            ident("Example"),
            port("in", "a"),
            port("in", "b"),
            port("out", "c"),
            node(
                Rule::ret_stmt,
                "ret tempassign c [always 7:0] <= a + b;",
                vec![ident("c"), width("7", "0"), ident("a + b")],
            ),
            node(Rule::ret_var_stmt, "ret c;", vec![ident("c")]),
        ],
    )
}

/// `block top(in x, in y, out z) logic { n1 passparams example(x,y,z); ret n1; }`
fn top_block() -> ParseNode {
    node(
        Rule::block_def,
        "block top(...) logic {...}",
        vec![
            ident("top"),
            port("in", "x"),
            port("in", "y"),
            port("out", "z"),
            node(
                Rule::pass_stmt,
                "n1 passparams example(x,y,z);",
                vec![ident("n1"), ident("example"), ident("x"), ident("y"), ident("z")],
            ),
            node(Rule::ret_var_stmt, "ret n1;", vec![ident("n1")]),
        ],
    )
}

fn group_node() -> ParseNode {
    node(
        Rule::testgroup,
        "testgroup ExampleGroup {...}",
        vec![
            ident("ExampleGroup"),
            node(Rule::do_stmt, "do tb_random;", vec![ident("tb_random")]),
            node(
                Rule::same_block,
                "same {...}",
                vec![node(Rule::other, "run tb1;", vec![ident("tb1")]), node(Rule::other, "run tb2;", vec![ident("tb2")])],
            ),
        ],
    )
}

fn piece_node() -> ParseNode {
    node(
        Rule::piece_def,
        "piece ExampleBus {...}",
        vec![
            ident("ExampleBus"),
            node(Rule::other, "in addr", vec![ident("in"), ident("addr")]),
            node(Rule::other, "in data", vec![ident("in"), ident("data")]),
            node(Rule::other, "out ready", vec![ident("out"), ident("ready")]),
        ],
    )
}

fn watch_node() -> ParseNode {
    node(
        Rule::watch_cmd,
        "/50 watchfor req <= ack & /100 out(status)",
        vec![ident("50"), ident("req"), ident("ack"), ident("100"), ident("status")],
    )
}

fn testbench_node() -> ParseNode {
    node(
        Rule::testbench,
        "testbench random(RandomBlock){...}",
        vec![
            ident("random"),
            ident("RandomBlock"),
            ident("getvars(signal1, clk)"),
            ident("BEGIN"),
            node(
                Rule::other,
                "{...}",
                vec![
                    node(Rule::put_stmt, "put signal1 <= 1;", vec![ident("signal1"), ident("<="), ident("1")]),
                    node(Rule::expect_cmd, "/10 expect(signal2 == 1);", vec![ident("10"), ident("signal2"), ident("=="), ident("1")]),
                    node(Rule::pulse_cmd, "pulse len(clk), gap(rst);", vec![ident("clk"), ident(","), ident("rst")]),
                    watch_node(),
                    node(Rule::out_cmd, "/5 out(\"hi\");", vec![ident("5"), leaf(Rule::string_literal, "\"hi\"")]),
                    node(Rule::writefile_cmd, "writefile(mode vcd, file output.vcd);", vec![ident("vcd"), ident(","), ident("output.vcd")]),
                ],
            ),
        ],
    )
}

fn file_node() -> ParseNode {
    node(
        Rule::file,
        "<whole file>",
        vec![
            example_block(),
            ident("known macro1 <= clk, rst;"),
            testbench_node(),
            group_node(),
            piece_node(),
            leaf(Rule::other, "EOI"),
        ],
    )
}

#[test]
fn block_keeps_ports_width_and_statements() {
    let b = build_block(&example_block());
    assert_eq!(b.name, "Example");
    assert_eq!(b.params, vec![s("a"), s("b"), s("c")]);
    assert_eq!(
        b.body,
        vec![
            BlockStmt::RetAssign(RetAssign { target: s("c"), expr: s("a + b"), width: Some(Width { msb: 7, lsb: 0 }) }),
            BlockStmt::RetVar(s("c")),
        ]
    );
}

#[test]
fn block_with_passparams() {
    let b = build_block(&top_block());
    assert_eq!(b.name, "top");
    assert_eq!(b.params, vec![s("x"), s("y"), s("z")]);
    assert_eq!(
        b.body[0],
        BlockStmt::PassParams(PassParams {
            block_type: s("example"),
            inst_name: s("n1"),
            params: vec![s("x"), s("y"), s("z")],
        })
    );
    assert_eq!(b.body[1], BlockStmt::RetVar(s("n1")));
}

#[test]
fn nested_block_is_built() {
    let outer = node(Rule::block_def, "outer", vec![ident("outer"), top_block(), node(Rule::ret_var_stmt, "ret r;", vec![ident("r")])]);
    let b = build_block(&outer);
    assert_eq!(b.body.len(), 2);
    match &b.body[0] {
        BlockStmt::NestedBlock(inner) => {
            assert_eq!(inner.name, "top");
            assert_eq!(inner.body.len(), 2);
        }
        other => panic!("expected a nested block, got {:?}", other),
    }
    assert_eq!(b.body[1], BlockStmt::RetVar(s("r")));
}

#[test]
fn ret_assign_reads_width() {
    let r = build_ret_assign(&node(
        Rule::ret_stmt,
        "ret tempassign c [always 7:0] <= a + b;",
        vec![ident("c"), width("7", "0"), ident("a + b")],
    ));
    assert_eq!(r, RetAssign { target: s("c"), expr: s("a + b"), width: Some(Width { msb: 7, lsb: 0 }) });
    let r = build_ret_assign(&node(Rule::ret_stmt, "ret d <= e;", vec![ident("d"), ident("e")]));
    assert_eq!(r, RetAssign { target: s("d"), expr: s("e"), width: None });
    let r = build_ret_assign(&node(
        Rule::ret_stmt,
        "r",
        vec![ident("t"), width("-1", "+3"), width("9", "9"), ident("x")],
    ));
    assert_eq!(r.width, Some(Width { msb: -1, lsb: 3 }));
}

#[test]
fn testgroup_items_in_order() {
    let g = build_testgroup(&group_node());
    assert_eq!(g.name, "ExampleGroup");
    assert_eq!(g.items, vec![GroupItem::Do(s("tb_random")), GroupItem::Same(vec![s("tb1"), s("tb2")])]);
}

#[test]
fn piece_members_in_order() {
    let p = build_piece(&piece_node());
    assert_eq!(p.name, "ExampleBus");
    assert_eq!(p.members, vec![(s("in"), s("addr")), (s("in"), s("data")), (s("out"), s("ready"))]);
}

#[test]
fn watchfor_command() {
    assert_eq!(
        build_verif_cmd(&watch_node()),
        VerifCmd::Watchfor {
            time_a: 50,
            lhs: s("req"),
            rhs: s("ack"),
            time_b: 100,
            out: OutTarget::Variable(s("status")),
        }
    );
}

#[test]
fn put_reads_width() {
    let cmd = build_verif_cmd(&node(
        Rule::put_stmt,
        "put a <= b [always 3:0];",
        vec![ident("a"), ident("<="), ident("b"), width("3", "0")],
    ));
    assert_eq!(
        cmd,
        VerifCmd::Put(PutStmt { target: s("a"), op: s("<="), expr: s("b"), width: Some(Width { msb: 3, lsb: 0 }) })
    );
}

#[test]
fn builds_every_statement_kind() {
    let f = build_ast(&vec![file_node()]);
    assert_eq!(f.statements.len(), 4);
    assert!(matches!(&f.statements[0], Statement::Block(b) if b.name == "Example" && b.params.len() == 3));
    match &f.statements[1] {
        Statement::Testbench(t) => {
            assert_eq!(t.name, "random");
            assert_eq!(t.target, "RandomBlock");
            assert_eq!(
                t.body,
                vec![
                    VerifCmd::Put(PutStmt { target: s("signal1"), op: s("<="), expr: s("1"), width: None }),
                    VerifCmd::Expect { time: 10, lhs: s("signal2"), rhs: s("1") },
                    VerifCmd::Pulse { len: s("clk"), gap: s("rst") },
                    VerifCmd::Watchfor { time_a: 50, lhs: s("req"), rhs: s("ack"), time_b: 100, out: OutTarget::Variable(s("status")) },
                    VerifCmd::Out { time: 5, target: OutTarget::Literal(s("\"hi\"")) },
                    VerifCmd::WriteFile { mode: s("vcd"), file: s("output.vcd") },
                ]
            );
        }
        other => panic!("expected a testbench, got {:?}", other),
    }
    assert!(matches!(&f.statements[2], Statement::Testgroup(g) if g.items.len() == 2));
    assert!(matches!(&f.statements[3], Statement::Piece(p) if p.members.len() == 3));
}

#[test]
fn top_level_nodes_other_than_file_are_ignored() {
    let f = build_ast(&vec![example_block(), leaf(Rule::other, "EOI")]);
    assert!(f.statements.is_empty());
}

#[test]
fn several_file_nodes_are_read_in_order() {
    let first = node(Rule::file, "a", vec![node(Rule::piece_def, "p", vec![ident("A")])]);
    let second = node(Rule::file, "b", vec![node(Rule::testgroup, "g", vec![ident("B")])]);
    let f = build_ast(&vec![first, second]);
    assert_eq!(f.statements.len(), 2);
    assert!(matches!(&f.statements[0], Statement::Piece(p) if p.name == "A"));
    assert!(matches!(&f.statements[1], Statement::Testgroup(g) if g.name == "B"));
}

#[test]
fn try_build_ast_accepts_well_shaped_tree() {
    let f = try_build_ast(&vec![file_node()]).expect("well-shaped");
    assert_eq!(f.statements.len(), 4);
}

fn in_file(n: ParseNode) -> Vec<ParseNode> {
    vec![node(Rule::file, "f", vec![n])]
}

fn bench_with(cmd: ParseNode) -> ParseNode {
    node(
        Rule::testbench,
        "t",
        vec![ident("t"), ident("T"), ident("g"), ident("w"), node(Rule::other, "{}", vec![cmd])],
    )
}

#[test]
fn try_build_ast_refuses_bad_time() {
    let bad = node(Rule::expect_cmd, "e", vec![ident("ten"), ident("a"), ident("=="), ident("b")]);
    assert!(try_build_ast(&in_file(bench_with(bad))).is_none());
    let bad_watch = node(Rule::watch_cmd, "w", vec![ident("1"), ident("a"), ident("b"), ident("x"), ident("o")]);
    assert!(try_build_ast(&in_file(bench_with(bad_watch))).is_none());
}

#[test]
fn try_build_ast_refuses_unknown_command() {
    assert!(try_build_ast(&in_file(bench_with(ident("noise")))).is_none());
}

#[test]
fn try_build_ast_refuses_bad_width() {
    let bad = node(Rule::block_def, "b", vec![ident("b"), node(Rule::ret_stmt, "r", vec![ident("t"), width("x", "0"), ident("e")])]);
    assert!(try_build_ast(&in_file(bad)).is_none());
    let short = node(Rule::put_stmt, "p", vec![ident("a"), ident("="), ident("b"), node(Rule::width_constraint, "[7]", vec![ident("7")])]);
    assert!(try_build_ast(&in_file(bench_with(short))).is_none());
}

#[test]
fn try_build_ast_refuses_short_nodes() {
    assert!(try_build_ast(&in_file(node(Rule::block_def, "b", vec![]))).is_none());
    let short_ret = node(Rule::block_def, "b", vec![ident("b"), node(Rule::ret_stmt, "r", vec![ident("x")])]);
    assert!(try_build_ast(&in_file(short_ret)).is_none());
    let short_pass = node(Rule::block_def, "b", vec![ident("b"), node(Rule::pass_stmt, "p", vec![ident("n1")])]);
    assert!(try_build_ast(&in_file(short_pass)).is_none());
    let nested_bad = node(Rule::block_def, "b", vec![ident("b"), node(Rule::block_def, "inner", vec![])]);
    assert!(try_build_ast(&in_file(nested_bad)).is_none());
    assert!(try_build_ast(&in_file(node(Rule::testbench, "t", vec![ident("t"), ident("T")]))).is_none());
    assert!(try_build_ast(&in_file(node(Rule::piece_def, "p", vec![]))).is_none());
    let short_member = node(Rule::piece_def, "p", vec![ident("P"), node(Rule::other, "in", vec![ident("in")])]);
    assert!(try_build_ast(&in_file(short_member)).is_none());
    let empty_do = node(Rule::testgroup, "g", vec![ident("G"), node(Rule::do_stmt, "do;", vec![])]);
    assert!(try_build_ast(&in_file(empty_do)).is_none());
    let empty_run = node(Rule::testgroup, "g", vec![ident("G"), node(Rule::same_block, "same", vec![ident("run")])]);
    assert!(try_build_ast(&in_file(empty_run)).is_none());
}

#[test]
fn malformed_nodes_outside_file_do_not_matter() {
    let f = try_build_ast(&vec![node(Rule::block_def, "b", vec![])]).expect("ignored");
    assert!(f.statements.is_empty());
}

#[test]
fn pipeline_from_tree_to_systemverilog() {
    let f = build_ast(&in_file(example_block()));
    let mut e = Emitter::new();
    e.emit_file(&f);
    assert_eq!(
        e.output,
        "`timescale 1ns / 1ps\n\nmodule Example();\n  assign [7:0] c = a + b;\n  reg c;\nendmodule\n"
    );
    let f = build_ast(&in_file(group_node()));
    let mut e = Emitter::new();
    e.emit_file(&f);
    assert_eq!(
        e.output,
        "`timescale 1ns / 1ps\n\nmodule tg_ExampleGroup();\n  initial begin\n    #0;\n    tb_tb_random inst();\n  end\n  fork\n    begin tb_tb1 inst(); end\n    begin tb_tb2 inst(); end\n  join\nendmodule\n"
    );
}
