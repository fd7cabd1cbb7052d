use neoh::ast::{
    BlockDef, BlockStmt, File, GroupItem, OutTarget, PassParams, PieceDef, PutStmt, RetAssign,
    Statement, TestGroupDef, TestbenchDef, VerifCmd, Width, WriteStmt,
};
use neoh::emitter::Emitter;

fn s(x: &str) -> String {
    x.to_string()
}

fn sample_block() -> BlockDef {
    BlockDef {
        name: s("Example"),
        params: vec![s("a"), s("b")],
        body: vec![
            BlockStmt::RetAssign(RetAssign {
                target: s("c"),
                expr: s("a + b"),
                width: Some(Width { msb: 7, lsb: 0 }),
            }),
            BlockStmt::RetAssign(RetAssign { target: s("d"), expr: s("a"), width: None }),
            BlockStmt::RetVar(s("c")),
            BlockStmt::PassParams(PassParams {
                block_type: s("example"),
                inst_name: s("n1"),
                params: vec![s("x"), s("y"), s("z")],
            }),
        ],
    }
}

#[test]
fn new_emitter_is_empty() {
    assert_eq!(Emitter::new().output, "");
}

#[test]
fn block_becomes_module() {
    let mut e = Emitter::new();
    e.emit_block(&sample_block());
    assert_eq!(
        e.output,
        "module Example();\n  assign [7:0] c = a + b;\n  assign  d = a;\n  reg c;\n  example n1(x, y, z);\nendmodule\n"
    );
}

#[test]
fn nested_block_is_written_inside() {
    let inner = BlockDef { name: s("inner"), params: vec![], body: vec![BlockStmt::RetVar(s("q"))] };
    let outer = BlockDef {
        name: s("outer"),
        params: vec![],
        body: vec![BlockStmt::NestedBlock(inner), BlockStmt::RetVar(s("r"))],
    };
    let mut e = Emitter::new();
    e.emit_block(&outer);
    assert_eq!(
        e.output,
        "module outer();\nmodule inner();\n  reg q;\nendmodule\n  reg r;\nendmodule\n"
    );
}

#[test]
fn pass_params_join_edge_cases() {
    let mut e = Emitter::new();
    let b = BlockDef {
        name: s("m"),
        params: vec![],
        body: vec![
            BlockStmt::PassParams(PassParams { block_type: s("t"), inst_name: s("i"), params: vec![] }),
            BlockStmt::PassParams(PassParams { block_type: s("t"), inst_name: s("j"), params: vec![s("p")] }),
        ],
    };
    e.emit_block(&b);
    assert_eq!(e.output, "module m();\n  t i();\n  t j(p);\nendmodule\n");
}

#[test]
fn negative_width_is_signed() {
    let mut e = Emitter::new();
    let b = BlockDef {
        name: s("w"),
        params: vec![],
        body: vec![BlockStmt::RetAssign(RetAssign {
            target: s("t"),
            expr: s("e"),
            width: Some(Width { msb: -1, lsb: -8 }),
        })],
    };
    e.emit_block(&b);
    assert_eq!(e.output, "module w();\n  assign [-1:-8] t = e;\nendmodule\n");
}

#[test]
fn piece_becomes_interface() {
    let mut e = Emitter::new();
    e.emit_piece(&PieceDef {
        name: s("ExampleBus"),
        members: vec![(s("in"), s("addr")), (s("in"), s("data")), (s("out"), s("ready"))],
    });
    assert_eq!(
        e.output,
        "interface ExampleBus;\n  in logic addr;\n  in logic data;\n  out logic ready;\nendinterface\n"
    );
}

#[test]
fn testgroup_becomes_module() {
    let mut e = Emitter::new();
    e.emit_testgroup(&TestGroupDef {
        name: s("ExampleGroup"),
        items: vec![GroupItem::Do(s("random")), GroupItem::Same(vec![s("tb1"), s("tb2")])],
    });
    assert_eq!(
        e.output,
        "module tg_ExampleGroup();\n  initial begin\n    #0;\n    tb_random inst();\n  end\n  fork\n    begin tb_tb1 inst(); end\n    begin tb_tb2 inst(); end\n  join\nendmodule\n"
    );
}

#[test]
fn verif_commands() {
    let mut e = Emitter::new();
    e.emit_verif_cmd(&VerifCmd::Expect { time: 10, lhs: s("signal2"), rhs: s("1") });
    e.emit_verif_cmd(&VerifCmd::Pulse { len: s("clk"), gap: s("rst") });
    e.emit_verif_cmd(&VerifCmd::Watchfor {
        time_a: 50,
        lhs: s("req"),
        rhs: s("ack"),
        time_b: 100,
        out: OutTarget::Variable(s("status")),
    });
    e.emit_verif_cmd(&VerifCmd::Write(WriteStmt { target: s("x"), val: s("3") }));
    e.emit_verif_cmd(&VerifCmd::Put(PutStmt {
        target: s("signal1"),
        op: s("<="),
        expr: s("1"),
        width: None,
    }));
    assert_eq!(
        e.output,
        "    #10 assert(signal2 == 1);\n    clk = 1; #clk clk = 0; #rst rst = 0;\n    wait(req == ack); #100 (status);\n    x = 3;\n    signal1 <= 1;\n"
    );
}

#[test]
fn out_has_no_line() {
    let mut e = Emitter::new();
    e.emit_verif_cmd(&VerifCmd::Out { time: 5, target: OutTarget::Literal(s("\"hi\"")) });
    assert_eq!(e.output, "");
}

#[test]
fn writefile_dumps_waves() {
    let mut e = Emitter::new();
    e.emit_verif_cmd(&VerifCmd::WriteFile { mode: s("vcd"), file: s("output.vcd") });
    assert_eq!(e.output, "    $dumpfile(\"output.vcd\"); $dumpvars(0, vcd);\n");
}

#[test]
fn put_line() {
    let mut e = Emitter::new();
    e.emit_put(&PutStmt { target: s("a"), op: s("="), expr: s("b & c"), width: Some(Width { msb: 3, lsb: 0 }) });
    assert_eq!(e.output, "    a = b & c;\n");
}

#[test]
fn testbench_becomes_module() {
    let mut e = Emitter::new();
    e.emit_testbench(&TestbenchDef {
        name: s("random"),
        target: s("RandomBlock"),
        body: vec![VerifCmd::Expect { time: 0, lhs: s("a"), rhs: s("b") }],
    });
    assert_eq!(
        e.output,
        "module tb_random();\n  RandomBlock dut();\n  initial begin\n    #0 assert(a == b);\n  end\nendmodule\n"
    );
}

#[test]
fn file_starts_with_timescale_and_skips_known() {
    let file = File {
        statements: vec![
            Statement::Known(s("macro1"), s("clk, rst")),
            Statement::Piece(PieceDef { name: s("P"), members: vec![] }),
            Statement::Testgroup(TestGroupDef { name: s("G"), items: vec![] }),
        ],
    };
    let mut e = Emitter::new();
    e.emit_file(&file);
    assert_eq!(
        e.output,
        "`timescale 1ns / 1ps\n\ninterface P;\nendinterface\nmodule tg_G();\nendmodule\n"
    );
}

#[test]
fn empty_file_is_only_timescale() {
    let mut e = Emitter::new();
    e.emit_file(&File { statements: vec![] });
    assert_eq!(e.output, "`timescale 1ns / 1ps\n\n");
}

#[test]
fn emit_keeps_earlier_output() {
    let mut e = Emitter { output: s("// head\n") };
    e.emit_block(&BlockDef { name: s("m"), params: vec![], body: vec![] });
    assert_eq!(e.output, "// head\nmodule m();\nendmodule\n");
}
