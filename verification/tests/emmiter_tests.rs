use neoh::ast::{
    BlockDef, BlockStmt, File, OutTarget, PieceDef, Statement, TestGroupDef, TestbenchDef,
    VerifCmd, WriteStmt,
};
use neoh::emmiter::Emitter as SecondEmitter;

fn s(x: &str) -> String {
    x.to_string()
}

#[test]
fn second_emitter_has_no_timescale() {
    let mut e = SecondEmitter::new();
    e.emit_file(&File {
        statements: vec![Statement::Block(BlockDef {
            name: s("m"),
            params: vec![],
            body: vec![BlockStmt::RetVar(s("r"))],
        })],
    });
    assert_eq!(e.output, "module m();\n  reg r;\nendmodule\n");
}

#[test]
fn second_emitter_commands() {
    let mut e = SecondEmitter::new();
    e.emit_verif_cmd(&VerifCmd::Pulse { len: s("clk"), gap: s("rst") });
    e.emit_verif_cmd(&VerifCmd::Watchfor {
        time_a: 50,
        lhs: s("req"),
        rhs: s("ack"),
        time_b: 100,
        out: OutTarget::Literal(s("\"done\"")),
    });
    e.emit_verif_cmd(&VerifCmd::WriteFile { mode: s("vcd"), file: s("output.vcd") });
    e.emit_verif_cmd(&VerifCmd::Expect { time: 4294967295, lhs: s("a"), rhs: s("b") });
    assert_eq!(
        e.output,
        "    clk = 1; #clk clk = 0; #rst rst = 1;\n    wait(req == ack); #100 $display(\"done\");\n    $dumpfile(\"output.vcd\"); $dumpvars(0, vcd);\n    #4294967295 assert(a == b);\n"
    );
}

#[test]
fn second_emitter_skips_write_and_out() {
    let mut e = SecondEmitter::new();
    e.emit_verif_cmd(&VerifCmd::Write(WriteStmt { target: s("x"), val: s("1") }));
    e.emit_verif_cmd(&VerifCmd::Out { time: 3, target: OutTarget::Variable(s("v")) });
    assert_eq!(e.output, "");
}

#[test]
fn second_emitter_testbench() {
    let mut e = SecondEmitter::new();
    e.emit_testbench(&TestbenchDef { name: s("t"), target: s("D"), body: vec![] });
    assert_eq!(e.output, "module tb_t();\n  D dut();\n  initial begin\n  end\nendmodule\n");
}

fn parts() -> (Vec<Statement>, Vec<Statement>) {
    (
        vec![
            Statement::Piece(PieceDef { name: s("P"), members: vec![(s("in"), s("a"))] }),
            Statement::Known(s("k"), s("v")),
        ],
        vec![Statement::Testgroup(TestGroupDef { name: s("G"), items: vec![] })],
    )
}

#[test]
fn emitting_in_parts_equals_emitting_whole() {
    let (a, b) = parts();
    let mut split = SecondEmitter::new();
    split.emit_file(&File { statements: a });
    split.emit_file(&File { statements: b });
    let (a, b) = parts();
    let mut whole = SecondEmitter::new();
    whole.emit_file(&File { statements: a.into_iter().chain(b).collect() });
    assert_eq!(split.output, whole.output);
}

#[test]
fn emitters_agree_without_testbenches() {
    let (a, _) = parts();
    let mut first = neoh::emitter::Emitter::new();
    first.emit_file(&File { statements: a });
    let (a, _) = parts();
    let mut second = SecondEmitter::new();
    second.emit_file(&File { statements: a });
    assert_eq!(first.output, format!("`timescale 1ns / 1ps\n\n{}", second.output));
}
