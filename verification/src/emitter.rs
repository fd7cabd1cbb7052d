//! The SystemVerilog emitter that the `neoh` program uses: a file starts
//! with a `timescale` line, `out` targets of `watchfor` are written as a
//! bare parenthesised expression, and `writefile` sets up a waveform dump.
use vstd::prelude::*;
use crate::ast::{
    BlockDef,
    File,
    OutTarget,
    PieceDef,
    PutStmt,
    Statement,
    TestGroupDef,
    TestbenchDef,
    VerifCmd,
};
use crate::decimal::{dec_nat, push_u32};
use crate::render::{
    block_text,
    expect_text,
    is_indented_line,
    out_target_text,
    piece_text,
    push_block,
    push_expect,
    push_out_target,
    push_piece,
    push_put,
    push_testgroup,
    push_writefile,
    put_text,
    testgroup_text,
    writefile_text,
};

verus! {

/// Collects the SystemVerilog text of what it is given in `output`.
pub struct Emitter {
    pub output: String,
}

/// The text of a whole file: the timescale line, then each statement.
pub open spec fn file_text(f: File) -> Seq<char> {
    "`timescale 1ns / 1ps\n\n"@ + statements_text(f.statements@)
}

pub open spec fn statements_text(s: Seq<Statement>) -> Seq<char>
    decreases s.len(),
{
    if s.len() == 0 {
        Seq::empty()
    } else {
        statements_text(s.drop_last()) + statement_text(s.last())
    }
}

/// A `known` statement produces no text.
pub open spec fn statement_text(st: Statement) -> Seq<char> {
    match st {
        Statement::Block(b) => block_text(b),
        Statement::Testbench(t) => testbench_text(t),
        Statement::Testgroup(g) => testgroup_text(g),
        Statement::Piece(p) => piece_text(p),
        Statement::Known(_, _) => Seq::empty(),
    }
}

/// A testbench becomes a module `tb_<name>` that instantiates its target as
/// `dut` and runs its commands in one `initial` block.
pub open spec fn testbench_text(t: TestbenchDef) -> Seq<char> {
    "module tb_"@ + t.name@ + "();\n"@ + "  "@ + t.target@ + " dut();\n"@ + "  initial begin\n"@
        + verif_cmds_text(t.body@) + "  end\nendmodule\n"@
}

pub open spec fn verif_cmds_text(s: Seq<VerifCmd>) -> Seq<char>
    decreases s.len(),
{
    if s.len() == 0 {
        Seq::empty()
    } else {
        verif_cmds_text(s.drop_last()) + verif_cmd_text(s.last())
    }
}

/// The line of one testbench command; `out` commands have no line in this
/// emitter.
pub open spec fn verif_cmd_text(cmd: VerifCmd) -> Seq<char> {
    match cmd {
        VerifCmd::Expect { time, lhs, rhs } => expect_text(time, lhs, rhs),
        VerifCmd::Pulse { len, gap } => "    "@ + len@ + " = 1; #"@ + len@ + " "@ + len@ + " = 0; #"@
            + gap@ + " "@ + gap@ + " = 0;\n"@,
        VerifCmd::Watchfor { time_a, lhs, rhs, time_b, out } => "    wait("@ + lhs@ + " == "@ + rhs@
            + "); #"@ + dec_nat(time_b as nat) + " ("@ + out_target_text(out) + ");\n"@,
        VerifCmd::Write(w) => "    "@ + w.target@ + " = "@ + w.val@ + ";\n"@,
        VerifCmd::Put(p) => put_text(p),
        VerifCmd::Out { .. } => Seq::empty(),
        VerifCmd::WriteFile { mode, file } => writefile_text(mode, file),
    }
}

impl Emitter {
    pub fn new() -> (e: Self)
        ensures
            e.output@ == Seq::<char>::empty(),
    {
        Emitter { output: String::new() }
    }

    /// Appends the text of `file` to `output`.
    pub fn emit_file(&mut self, file: &File)
        ensures
            final(self).output@ == old(self).output@ + file_text(*file),
    {
        self.output.append("`timescale 1ns / 1ps\n\n");
        let ghost head = self.output@;
        let mut i: usize = 0;
        while i < file.statements.len()
            invariant
                i <= file.statements.len(),
                self.output@ == head + statements_text(file.statements@.take(i as int)),
            decreases file.statements.len() - i,
        {
            assert(file.statements@.take(i + 1).drop_last() =~= file.statements@.take(i as int));
            match &file.statements[i] {
                Statement::Block(b) => self.emit_block(b),
                Statement::Testbench(t) => self.emit_testbench(t),
                Statement::Testgroup(g) => self.emit_testgroup(g),
                Statement::Piece(p) => self.emit_piece(p),
                Statement::Known(_, _) => {},
            }
            assert(self.output@ =~= head + statements_text(file.statements@.take(i + 1)));
            i = i + 1;
        }
        assert(file.statements@.take(i as int) =~= file.statements@);
        assert(self.output@ =~= old(self).output@ + file_text(*file));
    }

    pub fn emit_block(&mut self, b: &BlockDef)
        ensures
            final(self).output@ == old(self).output@ + block_text(*b),
    {
        push_block(&mut self.output, b);
    }

    pub fn emit_piece(&mut self, p: &PieceDef)
        ensures
            final(self).output@ == old(self).output@ + piece_text(*p),
    {
        push_piece(&mut self.output, p);
    }

    pub fn emit_testbench(&mut self, t: &TestbenchDef)
        ensures
            final(self).output@ == old(self).output@ + testbench_text(*t),
    {
        self.output.append("module tb_");
        self.output.append(t.name.as_str());
        self.output.append("();\n");
        self.output.append("  ");
        self.output.append(t.target.as_str());
        self.output.append(" dut();\n");
        self.output.append("  initial begin\n");
        let ghost head = self.output@;
        let mut i: usize = 0;
        while i < t.body.len()
            invariant
                i <= t.body.len(),
                self.output@ == head + verif_cmds_text(t.body@.take(i as int)),
            decreases t.body.len() - i,
        {
            assert(t.body@.take(i + 1).drop_last() =~= t.body@.take(i as int));
            self.emit_verif_cmd(&t.body[i]);
            assert(self.output@ =~= head + verif_cmds_text(t.body@.take(i + 1)));
            i = i + 1;
        }
        assert(t.body@.take(i as int) =~= t.body@);
        self.output.append("  end\nendmodule\n");
        assert(self.output@ =~= old(self).output@ + testbench_text(*t));
    }

    pub fn emit_verif_cmd(&mut self, cmd: &VerifCmd)
        ensures
            final(self).output@ == old(self).output@ + verif_cmd_text(*cmd),
    {
        match cmd {
            VerifCmd::Expect { time, lhs, rhs } => {
                push_expect(&mut self.output, *time, lhs, rhs);
            },
            VerifCmd::Pulse { len, gap } => {
                self.output.append("    ");
                self.output.append(len.as_str());
                self.output.append(" = 1; #");
                self.output.append(len.as_str());
                self.output.append(" ");
                self.output.append(len.as_str());
                self.output.append(" = 0; #");
                self.output.append(gap.as_str());
                self.output.append(" ");
                self.output.append(gap.as_str());
                self.output.append(" = 0;\n");
            },
            VerifCmd::Watchfor { lhs, rhs, time_b, out, .. } => {
                self.output.append("    wait(");
                self.output.append(lhs.as_str());
                self.output.append(" == ");
                self.output.append(rhs.as_str());
                self.output.append("); #");
                push_u32(&mut self.output, *time_b);
                self.output.append(" (");
                push_out_target(&mut self.output, out);
                self.output.append(");\n");
            },
            VerifCmd::Write(w) => {
                self.output.append("    ");
                self.output.append(w.target.as_str());
                self.output.append(" = ");
                self.output.append(w.val.as_str());
                self.output.append(";\n");
            },
            VerifCmd::Put(p) => self.emit_put(p),
            VerifCmd::Out { .. } => {},
            VerifCmd::WriteFile { mode, file } => {
                push_writefile(&mut self.output, mode, file);
            },
        }
        assert(self.output@ =~= old(self).output@ + verif_cmd_text(*cmd));
    }

    pub fn emit_put(&mut self, p: &PutStmt)
        ensures
            final(self).output@ == old(self).output@ + put_text(*p),
    {
        push_put(&mut self.output, p);
    }

    pub fn emit_testgroup(&mut self, g: &TestGroupDef)
        ensures
            final(self).output@ == old(self).output@ + testgroup_text(*g),
    {
        push_testgroup(&mut self.output, g);
    }
}

/// The text of a list of statements is the text of its parts in turn:
/// emitting two lists of statements one after the other writes the same as
/// emitting them as one list.
pub proof fn lemma_statements_text_concat(a: Seq<Statement>, b: Seq<Statement>)
    ensures
        statements_text(a + b) == statements_text(a) + statements_text(b),
    decreases b.len(),
{
    if b.len() == 0 {
        assert(a + b =~= a);
        assert(statements_text(a) + statements_text(b) =~= statements_text(a));
    } else {
        lemma_statements_text_concat(a, b.drop_last());
        assert((a + b).drop_last() =~= a + b.drop_last());
        assert((a + b).last() == b.last());
        assert(statements_text(a + b) =~= statements_text(a) + statements_text(b));
    }
}

/// Every command that this emitter writes is one line indented by four
/// spaces; only `out` writes nothing.
pub proof fn lemma_command_is_indented_line(c: VerifCmd)
    ensures
        c is Out <==> verif_cmd_text(c).len() == 0,
        !(c is Out) ==> is_indented_line(verif_cmd_text(c)),
{
    reveal_strlit("    ");
    reveal_strlit("    #");
    reveal_strlit("    wait(");
    reveal_strlit("    $dumpfile(\"");
    reveal_strlit(");\n");
    reveal_strlit(";\n");
    reveal_strlit(" = 0;\n");
    let t = verif_cmd_text(c);
    if !(c is Out) {
        assert(t.len() >= 5);
        assert(t[0] == ' ' && t[1] == ' ' && t[2] == ' ' && t[3] == ' ');
        assert(t.last() == '\n');
    }
}

/// The text of a list of testbench commands is the text of its parts in
/// turn: commands are written in source order.
pub proof fn lemma_verif_cmds_text_concat(a: Seq<VerifCmd>, b: Seq<VerifCmd>)
    ensures
        verif_cmds_text(a + b) == verif_cmds_text(a) + verif_cmds_text(b),
    decreases b.len(),
{
    if b.len() == 0 {
        assert(a + b =~= a);
        assert(verif_cmds_text(a) + verif_cmds_text(b) =~= verif_cmds_text(a));
    } else {
        lemma_verif_cmds_text_concat(a, b.drop_last());
        assert((a + b).drop_last() =~= a + b.drop_last());
        assert((a + b).last() == b.last());
        assert(verif_cmds_text(a + b) =~= verif_cmds_text(a) + verif_cmds_text(b));
    }
}

/// A list of one command is written as that command's line, as
/// `emit_verif_cmd` writes it.
pub proof fn lemma_verif_cmds_text_single(c: VerifCmd)
    ensures
        verif_cmds_text(seq![c]) == verif_cmd_text(c),
{
    assert(seq![c].drop_last() =~= Seq::<VerifCmd>::empty());
    assert(seq![c].last() == c);
    assert(verif_cmds_text(Seq::<VerifCmd>::empty()) == Seq::<char>::empty());
    assert(verif_cmds_text(seq![c]) =~= verif_cmd_text(c));
}

/// Emitting a file writes each statement as the matching `emit_*` method
/// writes it on its own, in order; a `known` statement writes nothing.
pub proof fn lemma_statements_text_push(s: Seq<Statement>, st: Statement)
    ensures
        statements_text(s.push(st)) == statements_text(s) + match st {
            Statement::Block(b) => block_text(b),
            Statement::Testbench(t) => testbench_text(t),
            Statement::Testgroup(g) => testgroup_text(g),
            Statement::Piece(p) => piece_text(p),
            Statement::Known(_, _) => Seq::<char>::empty(),
        },
{
    assert(s.push(st).drop_last() =~= s);
    assert(s.push(st).last() == st);
}

/// A testbench is the `tb_` module line, the `dut` instance of its target,
/// an `initial` block holding the text of its commands, and the closing
/// lines.
pub proof fn lemma_testbench_text_shape(t: TestbenchDef)
    ensures
        testbench_text(t) == ("module tb_"@ + t.name@ + "();\n"@ + "  "@ + t.target@ + " dut();\n"@
            + "  initial begin\n"@) + verif_cmds_text(t.body@) + "  end\nendmodule\n"@,
{
    assert(testbench_text(t) =~= ("module tb_"@ + t.name@ + "();\n"@ + "  "@ + t.target@
        + " dut();\n"@ + "  initial begin\n"@) + verif_cmds_text(t.body@) + "  end\nendmodule\n"@);
}

/// A `put` command is written as its target, operator and expression on
/// one indented line.
pub proof fn lemma_put_line(p: PutStmt)
    ensures
        verif_cmd_text(VerifCmd::Put(p)) == "    "@ + p.target@ + " "@ + p.op@ + " "@ + p.expr@
            + ";\n"@,
{
}

/// An `expect` command is written as an assertion of `lhs == rhs` after
/// its delay.
pub proof fn lemma_expect_line(time: u32, lhs: String, rhs: String)
    ensures
        verif_cmd_text(VerifCmd::Expect { time, lhs, rhs }) == "    #"@ + dec_nat(time as nat)
            + " assert("@ + lhs@ + " == "@ + rhs@ + ");\n"@,
{
}

/// A file is written as the timescale line and then the text of its statements.
pub proof fn lemma_file_text_shape(f: File)
    ensures
        file_text(f) == "`timescale 1ns / 1ps\n\n"@ + statements_text(f.statements@),
{
}

/// A `pulse` command raises its signal, then lowers it after `len`, then
/// drives `gap` after `gap`.
pub proof fn lemma_pulse_line(len: String, gap: String)
    ensures
        verif_cmd_text(VerifCmd::Pulse { len, gap }) == "    "@ + len@ + " = 1; #"@ + len@ + " "@
            + len@ + " = 0; #"@ + gap@ + " "@ + gap@ + " = 0;\n"@,
{
}

/// A `watchfor` command waits for `lhs == rhs`, then shows its target
/// after the second delay; the first delay is not written.
pub proof fn lemma_watchfor_line(time_a: u32, lhs: String, rhs: String, time_b: u32, out: OutTarget)
    ensures
        verif_cmd_text(VerifCmd::Watchfor { time_a, lhs, rhs, time_b, out }) == "    wait("@ + lhs@
            + " == "@ + rhs@ + "); #"@ + dec_nat(time_b as nat) + " ("@ + match out {
            OutTarget::Variable(v) => v@,
            OutTarget::Literal(l) => l@,
        } + ");\n"@,
{
}

} // verus!
