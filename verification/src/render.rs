//! The SystemVerilog text of the constructs that every emitter writes alike:
//! blocks (modules), pieces (interfaces), testgroups and the common testbench
//! lines. Each `*_text` spec function is the exact text of a construct; each
//! `push_*` function appends that text to a string.
use vstd::prelude::*;
use crate::ast::{BlockDef, BlockStmt, GroupItem, OutTarget, PieceDef, PutStmt, TestGroupDef, Width};
use crate::decimal::{dec_int, dec_nat, push_i32, push_u32};

verus! {

/// One line of text indented by four spaces.
pub open spec fn is_indented_line(t: Seq<char>) -> bool {
    &&& t.len() >= 5
    &&& t[0] == ' ' && t[1] == ' ' && t[2] == ' ' && t[3] == ' '
    &&& t.last() == '\n'
}

/// `[msb:lsb]` for a given width, nothing for none.
pub open spec fn width_text(w: Option<Width>) -> Seq<char> {
    match w {
        Some(x) => "["@ + dec_int(x.msb as int) + ":"@ + dec_int(x.lsb as int) + "]"@,
        None => Seq::empty(),
    }
}

/// The strings of `s` separated by `", "`.
pub open spec fn join_text(s: Seq<String>) -> Seq<char>
    decreases s.len(),
{
    if s.len() == 0 {
        Seq::empty()
    } else if s.len() == 1 {
        s[0]@
    } else {
        join_text(s.drop_last()) + ", "@ + s.last()@
    }
}

/// A block becomes a module with one line per statement.
pub open spec fn block_text(b: BlockDef) -> Seq<char>
    decreases b,
{
    "module "@ + b.name@ + "();\n"@ + block_stmts_text(b.body@) + "endmodule\n"@
}

pub open spec fn block_stmts_text(s: Seq<BlockStmt>) -> Seq<char>
    decreases s,
{
    if s.len() == 0 {
        Seq::empty()
    } else {
        block_stmts_text(s.drop_last()) + block_stmt_text(s.last())
    }
}

pub open spec fn block_stmt_text(st: BlockStmt) -> Seq<char>
    decreases st,
{
    match st {
        BlockStmt::RetAssign(r) => "  assign "@ + width_text(r.width) + " "@ + r.target@ + " = "@
            + r.expr@ + ";\n"@,
        BlockStmt::PassParams(p) => "  "@ + p.block_type@ + " "@ + p.inst_name@ + "("@ + join_text(
            p.params@,
        ) + ");\n"@,
        BlockStmt::RetVar(v) => "  reg "@ + v@ + ";\n"@,
        BlockStmt::NestedBlock(nb) => block_text(nb),
    }
}

/// A piece becomes an interface with one `logic` line per member.
pub open spec fn piece_text(p: PieceDef) -> Seq<char> {
    "interface "@ + p.name@ + ";\n"@ + members_text(p.members@) + "endinterface\n"@
}

pub open spec fn member_text(m: (String, String)) -> Seq<char> {
    "  "@ + m.0@ + " logic "@ + m.1@ + ";\n"@
}

pub open spec fn members_text(s: Seq<(String, String)>) -> Seq<char>
    decreases s.len(),
{
    if s.len() == 0 {
        Seq::empty()
    } else {
        members_text(s.drop_last()) + member_text(s.last())
    }
}

/// A testgroup becomes a module that instantiates its testbenches: one
/// `initial` block per `do`, one `fork`/`join` per `same`.
pub open spec fn testgroup_text(g: TestGroupDef) -> Seq<char> {
    "module tg_"@ + g.name@ + "();\n"@ + group_items_text(g.items@) + "endmodule\n"@
}

pub open spec fn group_items_text(s: Seq<GroupItem>) -> Seq<char>
    decreases s.len(),
{
    if s.len() == 0 {
        Seq::empty()
    } else {
        group_items_text(s.drop_last()) + group_item_text(s.last())
    }
}

pub open spec fn group_item_text(item: GroupItem) -> Seq<char> {
    match item {
        GroupItem::Do(name) => "  initial begin\n    #0;\n    tb_"@ + name@ + " inst();\n  end\n"@,
        GroupItem::Same(names) => "  fork\n"@ + same_runs_text(names@) + "  join\n"@,
    }
}

pub open spec fn same_run_text(name: String) -> Seq<char> {
    "    begin tb_"@ + name@ + " inst(); end\n"@
}

pub open spec fn same_runs_text(s: Seq<String>) -> Seq<char>
    decreases s.len(),
{
    if s.len() == 0 {
        Seq::empty()
    } else {
        same_runs_text(s.drop_last()) + same_run_text(s.last())
    }
}

/// The line of a `put` command.
pub open spec fn put_text(p: PutStmt) -> Seq<char> {
    "    "@ + p.target@ + " "@ + p.op@ + " "@ + p.expr@ + ";\n"@
}

/// The line of an `expect` command: a delayed assertion.
pub open spec fn expect_text(time: u32, lhs: String, rhs: String) -> Seq<char> {
    "    #"@ + dec_nat(time as nat) + " assert("@ + lhs@ + " == "@ + rhs@ + ");\n"@
}

/// The line of a `writefile` command: a waveform dump of `mode` into `file`.
pub open spec fn writefile_text(mode: String, file: String) -> Seq<char> {
    "    $dumpfile(\""@ + file@ + "\"); $dumpvars(0, "@ + mode@ + ");\n"@
}

/// What an `out` target shows: the variable's name or the literal as written.
pub open spec fn out_target_text(t: OutTarget) -> Seq<char> {
    match t {
        OutTarget::Variable(v) => v@,
        OutTarget::Literal(s) => s@,
    }
}

pub fn push_width(out: &mut String, w: &Option<Width>)
    ensures
        final(out)@ == old(out)@ + width_text(*w),
{
    match w {
        Some(x) => {
            out.append("[");
            push_i32(out, x.msb);
            out.append(":");
            push_i32(out, x.lsb);
            out.append("]");
            assert(final(out)@ =~= old(out)@ + width_text(*w));
        },
        None => {
            assert(old(out)@ + width_text(*w) =~= old(out)@);
        },
    }
}

pub fn push_join(out: &mut String, s: &Vec<String>)
    ensures
        final(out)@ == old(out)@ + join_text(s@),
{
    let ghost start = out@;
    let mut i: usize = 0;
    while i < s.len()
        invariant
            i <= s.len(),
            out@ == start + join_text(s@.take(i as int)),
        decreases s.len() - i,
    {
        assert(s@.take(i + 1).drop_last() =~= s@.take(i as int));
        if i > 0 {
            out.append(", ");
        }
        out.append(s[i].as_str());
        assert(out@ =~= start + join_text(s@.take(i + 1)));
        i = i + 1;
    }
    assert(s@.take(i as int) =~= s@);
}

pub fn push_block(out: &mut String, b: &BlockDef)
    ensures
        final(out)@ == old(out)@ + block_text(*b),
    decreases b,
{
    out.append("module ");
    out.append(b.name.as_str());
    out.append("();\n");
    let ghost head = out@;
    let mut i: usize = 0;
    while i < b.body.len()
        invariant
            i <= b.body.len(),
            out@ == head + block_stmts_text(b.body@.take(i as int)),
        decreases b.body.len() - i,
    {
        assert(b.body@.take(i + 1).drop_last() =~= b.body@.take(i as int));
        push_block_stmt(out, &b.body[i]);
        assert(out@ =~= head + block_stmts_text(b.body@.take(i + 1)));
        i = i + 1;
    }
    assert(b.body@.take(i as int) =~= b.body@);
    out.append("endmodule\n");
    assert(final(out)@ =~= old(out)@ + block_text(*b));
}

pub fn push_block_stmt(out: &mut String, st: &BlockStmt)
    ensures
        final(out)@ == old(out)@ + block_stmt_text(*st),
    decreases st,
{
    match st {
        BlockStmt::RetAssign(r) => {
            out.append("  assign ");
            push_width(out, &r.width);
            out.append(" ");
            out.append(r.target.as_str());
            out.append(" = ");
            out.append(r.expr.as_str());
            out.append(";\n");
        },
        BlockStmt::PassParams(p) => {
            out.append("  ");
            out.append(p.block_type.as_str());
            out.append(" ");
            out.append(p.inst_name.as_str());
            out.append("(");
            push_join(out, &p.params);
            out.append(");\n");
        },
        BlockStmt::RetVar(v) => {
            out.append("  reg ");
            out.append(v.as_str());
            out.append(";\n");
        },
        BlockStmt::NestedBlock(nb) => {
            push_block(out, nb);
        },
    }
    assert(final(out)@ =~= old(out)@ + block_stmt_text(*st));
}

pub fn push_piece(out: &mut String, p: &PieceDef)
    ensures
        final(out)@ == old(out)@ + piece_text(*p),
{
    out.append("interface ");
    out.append(p.name.as_str());
    out.append(";\n");
    let ghost head = out@;
    let mut i: usize = 0;
    while i < p.members.len()
        invariant
            i <= p.members.len(),
            out@ == head + members_text(p.members@.take(i as int)),
        decreases p.members.len() - i,
    {
        assert(p.members@.take(i + 1).drop_last() =~= p.members@.take(i as int));
        let m = &p.members[i];
        out.append("  ");
        out.append(m.0.as_str());
        out.append(" logic ");
        out.append(m.1.as_str());
        out.append(";\n");
        assert(out@ =~= head + members_text(p.members@.take(i + 1)));
        i = i + 1;
    }
    assert(p.members@.take(i as int) =~= p.members@);
    out.append("endinterface\n");
    assert(final(out)@ =~= old(out)@ + piece_text(*p));
}

pub fn push_testgroup(out: &mut String, g: &TestGroupDef)
    ensures
        final(out)@ == old(out)@ + testgroup_text(*g),
{
    out.append("module tg_");
    out.append(g.name.as_str());
    out.append("();\n");
    let ghost head = out@;
    let mut i: usize = 0;
    while i < g.items.len()
        invariant
            i <= g.items.len(),
            out@ == head + group_items_text(g.items@.take(i as int)),
        decreases g.items.len() - i,
    {
        assert(g.items@.take(i + 1).drop_last() =~= g.items@.take(i as int));
        push_group_item(out, &g.items[i]);
        assert(out@ =~= head + group_items_text(g.items@.take(i + 1)));
        i = i + 1;
    }
    assert(g.items@.take(i as int) =~= g.items@);
    out.append("endmodule\n");
    assert(final(out)@ =~= old(out)@ + testgroup_text(*g));
}

fn push_group_item(out: &mut String, item: &GroupItem)
    ensures
        final(out)@ == old(out)@ + group_item_text(*item),
{
    match item {
        GroupItem::Do(name) => {
            out.append("  initial begin\n    #0;\n    tb_");
            out.append(name.as_str());
            out.append(" inst();\n  end\n");
        },
        GroupItem::Same(names) => {
            out.append("  fork\n");
            let ghost head = out@;
            let mut i: usize = 0;
            while i < names.len()
                invariant
                    i <= names.len(),
                    out@ == head + same_runs_text(names@.take(i as int)),
                decreases names.len() - i,
            {
                assert(names@.take(i + 1).drop_last() =~= names@.take(i as int));
                out.append("    begin tb_");
                out.append(names[i].as_str());
                out.append(" inst(); end\n");
                assert(out@ =~= head + same_runs_text(names@.take(i + 1)));
                i = i + 1;
            }
            assert(names@.take(i as int) =~= names@);
            out.append("  join\n");
        },
    }
    assert(final(out)@ =~= old(out)@ + group_item_text(*item));
}

pub fn push_put(out: &mut String, p: &PutStmt)
    ensures
        final(out)@ == old(out)@ + put_text(*p),
{
    out.append("    ");
    out.append(p.target.as_str());
    out.append(" ");
    out.append(p.op.as_str());
    out.append(" ");
    out.append(p.expr.as_str());
    out.append(";\n");
    assert(final(out)@ =~= old(out)@ + put_text(*p));
}

pub fn push_expect(out: &mut String, time: u32, lhs: &String, rhs: &String)
    ensures
        final(out)@ == old(out)@ + expect_text(time, *lhs, *rhs),
{
    out.append("    #");
    push_u32(out, time);
    out.append(" assert(");
    out.append(lhs.as_str());
    out.append(" == ");
    out.append(rhs.as_str());
    out.append(");\n");
    assert(final(out)@ =~= old(out)@ + expect_text(time, *lhs, *rhs));
}

pub fn push_writefile(out: &mut String, mode: &String, file: &String)
    ensures
        final(out)@ == old(out)@ + writefile_text(*mode, *file),
{
    out.append("    $dumpfile(\"");
    out.append(file.as_str());
    out.append("\"); $dumpvars(0, ");
    out.append(mode.as_str());
    out.append(");\n");
    assert(final(out)@ =~= old(out)@ + writefile_text(*mode, *file));
}

pub fn push_out_target(out: &mut String, t: &OutTarget)
    ensures
        final(out)@ == old(out)@ + out_target_text(*t),
{
    match t {
        OutTarget::Variable(v) => out.append(v.as_str()),
        OutTarget::Literal(s) => out.append(s.as_str()),
    }
}

// ---------------------------------------------------------------------
// Laws

/// The statements of a block are written in source order: the text of a
/// list of statements is the text of its parts in turn.
pub proof fn lemma_block_stmts_text_concat(a: Seq<BlockStmt>, b: Seq<BlockStmt>)
    ensures
        block_stmts_text(a + b) == block_stmts_text(a) + block_stmts_text(b),
    decreases b.len(),
{
    if b.len() == 0 {
        assert(a + b =~= a);
        assert(block_stmts_text(a) + block_stmts_text(b) =~= block_stmts_text(a));
    } else {
        lemma_block_stmts_text_concat(a, b.drop_last());
        assert((a + b).drop_last() =~= a + b.drop_last());
        assert((a + b).last() == b.last());
        assert(block_stmts_text(a + b) =~= block_stmts_text(a) + block_stmts_text(b));
    }
}

/// A list of one element is written as that element's text.
pub proof fn lemma_block_stmts_text_single(x: BlockStmt)
    ensures
        block_stmts_text(seq![x]) == block_stmt_text(x),
{
    assert(seq![x].drop_last() =~= Seq::<BlockStmt>::empty());
    assert(seq![x].last() == x);
    assert(block_stmts_text(Seq::<BlockStmt>::empty()) == Seq::<char>::empty());
    assert(block_stmts_text(seq![x]) =~= block_stmt_text(x));
}

/// The members of a piece are written in source order.
pub proof fn lemma_members_text_concat(a: Seq<(String, String)>, b: Seq<(String, String)>)
    ensures
        members_text(a + b) == members_text(a) + members_text(b),
    decreases b.len(),
{
    if b.len() == 0 {
        assert(a + b =~= a);
        assert(members_text(a) + members_text(b) =~= members_text(a));
    } else {
        lemma_members_text_concat(a, b.drop_last());
        assert((a + b).drop_last() =~= a + b.drop_last());
        assert((a + b).last() == b.last());
        assert(members_text(a + b) =~= members_text(a) + members_text(b));
    }
}

/// A list of one element is written as that element's text.
pub proof fn lemma_members_text_single(x: (String, String))
    ensures
        members_text(seq![x]) == member_text(x),
{
    assert(seq![x].drop_last() =~= Seq::<(String, String)>::empty());
    assert(seq![x].last() == x);
    assert(members_text(Seq::<(String, String)>::empty()) == Seq::<char>::empty());
    assert(members_text(seq![x]) =~= member_text(x));
}

/// The items of a testgroup are written in source order.
pub proof fn lemma_group_items_text_concat(a: Seq<GroupItem>, b: Seq<GroupItem>)
    ensures
        group_items_text(a + b) == group_items_text(a) + group_items_text(b),
    decreases b.len(),
{
    if b.len() == 0 {
        assert(a + b =~= a);
        assert(group_items_text(a) + group_items_text(b) =~= group_items_text(a));
    } else {
        lemma_group_items_text_concat(a, b.drop_last());
        assert((a + b).drop_last() =~= a + b.drop_last());
        assert((a + b).last() == b.last());
        assert(group_items_text(a + b) =~= group_items_text(a) + group_items_text(b));
    }
}

/// A list of one element is written as that element's text.
pub proof fn lemma_group_items_text_single(x: GroupItem)
    ensures
        group_items_text(seq![x]) == group_item_text(x),
{
    assert(seq![x].drop_last() =~= Seq::<GroupItem>::empty());
    assert(seq![x].last() == x);
    assert(group_items_text(Seq::<GroupItem>::empty()) == Seq::<char>::empty());
    assert(group_items_text(seq![x]) =~= group_item_text(x));
}

/// The testbenches of a `same` item are started in source order.
pub proof fn lemma_same_runs_text_concat(a: Seq<String>, b: Seq<String>)
    ensures
        same_runs_text(a + b) == same_runs_text(a) + same_runs_text(b),
    decreases b.len(),
{
    if b.len() == 0 {
        assert(a + b =~= a);
        assert(same_runs_text(a) + same_runs_text(b) =~= same_runs_text(a));
    } else {
        lemma_same_runs_text_concat(a, b.drop_last());
        assert((a + b).drop_last() =~= a + b.drop_last());
        assert((a + b).last() == b.last());
        assert(same_runs_text(a + b) =~= same_runs_text(a) + same_runs_text(b));
    }
}

/// A list of one element is written as that element's text.
pub proof fn lemma_same_runs_text_single(x: String)
    ensures
        same_runs_text(seq![x]) == same_run_text(x),
{
    assert(seq![x].drop_last() =~= Seq::<String>::empty());
    assert(seq![x].last() == x);
    assert(same_runs_text(Seq::<String>::empty()) == Seq::<char>::empty());
    assert(same_runs_text(seq![x]) =~= same_run_text(x));
}

/// Joining two non-empty lists puts one `", "` between their joins: the
/// parameters of an instantiation keep their order and are separated by
/// commas.
pub proof fn lemma_join_text_concat(a: Seq<String>, b: Seq<String>)
    requires
        a.len() > 0,
        b.len() > 0,
    ensures
        join_text(a + b) == join_text(a) + ", "@ + join_text(b),
    decreases b.len(),
{
    if b.len() == 1 {
        assert((a + b).drop_last() =~= a);
        assert((a + b).last() == b[0]);
        assert(join_text(b) == b[0]@);
    } else {
        lemma_join_text_concat(a, b.drop_last());
        assert((a + b).drop_last() =~= a + b.drop_last());
        assert((a + b).last() == b.last());
        assert(join_text(a + b) =~= join_text(a) + ", "@ + join_text(b));
    }
}

/// A block is its `module` line, the text of its statements, and
/// `endmodule`.
pub proof fn lemma_block_text_shape(b: BlockDef)
    ensures
        block_text(b) == ("module "@ + b.name@ + "();\n"@) + block_stmts_text(b.body@)
            + "endmodule\n"@,
{
    assert(block_text(b) =~= ("module "@ + b.name@ + "();\n"@) + block_stmts_text(b.body@)
        + "endmodule\n"@);
}

/// Each statement of a block is one indented line, but a nested block,
/// which is written whole in place.
pub proof fn lemma_block_stmt_lines(st: BlockStmt)
    ensures
        st matches BlockStmt::RetAssign(r) ==> block_stmt_text(st) == "  assign "@ + width_text(
            r.width,
        ) + " "@ + r.target@ + " = "@ + r.expr@ + ";\n"@,
        st matches BlockStmt::RetVar(v) ==> block_stmt_text(st) == "  reg "@ + v@ + ";\n"@,
        st matches BlockStmt::PassParams(p) ==> block_stmt_text(st) == "  "@ + p.block_type@ + " "@
            + p.inst_name@ + "("@ + join_text(p.params@) + ");\n"@,
        st matches BlockStmt::NestedBlock(nb) ==> block_stmt_text(st) == block_text(nb),
{
}

/// A piece is its `interface` line, one `logic` line per member in order,
/// and `endinterface`.
pub proof fn lemma_piece_text_shape(p: PieceDef)
    ensures
        piece_text(p) == ("interface "@ + p.name@ + ";\n"@) + members_text(p.members@)
            + "endinterface\n"@,
        forall|m: (String, String)| #[trigger] member_text(m) == "  "@ + m.0@ + " logic "@ + m.1@ + ";\n"@,
{
    assert(piece_text(p) =~= ("interface "@ + p.name@ + ";\n"@) + members_text(p.members@)
        + "endinterface\n"@);
}

/// A testgroup is its `tg_` module line, the text of its items in order,
/// and `endmodule`.
pub proof fn lemma_testgroup_text_shape(g: TestGroupDef)
    ensures
        testgroup_text(g) == ("module tg_"@ + g.name@ + "();\n"@) + group_items_text(g.items@)
            + "endmodule\n"@,
{
    assert(testgroup_text(g) =~= ("module tg_"@ + g.name@ + "();\n"@) + group_items_text(g.items@)
        + "endmodule\n"@);
}

/// A width is written `[msb:lsb]` with both bits as signed numerals; no
/// width writes nothing.
pub proof fn lemma_width_text(w: Option<Width>)
    ensures
        w matches Some(x) ==> width_text(w) == "["@ + dec_int(x.msb as int) + ":"@ + dec_int(
            x.lsb as int,
        ) + "]"@,
        w is None ==> width_text(w) == Seq::<char>::empty(),
{
}

/// A `do` item runs its testbench in an `initial` block; a `same` item
/// starts its testbenches together between `fork` and `join`, one
/// `begin ... end` line each.
pub proof fn lemma_group_item_lines(item: GroupItem, name: String)
    ensures
        item matches GroupItem::Do(n) ==> group_item_text(item) == "  initial begin\n    #0;\n    tb_"@
            + n@ + " inst();\n  end\n"@,
        item matches GroupItem::Same(names) ==> group_item_text(item) == "  fork\n"@ + same_runs_text(
            names@,
        ) + "  join\n"@,
        same_run_text(name) == "    begin tb_"@ + name@ + " inst(); end\n"@,
{
}

} // verus!
