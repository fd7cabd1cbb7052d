//! Builds the syntax tree of a file from its parse tree.
//!
//! The parse tree's shape is fixed by the grammar: the spec functions
//! `*_node_ok` state the shape that each builder reads (which children it
//! takes by position), and `*_built_from` state exactly what it builds.
use vstd::prelude::*;
use crate::ast::{
    BlockDef,
    BlockStmt,
    File,
    GroupItem,
    OutTarget,
    PassParams,
    PieceDef,
    PutStmt,
    RetAssign,
    Statement,
    TestGroupDef,
    TestbenchDef,
    VerifCmd,
    Width,
};
use crate::decimal::{parse_i32, parse_u32, spec_parse_i32, spec_parse_u32};
use crate::parse_tree::{ParseNode, Rule};

verus! {

/// The source text of the `k`-th child of `n`.
pub open spec fn child_text(n: ParseNode, k: int) -> String {
    n.children@[k].text
}

// ---------------------------------------------------------------------
// Widths, out targets, texts

/// A width node: its first two children are the most and least
/// significant bit, as signed numerals.
pub open spec fn width_node_ok(w: ParseNode) -> bool {
    &&& w.children.len() >= 2
    &&& spec_parse_i32(child_text(w, 0)@) is Some
    &&& spec_parse_i32(child_text(w, 1)@) is Some
}

pub open spec fn spec_width(w: ParseNode) -> Width {
    Width { msb: spec_parse_i32(child_text(w, 0)@)->0, lsb: spec_parse_i32(child_text(w, 1)@)->0 }
}

/// The first width node of `s`, if any.
pub open spec fn first_width(s: Seq<ParseNode>) -> Option<ParseNode>
    decreases s.len(),
{
    if s.len() == 0 {
        None
    } else if s[0].rule == Rule::width_constraint {
        Some(s[0])
    } else {
        first_width(s.drop_first())
    }
}

/// The width that the nodes `s` give: that of their first width node.
pub open spec fn width_of(s: Seq<ParseNode>) -> Option<Width> {
    match first_width(s) {
        Some(w) => Some(spec_width(w)),
        None => None,
    }
}

pub open spec fn width_ok(s: Seq<ParseNode>) -> bool {
    first_width(s) matches Some(w) ==> width_node_ok(w)
}

/// A string literal node is shown as a literal, any other as a variable.
pub open spec fn out_target_of(a: ParseNode) -> OutTarget {
    if a.rule == Rule::string_literal {
        OutTarget::Literal(a.text)
    } else {
        OutTarget::Variable(a.text)
    }
}

/// The source texts of the nodes `s`, in order.
pub open spec fn node_texts(s: Seq<ParseNode>) -> Seq<String> {
    s.map_values(|x: ParseNode| x.text)
}

// ---------------------------------------------------------------------
// Testbench commands

/// The shape of a command node that `build_verif_cmd` reads.
pub open spec fn verif_cmd_node_ok(n: ParseNode) -> bool {
    match n.rule {
        Rule::expect_cmd => n.children.len() >= 4 && spec_parse_u32(child_text(n, 0)@) is Some,
        Rule::pulse_cmd => n.children.len() >= 3,
        Rule::watch_cmd => n.children.len() >= 5 && spec_parse_u32(child_text(n, 0)@) is Some
            && spec_parse_u32(child_text(n, 3)@) is Some,
        Rule::out_cmd => n.children.len() >= 2 && spec_parse_u32(child_text(n, 0)@) is Some,
        Rule::writefile_cmd => n.children.len() >= 3,
        Rule::put_stmt => n.children.len() >= 3 && width_ok(n.children@.skip(3)),
        _ => false,
    }
}

/// The command built from a well-shaped command node.
pub open spec fn spec_verif_cmd(n: ParseNode) -> VerifCmd {
    match n.rule {
        Rule::expect_cmd => VerifCmd::Expect {
            time: spec_parse_u32(child_text(n, 0)@)->0,
            lhs: child_text(n, 1),
            rhs: child_text(n, 3),
        },
        Rule::pulse_cmd => VerifCmd::Pulse { len: child_text(n, 0), gap: child_text(n, 2) },
        Rule::watch_cmd => VerifCmd::Watchfor {
            time_a: spec_parse_u32(child_text(n, 0)@)->0,
            lhs: child_text(n, 1),
            rhs: child_text(n, 2),
            time_b: spec_parse_u32(child_text(n, 3)@)->0,
            out: out_target_of(n.children@[4]),
        },
        Rule::out_cmd => VerifCmd::Out {
            time: spec_parse_u32(child_text(n, 0)@)->0,
            target: out_target_of(n.children@[1]),
        },
        Rule::writefile_cmd => VerifCmd::WriteFile { mode: child_text(n, 0), file: child_text(n, 2) },
        _ => VerifCmd::Put(
            PutStmt {
                target: child_text(n, 0),
                op: child_text(n, 1),
                expr: child_text(n, 2),
                width: width_of(n.children@.skip(3)),
            },
        ),
    }
}

// ---------------------------------------------------------------------
// Blocks
//
// The children of a block node are its name and then its items. The spec
// functions below walk the whole child list from its end and stop before
// the name, so `s` is always a prefix of a block's children.

/// A `ret_stmt` node: its target first and its expression last, with an
/// optional width node between.
pub open spec fn ret_node_ok(c: ParseNode) -> bool {
    c.children.len() >= 2 && width_ok(c.children@.skip(1))
}

pub open spec fn spec_ret_assign(c: ParseNode) -> RetAssign {
    RetAssign {
        target: child_text(c, 0),
        expr: child_text(c, c.children.len() - 1),
        width: width_of(c.children@.skip(1)),
    }
}

/// The items of a block (all children but the first) are well-shaped.
pub open spec fn block_items_ok(s: Seq<ParseNode>) -> bool
    decreases s,
{
    if s.len() <= 1 {
        true
    } else {
        &&& block_items_ok(s.drop_last())
        &&& match s.last().rule {
            Rule::ret_stmt => ret_node_ok(s.last()),
            Rule::ret_var_stmt => s.last().children.len() >= 1,
            Rule::pass_stmt => s.last().children.len() >= 2,
            Rule::port => s.last().children.len() >= 1,
            Rule::block_def => block_node_ok(s.last()),
            _ => true,
        }
    }
}

/// A block node: its name first, then its ports and statements.
pub open spec fn block_node_ok(n: ParseNode) -> bool
    decreases n,
{
    n.children.len() >= 1 && block_items_ok(n.children@)
}

/// The port names among the items of a block: the last child of each
/// `port` node, in order.
pub open spec fn port_names(s: Seq<ParseNode>) -> Seq<String>
    decreases s.len(),
{
    if s.len() <= 1 {
        Seq::empty()
    } else if s.last().rule == Rule::port {
        port_names(s.drop_last()).push(child_text(s.last(), s.last().children.len() - 1))
    } else {
        port_names(s.drop_last())
    }
}

pub open spec fn is_block_stmt_rule(r: Rule) -> bool {
    r == Rule::ret_stmt || r == Rule::ret_var_stmt || r == Rule::pass_stmt || r == Rule::block_def
}

/// The statements built from the items of a block, one per statement
/// node, in order: `ret_stmt` gives an assignment, `ret_var_stmt` a
/// register, `pass_stmt` an instantiation (instance, block type, then
/// the parameters) and `block_def` a nested block.
pub open spec fn block_stmts_built_from(sts: Seq<BlockStmt>, s: Seq<ParseNode>) -> bool
    decreases s,
{
    if s.len() <= 1 {
        sts.len() == 0
    } else if is_block_stmt_rule(s.last().rule) {
        let c = s.last();
        &&& sts.len() > 0
        &&& block_stmts_built_from(sts.drop_last(), s.drop_last())
        &&& match c.rule {
            Rule::ret_stmt => sts.last() == BlockStmt::RetAssign(spec_ret_assign(c)),
            Rule::ret_var_stmt => sts.last() == BlockStmt::RetVar(child_text(c, 0)),
            Rule::pass_stmt => sts.last() matches BlockStmt::PassParams(p) && p.inst_name
                == child_text(c, 0) && p.block_type == child_text(c, 1) && p.params@ == node_texts(
                c.children@.skip(2),
            ),
            _ => sts.last() matches BlockStmt::NestedBlock(nb) && block_built_from(nb, c),
        }
    } else {
        block_stmts_built_from(sts, s.drop_last())
    }
}

/// The block built from a block node.
pub open spec fn block_built_from(b: BlockDef, n: ParseNode) -> bool
    decreases n,
{
    &&& b.name == child_text(n, 0)
    &&& b.params@ == port_names(n.children@)
    &&& block_stmts_built_from(b.body@, n.children@)
}

// ---------------------------------------------------------------------
// Testbenches, testgroups, pieces

/// A testbench node: name, target, the variable list, one node that is
/// skipped, and the node whose children are the commands.
pub open spec fn testbench_node_ok(n: ParseNode) -> bool {
    &&& n.children.len() >= 5
    &&& forall|k: int|
        0 <= k < n.children@[4].children.len() ==> verif_cmd_node_ok(
            #[trigger] n.children@[4].children@[k],
        )
}

pub open spec fn testbench_built_from(t: TestbenchDef, n: ParseNode) -> bool {
    &&& t.name == child_text(n, 0)
    &&& t.target == child_text(n, 1)
    &&& t.body@ == n.children@[4].children@.map_values(|c: ParseNode| spec_verif_cmd(c))
}

/// An item of a testgroup: `do` names its testbench first; every child
/// of `same` names its testbench first.
pub open spec fn group_item_ok(c: ParseNode) -> bool {
    match c.rule {
        Rule::do_stmt => c.children.len() >= 1,
        Rule::same_block => forall|j: int|
            0 <= j < c.children.len() ==> (#[trigger] c.children@[j]).children.len() >= 1,
        _ => true,
    }
}

pub open spec fn group_node_ok(n: ParseNode) -> bool {
    &&& n.children.len() >= 1
    &&& forall|k: int| 1 <= k < n.children.len() ==> group_item_ok(#[trigger] n.children@[k])
}

/// The testbench names that a `same` node runs, in order.
pub open spec fn same_names(c: ParseNode) -> Seq<String> {
    c.children@.map_values(|x: ParseNode| child_text(x, 0))
}

/// The items built from the item nodes `s` of a testgroup: one per `do`
/// or `same` node, in order.
pub open spec fn group_items_built_from(items: Seq<GroupItem>, s: Seq<ParseNode>) -> bool
    decreases s.len(),
{
    if s.len() == 0 {
        items.len() == 0
    } else if s.last().rule == Rule::do_stmt {
        &&& items.len() > 0
        &&& group_items_built_from(items.drop_last(), s.drop_last())
        &&& items.last() == GroupItem::Do(child_text(s.last(), 0))
    } else if s.last().rule == Rule::same_block {
        &&& items.len() > 0
        &&& group_items_built_from(items.drop_last(), s.drop_last())
        &&& items.last() matches GroupItem::Same(names) && names@ == same_names(s.last())
    } else {
        group_items_built_from(items, s.drop_last())
    }
}

/// A piece node: its name, then one node per member whose first two
/// children are the direction and the name.
pub open spec fn piece_node_ok(n: ParseNode) -> bool {
    &&& n.children.len() >= 1
    &&& forall|k: int| 1 <= k < n.children.len() ==> (#[trigger] n.children@[k]).children.len() >= 2
}

pub open spec fn piece_members(n: ParseNode) -> Seq<(String, String)> {
    n.children@.skip(1).map_values(|m: ParseNode| (child_text(m, 0), child_text(m, 1)))
}

/// The shape of a top-level node that `build_ast` reads.
pub open spec fn statement_node_ok(n: ParseNode) -> bool {
    match n.rule {
        Rule::block_def => block_node_ok(n),
        Rule::testbench => testbench_node_ok(n),
        Rule::testgroup => group_node_ok(n),
        Rule::piece_def => piece_node_ok(n),
        _ => true,
    }
}

pub open spec fn is_statement_rule(r: Rule) -> bool {
    r == Rule::block_def || r == Rule::testbench || r == Rule::testgroup || r == Rule::piece_def
}

/// The statement built from a top-level node.
pub open spec fn statement_built_from(st: Statement, n: ParseNode) -> bool {
    match n.rule {
        Rule::block_def => st matches Statement::Block(b) && block_built_from(b, n),
        Rule::testbench => st matches Statement::Testbench(t) && testbench_built_from(t, n),
        Rule::testgroup => st matches Statement::Testgroup(g) && g.name == child_text(n, 0)
            && group_items_built_from(g.items@, n.children@.skip(1)),
        Rule::piece_def => st matches Statement::Piece(p) && p.name == child_text(n, 0)
            && p.members@ == piece_members(n),
        _ => false,
    }
}

// ---------------------------------------------------------------------
// Files

/// The children of a `file` node that become statements, in order.
pub open spec fn file_statement_nodes(s: Seq<ParseNode>) -> Seq<ParseNode>
    decreases s.len(),
{
    if s.len() == 0 {
        Seq::empty()
    } else if is_statement_rule(s.last().rule) {
        file_statement_nodes(s.drop_last()).push(s.last())
    } else {
        file_statement_nodes(s.drop_last())
    }
}

/// The nodes that become statements: the statement children of every
/// top-level `file` node, in order. Other top-level nodes are ignored.
pub open spec fn statement_nodes(pairs: Seq<ParseNode>) -> Seq<ParseNode>
    decreases pairs.len(),
{
    if pairs.len() == 0 {
        Seq::empty()
    } else if pairs.last().rule == Rule::file {
        statement_nodes(pairs.drop_last()) + file_statement_nodes(pairs.last().children@)
    } else {
        statement_nodes(pairs.drop_last())
    }
}

pub open spec fn statements_built_from(sts: Seq<Statement>, nodes: Seq<ParseNode>) -> bool {
    &&& sts.len() == nodes.len()
    &&& forall|k: int| 0 <= k < sts.len() ==> statement_built_from(#[trigger] sts[k], nodes[k])
}

/// The parse tree has the shape that `build_ast` reads: every child of a
/// top-level `file` node is well-shaped.
pub open spec fn input_ok(pairs: Seq<ParseNode>) -> bool {
    forall|i: int, j: int|
        0 <= i < pairs.len() && pairs[i].rule == Rule::file && 0 <= j < pairs[i].children.len()
            ==> statement_node_ok(#[trigger] pairs[i].children@[j])
}

/// The file built from the top-level nodes of a parse tree.
pub open spec fn file_built_from(f: File, pairs: Seq<ParseNode>) -> bool {
    statements_built_from(f.statements@, statement_nodes(pairs))
}

// ---------------------------------------------------------------------
// Builders

/// Builds the syntax tree of a file from the top-level nodes of its parse
/// tree.
pub fn build_ast(pairs: &Vec<ParseNode>) -> (f: File)
    requires
        input_ok(pairs@),
    ensures
        file_built_from(f, pairs@),
{
    let mut statements: Vec<Statement> = Vec::new();
    let mut i: usize = 0;
    while i < pairs.len()
        invariant
            i <= pairs.len(),
            input_ok(pairs@),
            statements_built_from(statements@, statement_nodes(pairs@.take(i as int))),
        decreases pairs.len() - i,
    {
        let pair = &pairs[i];
        assert(pairs@.take(i + 1).drop_last() =~= pairs@.take(i as int));
        assert(pairs@.take(i + 1).last() == *pair);
        match pair.rule {
            Rule::file => {
                let ghost before = statement_nodes(pairs@.take(i as int));
                let mut j: usize = 0;
                while j < pair.children.len()
                    invariant
                        j <= pair.children.len(),
                        i < pairs.len(),
                        *pair == pairs@[i as int],
                        pair.rule == Rule::file,
                        input_ok(pairs@),
                        statements_built_from(
                            statements@,
                            before + file_statement_nodes(pair.children@.take(j as int)),
                        ),
                    decreases pair.children.len() - j,
                {
                    let p = &pair.children[j];
                    assert(statement_node_ok(pairs@[i as int].children@[j as int]));
                    assert(pair.children@.take(j + 1).drop_last() =~= pair.children@.take(
                        j as int,
                    ));
                    assert(pair.children@.take(j + 1).last() == *p);
                    let ghost nodes_before = before + file_statement_nodes(
                        pair.children@.take(j as int),
                    );
                    let ghost old_statements = statements@;
                    match p.rule {
                        Rule::block_def => statements.push(Statement::Block(build_block(p))),
                        Rule::testbench => statements.push(
                            Statement::Testbench(build_testbench(p)),
                        ),
                        Rule::testgroup => statements.push(
                            Statement::Testgroup(build_testgroup(p)),
                        ),
                        Rule::piece_def => statements.push(Statement::Piece(build_piece(p))),
                        _ => {},
                    }
                    proof {
                        let nodes_after = before + file_statement_nodes(
                            pair.children@.take(j + 1),
                        );
                        if is_statement_rule(p.rule) {
                            assert(nodes_after =~= nodes_before.push(*p));
                            assert forall|k: int| 0 <= k < statements@.len() implies statement_built_from(
                                #[trigger] statements@[k],
                                nodes_after[k],
                            ) by {
                                if k < old_statements.len() {
                                    assert(statements@[k] == old_statements[k]);
                                    assert(nodes_after[k] == nodes_before[k]);
                                }
                            }
                        } else {
                            assert(nodes_after =~= nodes_before);
                        }
                    }
                    j = j + 1;
                }
                assert(pair.children@.take(j as int) =~= pair.children@);
            },
            _ => {},
        }
        i = i + 1;
    }
    assert(pairs@.take(i as int) =~= pairs@);
    File { statements }
}

/// Builds the block of a block node: its name, its ports and its
/// statements, nested blocks included.
pub fn build_block(n: &ParseNode) -> (b: BlockDef)
    requires
        block_node_ok(*n),
    ensures
        block_built_from(b, *n),
    decreases n,
{
    let name = n.children[0].text.clone();
    let mut params: Vec<String> = Vec::new();
    let mut body: Vec<BlockStmt> = Vec::new();
    let mut k: usize = 1;
    while k < n.children.len()
        invariant
            1 <= k <= n.children.len(),
            block_node_ok(*n),
            params@ == port_names(n.children@.take(k as int)),
            block_stmts_built_from(body@, n.children@.take(k as int)),
        decreases n.children.len() - k,
    {
        let c = &n.children[k];
        let ghost s = n.children@.take(k + 1);
        let ghost old_body = body@;
        proof {
            lemma_block_items_ok_prefix(n.children@, k + 1);
            assert(s.drop_last() =~= n.children@.take(k as int));
            assert(s.last() == *c);
        }
        match c.rule {
            Rule::ret_stmt => body.push(BlockStmt::RetAssign(build_ret_assign(c))),
            Rule::ret_var_stmt => body.push(BlockStmt::RetVar(c.children[0].text.clone())),
            Rule::pass_stmt => body.push(BlockStmt::PassParams(build_pass_params(c))),
            Rule::port => params.push(c.children[c.children.len() - 1].text.clone()),
            Rule::block_def => body.push(BlockStmt::NestedBlock(build_block(c))),
            _ => {},
        }
        proof {
            if is_block_stmt_rule(c.rule) {
                assert(body@.drop_last() =~= old_body);
            }
        }
        k = k + 1;
    }
    assert(n.children@.take(k as int) =~= n.children@);
    BlockDef { name, params, body }
}

/// The items of a prefix of a block's children are well-shaped when those
/// of all its children are.
proof fn lemma_block_items_ok_prefix(s: Seq<ParseNode>, k: int)
    requires
        block_items_ok(s),
        1 <= k <= s.len(),
    ensures
        block_items_ok(s.take(k)),
    decreases s.len() - k,
{
    if k < s.len() {
        lemma_block_items_ok_prefix(s, k + 1);
        assert(s.take(k + 1).drop_last() =~= s.take(k));
    } else {
        assert(s.take(k) =~= s);
    }
}

/// Builds the assignment of a `ret_stmt` node: its first child is the
/// target, its last the expression, and its first width node the width.
pub fn build_ret_assign(n: &ParseNode) -> (r: RetAssign)
    requires
        ret_node_ok(*n),
    ensures
        r == spec_ret_assign(*n),
{
    let target = n.children[0].text.clone();
    let width = find_width(&n.children, 1);
    let expr = n.children[n.children.len() - 1].text.clone();
    RetAssign { target, expr, width }
}

/// Builds the instantiation of a `pass_stmt` node: instance name, block
/// type, then the parameters.
pub fn build_pass_params(n: &ParseNode) -> (p: PassParams)
    requires
        n.children.len() >= 2,
    ensures
        p.inst_name == child_text(*n, 0),
        p.block_type == child_text(*n, 1),
        p.params@ == node_texts(n.children@.skip(2)),
{
    let inst_name = n.children[0].text.clone();
    let block_type = n.children[1].text.clone();
    let mut params: Vec<String> = Vec::new();
    let mut k: usize = 2;
    while k < n.children.len()
        invariant
            2 <= k <= n.children.len(),
            params@ == node_texts(n.children@.subrange(2, k as int)),
        decreases n.children.len() - k,
    {
        params.push(n.children[k].text.clone());
        assert(params@ =~= node_texts(n.children@.subrange(2, k + 1)));
        k = k + 1;
    }
    assert(n.children@.subrange(2, k as int) =~= n.children@.skip(2));
    PassParams { block_type, inst_name, params }
}

/// The width of the first width node of `s` from position `from` on.
fn find_width(s: &Vec<ParseNode>, from: usize) -> (w: Option<Width>)
    requires
        from <= s.len(),
        width_ok(s@.skip(from as int)),
    ensures
        w == width_of(s@.skip(from as int)),
{
    let mut i: usize = from;
    while i < s.len()
        invariant
            from <= i <= s.len(),
            first_width(s@.skip(i as int)) == first_width(s@.skip(from as int)),
            width_ok(s@.skip(from as int)),
        decreases s.len() - i,
    {
        assert(s@.skip(i as int)[0] == s@[i as int]);
        match s[i].rule {
            Rule::width_constraint => {
                return Some(build_width(&s[i]));
            },
            _ => {},
        }
        assert(s@.skip(i as int).drop_first() =~= s@.skip(i + 1));
        i = i + 1;
    }
    assert(s@.skip(i as int).len() == 0);
    None
}

fn build_width(w: &ParseNode) -> (r: Width)
    requires
        width_node_ok(*w),
    ensures
        r == spec_width(*w),
{
    let msb = parse_i32(w.children[0].text.as_str()).unwrap();
    let lsb = parse_i32(w.children[1].text.as_str()).unwrap();
    Width { msb, lsb }
}

fn build_out_target(a: &ParseNode) -> (t: OutTarget)
    ensures
        t == out_target_of(*a),
{
    match a.rule {
        Rule::string_literal => OutTarget::Literal(a.text.clone()),
        _ => OutTarget::Variable(a.text.clone()),
    }
}

/// Builds the testbench of a testbench node: its name, its target and one
/// command per child of its fifth child.
pub fn build_testbench(n: &ParseNode) -> (t: TestbenchDef)
    requires
        testbench_node_ok(*n),
    ensures
        testbench_built_from(t, *n),
{
    let name = n.children[0].text.clone();
    let target = n.children[1].text.clone();
    let cmds = &n.children[4].children;
    let mut body: Vec<VerifCmd> = Vec::new();
    let mut k: usize = 0;
    while k < cmds.len()
        invariant
            k <= cmds.len(),
            *cmds == n.children@[4].children,
            testbench_node_ok(*n),
            body@ == cmds@.take(k as int).map_values(|c: ParseNode| spec_verif_cmd(c)),
        decreases cmds.len() - k,
    {
        assert(verif_cmd_node_ok(n.children@[4].children@[k as int]));
        let cmd = build_verif_cmd(&cmds[k]);
        body.push(cmd);
        assert(body@ =~= cmds@.take(k + 1).map_values(|c: ParseNode| spec_verif_cmd(c)));
        k = k + 1;
    }
    assert(cmds@.take(k as int) =~= cmds@);
    TestbenchDef { name, target, body }
}

/// Builds the command of a command node.
pub fn build_verif_cmd(n: &ParseNode) -> (cmd: VerifCmd)
    requires
        verif_cmd_node_ok(*n),
    ensures
        cmd == spec_verif_cmd(*n),
{
    match n.rule {
        Rule::expect_cmd => {
            let time = parse_u32(n.children[0].text.as_str()).unwrap();
            let lhs = n.children[1].text.clone();
            let rhs = n.children[3].text.clone();
            VerifCmd::Expect { time, lhs, rhs }
        },
        Rule::pulse_cmd => {
            let len = n.children[0].text.clone();
            let gap = n.children[2].text.clone();
            VerifCmd::Pulse { len, gap }
        },
        Rule::watch_cmd => {
            let time_a = parse_u32(n.children[0].text.as_str()).unwrap();
            let lhs = n.children[1].text.clone();
            let rhs = n.children[2].text.clone();
            let time_b = parse_u32(n.children[3].text.as_str()).unwrap();
            let out = build_out_target(&n.children[4]);
            VerifCmd::Watchfor { time_a, lhs, rhs, time_b, out }
        },
        Rule::out_cmd => {
            let time = parse_u32(n.children[0].text.as_str()).unwrap();
            let target = build_out_target(&n.children[1]);
            VerifCmd::Out { time, target }
        },
        Rule::writefile_cmd => {
            let mode = n.children[0].text.clone();
            let file = n.children[2].text.clone();
            VerifCmd::WriteFile { mode, file }
        },
        _ => {
            let target = n.children[0].text.clone();
            let op = n.children[1].text.clone();
            let expr = n.children[2].text.clone();
            let width = find_width(&n.children, 3);
            VerifCmd::Put(PutStmt { target, op, expr, width })
        },
    }
}

/// Builds the testgroup of a testgroup node: its name and one item per
/// `do` or `same` node.
pub fn build_testgroup(n: &ParseNode) -> (g: TestGroupDef)
    requires
        group_node_ok(*n),
    ensures
        g.name == child_text(*n, 0),
        group_items_built_from(g.items@, n.children@.skip(1)),
{
    let name = n.children[0].text.clone();
    let mut items: Vec<GroupItem> = Vec::new();
    let mut k: usize = 1;
    while k < n.children.len()
        invariant
            1 <= k <= n.children.len(),
            group_node_ok(*n),
            group_items_built_from(items@, n.children@.subrange(1, k as int)),
        decreases n.children.len() - k,
    {
        let c = &n.children[k];
        let ghost s = n.children@.subrange(1, k + 1);
        let ghost old_items = items@;
        assert(group_item_ok(n.children@[k as int]));
        assert(s.drop_last() =~= n.children@.subrange(1, k as int));
        assert(s.last() == *c);
        match c.rule {
            Rule::do_stmt => items.push(GroupItem::Do(c.children[0].text.clone())),
            Rule::same_block => items.push(GroupItem::Same(build_same_names(c))),
            _ => {},
        }
        proof {
            if c.rule == Rule::do_stmt || c.rule == Rule::same_block {
                assert(items@.drop_last() =~= old_items);
            }
        }
        k = k + 1;
    }
    assert(n.children@.subrange(1, k as int) =~= n.children@.skip(1));
    TestGroupDef { name, items }
}

fn build_same_names(c: &ParseNode) -> (names: Vec<String>)
    requires
        c.rule == Rule::same_block,
        group_item_ok(*c),
    ensures
        names@ == same_names(*c),
{
    let mut names: Vec<String> = Vec::new();
    let mut j: usize = 0;
    while j < c.children.len()
        invariant
            j <= c.children.len(),
            c.rule == Rule::same_block,
            group_item_ok(*c),
            names@ == c.children@.take(j as int).map_values(|x: ParseNode| child_text(x, 0)),
        decreases c.children.len() - j,
    {
        assert(c.children@[j as int].children.len() >= 1);
        names.push(c.children[j].children[0].text.clone());
        assert(names@ =~= c.children@.take(j + 1).map_values(|x: ParseNode| child_text(x, 0)));
        j = j + 1;
    }
    assert(c.children@.take(j as int) =~= c.children@);
    names
}

/// Builds the piece of a piece node: its name and one (direction, name)
/// member per following node.
pub fn build_piece(n: &ParseNode) -> (p: PieceDef)
    requires
        piece_node_ok(*n),
    ensures
        p.name == child_text(*n, 0),
        p.members@ == piece_members(*n),
{
    let name = n.children[0].text.clone();
    let mut members: Vec<(String, String)> = Vec::new();
    let mut k: usize = 1;
    while k < n.children.len()
        invariant
            1 <= k <= n.children.len(),
            piece_node_ok(*n),
            members@ == n.children@.subrange(1, k as int).map_values(
                |m: ParseNode| (child_text(m, 0), child_text(m, 1)),
            ),
        decreases n.children.len() - k,
    {
        let m = &n.children[k];
        assert(n.children@[k as int].children.len() >= 2);
        let dir = m.children[0].text.clone();
        let member = m.children[1].text.clone();
        members.push((dir, member));
        assert(members@ =~= n.children@.subrange(1, k + 1).map_values(
            |m: ParseNode| (child_text(m, 0), child_text(m, 1)),
        ));
        k = k + 1;
    }
    assert(n.children@.subrange(1, k as int) =~= n.children@.skip(1));
    PieceDef { name, members }
}

// ---------------------------------------------------------------------
// Checking the shape of a parse tree

/// Builds the syntax tree when the parse tree has the shape that
/// `build_ast` reads, and gives `None` when it has not.
pub fn try_build_ast(pairs: &Vec<ParseNode>) -> (res: Option<File>)
    ensures
        res is Some <==> input_ok(pairs@),
        res matches Some(f) ==> file_built_from(f, pairs@),
{
    if check_input(pairs) {
        Some(build_ast(pairs))
    } else {
        None
    }
}

fn check_input(pairs: &Vec<ParseNode>) -> (ok: bool)
    ensures
        ok == input_ok(pairs@),
{
    let mut i: usize = 0;
    while i < pairs.len()
        invariant
            i <= pairs.len(),
            forall|a: int, b: int|
                0 <= a < i && pairs@[a].rule == Rule::file && 0 <= b < pairs@[a].children.len()
                    ==> statement_node_ok(#[trigger] pairs@[a].children@[b]),
        decreases pairs.len() - i,
    {
        let pair = &pairs[i];
        match pair.rule {
            Rule::file => {
                let mut j: usize = 0;
                while j < pair.children.len()
                    invariant
                        j <= pair.children.len(),
                        i < pairs.len(),
                        *pair == pairs@[i as int],
                        pair.rule == Rule::file,
                        forall|b: int|
                            0 <= b < j ==> statement_node_ok(#[trigger] pair.children@[b]),
                    decreases pair.children.len() - j,
                {
                    if !check_statement_node(&pair.children[j]) {
                        assert(!statement_node_ok(pairs@[i as int].children@[j as int]));
                        return false;
                    }
                    j = j + 1;
                }
            },
            _ => {},
        }
        i = i + 1;
    }
    true
}

fn check_statement_node(n: &ParseNode) -> (ok: bool)
    ensures
        ok == statement_node_ok(*n),
{
    match n.rule {
        Rule::block_def => check_block_node(n),
        Rule::testbench => check_testbench_node(n),
        Rule::testgroup => check_group_node(n),
        Rule::piece_def => check_piece_node(n),
        _ => true,
    }
}

fn check_block_node(n: &ParseNode) -> (ok: bool)
    ensures
        ok == block_node_ok(*n),
    decreases n,
{
    if n.children.len() == 0 {
        return false;
    }
    let mut k: usize = 1;
    while k < n.children.len()
        invariant
            1 <= k <= n.children.len(),
            block_items_ok(n.children@.take(k as int)),
        decreases n.children.len() - k,
    {
        let c = &n.children[k];
        let ghost s = n.children@.take(k + 1);
        assert(s.drop_last() =~= n.children@.take(k as int));
        assert(s.last() == *c);
        let item_ok = match c.rule {
            Rule::ret_stmt => c.children.len() >= 2 && check_width(&c.children, 1),
            Rule::ret_var_stmt => c.children.len() >= 1,
            Rule::pass_stmt => c.children.len() >= 2,
            Rule::port => c.children.len() >= 1,
            Rule::block_def => check_block_node(c),
            _ => true,
        };
        if !item_ok {
            proof {
                if block_items_ok(n.children@) {
                    lemma_block_items_ok_prefix(n.children@, k + 1);
                }
            }
            return false;
        }
        k = k + 1;
    }
    assert(n.children@.take(k as int) =~= n.children@);
    true
}

/// Whether the first width node of `s` from position `from` on, if any,
/// is well-shaped.
fn check_width(s: &Vec<ParseNode>, from: usize) -> (ok: bool)
    requires
        from <= s.len(),
    ensures
        ok == width_ok(s@.skip(from as int)),
{
    let mut i: usize = from;
    while i < s.len()
        invariant
            from <= i <= s.len(),
            first_width(s@.skip(i as int)) == first_width(s@.skip(from as int)),
        decreases s.len() - i,
    {
        assert(s@.skip(i as int)[0] == s@[i as int]);
        let w = &s[i];
        match w.rule {
            Rule::width_constraint => {
                return w.children.len() >= 2 && parse_i32(w.children[0].text.as_str()).is_some()
                    && parse_i32(w.children[1].text.as_str()).is_some();
            },
            _ => {},
        }
        assert(s@.skip(i as int).drop_first() =~= s@.skip(i + 1));
        i = i + 1;
    }
    assert(s@.skip(i as int).len() == 0);
    true
}

fn check_testbench_node(n: &ParseNode) -> (ok: bool)
    ensures
        ok == testbench_node_ok(*n),
{
    if n.children.len() < 5 {
        return false;
    }
    let cmds = &n.children[4].children;
    let mut k: usize = 0;
    while k < cmds.len()
        invariant
            k <= cmds.len(),
            *cmds == n.children@[4].children,
            forall|a: int| 0 <= a < k ==> verif_cmd_node_ok(#[trigger] cmds@[a]),
        decreases cmds.len() - k,
    {
        if !check_verif_cmd_node(&cmds[k]) {
            return false;
        }
        k = k + 1;
    }
    true
}

fn check_verif_cmd_node(n: &ParseNode) -> (ok: bool)
    ensures
        ok == verif_cmd_node_ok(*n),
{
    match n.rule {
        Rule::expect_cmd => n.children.len() >= 4 && parse_u32(n.children[0].text.as_str()).is_some(),
        Rule::pulse_cmd => n.children.len() >= 3,
        Rule::watch_cmd => n.children.len() >= 5 && parse_u32(n.children[0].text.as_str()).is_some()
            && parse_u32(n.children[3].text.as_str()).is_some(),
        Rule::out_cmd => n.children.len() >= 2 && parse_u32(n.children[0].text.as_str()).is_some(),
        Rule::writefile_cmd => n.children.len() >= 3,
        Rule::put_stmt => n.children.len() >= 3 && check_width(&n.children, 3),
        _ => false,
    }
}

fn check_group_node(n: &ParseNode) -> (ok: bool)
    ensures
        ok == group_node_ok(*n),
{
    if n.children.len() == 0 {
        return false;
    }
    let mut k: usize = 1;
    while k < n.children.len()
        invariant
            1 <= k <= n.children.len(),
            forall|a: int| 1 <= a < k ==> group_item_ok(#[trigger] n.children@[a]),
        decreases n.children.len() - k,
    {
        let c = &n.children[k];
        let item_ok = match c.rule {
            Rule::do_stmt => c.children.len() >= 1,
            Rule::same_block => {
                let mut all = true;
                let mut j: usize = 0;
                while j < c.children.len()
                    invariant
                        j <= c.children.len(),
                        all == (forall|b: int|
                            0 <= b < j ==> (#[trigger] c.children@[b]).children.len() >= 1),
                    decreases c.children.len() - j,
                {
                    if c.children[j].children.len() == 0 {
                        all = false;
                    }
                    j = j + 1;
                }
                all
            },
            _ => true,
        };
        if !item_ok {
            assert(!group_item_ok(n.children@[k as int]));
            return false;
        }
        k = k + 1;
    }
    true
}

fn check_piece_node(n: &ParseNode) -> (ok: bool)
    ensures
        ok == piece_node_ok(*n),
{
    if n.children.len() == 0 {
        return false;
    }
    let mut k: usize = 1;
    while k < n.children.len()
        invariant
            1 <= k <= n.children.len(),
            forall|a: int| 1 <= a < k ==> (#[trigger] n.children@[a]).children.len() >= 2,
        decreases n.children.len() - k,
    {
        if n.children[k].children.len() < 2 {
            assert(n.children@[k as int].children.len() < 2);
            return false;
        }
        k = k + 1;
    }
    true
}

// ---------------------------------------------------------------------
// Laws

/// Building from two lists of top-level nodes one after the other gives
/// the statements of both in turn.
pub proof fn lemma_statement_nodes_concat(a: Seq<ParseNode>, b: Seq<ParseNode>)
    ensures
        statement_nodes(a + b) == statement_nodes(a) + statement_nodes(b),
    decreases b.len(),
{
    if b.len() == 0 {
        assert(a + b =~= a);
        assert(statement_nodes(a) + statement_nodes(b) =~= statement_nodes(a));
    } else {
        lemma_statement_nodes_concat(a, b.drop_last());
        assert((a + b).drop_last() =~= a + b.drop_last());
        assert((a + b).last() == b.last());
        assert(statement_nodes(a + b) =~= statement_nodes(a) + statement_nodes(b));
    }
}

/// A parse tree made of two parts has the shape that `build_ast` reads
/// exactly when both parts have it.
pub proof fn lemma_input_ok_concat(a: Seq<ParseNode>, b: Seq<ParseNode>)
    ensures
        input_ok(a + b) <==> input_ok(a) && input_ok(b),
{
    let ab = a + b;
    if input_ok(ab) {
        assert forall|i: int, j: int|
            0 <= i < a.len() && a[i].rule == Rule::file && 0 <= j < a[i].children.len()
                implies statement_node_ok(#[trigger] a[i].children@[j]) by {
            assert(ab[i] == a[i]);
            assert(statement_node_ok(ab[i].children@[j]));
        }
        assert forall|i: int, j: int|
            0 <= i < b.len() && b[i].rule == Rule::file && 0 <= j < b[i].children.len()
                implies statement_node_ok(#[trigger] b[i].children@[j]) by {
            assert(ab[i + a.len()] == b[i]);
            assert(statement_node_ok(ab[i + a.len()].children@[j]));
        }
    }
    if input_ok(a) && input_ok(b) {
        assert forall|i: int, j: int|
            0 <= i < ab.len() && ab[i].rule == Rule::file && 0 <= j < ab[i].children.len()
                implies statement_node_ok(#[trigger] ab[i].children@[j]) by {
            if i < a.len() {
                assert(ab[i] == a[i]);
                assert(statement_node_ok(a[i].children@[j]));
            } else {
                assert(ab[i] == b[i - a.len()]);
                assert(statement_node_ok(b[i - a.len()].children@[j]));
            }
        }
    }
}

/// A `ret_stmt` node with a target, an expression and no width node.
pub open spec fn is_plain_ret(c: ParseNode) -> bool {
    &&& c.rule == Rule::ret_stmt
    &&& c.children.len() >= 2
    &&& forall|j: int|
        0 <= j < c.children.len() ==> (#[trigger] c.children@[j]).rule != Rule::width_constraint
}

proof fn lemma_no_width_node(s: Seq<ParseNode>)
    requires
        forall|j: int| 0 <= j < s.len() ==> (#[trigger] s[j]).rule != Rule::width_constraint,
    ensures
        first_width(s) is None,
    decreases s.len(),
{
    if s.len() > 0 {
        assert forall|j: int| 0 <= j < s.drop_first().len() implies (
        #[trigger] s.drop_first()[j]).rule != Rule::width_constraint by {
            assert(s.drop_first()[j] == s[j + 1]);
        }
        lemma_no_width_node(s.drop_first());
    }
}

proof fn lemma_plain_ret_prefix(s: Seq<ParseNode>, sts: Seq<BlockStmt>)
    requires
        s.len() >= 1,
        forall|k: int| 1 <= k < s.len() ==> is_plain_ret(#[trigger] s[k]),
    ensures
        block_items_ok(s),
        port_names(s).len() == 0,
        block_stmts_built_from(sts, s) ==> {
            &&& sts.len() == s.len() - 1
            &&& forall|i: int|
                0 <= i < sts.len() ==> #[trigger] sts[i] == BlockStmt::RetAssign(
                    RetAssign {
                        target: s[i + 1].children@[0].text,
                        expr: s[i + 1].children@[s[i + 1].children.len() - 1].text,
                        width: None,
                    },
                )
        },
    decreases s.len(),
{
    if s.len() > 1 {
        let c = s.last();
        assert(is_plain_ret(s[s.len() - 1]));
        assert forall|k: int| 1 <= k < s.drop_last().len() implies is_plain_ret(
            #[trigger] s.drop_last()[k],
        ) by {
            assert(s.drop_last()[k] == s[k]);
        }
        lemma_plain_ret_prefix(s.drop_last(), sts.drop_last());
        assert forall|j: int|
            0 <= j < c.children@.skip(1).len() implies (#[trigger] c.children@.skip(1)[j]).rule
            != Rule::width_constraint by {
            assert(c.children@.skip(1)[j] == c.children@[j + 1]);
        }
        lemma_no_width_node(c.children@.skip(1));
        if block_stmts_built_from(sts, s) {
            assert forall|i: int| 0 <= i < sts.len() implies #[trigger] sts[i]
                == BlockStmt::RetAssign(
                RetAssign {
                    target: s[i + 1].children@[0].text,
                    expr: s[i + 1].children@[s[i + 1].children.len() - 1].text,
                    width: None,
                },
            ) by {
                if i < sts.len() - 1 {
                    assert(sts[i] == sts.drop_last()[i]);
                    assert(s[i + 1] == s.drop_last()[i + 1]);
                }
            }
        }
    }
}

/// A block whose items are all `ret` statements with a target, an
/// expression and no width node has the shape that `build_ast` reads (it
/// is never refused), and it is built with no ports and one assignment per
/// statement, in order: the statement's last child assigned to its first,
/// with no width.
pub proof fn lemma_block_of_plain_rets(n: ParseNode, b: BlockDef)
    requires
        n.children.len() >= 1,
        forall|k: int| 1 <= k < n.children.len() ==> is_plain_ret(#[trigger] n.children@[k]),
    ensures
        block_node_ok(n),
        block_built_from(b, n) ==> {
            &&& b.name == n.children@[0].text
            &&& b.params@.len() == 0
            &&& b.body@.len() == n.children.len() - 1
            &&& forall|i: int|
                0 <= i < b.body@.len() ==> #[trigger] b.body@[i] == BlockStmt::RetAssign(
                    RetAssign {
                        target: n.children@[i + 1].children@[0].text,
                        expr: n.children@[i + 1].children@[n.children@[i + 1].children.len()
                            - 1].text,
                        width: None,
                    },
                )
        },
{
    lemma_plain_ret_prefix(n.children@, b.body@);
}

/// A parse tree whose `file` nodes hold only blocks of such `ret`
/// statements is never refused: `try_build_ast` gives `Some`.
pub proof fn lemma_files_of_plain_blocks(pairs: Seq<ParseNode>)
    requires
        forall|i: int, j: int|
            0 <= i < pairs.len() && pairs[i].rule == Rule::file && 0 <= j < pairs[i].children.len()
                ==> {
                let n = #[trigger] pairs[i].children@[j];
                &&& n.rule == Rule::block_def
                &&& n.children.len() >= 1
                &&& forall|k: int| 1 <= k < n.children.len() ==> is_plain_ret(#[trigger] n.children@[k])
            },
    ensures
        input_ok(pairs),
{
    assert forall|i: int, j: int|
        0 <= i < pairs.len() && pairs[i].rule == Rule::file && 0 <= j < pairs[i].children.len()
            implies statement_node_ok(#[trigger] pairs[i].children@[j]) by {
        let n = pairs[i].children@[j];
        lemma_plain_ret_prefix(n.children@, Seq::empty());
    }
}

/// What each command node is built into, field by field: the delays are
/// the numerals of the first child (and of the fourth for `watchfor`); an
/// `out` or `watchfor` argument is shown as a literal exactly when it is a
/// string literal node, as a variable otherwise, with its source text.
pub proof fn lemma_verif_cmd_fields(n: ParseNode)
    requires
        verif_cmd_node_ok(n),
    ensures
        n.rule == Rule::expect_cmd ==> (spec_verif_cmd(n) matches VerifCmd::Expect { time, lhs, rhs }
            && spec_parse_u32(n.children@[0].text@) == Some(time) && lhs == n.children@[1].text
            && rhs == n.children@[3].text),
        n.rule == Rule::pulse_cmd ==> (spec_verif_cmd(n) matches VerifCmd::Pulse { len, gap } && len
            == n.children@[0].text && gap == n.children@[2].text),
        n.rule == Rule::watch_cmd ==> (spec_verif_cmd(n) matches VerifCmd::Watchfor {
            time_a,
            lhs,
            rhs,
            time_b,
            out,
        } && spec_parse_u32(n.children@[0].text@) == Some(time_a) && lhs == n.children@[1].text
            && rhs == n.children@[2].text && spec_parse_u32(n.children@[3].text@) == Some(time_b)
            && (out is Literal <==> n.children@[4].rule == Rule::string_literal) && (
        out matches OutTarget::Literal(x) ==> x == n.children@[4].text) && (
        out matches OutTarget::Variable(x) ==> x == n.children@[4].text)),
        n.rule == Rule::out_cmd ==> (spec_verif_cmd(n) matches VerifCmd::Out { time, target }
            && spec_parse_u32(n.children@[0].text@) == Some(time) && (target is Literal
            <==> n.children@[1].rule == Rule::string_literal) && (
        target matches OutTarget::Literal(x) ==> x == n.children@[1].text) && (
        target matches OutTarget::Variable(x) ==> x == n.children@[1].text)),
        n.rule == Rule::writefile_cmd ==> (spec_verif_cmd(n) matches VerifCmd::WriteFile { mode, file }
            && mode == n.children@[0].text && file == n.children@[2].text),
        n.rule == Rule::put_stmt ==> (spec_verif_cmd(n) matches VerifCmd::Put(p) && p.target
            == n.children@[0].text && p.op == n.children@[1].text && p.expr == n.children@[2].text
            && (p.width is None <==> first_width(n.children@.skip(3)) is None)),
{
}

/// An `out` command and a `watchfor` command with the same argument node
/// show it the same way.
pub proof fn lemma_out_and_watch_agree(o: ParseNode, w: ParseNode)
    requires
        verif_cmd_node_ok(o),
        verif_cmd_node_ok(w),
        o.rule == Rule::out_cmd,
        w.rule == Rule::watch_cmd,
        o.children@[1] == w.children@[4],
    ensures
        spec_verif_cmd(o)->target == spec_verif_cmd(w)->out,
{
}

/// What the next item node of a block adds, in source order: a `ret`
/// statement an assignment of its last child to its first, with the width
/// of its first width node; a `ret_var_stmt` a register; a `pass_stmt` an
/// instantiation (instance, block type, then the parameters in order); a
/// `port` the port's name (its last child) at the end of the parameters.
/// Other items add nothing.
pub proof fn lemma_block_item_push(s: Seq<ParseNode>, c: ParseNode, sts: Seq<BlockStmt>)
    requires
        s.len() >= 1,
        block_items_ok(s.push(c)),
        block_stmts_built_from(sts, s.push(c)),
    ensures
        is_block_stmt_rule(c.rule) ==> sts.len() > 0 && block_stmts_built_from(sts.drop_last(), s),
        !is_block_stmt_rule(c.rule) ==> block_stmts_built_from(sts, s),
        c.rule == Rule::ret_stmt ==> sts.last() == BlockStmt::RetAssign(
            RetAssign {
                target: c.children@[0].text,
                expr: c.children@[c.children.len() - 1].text,
                width: match first_width(c.children@.skip(1)) {
                    Some(w) => Some(
                        Width {
                            msb: spec_parse_i32(w.children@[0].text@)->0,
                            lsb: spec_parse_i32(w.children@[1].text@)->0,
                        },
                    ),
                    None => None,
                },
            },
        ),
        c.rule == Rule::ret_var_stmt ==> sts.last() == BlockStmt::RetVar(c.children@[0].text),
        c.rule == Rule::pass_stmt ==> (sts.last() matches BlockStmt::PassParams(p) && p.inst_name
            == c.children@[0].text && p.block_type == c.children@[1].text && p.params@.len()
            == c.children.len() - 2 && forall|j: int|
            0 <= j < p.params@.len() ==> #[trigger] p.params@[j] == c.children@[j + 2].text),
        c.rule == Rule::block_def ==> (sts.last() matches BlockStmt::NestedBlock(nb)
            && block_built_from(nb, c)),
        c.rule == Rule::port ==> port_names(s.push(c)) == port_names(s).push(
            c.children@[c.children.len() - 1].text,
        ),
        c.rule != Rule::port ==> port_names(s.push(c)) == port_names(s),
{
    assert(s.push(c).drop_last() =~= s);
    assert(s.push(c).last() == c);
    if c.rule == Rule::pass_stmt {
        let p = sts.last()->PassParams_0;
        assert forall|j: int| 0 <= j < p.params@.len() implies #[trigger] p.params@[j]
            == c.children@[j + 2].text by {
            assert(c.children@.skip(2)[j] == c.children@[j + 2]);
        }
    }
}

/// What the next item node of a testgroup adds, in source order: a `do`
/// node runs the testbench named by its first child; a `same` node runs,
/// side by side, the testbenches named by the first child of each of its
/// children, in order. Other nodes add nothing.
pub proof fn lemma_group_item_push(s: Seq<ParseNode>, c: ParseNode, items: Seq<GroupItem>)
    requires
        group_items_built_from(items, s.push(c)),
    ensures
        (c.rule == Rule::do_stmt || c.rule == Rule::same_block) ==> items.len() > 0
            && group_items_built_from(items.drop_last(), s),
        !(c.rule == Rule::do_stmt || c.rule == Rule::same_block) ==> group_items_built_from(
            items,
            s,
        ),
        c.rule == Rule::do_stmt ==> items.last() == GroupItem::Do(c.children@[0].text),
        c.rule == Rule::same_block ==> (items.last() matches GroupItem::Same(names) && names@.len()
            == c.children.len() && forall|j: int|
            0 <= j < names@.len() ==> #[trigger] names@[j] == c.children@[j].children@[0].text),
{
    assert(s.push(c).drop_last() =~= s);
    assert(s.push(c).last() == c);
}

/// A piece is built with one member per node after its name, in order:
/// the first child of the node is the direction and the second the name.
pub proof fn lemma_piece_members_in_order(n: ParseNode, p: PieceDef)
    requires
        n.children.len() >= 1,
        p.members@ == piece_members(n),
    ensures
        p.members@.len() == n.children.len() - 1,
        forall|k: int|
            0 <= k < p.members@.len() ==> #[trigger] p.members@[k] == (
                n.children@[k + 1].children@[0].text,
                n.children@[k + 1].children@[1].text,
            ),
{
    assert forall|k: int| 0 <= k < p.members@.len() implies #[trigger] p.members@[k] == (
        n.children@[k + 1].children@[0].text,
        n.children@[k + 1].children@[1].text,
    ) by {
        assert(n.children@.skip(1)[k] == n.children@[k + 1]);
    }
}

/// A testbench is built with one command per child of its command node,
/// in order.
pub proof fn lemma_testbench_commands_in_order(n: ParseNode, t: TestbenchDef)
    requires
        testbench_node_ok(n),
        testbench_built_from(t, n),
    ensures
        t.name == n.children@[0].text,
        t.target == n.children@[1].text,
        t.body@.len() == n.children@[4].children.len(),
        forall|k: int|
            0 <= k < t.body@.len() ==> #[trigger] t.body@[k] == spec_verif_cmd(
                n.children@[4].children@[k],
            ),
{
}

/// The children of a `file` node that become statements are exactly its
/// block, testbench, testgroup and piece nodes, in order.
pub proof fn lemma_file_statement_nodes_push(s: Seq<ParseNode>, c: ParseNode)
    ensures
        (c.rule == Rule::block_def || c.rule == Rule::testbench || c.rule == Rule::testgroup
            || c.rule == Rule::piece_def) ==> file_statement_nodes(s.push(c))
            == file_statement_nodes(s).push(c),
        !(c.rule == Rule::block_def || c.rule == Rule::testbench || c.rule == Rule::testgroup
            || c.rule == Rule::piece_def) ==> file_statement_nodes(s.push(c))
            == file_statement_nodes(s),
{
    assert(s.push(c).drop_last() =~= s);
    assert(s.push(c).last() == c);
}

/// Each statement node becomes the statement of its kind: a block node a
/// block built from it, a testbench node a testbench built from it, a
/// testgroup node a testgroup named by its first child whose items are
/// built from its other children, and a piece node a piece named by its
/// first child with one member per other child.
pub proof fn lemma_statement_kinds(st: Statement, n: ParseNode)
    requires
        statement_node_ok(n),
        statement_built_from(st, n),
    ensures
        is_statement_rule(n.rule),
        n.rule == Rule::block_def ==> (st matches Statement::Block(b) && block_built_from(b, n)),
        n.rule == Rule::testbench ==> (st matches Statement::Testbench(t) && testbench_built_from(t, n)),
        n.rule == Rule::testgroup ==> (st matches Statement::Testgroup(g) && g.name
            == n.children@[0].text && group_items_built_from(g.items@, n.children@.skip(1))),
        n.rule == Rule::piece_def ==> (st matches Statement::Piece(p) && p.name == n.children@[0].text
            && p.members@.len() == n.children.len() - 1 && forall|k: int|
            0 <= k < p.members@.len() ==> #[trigger] p.members@[k] == (
                n.children@[k + 1].children@[0].text,
                n.children@[k + 1].children@[1].text,
            )),
{
    if n.rule == Rule::piece_def {
        lemma_piece_members_in_order(n, st->Piece_0);
    }
}

} // verus!
