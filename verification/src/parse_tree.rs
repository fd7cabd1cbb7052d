//! The parse tree that the transformer reads: what the grammar's parser
//! hands over, as plain values.
use vstd::prelude::*;

verus! {

/// The grammar rules that the transformer tells apart. Every other rule
/// of the grammar is `other`.
#[allow(non_camel_case_types)]
#[derive(Debug, Clone, Copy, PartialEq, Eq, Structural)]
pub enum Rule {
    file,
    block_def,
    testbench,
    testgroup,
    piece_def,
    ret_stmt,
    ret_var_stmt,
    pass_stmt,
    port,
    width_constraint,
    expect_cmd,
    pulse_cmd,
    watch_cmd,
    out_cmd,
    writefile_cmd,
    put_stmt,
    string_literal,
    do_stmt,
    same_block,
    other,
}

/// A node of the parse tree: the rule it matched, the source text it
/// spans, and its inner nodes in source order.
#[derive(Debug, PartialEq, Eq)]
pub struct ParseNode {
    pub rule: Rule,
    pub text: String,
    pub children: Vec<ParseNode>,
}

} // verus!
