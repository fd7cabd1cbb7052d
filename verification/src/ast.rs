//! The syntax tree of a NeoH source file.
use vstd::prelude::*;

verus! {

/// A whole source file: its top-level statements in source order.
#[derive(Debug, PartialEq, Eq)]
pub struct File {
    pub statements: Vec<Statement>,
}

/// A top-level statement.
#[derive(Debug, PartialEq, Eq)]
pub enum Statement {
    Block(BlockDef),
    Testbench(TestbenchDef),
    Testgroup(TestGroupDef),
    Piece(PieceDef),
    /// `known name <= value;`, a textual macro; it produces no output.
    Known(String, String),
}

/// A bit range `[msb:lsb]`.
#[derive(Debug, Clone, Copy, PartialEq, Eq)]
pub struct Width {
    pub msb: i32,
    pub lsb: i32,
}

/// A `block`, emitted as a SystemVerilog module.
#[derive(Debug, PartialEq, Eq)]
pub struct BlockDef {
    pub name: String,
    pub params: Vec<String>,
    pub body: Vec<BlockStmt>,
}

/// A statement inside a block.
#[derive(Debug, PartialEq, Eq)]
pub enum BlockStmt {
    RetAssign(RetAssign),
    RetVar(String),
    PassParams(PassParams),
    NestedBlock(BlockDef),
}

/// `ret tempassign target [always msb:lsb] <= expr;`
#[derive(Debug, Clone, PartialEq, Eq)]
pub struct RetAssign {
    pub target: String,
    pub expr: String,
    pub width: Option<Width>,
}

/// `inst passparams block_type(params...);`
#[derive(Debug, Clone, PartialEq, Eq)]
pub struct PassParams {
    pub block_type: String,
    pub inst_name: String,
    pub params: Vec<String>,
}

/// A `testbench name(Target) { ... }`.
#[derive(Debug, Clone, PartialEq, Eq)]
pub struct TestbenchDef {
    pub name: String,
    pub target: String,
    pub body: Vec<VerifCmd>,
}

/// What an `out(..)` shows: a signal or a string literal.
#[derive(Debug, Clone, PartialEq, Eq)]
pub enum OutTarget {
    Variable(String),
    Literal(String),
}

/// `target <= val` written directly in a testbench.
#[derive(Debug, Clone, PartialEq, Eq)]
pub struct WriteStmt {
    pub target: String,
    pub val: String,
}

/// `put target op expr;`
#[derive(Debug, Clone, PartialEq, Eq)]
pub struct PutStmt {
    pub target: String,
    pub op: String,
    pub expr: String,
    pub width: Option<Width>,
}

/// A command of a testbench's `when` body.
#[derive(Debug, Clone, PartialEq, Eq)]
pub enum VerifCmd {
    Expect { time: u32, lhs: String, rhs: String },
    Pulse { len: String, gap: String },
    Watchfor { time_a: u32, lhs: String, rhs: String, time_b: u32, out: OutTarget },
    Write(WriteStmt),
    Put(PutStmt),
    Out { time: u32, target: OutTarget },
    WriteFile { mode: String, file: String },
}

/// An item of a `testgroup`.
#[derive(Debug, Clone, PartialEq, Eq)]
pub enum GroupItem {
    /// `do tb_name;`: run one testbench.
    Do(String),
    /// `same { run a; run b; }`: run testbenches side by side.
    Same(Vec<String>),
}

/// A `testgroup name { ... }`.
#[derive(Debug, Clone, PartialEq, Eq)]
pub struct TestGroupDef {
    pub name: String,
    pub items: Vec<GroupItem>,
}

/// A `piece name { dir member, ... }`, emitted as an interface.
/// Each member is its direction and its name.
#[derive(Debug, Clone, PartialEq, Eq)]
pub struct PieceDef {
    pub name: String,
    pub members: Vec<(String, String)>,
}

} // verus!
