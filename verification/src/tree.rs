//! The typed expression tree as the rule sees it: resolved type
//! descriptors, expression nodes with their kinds and spans, and a
//! program unit that plays the host's type-resolution capability.

use vstd::prelude::*;

verus! {

/// Bit width of a machine integer type: the standard fixed widths and
/// the platform-native pointer-sized width.
#[derive(Clone, Copy, Debug, PartialEq, Eq)]
pub enum IntWidth {
    W8,
    W16,
    W32,
    W64,
    W128,
    /// Platform-width ("size") integers.
    Platform,
}

/// A resolved type, as handed over by the host's type checker.
/// The rule only reads these; it never builds or rewrites types.
#[derive(Clone, Copy, Debug, PartialEq, Eq)]
pub enum TypeDescriptor {
    SignedInteger(IntWidth),
    UnsignedInteger(IntWidth),
    Boolean,
    /// An enum type; the flag records whether its runtime representation
    /// is integer-backed. Deliberately never classified as integral.
    EnumBacked(bool),
    /// Anything the rule does not recognize: composites, pointers,
    /// references, unresolved placeholders. Defaults to "not integral".
    Other,
}

/// A source location token. The rule attaches it to diagnostics and
/// never interprets it.
#[derive(Clone, Copy, Debug, PartialEq, Eq)]
pub struct Span {
    pub lo: u32,
    pub hi: u32,
}

/// The unary operators the tree distinguishes.
#[derive(Clone, Copy, Debug, PartialEq, Eq)]
pub enum UnaryOperator {
    /// Bitwise complement (the same node kind covers logical not on
    /// booleans; the operand's type tells them apart).
    Complement,
    /// Numeric sign negation.
    Negate,
}

/// The binary operators the tree distinguishes.
#[derive(Clone, Copy, Debug, PartialEq, Eq)]
pub enum BinaryOperator {
    And,
    Or,
    Xor,
    Compare,
}

/// What shape an expression node has. Operands are references into the
/// owning unit's node table.
#[derive(Clone, Copy, Debug, PartialEq, Eq)]
pub enum ExprKind {
    Literal,
    Variable,
    Unary(UnaryOperator, usize),
    Binary(BinaryOperator, usize, usize),
    /// Any other expression shape (calls, field accesses, ...).
    Other,
}

/// One node of the typed tree: its shape, its source span, and its own
/// resolved type (the rule only ever looks at an operand's type).
#[derive(Clone, Copy, Debug, PartialEq, Eq)]
pub struct ExpressionNode {
    pub kind: ExprKind,
    pub span: Span,
    pub ty: TypeDescriptor,
}

/// One program unit's worth of typed expression nodes, owned by the
/// host for the duration of a traversal pass.
pub struct ProgramUnit {
    pub nodes: Vec<ExpressionNode>,
}

impl ProgramUnit {
    /// The host's type-resolution capability: the resolved type of the
    /// referenced expression, or nothing when the reference does not
    /// resolve (an upstream failure the rule treats as "skip").
    pub fn operand_type(&self, reference: usize) -> (t: Option<TypeDescriptor>)
        ensures
            t == (if reference < self.nodes@.len() {
                Some(self.nodes@[reference as int].ty)
            } else {
                None::<TypeDescriptor>
            }),
    {
        if reference < self.nodes.len() {
            Some(self.nodes[reference].ty)
        } else {
            None
        }
    }
}

} // verus!
