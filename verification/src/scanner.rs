//! The expression scanner: the rule object itself, its per-node check,
//! and the whole-unit walk that emits diagnostics into a sink.

use vstd::prelude::*;

use crate::classifier::is_integral;
use crate::classifier::is_integral_type;
use crate::reporter::Diagnostic;
use crate::reporter::Severity;
use crate::reporter::diag_equiv;
use crate::reporter::is_report_for;
use crate::reporter::report;
use crate::tree::ExprKind;
use crate::tree::ExpressionNode;
use crate::tree::ProgramUnit;
use crate::tree::TypeDescriptor;
use crate::tree::UnaryOperator;

verus! {

/// Node `i` deserves a diagnostic: it is a unary complement, its
/// operand reference resolves, and the operand's type is integral.
/// An operand reference that does not resolve never matches: the rule
/// fails open rather than report on unknown types.
pub open spec fn node_matches(nodes: Seq<ExpressionNode>, i: int) -> bool {
    &&& 0 <= i < nodes.len()
    &&& match nodes[i].kind {
        ExprKind::Unary(UnaryOperator::Complement, operand) => {
            &&& operand < nodes.len()
            &&& is_integral(nodes[operand as int].ty)
        },
        _ => false,
    }
}

/// The indices below `n` whose nodes match, in increasing order: the
/// order-stable schedule of reports for one pass.
pub open spec fn matching_indices(nodes: Seq<ExpressionNode>, n: int) -> Seq<int>
    decreases n,
{
    if n <= 0 {
        Seq::empty()
    } else if node_matches(nodes, n - 1) {
        matching_indices(nodes, n - 1).push(n - 1)
    } else {
        matching_indices(nodes, n - 1)
    }
}

/// What one full pass over `nodes` emits: one report per matching node,
/// in index order, each spanning the whole matched expression.
pub open spec fn scan_result_ok(nodes: Seq<ExpressionNode>, out: Seq<Diagnostic>) -> bool {
    let schedule = matching_indices(nodes, nodes.len() as int);
    &&& out.len() == schedule.len()
    &&& forall|k: int|
        0 <= k < schedule.len() ==> is_report_for(#[trigger] out[k], nodes[schedule[k]].span)
}

/// The lint name the rule is registered under.
pub open spec fn rule_name() -> Seq<char> {
    "no_integral_negation"@
}

/// The rule instance: stateless, so one value serves any number of
/// units and passes.
pub struct NoIntegralNegation {}

impl NoIntegralNegation {
    /// The factory the host calls once at setup time.
    pub fn new() -> (rule: NoIntegralNegation) {
        NoIntegralNegation {  }
    }

    /// The fixed identifying name the host registers the rule under.
    pub fn name(&self) -> (r: &'static str)
        ensures
            r@ == rule_name(),
    {
        "no_integral_negation"
    }

    /// The fixed default severity the host registers the rule with.
    pub fn default_severity(&self) -> (s: Severity)
        ensures
            s == Severity::Warning,
    {
        Severity::Warning
    }

    /// The per-node check, as a push-style host traversal invokes it:
    /// appends exactly one warning to the sink when the node matches,
    /// touches nothing otherwise, and never disturbs what the sink
    /// already holds.
    pub fn check_expr(&self, unit: &ProgramUnit, index: usize, sink: &mut Vec<Diagnostic>)
        requires
            index < unit.nodes@.len(),
        ensures
            node_matches(unit.nodes@, index as int) ==> {
                &&& final(sink)@.len() == old(sink)@.len() + 1
                &&& is_report_for(final(sink)@.last(), unit.nodes@[index as int].span)
            },
            !node_matches(unit.nodes@, index as int) ==> final(sink)@ == old(sink)@,
            forall|k: int| 0 <= k < old(sink)@.len() ==> final(sink)@[k] == old(sink)@[k],
    {
        let node = unit.nodes[index];
        match node.kind {
            ExprKind::Unary(UnaryOperator::Complement, operand) => {
                match unit.operand_type(operand) {
                    Some(operand_ty) => {
                        if is_integral_type(operand_ty) {
                            let d = report(node.span);
                            sink.push(d);
                        }
                    },
                    None => {},
                }
            },
            _ => {},
        }
    }

    /// The pull-style walk: visit every node of the unit once, in index
    /// order, and emit into the sink exactly the reports that
    /// `scan_result_ok` describes, after whatever the sink already held.
    pub fn scan_unit(&self, unit: &ProgramUnit, sink: &mut Vec<Diagnostic>)
        ensures
            final(sink)@.len() >= old(sink)@.len(),
            forall|k: int| 0 <= k < old(sink)@.len() ==> final(sink)@[k] == old(sink)@[k],
            scan_result_ok(unit.nodes@, final(sink)@.skip(old(sink)@.len() as int)),
    {
        let ghost base = sink@.len() as int;
        let n = unit.nodes.len();
        let mut index: usize = 0;
        while index < n
            invariant
                n == unit.nodes@.len(),
                index <= n,
                sink@.len() == base + matching_indices(unit.nodes@, index as int).len(),
                base == old(sink)@.len(),
                forall|k: int| 0 <= k < base ==> sink@[k] == old(sink)@[k],
                forall|k: int|
                    0 <= k < matching_indices(unit.nodes@, index as int).len()
                        ==> is_report_for(
                        #[trigger] sink@[base + k],
                        unit.nodes@[matching_indices(unit.nodes@, index as int)[k]].span,
                    ),
            decreases n - index,
        {
            self.check_expr(unit, index, sink);
            index = index + 1;
        }
        assert(sink@.skip(base) =~= sink@.subrange(base, sink@.len() as int));
        assert forall|k: int|
            0 <= k < matching_indices(unit.nodes@, n as int).len() implies is_report_for(
            #[trigger] sink@.skip(base)[k],
            unit.nodes@[matching_indices(unit.nodes@, n as int)[k]].span,
        ) by {
            assert(sink@.skip(base)[k] == sink@[base + k]);
        }
    }
}

/// Every scheduled index is a matching node below `n`, and the
/// schedule lists them in strictly increasing index order.
pub proof fn lemma_schedule_ordered(nodes: Seq<ExpressionNode>, n: int)
    ensures
        forall|k: int|
            0 <= k < matching_indices(nodes, n).len() ==> 0 <= #[trigger] matching_indices(
                nodes,
                n,
            )[k] < n,
        forall|k1: int, k2: int|
            0 <= k1 < k2 < matching_indices(nodes, n).len() ==> #[trigger] matching_indices(
                nodes,
                n,
            )[k1] < #[trigger] matching_indices(nodes, n)[k2],
    decreases n,
{
    if n <= 0 {
    } else {
        lemma_schedule_ordered(nodes, n - 1);
        let prev = matching_indices(nodes, n - 1);
        let cur = matching_indices(nodes, n);
        if node_matches(nodes, n - 1) {
            assert(cur == prev.push(n - 1));
            assert forall|k: int| 0 <= k < cur.len() implies 0 <= #[trigger] cur[k] < n by {
                if k < prev.len() {
                    assert(cur[k] == prev[k]);
                } else {
                    assert(cur[k] == n - 1);
                }
            }
            assert forall|k1: int, k2: int|
                0 <= k1 < k2 < cur.len() implies #[trigger] cur[k1] < #[trigger] cur[k2] by {
                if k2 < prev.len() {
                    assert(cur[k1] == prev[k1] && cur[k2] == prev[k2]);
                } else {
                    assert(cur[k1] == prev[k1]);
                    assert(0 <= prev[k1] < n - 1);
                    assert(cur[k2] == n - 1);
                }
            }
        }
    }
}

/// An index is scheduled for a report below `n` exactly when it lies
/// below `n` and its node matches.
pub proof fn lemma_schedule_complete(nodes: Seq<ExpressionNode>, n: int, i: int)
    ensures
        matching_indices(nodes, n).contains(i) <==> (0 <= i < n && node_matches(nodes, i)),
    decreases n,
{
    if n <= 0 {
    } else {
        lemma_schedule_complete(nodes, n - 1, i);
        let prev = matching_indices(nodes, n - 1);
        if node_matches(nodes, n - 1) {
            let cur = prev.push(n - 1);
            if 0 <= i < n && node_matches(nodes, i) {
                if i == n - 1 {
                    assert(cur[prev.len() as int] == i);
                } else {
                    let j = prev.lemma_contains_to_index(i);
                    assert(cur[j] == i);
                }
            }
            if cur.contains(i) {
                let j = cur.lemma_contains_to_index(i);
                if j < prev.len() {
                    assert(prev[j] == i);
                } else {
                    assert(i == n - 1);
                }
            }
        }
    }
}

/// Law: a matching unary-complement node is reported exactly once per
/// pass, and its report spans the entire unary expression.
pub proof fn lemma_match_reported_exactly_once(
    nodes: Seq<ExpressionNode>,
    out: Seq<Diagnostic>,
    i: int,
)
    requires
        scan_result_ok(nodes, out),
        node_matches(nodes, i),
    ensures
        exists|k: int|
            0 <= k < out.len() && matching_indices(nodes, nodes.len() as int)[k] == i
                && is_report_for(#[trigger] out[k], nodes[i].span),
        forall|k1: int, k2: int|
            0 <= k1 < out.len() && 0 <= k2 < out.len() && #[trigger] matching_indices(
                nodes,
                nodes.len() as int,
            )[k1] == i && #[trigger] matching_indices(nodes, nodes.len() as int)[k2] == i ==> k1
                == k2,
{
    let n = nodes.len() as int;
    let schedule = matching_indices(nodes, n);
    lemma_schedule_complete(nodes, n, i);
    lemma_schedule_ordered(nodes, n);
    let k = schedule.lemma_contains_to_index(i);
    assert(0 <= k < out.len() && schedule[k] == i && is_report_for(out[k], nodes[i].span));
    assert forall|k1: int, k2: int|
        0 <= k1 < out.len() && 0 <= k2 < out.len() && #[trigger] schedule[k1] == i
            && #[trigger] schedule[k2] == i implies k1 == k2 by {
        if k1 < k2 {
            assert(schedule[k1] < schedule[k2]);
        }
        if k2 < k1 {
            assert(schedule[k2] < schedule[k1]);
        }
    }
}

/// Law: complementing a boolean operand never produces a diagnostic;
/// the node neither matches nor appears in any pass's schedule.
pub proof fn lemma_boolean_operand_not_flagged(
    nodes: Seq<ExpressionNode>,
    i: int,
    operand: usize,
)
    requires
        0 <= i < nodes.len(),
        nodes[i].kind == ExprKind::Unary(UnaryOperator::Complement, operand),
        operand < nodes.len(),
        nodes[operand as int].ty == TypeDescriptor::Boolean,
    ensures
        !node_matches(nodes, i),
        !matching_indices(nodes, nodes.len() as int).contains(i),
{
    lemma_schedule_complete(nodes, nodes.len() as int, i);
}

/// Law: a unary complement whose operand is an enum value is never
/// flagged, even when that enum's runtime representation is integral.
pub proof fn lemma_enum_backed_operand_not_flagged(
    nodes: Seq<ExpressionNode>,
    i: int,
    operand: usize,
    integer_backed: bool,
)
    requires
        0 <= i < nodes.len(),
        nodes[i].kind == ExprKind::Unary(UnaryOperator::Complement, operand),
        operand < nodes.len(),
        nodes[operand as int].ty == TypeDescriptor::EnumBacked(integer_backed),
    ensures
        !node_matches(nodes, i),
        !matching_indices(nodes, nodes.len() as int).contains(i),
{
    lemma_schedule_complete(nodes, nodes.len() as int, i);
}

/// Law: a node that is not a unary complement is never flagged,
/// whatever its operands' types are.
pub proof fn lemma_non_complement_not_flagged(nodes: Seq<ExpressionNode>, i: int)
    requires
        0 <= i < nodes.len(),
        !(nodes[i].kind matches ExprKind::Unary(UnaryOperator::Complement, _)),
    ensures
        !node_matches(nodes, i),
        !matching_indices(nodes, nodes.len() as int).contains(i),
{
    lemma_schedule_complete(nodes, nodes.len() as int, i);
}

/// Law: scanning an unchanged tree twice yields the same diagnostics,
/// in the same order; any two outputs of a full pass agree pointwise in
/// severity, span, message and help text.
pub proof fn lemma_scan_deterministic(
    nodes: Seq<ExpressionNode>,
    out1: Seq<Diagnostic>,
    out2: Seq<Diagnostic>,
)
    requires
        scan_result_ok(nodes, out1),
        scan_result_ok(nodes, out2),
    ensures
        out1.len() == out2.len(),
        forall|k: int| 0 <= k < out1.len() ==> diag_equiv(#[trigger] out1[k], out2[k]),
{
    assert forall|k: int| 0 <= k < out1.len() implies diag_equiv(#[trigger] out1[k], out2[k]) by {
        let schedule = matching_indices(nodes, nodes.len() as int);
        assert(is_report_for(out1[k], nodes[schedule[k]].span));
        assert(is_report_for(out2[k], nodes[schedule[k]].span));
    }
}

} // verus!
