//! Three-valued evaluation of predicates over a column resolver, and the
//! defensive `WHERE`-semantics evaluator used for data skipping.
use vstd::prelude::*;

verus! {

use crate::expressions::{BinaryOperator, ExpressionV, JunctionOperator, Predicate, PredicateV,
    UnaryOperator, Expression, lemma_preds_view};
use crate::scalars::{opt_sc_view, sc_cmp, clone_scalar, Scalar, ScalarV};

/// A capability that resolves a column name to an optional scalar: absent
/// means the column is unknown; a null scalar means the column is present
/// and null.
pub trait ResolveColumnAsScalar {
    /// The value this resolver gives each column, as a mathematical value.
    spec fn resolved(&self, col: Seq<char>) -> Option<ScalarV>;

    /// Resolves one column name.
    fn resolve_column(&self, col: &str) -> (r: Option<Scalar>)
        ensures
            opt_sc_view(r) == self.resolved(col@),
    ;
}

/// A resolver that knows no columns.
#[derive(Debug, Clone, Copy)]
pub struct EmptyColumnResolver;

impl ResolveColumnAsScalar for EmptyColumnResolver {
    open spec fn resolved(&self, col: Seq<char>) -> Option<ScalarV> {
        None
    }

    fn resolve_column(&self, col: &str) -> (r: Option<Scalar>) {
        None
    }
}

/// A resolver that is never expected to be consulted; it resolves nothing.
#[derive(Debug, Clone, Copy)]
pub struct UnimplementedColumnResolver;

impl ResolveColumnAsScalar for UnimplementedColumnResolver {
    open spec fn resolved(&self, col: Seq<char>) -> Option<ScalarV> {
        None
    }

    fn resolve_column(&self, col: &str) -> (r: Option<Scalar>) {
        None
    }
}

/// A resolver that maps every column to a null integer.
#[derive(Debug, Clone, Copy)]
pub struct NullColumnResolver;

impl ResolveColumnAsScalar for NullColumnResolver {
    open spec fn resolved(&self, col: Seq<char>) -> Option<ScalarV> {
        Some(ScalarV::Null(crate::schema::DataTypeV::Primitive(
            crate::schema::PrimitiveType::Integer,
        )))
    }

    fn resolve_column(&self, col: &str) -> (r: Option<Scalar>) {
        Some(Scalar::Null(crate::schema::DataType::integer()))
    }
}

/// A resolver that maps every column to one fixed scalar.
#[derive(Debug)]
pub struct ScalarResolver {
    pub value: Scalar,
}

impl ResolveColumnAsScalar for ScalarResolver {
    open spec fn resolved(&self, col: Seq<char>) -> Option<ScalarV> {
        Some(self.value@)
    }

    fn resolve_column(&self, col: &str) -> (r: Option<Scalar>) {
        Some(clone_scalar(&self.value))
    }
}

/// The first value bound to the name in an association list, if any.
pub open spec fn assoc_lookup(entries: Seq<(Seq<char>, ScalarV)>, col: Seq<char>) -> Option<
    ScalarV,
>
    decreases entries.len(),
{
    if entries.len() == 0 {
        None
    } else if entries[0].0 == col {
        Some(entries[0].1)
    } else {
        assoc_lookup(entries.drop_first(), col)
    }
}

/// The views of the entries of a column map.
pub open spec fn entries_view(entries: Seq<(String, Scalar)>) -> Seq<(Seq<char>, ScalarV)> {
    entries.map(|i: int, e: (String, Scalar)| (e.0@, e.1@))
}

/// A resolver backed by a list of column bindings; the first binding of a
/// name wins.
#[derive(Debug)]
pub struct MapColumnResolver {
    pub entries: Vec<(String, Scalar)>,
}

impl ResolveColumnAsScalar for MapColumnResolver {
    open spec fn resolved(&self, col: Seq<char>) -> Option<ScalarV> {
        assoc_lookup(entries_view(self.entries@), col)
    }

    fn resolve_column(&self, col: &str) -> (r: Option<Scalar>) {
        let n = self.entries.len();
        proof {
            assert(entries_view(self.entries@).skip(0) =~= entries_view(self.entries@));
        }
        for i in 0..n
            invariant
                n == self.entries@.len(),
                entries_view(self.entries@).len() == n,
                assoc_lookup(entries_view(self.entries@), col@) == assoc_lookup(
                    entries_view(self.entries@).skip(i as int),
                    col@,
                ),
        {
            proof {
                assert(entries_view(self.entries@).skip(i as int)[0] == (
                    self.entries@[i as int].0@,
                    self.entries@[i as int].1@,
                ));
                assert(entries_view(self.entries@).skip(i as int).drop_first() =~= entries_view(
                    self.entries@,
                ).skip(i + 1));
            }
            if crate::strings::str_eq(self.entries[i].0.as_str(), col) {
                return Some(clone_scalar(&self.entries[i].1));
            }
        }
        None
    }
}

/// Negation on a three-valued result: unknown stays unknown.
pub open spec fn negate_opt(o: Option<bool>) -> Option<bool> {
    match o {
        Some(b) => Some(!b),
        None => None,
    }
}

/// Evaluation of a scalar as a boolean: known only for booleans.
pub open spec fn spec_eval_scalar(v: ScalarV, inverted: bool) -> Option<bool> {
    match v {
        ScalarV::Boolean(b) => Some(b != inverted),
        _ => None,
    }
}

/// The value of an expression as a scalar, where one is directly available:
/// a literal's value, or a column's resolution.
pub open spec fn spec_resolve_expr<R: ResolveColumnAsScalar + ?Sized>(
    r: &R,
    e: ExpressionV,
) -> Option<ScalarV> {
    match e {
        ExpressionV::Literal(s) => Some(s),
        ExpressionV::Column(c) => r.resolved(c),
        _ => None,
    }
}

/// Evaluation of an expression as a boolean predicate.
pub open spec fn spec_eval_expr<R: ResolveColumnAsScalar + ?Sized>(
    r: &R,
    e: ExpressionV,
    inverted: bool,
) -> Option<bool> {
    match spec_resolve_expr(r, e) {
        Some(s) => spec_eval_scalar(s, inverted),
        None => None,
    }
}

/// Evaluation of a null test: always known for literals and resolvable
/// columns; unknown for missing columns and nested expressions.
pub open spec fn spec_eval_is_null<R: ResolveColumnAsScalar + ?Sized>(
    r: &R,
    e: ExpressionV,
    inverted: bool,
) -> Option<bool> {
    match spec_resolve_expr(r, e) {
        Some(s) => Some((s is Null) != inverted),
        None => None,
    }
}

/// Comparison of two scalars against an expected ordering, inverted on
/// demand; unknown when the scalars do not compare.
pub open spec fn spec_partial_cmp_scalars(
    ord: core::cmp::Ordering,
    a: ScalarV,
    b: ScalarV,
    inverted: bool,
) -> Option<bool> {
    match sc_cmp(a, b) {
        Some(o) => Some((o == ord) != inverted),
        None => None,
    }
}

/// Evaluation of a comparison operator over two scalars.
pub open spec fn spec_eval_binary_scalars(
    op: BinaryOperator,
    a: ScalarV,
    b: ScalarV,
    inverted: bool,
) -> Option<bool> {
    match op {
        BinaryOperator::Equal => spec_partial_cmp_scalars(core::cmp::Ordering::Equal, a, b, inverted),
        BinaryOperator::NotEqual => spec_partial_cmp_scalars(
            core::cmp::Ordering::Equal,
            a,
            b,
            !inverted,
        ),
        BinaryOperator::LessThan => spec_partial_cmp_scalars(
            core::cmp::Ordering::Less,
            a,
            b,
            inverted,
        ),
        BinaryOperator::LessThanOrEqual => spec_partial_cmp_scalars(
            core::cmp::Ordering::Greater,
            a,
            b,
            !inverted,
        ),
        BinaryOperator::GreaterThan => spec_partial_cmp_scalars(
            core::cmp::Ordering::Greater,
            a,
            b,
            inverted,
        ),
        BinaryOperator::GreaterThanOrEqual => spec_partial_cmp_scalars(
            core::cmp::Ordering::Less,
            a,
            b,
            !inverted,
        ),
        _ => None,
    }
}

/// Distinctness of two scalars, always known for resolvable inputs: two
/// nulls are not distinct, one null is distinct from any value, and two
/// values are distinct exactly when they are not equal — values of
/// different types are never equal, hence distinct.
pub open spec fn spec_eval_distinct(a: ScalarV, b: ScalarV, inverted: bool) -> Option<bool> {
    if a is Null && b is Null {
        Some(inverted)
    } else if a is Null || b is Null {
        Some(!inverted)
    } else {
        Some((sc_cmp(a, b) != Some(core::cmp::Ordering::Equal)) != inverted)
    }
}

/// Membership of a scalar in an array: found means true; a null or
/// incomparable element keeps an unfound search unknown.
pub open spec fn spec_in_fold(l: ScalarV, elems: Seq<ScalarV>) -> Option<bool>
    decreases elems.len(),
{
    if elems.len() == 0 {
        Some(false)
    } else {
        match sc_cmp(l, elems[0]) {
            Some(core::cmp::Ordering::Equal) => Some(true),
            Some(_) => spec_in_fold(l, elems.drop_first()),
            None => match spec_in_fold(l, elems.drop_first()) {
                Some(true) => Some(true),
                _ => None,
            },
        }
    }
}

/// Evaluation of membership: a null needle is unknown; otherwise the fold
/// over the array, inverted on demand.
pub open spec fn spec_eval_in(l: ScalarV, elems: Seq<ScalarV>, inverted: bool) -> Option<bool> {
    if l is Null {
        None
    } else {
        match spec_in_fold(l, elems) {
            Some(v) => Some(v != inverted),
            None => None,
        }
    }
}

/// Evaluation of a binary predicate: arithmetic is unsupported; distinct and
/// membership have their own rules; comparisons compare resolved scalars.
pub open spec fn spec_eval_binary<R: ResolveColumnAsScalar + ?Sized>(
    r: &R,
    op: BinaryOperator,
    l: ExpressionV,
    rt: ExpressionV,
    inverted: bool,
) -> Option<bool> {
    if op.is_arithmetic() {
        None
    } else if op == BinaryOperator::Distinct {
        match (spec_resolve_expr(r, l), spec_resolve_expr(r, rt)) {
            (Some(a), Some(b)) => spec_eval_distinct(a, b, inverted),
            _ => None,
        }
    } else if op == BinaryOperator::In || op == BinaryOperator::NotIn {
        match (spec_resolve_expr(r, l), rt) {
            (Some(a), ExpressionV::Literal(ScalarV::Array(_, _, elems))) => spec_eval_in(
                a,
                elems,
                if op == BinaryOperator::NotIn {
                    !inverted
                } else {
                    inverted
                },
            ),
            _ => None,
        }
    } else {
        match (spec_resolve_expr(r, l), spec_resolve_expr(r, rt)) {
            (Some(a), Some(b)) => spec_eval_binary_scalars(op, a, b, inverted),
            _ => None,
        }
    }
}

/// The dual junction operator.
pub open spec fn dual(op: JunctionOperator) -> JunctionOperator {
    match op {
        JunctionOperator::And => JunctionOperator::Or,
        JunctionOperator::Or => JunctionOperator::And,
    }
}

/// The junction operator actually combined under an inversion.
pub open spec fn eff_op(op: JunctionOperator, inverted: bool) -> JunctionOperator {
    if inverted {
        dual(op)
    } else {
        op
    }
}

/// Combination of three-valued results under a junction: for AND, a false
/// dominates, all true gives true, anything else is unknown; OR is dual.
pub open spec fn spec_combine(op: JunctionOperator, vals: Seq<Option<bool>>) -> Option<bool> {
    match op {
        JunctionOperator::And => {
            if exists|i: int| 0 <= i < vals.len() && vals[i] == Some(false) {
                Some(false)
            } else if forall|i: int| 0 <= i < vals.len() ==> vals[i] == Some(true) {
                Some(true)
            } else {
                None
            }
        },
        JunctionOperator::Or => {
            if exists|i: int| 0 <= i < vals.len() && vals[i] == Some(true) {
                Some(true)
            } else if forall|i: int| 0 <= i < vals.len() ==> vals[i] == Some(false) {
                Some(false)
            } else {
                None
            }
        },
    }
}

/// Standard three-valued evaluation of a predicate over a resolver, with an
/// inversion flag threaded through in place of rewriting negations.
pub open spec fn spec_eval<R: ResolveColumnAsScalar + ?Sized>(
    r: &R,
    p: PredicateV,
    inverted: bool,
) -> Option<bool>
    decreases p,
{
    match p {
        PredicateV::BoolExpr(e) => spec_eval_expr(r, e, inverted),
        PredicateV::IsNull(e) => spec_eval_is_null(r, e, inverted),
        PredicateV::Not(q) => spec_eval(r, *q, !inverted),
        PredicateV::Binary(op, l, rt) => spec_eval_binary(r, op, l, rt, inverted),
        PredicateV::Junction(op, children) => spec_combine(
            eff_op(op, inverted),
            spec_eval_children(r, children, inverted),
        ),
    }
}

/// The evaluations of a sequence of predicates, in order.
pub open spec fn spec_eval_children<R: ResolveColumnAsScalar + ?Sized>(
    r: &R,
    children: Seq<PredicateV>,
    inverted: bool,
) -> Seq<Option<bool>>
    decreases children,
{
    if children.len() == 0 {
        Seq::empty()
    } else {
        spec_eval_children(r, children.drop_last(), inverted).push(
            spec_eval(r, children.last(), inverted),
        )
    }
}

/// `spec_eval_children` maps the sequence pointwise.
pub proof fn lemma_spec_eval_children<R: ResolveColumnAsScalar + ?Sized>(
    r: &R,
    children: Seq<PredicateV>,
    inverted: bool,
)
    ensures
        spec_eval_children(r, children, inverted).len() == children.len(),
        forall|i: int|
            #![trigger spec_eval_children(r, children, inverted)[i]]
            #![trigger children[i]]
            0 <= i < children.len() ==> spec_eval_children(r, children, inverted)[i] == spec_eval(
                r,
                children[i],
                inverted,
            ),
    decreases children.len(),
{
    if children.len() > 0 {
        lemma_spec_eval_children(r, children.drop_last(), inverted);
        assert forall|i: int| 0 <= i < children.len() implies spec_eval_children(
            r,
            children,
            inverted,
        )[i] == spec_eval(r, children[i], inverted) by {
            if i < children.len() - 1 {
                assert(children.drop_last()[i] == children[i]);
            } else {
                assert(children[i] == children.last());
            }
        }
    }
}

/// Combination of two three-valued results under AND with null-as-false
/// `WHERE` semantics: a known false dominates.
pub open spec fn sql_and2(a: Option<bool>, b: Option<bool>) -> Option<bool> {
    if a == Some(false) || b == Some(false) {
        Some(false)
    } else if a == Some(true) && b == Some(true) {
        Some(true)
    } else {
        None
    }
}

/// Combination of three three-valued results under AND.
pub open spec fn sql_and3(a: Option<bool>, b: Option<bool>, c: Option<bool>) -> Option<bool> {
    sql_and2(sql_and2(a, b), c)
}

/// `WHERE`-semantics evaluation for data skipping: a predicate used as a SQL
/// `WHERE` clause drops rows whose value is null, so each expression used as
/// a boolean and each comparison side is additionally null-checked, and a
/// known-null operand short-circuits to false.
pub open spec fn spec_eval_sql<R: ResolveColumnAsScalar + ?Sized>(
    r: &R,
    p: PredicateV,
    inverted: bool,
) -> Option<bool>
    decreases p,
{
    match p {
        PredicateV::BoolExpr(e) => sql_and2(
            spec_eval_is_null(r, e, true),
            spec_eval_expr(r, e, inverted),
        ),
        PredicateV::IsNull(e) => spec_eval_is_null(r, e, inverted),
        PredicateV::Not(q) => spec_eval_sql(r, *q, !inverted),
        PredicateV::Binary(op, l, rt) => {
            if op.is_arithmetic() {
                None
            } else if op == BinaryOperator::Distinct {
                spec_eval_binary(r, op, l, rt, inverted)
            } else {
                sql_and3(
                    spec_eval_is_null(r, l, true),
                    spec_eval_is_null(r, rt, true),
                    spec_eval_binary(r, op, l, rt, inverted),
                )
            }
        },
        PredicateV::Junction(op, children) => spec_combine(
            eff_op(op, inverted),
            spec_eval_sql_children(r, children, inverted),
        ),
    }
}

/// The `WHERE`-semantics evaluations of a sequence of predicates, in order.
pub open spec fn spec_eval_sql_children<R: ResolveColumnAsScalar + ?Sized>(
    r: &R,
    children: Seq<PredicateV>,
    inverted: bool,
) -> Seq<Option<bool>>
    decreases children,
{
    if children.len() == 0 {
        Seq::empty()
    } else {
        spec_eval_sql_children(r, children.drop_last(), inverted).push(
            spec_eval_sql(r, children.last(), inverted),
        )
    }
}

/// `spec_eval_sql_children` maps the sequence pointwise.
pub proof fn lemma_spec_eval_sql_children<R: ResolveColumnAsScalar + ?Sized>(
    r: &R,
    children: Seq<PredicateV>,
    inverted: bool,
)
    ensures
        spec_eval_sql_children(r, children, inverted).len() == children.len(),
        forall|i: int|
            #![trigger spec_eval_sql_children(r, children, inverted)[i]]
            #![trigger children[i]]
            0 <= i < children.len() ==> spec_eval_sql_children(r, children, inverted)[i]
                == spec_eval_sql(r, children[i], inverted),
    decreases children.len(),
{
    if children.len() > 0 {
        lemma_spec_eval_sql_children(r, children.drop_last(), inverted);
        assert forall|i: int| 0 <= i < children.len() implies spec_eval_sql_children(
            r,
            children,
            inverted,
        )[i] == spec_eval_sql(r, children[i], inverted) by {
            if i < children.len() - 1 {
                assert(children.drop_last()[i] == children[i]);
            } else {
                assert(children[i] == children.last());
            }
        }
    }
}

/// Shared building blocks of predicate evaluation.
pub struct KernelPredicateEvaluatorDefaults;

impl KernelPredicateEvaluatorDefaults {
    /// Evaluates a scalar used as a boolean.
    pub fn eval_scalar(v: &Scalar, inverted: bool) -> (r: Option<bool>)
        ensures
            r == spec_eval_scalar(v@, inverted),
    {
        match v {
            Scalar::Boolean(b) => Some(*b != inverted),
            _ => None,
        }
    }

    /// Compares two scalars against an expected ordering.
    pub fn partial_cmp_scalars(
        ord: core::cmp::Ordering,
        a: &Scalar,
        b: &Scalar,
        inverted: bool,
    ) -> (r: Option<bool>)
        ensures
            r == spec_partial_cmp_scalars(ord, a@, b@, inverted),
    {
        match crate::scalars::scalar_partial_cmp(a, b) {
            Some(o) => Some(ordering_eq(o, ord) != inverted),
            None => None,
        }
    }

    /// Evaluates a comparison operator over two scalars.
    pub fn eval_binary_scalars(
        op: BinaryOperator,
        a: &Scalar,
        b: &Scalar,
        inverted: bool,
    ) -> (r: Option<bool>)
        ensures
            r == spec_eval_binary_scalars(op, a@, b@, inverted),
    {
        match op {
            BinaryOperator::Equal => Self::partial_cmp_scalars(
                core::cmp::Ordering::Equal,
                a,
                b,
                inverted,
            ),
            BinaryOperator::NotEqual => Self::partial_cmp_scalars(
                core::cmp::Ordering::Equal,
                a,
                b,
                !inverted,
            ),
            BinaryOperator::LessThan => Self::partial_cmp_scalars(
                core::cmp::Ordering::Less,
                a,
                b,
                inverted,
            ),
            BinaryOperator::LessThanOrEqual => Self::partial_cmp_scalars(
                core::cmp::Ordering::Greater,
                a,
                b,
                !inverted,
            ),
            BinaryOperator::GreaterThan => Self::partial_cmp_scalars(
                core::cmp::Ordering::Greater,
                a,
                b,
                inverted,
            ),
            BinaryOperator::GreaterThanOrEqual => Self::partial_cmp_scalars(
                core::cmp::Ordering::Less,
                a,
                b,
                !inverted,
            ),
            _ => None,
        }
    }
}

/// Whether two orderings are the same.
pub fn ordering_eq(a: core::cmp::Ordering, b: core::cmp::Ordering) -> (r: bool)
    ensures
        r == (a == b),
{
    matches!(
        (a, b),
        (core::cmp::Ordering::Less, core::cmp::Ordering::Less) | (
            core::cmp::Ordering::Equal,
            core::cmp::Ordering::Equal,
        ) | (core::cmp::Ordering::Greater, core::cmp::Ordering::Greater)
    )
}

/// A predicate evaluator over a column resolver.
#[derive(Debug)]
pub struct DefaultKernelPredicateEvaluator<R: ResolveColumnAsScalar> {
    pub resolver: R,
}

impl<R: ResolveColumnAsScalar> DefaultKernelPredicateEvaluator<R> {
    /// Wraps a resolver.
    pub fn new(resolver: R) -> (r: Self)
        ensures
            r == (DefaultKernelPredicateEvaluator { resolver }),
    {
        DefaultKernelPredicateEvaluator { resolver }
    }

    /// The value of an expression as a scalar, where one is available.
    fn resolve_expr(&self, e: &Expression) -> (r: Option<Scalar>)
        ensures
            opt_sc_view(r) == spec_resolve_expr(&self.resolver, e@),
    {
        match e {
            Expression::Literal(s) => Some(clone_scalar(s)),
            Expression::Column(c) => self.resolver.resolve_column(c.as_str()),
            _ => None,
        }
    }

    /// Evaluates a column used as a boolean.
    pub fn eval_column(&self, col: &str, inverted: bool) -> (r: Option<bool>)
        ensures
            r == (match self.resolver.resolved(col@) {
                Some(s) => spec_eval_scalar(s, inverted),
                None => None,
            }),
    {
        match self.resolver.resolve_column(col) {
            Some(s) => KernelPredicateEvaluatorDefaults::eval_scalar(&s, inverted),
            None => None,
        }
    }

    /// Evaluates a negated predicate.
    pub fn eval_not(&self, p: &Predicate, inverted: bool) -> (r: Option<bool>)
        ensures
            r == spec_eval(&self.resolver, p@, !inverted),
    {
        self.eval_pred(p, !inverted)
    }

    /// Evaluates a unary predicate over an expression.
    pub fn eval_unary(&self, op: UnaryOperator, e: &Expression, inverted: bool) -> (r: Option<
        bool,
    >)
        ensures
            r == spec_eval_is_null(&self.resolver, e@, inverted),
    {
        match op {
            UnaryOperator::IsNull => match self.resolve_expr(e) {
                Some(s) => Some(s.is_null() != inverted),
                None => None,
            },
        }
    }

    /// Evaluates distinctness of a column against a scalar.
    pub fn eval_distinct(&self, col: &str, val: &Scalar, inverted: bool) -> (r: Option<bool>)
        ensures
            r == (match self.resolver.resolved(col@) {
                Some(a) => spec_eval_distinct(a, val@, inverted),
                None => None,
            }),
    {
        match self.resolver.resolve_column(col) {
            Some(a) => {
                if a.is_null() && val.is_null() {
                    Some(inverted)
                } else if a.is_null() || val.is_null() {
                    Some(!inverted)
                } else {
                    let equal = matches!(
                        crate::scalars::scalar_partial_cmp(&a, val),
                        Some(core::cmp::Ordering::Equal)
                    );
                    Some(!equal != inverted)
                }
            },
            None => None,
        }
    }

    /// Evaluates membership of a scalar in the elements of an array.
    fn eval_in_elems(&self, l: &Scalar, elems: &Vec<Scalar>, inverted: bool) -> (r: Option<bool>)
        ensures
            r == spec_eval_in(l@, crate::scalars::elems_view(elems@), inverted),
    {
        proof {
            crate::scalars::lemma_elems_view(elems@);
        }
        if l.is_null() {
            return None;
        }
        let n = elems.len();
        let mut saw_unknown = false;
        let ghost ev = crate::scalars::elems_view(elems@);
        let mut i: usize = 0;
        proof {
            assert(ev.skip(0) =~= ev);
        }
        while i < n
            invariant
                n == elems@.len(),
                i <= n,
                ev == crate::scalars::elems_view(elems@),
                ev.len() == n,
                forall|j: int|
                    #![trigger elems@[j]]
                    0 <= j < n ==> ev[j] == crate::scalars::sc_view(elems@[j]),
                !(l@ is Null),
                spec_in_fold(l@, ev) == (match spec_in_fold(l@, ev.skip(i as int)) {
                    Some(true) => Some(true),
                    Some(false) => if saw_unknown {
                        None
                    } else {
                        Some(false)
                    },
                    None => None,
                }),
            decreases n - i,
        {
            proof {
                assert(ev.skip(i as int)[0] == ev[i as int]);
                assert(ev.skip(i as int).drop_first() =~= ev.skip(i + 1));
            }
            match crate::scalars::scalar_partial_cmp(l, &elems[i]) {
                Some(core::cmp::Ordering::Equal) => {
                    return Some(true != inverted);
                },
                Some(_) => {},
                None => {
                    saw_unknown = true;
                },
            }
            i = i + 1;
        }
        if saw_unknown {
            None
        } else {
            Some(false != inverted)
        }
    }

    /// Evaluates a binary predicate over two expressions.
    pub fn eval_binary(
        &self,
        op: BinaryOperator,
        l: &Expression,
        rt: &Expression,
        inverted: bool,
    ) -> (r: Option<bool>)
        ensures
            r == spec_eval_binary(&self.resolver, op, l@, rt@, inverted),
    {
        match op {
            BinaryOperator::Plus | BinaryOperator::Minus | BinaryOperator::Multiply
                | BinaryOperator::Divide => None,
            BinaryOperator::Distinct => {
                match (self.resolve_expr(l), self.resolve_expr(rt)) {
                    (Some(a), Some(b)) => {
                        if a.is_null() && b.is_null() {
                            Some(inverted)
                        } else if a.is_null() || b.is_null() {
                            Some(!inverted)
                        } else {
                            let equal = matches!(
                                crate::scalars::scalar_partial_cmp(&a, &b),
                                Some(core::cmp::Ordering::Equal)
                            );
                            Some(!equal != inverted)
                        }
                    },
                    _ => None,
                }
            },
            BinaryOperator::In | BinaryOperator::NotIn => {
                let inv = if matches!(op, BinaryOperator::NotIn) {
                    !inverted
                } else {
                    inverted
                };
                match self.resolve_expr(l) {
                    Some(a) => match rt {
                        Expression::Literal(Scalar::Array(ad)) => self.eval_in_elems(
                            &a,
                            &ad.elements,
                            inv,
                        ),
                        _ => None,
                    },
                    None => None,
                }
            },
            _ => {
                match (self.resolve_expr(l), self.resolve_expr(rt)) {
                    (Some(a), Some(b)) => KernelPredicateEvaluatorDefaults::eval_binary_scalars(
                        op,
                        &a,
                        &b,
                        inverted,
                    ),
                    _ => None,
                }
            },
        }
    }

    /// Combines the evaluations of a junction's children.
    pub fn eval_junction(
        &self,
        op: JunctionOperator,
        children: &Vec<Predicate>,
        inverted: bool,
    ) -> (r: Option<bool>)
        ensures
            r == spec_eval(
                &self.resolver,
                PredicateV::Junction(op, crate::expressions::preds_view(children@)),
                inverted,
            ),
    {
        proof {
            lemma_preds_view(children@);
            lemma_spec_eval_children(
                &self.resolver,
                crate::expressions::preds_view(children@),
                inverted,
            );
        }
        let ghost pv = crate::expressions::preds_view(children@);
        let n = children.len();
        let mut evals: Vec<Option<bool>> = Vec::new();
        for i in 0..n
            invariant
                n == children@.len(),
                pv == crate::expressions::preds_view(children@),
                pv.len() == n,
                forall|j: int|
                    #![trigger children@[j]]
                    0 <= j < n ==> pv[j] == crate::expressions::pred_view(children@[j]),
                evals@.len() == i,
                forall|j: int|
                    #![trigger evals@[j]]
                    0 <= j < i ==> evals@[j] == spec_eval(&self.resolver, pv[j], inverted),
        {
            let c = self.eval_pred(&children[i], inverted);
            evals.push(c);
        }
        proof {
            assert(evals@ =~= spec_eval_children(&self.resolver, pv, inverted));
        }
        combine_vals(eff_op_exec(op, inverted), &evals)
    }

    /// Evaluates a predicate under the standard three-valued semantics,
    /// with an inversion flag.
    pub fn eval_pred(&self, p: &Predicate, inverted: bool) -> (r: Option<bool>)
        ensures
            r == spec_eval(&self.resolver, p@, inverted),
        decreases *p,
    {
        match p {
            Predicate::BoolExpr(e) => {
                match self.resolve_expr(e) {
                    Some(s) => KernelPredicateEvaluatorDefaults::eval_scalar(&s, inverted),
                    None => None,
                }
            },
            Predicate::IsNull(e) => self.eval_unary(UnaryOperator::IsNull, e, inverted),
            Predicate::Not(q) => self.eval_pred(q, !inverted),
            Predicate::Binary(op, l, rt) => self.eval_binary(*op, l, rt, inverted),
            Predicate::Junction(op, children) => {
                proof {
                    lemma_preds_view(children@);
                    lemma_spec_eval_children(
                        &self.resolver,
                        crate::expressions::preds_view(children@),
                        inverted,
                    );
                }
                let ghost pv = crate::expressions::preds_view(children@);
                let n = children.len();
                let mut evals: Vec<Option<bool>> = Vec::new();
                for i in 0..n
                    invariant
                        n == children@.len(),
                        *p matches Predicate::Junction(o2, cs) && cs == *children,
                        pv == crate::expressions::preds_view(children@),
                        pv.len() == n,
                        forall|j: int|
                            #![trigger children@[j]]
                            0 <= j < n ==> pv[j] == crate::expressions::pred_view(children@[j]),
                        evals@.len() == i,
                        forall|j: int|
                            #![trigger evals@[j]]
                            0 <= j < i ==> evals@[j] == spec_eval(&self.resolver, pv[j], inverted),
                {
                    assert(decreases_to!(*p => children@[i as int]));
                    let c = self.eval_pred(&children[i], inverted);
                    evals.push(c);
                }
                proof {
                    assert(evals@ =~= spec_eval_children(&self.resolver, pv, inverted));
                }
                combine_vals(eff_op_exec(*op, inverted), &evals)
            },
        }
    }

    /// Evaluates a predicate under the standard three-valued semantics.
    pub fn eval(&self, p: &Predicate) -> (r: Option<bool>)
        ensures
            r == spec_eval(&self.resolver, p@, false),
    {
        self.eval_pred(p, false)
    }

    /// Evaluates a predicate under SQL `WHERE` semantics, with an inversion
    /// flag.
    pub fn eval_sql_where_inverted(&self, p: &Predicate, inverted: bool) -> (r: Option<bool>)
        ensures
            r == spec_eval_sql(&self.resolver, p@, inverted),
        decreases *p,
    {
        match p {
            Predicate::BoolExpr(e) => {
                let nn = self.eval_unary(UnaryOperator::IsNull, e, true);
                let ev = match self.resolve_expr(e) {
                    Some(s) => KernelPredicateEvaluatorDefaults::eval_scalar(&s, inverted),
                    None => None,
                };
                sql_and2_exec(nn, ev)
            },
            Predicate::IsNull(e) => self.eval_unary(UnaryOperator::IsNull, e, inverted),
            Predicate::Not(q) => self.eval_sql_where_inverted(q, !inverted),
            Predicate::Binary(op, l, rt) => {
                match op {
                    BinaryOperator::Plus | BinaryOperator::Minus | BinaryOperator::Multiply
                        | BinaryOperator::Divide => None,
                    BinaryOperator::Distinct => self.eval_binary(*op, l, rt, inverted),
                    _ => {
                        let nl = self.eval_unary(UnaryOperator::IsNull, l, true);
                        let nr = self.eval_unary(UnaryOperator::IsNull, rt, true);
                        let c = self.eval_binary(*op, l, rt, inverted);
                        sql_and2_exec(sql_and2_exec(nl, nr), c)
                    },
                }
            },
            Predicate::Junction(op, children) => {
                proof {
                    lemma_preds_view(children@);
                    lemma_spec_eval_sql_children(
                        &self.resolver,
                        crate::expressions::preds_view(children@),
                        inverted,
                    );
                }
                let ghost pv = crate::expressions::preds_view(children@);
                let n = children.len();
                let mut evals: Vec<Option<bool>> = Vec::new();
                for i in 0..n
                    invariant
                        n == children@.len(),
                        *p matches Predicate::Junction(o2, cs) && cs == *children,
                        pv == crate::expressions::preds_view(children@),
                        pv.len() == n,
                        forall|j: int|
                            #![trigger children@[j]]
                            0 <= j < n ==> pv[j] == crate::expressions::pred_view(children@[j]),
                        evals@.len() == i,
                        forall|j: int|
                            #![trigger evals@[j]]
                            0 <= j < i ==> evals@[j] == spec_eval_sql(
                                &self.resolver,
                                pv[j],
                                inverted,
                            ),
                {
                    assert(decreases_to!(*p => children@[i as int]));
                    let c = self.eval_sql_where_inverted(&children[i], inverted);
                    evals.push(c);
                }
                proof {
                    assert(evals@ =~= spec_eval_sql_children(&self.resolver, pv, inverted));
                }
                combine_vals(eff_op_exec(*op, inverted), &evals)
            },
        }
    }

    /// Evaluates a predicate under SQL `WHERE` semantics: a `some(false)`
    /// result means no row can satisfy the clause.
    pub fn eval_sql_where(&self, p: &Predicate) -> (r: Option<bool>)
        ensures
            r == spec_eval_sql(&self.resolver, p@, false),
    {
        self.eval_sql_where_inverted(p, false)
    }
}

/// The junction operator actually combined under an inversion.
pub fn eff_op_exec(op: JunctionOperator, inverted: bool) -> (r: JunctionOperator)
    ensures
        r == eff_op(op, inverted),
{
    match (op, inverted) {
        (JunctionOperator::And, false) => JunctionOperator::And,
        (JunctionOperator::And, true) => JunctionOperator::Or,
        (JunctionOperator::Or, false) => JunctionOperator::Or,
        (JunctionOperator::Or, true) => JunctionOperator::And,
    }
}

/// Combines already-evaluated three-valued results under a junction.
pub fn combine_vals(op: JunctionOperator, vals: &Vec<Option<bool>>) -> (r: Option<bool>)
    ensures
        r == spec_combine(op, vals@),
{
    let n = vals.len();
    let mut saw_false = false;
    let mut saw_true = false;
    let mut saw_unknown = false;
    for i in 0..n
        invariant
            n == vals@.len(),
            saw_false ==> exists|j: int| 0 <= j < i && vals@[j] == Some(false),
            !saw_false ==> forall|j: int|
                #![trigger vals@[j]]
                0 <= j < i ==> vals@[j] != Some(false),
            saw_true ==> exists|j: int| 0 <= j < i && vals@[j] == Some(true),
            !saw_true ==> forall|j: int|
                #![trigger vals@[j]]
                0 <= j < i ==> vals@[j] != Some(true),
            saw_unknown ==> exists|j: int| 0 <= j < i && vals@[j] is None,
            !saw_unknown ==> forall|j: int|
                #![trigger vals@[j]]
                0 <= j < i ==> !(vals@[j] is None),
    {
        let c = vals[i];
        proof {
            assert(vals@[i as int] == c);
        }
        match c {
            Some(false) => {
                saw_false = true;
            },
            Some(true) => {
                saw_true = true;
            },
            None => {
                saw_unknown = true;
            },
        }
    }
    proof {
        assert forall|j: int| 0 <= j < n implies (#[trigger] vals@[j]) == Some(true) || vals@[j]
            == Some(false) || vals@[j] is None by {
        }
    }
    match op {
        JunctionOperator::And => {
            if saw_false {
                Some(false)
            } else if !saw_unknown {
                proof {
                    assert forall|j: int| 0 <= j < vals@.len() implies #[trigger] vals@[j] == Some(
                        true,
                    ) by {
                        assert(vals@[j] != Some(false));
                        assert(!(vals@[j] is None));
                    }
                }
                Some(true)
            } else {
                proof {
                    let j0 = choose|j: int| 0 <= j < n && vals@[j] is None;
                    assert(vals@[j0] != Some(true));
                    assert(!(forall|j: int| 0 <= j < vals@.len() ==> vals@[j] == Some(true)));
                }
                None
            }
        },
        JunctionOperator::Or => {
            if saw_true {
                Some(true)
            } else if !saw_unknown {
                proof {
                    assert forall|j: int| 0 <= j < vals@.len() implies #[trigger] vals@[j] == Some(
                        false,
                    ) by {
                        assert(vals@[j] != Some(true));
                        assert(!(vals@[j] is None));
                    }
                }
                Some(false)
            } else {
                proof {
                    let j0 = choose|j: int| 0 <= j < n && vals@[j] is None;
                    assert(vals@[j0] != Some(false));
                    assert(!(forall|j: int| 0 <= j < vals@.len() ==> vals@[j] == Some(false)));
                }
                None
            }
        },
    }
}

/// Combines two three-valued results under null-as-false AND.
pub fn sql_and2_exec(a: Option<bool>, b: Option<bool>) -> (r: Option<bool>)
    ensures
        r == sql_and2(a, b),
{
    match (a, b) {
        (Some(false), _) => Some(false),
        (_, Some(false)) => Some(false),
        (Some(true), Some(true)) => Some(true),
        _ => None,
    }
}


/// Negating pointwise turns a junction into its dual.
proof fn lemma_combine_dual(op: JunctionOperator, v1: Seq<Option<bool>>, v2: Seq<Option<bool>>)
    requires
        v1.len() == v2.len(),
        forall|i: int| #![trigger v2[i]] 0 <= i < v1.len() ==> v2[i] == negate_opt(v1[i]),
    ensures
        spec_combine(dual(op), v2) == negate_opt(spec_combine(op, v1)),
{
    assert forall|i: int| #![trigger v1[i]] 0 <= i < v1.len() implies v2[i] == negate_opt(
        v1[i],
    ) by {}
    if exists|i: int| 0 <= i < v1.len() && v1[i] == Some(false) {
        let w = choose|i: int| 0 <= i < v1.len() && v1[i] == Some(false);
        assert(v2[w] == Some(true));
    }
    if exists|i: int| 0 <= i < v1.len() && v1[i] == Some(true) {
        let w = choose|i: int| 0 <= i < v1.len() && v1[i] == Some(true);
        assert(v2[w] == Some(false));
    }
    if exists|i: int| 0 <= i < v2.len() && v2[i] == Some(false) {
        let w = choose|i: int| 0 <= i < v2.len() && v2[i] == Some(false);
        assert(v1[w] == Some(true));
    }
    if exists|i: int| 0 <= i < v2.len() && v2[i] == Some(true) {
        let w = choose|i: int| 0 <= i < v2.len() && v2[i] == Some(true);
        assert(v1[w] == Some(false));
    }
    if forall|i: int| 0 <= i < v1.len() ==> #[trigger] v1[i] == Some(true) {
        assert forall|i: int| 0 <= i < v2.len() implies #[trigger] v2[i] == Some(false) by {
            assert(v1[i] == Some(true));
        }
    }
    if forall|i: int| 0 <= i < v1.len() ==> #[trigger] v1[i] == Some(false) {
        assert forall|i: int| 0 <= i < v2.len() implies #[trigger] v2[i] == Some(true) by {
            assert(v1[i] == Some(false));
        }
    }
    if forall|i: int| 0 <= i < v2.len() ==> #[trigger] v2[i] == Some(true) {
        assert forall|i: int| 0 <= i < v1.len() implies #[trigger] v1[i] == Some(false) by {
            assert(v2[i] == Some(true));
        }
    }
    if forall|i: int| 0 <= i < v2.len() ==> #[trigger] v2[i] == Some(false) {
        assert forall|i: int| 0 <= i < v1.len() implies #[trigger] v1[i] == Some(true) by {
            assert(v2[i] == Some(false));
        }
    }
}

/// Three-valued logic law: evaluating with the inversion flag flipped
/// negates the result, with unknown staying unknown. This is what makes the
/// inversion flag a faithful implementation of `NOT`.
pub proof fn lemma_eval_inversion<R: ResolveColumnAsScalar + ?Sized>(
    r: &R,
    p: PredicateV,
    inverted: bool,
)
    ensures
        spec_eval(r, p, !inverted) == negate_opt(spec_eval(r, p, inverted)),
    decreases p,
{
    match p {
        PredicateV::BoolExpr(e) => {},
        PredicateV::IsNull(e) => {},
        PredicateV::Not(q) => {
            lemma_eval_inversion(r, *q, !inverted);
            lemma_eval_inversion(r, *q, inverted);
        },
        PredicateV::Binary(op, l, rt) => {},
        PredicateV::Junction(op, children) => {
            lemma_spec_eval_children(r, children, inverted);
            lemma_spec_eval_children(r, children, !inverted);
            assert forall|i: int|
                #![trigger children[i]]
                0 <= i < children.len() implies spec_eval_children(r, children, !inverted)[i]
                == negate_opt(spec_eval_children(r, children, inverted)[i]) by {
                lemma_eval_inversion(r, children[i], inverted);
            }
            assert(eff_op(op, !inverted) == dual(eff_op(op, inverted)));
            lemma_combine_dual(
                eff_op(op, inverted),
                spec_eval_children(r, children, inverted),
                spec_eval_children(r, children, !inverted),
            );
        },
    }
}

/// Three-valued logic law, as stated over negation: `eval(not(P))` is the
/// negation of `eval(P)`, where negating unknown gives unknown.
pub proof fn lemma_eval_not_negates<R: ResolveColumnAsScalar + ?Sized>(r: &R, p: PredicateV)
    ensures
        spec_eval(r, PredicateV::Not(Box::new(p)), false) == negate_opt(spec_eval(r, p, false)),
{
    lemma_eval_inversion(r, p, false);
}

/// A junction whose `WHERE`-semantics children never beat the standard ones
/// refines the standard junction.
proof fn lemma_combine_refines(
    op: JunctionOperator,
    sqls: Seq<Option<bool>>,
    evals: Seq<Option<bool>>,
)
    requires
        sqls.len() == evals.len(),
        forall|i: int|
            #![trigger sqls[i]]
            0 <= i < sqls.len() ==> (sqls[i] == Some(false) ==> evals[i] != Some(true)),
    ensures
        spec_combine(op, sqls) == Some(false) ==> spec_combine(op, evals) != Some(true),
{
    if spec_combine(op, sqls) == Some(false) {
        match op {
            JunctionOperator::And => {
                let w = choose|i: int| 0 <= i < sqls.len() && sqls[i] == Some(false);
                assert(evals[w] != Some(true));
            },
            JunctionOperator::Or => {
                if exists|i: int| 0 <= i < evals.len() && evals[i] == Some(true) {
                    let w = choose|i: int| 0 <= i < evals.len() && evals[i] == Some(true);
                    assert(sqls[w] == Some(false));
                }
            },
        }
    }
}

/// `WHERE` refinement: whenever the defensive `WHERE` evaluator concludes
/// that a predicate is statically false, the standard evaluator does not
/// conclude it is true; rows are only ever skipped soundly.
pub proof fn lemma_sql_where_refines<R: ResolveColumnAsScalar + ?Sized>(
    r: &R,
    p: PredicateV,
    inverted: bool,
)
    ensures
        spec_eval_sql(r, p, inverted) == Some(false) ==> spec_eval(r, p, inverted) != Some(true),
    decreases p,
{
    match p {
        PredicateV::BoolExpr(e) => {
            if spec_eval_sql(r, p, inverted) == Some(false) {
                if spec_eval_is_null(r, e, true) == Some(false) {
                    assert(spec_resolve_expr(r, e) matches Some(s) && s is Null);
                }
            }
        },
        PredicateV::IsNull(e) => {},
        PredicateV::Not(q) => {
            lemma_sql_where_refines(r, *q, !inverted);
        },
        PredicateV::Binary(op, l, rt) => {
            if spec_eval_sql(r, p, inverted) == Some(false) && !op.is_arithmetic() && op
                != BinaryOperator::Distinct {
                let nl = spec_eval_is_null(r, l, true);
                let nr = spec_eval_is_null(r, rt, true);
                let c = spec_eval_binary(r, op, l, rt, inverted);
                if c == Some(false) {
                } else if nl == Some(false) {
                    assert(spec_resolve_expr(r, l) matches Some(s) && s is Null);
                    assert(spec_eval_binary(r, op, l, rt, inverted) is None);
                } else {
                    assert(nr == Some(false));
                    assert(spec_resolve_expr(r, rt) matches Some(s) && s is Null);
                    assert(spec_eval_binary(r, op, l, rt, inverted) is None);
                }
            }
        },
        PredicateV::Junction(op, children) => {
            lemma_spec_eval_children(r, children, inverted);
            lemma_spec_eval_sql_children(r, children, inverted);
            assert forall|i: int|
                #![trigger spec_eval_sql_children(r, children, inverted)[i]]
                0 <= i < children.len() implies (spec_eval_sql_children(r, children, inverted)[i]
                == Some(false) ==> spec_eval_children(r, children, inverted)[i] != Some(
                true,
            )) by {
                lemma_sql_where_refines(r, children[i], inverted);
            }
            lemma_combine_refines(
                eff_op(op, inverted),
                spec_eval_sql_children(r, children, inverted),
                spec_eval_children(r, children, inverted),
            );
        },
    }
}

/// Null incomparability: an equality comparison against a null literal is
/// unknown, whatever stands on the other side; in particular a null never
/// equals itself.
pub proof fn lemma_null_incomparable<R: ResolveColumnAsScalar + ?Sized>(
    r: &R,
    v: ScalarV,
    t: crate::schema::DataTypeV,
)
    ensures
        spec_eval(
            r,
            PredicateV::Binary(
                BinaryOperator::Equal,
                ExpressionV::Literal(v),
                ExpressionV::Literal(ScalarV::Null(t)),
            ),
            false,
        ) is None,
        spec_eval(
            r,
            PredicateV::Binary(
                BinaryOperator::Equal,
                ExpressionV::Literal(ScalarV::Null(t)),
                ExpressionV::Literal(ScalarV::Null(t)),
            ),
            false,
        ) is None,
{
    assert(sc_cmp(v, ScalarV::Null(t)) is None);
    assert(sc_cmp(ScalarV::Null(t), ScalarV::Null(t)) is None);
}

/// Distinct totality: distinctness of two resolvable values is always
/// known, whatever their types.
pub proof fn lemma_distinct_total<R: ResolveColumnAsScalar + ?Sized>(
    r: &R,
    a: ScalarV,
    b: ScalarV,
)
    ensures
        spec_eval(
            r,
            PredicateV::Binary(
                BinaryOperator::Distinct,
                ExpressionV::Literal(a),
                ExpressionV::Literal(b),
            ),
            false,
        ) is Some,
{
}


} // verus!
