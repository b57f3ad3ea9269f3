//! The expression and predicate algebra: value expressions over columns and
//! literals, and boolean predicates with comparisons and junctions.
use vstd::prelude::*;

verus! {

use crate::scalars::{clone_scalar, sc_view, Scalar, ScalarV};
use crate::schema::DataType;

/// The binary operators: arithmetic over values, and comparisons,
/// distinctness and membership over predicates.
#[derive(Debug, Clone, Copy, PartialEq, Eq, Structural)]
pub enum BinaryOperator {
    Plus,
    Minus,
    Multiply,
    Divide,
    LessThan,
    LessThanOrEqual,
    GreaterThan,
    GreaterThanOrEqual,
    Equal,
    NotEqual,
    Distinct,
    In,
    NotIn,
}

impl BinaryOperator {
    /// Whether this operator computes a value rather than a truth value.
    pub open spec fn is_arithmetic(self) -> bool {
        self == BinaryOperator::Plus || self == BinaryOperator::Minus || self
            == BinaryOperator::Multiply || self == BinaryOperator::Divide
    }
}

/// The unary predicate operators.
#[derive(Debug, Clone, Copy, PartialEq, Eq, Structural)]
pub enum UnaryOperator {
    IsNull,
}

/// The junction operators over predicate lists.
#[derive(Debug, Clone, Copy, PartialEq, Eq, Structural)]
pub enum JunctionOperator {
    And,
    Or,
}

/// A value expression: a literal, a column reference, a struct of
/// expressions, or a binary arithmetic expression.
#[derive(Debug)]
pub enum Expression {
    Literal(Scalar),
    Column(String),
    Struct(Vec<Expression>),
    Binary(BinaryOperator, Box<Expression>, Box<Expression>),
}

/// A boolean predicate: an expression used as a boolean, a null test, a
/// negation, a binary comparison, or a junction over a list of predicates.
#[derive(Debug)]
pub enum Predicate {
    BoolExpr(Expression),
    IsNull(Expression),
    Not(Box<Predicate>),
    Binary(BinaryOperator, Expression, Expression),
    Junction(JunctionOperator, Vec<Predicate>),
}

/// The mathematical value of an expression.
pub enum ExpressionV {
    Literal(ScalarV),
    Column(Seq<char>),
    Struct(Seq<ExpressionV>),
    Binary(BinaryOperator, Box<ExpressionV>, Box<ExpressionV>),
}

/// The mathematical value of a predicate.
pub enum PredicateV {
    BoolExpr(ExpressionV),
    IsNull(ExpressionV),
    Not(Box<PredicateV>),
    Binary(BinaryOperator, ExpressionV, ExpressionV),
    Junction(JunctionOperator, Seq<PredicateV>),
}

/// The view of an expression.
pub open spec fn expr_view(e: Expression) -> ExpressionV
    decreases e,
{
    match e {
        Expression::Literal(s) => ExpressionV::Literal(sc_view(s)),
        Expression::Column(c) => ExpressionV::Column(c@),
        Expression::Struct(children) => ExpressionV::Struct(exprs_view(children@)),
        Expression::Binary(op, l, r) => ExpressionV::Binary(
            op,
            Box::new(expr_view(*l)),
            Box::new(expr_view(*r)),
        ),
    }
}

/// The views of a sequence of expressions, in order.
pub open spec fn exprs_view(children: Seq<Expression>) -> Seq<ExpressionV>
    decreases children,
{
    if children.len() == 0 {
        Seq::empty()
    } else {
        exprs_view(children.drop_last()).push(expr_view(children.last()))
    }
}

/// The view of a predicate.
pub open spec fn pred_view(p: Predicate) -> PredicateV
    decreases p,
{
    match p {
        Predicate::BoolExpr(e) => PredicateV::BoolExpr(expr_view(e)),
        Predicate::IsNull(e) => PredicateV::IsNull(expr_view(e)),
        Predicate::Not(q) => PredicateV::Not(Box::new(pred_view(*q))),
        Predicate::Binary(op, l, r) => PredicateV::Binary(op, expr_view(l), expr_view(r)),
        Predicate::Junction(op, children) => PredicateV::Junction(op, preds_view(children@)),
    }
}

/// The views of a sequence of predicates, in order.
pub open spec fn preds_view(children: Seq<Predicate>) -> Seq<PredicateV>
    decreases children,
{
    if children.len() == 0 {
        Seq::empty()
    } else {
        preds_view(children.drop_last()).push(pred_view(children.last()))
    }
}

/// `exprs_view` maps the sequence pointwise.
pub proof fn lemma_exprs_view(children: Seq<Expression>)
    ensures
        exprs_view(children).len() == children.len(),
        forall|i: int|
            #![trigger exprs_view(children)[i]]
            #![trigger children[i]]
            0 <= i < children.len() ==> exprs_view(children)[i] == expr_view(children[i]),
    decreases children.len(),
{
    if children.len() > 0 {
        lemma_exprs_view(children.drop_last());
        assert forall|i: int| 0 <= i < children.len() implies exprs_view(children)[i] == expr_view(
            children[i],
        ) by {
            if i < children.len() - 1 {
                assert(children.drop_last()[i] == children[i]);
            } else {
                assert(children[i] == children.last());
            }
        }
    }
}

/// `preds_view` maps the sequence pointwise.
pub proof fn lemma_preds_view(children: Seq<Predicate>)
    ensures
        preds_view(children).len() == children.len(),
        forall|i: int|
            #![trigger preds_view(children)[i]]
            #![trigger children[i]]
            0 <= i < children.len() ==> preds_view(children)[i] == pred_view(children[i]),
    decreases children.len(),
{
    if children.len() > 0 {
        lemma_preds_view(children.drop_last());
        assert forall|i: int| 0 <= i < children.len() implies preds_view(children)[i] == pred_view(
            children[i],
        ) by {
            if i < children.len() - 1 {
                assert(children.drop_last()[i] == children[i]);
            } else {
                assert(children[i] == children.last());
            }
        }
    }
}

impl View for Expression {
    type V = ExpressionV;

    open spec fn view(&self) -> ExpressionV {
        expr_view(*self)
    }
}

impl View for Predicate {
    type V = PredicateV;

    open spec fn view(&self) -> PredicateV {
        pred_view(*self)
    }
}

impl Expression {
    /// A literal expression.
    pub fn literal(s: Scalar) -> (r: Expression)
        ensures
            r@ == ExpressionV::Literal(s@),
    {
        Expression::Literal(s)
    }

    /// A typed null literal expression.
    pub fn null_literal(dt: DataType) -> (r: Expression)
        ensures
            r@ == ExpressionV::Literal(ScalarV::Null(dt@)),
    {
        Expression::Literal(Scalar::Null(dt))
    }

    /// A column reference.
    pub fn column(name: &str) -> (r: Expression)
        ensures
            r@ == ExpressionV::Column(name@),
    {
        Expression::Column(String::from_str(name))
    }

    /// A struct of expressions.
    pub fn struct_from(children: Vec<Expression>) -> (r: Expression)
        ensures
            r@ == ExpressionV::Struct(exprs_view(children@)),
    {
        Expression::Struct(children)
    }

    /// A binary arithmetic expression.
    pub fn binary(op: BinaryOperator, l: Expression, r: Expression) -> (e: Expression)
        ensures
            e@ == ExpressionV::Binary(op, Box::new(l@), Box::new(r@)),
    {
        Expression::Binary(op, Box::new(l), Box::new(r))
    }
}

impl Predicate {
    /// A boolean literal predicate.
    pub fn literal(b: bool) -> (r: Predicate)
        ensures
            r@ == PredicateV::BoolExpr(ExpressionV::Literal(ScalarV::Boolean(b))),
    {
        Predicate::BoolExpr(Expression::Literal(Scalar::Boolean(b)))
    }

    /// An expression used as a boolean predicate.
    pub fn from_expr(e: Expression) -> (r: Predicate)
        ensures
            r@ == PredicateV::BoolExpr(e@),
    {
        Predicate::BoolExpr(e)
    }

    /// The negation of a predicate.
    pub fn not(p: Predicate) -> (r: Predicate)
        ensures
            r@ == PredicateV::Not(Box::new(p@)),
    {
        Predicate::Not(Box::new(p))
    }

    /// A test that an expression is null.
    pub fn is_null(e: Expression) -> (r: Predicate)
        ensures
            r@ == PredicateV::IsNull(e@),
    {
        Predicate::IsNull(e)
    }

    /// A test that an expression is not null.
    pub fn is_not_null(e: Expression) -> (r: Predicate)
        ensures
            r@ == PredicateV::Not(Box::new(PredicateV::IsNull(e@))),
    {
        let inner = Predicate::IsNull(e);
        proof {
            assert(inner@ == PredicateV::IsNull(e@));
        }
        Predicate::Not(Box::new(inner))
    }

    /// A binary predicate over two expressions.
    pub fn binary(op: BinaryOperator, l: Expression, r: Expression) -> (p: Predicate)
        ensures
            p@ == PredicateV::Binary(op, l@, r@),
    {
        Predicate::Binary(op, l, r)
    }

    pub fn eq(l: Expression, r: Expression) -> (p: Predicate)
        ensures
            p@ == PredicateV::Binary(BinaryOperator::Equal, l@, r@),
    {
        Predicate::Binary(BinaryOperator::Equal, l, r)
    }

    pub fn ne(l: Expression, r: Expression) -> (p: Predicate)
        ensures
            p@ == PredicateV::Binary(BinaryOperator::NotEqual, l@, r@),
    {
        Predicate::Binary(BinaryOperator::NotEqual, l, r)
    }

    pub fn lt(l: Expression, r: Expression) -> (p: Predicate)
        ensures
            p@ == PredicateV::Binary(BinaryOperator::LessThan, l@, r@),
    {
        Predicate::Binary(BinaryOperator::LessThan, l, r)
    }

    pub fn le(l: Expression, r: Expression) -> (p: Predicate)
        ensures
            p@ == PredicateV::Binary(BinaryOperator::LessThanOrEqual, l@, r@),
    {
        Predicate::Binary(BinaryOperator::LessThanOrEqual, l, r)
    }

    pub fn gt(l: Expression, r: Expression) -> (p: Predicate)
        ensures
            p@ == PredicateV::Binary(BinaryOperator::GreaterThan, l@, r@),
    {
        Predicate::Binary(BinaryOperator::GreaterThan, l, r)
    }

    pub fn ge(l: Expression, r: Expression) -> (p: Predicate)
        ensures
            p@ == PredicateV::Binary(BinaryOperator::GreaterThanOrEqual, l@, r@),
    {
        Predicate::Binary(BinaryOperator::GreaterThanOrEqual, l, r)
    }

    pub fn distinct(l: Expression, r: Expression) -> (p: Predicate)
        ensures
            p@ == PredicateV::Binary(BinaryOperator::Distinct, l@, r@),
    {
        Predicate::Binary(BinaryOperator::Distinct, l, r)
    }

    /// The conjunction of two predicates.
    pub fn and(a: Predicate, b: Predicate) -> (p: Predicate)
        ensures
            p@ matches PredicateV::Junction(op, children) && op == JunctionOperator::And
                && children.len() == 2 && children[0] == a@ && children[1] == b@,
    {
        let children: Vec<Predicate> = vec![a, b];
        proof {
            lemma_preds_view(children@);
        }
        Predicate::Junction(JunctionOperator::And, children)
    }

    /// The disjunction of two predicates.
    pub fn or(a: Predicate, b: Predicate) -> (p: Predicate)
        ensures
            p@ matches PredicateV::Junction(op, children) && op == JunctionOperator::Or
                && children.len() == 2 && children[0] == a@ && children[1] == b@,
    {
        let children: Vec<Predicate> = vec![a, b];
        proof {
            lemma_preds_view(children@);
        }
        Predicate::Junction(JunctionOperator::Or, children)
    }

    /// The conjunction of a list of predicates.
    pub fn and_from(children: Vec<Predicate>) -> (p: Predicate)
        ensures
            p@ == PredicateV::Junction(JunctionOperator::And, preds_view(children@)),
    {
        Predicate::Junction(JunctionOperator::And, children)
    }

    /// The disjunction of a list of predicates.
    pub fn or_from(children: Vec<Predicate>) -> (p: Predicate)
        ensures
            p@ == PredicateV::Junction(JunctionOperator::Or, preds_view(children@)),
    {
        Predicate::Junction(JunctionOperator::Or, children)
    }
}

/// Deep copy of an expression, with the same view.
pub fn clone_expression(e: &Expression) -> (r: Expression)
    ensures
        r@ == e@,
    decreases *e,
{
    match e {
        Expression::Literal(s) => Expression::Literal(clone_scalar(s)),
        Expression::Column(c) => Expression::Column(c.clone()),
        Expression::Struct(children) => {
            proof {
                lemma_exprs_view(children@);
            }
            let mut out: Vec<Expression> = Vec::new();
            let n = children.len();
            for i in 0..n
                invariant
                    n == children@.len(),
                    *e matches Expression::Struct(cs) && cs == *children,
                    out@.len() == i,
                    forall|j: int|
                        #![trigger out@[j]]
                        0 <= j < i ==> out@[j]@ == children@[j]@,
            {
                assert(decreases_to!(*e => children@[i as int]));
                out.push(clone_expression(&children[i]));
            }
            proof {
                lemma_exprs_view(out@);
                assert forall|j: int| 0 <= j < children@.len() implies exprs_view(out@)[j]
                    == exprs_view(children@)[j] by {
                    assert(out@[j]@ == children@[j]@);
                }
                assert(exprs_view(out@) =~= exprs_view(children@));
            }
            Expression::Struct(out)
        },
        Expression::Binary(op, l, r) => Expression::Binary(
            *op,
            Box::new(clone_expression(l)),
            Box::new(clone_expression(r)),
        ),
    }
}

/// Deep copy of a predicate, with the same view.
pub fn clone_predicate(p: &Predicate) -> (r: Predicate)
    ensures
        r@ == p@,
    decreases *p,
{
    match p {
        Predicate::BoolExpr(e) => Predicate::BoolExpr(clone_expression(e)),
        Predicate::IsNull(e) => Predicate::IsNull(clone_expression(e)),
        Predicate::Not(q) => Predicate::Not(Box::new(clone_predicate(q))),
        Predicate::Binary(op, l, r) => Predicate::Binary(
            *op,
            clone_expression(l),
            clone_expression(r),
        ),
        Predicate::Junction(op, children) => {
            proof {
                lemma_preds_view(children@);
            }
            let mut out: Vec<Predicate> = Vec::new();
            let n = children.len();
            for i in 0..n
                invariant
                    n == children@.len(),
                    *p matches Predicate::Junction(o2, cs) && cs == *children,
                    out@.len() == i,
                    forall|j: int|
                        #![trigger out@[j]]
                        0 <= j < i ==> out@[j]@ == children@[j]@,
            {
                assert(decreases_to!(*p => children@[i as int]));
                out.push(clone_predicate(&children[i]));
            }
            proof {
                lemma_preds_view(out@);
                assert forall|j: int| 0 <= j < children@.len() implies preds_view(out@)[j]
                    == preds_view(children@)[j] by {
                    assert(out@[j]@ == children@[j]@);
                }
                assert(preds_view(out@) =~= preds_view(children@));
            }
            Predicate::Junction(*op, out)
        },
    }
}

impl Clone for Expression {
    fn clone(&self) -> (r: Self)
        ensures
            r@ == self@,
    {
        clone_expression(self)
    }
}

impl Clone for Predicate {
    fn clone(&self) -> (r: Self)
        ensures
            r@ == self@,
    {
        clone_predicate(self)
    }
}

} // verus!
