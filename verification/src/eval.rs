use vstd::prelude::*;

verus! {

use crate::ast::{CmpOp, Expr, row_v};
use crate::catalog::{ColumnDef, ColumnDefV, col_idx, cols_v, find_column, lemma_col_idx_props};
use crate::error::EngineError;
use crate::value::{
    Value, ValueOrder, ValueV, clone_value, compare, compare_s, res_v,
};

/// Whether an order satisfies a comparison operator.
pub open spec fn op_holds(op: CmpOp, ord: ValueOrder) -> bool {
    match op {
        CmpOp::Eq => ord == ValueOrder::Equal,
        CmpOp::Ne => ord != ValueOrder::Equal,
        CmpOp::Lt => ord == ValueOrder::Less,
        CmpOp::Le => ord != ValueOrder::Greater,
        CmpOp::Gt => ord == ValueOrder::Greater,
        CmpOp::Ge => ord != ValueOrder::Less,
    }
}

/// What evaluating an expression against one row yields. A column
/// reference reads the cell under the first column of that name, and an
/// unknown name is an error; a comparison of a null with anything is
/// false, and of two values of different variants a type mismatch; the
/// boolean combinators demand boolean operands. Of two failing operands
/// the left one's error is reported.
pub open spec fn eval_s(e: Expr, cols: Seq<ColumnDefV>, row: Seq<ValueV>) -> Result<
    ValueV,
    EngineError,
>
    decreases e,
{
    match e {
        Expr::Column(name) => {
            let j = col_idx(cols, name@);
            if j == -1 {
                Err(EngineError::ColumnNotFound)
            } else {
                Ok(row[j])
            }
        },
        Expr::Literal(v) => Ok(v@),
        Expr::Cmp(op, a, b) => match (eval_s(*a, cols, row), eval_s(*b, cols, row)) {
            (Err(e1), _) => Err(e1),
            (_, Err(e2)) => Err(e2),
            (Ok(x), Ok(y)) => if x is Null || y is Null {
                Ok(ValueV::Bool(false))
            } else {
                match compare_s(x, y) {
                    Err(er) => Err(er),
                    Ok(ord) => Ok(ValueV::Bool(op_holds(op, ord))),
                }
            },
        },
        Expr::And(a, b) => match (eval_s(*a, cols, row), eval_s(*b, cols, row)) {
            (Err(e1), _) => Err(e1),
            (_, Err(e2)) => Err(e2),
            (Ok(ValueV::Bool(x)), Ok(ValueV::Bool(y))) => Ok(ValueV::Bool(x && y)),
            _ => Err(EngineError::TypeMismatch),
        },
        Expr::Or(a, b) => match (eval_s(*a, cols, row), eval_s(*b, cols, row)) {
            (Err(e1), _) => Err(e1),
            (_, Err(e2)) => Err(e2),
            (Ok(ValueV::Bool(x)), Ok(ValueV::Bool(y))) => Ok(ValueV::Bool(x || y)),
            _ => Err(EngineError::TypeMismatch),
        },
        Expr::Not(a) => match eval_s(*a, cols, row) {
            Err(e1) => Err(e1),
            Ok(ValueV::Bool(x)) => Ok(ValueV::Bool(!x)),
            _ => Err(EngineError::TypeMismatch),
        },
    }
}

/// Evaluates an expression against one row. Pure: it reads the row and the
/// column layout and touches nothing else.
pub fn evaluate(e: &Expr, cols: &Vec<ColumnDef>, row: &Vec<Value>) -> (r: Result<
    Value,
    EngineError,
>)
    requires
        row@.len() == cols@.len(),
    ensures
        res_v(r) == eval_s(*e, cols_v(cols@), row_v(row@)),
    decreases *e,
{
    match e {
        Expr::Column(name) => match find_column(cols, name) {
            None => Err(EngineError::ColumnNotFound),
            Some(j) => {
                proof {
                    lemma_col_idx_props(cols_v(cols@), name@);
                }
                Ok(clone_value(&row[j]))
            },
        },
        Expr::Literal(v) => Ok(clone_value(v)),
        Expr::Cmp(op, a, b) => {
            let x = match evaluate(a, cols, row) {
                Ok(x) => x,
                Err(e1) => {
                    return Err(e1);
                },
            };
            let y = match evaluate(b, cols, row) {
                Ok(y) => y,
                Err(e2) => {
                    return Err(e2);
                },
            };
            if matches!(x, Value::Null) || matches!(y, Value::Null) {
                return Ok(Value::Bool(false));
            }
            match compare(&x, &y) {
                Err(er) => Err(er),
                Ok(ord) => {
                    let b = match op {
                        CmpOp::Eq => ord == ValueOrder::Equal,
                        CmpOp::Ne => ord != ValueOrder::Equal,
                        CmpOp::Lt => ord == ValueOrder::Less,
                        CmpOp::Le => ord != ValueOrder::Greater,
                        CmpOp::Gt => ord == ValueOrder::Greater,
                        CmpOp::Ge => ord != ValueOrder::Less,
                    };
                    Ok(Value::Bool(b))
                },
            }
        },
        Expr::And(a, b) => {
            let x = match evaluate(a, cols, row) {
                Ok(x) => x,
                Err(e1) => {
                    return Err(e1);
                },
            };
            let y = match evaluate(b, cols, row) {
                Ok(y) => y,
                Err(e2) => {
                    return Err(e2);
                },
            };
            match (x, y) {
                (Value::Bool(p), Value::Bool(q)) => Ok(Value::Bool(p && q)),
                _ => Err(EngineError::TypeMismatch),
            }
        },
        Expr::Or(a, b) => {
            let x = match evaluate(a, cols, row) {
                Ok(x) => x,
                Err(e1) => {
                    return Err(e1);
                },
            };
            let y = match evaluate(b, cols, row) {
                Ok(y) => y,
                Err(e2) => {
                    return Err(e2);
                },
            };
            match (x, y) {
                (Value::Bool(p), Value::Bool(q)) => Ok(Value::Bool(p || q)),
                _ => Err(EngineError::TypeMismatch),
            }
        },
        Expr::Not(a) => {
            let x = match evaluate(a, cols, row) {
                Ok(x) => x,
                Err(e1) => {
                    return Err(e1);
                },
            };
            match x {
                Value::Bool(p) => Ok(Value::Bool(!p)),
                _ => Err(EngineError::TypeMismatch),
            }
        },
    }
}

} // verus!
