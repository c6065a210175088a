//! The rewrite of `CAST(json_get(..) AS <float or decimal>)` into a call of a function
//! that reads the JSON value as a float, kept under the cast.
use vstd::prelude::*;
use crate::types::DataType;
use crate::text::str_eq;

verus! {

/// A logical expression, as far as the JSON rewrites read it.
#[derive(Debug)]
pub enum Expr {
    /// A cast of an expression to a type.
    Cast(Box<Expr>, DataType),
    /// A call of a scalar function, by its name, with its arguments.
    ScalarFunction(String, Vec<Expr>),
    /// An expression under another name.
    Alias(Box<Expr>, String),
    /// A column by name.
    Column(String),
    /// Any other expression.
    Other,
}

/// The function call an expression is, looking through aliases.
pub open spec fn scalar_under_alias(e: Expr) -> Option<(String, Vec<Expr>)>
    decreases e,
{
    match e {
        Expr::ScalarFunction(name, args) => Some((name, args)),
        Expr::Alias(inner, _) => scalar_under_alias(*inner),
        _ => None,
    }
}

/// A float or decimal type, which `json_get` results are read as floats for.
pub open spec fn is_float_or_decimal(t: DataType) -> bool {
    match t {
        DataType::Float64 | DataType::Float32 | DataType::Decimal128(_, _) | DataType::Decimal256(
            _,
            _,
        ) => true,
        _ => false,
    }
}

/// Whether an expression casts a `json_get` call (seen through aliases) to a float or
/// decimal type.
pub open spec fn is_json_get_float_cast(e: Expr) -> bool {
    match e {
        Expr::Cast(inner, t) => is_float_or_decimal(t) && match scalar_under_alias(*inner) {
            Some((name, _)) => name@ == "json_get"@,
            None => false,
        },
        _ => false,
    }
}

/// The type an expression is cast to.
pub open spec fn cast_type(e: Expr) -> DataType {
    match e {
        Expr::Cast(_, t) => t,
        _ => DataType::Null,
    }
}

/// The arguments of the function call under a cast.
pub open spec fn cast_call_args(e: Expr) -> Vec<Expr> {
    match e {
        Expr::Cast(inner, _) => scalar_under_alias(*inner).unwrap().1,
        _ => arbitrary(),
    }
}

/// Whether an expression is a `json_get` call, looking through aliases.
pub fn is_json_get_call(e: &Expr) -> (r: bool)
    ensures
        r == (scalar_under_alias(*e) matches Some((name, _)) && name@ == "json_get"@),
    decreases e,
{
    match e {
        Expr::ScalarFunction(name, _) => str_eq(name.as_str(), "json_get"),
        Expr::Alias(inner, _) => is_json_get_call(inner),
        _ => false,
    }
}

/// Takes the arguments of the function call an expression is, looking through aliases.
pub fn take_call_args(e: Expr) -> (r: Vec<Expr>)
    requires
        scalar_under_alias(e) is Some,
    ensures
        scalar_under_alias(e) matches Some((_, args)) && r == args,
    decreases e,
{
    match e {
        Expr::ScalarFunction(_, args) => args,
        Expr::Alias(inner, _) => take_call_args(*inner),
        _ => Vec::new(),
    }
}

/// Whether a type is a float or decimal type.
pub fn float_or_decimal(t: &DataType) -> (r: bool)
    ensures
        r == is_float_or_decimal(*t),
{
    match t {
        DataType::Float64 | DataType::Float32 | DataType::Decimal128(_, _) | DataType::Decimal256(_, _) => true,
        _ => false,
    }
}

/// Whether an expression casts a `json_get` call to a float or decimal type.
pub fn json_get_float_cast(e: &Expr) -> (r: bool)
    ensures
        r == is_json_get_float_cast(*e),
{
    proof {
        reveal_strlit("json_get");
    }
    match e {
        Expr::Cast(inner, t) => float_or_decimal(t) && is_json_get_call(inner),
        _ => false,
    }
}

/// Rewrites `CAST(json_get(args) AS t)` into `CAST(f(args) AS t)`, where `f` reads JSON
/// values as floats, for float and decimal types `t`.
#[derive(Debug)]
pub struct JsonGetFloatRewriter {
    json_get_float_func: String,
}

impl JsonGetFloatRewriter {
    /// The function the rewrite calls.
    pub closed spec fn func(&self) -> String {
        self.json_get_float_func
    }

    /// A rewriter calling the given function, by its name.
    pub fn new(json_get_float_func: String) -> (r: JsonGetFloatRewriter)
        ensures
            r.func() == json_get_float_func,
    {
        JsonGetFloatRewriter { json_get_float_func }
    }

    /// The rule's name.
    pub fn name(&self) -> (r: &'static str)
        ensures
            r@ == "JsonGetFloatRewriter"@,
    {
        "JsonGetFloatRewriter"
    }

    /// The rewritten expression, and whether it was rewritten: a cast of a `json_get` call
    /// to a float or decimal type becomes the same cast of a call of the rewriter's function
    /// on the same arguments; any other expression is left as it is.
    pub fn rewrite(&self, expr: Expr) -> (r: (Expr, bool))
        ensures
            is_json_get_float_cast(expr) ==> r == (
                Expr::Cast(
                    Box::new(Expr::ScalarFunction(self.func(), cast_call_args(expr))),
                    cast_type(expr),
                ),
                true,
            ),
            !is_json_get_float_cast(expr) ==> r == (expr, false),
    {
        if !json_get_float_cast(&expr) {
            return (expr, false);
        }
        match expr {
            Expr::Cast(inner, t) => {
                let args = take_call_args(*inner);
                let f = self.json_get_float_func.clone();
                (Expr::Cast(Box::new(Expr::ScalarFunction(f, args)), t), true)
            },
            _ => (expr, false),
        }
    }
}

} // verus!
