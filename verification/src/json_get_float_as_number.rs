//! The rewrite of `CAST(json_get(..) AS <float or decimal>)` into a plain call of
//! `json_get_float`, which gives the number itself.
use vstd::prelude::*;
use crate::json_get_float::{Expr, is_json_get_float_cast, cast_call_args, json_get_float_cast, take_call_args};

verus! {

/// Rewrites `CAST(json_get(args) AS t)` into `json_get_float(args)` for float and decimal
/// types `t`.
#[derive(Debug)]
pub struct JsonGetFloatRewriter {}

impl JsonGetFloatRewriter {
    /// The rewriter.
    pub fn new() -> (r: JsonGetFloatRewriter) {
        JsonGetFloatRewriter {}
    }

    /// The rule's name.
    pub fn name(&self) -> (r: &'static str)
        ensures
            r@ == "JsonGetFloatRewriter"@,
    {
        "JsonGetFloatRewriter"
    }

    /// The rewritten expression, and whether it was rewritten: a cast of a `json_get` call
    /// to a float or decimal type becomes a call of `json_get_float` on the same arguments,
    /// without the cast; any other expression is left as it is.
    pub fn rewrite(&self, expr: Expr) -> (r: (Expr, bool))
        ensures
            is_json_get_float_cast(expr) ==> r.1,
            is_json_get_float_cast(expr) ==> (r.0 matches Expr::ScalarFunction(name, args) && name@
                == "json_get_float"@ && args == cast_call_args(expr)),
            !is_json_get_float_cast(expr) ==> r == (expr, false),
    {
        if !json_get_float_cast(&expr) {
            return (expr, false);
        }
        match expr {
            Expr::Cast(inner, _) => {
                let args = take_call_args(*inner);
                proof {
                    reveal_strlit("json_get_float");
                }
                (Expr::ScalarFunction("json_get_float".to_string(), args), true)
            },
            _ => (expr, false),
        }
    }
}

impl Default for JsonGetFloatRewriter {
    fn default() -> (r: Self) {
        JsonGetFloatRewriter::new()
    }
}

} // verus!
