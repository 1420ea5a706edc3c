use vstd::prelude::*;
use crate::ast::{Expr, Stmt};
use crate::env::{Frame, lookup};
use crate::object::{BuiltinKind, Value, inspect_text};
use crate::text::nat_text;
use crate::token::{TokenKind, kind_text};

verus! {

/// What evaluation acts on: every scope made so far, and the lines printed.
pub struct State {
    pub frames: Seq<Frame>,
    pub out: Seq<Seq<char>>,
}

/// Control-flow signals: a `return` on its way out of the enclosing function,
/// an error, or an exit request. They stop whatever is being evaluated and
/// are never bound to a name or used as an operand.
pub open spec fn is_signal(v: Value) -> bool {
    v is Ret || v is Error || v is Exit
}

/// `Null` and `false` are falsy; every other value is truthy.
pub open spec fn truthy(v: Value) -> bool {
    match v {
        Value::Null => false,
        Value::Bool(b) => b,
        _ => true,
    }
}

pub open spec fn error_of(msg: Seq<char>) -> Value {
    Value::Error(msg)
}

pub open spec fn depth_error() -> Value {
    error_of("Maximum recursion depth exceeded"@)
}

pub open spec fn overflow_error() -> Value {
    error_of("Integer overflow"@)
}

pub open spec fn unwrap_return(v: Value) -> Value {
    match v {
        Value::Ret(inner) => *inner,
        _ => v,
    }
}

/// Binds `name` to `v` in scope `k` itself (a scope that does not exist is left alone).
pub open spec fn set_var(st: State, k: nat, name: Seq<char>, v: Value) -> State {
    if k < st.frames.len() {
        State {
            frames: st.frames.update(
                k as int,
                Frame {
                    vars: st.frames[k as int].vars.insert(name, v),
                    outer: st.frames[k as int].outer,
                },
            ),
            out: st.out,
        }
    } else {
        st
    }
}

pub open spec fn int_step(op_name: Seq<char>, op: TokenKind, v: Value) -> Value {
    match v {
        Value::Int(n) => {
            let r = if op == TokenKind::Inc {
                n.checked_add(1)
            } else if op == TokenKind::Dec {
                n.checked_sub(1)
            } else {
                0i64.checked_sub(n)
            };
            match r {
                Some(m) => Value::Int(m),
                None => overflow_error(),
            }
        },
        _ => error_of(
            "Invalid uses of "@ + op_name + " operator: "@ + kind_text(op) + " can't applied to "@
                + inspect_text(v),
        ),
    }
}

/// The result of a prefix operator on an evaluated operand.
pub open spec fn prefix_op(op: TokenKind, v: Value) -> Value {
    match op {
        TokenKind::Bang => match v {
            Value::Bool(b) => Value::Bool(!b),
            Value::Null => Value::Bool(true),
            _ => Value::Bool(false),
        },
        TokenKind::Minus | TokenKind::Inc | TokenKind::Dec => int_step("prefix"@, op, v),
        _ => error_of("Unknown prefix operator: "@ + kind_text(op)),
    }
}

/// The result of a postfix operator on an evaluated operand.
pub open spec fn postfix_op(op: TokenKind, v: Value) -> Value {
    match op {
        TokenKind::Inc | TokenKind::Dec => int_step("postfix"@, op, v),
        _ => error_of("Unknown postfix operator: "@ + kind_text(op)),
    }
}

pub open spec fn invalid_infix(op: TokenKind, l: Value, r: Value) -> Value {
    error_of(
        "Invalid uses of infix operator: "@ + kind_text(op) + " can't applied to "@ + inspect_text(l)
            + " and "@ + inspect_text(r),
    )
}

pub open spec fn checked(r: Option<i64>) -> Value {
    match r {
        Some(n) => Value::Int(n),
        None => overflow_error(),
    }
}

/// The result of a binary operator, dispatched on the pair of operand types.
/// Integer division truncates toward zero; a result outside the 64-bit range
/// and division by zero are errors.
pub open spec fn infix_op(op: TokenKind, l: Value, r: Value) -> Value {
    match (l, r) {
        (Value::Int(a), Value::Int(b)) => match op {
            TokenKind::Plus => checked(a.checked_add(b)),
            TokenKind::Minus => checked(a.checked_sub(b)),
            TokenKind::Asterisk => checked(a.checked_mul(b)),
            TokenKind::Slash => if b == 0 {
                error_of("Division by zero"@)
            } else {
                checked(a.checked_div(b))
            },
            TokenKind::LT => Value::Bool(a < b),
            TokenKind::GT => Value::Bool(a > b),
            _ => invalid_infix(op, l, r),
        },
        (Value::Bool(a), Value::Bool(b)) => match op {
            TokenKind::Eq => Value::Bool(a == b),
            TokenKind::NotEq => Value::Bool(a != b),
            _ => invalid_infix(op, l, r),
        },
        (Value::Str(a), Value::Str(b)) => match op {
            TokenKind::Plus => Value::Str(a + b),
            TokenKind::Eq => Value::Bool(a == b),
            TokenKind::NotEq => Value::Bool(a != b),
            _ => invalid_infix(op, l, r),
        },
        _ => error_of(
            "You can't use "@ + inspect_text(l) + " or "@ + inspect_text(r) + " as operand"@,
        ),
    }
}

/// The result of `exit` on its evaluated arguments.
pub open spec fn exit_result(vals: Seq<Value>) -> Value {
    if vals.len() != 1 {
        error_of("Number of argument is not 1"@)
    } else {
        match vals[0] {
            Value::Int(n) => if i32::MIN <= n <= i32::MAX {
                Value::Exit(n as i32)
            } else {
                error_of("out of range integral type conversion attempted"@)
            },
            _ => error_of("This object is not int"@),
        }
    }
}

/// A built-in applied to its evaluated arguments: `puts` prints the display
/// form of each argument on a line of its own and yields `Null`.
pub open spec fn apply_builtin(st: State, k: BuiltinKind, vals: Seq<Value>) -> (State, Value) {
    match k {
        BuiltinKind::Print => (
            State { frames: st.frames, out: st.out + vals.map_values(|v: Value| inspect_text(v)) },
            Value::Null,
        ),
        BuiltinKind::Exit => (st, exit_result(vals)),
    }
}

/// The scope of a call: the first `n` parameters bound, in order, to the
/// argument values.
pub open spec fn bind_params(names: Seq<Seq<char>>, vals: Seq<Value>, n: nat) -> Map<
    Seq<char>,
    Value,
>
    decreases n,
{
    if n == 0 {
        Map::empty()
    } else {
        bind_params(names, vals, (n - 1) as nat).insert(names[n - 1], vals[n - 1])
    }
}

pub open spec fn min_len(a: nat, b: nat) -> nat {
    if a < b {
        a
    } else {
        b
    }
}

pub open spec fn arg_count_message(expected: nat, got: nat) -> Seq<char> {
    "Number of argument is less than or greater than: expect "@ + nat_text(expected) + ", got "@
        + nat_text(got)
}

pub open spec fn arg_count_error(expected: nat, got: nat) -> Value {
    error_of(arg_count_message(expected, got))
}

/// Statements `ss[i..]` run in scope `cur`, `prev` being the result so far.
/// A `return`, an error or an exit request stops the sequence and is its result.
pub open spec fn eval_block(st: State, cur: nat, ss: Seq<Stmt>, i: int, prev: Value, d: nat) -> (
    State,
    Value,
)
    decreases d, ss.len() - i,
{
    if i < 0 || i >= ss.len() {
        (st, prev)
    } else {
        let (st1, r) = eval_stmt(st, cur, ss[i], d);
        if is_signal(r) {
            (st1, r)
        } else {
            eval_block(st1, cur, ss, i + 1, r, d)
        }
    }
}

/// One statement run in scope `cur`; `d` bounds the depth of nested evaluation.
/// A `let` or `return` of a signal passes it on: nothing is bound and
/// nothing is wrapped.
pub open spec fn eval_stmt(st: State, cur: nat, s: Stmt, d: nat) -> (State, Value)
    decreases d, 0int,
{
    if d == 0 {
        (st, depth_error())
    } else {
        match s {
            Stmt::Exp(e) => eval_expr(st, cur, e, (d - 1) as nat),
            Stmt::Let(name, e) => {
                let (st1, v) = eval_expr(st, cur, e, (d - 1) as nat);
                if is_signal(v) {
                    (st1, v)
                } else {
                    (set_var(st1, cur, name, v), v)
                }
            },
            Stmt::Ret(e) => {
                let (st1, v) = eval_expr(st, cur, e, (d - 1) as nat);
                if is_signal(v) {
                    (st1, v)
                } else {
                    (st1, Value::Ret(Box::new(v)))
                }
            },
            Stmt::Blk(ss) => eval_block(st, cur, ss, 0, Value::Null, (d - 1) as nat),
        }
    }
}

/// One expression evaluated in scope `cur`. Infix operands are evaluated
/// right first, then left.
pub open spec fn eval_expr(st: State, cur: nat, e: Expr, d: nat) -> (State, Value)
    decreases d, 0int,
{
    if d == 0 {
        (st, depth_error())
    } else {
        let d1 = (d - 1) as nat;
        match e {
            Expr::Ident(name) => match lookup(st.frames, cur, name) {
                Some(v) => (st, v),
                None => (st, error_of("Identifier not found: "@ + name)),
            },
            Expr::Int(n) => (st, Value::Int(n)),
            Expr::Bool(b) => (st, Value::Bool(b)),
            Expr::Str(s) => (st, Value::Str(s)),
            Expr::Prefix(op, rhs) => {
                let (st1, v) = eval_expr(st, cur, *rhs, d1);
                if is_signal(v) {
                    (st1, v)
                } else {
                    (st1, prefix_op(op, v))
                }
            },
            Expr::Infix(op, lhs, rhs) => {
                let (st1, rv) = eval_expr(st, cur, *rhs, d1);
                if is_signal(rv) {
                    (st1, rv)
                } else {
                    let (st2, lv) = eval_expr(st1, cur, *lhs, d1);
                    if is_signal(lv) {
                        (st2, lv)
                    } else {
                        (st2, infix_op(op, lv, rv))
                    }
                }
            },
            Expr::Postfix(op, lhs) => {
                let (st1, v) = eval_expr(st, cur, *lhs, d1);
                if is_signal(v) {
                    (st1, v)
                } else {
                    (st1, postfix_op(op, v))
                }
            },
            Expr::If(cond, cons, alt) => {
                let (st1, c) = eval_expr(st, cur, *cond, d1);
                if is_signal(c) {
                    (st1, c)
                } else if truthy(c) {
                    eval_block(st1, cur, cons, 0, Value::Null, d1)
                } else {
                    match alt {
                        Some(a) => eval_block(st1, cur, a, 0, Value::Null, d1),
                        None => (st1, error_of("No else found"@)),
                    }
                }
            },
            Expr::Func(params, body) => (st, Value::Func(params, body, cur)),
            Expr::Call(callee, args) => eval_call(st, cur, *callee, args, d1),
        }
    }
}

/// Arguments `args[i..]` evaluated in order in scope `cur` and appended to
/// `acc`; a signal ends the list.
pub open spec fn eval_args(st: State, cur: nat, args: Seq<Expr>, i: int, acc: Seq<Value>, d: nat) -> (
    State,
    Seq<Value>,
)
    decreases d, args.len() - i,
{
    if i < 0 || i >= args.len() {
        (st, acc)
    } else {
        let (st1, v) = eval_expr(st, cur, args[i], d);
        if is_signal(v) {
            (st1, acc.push(v))
        } else {
            eval_args(st1, cur, args, i + 1, acc.push(v), d)
        }
    }
}

/// Whether a list of evaluated arguments ended with a signal.
pub open spec fn ends_in_signal(vals: Seq<Value>) -> bool {
    vals.len() > 0 && is_signal(vals.last())
}

/// A call: the callee is evaluated, then the arguments in the caller's scope;
/// a signal among them is the call's result and nothing is called. A function's body runs in a new scope enclosed by the function's own.
pub open spec fn eval_call(st: State, cur: nat, callee: Expr, args: Seq<Expr>, d: nat) -> (
    State,
    Value,
)
    decreases d, 0int,
{
    if d == 0 {
        (st, depth_error())
    } else {
        let d1 = (d - 1) as nat;
        let (st1, f) = eval_expr(st, cur, callee, d1);
        match f {
            Value::Builtin(k) => {
                let (st2, vals) = eval_args(st1, cur, args, 0, Seq::empty(), d1);
                if ends_in_signal(vals) {
                    (st2, vals.last())
                } else {
                    apply_builtin(st2, k, vals)
                }
            },
            Value::Func(params, body, fenv) => {
                if args.len() != params.len() {
                    (st1, arg_count_error(params.len(), args.len()))
                } else if fenv >= st1.frames.len() {
                    (st1, error_of("Function environment not found"@))
                } else {
                    let (st2, vals) = eval_args(st1, cur, args, 0, Seq::empty(), d1);
                    if ends_in_signal(vals) {
                        (st2, vals.last())
                    } else {
                        let frame = Frame {
                            vars: bind_params(params, vals, min_len(params.len(), vals.len())),
                            outer: Some(fenv),
                        };
                        let st3 = State { frames: st2.frames.push(frame), out: st2.out };
                        let (st4, r) = eval_block(
                            st3,
                            st2.frames.len(),
                            body,
                            0,
                            Value::Null,
                            d1,
                        );
                        (st4, unwrap_return(r))
                    }
                }
            },
            _ => if is_signal(f) {
                (st1, f)
            } else {
                (st1, error_of(inspect_text(f) + " is not a function"@))
            },
        }
    }
}

/// A whole program run in scope `cur`: a final `return` is unwrapped to its value.
pub open spec fn eval_program(st: State, cur: nat, ss: Seq<Stmt>, d: nat) -> (State, Value) {
    let (st1, r) = eval_block(st, cur, ss, 0, Value::Null, d);
    (st1, unwrap_return(r))
}

} // verus!
