use vstd::prelude::*;
use crate::ast::{Expr, Stmt};
use crate::env::{Frame, lookup};
use crate::grammar::{
    PriorityOrder, parse_from, parse_program, parse_expression, parse_operators, parse_primary,
    rank, order_of, is_binary,
};
use crate::number::parse_i64;
use crate::token::{Token, TokenKind};
use crate::object::{BuiltinKind, Value};
use crate::semantics::{
    State, is_signal, truthy, error_of, eval_block, eval_stmt, eval_expr, eval_args,
    eval_call, eval_program, apply_builtin, set_var, bind_params, min_len, unwrap_return,
    ends_in_signal, prefix_op, postfix_op, infix_op, exit_result,
};

verus! {

/// Scopes below `n` are the same in `a` and `b`, and `b` has at least as many scopes.
pub open spec fn keeps_below(a: State, b: State, n: nat) -> bool {
    &&& b.frames.len() >= a.frames.len()
    &&& forall|i: int| 0 <= i < n ==> #[trigger] b.frames[i] == a.frames[i]
}

proof fn lemma_block_keeps(st: State, cur: nat, ss: Seq<Stmt>, i: int, prev: Value, d: nat, n: nat)
    requires
        n <= cur,
        n <= st.frames.len(),
    ensures
        keeps_below(st, eval_block(st, cur, ss, i, prev, d).0, n),
    decreases d, ss.len() - i,
{
    if 0 <= i < ss.len() {
        let (st1, r) = eval_stmt(st, cur, ss[i], d);
        lemma_stmt_keeps(st, cur, ss[i], d, n);
        if !(r is Ret || r is Error || r is Exit) {
            lemma_block_keeps(st1, cur, ss, i + 1, r, d, n);
        }
    }
}

proof fn lemma_stmt_keeps(st: State, cur: nat, s: Stmt, d: nat, n: nat)
    requires
        n <= cur,
        n <= st.frames.len(),
    ensures
        keeps_below(st, eval_stmt(st, cur, s, d).0, n),
    decreases d, 0int,
{
    if d > 0 {
        let d1 = (d - 1) as nat;
        match s {
            Stmt::Exp(e) => lemma_expr_keeps(st, cur, e, d1, n),
            Stmt::Let(name, e) => {
                let (st1, v) = eval_expr(st, cur, e, d1);
                lemma_expr_keeps(st, cur, e, d1, n);
                let st2 = set_var(st1, cur, name, v);
                assert forall|i: int| 0 <= i < n implies #[trigger] st2.frames[i]
                    == st.frames[i] by {
                    assert(st2.frames[i] == st1.frames[i]);
                }
            },
            Stmt::Ret(e) => lemma_expr_keeps(st, cur, e, d1, n),
            Stmt::Blk(ss) => lemma_block_keeps(st, cur, ss, 0, Value::Null, d1, n),
        }
    }
}

proof fn lemma_expr_keeps(st: State, cur: nat, e: Expr, d: nat, n: nat)
    requires
        n <= cur,
        n <= st.frames.len(),
    ensures
        keeps_below(st, eval_expr(st, cur, e, d).0, n),
    decreases d, 0int,
{
    if d > 0 {
        let d1 = (d - 1) as nat;
        match e {
            Expr::Prefix(op, rhs) => lemma_expr_keeps(st, cur, *rhs, d1, n),
            Expr::Postfix(op, lhs) => lemma_expr_keeps(st, cur, *lhs, d1, n),
            Expr::Infix(op, lhs, rhs) => {
                let (st1, rv) = eval_expr(st, cur, *rhs, d1);
                lemma_expr_keeps(st, cur, *rhs, d1, n);
                if !is_signal(rv) {
                    lemma_expr_keeps(st1, cur, *lhs, d1, n);
                }
            },
            Expr::If(cond, cons, alt) => {
                let (st1, c) = eval_expr(st, cur, *cond, d1);
                lemma_expr_keeps(st, cur, *cond, d1, n);
                if !is_signal(c) {
                    if truthy(c) {
                        lemma_block_keeps(st1, cur, cons, 0, Value::Null, d1, n);
                    } else {
                        match alt {
                            Some(a) => lemma_block_keeps(st1, cur, a, 0, Value::Null, d1, n),
                            None => {},
                        }
                    }
                }
            },
            Expr::Call(callee, args) => lemma_call_keeps(st, cur, *callee, args, d1, n),
            _ => {},
        }
    }
}

proof fn lemma_args_keeps(st: State, cur: nat, args: Seq<Expr>, i: int, acc: Seq<Value>, d: nat, n: nat)
    requires
        n <= cur,
        n <= st.frames.len(),
    ensures
        keeps_below(st, eval_args(st, cur, args, i, acc, d).0, n),
    decreases d, args.len() - i,
{
    if 0 <= i < args.len() {
        let (st1, v) = eval_expr(st, cur, args[i], d);
        lemma_expr_keeps(st, cur, args[i], d, n);
        if !is_signal(v) {
            lemma_args_keeps(st1, cur, args, i + 1, acc.push(v), d, n);
        }
    }
}

proof fn lemma_call_keeps(st: State, cur: nat, callee: Expr, args: Seq<Expr>, d: nat, n: nat)
    requires
        n <= cur,
        n <= st.frames.len(),
    ensures
        keeps_below(st, eval_call(st, cur, callee, args, d).0, n),
    decreases d, 0int,
{
    if d > 0 {
        let d1 = (d - 1) as nat;
        let (st1, f) = eval_expr(st, cur, callee, d1);
        lemma_expr_keeps(st, cur, callee, d1, n);
        match f {
            Value::Builtin(k) => {
                let (st2, vals) = eval_args(st1, cur, args, 0, Seq::empty(), d1);
                lemma_args_keeps(st1, cur, args, 0, Seq::empty(), d1, n);
            },
            Value::Func(params, body, fenv) => {
                if args.len() == params.len() && fenv < st1.frames.len() {
                    let (st2, vals) = eval_args(st1, cur, args, 0, Seq::empty(), d1);
                    lemma_args_keeps(st1, cur, args, 0, Seq::empty(), d1, n);
                    lemma_body_keeps(st2, body, d1, n);
                }
            },
            _ => {},
        }
    }
}

proof fn lemma_body_keeps(st: State, body: Seq<Stmt>, d: nat, n: nat)
    requires
        n <= st.frames.len(),
    ensures
        forall|frame: Frame| #![auto]
            keeps_below(
                st,
                eval_block(
                    State { frames: st.frames.push(frame), out: st.out },
                    st.frames.len(),
                    body,
                    0,
                    Value::Null,
                    d,
                ).0,
                n,
            ),
    decreases d, body.len() + 1,
{
    assert forall|frame: Frame| #![auto]
        keeps_below(
            st,
            eval_block(
                State { frames: st.frames.push(frame), out: st.out },
                st.frames.len(),
                body,
                0,
                Value::Null,
                d,
            ).0,
            n,
        ) by {
        let st3 = State { frames: st.frames.push(frame), out: st.out };
        assert(keeps_below(st, st3, n));
        lemma_block_keeps(st3, st.frames.len(), body, 0, Value::Null, d, n);
    }
}

proof fn lemma_lookup_prefix(fs1: Seq<Frame>, fs2: Seq<Frame>, k: nat, name: Seq<char>)
    requires
        k < fs1.len() <= fs2.len(),
        forall|i: int| 0 <= i < fs1.len() ==> #[trigger] fs2[i] == fs1[i],
    ensures
        lookup(fs2, k, name) == lookup(fs1, k, name),
    decreases k,
{
    assert(fs2[k as int] == fs1[k as int]);
    match fs1[k as int].outer {
        Some(o) => if o < k {
            lemma_lookup_prefix(fs1, fs2, o, name);
        },
        None => {},
    }
}

/// A function body runs in a fresh scope placed after every existing one.
/// Whatever its `let` statements bind, every scope that existed before the
/// call is unchanged after the body has run, and so is every lookup made
/// from one of them: a binding made in the body is not visible afterwards
/// and does not overwrite an outer binding of the same name.
pub proof fn lemma_call_scope_is_private(st: State, frame: Frame, body: Seq<Stmt>, d: nat)
    ensures
        ({
            let after = eval_block(
                State { frames: st.frames.push(frame), out: st.out },
                st.frames.len(),
                body,
                0,
                Value::Null,
                d,
            ).0;
            &&& after.frames.len() > st.frames.len()
            &&& forall|i: int| 0 <= i < st.frames.len() ==> #[trigger] after.frames[i] == st.frames[i]
            &&& forall|k: nat, name: Seq<char>|
                k < st.frames.len() ==> #[trigger] lookup(after.frames, k, name) == lookup(
                    st.frames,
                    k,
                    name,
                )
        }),
{
    let st3 = State { frames: st.frames.push(frame), out: st.out };
    let after = eval_block(st3, st.frames.len(), body, 0, Value::Null, d).0;
    let n = st.frames.len();
    lemma_block_keeps(st3, n, body, 0, Value::Null, d, n);
    assert forall|i: int| 0 <= i < n implies #[trigger] after.frames[i] == st.frames[i] by {
        assert(after.frames[i] == st3.frames[i]);
    }
    assert forall|k: nat, name: Seq<char>| k < n implies #[trigger] lookup(after.frames, k, name)
        == lookup(st.frames, k, name) by {
        lemma_lookup_prefix(st.frames, after.frames, k, name);
    }
}

/// Once a statement of a sequence yields an error, the sequence stops: its
/// result is that error and its state is the one right after that statement,
/// so no later statement runs.
pub proof fn lemma_error_stops_sequence(
    st: State,
    cur: nat,
    ss: Seq<Stmt>,
    i: int,
    prev: Value,
    d: nat,
)
    requires
        0 <= i < ss.len(),
        eval_stmt(st, cur, ss[i], d).1 is Error,
    ensures
        eval_block(st, cur, ss, i, prev, d) == eval_stmt(st, cur, ss[i], d),
{
}

/// An `if` without `else` whose condition is falsy (and not itself a signal)
/// yields the error "No else found".
pub proof fn lemma_if_without_else(st: State, cur: nat, cond: Expr, cons: Seq<Stmt>, d: nat)
    requires
        d > 0,
        !is_signal(eval_expr(st, cur, cond, (d - 1) as nat).1),
        !truthy(eval_expr(st, cur, cond, (d - 1) as nat).1),
    ensures
        eval_expr(st, cur, Expr::If(Box::new(cond), cons, None), d) == (
            eval_expr(st, cur, cond, (d - 1) as nat).0,
            error_of("No else found"@),
        ),
{
}

/// `exit` with any number of arguments but one yields an error and changes
/// nothing: it never requests the end of the process.
pub proof fn lemma_exit_arity(st: State, vals: Seq<Value>)
    requires
        vals.len() != 1,
    ensures
        apply_builtin(st, BuiltinKind::Exit, vals) == (st, error_of(
            "Number of argument is not 1"@,
        )),
        !(apply_builtin(st, BuiltinKind::Exit, vals).1 is Exit),
{
}

proof fn lemma_parse_from_needs_end(ts: Seq<Token>, p: int, acc: Seq<Stmt>)
    ensures
        parse_from(ts, p, acc) is Ok ==> exists|i: int|
            0 <= p <= i < ts.len() && #[trigger] ts[i].kind == TokenKind::Eof,
    decreases ts.len() - p,
{
    if 0 <= p < ts.len() && ts[p].kind != TokenKind::Eof {
        match crate::grammar::parse_statement(ts, p) {
            Ok((s, e1)) => if e1 >= p && e1 < ts.len() {
                lemma_parse_from_needs_end(ts, e1 + 1, acc.push(s));
            },
            Err(_) => {},
        }
    }
}

/// Parsing stops with success only on the end token: a token sequence
/// without one always yields a parse error.
pub proof fn lemma_parse_needs_end_token(ts: Seq<Token>)
    requires
        forall|i: int| 0 <= i < ts.len() ==> #[trigger] ts[i].kind != TokenKind::Eof,
    ensures
        parse_program(ts) is Err,
{
    lemma_parse_from_needs_end(ts, 0, Seq::empty());
}

/// The expression that an identifier token or a valid integer token stands
/// for on its own.
pub open spec fn atom(t: Token) -> Option<Expr> {
    if t.kind == TokenKind::Ident {
        Some(Expr::Ident(t.literal@))
    } else if t.kind == TokenKind::Int {
        match parse_i64(t.literal@) {
            Some(v) => Some(Expr::Int(v)),
            None => None,
        }
    } else {
        None
    }
}

/// Precedence and associativity: in `a o1 b o2 c` followed by `;` or the end
/// token, the operator that binds more tightly groups first wherever it
/// stands, and of two operators that bind equally the left one groups first.
pub proof fn lemma_binary_grouping(ts: Seq<Token>, p: int)
    requires
        0 <= p,
        p + 5 < ts.len(),
        atom(ts[p]) is Some,
        atom(ts[p + 2]) is Some,
        atom(ts[p + 4]) is Some,
        is_binary(ts[p + 1].kind),
        is_binary(ts[p + 3].kind),
        ts[p + 5].kind == TokenKind::Semicolon || ts[p + 5].kind == TokenKind::Eof,
    ensures
        ({
            let a = atom(ts[p])->0;
            let b = atom(ts[p + 2])->0;
            let c = atom(ts[p + 4])->0;
            let o1 = ts[p + 1].kind;
            let o2 = ts[p + 3].kind;
            parse_expression(ts, p, PriorityOrder::Lowest) == if rank(order_of(o1)) >= rank(
                order_of(o2),
            ) {
                Ok::<(Expr, int), crate::parse_error::ParseError>(
                    (
                        Expr::Infix(
                            o2,
                            Box::new(Expr::Infix(o1, Box::new(a), Box::new(b))),
                            Box::new(c),
                        ),
                        p + 4,
                    ),
                )
            } else {
                Ok(
                    (
                        Expr::Infix(
                            o1,
                            Box::new(a),
                            Box::new(Expr::Infix(o2, Box::new(b), Box::new(c))),
                        ),
                        p + 4,
                    ),
                )
            }
        }),
{
    let a = atom(ts[p])->0;
    let b = atom(ts[p + 2])->0;
    let c = atom(ts[p + 4])->0;
    let o1 = ts[p + 1].kind;
    let o2 = ts[p + 3].kind;
    let lowest = PriorityOrder::Lowest;
    assert(parse_primary(ts, p) == Ok::<(Expr, int), crate::parse_error::ParseError>((a, p)));
    assert(parse_primary(ts, p + 2) == Ok::<(Expr, int), crate::parse_error::ParseError>(
        (b, p + 2),
    ));
    assert(parse_primary(ts, p + 4) == Ok::<(Expr, int), crate::parse_error::ParseError>(
        (c, p + 4),
    ));
    assert(parse_operators(ts, c, p + 4, order_of(o2)) == Ok::<
        (Expr, int),
        crate::parse_error::ParseError,
    >((c, p + 4)));
    assert(parse_expression(ts, p + 4, order_of(o2)) == Ok::<
        (Expr, int),
        crate::parse_error::ParseError,
    >((c, p + 4)));
    if rank(order_of(o1)) >= rank(order_of(o2)) {
        let ab = Expr::Infix(o1, Box::new(a), Box::new(b));
        let abc = Expr::Infix(o2, Box::new(ab), Box::new(c));
        assert(parse_operators(ts, b, p + 2, order_of(o1)) == Ok::<
            (Expr, int),
            crate::parse_error::ParseError,
        >((b, p + 2)));
        assert(parse_expression(ts, p + 2, order_of(o1)) == Ok::<
            (Expr, int),
            crate::parse_error::ParseError,
        >((b, p + 2)));
        assert(parse_operators(ts, abc, p + 4, lowest) == Ok::<
            (Expr, int),
            crate::parse_error::ParseError,
        >((abc, p + 4)));
        assert(parse_operators(ts, ab, p + 2, lowest) == Ok::<
            (Expr, int),
            crate::parse_error::ParseError,
        >((abc, p + 4)));
        assert(parse_operators(ts, a, p, lowest) == Ok::<
            (Expr, int),
            crate::parse_error::ParseError,
        >((abc, p + 4)));
    } else {
        let bc = Expr::Infix(o2, Box::new(b), Box::new(c));
        let abc = Expr::Infix(o1, Box::new(a), Box::new(bc));
        assert(parse_operators(ts, bc, p + 4, order_of(o1)) == Ok::<
            (Expr, int),
            crate::parse_error::ParseError,
        >((bc, p + 4)));
        assert(parse_operators(ts, b, p + 2, order_of(o1)) == Ok::<
            (Expr, int),
            crate::parse_error::ParseError,
        >((bc, p + 4)));
        assert(parse_expression(ts, p + 2, order_of(o1)) == Ok::<
            (Expr, int),
            crate::parse_error::ParseError,
        >((bc, p + 4)));
        assert(parse_operators(ts, abc, p + 4, lowest) == Ok::<
            (Expr, int),
            crate::parse_error::ParseError,
        >((abc, p + 4)));
        assert(parse_operators(ts, a, p, lowest) == Ok::<
            (Expr, int),
            crate::parse_error::ParseError,
        >((abc, p + 4)));
    }
}

proof fn lemma_block_prefix(
    st: State,
    cur: nat,
    ss: Seq<Stmt>,
    k: int,
    i: int,
    prev: Value,
    d: nat,
)
    requires
        0 <= i <= k < ss.len(),
        !is_signal(eval_block(st, cur, ss.take(k), i, prev, d).1),
    ensures
        ({
            let (sk, vk) = eval_block(st, cur, ss.take(k), i, prev, d);
            eval_block(st, cur, ss, i, prev, d) == eval_block(sk, cur, ss, k, vk, d)
        }),
    decreases k - i,
{
    if i < k {
        assert(ss.take(k)[i] == ss[i]);
        let (st1, r) = eval_stmt(st, cur, ss[i], d);
        if !is_signal(r) {
            lemma_block_prefix(st1, cur, ss, k, i + 1, r, d);
        }
    }
}

/// A program whose statement `k` is the first to go wrong: when the
/// statements before it run without a signal (their run is the program cut
/// to its first `k` statements) and statement `k` then yields an error, the
/// program's result is that error and its state is the one right after
/// statement `k`; no later statement runs.
pub proof fn lemma_error_stops_program(st: State, cur: nat, ss: Seq<Stmt>, k: int, d: nat)
    requires
        0 <= k < ss.len(),
        !is_signal(eval_block(st, cur, ss.take(k), 0, Value::Null, d).1),
        ({
            let (sk, vk) = eval_block(st, cur, ss.take(k), 0, Value::Null, d);
            eval_stmt(sk, cur, ss[k], d).1 is Error
        }),
    ensures
        ({
            let (sk, vk) = eval_block(st, cur, ss.take(k), 0, Value::Null, d);
            eval_program(st, cur, ss, d) == eval_stmt(sk, cur, ss[k], d)
        }),
{
    lemma_block_prefix(st, cur, ss, k, 0, Value::Null, d);
}

/// An `if` evaluates its condition; a signal there is the result and no
/// branch runs. A truthy condition runs the consequence, a
/// falsy one the alternative, and with no alternative the result is the
/// error "No else found".
pub proof fn lemma_if_rule(
    st: State,
    cur: nat,
    cond: Expr,
    cons: Seq<Stmt>,
    alt: Option<Seq<Stmt>>,
    d: nat,
)
    requires
        d > 0,
    ensures
        ({
            let d1 = (d - 1) as nat;
            let (st1, c) = eval_expr(st, cur, cond, d1);
            eval_expr(st, cur, Expr::If(Box::new(cond), cons, alt), d) == if is_signal(c) {
                (st1, c)
            } else if truthy(c) {
                eval_block(st1, cur, cons, 0, Value::Null, d1)
            } else {
                match alt {
                    Some(a) => eval_block(st1, cur, a, 0, Value::Null, d1),
                    None => (st1, error_of("No else found"@)),
                }
            }
        }),
{
}

/// No variable of any scope holds a return signal.
pub open spec fn no_stored_return(st: State) -> bool {
    forall|i: int, name: Seq<char>|
        0 <= i < st.frames.len() && #[trigger] st.frames[i].vars.contains_key(name) ==> !(
        st.frames[i].vars[name] is Ret)
}

/// A return signal carries a plain value, never another signal.
pub open spec fn ret_ok(v: Value) -> bool {
    match v {
        Value::Ret(inner) => !is_signal(*inner),
        _ => true,
    }
}

proof fn lemma_lookup_plain(fs: Seq<Frame>, k: nat, name: Seq<char>)
    requires
        no_stored_return(State { frames: fs, out: Seq::empty() }),
    ensures
        lookup(fs, k, name) matches Some(v) ==> !(v is Ret),
    decreases k,
{
    if k < fs.len() && !fs[k as int].vars.contains_key(name) {
        match fs[k as int].outer {
            Some(o) => if o < k {
                lemma_lookup_plain(fs, o, name);
            },
            None => {},
        }
    }
}

proof fn lemma_bind_plain(names: Seq<Seq<char>>, vals: Seq<Value>, n: nat)
    requires
        n <= names.len(),
        n <= vals.len(),
        forall|j: int| 0 <= j < n ==> !(#[trigger] vals[j] is Ret),
    ensures
        forall|name: Seq<char>| #[trigger]
            bind_params(names, vals, n).contains_key(name) ==> !(bind_params(
                names,
                vals,
                n,
            )[name] is Ret),
    decreases n,
{
    if n > 0 {
        lemma_bind_plain(names, vals, (n - 1) as nat);
        assert(!(vals[n - 1] is Ret));
    }
}

proof fn lemma_block_plain(st: State, cur: nat, ss: Seq<Stmt>, i: int, prev: Value, d: nat)
    requires
        no_stored_return(st),
        ret_ok(prev),
    ensures
        no_stored_return(eval_block(st, cur, ss, i, prev, d).0),
        ret_ok(eval_block(st, cur, ss, i, prev, d).1),
    decreases d, ss.len() - i,
{
    if 0 <= i < ss.len() {
        let (st1, r) = eval_stmt(st, cur, ss[i], d);
        lemma_stmt_plain(st, cur, ss[i], d);
        if !is_signal(r) {
            lemma_block_plain(st1, cur, ss, i + 1, r, d);
        }
    }
}

proof fn lemma_stmt_plain(st: State, cur: nat, s: Stmt, d: nat)
    requires
        no_stored_return(st),
    ensures
        no_stored_return(eval_stmt(st, cur, s, d).0),
        ret_ok(eval_stmt(st, cur, s, d).1),
    decreases d, 0int,
{
    if d > 0 {
        let d1 = (d - 1) as nat;
        match s {
            Stmt::Exp(e) => lemma_expr_plain(st, cur, e, d1),
            Stmt::Let(name, e) => {
                let (st1, v) = eval_expr(st, cur, e, d1);
                lemma_expr_plain(st, cur, e, d1);
                if !is_signal(v) {
                    let st2 = set_var(st1, cur, name, v);
                    assert forall|i: int, nm: Seq<char>|
                        0 <= i < st2.frames.len() && #[trigger] st2.frames[i].vars.contains_key(
                            nm,
                        ) implies !(st2.frames[i].vars[nm] is Ret) by {
                        if i == cur && nm == name {
                        } else {
                            assert(st1.frames[i].vars.contains_key(nm));
                        }
                    }
                }
            },
            Stmt::Ret(e) => lemma_expr_plain(st, cur, e, d1),
            Stmt::Blk(ss) => lemma_block_plain(st, cur, ss, 0, Value::Null, d1),
        }
    }
}

proof fn lemma_expr_plain(st: State, cur: nat, e: Expr, d: nat)
    requires
        no_stored_return(st),
    ensures
        no_stored_return(eval_expr(st, cur, e, d).0),
        ret_ok(eval_expr(st, cur, e, d).1),
    decreases d, 0int,
{
    if d > 0 {
        let d1 = (d - 1) as nat;
        match e {
            Expr::Ident(name) => lemma_lookup_plain(st.frames, cur, name),
            Expr::Prefix(op, rhs) => lemma_expr_plain(st, cur, *rhs, d1),
            Expr::Postfix(op, lhs) => lemma_expr_plain(st, cur, *lhs, d1),
            Expr::Infix(op, lhs, rhs) => {
                let (st1, rv) = eval_expr(st, cur, *rhs, d1);
                lemma_expr_plain(st, cur, *rhs, d1);
                if !is_signal(rv) {
                    lemma_expr_plain(st1, cur, *lhs, d1);
                }
            },
            Expr::If(cond, cons, alt) => {
                let (st1, c) = eval_expr(st, cur, *cond, d1);
                lemma_expr_plain(st, cur, *cond, d1);
                if !is_signal(c) {
                    if truthy(c) {
                        lemma_block_plain(st1, cur, cons, 0, Value::Null, d1);
                    } else {
                        match alt {
                            Some(a) => lemma_block_plain(st1, cur, a, 0, Value::Null, d1),
                            None => {},
                        }
                    }
                }
            },
            Expr::Call(callee, args) => lemma_call_plain(st, cur, *callee, args, d1),
            _ => {},
        }
    }
}

proof fn lemma_args_plain(st: State, cur: nat, args: Seq<Expr>, i: int, acc: Seq<Value>, d: nat)
    requires
        no_stored_return(st),
        forall|j: int| 0 <= j < acc.len() ==> !is_signal(#[trigger] acc[j]),
    ensures
        ({
            let (st1, vals) = eval_args(st, cur, args, i, acc, d);
            &&& no_stored_return(st1)
            &&& !ends_in_signal(vals) ==> forall|j: int|
                0 <= j < vals.len() ==> !is_signal(#[trigger] vals[j])
            &&& ends_in_signal(vals) ==> ret_ok(vals.last())
        }),
    decreases d, args.len() - i,
{
    if 0 <= i < args.len() {
        let (st1, v) = eval_expr(st, cur, args[i], d);
        lemma_expr_plain(st, cur, args[i], d);
        let acc1 = acc.push(v);
        if !is_signal(v) {
            assert forall|j: int| 0 <= j < acc1.len() implies !is_signal(#[trigger] acc1[j]) by {
                if j < acc.len() {
                    assert(acc1[j] == acc[j]);
                }
            }
            lemma_args_plain(st1, cur, args, i + 1, acc1, d);
        } else {
            assert(acc1.last() == v);
        }
    } else {
        if acc.len() > 0 {
            assert(!is_signal(acc[acc.len() - 1]));
        }
    }
}

proof fn lemma_call_plain(st: State, cur: nat, callee: Expr, args: Seq<Expr>, d: nat)
    requires
        no_stored_return(st),
    ensures
        no_stored_return(eval_call(st, cur, callee, args, d).0),
        ret_ok(eval_call(st, cur, callee, args, d).1),
    decreases d, 0int,
{
    if d > 0 {
        let d1 = (d - 1) as nat;
        let (st1, f) = eval_expr(st, cur, callee, d1);
        lemma_expr_plain(st, cur, callee, d1);
        match f {
            Value::Builtin(k) => {
                lemma_args_plain(st1, cur, args, 0, Seq::empty(), d1);
            },
            Value::Func(params, body, fenv) => {
                if args.len() == params.len() && fenv < st1.frames.len() {
                    let (st2, vals) = eval_args(st1, cur, args, 0, Seq::empty(), d1);
                    lemma_args_plain(st1, cur, args, 0, Seq::empty(), d1);
                    if !ends_in_signal(vals) {
                        let n = min_len(params.len(), vals.len());
                        assert forall|j: int| 0 <= j < n implies !(#[trigger] vals[j] is Ret) by {
                            assert(!is_signal(vals[j]));
                        }
                        lemma_bind_plain(params, vals, n);
                        let frame = Frame { vars: bind_params(params, vals, n), outer: Some(fenv) };
                        lemma_body_plain(st2, frame, body, d1);
                    }
                }
            },
            _ => {},
        }
    }
}

proof fn lemma_body_plain(st: State, frame: Frame, body: Seq<Stmt>, d: nat)
    requires
        no_stored_return(st),
        forall|name: Seq<char>| #[trigger]
            frame.vars.contains_key(name) ==> !(frame.vars[name] is Ret),
    ensures
        ({
            let (st4, r) = eval_block(
                State { frames: st.frames.push(frame), out: st.out },
                st.frames.len(),
                body,
                0,
                Value::Null,
                d,
            );
            &&& no_stored_return(st4)
            &&& ret_ok(r)
            &&& !(unwrap_return(r) is Ret)
        }),
    decreases d, body.len() + 1,
{
    let st3 = State { frames: st.frames.push(frame), out: st.out };
    assert forall|i: int, nm: Seq<char>|
        0 <= i < st3.frames.len() && #[trigger] st3.frames[i].vars.contains_key(nm) implies !(
        st3.frames[i].vars[nm] is Ret) by {
        if i < st.frames.len() {
            assert(st3.frames[i] == st.frames[i]);
        }
    }
    lemma_block_plain(st3, st.frames.len(), body, 0, Value::Null, d);
}

/// A function body hands back a plain value: when no variable holds a
/// return signal and the body's scope binds none, the body's result with its
/// `return` unwrapped is never a return signal, and afterwards still no
/// variable holds one.
pub proof fn lemma_call_result_is_plain(st: State, frame: Frame, body: Seq<Stmt>, d: nat)
    requires
        no_stored_return(st),
        forall|name: Seq<char>| #[trigger]
            frame.vars.contains_key(name) ==> !(frame.vars[name] is Ret),
    ensures
        ({
            let (st4, r) = eval_block(
                State { frames: st.frames.push(frame), out: st.out },
                st.frames.len(),
                body,
                0,
                Value::Null,
                d,
            );
            &&& no_stored_return(st4)
            &&& !(unwrap_return(r) is Ret)
        }),
{
    lemma_body_plain(st, frame, body, d);
}

/// No return signal escapes a program or a call: when no variable holds a
/// return signal, a program's result is never one and afterwards still no
/// variable holds one. A call yields a return signal only for a `return`
/// met while its callee or arguments were evaluated (which leaves the
/// enclosing function), and such a signal carries a plain value.
pub proof fn lemma_no_return_escapes(
    st: State,
    cur: nat,
    ss: Seq<Stmt>,
    callee: Expr,
    args: Seq<Expr>,
    d: nat,
)
    requires
        no_stored_return(st),
    ensures
        no_stored_return(eval_program(st, cur, ss, d).0),
        !(eval_program(st, cur, ss, d).1 is Ret),
        no_stored_return(eval_call(st, cur, callee, args, d).0),
        ret_ok(eval_call(st, cur, callee, args, d).1),
{
    lemma_block_plain(st, cur, ss, 0, Value::Null, d);
    lemma_call_plain(st, cur, callee, args, d);
}

} // verus!
