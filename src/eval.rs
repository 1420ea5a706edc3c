use vstd::prelude::*;
use vstd::string::*;
use crate::ast::{
    Expression, Program, Statement, expr_view, exprs_view, stmts_view, params_view, copy_params,
    copy_block, lemma_exprs_view_index, lemma_stmts_view_index,
    lemma_params_view_index,
};
use crate::env::{Env, Frame};
use crate::object::{
    Object, Value, BuiltinKind, Buildin, Integer, Boolean, StringObj, Null, ReturnValue,
    ErrorObj, Function, ExitRequest, obj_view, inspect_text, push_inspect, copy_object,
};
use crate::semantics::{
    State, is_signal, truthy, error_of, set_var, int_step, prefix_op, postfix_op, invalid_infix,
    checked, infix_op, exit_result, apply_builtin, bind_params, min_len, arg_count_message,
    eval_block, eval_stmt, eval_expr, eval_args, eval_call, eval_program,
};
use crate::text::{append_nat};
use crate::token::{TokenKind, kind_str};

verus! {

/// How deeply evaluation may nest (expressions within expressions, calls
/// within calls) before it fails with an error.
pub const MAX_DEPTH: u64 = 2000;

/// A list of runtime values as mathematical values.
pub open spec fn objs_view(os: Seq<Object>) -> Seq<Value> {
    os.map_values(|o: Object| obj_view(o))
}

/// A tree-walking evaluator: the scope arena, the current scope and the
/// lines printed by `puts` that the caller has not taken yet.
pub struct Eval {
    pub env: Env,
    pub curr: usize,
    pub output: Vec<String>,
}

impl Eval {
    pub open spec fn state(&self) -> State {
        State { frames: self.env.view(), out: self.output@.map_values(|s: String| s@) }
    }

    pub open spec fn inv(&self) -> bool {
        self.env.wf() && self.curr < self.env.view().len()
    }

    /// `self` is a later state of `prev` in the same scope.
    pub open spec fn extends(&self, prev: Eval) -> bool {
        self.inv() && self.curr == prev.curr && self.env.view().len() >= prev.env.view().len()
    }

    /// An evaluator over `env`, running in its global scope (index 0), with
    /// `puts` and `exit` bound there.
    pub fn new(env: Env) -> (r: Eval)
        requires
            env.wf(),
            env.view().len() > 0,
        ensures
            r.inv(),
            r.curr == 0,
            r.state() == set_var(
                set_var(
                    State { frames: env.view(), out: Seq::empty() },
                    0,
                    "puts"@,
                    Value::Builtin(BuiltinKind::Print),
                ),
                0,
                "exit"@,
                Value::Builtin(BuiltinKind::Exit),
            ),
    {
        let mut env = env;
        env.set(0, String::from_str("puts"), Object::Buildin(Buildin::new(BuiltinKind::Print)));
        env.set(0, String::from_str("exit"), Object::Buildin(Buildin::new(BuiltinKind::Exit)));
        let r = Eval { env, curr: 0, output: Vec::new() };
        assert(r.output@.map_values(|s: String| s@) =~= Seq::<Seq<char>>::empty());
        r
    }

    /// Runs a program in the current scope. `let` bindings persist for later calls.
    pub fn eval(&mut self, prog: Program) -> (r: Object)
        requires
            old(self).inv(),
        ensures
            final(self).extends(*old(self)),
            (final(self).state(), obj_view(r)) == eval_program(
                old(self).state(),
                old(self).curr as nat,
                prog.view(),
                MAX_DEPTH as nat,
            ),
    {
        let r = self.block(&prog.statements, 0, Object::Null(Null::new()), MAX_DEPTH);
        match r {
            Object::Ret(v) => *v.value,
            _ => r,
        }
    }

    /// Hands over the lines printed so far and forgets them.
    pub fn take_output(&mut self) -> (r: Vec<String>)
        ensures
            r@.map_values(|s: String| s@) == old(self).state().out,
            final(self).state() == (State { frames: old(self).state().frames, out: Seq::empty() }),
            final(self).inv() == old(self).inv(),
            final(self).curr == old(self).curr,
            final(self).env == old(self).env,
    {
        let mut r: Vec<String> = Vec::new();
        std::mem::swap(&mut r, &mut self.output);
        assert(self.output@.map_values(|s: String| s@) =~= Seq::<Seq<char>>::empty());
        r
    }
}

fn error_obj(msg: String) -> (r: Object)
    ensures
        obj_view(r) == error_of(msg@),
{
    Object::Error(ErrorObj::new(msg))
}

fn is_signal_obj(o: &Object) -> (r: bool)
    ensures
        r == is_signal(obj_view(*o)),
{
    match o {
        Object::Ret(_) | Object::Error(_) | Object::Exit(_) => true,
        _ => false,
    }
}

fn is_truthy(o: &Object) -> (r: bool)
    ensures
        r == truthy(obj_view(*o)),
{
    match o {
        Object::Null(_) => false,
        Object::Bool(b) => b.value,
        _ => true,
    }
}

fn int_step_obj(op_name: &str, op: TokenKind, v: Object) -> (r: Object)
    ensures
        obj_view(r) == int_step(op_name@, op, obj_view(v)),
{
    match v {
        Object::Int(i) => {
            let n = i.value;
            let m = if op == TokenKind::Inc {
                n.checked_add(1)
            } else if op == TokenKind::Dec {
                n.checked_sub(1)
            } else {
                0i64.checked_sub(n)
            };
            match m {
                Some(m) => Object::Int(Integer::new(m)),
                None => error_obj(String::from_str("Integer overflow")),
            }
        },
        _ => {
            let mut msg = String::from_str("Invalid uses of ");
            msg.append(op_name);
            msg.append(" operator: ");
            msg.append(kind_str(op));
            msg.append(" can't applied to ");
            push_inspect(&mut msg, &v);
            let r = error_obj(msg);
            assert(obj_view(r) == int_step(op_name@, op, obj_view(v))) by {
                assert(msg@ =~= "Invalid uses of "@ + op_name@ + " operator: "@ + crate::token::kind_text(op)
                    + " can't applied to "@ + inspect_text(obj_view(v)));
            }
            r
        },
    }
}

fn prefix_obj(op: TokenKind, v: Object) -> (r: Object)
    ensures
        obj_view(r) == prefix_op(op, obj_view(v)),
{
    match op {
        TokenKind::Bang => match v {
            Object::Bool(b) => Object::Bool(Boolean::new(!b.value)),
            Object::Null(_) => Object::Bool(Boolean::new(true)),
            _ => Object::Bool(Boolean::new(false)),
        },
        TokenKind::Minus | TokenKind::Inc | TokenKind::Dec => int_step_obj("prefix", op, v),
        _ => {
            let mut msg = String::from_str("Unknown prefix operator: ");
            msg.append(kind_str(op));
            error_obj(msg)
        },
    }
}

fn postfix_obj(op: TokenKind, v: Object) -> (r: Object)
    ensures
        obj_view(r) == postfix_op(op, obj_view(v)),
{
    match op {
        TokenKind::Inc | TokenKind::Dec => int_step_obj("postfix", op, v),
        _ => {
            let mut msg = String::from_str("Unknown postfix operator: ");
            msg.append(kind_str(op));
            error_obj(msg)
        },
    }
}

fn invalid_infix_obj(op: TokenKind, l: &Object, r: &Object) -> (res: Object)
    ensures
        obj_view(res) == invalid_infix(op, obj_view(*l), obj_view(*r)),
{
    let mut msg = String::from_str("Invalid uses of infix operator: ");
    msg.append(kind_str(op));
    msg.append(" can't applied to ");
    push_inspect(&mut msg, l);
    msg.append(" and ");
    push_inspect(&mut msg, r);
    assert(msg@ =~= "Invalid uses of infix operator: "@ + crate::token::kind_text(op)
        + " can't applied to "@ + inspect_text(obj_view(*l)) + " and "@ + inspect_text(obj_view(*r)));
    error_obj(msg)
}

fn checked_obj(r: Option<i64>) -> (res: Object)
    ensures
        obj_view(res) == checked(r),
{
    match r {
        Some(n) => Object::Int(Integer::new(n)),
        None => error_obj(String::from_str("Integer overflow")),
    }
}

fn infix_obj(op: TokenKind, l: Object, r: Object) -> (res: Object)
    ensures
        obj_view(res) == infix_op(op, obj_view(l), obj_view(r)),
{
    match (&l, &r) {
        (Object::Int(a), Object::Int(b)) => {
            let a = a.value;
            let b = b.value;
            match op {
                TokenKind::Plus => checked_obj(a.checked_add(b)),
                TokenKind::Minus => checked_obj(a.checked_sub(b)),
                TokenKind::Asterisk => checked_obj(a.checked_mul(b)),
                TokenKind::Slash => {
                    if b == 0 {
                        error_obj(String::from_str("Division by zero"))
                    } else {
                        checked_obj(a.checked_div(b))
                    }
                },
                TokenKind::LT => Object::Bool(Boolean::new(a < b)),
                TokenKind::GT => Object::Bool(Boolean::new(a > b)),
                _ => invalid_infix_obj(op, &l, &r),
            }
        },
        (Object::Bool(a), Object::Bool(b)) => {
            match op {
                TokenKind::Eq => Object::Bool(Boolean::new(a.value == b.value)),
                TokenKind::NotEq => Object::Bool(Boolean::new(a.value != b.value)),
                _ => invalid_infix_obj(op, &l, &r),
            }
        },
        (Object::Str(a), Object::Str(b)) => {
            match op {
                TokenKind::Plus => {
                    let mut s = a.str.clone();
                    s.append(b.str.as_str());
                    Object::Str(StringObj::new(s))
                },
                TokenKind::Eq => Object::Bool(Boolean::new(a.str == b.str)),
                TokenKind::NotEq => Object::Bool(Boolean::new(!(a.str == b.str))),
                _ => invalid_infix_obj(op, &l, &r),
            }
        },
        _ => {
            let mut msg = String::from_str("You can't use ");
            push_inspect(&mut msg, &l);
            msg.append(" or ");
            push_inspect(&mut msg, &r);
            msg.append(" as operand");
            assert(msg@ =~= "You can't use "@ + inspect_text(obj_view(l)) + " or "@ + inspect_text(
                obj_view(r),
            ) + " as operand"@);
            error_obj(msg)
        },
    }
}

impl Buildin {
    /// `puts`: appends the display form of each argument, as a line of its
    /// own, to `out`, and yields `Null`.
    pub fn print(vals: &Vec<Object>, out: &mut Vec<String>) -> (r: Object)
        ensures
            obj_view(r) == Value::Null,
            final(out)@.len() == old(out)@.len() + vals@.len(),
            forall|j: int| 0 <= j < old(out)@.len() ==> #[trigger] final(out)@[j] == old(out)@[j],
            forall|j: int|
                0 <= j < vals@.len() ==> #[trigger] final(out)@[old(out)@.len() + j]@ == inspect_text(
                    obj_view(vals@[j]),
                ),
    {
        let mut i: usize = 0;
        while i < vals.len()
            invariant
                i <= vals@.len(),
                out@.len() == old(out)@.len() + i,
                forall|j: int| 0 <= j < old(out)@.len() ==> #[trigger] out@[j] == old(out)@[j],
                forall|j: int|
                    0 <= j < i ==> #[trigger] out@[old(out)@.len() + j]@ == inspect_text(
                        obj_view(vals@[j]),
                    ),
            decreases vals@.len() - i,
        {
            let mut line = String::new();
            push_inspect(&mut line, &vals[i]);
            assert(line@ =~= inspect_text(obj_view(vals@[i as int])));
            out.push(line);
            i = i + 1;
        }
        Object::Null(Null::new())
    }

    /// `exit`: an exit request for a single integer argument that fits in 32 bits,
    /// an error otherwise.
    pub fn exit(vals: &Vec<Object>) -> (r: Object)
        ensures
            obj_view(r) == exit_result(objs_view(vals@)),
    {
        if vals.len() != 1 {
            return error_obj(String::from_str("Number of argument is not 1"));
        }
        match &vals[0] {
            Object::Int(i) => {
                if i32::MIN as i64 <= i.value && i.value <= i32::MAX as i64 {
                    Object::Exit(ExitRequest { code: i.value as i32 })
                } else {
                    error_obj(String::from_str("out of range integral type conversion attempted"))
                }
            },
            _ => error_obj(String::from_str("This object is not int")),
        }
    }
}

impl Eval {
    fn builtin(&mut self, k: BuiltinKind, vals: Vec<Object>) -> (r: Object)
        requires
            old(self).inv(),
        ensures
            final(self).extends(*old(self)),
            final(self).env == old(self).env,
            (final(self).state(), obj_view(r)) == apply_builtin(
                old(self).state(),
                k,
                objs_view(vals@),
            ),
    {
        match k {
            BuiltinKind::Print => {
                let ghost out0 = self.output@;
                let r = Buildin::print(&vals, &mut self.output);
                proof {
                    let lhs = self.output@.map_values(|s: String| s@);
                    let rhs = out0.map_values(|s: String| s@) + objs_view(vals@).map_values(
                        |v: Value| inspect_text(v),
                    );
                    assert(lhs.len() == rhs.len());
                    assert forall|j: int| 0 <= j < lhs.len() implies lhs[j] == rhs[j] by {
                        if j < out0.len() {
                            assert(self.output@[j] == out0[j]);
                        } else {
                            let k = j - out0.len();
                            assert(self.output@[out0.len() + k]@ == inspect_text(
                                obj_view(vals@[k]),
                            ));
                        }
                    }
                    assert(lhs =~= rhs);
                }
                r
            },
            BuiltinKind::Exit => Buildin::exit(&vals),
        }
    }

    fn block(&mut self, ss: &Vec<Statement>, i: usize, prev: Object, d: u64) -> (r: Object)
        requires
            old(self).inv(),
        ensures
            final(self).extends(*old(self)),
            (final(self).state(), obj_view(r)) == eval_block(
                old(self).state(),
                old(self).curr as nat,
                stmts_view(ss@),
                i as int,
                obj_view(prev),
                d as nat,
            ),
        decreases d, ss@.len() - i,
    {
        proof {
            lemma_stmts_view_index(ss@);
        }
        if i >= ss.len() {
            return prev;
        }
        let r = self.stmt(&ss[i], d);
        let sig = match &r {
            Object::Ret(_) | Object::Error(_) | Object::Exit(_) => true,
            _ => false,
        };
        if sig {
            r
        } else {
            self.block(ss, i + 1, r, d)
        }
    }

    fn stmt(&mut self, s: &Statement, d: u64) -> (r: Object)
        requires
            old(self).inv(),
        ensures
            final(self).extends(*old(self)),
            (final(self).state(), obj_view(r)) == eval_stmt(
                old(self).state(),
                old(self).curr as nat,
                crate::ast::stmt_view(*s),
                d as nat,
            ),
        decreases d, 0int,
    {
        if d == 0 {
            return error_obj(String::from_str("Maximum recursion depth exceeded"));
        }
        match s {
            Statement::Exp(x) => self.expr(&x.exp, d - 1),
            Statement::Let(l) => {
                let v = self.expr(&l.rhs_exp, d - 1);
                if is_signal_obj(&v) {
                    return v;
                }
                let c = copy_object(&v);
                let cur = self.curr;
                self.env.set(cur, l.ident.name.clone(), c);
                v
            },
            Statement::Ret(x) => {
                let v = self.expr(&x.exp, d - 1);
                if is_signal_obj(&v) {
                    return v;
                }
                Object::Ret(ReturnValue::new(v))
            },
            Statement::Blk(b) => self.block(&b.statements, 0, Object::Null(Null::new()), d - 1),
        }
    }

    /// Evaluates an expression in the current scope, nesting at most `d` deep.
    pub fn expr(&mut self, e: &Expression, d: u64) -> (r: Object)
        requires
            old(self).inv(),
        ensures
            final(self).extends(*old(self)),
            (final(self).state(), obj_view(r)) == eval_expr(
                old(self).state(),
                old(self).curr as nat,
                expr_view(*e),
                d as nat,
            ),
        decreases d, 0int,
    {
        if d == 0 {
            return error_obj(String::from_str("Maximum recursion depth exceeded"));
        }
        match e {
            Expression::Ident(i) => {
                match self.env.get(self.curr, &i.name) {
                    Some(v) => v,
                    None => {
                        let mut msg = String::from_str("Identifier not found: ");
                        msg.append(i.name.as_str());
                        error_obj(msg)
                    },
                }
            },
            Expression::Int(n) => Object::Int(Integer::new(n.value)),
            Expression::Bool(b) => Object::Bool(Boolean::new(b.value)),
            Expression::Str(s) => Object::Str(StringObj::new(s.str.clone())),
            Expression::Prefix(p) => {
                let v = self.expr(&p.rhs_exp, d - 1);
                if is_signal_obj(&v) {
                    v
                } else {
                    prefix_obj(p.operator, v)
                }
            },
            Expression::Infix(p) => {
                let rv = self.expr(&p.rhs_exp, d - 1);
                if is_signal_obj(&rv) {
                    return rv;
                }
                let lv = self.expr(&p.lhs_exp, d - 1);
                if is_signal_obj(&lv) {
                    return lv;
                }
                infix_obj(p.operator, lv, rv)
            },
            Expression::Postfix(p) => {
                let v = self.expr(&p.lhs_exp, d - 1);
                if is_signal_obj(&v) {
                    v
                } else {
                    postfix_obj(p.operator, v)
                }
            },
            Expression::If(f) => {
                let c = self.expr(&f.condition, d - 1);
                if is_signal_obj(&c) {
                    c
                } else if is_truthy(&c) {
                    self.block(&f.consequence.statements, 0, Object::Null(Null::new()), d - 1)
                } else {
                    match &f.alternative {
                        Some(a) => self.block(&a.statements, 0, Object::Null(Null::new()), d - 1),
                        None => error_obj(String::from_str("No else found")),
                    }
                }
            },
            Expression::Func(f) => Object::Func(
                Function::new(copy_params(&f.params), copy_block(&f.body), self.curr),
            ),
            Expression::Call(c) => self.call(&c.ident, &c.args, d - 1),
        }
    }

    fn args(&mut self, args: &Vec<Expression>, i: usize, acc: Vec<Object>, d: u64) -> (r: Vec<
        Object,
    >)
        requires
            old(self).inv(),
        ensures
            final(self).extends(*old(self)),
            (final(self).state(), objs_view(r@)) == eval_args(
                old(self).state(),
                old(self).curr as nat,
                exprs_view(args@),
                i as int,
                objs_view(acc@),
                d as nat,
            ),
        decreases d, args@.len() - i,
    {
        proof {
            lemma_exprs_view_index(args@);
        }
        if i >= args.len() {
            return acc;
        }
        let v = self.expr(&args[i], d);
        let stop = is_signal_obj(&v);
        let mut acc = acc;
        let ghost acc0 = acc@;
        acc.push(v);
        assert(objs_view(acc@) =~= objs_view(acc0).push(obj_view(acc@.last())));
        if stop {
            acc
        } else {
            self.args(args, i + 1, acc, d)
        }
    }

    fn call(&mut self, callee: &Expression, args: &Vec<Expression>, d: u64) -> (r: Object)
        requires
            old(self).inv(),
        ensures
            final(self).extends(*old(self)),
            (final(self).state(), obj_view(r)) == eval_call(
                old(self).state(),
                old(self).curr as nat,
                expr_view(*callee),
                exprs_view(args@),
                d as nat,
            ),
        decreases d, 0int,
    {
        if d == 0 {
            return error_obj(String::from_str("Maximum recursion depth exceeded"));
        }
        let f = self.expr(callee, d - 1);
        proof {
            lemma_exprs_view_index(args@);
        }
        match f {
            Object::Buildin(b) => {
                let empty: Vec<Object> = Vec::new();
                assert(objs_view(empty@) =~= Seq::<Value>::empty());
                let vals = self.args(args, 0, empty, d - 1);
                assert(objs_view(vals@).len() == vals@.len());
                if vals.len() > 0 && is_signal_obj(&vals[vals.len() - 1]) {
                    assert(objs_view(vals@).last() == obj_view(vals@.last()));
                    return copy_object(&vals[vals.len() - 1]);
                }
                assert(vals.len() > 0 ==> objs_view(vals@).last() == obj_view(vals@.last()));
                self.builtin(b.kind, vals)
            },
            Object::Func(func) => {
                proof {
                    lemma_params_view_index(func.params@);
                }
                if args.len() != func.params.len() {
                    let mut msg = String::from_str(
                        "Number of argument is less than or greater than: expect ",
                    );
                    append_nat(&mut msg, func.params.len() as u64);
                    msg.append(", got ");
                    append_nat(&mut msg, args.len() as u64);
                    proof {
                        lemma_exprs_view_index(args@);
                    }
                    assert(msg@ =~= arg_count_message(params_view(func.params@).len(), exprs_view(args@).len()));
                    return error_obj(msg);
                }
                if func.env >= self.env.scopes.len() {
                    return error_obj(String::from_str("Function environment not found"));
                }
                let empty: Vec<Object> = Vec::new();
                assert(objs_view(empty@) =~= Seq::<Value>::empty());
                let vals = self.args(args, 0, empty, d - 1);
                assert(objs_view(vals@).len() == vals@.len());
                if vals.len() > 0 && is_signal_obj(&vals[vals.len() - 1]) {
                    assert(objs_view(vals@).last() == obj_view(vals@.last()));
                    return copy_object(&vals[vals.len() - 1]);
                }
                assert(vals.len() > 0 ==> objs_view(vals@).last() == obj_view(vals@.last()));
                let ghost st2 = self.state();
                let ghost out2 = self.output;
                let scope = self.env.new_with_outer(func.env);
                let n = if func.params.len() < vals.len() {
                    func.params.len()
                } else {
                    vals.len()
                };
                let mut j: usize = 0;
                while j < n
                    invariant
                        j <= n,
                        n == min_len(func.params@.len(), vals@.len()),
                        self.env.wf(),
                        self.curr == old(self).curr,
                        self.output == out2,
                        scope == st2.frames.len(),
                        self.env.view() == st2.frames.push(
                            Frame {
                                vars: bind_params(
                                    params_view(func.params@),
                                    objs_view(vals@),
                                    j as nat,
                                ),
                                outer: Some(func.env as nat),
                            },
                        ),
                    decreases n - j,
                {
                    let c = copy_object(&vals[j]);
                    let ghost before = self.env.view();
                    self.env.set(scope, func.params[j].name.clone(), c);
                    proof {
                        lemma_params_view_index(func.params@);
                        let names = params_view(func.params@);
                        let vs = objs_view(vals@);
                        assert(names[j as int] == func.params@[j as int].name@);
                        assert(vs[j as int] == obj_view(vals@[j as int]));
                        assert(bind_params(names, vs, (j + 1) as nat) == bind_params(names, vs, j as nat).insert(names[j as int], vs[j as int]));
                        assert(self.env.view() =~= st2.frames.push(
                            Frame {
                                vars: bind_params(names, vs, (j + 1) as nat),
                                outer: Some(func.env as nat),
                            },
                        ));
                    }
                    j = j + 1;
                }
                let saved = self.curr;
                self.curr = scope;
                let r = self.block(&func.body.statements, 0, Object::Null(Null::new()), d - 1);
                self.curr = saved;
                match r {
                    Object::Ret(v) => *v.value,
                    _ => r,
                }
            },
            _ => {
                if is_signal_obj(&f) {
                    f
                } else {
                    let mut msg = String::new();
                    push_inspect(&mut msg, &f);
                    msg.append(" is not a function");
                    error_obj(msg)
                }
            },
        }
    }
}

} // verus!
