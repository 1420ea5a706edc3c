use vstd::prelude::*;
use vstd::string::*;
use crate::ast::{
    BlkStatement, Identifier, Stmt, params_text, params_view, stmts_text, push_params,
    push_stmts,
};
use crate::text::{int_text, append_int};

verus! {

/// The host functions available to programs.
#[derive(Debug, PartialEq, Eq, Clone, Copy, Structural)]
pub enum BuiltinKind {
    Print,
    Exit,
}

/// A runtime value as a mathematical value. `Func` holds the parameter
/// names, the body and the index of the scope the function was defined in.
pub enum Value {
    Int(i64),
    Bool(bool),
    Str(Seq<char>),
    Null,
    Ret(Box<Value>),
    Func(Seq<Seq<char>>, Seq<Stmt>, nat),
    Builtin(BuiltinKind),
    Error(Seq<char>),
    Exit(i32),
}

#[derive(Debug)]
pub enum Object {
    Int(Integer),
    Bool(Boolean),
    Str(StringObj),
    Null(Null),
    Ret(ReturnValue),
    Func(Function),
    Buildin(Buildin),
    Error(ErrorObj),
    Exit(ExitRequest),
}

#[derive(Debug)]
pub struct Integer {
    pub value: i64,
}

impl Integer {
    pub fn new(value: i64) -> (r: Integer)
        ensures
            r.value == value,
    {
        Integer { value }
    }
}

#[derive(Debug)]
pub struct Boolean {
    pub value: bool,
}

impl Boolean {
    pub fn new(value: bool) -> (r: Boolean)
        ensures
            r.value == value,
    {
        Boolean { value }
    }
}

#[derive(Debug)]
pub struct StringObj {
    pub str: String,
}

impl StringObj {
    pub fn new(str: String) -> (r: StringObj)
        ensures
            r.str@ == str@,
    {
        StringObj { str }
    }
}

#[derive(Debug)]
pub struct Null {}

impl Null {
    pub fn new() -> (r: Null) {
        Null {  }
    }
}

/// The value carried by a `return` while it leaves the enclosing blocks.
#[derive(Debug)]
pub struct ReturnValue {
    pub value: Box<Object>,
}

impl ReturnValue {
    pub fn new(value: Object) -> (r: ReturnValue)
        ensures
            *r.value == value,
    {
        ReturnValue { value: Box::new(value) }
    }
}

/// A failure that stops evaluation of the current input.
#[derive(Debug)]
pub struct ErrorObj {
    pub msg: String,
}

impl ErrorObj {
    pub fn new(msg: String) -> (r: ErrorObj)
        ensures
            r.msg@ == msg@,
    {
        ErrorObj { msg }
    }
}

/// A closure: parameters, body and the index of its defining scope.
#[derive(Debug)]
pub struct Function {
    pub params: Vec<Identifier>,
    pub body: BlkStatement,
    pub env: usize,
}

impl Function {
    pub fn new(params: Vec<Identifier>, body: BlkStatement, env: usize) -> (r: Function)
        ensures
            r.params@ == params@,
            r.body == body,
            r.env == env,
    {
        Function { params, body, env }
    }
}

/// A host function.
#[derive(Debug)]
pub struct Buildin {
    pub kind: BuiltinKind,
}

impl Buildin {
    pub fn new(kind: BuiltinKind) -> (r: Buildin)
        ensures
            r.kind == kind,
    {
        Buildin { kind }
    }
}

/// A request, made by the `exit` built-in, to end the process with `code`.
#[derive(Debug)]
pub struct ExitRequest {
    pub code: i32,
}

pub open spec fn obj_view(o: Object) -> Value
    decreases o,
{
    match o {
        Object::Int(i) => Value::Int(i.value),
        Object::Bool(b) => Value::Bool(b.value),
        Object::Str(s) => Value::Str(s.str@),
        Object::Null(_) => Value::Null,
        Object::Ret(r) => Value::Ret(Box::new(obj_view(*r.value))),
        Object::Func(f) => Value::Func(params_view(f.params@), f.body.view(), f.env as nat),
        Object::Buildin(b) => Value::Builtin(b.kind),
        Object::Error(e) => Value::Error(e.msg@),
        Object::Exit(x) => Value::Exit(x.code),
    }
}

/// The display form of a value.
pub open spec fn inspect_text(v: Value) -> Seq<char>
    decreases v,
{
    match v {
        Value::Int(i) => int_text(i as int),
        Value::Bool(b) => if b {
            "true"@
        } else {
            "false"@
        },
        Value::Str(s) => s,
        Value::Null => "null"@,
        Value::Ret(inner) => inspect_text(*inner),
        Value::Func(params, body, _) => "fn("@ + params_text(params) + "){\n    "@ + stmts_text(body)
            + "\n}"@,
        Value::Builtin(_) => "Buildin Function"@,
        Value::Error(msg) => "An error happen: "@ + msg,
        Value::Exit(code) => "exit("@ + int_text(code as int) + ")"@,
    }
}

/// Appends the display form of `o` to `out`.
pub(crate) fn push_inspect(out: &mut String, o: &Object)
    ensures
        final(out)@ == old(out)@ + inspect_text(obj_view(*o)),
    decreases o,
{
    match o {
        Object::Int(i) => append_int(out, i.value),
        Object::Bool(b) => {
            if b.value {
                out.append("true");
            } else {
                out.append("false");
            }
        },
        Object::Str(s) => out.append(s.str.as_str()),
        Object::Null(_) => out.append("null"),
        Object::Ret(r) => push_inspect(out, &r.value),
        Object::Func(f) => {
            out.append("fn(");
            push_params(out, &f.params);
            out.append("){\n    ");
            push_stmts(out, &f.body.statements);
            out.append("\n}");
        },
        Object::Buildin(_) => out.append("Buildin Function"),
        Object::Error(e) => {
            out.append("An error happen: ");
            out.append(e.msg.as_str());
        },
        Object::Exit(x) => {
            out.append("exit(");
            append_int(out, x.code as i64);
            out.append(")");
        },
    }
    assert(final(out)@ =~= old(out)@ + inspect_text(obj_view(*o)));
}

/// Values with a display form.
pub trait ObjectTrait {
    spec fn display(&self) -> Seq<char>;

    fn inspect(&self) -> (r: String)
        ensures
            r@ == self.display(),
    ;
}

impl ObjectTrait for Object {
    open spec fn display(&self) -> Seq<char> {
        inspect_text(obj_view(*self))
    }

    fn inspect(&self) -> (r: String) {
        let mut r = String::new();
        push_inspect(&mut r, self);
        assert(r@ =~= inspect_text(obj_view(*self)));
        r
    }
}

/// A copy of a runtime value.
pub fn copy_object(o: &Object) -> (r: Object)
    ensures
        obj_view(r) == obj_view(*o),
    decreases o,
{
    match o {
        Object::Int(i) => Object::Int(Integer { value: i.value }),
        Object::Bool(b) => Object::Bool(Boolean { value: b.value }),
        Object::Str(s) => Object::Str(StringObj { str: s.str.clone() }),
        Object::Null(_) => Object::Null(Null {  }),
        Object::Ret(r) => Object::Ret(ReturnValue { value: Box::new(copy_object(&r.value)) }),
        Object::Func(f) => Object::Func(
            Function {
                params: crate::ast::copy_params(&f.params),
                body: crate::ast::copy_block(&f.body),
                env: f.env,
            },
        ),
        Object::Buildin(b) => Object::Buildin(Buildin { kind: b.kind }),
        Object::Error(e) => Object::Error(ErrorObj { msg: e.msg.clone() }),
        Object::Exit(x) => Object::Exit(ExitRequest { code: x.code }),
    }
}

} // verus!
