//! Runtime values: the objects produced by evaluation, their display
//! form, and their equality.

use vstd::prelude::*;
use crate::ast::{clone_expr_vec, clone_stmt_vec, exprs_view, stmts_view, BlockStatement,
    Expression, ExprV, Statement, StmtV};
use crate::ast::{lemma_exprs_view_index, lemma_exprs_view_len, lemma_stmts_view_index,
    lemma_stmts_view_len};
use crate::environment::{env_view, EnvV, Environment};
use crate::strutil::{chars_to_string, push_i64_chars, push_str_chars, str_to_chars,
    spec_i64_string};

verus! {

/// Values that can display themselves.
pub trait Object {
    /// The display form of the value.
    fn inspect(&self) -> String;
}

/// The built-in host functions, by name.
#[derive(Clone, Copy, PartialEq, Eq, Structural, Debug)]
pub enum BuiltinKind {
    Len,
    First,
    Last,
    Push,
    Pop,
    Rest,
    Print,
    Println,
}

/// A runtime value.
///
/// `Return` is an internal sentinel marking a `return` in flight; it is
/// unwrapped at the nearest function-call boundary and never stored in
/// a variable.
#[derive(Debug)]
pub enum ObjectType {
    Null,
    Integer(i64),
    Boolean(bool),
    String(String),
    Return(Box<ObjectType>),
    Function { parameters: Vec<Expression>, body: BlockStatement, environment: Environment },
    Builtin(BuiltinKind),
    Array(Vec<ObjectType>),
}

/// Mathematical model of a runtime value.
pub enum ValueV {
    Null,
    Integer(i64),
    Boolean(bool),
    String(Seq<char>),
    Return(Box<ValueV>),
    Function { parameters: Seq<ExprV>, body: Seq<StmtV>, environment: Box<EnvV> },
    Builtin(BuiltinKind),
    Array(Seq<ValueV>),
}

/// The model of a runtime value.
pub open spec fn obj_view(o: ObjectType) -> ValueV
    decreases o,
{
    match o {
        ObjectType::Null => ValueV::Null,
        ObjectType::Integer(i) => ValueV::Integer(i),
        ObjectType::Boolean(b) => ValueV::Boolean(b),
        ObjectType::String(s) => ValueV::String(s@),
        ObjectType::Return(b) => ValueV::Return(Box::new(obj_view(*b))),
        ObjectType::Function { parameters, body, environment } => ValueV::Function {
            parameters: exprs_view(parameters@),
            body: stmts_view(body@),
            environment: Box::new(env_view(environment)),
        },
        ObjectType::Builtin(k) => ValueV::Builtin(k),
        ObjectType::Array(v) => ValueV::Array(objs_view(v@)),
    }
}

/// The models of a sequence of runtime values.
pub open spec fn objs_view(v: Seq<ObjectType>) -> Seq<ValueV>
    decreases v,
{
    if v.len() == 0 {
        Seq::<ValueV>::empty()
    } else {
        seq![obj_view(v[0])] + objs_view(v.drop_first())
    }
}

/// A sequence of value models is as long as its source.
pub broadcast proof fn lemma_objs_view_len(v: Seq<ObjectType>)
    ensures
        (#[trigger] objs_view(v)).len() == v.len(),
    decreases v,
{
    if v.len() != 0 {
        lemma_objs_view_len(v.drop_first());
    }
}

/// Each value model is the view of the value at its index.
pub broadcast proof fn lemma_objs_view_index(v: Seq<ObjectType>, i: int)
    requires
        0 <= i < v.len(),
    ensures
        #[trigger] objs_view(v)[i] == obj_view(v[i]),
    decreases v,
{
    lemma_objs_view_len(v);
    if i > 0 {
        lemma_objs_view_index(v.drop_first(), i - 1);
    }
}

impl View for ObjectType {
    type V = ValueV;

    open spec fn view(&self) -> ValueV {
        obj_view(*self)
    }
}

/// Clones a vector of runtime values; the models are preserved exactly.
pub fn clone_obj_vec(v: &Vec<ObjectType>) -> (r: Vec<ObjectType>)
    ensures
        objs_view(r@) == objs_view(v@),
        r@.len() == v@.len(),
    decreases v,
{
    broadcast use lemma_objs_view_len, lemma_objs_view_index;

    let mut r: Vec<ObjectType> = Vec::new();
    let mut j: usize = 0;
    while j < v.len()
        invariant
            j <= v.len(),
            r@.len() == j,
            forall|k: int| 0 <= k < j ==> obj_view(#[trigger] r@[k]) == obj_view(v@[k]),
        decreases v.len() - j,
    {
        r.push(v[j].clone());
        j = j + 1;
    }
    assert(objs_view(r@) =~= objs_view(v@));
    r
}

impl Clone for ObjectType {
    /// Clones preserve the modelled value exactly.
    fn clone(&self) -> (r: Self)
        ensures
            r@ == self@,
        decreases self,
    {
        match self {
            ObjectType::Null => ObjectType::Null,
            ObjectType::Integer(i) => ObjectType::Integer(*i),
            ObjectType::Boolean(b) => ObjectType::Boolean(*b),
            ObjectType::String(s) => ObjectType::String(s.clone()),
            ObjectType::Return(b) => ObjectType::Return(Box::new((**b).clone())),
            ObjectType::Function { parameters, body, environment } => ObjectType::Function {
                parameters: clone_expr_vec(parameters),
                body: clone_stmt_vec(body),
                environment: environment.clone(),
            },
            ObjectType::Builtin(k) => ObjectType::Builtin(*k),
            ObjectType::Array(v) => ObjectType::Array(clone_obj_vec(v)),
        }
    }
}

/// Value equality as `==` observes it: same-kind values compare by
/// content, a left-hand return sentinel compares by its payload, and
/// functions and built-ins never compare equal.
pub open spec fn val_eq(a: ValueV, b: ValueV) -> bool
    decreases a,
{
    match (a, b) {
        (ValueV::Null, ValueV::Null) => true,
        (ValueV::Integer(i), ValueV::Integer(j)) => i == j,
        (ValueV::Boolean(p), ValueV::Boolean(q)) => p == q,
        (ValueV::String(s), ValueV::String(t)) => s == t,
        (ValueV::Return(x), _) => val_eq(*x, b),
        (ValueV::Function { .. }, ValueV::Function { .. }) => false,
        (ValueV::Builtin(_), ValueV::Builtin(_)) => false,
        (ValueV::Array(x), ValueV::Array(y)) => vals_eq(x, y),
        _ => false,
    }
}

/// Element-wise value equality of two sequences.
pub open spec fn vals_eq(a: Seq<ValueV>, b: Seq<ValueV>) -> bool
    decreases a,
{
    if a.len() != b.len() {
        false
    } else if a.len() == 0 {
        true
    } else {
        val_eq(a[0], b[0]) && vals_eq(a.drop_first(), b.drop_first())
    }
}

/// Element-wise equality holds exactly when lengths match and every
/// pair of elements is equal.
pub proof fn lemma_vals_eq_iff(a: Seq<ValueV>, b: Seq<ValueV>)
    ensures
        vals_eq(a, b) <==> (a.len() == b.len() && forall|i: int|
            0 <= i < a.len() ==> val_eq(#[trigger] a[i], b[i])),
    decreases a,
{
    if a.len() == b.len() && a.len() != 0 {
        lemma_vals_eq_iff(a.drop_first(), b.drop_first());
        assert forall|i: int| 1 <= i < a.len() implies (val_eq(#[trigger] a[i], b[i])
            == val_eq(a.drop_first()[i - 1], b.drop_first()[i - 1])) by {}
        if val_eq(a[0], b[0]) && vals_eq(a.drop_first(), b.drop_first()) {
            assert forall|i: int| 0 <= i < a.len() implies val_eq(#[trigger] a[i], b[i]) by {
                if i > 0 {
                    assert(val_eq(a.drop_first()[i - 1], b.drop_first()[i - 1]));
                }
            }
        }
    }
}

impl PartialEq for ObjectType {
    /// Value equality; see [`val_eq`] for the exact relation.
    fn eq(&self, other: &Self) -> (r: bool)
        decreases self,
    {
        match (self, other) {
            (ObjectType::Null, ObjectType::Null) => true,
            (ObjectType::Integer(i), ObjectType::Integer(j)) => i == j,
            (ObjectType::Boolean(p), ObjectType::Boolean(q)) => p == q,
            (ObjectType::String(s), ObjectType::String(t)) => {
                crate::strutil::str_eq(s.as_str(), t.as_str())
            },
            (ObjectType::Return(x), _) => (**x).eq(other),
            (ObjectType::Function { .. }, ObjectType::Function { .. }) => false,
            (ObjectType::Builtin(_), ObjectType::Builtin(_)) => false,
            (ObjectType::Array(x), ObjectType::Array(y)) => {
                broadcast use lemma_objs_view_len, lemma_objs_view_index;

                proof {
                    lemma_vals_eq_iff(objs_view(x@), objs_view(y@));
                }
                if x.len() != y.len() {
                    false
                } else {
                    let mut j: usize = 0;
                    let mut r = true;
                    while j < x.len() && r
                        invariant
                            j <= x.len(),
                            *self == ObjectType::Array(*x),
                            x@.len() == y@.len(),
                            r ==> forall|k: int|
                                0 <= k < j ==> val_eq(
                                    obj_view(#[trigger] x@[k]),
                                    obj_view(y@[k]),
                                ),
                            !r ==> exists|k: int|
                                0 <= k < x@.len() && !val_eq(
                                    obj_view(#[trigger] x@[k]),
                                    obj_view(y@[k]),
                                ),
                        decreases x.len() - j,
                    {
                        proof {
                            assert(decreases_to!(*self => self->Array_0));
                            assert(decreases_to!(*x => x@));
                            assert(decreases_to!(x@ => x@[j as int]));
                        }
                        if !x[j].eq(&y[j]) {
                            r = false;
                        }
                        j = j + 1;
                    }
                    proof {
                        lemma_objs_view_len(x@);
                        lemma_objs_view_len(y@);
                        if r {
                            assert forall|i: int|
                                0 <= i < objs_view(x@).len() implies val_eq(
                                #[trigger] objs_view(x@)[i],
                                objs_view(y@)[i],
                            ) by {
                                lemma_objs_view_index(x@, i);
                                lemma_objs_view_index(y@, i);
                            }
                        } else {
                            let k0 = choose|k: int|
                                0 <= k < x@.len() && !val_eq(
                                    obj_view(#[trigger] x@[k]),
                                    obj_view(y@[k]),
                                );
                            lemma_objs_view_index(x@, k0);
                            lemma_objs_view_index(y@, k0);
                            assert(!val_eq(objs_view(x@)[k0], objs_view(y@)[k0]));
                        }
                        lemma_vals_eq_iff(objs_view(x@), objs_view(y@));
                        assert(r == val_eq(self@, other@));
                    }
                    r
                }
            },
            _ => false,
        }
    }
}

impl vstd::std_specs::cmp::PartialEqSpecImpl for ObjectType {
    open spec fn obeys_eq_spec() -> bool {
        true
    }

    open spec fn eq_spec(&self, other: &ObjectType) -> bool {
        val_eq((*self)@, (*other)@)
    }
}

/// The display form of a runtime value: strings print raw, arrays print
/// bracketed and comma-separated, functions print their source form.
pub open spec fn spec_inspect(v: ValueV) -> Seq<char>
    decreases v, 1int,
{
    match v {
        ValueV::Null => "null"@,
        ValueV::Integer(i) => spec_i64_string(i as int),
        ValueV::Boolean(b) => if b {
            "true"@
        } else {
            "false"@
        },
        ValueV::String(s) => s,
        ValueV::Return(b) => spec_inspect(*b),
        ValueV::Function { parameters, body, .. } => "fn("@ + crate::ast::spec_expr_list_string(
            parameters,
        ) + ") {\n"@ + spec_fn_body_string(body) + "}"@,
        ValueV::Builtin(_) => "builtin function"@,
        ValueV::Array(items) => "["@ + spec_inspect_list(items) + "]"@,
    }
}

/// The display form of an array's items, joined by `", "`.
pub open spec fn spec_inspect_list(v: Seq<ValueV>) -> Seq<char>
    decreases v, 2int,
{
    if v.len() == 0 {
        Seq::<char>::empty()
    } else if v.len() == 1 {
        spec_inspect(v[0])
    } else {
        spec_inspect(v[0]) + ", "@ + spec_inspect_list(v.drop_first())
    }
}

/// The display form of a function body: each statement followed by a
/// newline and a tab.
pub open spec fn spec_fn_body_string(v: Seq<StmtV>) -> Seq<char>
    decreases v,
{
    if v.len() == 0 {
        Seq::<char>::empty()
    } else {
        crate::ast::spec_stmt_string(v[0]) + "\n\t"@ + spec_fn_body_string(v.drop_first())
    }
}

/// Appends the display of the array items from index `j` on, joined by
/// `", "`.
fn push_inspect_list(out: &mut Vec<char>, v: &Vec<ObjectType>, j: usize)
    requires
        j <= v@.len(),
    ensures
        final(out)@ == old(out)@ + spec_inspect_list(objs_view(v@).skip(j as int)),
    decreases v, v@.len() - j, 2int,
{
    broadcast use lemma_objs_view_len, lemma_objs_view_index;

    let ghost models = objs_view(v@).skip(j as int);
    if j < v.len() {
        v[j].push_inspect(out);
        if j + 1 < v.len() {
            push_str_chars(out, ", ");
            push_inspect_list(out, v, j + 1);
            assert(models.drop_first() =~= objs_view(v@).skip(j as int + 1));
        } else {
            assert(models.len() == 1);
        }
    }
    assert(final(out)@ =~= old(out)@ + spec_inspect_list(objs_view(v@).skip(j as int)));
}

/// Appends the display of a function body's statements from index `j`
/// on.
fn push_fn_body(out: &mut Vec<char>, v: &Vec<Statement>, j: usize)
    requires
        j <= v@.len(),
    ensures
        final(out)@ == old(out)@ + spec_fn_body_string(stmts_view(v@).skip(j as int)),
    decreases v@.len() - j,
{
    broadcast use lemma_stmts_view_len, lemma_stmts_view_index;

    let ghost models = stmts_view(v@).skip(j as int);
    if j < v.len() {
        v[j].push_display(out);
        push_str_chars(out, "\n\t");
        push_fn_body(out, v, j + 1);
        assert(models.drop_first() =~= stmts_view(v@).skip(j as int + 1));
    }
    assert(final(out)@ =~= old(out)@ + spec_fn_body_string(stmts_view(v@).skip(j as int)));
}

impl ObjectType {
    /// Appends this value's display form to a character buffer.
    pub fn push_inspect(&self, out: &mut Vec<char>)
        ensures
            final(out)@ == old(out)@ + spec_inspect(self@),
        decreases self, 1int,
    {
        match self {
            ObjectType::Null => push_str_chars(out, "null"),
            ObjectType::Integer(i) => push_i64_chars(out, *i),
            ObjectType::Boolean(b) => {
                if *b {
                    push_str_chars(out, "true");
                } else {
                    push_str_chars(out, "false");
                }
            },
            ObjectType::String(s) => {
                let sv = str_to_chars(s.as_str());
                crate::strutil::push_chars(out, &sv);
            },
            ObjectType::Return(b) => {
                (**b).push_inspect(out);
            },
            ObjectType::Function { parameters, body, .. } => {
                broadcast use lemma_exprs_view_len, lemma_exprs_view_index,
                    lemma_stmts_view_len, lemma_stmts_view_index;

                push_str_chars(out, "fn(");
                crate::ast::push_expr_list(out, parameters, 0);
                push_str_chars(out, ") {\n");
                push_fn_body(out, body, 0);
                push_str_chars(out, "}");
                assert(exprs_view(parameters@).skip(0) =~= exprs_view(parameters@));
                assert(stmts_view(body@).skip(0) =~= stmts_view(body@));
                assert(final(out)@ =~= old(out)@ + spec_inspect(self@));
            },
            ObjectType::Builtin(_) => push_str_chars(out, "builtin function"),
            ObjectType::Array(items) => {
                broadcast use lemma_objs_view_len, lemma_objs_view_index;

                push_str_chars(out, "[");
                push_inspect_list(out, items, 0);
                push_str_chars(out, "]");
                assert(objs_view(items@).skip(0) =~= objs_view(items@));
                assert(final(out)@ =~= old(out)@ + spec_inspect(self@));
            },
        }
    }
}

impl Object for ObjectType {
    /// The display form of this value as a `String`.
    fn inspect(&self) -> (r: String)
        ensures
            r@ == spec_inspect(self@),
    {
        let mut out: Vec<char> = Vec::new();
        self.push_inspect(&mut out);
        chars_to_string(&out)
    }
}

} // verus!
