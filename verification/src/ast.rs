//! The abstract syntax tree: expressions, statements and programs,
//! together with their mathematical models and their display forms.
//!
//! The display form is the normalised rendering used by the parser
//! fixtures: every prefix, infix and index expression is printed fully
//! parenthesised.

use vstd::prelude::*;
use crate::strutil::{chars_to_string, push_i64_chars, push_str_chars, str_to_chars,
    spec_i64_string};

verus! {

/// An expression node of the syntax tree.
#[derive(Debug, PartialEq)]
pub enum Expression {
    StringLiteral(String),
    IntegerLiteral(i64),
    BooleanLiteral(bool),
    ArrayLiteral(Vec<Expression>),
    Identifier(String),
    PrefixExpression { operator: String, right: Box<Expression> },
    InfixExpression { left: Box<Expression>, operator: String, right: Box<Expression> },
    GroupedExpression { expression: Box<Expression> },
    IfExpression {
        condition: Box<Expression>,
        consequence: Vec<Statement>,
        alternative: Option<Vec<Statement>>,
    },
    FunctionLiteral { parameters: Vec<Expression>, body: Vec<Statement> },
    CallExpression { function: Box<Expression>, arguments: Vec<Expression> },
    IndexExpression { left: Box<Expression>, index: Box<Expression> },
}

/// A statement node of the syntax tree.
#[derive(Debug, PartialEq)]
pub enum Statement {
    EmptyStatement,
    LetStatement { identifier: String, value: Expression },
    ReturnStatement { value: Expression },
    ExpressionStatement(Expression),
}

/// An ordered sequence of statements delimited by braces.
pub type BlockStatement = Vec<Statement>;

/// A whole source file or line: a block of statements at file scope.
#[derive(Debug)]
pub struct Program {
    pub statements: BlockStatement,
}

/// Mathematical model of an expression: text is `Seq<char>`, children
/// are `Seq` and `Box`, so equality is structural.
pub enum ExprV {
    StringLiteral(Seq<char>),
    IntegerLiteral(i64),
    BooleanLiteral(bool),
    ArrayLiteral(Seq<ExprV>),
    Identifier(Seq<char>),
    PrefixExpression { operator: Seq<char>, right: Box<ExprV> },
    InfixExpression { left: Box<ExprV>, operator: Seq<char>, right: Box<ExprV> },
    GroupedExpression { expression: Box<ExprV> },
    IfExpression {
        condition: Box<ExprV>,
        consequence: Seq<StmtV>,
        alternative: Option<Seq<StmtV>>,
    },
    FunctionLiteral { parameters: Seq<ExprV>, body: Seq<StmtV> },
    CallExpression { function: Box<ExprV>, arguments: Seq<ExprV> },
    IndexExpression { left: Box<ExprV>, index: Box<ExprV> },
}

/// Mathematical model of a statement.
pub enum StmtV {
    EmptyStatement,
    LetStatement { identifier: Seq<char>, value: ExprV },
    ReturnStatement { value: ExprV },
    ExpressionStatement(ExprV),
}

/// The model of an expression node.
pub open spec fn expr_view(e: Expression) -> ExprV
    decreases e,
{
    match e {
        Expression::StringLiteral(s) => ExprV::StringLiteral(s@),
        Expression::IntegerLiteral(i) => ExprV::IntegerLiteral(i),
        Expression::BooleanLiteral(b) => ExprV::BooleanLiteral(b),
        Expression::ArrayLiteral(v) => ExprV::ArrayLiteral(exprs_view(v@)),
        Expression::Identifier(s) => ExprV::Identifier(s@),
        Expression::PrefixExpression { operator, right } => ExprV::PrefixExpression {
            operator: operator@,
            right: Box::new(expr_view(*right)),
        },
        Expression::InfixExpression { left, operator, right } => ExprV::InfixExpression {
            left: Box::new(expr_view(*left)),
            operator: operator@,
            right: Box::new(expr_view(*right)),
        },
        Expression::GroupedExpression { expression } => ExprV::GroupedExpression {
            expression: Box::new(expr_view(*expression)),
        },
        Expression::IfExpression { condition, consequence, alternative } => ExprV::IfExpression {
            condition: Box::new(expr_view(*condition)),
            consequence: stmts_view(consequence@),
            alternative: match alternative {
                Option::Some(b) => Option::Some(stmts_view(b@)),
                Option::None => Option::None,
            },
        },
        Expression::FunctionLiteral { parameters, body } => ExprV::FunctionLiteral {
            parameters: exprs_view(parameters@),
            body: stmts_view(body@),
        },
        Expression::CallExpression { function, arguments } => ExprV::CallExpression {
            function: Box::new(expr_view(*function)),
            arguments: exprs_view(arguments@),
        },
        Expression::IndexExpression { left, index } => ExprV::IndexExpression {
            left: Box::new(expr_view(*left)),
            index: Box::new(expr_view(*index)),
        },
    }
}

/// The models of a sequence of expression nodes.
pub open spec fn exprs_view(v: Seq<Expression>) -> Seq<ExprV>
    decreases v,
{
    if v.len() == 0 {
        Seq::<ExprV>::empty()
    } else {
        seq![expr_view(v[0])] + exprs_view(v.drop_first())
    }
}

/// A sequence of expression models is as long as its source.
pub broadcast proof fn lemma_exprs_view_len(v: Seq<Expression>)
    ensures
        (#[trigger] exprs_view(v)).len() == v.len(),
    decreases v,
{
    if v.len() != 0 {
        lemma_exprs_view_len(v.drop_first());
    }
}

/// Each expression model is the view of the expression at its index.
pub broadcast proof fn lemma_exprs_view_index(v: Seq<Expression>, i: int)
    requires
        0 <= i < v.len(),
    ensures
        #[trigger] exprs_view(v)[i] == expr_view(v[i]),
    decreases v,
{
    lemma_exprs_view_len(v);
    if i > 0 {
        lemma_exprs_view_index(v.drop_first(), i - 1);
    }
}

/// Pushing an expression pushes its model.
pub proof fn lemma_exprs_view_push(v: Seq<Expression>, e: Expression)
    ensures
        exprs_view(v.push(e)) == exprs_view(v).push(expr_view(e)),
{
    lemma_exprs_view_len(v);
    lemma_exprs_view_len(v.push(e));
    assert forall|i: int| 0 <= i < v.push(e).len() implies exprs_view(v.push(e))[i] == exprs_view(
        v,
    ).push(expr_view(e))[i] by {
        lemma_exprs_view_index(v.push(e), i);
        if i < v.len() {
            lemma_exprs_view_index(v, i);
        }
    }
    assert(exprs_view(v.push(e)) =~= exprs_view(v).push(expr_view(e)));
}

/// The model of a statement node.
pub open spec fn stmt_view(s: Statement) -> StmtV
    decreases s,
{
    match s {
        Statement::EmptyStatement => StmtV::EmptyStatement,
        Statement::LetStatement { identifier, value } => StmtV::LetStatement {
            identifier: identifier@,
            value: expr_view(value),
        },
        Statement::ReturnStatement { value } => StmtV::ReturnStatement {
            value: expr_view(value),
        },
        Statement::ExpressionStatement(e) => StmtV::ExpressionStatement(expr_view(e)),
    }
}

/// The models of a sequence of statement nodes.
pub open spec fn stmts_view(v: Seq<Statement>) -> Seq<StmtV>
    decreases v,
{
    if v.len() == 0 {
        Seq::<StmtV>::empty()
    } else {
        seq![stmt_view(v[0])] + stmts_view(v.drop_first())
    }
}

/// A sequence of statement models is as long as its source.
pub broadcast proof fn lemma_stmts_view_len(v: Seq<Statement>)
    ensures
        (#[trigger] stmts_view(v)).len() == v.len(),
    decreases v,
{
    if v.len() != 0 {
        lemma_stmts_view_len(v.drop_first());
    }
}

/// Each statement model is the view of the statement at its index.
pub broadcast proof fn lemma_stmts_view_index(v: Seq<Statement>, i: int)
    requires
        0 <= i < v.len(),
    ensures
        #[trigger] stmts_view(v)[i] == stmt_view(v[i]),
    decreases v,
{
    lemma_stmts_view_len(v);
    if i > 0 {
        lemma_stmts_view_index(v.drop_first(), i - 1);
    }
}

/// Pushing a statement pushes its model.
pub proof fn lemma_stmts_view_push(v: Seq<Statement>, st: Statement)
    ensures
        stmts_view(v.push(st)) == stmts_view(v).push(stmt_view(st)),
{
    lemma_stmts_view_len(v);
    lemma_stmts_view_len(v.push(st));
    assert forall|i: int| 0 <= i < v.push(st).len() implies stmts_view(v.push(st))[i]
        == stmts_view(v).push(stmt_view(st))[i] by {
        lemma_stmts_view_index(v.push(st), i);
        if i < v.len() {
            lemma_stmts_view_index(v, i);
        }
    }
    assert(stmts_view(v.push(st)) =~= stmts_view(v).push(stmt_view(st)));
}

impl View for Expression {
    type V = ExprV;

    open spec fn view(&self) -> ExprV {
        expr_view(*self)
    }
}

impl View for Statement {
    type V = StmtV;

    open spec fn view(&self) -> StmtV {
        stmt_view(*self)
    }
}

impl View for Program {
    type V = Seq<StmtV>;

    open spec fn view(&self) -> Seq<StmtV> {
        stmts_view(self.statements@)
    }
}

/// Clones a vector of expressions; the models are preserved exactly.
pub fn clone_expr_vec(v: &Vec<Expression>) -> (r: Vec<Expression>)
    ensures
        exprs_view(r@) == exprs_view(v@),
        r@.len() == v@.len(),
    decreases v,
{
    broadcast use lemma_exprs_view_len, lemma_exprs_view_index, lemma_stmts_view_len, lemma_stmts_view_index;
    let mut r: Vec<Expression> = Vec::new();
    let mut j: usize = 0;
    while j < v.len()
        invariant
            j <= v.len(),
            r@.len() == j,
            forall|k: int| 0 <= k < j ==> expr_view(#[trigger] r@[k]) == expr_view(v@[k]),
        decreases v.len() - j,
    {
        r.push(v[j].clone());
        j = j + 1;
    }
    assert(exprs_view(r@) =~= exprs_view(v@));
    r
}

/// Clones a block of statements; the models are preserved exactly.
pub fn clone_stmt_vec(v: &Vec<Statement>) -> (r: Vec<Statement>)
    ensures
        stmts_view(r@) == stmts_view(v@),
        r@.len() == v@.len(),
    decreases v,
{
    broadcast use lemma_exprs_view_len, lemma_exprs_view_index, lemma_stmts_view_len, lemma_stmts_view_index;
    let mut r: Vec<Statement> = Vec::new();
    let mut j: usize = 0;
    while j < v.len()
        invariant
            j <= v.len(),
            r@.len() == j,
            forall|k: int| 0 <= k < j ==> stmt_view(#[trigger] r@[k]) == stmt_view(v@[k]),
        decreases v.len() - j,
    {
        r.push(v[j].clone());
        j = j + 1;
    }
    assert(stmts_view(r@) =~= stmts_view(v@));
    r
}

impl Clone for Expression {
    /// Clones preserve the modelled expression exactly.
    fn clone(&self) -> (r: Self)
        ensures
            r@ == self@,
        decreases self,
    {
        match self {
            Expression::StringLiteral(s) => Expression::StringLiteral(s.clone()),
            Expression::IntegerLiteral(i) => Expression::IntegerLiteral(*i),
            Expression::BooleanLiteral(b) => Expression::BooleanLiteral(*b),
            Expression::ArrayLiteral(v) => Expression::ArrayLiteral(clone_expr_vec(v)),
            Expression::Identifier(s) => Expression::Identifier(s.clone()),
            Expression::PrefixExpression { operator, right } => Expression::PrefixExpression {
                operator: operator.clone(),
                right: Box::new((**right).clone()),
            },
            Expression::InfixExpression { left, operator, right } => Expression::InfixExpression {
                left: Box::new((**left).clone()),
                operator: operator.clone(),
                right: Box::new((**right).clone()),
            },
            Expression::GroupedExpression { expression } => Expression::GroupedExpression {
                expression: Box::new((**expression).clone()),
            },
            Expression::IfExpression { condition, consequence, alternative } => {
                let alt: Option<Vec<Statement>> = match alternative {
                    Option::Some(b) => Option::Some(clone_stmt_vec(b)),
                    Option::None => Option::None,
                };
                Expression::IfExpression {
                    condition: Box::new((**condition).clone()),
                    consequence: clone_stmt_vec(consequence),
                    alternative: alt,
                }
            },
            Expression::FunctionLiteral { parameters, body } => Expression::FunctionLiteral {
                parameters: clone_expr_vec(parameters),
                body: clone_stmt_vec(body),
            },
            Expression::CallExpression { function, arguments } => Expression::CallExpression {
                function: Box::new((**function).clone()),
                arguments: clone_expr_vec(arguments),
            },
            Expression::IndexExpression { left, index } => Expression::IndexExpression {
                left: Box::new((**left).clone()),
                index: Box::new((**index).clone()),
            },
        }
    }
}

impl Clone for Statement {
    /// Clones preserve the modelled statement exactly.
    fn clone(&self) -> (r: Self)
        ensures
            r@ == self@,
        decreases self,
    {
        match self {
            Statement::EmptyStatement => Statement::EmptyStatement,
            Statement::LetStatement { identifier, value } => Statement::LetStatement {
                identifier: identifier.clone(),
                value: value.clone(),
            },
            Statement::ReturnStatement { value } => Statement::ReturnStatement {
                value: value.clone(),
            },
            Statement::ExpressionStatement(e) => Statement::ExpressionStatement(e.clone()),
        }
    }
}

/// The display form of an expression, fully parenthesised.
pub open spec fn spec_expr_string(e: ExprV) -> Seq<char>
    decreases e, 1int,
{
    match e {
        ExprV::StringLiteral(s) => s,
        ExprV::IntegerLiteral(i) => spec_i64_string(i as int),
        ExprV::BooleanLiteral(b) => if b {
            "true"@
        } else {
            "false"@
        },
        ExprV::ArrayLiteral(v) => "["@ + spec_expr_list_string(v) + "]"@,
        ExprV::Identifier(s) => s,
        ExprV::PrefixExpression { operator, right } => "("@ + operator + spec_expr_string(*right)
            + ")"@,
        ExprV::InfixExpression { left, operator, right } => "("@ + spec_expr_string(*left) + " "@
            + operator + " "@ + spec_expr_string(*right) + ")"@,
        ExprV::GroupedExpression { expression } => "("@ + spec_expr_string(*expression) + ")"@,
        ExprV::IfExpression { condition, consequence, alternative } => "if "@
            + spec_expr_string(*condition) + " { "@ + spec_block_string(consequence) + " }"@
            + match alternative {
                Option::Some(alt) => " else { "@ + spec_block_string(alt) + " }"@,
                Option::None => Seq::<char>::empty(),
            },
        ExprV::FunctionLiteral { parameters, body } => "fn("@ + spec_expr_list_string(parameters)
            + ") { "@ + spec_block_string(body) + " }"@,
        ExprV::CallExpression { function, arguments } => spec_expr_string(*function) + "("@
            + spec_expr_list_string(arguments) + ")"@,
        ExprV::IndexExpression { left, index } => "("@ + spec_expr_string(*left) + "["@
            + spec_expr_string(*index) + "])"@,
    }
}

/// The display form of an expression list: elements joined by `", "`.
pub open spec fn spec_expr_list_string(v: Seq<ExprV>) -> Seq<char>
    decreases v, 2int,
{
    if v.len() == 0 {
        Seq::<char>::empty()
    } else if v.len() == 1 {
        spec_expr_string(v[0])
    } else {
        spec_expr_string(v[0]) + ", "@ + spec_expr_list_string(v.drop_first())
    }
}

/// The display form of a block: statement strings concatenated.
pub open spec fn spec_block_string(v: Seq<StmtV>) -> Seq<char>
    decreases v, 2int,
{
    if v.len() == 0 {
        Seq::<char>::empty()
    } else {
        spec_stmt_string(v[0]) + spec_block_string(v.drop_first())
    }
}

/// The display form of a statement.  Expression statements end in a
/// semicolon unless the expression is an `if` expression.
pub open spec fn spec_stmt_string(s: StmtV) -> Seq<char>
    decreases s, 2int,
{
    match s {
        StmtV::EmptyStatement => Seq::<char>::empty(),
        StmtV::LetStatement { identifier, value } => "let "@ + identifier + " = "@
            + spec_expr_string(value) + ";"@,
        StmtV::ReturnStatement { value } => "return "@ + spec_expr_string(value) + ";"@,
        StmtV::ExpressionStatement(e) => match e {
            ExprV::IfExpression { .. } => spec_expr_string(e),
            _ => spec_expr_string(e) + ";"@,
        },
    }
}

/// The display form of a program: each statement on its own line.
pub open spec fn spec_program_string(v: Seq<StmtV>) -> Seq<char>
    decreases v,
{
    if v.len() == 0 {
        Seq::<char>::empty()
    } else {
        spec_stmt_string(v[0]) + "\n"@ + spec_program_string(v.drop_first())
    }
}

/// Appends the display of the expressions from index `j` on, joined by
/// `", "`.
pub(crate) fn push_expr_list(out: &mut Vec<char>, v: &Vec<Expression>, j: usize)
    requires
        j <= v@.len(),
    ensures
        final(out)@ == old(out)@ + spec_expr_list_string(exprs_view(v@).skip(j as int)),
    decreases v, v@.len() - j, 2int,
{
    broadcast use lemma_exprs_view_len, lemma_exprs_view_index, lemma_stmts_view_len, lemma_stmts_view_index;
    let ghost models = exprs_view(v@).skip(j as int);
    if j < v.len() {
        v[j].push_display(out);
        if j + 1 < v.len() {
            push_str_chars(out, ", ");
            push_expr_list(out, v, j + 1);
            assert(models.drop_first() =~= exprs_view(v@).skip(j as int + 1));
        } else {
            assert(models.len() == 1);
        }
    }
    assert(final(out)@ =~= old(out)@ + spec_expr_list_string(exprs_view(v@).skip(j as int)));
}

/// Appends the display of the statements from index `j` on.
pub(crate) fn push_block(out: &mut Vec<char>, v: &Vec<Statement>, j: usize)
    requires
        j <= v@.len(),
    ensures
        final(out)@ == old(out)@ + spec_block_string(stmts_view(v@).skip(j as int)),
    decreases v, v@.len() - j, 2int,
{
    broadcast use lemma_exprs_view_len, lemma_exprs_view_index, lemma_stmts_view_len, lemma_stmts_view_index;
    let ghost models = stmts_view(v@).skip(j as int);
    if j < v.len() {
        v[j].push_display(out);
        push_block(out, v, j + 1);
        assert(models.drop_first() =~= stmts_view(v@).skip(j as int + 1));
    }
    assert(final(out)@ =~= old(out)@ + spec_block_string(stmts_view(v@).skip(j as int)));
}

impl Expression {
    /// Appends this expression's display form to a character buffer.
    pub fn push_display(&self, out: &mut Vec<char>)
        ensures
            final(out)@ == old(out)@ + spec_expr_string(self@),
        decreases self, 1int,
    {
        match self {
            Expression::StringLiteral(s) => {
                let sv = str_to_chars(s.as_str());
                crate::strutil::push_chars(out, &sv);
            },
            Expression::IntegerLiteral(i) => {
                push_i64_chars(out, *i);
            },
            Expression::BooleanLiteral(b) => {
                if *b {
                    push_str_chars(out, "true");
                } else {
                    push_str_chars(out, "false");
                }
            },
            Expression::ArrayLiteral(v) => {
                push_str_chars(out, "[");
                push_expr_list(out, v, 0);
                push_str_chars(out, "]");
                assert(exprs_view(v@).skip(0) =~= exprs_view(v@));
                assert(final(out)@ =~= old(out)@ + spec_expr_string(self@));
            },
            Expression::Identifier(s) => {
                let sv = str_to_chars(s.as_str());
                crate::strutil::push_chars(out, &sv);
            },
            Expression::PrefixExpression { operator, right } => {
                push_str_chars(out, "(");
                let ov = str_to_chars(operator.as_str());
                crate::strutil::push_chars(out, &ov);
                right.push_display(out);
                push_str_chars(out, ")");
                assert(final(out)@ =~= old(out)@ + spec_expr_string(self@));
            },
            Expression::InfixExpression { left, operator, right } => {
                push_str_chars(out, "(");
                left.push_display(out);
                push_str_chars(out, " ");
                let ov = str_to_chars(operator.as_str());
                crate::strutil::push_chars(out, &ov);
                push_str_chars(out, " ");
                right.push_display(out);
                push_str_chars(out, ")");
                assert(final(out)@ =~= old(out)@ + spec_expr_string(self@));
            },
            Expression::GroupedExpression { expression } => {
                push_str_chars(out, "(");
                expression.push_display(out);
                push_str_chars(out, ")");
                assert(final(out)@ =~= old(out)@ + spec_expr_string(self@));
            },
            Expression::IfExpression { condition, consequence, alternative } => {
                push_str_chars(out, "if ");
                condition.push_display(out);
                push_str_chars(out, " { ");
                push_block(out, consequence, 0);
                push_str_chars(out, " }");
                assert(stmts_view(consequence@).skip(0) =~= stmts_view(consequence@));
                match alternative {
                    Option::Some(alt) => {
                        push_str_chars(out, " else { ");
                        push_block(out, alt, 0);
                        push_str_chars(out, " }");
                        assert(stmts_view(alt@).skip(0) =~= stmts_view(alt@));
                    },
                    Option::None => {},
                }
                assert(final(out)@ =~= old(out)@ + spec_expr_string(self@));
            },
            Expression::FunctionLiteral { parameters, body } => {
                push_str_chars(out, "fn(");
                push_expr_list(out, parameters, 0);
                push_str_chars(out, ") { ");
                push_block(out, body, 0);
                push_str_chars(out, " }");
                assert(exprs_view(parameters@).skip(0) =~= exprs_view(parameters@));
                assert(stmts_view(body@).skip(0) =~= stmts_view(body@));
                assert(final(out)@ =~= old(out)@ + spec_expr_string(self@));
            },
            Expression::CallExpression { function, arguments } => {
                function.push_display(out);
                push_str_chars(out, "(");
                push_expr_list(out, arguments, 0);
                push_str_chars(out, ")");
                assert(exprs_view(arguments@).skip(0) =~= exprs_view(arguments@));
                assert(final(out)@ =~= old(out)@ + spec_expr_string(self@));
            },
            Expression::IndexExpression { left, index } => {
                push_str_chars(out, "(");
                left.push_display(out);
                push_str_chars(out, "[");
                index.push_display(out);
                push_str_chars(out, "])");
                assert(final(out)@ =~= old(out)@ + spec_expr_string(self@));
            },
        }
    }

    /// The display form of this expression as a `String`.
    pub fn to_string(&self) -> (r: String)
        ensures
            r@ == spec_expr_string(self@),
    {
        let mut out: Vec<char> = Vec::new();
        self.push_display(&mut out);
        chars_to_string(&out)
    }
}

impl Statement {
    /// Appends this statement's display form to a character buffer.
    pub fn push_display(&self, out: &mut Vec<char>)
        ensures
            final(out)@ == old(out)@ + spec_stmt_string(self@),
        decreases self, 2int,
    {
        match self {
            Statement::EmptyStatement => {},
            Statement::LetStatement { identifier, value } => {
                push_str_chars(out, "let ");
                let iv = str_to_chars(identifier.as_str());
                crate::strutil::push_chars(out, &iv);
                push_str_chars(out, " = ");
                value.push_display(out);
                push_str_chars(out, ";");
                assert(final(out)@ =~= old(out)@ + spec_stmt_string(self@));
            },
            Statement::ReturnStatement { value } => {
                push_str_chars(out, "return ");
                value.push_display(out);
                push_str_chars(out, ";");
                assert(final(out)@ =~= old(out)@ + spec_stmt_string(self@));
            },
            Statement::ExpressionStatement(e) => {
                e.push_display(out);
                match e {
                    Expression::IfExpression { .. } => {},
                    _ => {
                        push_str_chars(out, ";");
                    },
                }
            },
        }
    }

    /// The display form of this statement as a `String`.
    pub fn to_string(&self) -> (r: String)
        ensures
            r@ == spec_stmt_string(self@),
    {
        let mut out: Vec<char> = Vec::new();
        self.push_display(&mut out);
        chars_to_string(&out)
    }
}

/// Appends the display of the program statements from index `j` on, one
/// line each.
fn push_program(out: &mut Vec<char>, v: &Vec<Statement>, j: usize)
    requires
        j <= v@.len(),
    ensures
        final(out)@ == old(out)@ + spec_program_string(stmts_view(v@).skip(j as int)),
    decreases v@.len() - j,
{
    broadcast use lemma_exprs_view_len, lemma_exprs_view_index, lemma_stmts_view_len, lemma_stmts_view_index;
    let ghost models = stmts_view(v@).skip(j as int);
    if j < v.len() {
        v[j].push_display(out);
        push_str_chars(out, "\n");
        push_program(out, v, j + 1);
        assert(models.drop_first() =~= stmts_view(v@).skip(j as int + 1));
    }
    assert(final(out)@ =~= old(out)@ + spec_program_string(stmts_view(v@).skip(j as int)));
}

impl Program {
    /// The display form of this program as a `String`: each statement
    /// followed by a newline.
    pub fn to_string(&self) -> (r: String)
        ensures
            r@ == spec_program_string(self@),
    {
        let mut out: Vec<char> = Vec::new();
        push_program(&mut out, &self.statements, 0);
        assert(stmts_view(self.statements@).skip(0) =~= stmts_view(self.statements@));
        chars_to_string(&out)
    }
}

impl Default for Program {
    /// The empty program.
    fn default() -> (r: Self)
        ensures
            r@ == Seq::<StmtV>::empty(),
    {
        let r = Program { statements: Vec::new() };
        assert(r@ =~= Seq::<StmtV>::empty());
        r
    }
}

} // verus!
