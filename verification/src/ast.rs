use vstd::prelude::*;

verus! {

/// The types of Celeste values.
#[derive(Debug, PartialEq)]
pub enum CelesteType {
    Int,
    String,
    Void,
    Pointer(Box<CelesteType>),
    Array(Box<CelesteType>),
}

impl CelesteType {
    /// A copy of this type.
    pub fn duplicate(&self) -> (r: CelesteType)
        ensures
            r == *self,
        decreases self,
    {
        match self {
            CelesteType::Int => CelesteType::Int,
            CelesteType::String => CelesteType::String,
            CelesteType::Void => CelesteType::Void,
            CelesteType::Pointer(inner) => CelesteType::Pointer(Box::new(inner.duplicate())),
            CelesteType::Array(inner) => CelesteType::Array(Box::new(inner.duplicate())),
        }
    }

    /// Whether two types are the same.
    pub fn same_as(&self, other: &CelesteType) -> (r: bool)
        ensures
            r == (*self == *other),
        decreases self,
    {
        match (self, other) {
            (CelesteType::Int, CelesteType::Int) => true,
            (CelesteType::String, CelesteType::String) => true,
            (CelesteType::Void, CelesteType::Void) => true,
            (CelesteType::Pointer(a), CelesteType::Pointer(b)) => a.same_as(b),
            (CelesteType::Array(a), CelesteType::Array(b)) => a.same_as(b),
            _ => false,
        }
    }
}

/// A named, typed function parameter.
#[derive(Debug)]
pub struct Param {
    pub name: String,
    pub ty: CelesteType,
}

/// A whole program: its top-level statements in source order.
#[derive(Debug)]
pub struct Program {
    pub stmts: Vec<Stmt>,
}

#[derive(Debug)]
pub enum Expr {
    Variable(String),
    Integer(i32),
    StringLiteral(String),
    Binary { op: char, lhs: Box<Expr>, rhs: Box<Expr> },
    Call { name: String, args: Vec<Expr> },
    Unary { op: char, right: Box<Expr> },
    ArrayLiteral(Vec<Expr>),
    Index { array: Box<Expr>, index: Box<Expr> },
    AddressOf(Box<Expr>),
    Deref(Box<Expr>),
}

#[derive(Debug)]
#[allow(inconsistent_fields)]
pub enum Stmt {
    Function { name: String, params: Vec<Param>, return_type: String, body: Vec<Stmt> },
    Return { value: Expr, line: usize },
    Let { name: String, value: Box<Expr>, line: usize },
    Assign { name: String, value: Box<Expr>, line: usize },
    Extern { name: String, arg_types: Vec<CelesteType>, return_type: CelesteType, is_variadic: bool },
    If {
        condition: Expr,
        then_block: Vec<Stmt>,
        else_ifs: Vec<(Expr, Vec<Stmt>)>,
        else_block: Option<Vec<Stmt>>,
        line: usize,
    },
    For { init: Option<Box<Stmt>>, condition: Option<Expr>, post: Option<Box<Stmt>>, body: Vec<Stmt> },
    PtrAssign { ptr_expr: Box<Expr>, value: Box<Expr> },
    IndexAssign { array: Expr, index: Expr, value: Box<Expr> },
    Expression(Expr, usize),
}


/// The mathematical value of an [`Expr`]: names are character sequences.
pub enum SpecExpr {
    Variable(Seq<char>),
    Integer(i32),
    StringLiteral(Seq<char>),
    Binary { op: char, lhs: Box<SpecExpr>, rhs: Box<SpecExpr> },
    Call { name: Seq<char>, args: Seq<SpecExpr> },
    Unary { op: char, right: Box<SpecExpr> },
    ArrayLiteral(Seq<SpecExpr>),
    Index { array: Box<SpecExpr>, index: Box<SpecExpr> },
    AddressOf(Box<SpecExpr>),
    Deref(Box<SpecExpr>),
}

/// The mathematical value of a [`Stmt`].
#[allow(inconsistent_fields)]
pub enum SpecStmt {
    Function { name: Seq<char>, params: Seq<(Seq<char>, CelesteType)>, return_type: Seq<char>, body: Seq<SpecStmt> },
    Return { value: SpecExpr, line: nat },
    Let { name: Seq<char>, value: SpecExpr, line: nat },
    Assign { name: Seq<char>, value: SpecExpr, line: nat },
    Extern { name: Seq<char>, arg_types: Seq<CelesteType>, return_type: CelesteType, is_variadic: bool },
    If {
        condition: SpecExpr,
        then_block: Seq<SpecStmt>,
        else_ifs: Seq<(SpecExpr, Seq<SpecStmt>)>,
        else_block: Option<Seq<SpecStmt>>,
        line: nat,
    },
    For { init: Option<Box<SpecStmt>>, condition: Option<SpecExpr>, post: Option<Box<SpecStmt>>, body: Seq<SpecStmt> },
    PtrAssign { ptr_expr: SpecExpr, value: SpecExpr },
    IndexAssign { array: SpecExpr, index: SpecExpr, value: SpecExpr },
    Expression(SpecExpr, nat),
}

impl View for Expr {
    type V = SpecExpr;

    open spec fn view(&self) -> SpecExpr {
        expr_view(*self)
    }
}

/// The mathematical value of an expression.
pub open spec fn expr_view(e: Expr) -> SpecExpr
    decreases e,
{
    match e {
        Expr::Variable(n) => SpecExpr::Variable(n@),
        Expr::Integer(v) => SpecExpr::Integer(v),
        Expr::StringLiteral(s) => SpecExpr::StringLiteral(s@),
        Expr::Binary { op, lhs, rhs } => SpecExpr::Binary {
            op,
            lhs: Box::new(expr_view(*lhs)),
            rhs: Box::new(expr_view(*rhs)),
        },
        Expr::Call { name, args } => SpecExpr::Call {
            name: name@,
            args: Seq::new(
                args@.len(),
                |i: int| if 0 <= i < args@.len() { expr_view(args@[i]) } else { SpecExpr::Integer(0) },
            ),
        },
        Expr::Unary { op, right } => SpecExpr::Unary { op, right: Box::new(expr_view(*right)) },
        Expr::ArrayLiteral(elems) => SpecExpr::ArrayLiteral(
            Seq::new(
                elems@.len(),
                |i: int| if 0 <= i < elems@.len() { expr_view(elems@[i]) } else { SpecExpr::Integer(0) },
            ),
        ),
        Expr::Index { array, index } => SpecExpr::Index {
            array: Box::new(expr_view(*array)),
            index: Box::new(expr_view(*index)),
        },
        Expr::AddressOf(inner) => SpecExpr::AddressOf(Box::new(expr_view(*inner))),
        Expr::Deref(inner) => SpecExpr::Deref(Box::new(expr_view(*inner))),
    }
}

/// A placeholder statement for positions outside a sequence.
pub open spec fn no_stmt() -> SpecStmt {
    SpecStmt::Expression(SpecExpr::Integer(0), 0)
}

impl View for Stmt {
    type V = SpecStmt;

    open spec fn view(&self) -> SpecStmt {
        stmt_view(*self)
    }
}

/// The mathematical value of a statement.
pub open spec fn stmt_view(s: Stmt) -> SpecStmt
    decreases s,
{
    match s {
        Stmt::Function { name, params, return_type, body } => SpecStmt::Function {
            name: name@,
            params: Seq::new(params@.len(), |i: int| (params@[i].name@, params@[i].ty)),
            return_type: return_type@,
            body: Seq::new(body@.len(), |i: int| if 0 <= i < body@.len() { stmt_view(body@[i]) } else { no_stmt() }),
        },
        Stmt::Return { value, line } => SpecStmt::Return { value: expr_view(value), line: line as nat },
        Stmt::Let { name, value, line } => SpecStmt::Let { name: name@, value: expr_view(*value), line: line as nat },
        Stmt::Assign { name, value, line } => SpecStmt::Assign {
            name: name@,
            value: expr_view(*value),
            line: line as nat,
        },
        Stmt::Extern { name, arg_types, return_type, is_variadic } => SpecStmt::Extern {
            name: name@,
            arg_types: arg_types@,
            return_type,
            is_variadic,
        },
        Stmt::If { condition, then_block, else_ifs, else_block, line } => SpecStmt::If {
            condition: expr_view(condition),
            then_block: Seq::new(
                then_block@.len(),
                |i: int| if 0 <= i < then_block@.len() { stmt_view(then_block@[i]) } else { no_stmt() },
            ),
            else_ifs: Seq::new(
                else_ifs@.len(),
                |i: int|
                    if 0 <= i < else_ifs@.len() {
                        (
                            expr_view(else_ifs@[i].0),
                            Seq::new(
                                else_ifs@[i].1@.len(),
                                |j: int|
                                    if 0 <= j < else_ifs@[i].1@.len() {
                                        stmt_view(else_ifs@[i].1@[j])
                                    } else {
                                        no_stmt()
                                    },
                            ),
                        )
                    } else {
                        (SpecExpr::Integer(0), Seq::empty())
                    },
            ),
            else_block: match else_block {
                Some(b) => Some(Seq::new(b@.len(), |i: int| if 0 <= i < b@.len() { stmt_view(b@[i]) } else { no_stmt() })),
                None => None,
            },
            line: line as nat,
        },
        Stmt::For { init, condition, post, body } => SpecStmt::For {
            init: match init {
                Some(b) => Some(Box::new(stmt_view(*b))),
                None => None,
            },
            condition: match condition {
                Some(c) => Some(expr_view(c)),
                None => None,
            },
            post: match post {
                Some(b) => Some(Box::new(stmt_view(*b))),
                None => None,
            },
            body: Seq::new(body@.len(), |i: int| if 0 <= i < body@.len() { stmt_view(body@[i]) } else { no_stmt() }),
        },
        Stmt::PtrAssign { ptr_expr, value } => SpecStmt::PtrAssign { ptr_expr: expr_view(*ptr_expr), value: expr_view(*value) },
        Stmt::IndexAssign { array, index, value } => SpecStmt::IndexAssign {
            array: expr_view(array),
            index: expr_view(index),
            value: expr_view(*value),
        },
        Stmt::Expression(e, line) => SpecStmt::Expression(expr_view(e), line as nat),
    }
}

/// The values of a sequence of expressions.
pub open spec fn exprs_view(v: Seq<Expr>) -> Seq<SpecExpr> {
    Seq::new(v.len(), |i: int| v[i]@)
}

/// The values of a list of parameters: their names and types.
pub open spec fn params_view(v: Seq<Param>) -> Seq<(Seq<char>, CelesteType)> {
    Seq::new(v.len(), |i: int| (v[i].name@, v[i].ty))
}

/// The values of the `else if` branches of an `if` statement.
pub open spec fn else_ifs_view(v: Seq<(Expr, Vec<Stmt>)>) -> Seq<(SpecExpr, Seq<SpecStmt>)> {
    Seq::new(v.len(), |i: int| (v[i].0@, stmts_view(v[i].1@)))
}

/// The values of a sequence of statements.
pub open spec fn stmts_view(v: Seq<Stmt>) -> Seq<SpecStmt> {
    Seq::new(v.len(), |i: int| v[i]@)
}

} // verus!
