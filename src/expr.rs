use vstd::prelude::*;
use crate::token::{Object, Token};

verus! {

/// An expression: a strict tree in which each node owns its children.
#[derive(Debug)]
pub enum Expr {
    Assign(Assign),
    Binary(Binary),
    Call(Call),
    Get(Get),
    Grouping(Grouping),
    Literal(Literal),
    Logical(Logical),
    SetField(SetField),
    Super(Super),
    This(This),
    Unary(Unary),
    Variable(Variable),
}

/// One pass over expressions (evaluation, printing, resolution): a method
/// for each kind of node, each returning the pass's value or its error.
///
/// Each method is described by a spec function on the same node, so that
/// `accept` can state which method produced its result. A verified
/// implementation overrides those spec functions to describe its methods;
/// left as they are, they name an unknown value.
pub trait Visitor<T, E> {
    closed spec fn visited_assign(&self, expr: Assign) -> Result<T, E> {
        arbitrary()
    }

    closed spec fn visited_binary(&self, expr: Binary) -> Result<T, E> {
        arbitrary()
    }

    closed spec fn visited_call(&self, expr: Call) -> Result<T, E> {
        arbitrary()
    }

    closed spec fn visited_get(&self, expr: Get) -> Result<T, E> {
        arbitrary()
    }

    closed spec fn visited_group(&self, expr: Grouping) -> Result<T, E> {
        arbitrary()
    }

    closed spec fn visited_literal(&self, expr: Literal) -> Result<T, E> {
        arbitrary()
    }

    closed spec fn visited_logical(&self, expr: Logical) -> Result<T, E> {
        arbitrary()
    }

    closed spec fn visited_set(&self, expr: SetField) -> Result<T, E> {
        arbitrary()
    }

    closed spec fn visited_super(&self, expr: Super) -> Result<T, E> {
        arbitrary()
    }

    closed spec fn visited_this(&self, expr: This) -> Result<T, E> {
        arbitrary()
    }

    closed spec fn visited_unary(&self, expr: Unary) -> Result<T, E> {
        arbitrary()
    }

    closed spec fn visited_variable(&self, expr: Variable) -> Result<T, E> {
        arbitrary()
    }

    fn visit_assign_expr(&self, expr: &Assign) -> (r: Result<T, E>)
        ensures
            r == self.visited_assign(*expr),
    ;

    fn visit_binary_expr(&self, expr: &Binary) -> (r: Result<T, E>)
        ensures
            r == self.visited_binary(*expr),
    ;

    fn visit_call_expr(&self, expr: &Call) -> (r: Result<T, E>)
        ensures
            r == self.visited_call(*expr),
    ;

    fn visit_get_expr(&self, expr: &Get) -> (r: Result<T, E>)
        ensures
            r == self.visited_get(*expr),
    ;

    fn visit_group_expr(&self, expr: &Grouping) -> (r: Result<T, E>)
        ensures
            r == self.visited_group(*expr),
    ;

    fn visit_literal_expr(&self, expr: &Literal) -> (r: Result<T, E>)
        ensures
            r == self.visited_literal(*expr),
    ;

    fn visit_logical_expr(&self, expr: &Logical) -> (r: Result<T, E>)
        ensures
            r == self.visited_logical(*expr),
    ;

    fn visit_set_expr(&self, expr: &SetField) -> (r: Result<T, E>)
        ensures
            r == self.visited_set(*expr),
    ;

    fn visit_super_expr(&self, expr: &Super) -> (r: Result<T, E>)
        ensures
            r == self.visited_super(*expr),
    ;

    fn visit_this_expr(&self, expr: &This) -> (r: Result<T, E>)
        ensures
            r == self.visited_this(*expr),
    ;

    fn visit_unary_expr(&self, expr: &Unary) -> (r: Result<T, E>)
        ensures
            r == self.visited_unary(*expr),
    ;

    fn visit_variable_expr(&self, expr: &Variable) -> (r: Result<T, E>)
        ensures
            r == self.visited_variable(*expr),
    ;
}

impl Expr {
    /// The result of the visitor method that matches this node's kind.
    pub open spec fn dispatched<T, E, V: Visitor<T, E>>(self, visitor: V) -> Result<T, E> {
        match self {
            Expr::Assign(e) => visitor.visited_assign(e),
            Expr::Binary(e) => visitor.visited_binary(e),
            Expr::Call(e) => visitor.visited_call(e),
            Expr::Get(e) => visitor.visited_get(e),
            Expr::Grouping(e) => visitor.visited_group(e),
            Expr::Literal(e) => visitor.visited_literal(e),
            Expr::Logical(e) => visitor.visited_logical(e),
            Expr::SetField(e) => visitor.visited_set(e),
            Expr::Super(e) => visitor.visited_super(e),
            Expr::This(e) => visitor.visited_this(e),
            Expr::Unary(e) => visitor.visited_unary(e),
            Expr::Variable(e) => visitor.visited_variable(e),
        }
    }

    /// Hands the node to the visitor method for its kind and returns what
    /// that method returns, error included.
    pub fn accept<T, E, V: Visitor<T, E>>(&self, visitor: &V) -> (r: Result<T, E>)
        ensures
            r == self.dispatched(*visitor),
    {
        match self {
            Expr::Assign(e) => e.accept(visitor),
            Expr::Binary(e) => e.accept(visitor),
            Expr::Call(e) => e.accept(visitor),
            Expr::Get(e) => e.accept(visitor),
            Expr::Grouping(e) => e.accept(visitor),
            Expr::Literal(e) => e.accept(visitor),
            Expr::Logical(e) => e.accept(visitor),
            Expr::SetField(e) => e.accept(visitor),
            Expr::Super(e) => e.accept(visitor),
            Expr::This(e) => e.accept(visitor),
            Expr::Unary(e) => e.accept(visitor),
            Expr::Variable(e) => e.accept(visitor),
        }
    }
}

/// Dispatch is exact: for every kind of node, a visitor whose method for that
/// kind gives `sentinel` makes `accept` give `sentinel`, whatever its other
/// methods would give.
pub proof fn lemma_dispatch_exact<T, E, V: Visitor<T, E>>(e: Expr, visitor: V, sentinel: T)
    requires
        match e {
            Expr::Assign(n) => visitor.visited_assign(n) == Ok::<T, E>(sentinel),
            Expr::Binary(n) => visitor.visited_binary(n) == Ok::<T, E>(sentinel),
            Expr::Call(n) => visitor.visited_call(n) == Ok::<T, E>(sentinel),
            Expr::Get(n) => visitor.visited_get(n) == Ok::<T, E>(sentinel),
            Expr::Grouping(n) => visitor.visited_group(n) == Ok::<T, E>(sentinel),
            Expr::Literal(n) => visitor.visited_literal(n) == Ok::<T, E>(sentinel),
            Expr::Logical(n) => visitor.visited_logical(n) == Ok::<T, E>(sentinel),
            Expr::SetField(n) => visitor.visited_set(n) == Ok::<T, E>(sentinel),
            Expr::Super(n) => visitor.visited_super(n) == Ok::<T, E>(sentinel),
            Expr::This(n) => visitor.visited_this(n) == Ok::<T, E>(sentinel),
            Expr::Unary(n) => visitor.visited_unary(n) == Ok::<T, E>(sentinel),
            Expr::Variable(n) => visitor.visited_variable(n) == Ok::<T, E>(sentinel),
        },
    ensures
        e.dispatched(visitor) == Ok::<T, E>(sentinel),
{
}

/// Assignment of a value to a named variable.
#[derive(Debug)]
pub struct Assign {
    pub name: Token,
    pub value: Box<Expr>,
}

impl Assign {
    pub fn new(name: Token, value: Box<Expr>) -> (r: Assign)
        ensures
            r == (Assign { name, value }),
    {
        Assign { name, value }
    }

    pub fn accept<T, E, V: Visitor<T, E>>(&self, visitor: &V) -> (r: Result<T, E>)
        ensures
            r == visitor.visited_assign(*self),
    {
        visitor.visit_assign_expr(self)
    }
}

/// An infix operator applied to two operands.
#[derive(Debug)]
pub struct Binary {
    pub left: Box<Expr>,
    pub operator: Token,
    pub right: Box<Expr>,
}

impl Binary {
    pub fn new(left: Box<Expr>, operator: Token, right: Box<Expr>) -> (r: Binary)
        ensures
            r == (Binary { left, operator, right }),
    {
        Binary { left, operator, right }
    }

    pub fn accept<T, E, V: Visitor<T, E>>(&self, visitor: &V) -> (r: Result<T, E>)
        ensures
            r == visitor.visited_binary(*self),
    {
        visitor.visit_binary_expr(self)
    }
}

/// A call; `paren` is the closing parenthesis, kept for diagnostics.
#[derive(Debug)]
pub struct Call {
    pub callee: Box<Expr>,
    pub paren: Token,
    pub arguments: Vec<Expr>,
}

impl Call {
    pub fn new(callee: Box<Expr>, paren: Token, arguments: Vec<Expr>) -> (r: Call)
        ensures
            r == (Call { callee, paren, arguments }),
    {
        Call { callee, paren, arguments }
    }

    pub fn accept<T, E, V: Visitor<T, E>>(&self, visitor: &V) -> (r: Result<T, E>)
        ensures
            r == visitor.visited_call(*self),
    {
        visitor.visit_call_expr(self)
    }
}

/// Reading a member of an object.
#[derive(Debug)]
pub struct Get {
    pub object: Box<Expr>,
    pub name: Token,
}

impl Get {
    pub fn new(object: Box<Expr>, name: Token) -> (r: Get)
        ensures
            r == (Get { object, name }),
    {
        Get { object, name }
    }

    pub fn accept<T, E, V: Visitor<T, E>>(&self, visitor: &V) -> (r: Result<T, E>)
        ensures
            r == visitor.visited_get(*self),
    {
        visitor.visit_get_expr(self)
    }
}

/// A parenthesized expression.
#[derive(Debug)]
pub struct Grouping {
    pub expression: Box<Expr>,
}

impl Grouping {
    pub fn new(expression: Box<Expr>) -> (r: Grouping)
        ensures
            r == (Grouping { expression }),
    {
        Grouping { expression }
    }

    pub fn accept<T, E, V: Visitor<T, E>>(&self, visitor: &V) -> (r: Result<T, E>)
        ensures
            r == visitor.visited_group(*self),
    {
        visitor.visit_group_expr(self)
    }
}

/// A literal value.
#[derive(Debug)]
pub struct Literal {
    pub value: Object,
}

impl Literal {
    pub fn new(value: Object) -> (r: Literal)
        ensures
            r == (Literal { value }),
    {
        Literal { value }
    }

    pub fn accept<T, E, V: Visitor<T, E>>(&self, visitor: &V) -> (r: Result<T, E>)
        ensures
            r == visitor.visited_literal(*self),
    {
        visitor.visit_literal_expr(self)
    }
}

/// A short-circuiting `and` or `or`.
#[derive(Debug)]
pub struct Logical {
    pub left: Box<Expr>,
    pub operator: Token,
    pub right: Box<Expr>,
}

impl Logical {
    pub fn new(left: Box<Expr>, operator: Token, right: Box<Expr>) -> (r: Logical)
        ensures
            r == (Logical { left, operator, right }),
    {
        Logical { left, operator, right }
    }

    pub fn accept<T, E, V: Visitor<T, E>>(&self, visitor: &V) -> (r: Result<T, E>)
        ensures
            r == visitor.visited_logical(*self),
    {
        visitor.visit_logical_expr(self)
    }
}

/// Writing a member of an object.
#[derive(Debug)]
pub struct SetField {
    pub object: Box<Expr>,
    pub name: Token,
    pub value: Box<Expr>,
}

impl SetField {
    pub fn new(object: Box<Expr>, name: Token, value: Box<Expr>) -> (r: SetField)
        ensures
            r == (SetField { object, name, value }),
    {
        SetField { object, name, value }
    }

    pub fn accept<T, E, V: Visitor<T, E>>(&self, visitor: &V) -> (r: Result<T, E>)
        ensures
            r == visitor.visited_set(*self),
    {
        visitor.visit_set_expr(self)
    }
}

/// A method looked up on the superclass.
#[derive(Debug)]
pub struct Super {
    pub keyword: Token,
    pub method: Token,
}

impl Super {
    pub fn new(keyword: Token, method: Token) -> (r: Super)
        ensures
            r == (Super { keyword, method }),
    {
        Super { keyword, method }
    }

    pub fn accept<T, E, V: Visitor<T, E>>(&self, visitor: &V) -> (r: Result<T, E>)
        ensures
            r == visitor.visited_super(*self),
    {
        visitor.visit_super_expr(self)
    }
}

/// The receiver of the current method.
#[derive(Debug)]
pub struct This {
    pub keyword: Token,
}

impl This {
    pub fn new(keyword: Token) -> (r: This)
        ensures
            r == (This { keyword }),
    {
        This { keyword }
    }

    pub fn accept<T, E, V: Visitor<T, E>>(&self, visitor: &V) -> (r: Result<T, E>)
        ensures
            r == visitor.visited_this(*self),
    {
        visitor.visit_this_expr(self)
    }
}

/// A prefix operator applied to one operand.
#[derive(Debug)]
pub struct Unary {
    pub operator: Token,
    pub right: Box<Expr>,
}

impl Unary {
    pub fn new(operator: Token, right: Box<Expr>) -> (r: Unary)
        ensures
            r == (Unary { operator, right }),
    {
        Unary { operator, right }
    }

    pub fn accept<T, E, V: Visitor<T, E>>(&self, visitor: &V) -> (r: Result<T, E>)
        ensures
            r == visitor.visited_unary(*self),
    {
        visitor.visit_unary_expr(self)
    }
}

/// A reference to a named variable.
#[derive(Debug)]
pub struct Variable {
    pub name: Token,
}

impl Variable {
    pub fn new(name: Token) -> (r: Variable)
        ensures
            r == (Variable { name }),
    {
        Variable { name }
    }

    pub fn accept<T, E, V: Visitor<T, E>>(&self, visitor: &V) -> (r: Result<T, E>)
        ensures
            r == visitor.visited_variable(*self),
    {
        visitor.visit_variable_expr(self)
    }
}

} // verus!
