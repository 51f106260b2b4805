//! Arithmetic expressions over doubles.
use vstd::prelude::*;
use crate::number::Number;

verus! {

/// A closed-form expression over doubles.
///
/// Each node names one operation on doubles: the four operations of
/// IEEE-754 arithmetic, the square root, and the two powers as the standard
/// library computes them (`powi`, `powf`). Evaluating a tree from the leaves
/// up performs the operations in one fixed order, so that a tree stands for
/// one double.
#[derive(Debug)]
pub enum Expr {
    /// A double, given by its bits.
    Const(Number),
    /// The sum of the two.
    Add(Box<Expr>, Box<Expr>),
    /// The first less the second.
    Sub(Box<Expr>, Box<Expr>),
    /// The product of the two.
    Mul(Box<Expr>, Box<Expr>),
    /// The first divided by the second.
    Div(Box<Expr>, Box<Expr>),
    /// The base raised to an integer power.
    Powi(Box<Expr>, i32),
    /// The base raised to a real power.
    Powf(Box<Expr>, Box<Expr>),
    /// The square root.
    Sqrt(Box<Expr>),
}

impl Expr {
    /// `a + b`
    pub open spec fn sum(a: Expr, b: Expr) -> Expr {
        Expr::Add(Box::new(a), Box::new(b))
    }

    /// `a - b`
    pub open spec fn difference(a: Expr, b: Expr) -> Expr {
        Expr::Sub(Box::new(a), Box::new(b))
    }

    /// `a * b`
    pub open spec fn product(a: Expr, b: Expr) -> Expr {
        Expr::Mul(Box::new(a), Box::new(b))
    }

    /// `a / b`
    pub open spec fn quotient(a: Expr, b: Expr) -> Expr {
        Expr::Div(Box::new(a), Box::new(b))
    }

    /// `a` raised to the integer power `n`.
    pub open spec fn int_power(a: Expr, n: i32) -> Expr {
        Expr::Powi(Box::new(a), n)
    }

    /// `a` raised to the real power `b`.
    pub open spec fn real_power(a: Expr, b: Expr) -> Expr {
        Expr::Powf(Box::new(a), Box::new(b))
    }

    /// The square root of `a`.
    pub open spec fn square_root(a: Expr) -> Expr {
        Expr::Sqrt(Box::new(a))
    }

    /// `a` raised to the integer power 2.
    pub open spec fn square(a: Expr) -> Expr {
        Expr::int_power(a, 2)
    }

    /// The double `x` as an expression.
    pub fn number(x: Number) -> (e: Expr)
        ensures
            e == Expr::Const(x),
    {
        Expr::Const(x)
    }

    /// Builds `a + b`.
    pub fn plus(a: Expr, b: Expr) -> (e: Expr)
        ensures
            e == Expr::sum(a, b),
    {
        Expr::Add(Box::new(a), Box::new(b))
    }

    /// Builds `a - b`.
    pub fn minus(a: Expr, b: Expr) -> (e: Expr)
        ensures
            e == Expr::difference(a, b),
    {
        Expr::Sub(Box::new(a), Box::new(b))
    }

    /// Builds `a * b`.
    pub fn times(a: Expr, b: Expr) -> (e: Expr)
        ensures
            e == Expr::product(a, b),
    {
        Expr::Mul(Box::new(a), Box::new(b))
    }

    /// Builds `a / b`.
    pub fn over(a: Expr, b: Expr) -> (e: Expr)
        ensures
            e == Expr::quotient(a, b),
    {
        Expr::Div(Box::new(a), Box::new(b))
    }

    /// Builds `a` raised to the integer power `n`.
    pub fn powi(a: Expr, n: i32) -> (e: Expr)
        ensures
            e == Expr::int_power(a, n),
    {
        Expr::Powi(Box::new(a), n)
    }

    /// Builds `a` raised to the real power `b`.
    pub fn powf(a: Expr, b: Expr) -> (e: Expr)
        ensures
            e == Expr::real_power(a, b),
    {
        Expr::Powf(Box::new(a), Box::new(b))
    }

    /// Builds the square root of `a`.
    pub fn sqrt(a: Expr) -> (e: Expr)
        ensures
            e == Expr::square_root(a),
    {
        Expr::Sqrt(Box::new(a))
    }
}

} // verus!
