//! A small symbolic algebra core for single-variable real functions.
//!
//! A function is an immutable expression tree built from leaf functions
//! (constant, identity, sine, cosine, exponential, natural logarithm),
//! negation, and the binary combinators sum, difference, product, quotient
//! and composition.  The tree can be differentiated symbolically, expanded
//! into a flat sum of product terms, and rendered as fully parenthesized
//! text.  Numeric evaluation works on IEEE-754 doubles and therefore lives
//! with the callers of this library, outside the verified core; every
//! structural operation here carries a proved contract over the ghost
//! model [`Expr`].

pub mod calculus;
pub mod expand;
pub mod func;
pub mod laws;
pub mod render;

pub use calculus::deriv;
pub use calculus::ONE_BITS;
pub use calculus::ZERO_BITS;
pub use expand::sum_of_terms;
pub use expand::terms_of;
pub use expand::views_of;
pub use render::subst_marker;
pub use render::text_of;
pub use func::Expr;
pub use func::Function;
pub use func::FunctionAdd;
pub use func::FunctionDiv;
pub use func::FunctionMul;
pub use func::FunctionNeg;
pub use func::FunctionOf;
pub use func::FunctionSub;
