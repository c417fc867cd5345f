//! Black-Scholes option pricing: the exact-arithmetic pricing model and the
//! implied-volatility solver control.
//!
//! The pricing engine's formulas — the sign-parameterized premium, the
//! greeks, the parity converter, the `d1`/`d2` primitives and the
//! Corrado-Miller seed policy — live in [`pricing`] as fixed-point integer
//! arithmetic with exact contracts; the transcendental evaluations (exp,
//! ln, square roots, the normal distribution) are floating-point work that
//! stays with the caller.  The Newton-Raphson solver's decisions — when an
//! iteration run has converged, when its budget is exhausted, and which
//! payload a failed search hands back — live in [`solver`].

pub mod pricing;
pub mod solver;
