//! Password-less authentication by the Chaum-Pedersen zero-knowledge proof:
//! a prover shows knowledge of a secret exponent `x` with `y1 = alpha^x` and
//! `y2 = beta^x` modulo a shared prime `p`, without revealing `x`.
//!
//! `math` holds the mathematical model of the protocol and the proofs of its
//! algebraic laws; `bigint` the trusted boundary around the big-integer and
//! randomness primitives; `zkp` the executable arithmetic engine; `session`
//! the server-side three-step state machine (register, challenge, verify).

pub mod bigint;
pub mod math;
pub mod session;
pub mod zkp;
