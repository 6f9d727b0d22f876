/// Persistent environments mapping identifiers to store slots.
pub mod env;
/// Closures, evaluation errors, and the call-by-need evaluator itself.
pub mod eval;
/// Identifiers: user-written names and the reserved contract binders.
pub mod ident;
/// Blame labels and the paths that locate them inside a type.
pub mod label;
/// The proved laws of the machine: value identity, beta reduction, let
/// binding, conditionals, primitives, blame, unbound variables, the sharing
/// invariant, idempotent updates, and determinism.
pub mod laws;
/// The machine's small-step transition system, which the evaluator's
/// contract is stated against.
pub mod machine;
/// Numeric literals as exact fractions, with exact addition.
pub mod num;
/// The operation continuation resolver: primitive operators applied to
/// evaluated operands.
pub mod operation;
/// The control stack of argument, update-marker, and continuation frames.
pub mod stack;
/// Terms, primitive operators, and type annotations with their contracts.
pub mod term;
