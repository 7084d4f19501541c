//! A small reverse-mode automatic-differentiation engine.
//!
//! Expressions are built from named parameters by forward combinators
//! (`ops`), which compute every value eagerly and keep it in a shared graph
//! node (`node`). A backward sweep from an output node leaves a trace of
//! gradients, one leaf per occurrence of a parameter, and a walk over the
//! trace sums them by name (`backward`).
//!
//! Tensors (`tensor`) are shaped, strided buffers over an abstract scalar
//! (`scalar`). Their mathematical content (`view`) and the arithmetic of
//! shapes, strides and broadcasting (`shape`, `index`) carry the contracts of
//! all operations; `laws` states what holds of the engine as a whole, and
//! `render` gives tensors a text form.

pub mod scalar;
pub mod shape;
pub mod view;
pub mod index;
pub mod tensor;
pub mod render;
pub mod node;
pub mod ops;
pub mod backward;
pub mod laws;
