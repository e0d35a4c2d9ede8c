//! Differentiable tensor operations with verified dispatch: convolution, and lookups by an
//! index tensor (gather and select).
//!
//! An operation validates its operands, resolves the shape of its result, has a backend
//! compute the result, and records on the tape of the result the backward computation that
//! adds the gradient of the result into the gradients of the operands.
//!
//! - [`shapes`] and [`strided`]: dimensions, shapes, strides and addressing.
//! - [`dtypes`]: the elements of a tensor.
//! - [`tensor`]: tensors, their identities, and what a backend can fail with.
//! - [`gradients`] and [`tape`]: the store of gradient buffers and the recorded backward
//!   computations.
//! - [`tensor_ops`]: the operations and their kernels.

pub mod dtypes;
pub mod gradients;
pub mod shapes;
pub mod strided;
pub mod tape;
pub mod tensor;
pub mod tensor_ops;
