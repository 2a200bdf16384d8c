//! A backend-agnostic tensor layer: shapes, the validation engine that
//! guards every operation, a dense CPU kernel backend, and a forwarding
//! backend that relays every operation to the backend it wraps.

pub mod backend;
pub mod check;
pub mod compare;
pub mod composed;
pub mod contract;
pub mod laws;
pub mod math;
pub mod reduce;
pub mod shape;
pub mod tensor;
pub mod text;
