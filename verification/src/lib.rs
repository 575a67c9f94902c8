//! Capability completion for storage accessors.
//!
//! A backend implements [`raw::accessor::Accessor`] with whatever it supports
//! natively and says so in its [`Capability`]. [`layers::CompleteLayer`] turns
//! it into an accessor whose readers can always seek and stream, whose
//! listings come both flat and by level, and whose writers hold callers to the
//! size they declared. [`layers::PrometheusLayer`] reports every operation to
//! a metrics registry without changing its outcome. [`Operator`] is the entry
//! point on top: it normalizes and checks paths and hands the rest down.
//!
//! Every operation runs to completion. A call into the backend is one step of
//! the adapter that makes it, and a step never waits for anything else.
//!
//! What an operation does is stated as a relation between the state before,
//! the arguments, the state after and the result. A backend may state its own
//! relations; the relation of a layer or an adapter is then stated, and
//! proved, in terms of the relations of what it wraps.

pub mod capability;
pub mod entry;
pub mod error;
pub mod layers;
pub mod metadata;
pub mod operator;
pub mod ops;
pub mod raw;
pub mod services;
pub mod text;

pub use capability::{AccessorInfo, Capability, Scheme};
pub use entry::Entry;
pub use error::{Error, ErrorKind};
pub use metadata::{EntryMode, Metadata, Metakey, MetakeySet};
pub use operator::{BlockingOperator, Operator, OperatorInfo};
