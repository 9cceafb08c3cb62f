//! Decision core of a secret-replication controller.
//!
//! A source secret carries an annotation naming destination namespaces
//! (an explicit comma-separated list or a wildcard). The controller keeps
//! a managed replica of the secret in every destination namespace,
//! protects unrelated objects of the same name, and garbage-collects all
//! replicas before the source is allowed to disappear, guarded by a
//! finalizer on the source.
//!
//! This crate holds the decision procedures only: every choice the
//! controller makes is a pure, verified function from observed state to
//! the next action. The surrounding process performs the cluster API
//! calls that the decisions ask for and feeds the observations back in.

pub mod classify;
pub mod finalizer;
pub mod gc;
pub mod laws;
pub mod model;
pub mod reconcile;
pub mod resolver;
pub mod strutil;
pub mod sync;
