//! The semi-structured document that configuration is decoded from.

use vstd::prelude::*;

verus! {

/// One node of a configuration document: a scalar, a table of named nodes
/// or a sequence of nodes.
#[derive(Debug)]
pub enum Value {
    Integer(i64),
    Boolean(bool),
    Str(String),
    /// Keys with their values, in document order.
    Table(Vec<(String, Value)>),
    Array(Vec<Value>),
    /// Any other scalar (a floating-point number, a date): no field takes one.
    Other,
}

} // verus!
