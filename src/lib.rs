//! Schema-typed records across a narrow boundary: conversion between dynamic
//! values and schema-typed values, ownership-tagged handles and a last-error
//! slot, a typed value builder, and the decisions of streaming readers and
//! writers.

pub mod boundary;
pub mod codec;
pub mod convert;
pub mod laws;
pub mod reader;
pub mod schema;
pub mod types;
pub mod value;
pub mod writer;
