//! Raw column values, as rows cross the storage boundary.

use crate::errors::StoreError;
use vstd::prelude::*;

verus! {

/// One raw column value. A raw row is a `Vec<Value>`; its layout depends on
/// the schema version the row was written under.
#[derive(Debug, PartialEq)]
pub enum Value {
    Null,
    Int(i64),
    Text(String),
}

impl Clone for Value {
    fn clone(&self) -> (r: Self)
        ensures
            r == *self,
    {
        match self {
            Value::Null => Value::Null,
            Value::Int(i) => Value::Int(*i),
            Value::Text(s) => Value::Text(s.clone()),
        }
    }
}

/// Whether `v` can fill a nullable text column.
pub open spec fn opt_text_ok(v: Value) -> bool {
    v is Null || v is Text
}

/// Whether `v` can fill a nullable integer column.
pub open spec fn opt_int_ok(v: Value) -> bool {
    v is Null || v is Int
}

/// The optional string a nullable text column holds.
pub open spec fn spec_opt_text(v: Value) -> Option<String> {
    match v {
        Value::Text(s) => Some(s),
        _ => None,
    }
}

/// The optional integer a nullable integer column holds.
pub open spec fn spec_opt_int(v: Value) -> Option<i64> {
    match v {
        Value::Int(i) => Some(i),
        _ => None,
    }
}

/// The raw value an optional string is stored as.
pub open spec fn opt_text_value(o: Option<String>) -> Value {
    match o {
        Some(s) => Value::Text(s),
        None => Value::Null,
    }
}

/// The raw value an optional integer is stored as.
pub open spec fn opt_int_value(o: Option<i64>) -> Value {
    match o {
        Some(i) => Value::Int(i),
        None => Value::Null,
    }
}

/// Reads a required text column.
pub fn take_text(v: &Value) -> (r: Result<String, StoreError>)
    ensures
        match r {
            Ok(s) => *v is Text && s == v->Text_0,
            Err(e) => e == StoreError::DecodeError && !(*v is Text),
        },
{
    match v {
        Value::Text(s) => Ok(s.clone()),
        _ => Err(StoreError::DecodeError),
    }
}

/// Reads a required integer column.
pub fn take_int(v: &Value) -> (r: Result<i64, StoreError>)
    ensures
        match r {
            Ok(i) => *v is Int && i == v->Int_0,
            Err(e) => e == StoreError::DecodeError && !(*v is Int),
        },
{
    match v {
        Value::Int(i) => Ok(*i),
        _ => Err(StoreError::DecodeError),
    }
}

/// Reads a nullable text column.
pub fn take_opt_text(v: &Value) -> (r: Result<Option<String>, StoreError>)
    ensures
        match r {
            Ok(o) => opt_text_ok(*v) && o == spec_opt_text(*v),
            Err(e) => e == StoreError::DecodeError && !opt_text_ok(*v),
        },
{
    match v {
        Value::Text(s) => Ok(Some(s.clone())),
        Value::Null => Ok(None),
        _ => Err(StoreError::DecodeError),
    }
}

/// Reads a nullable integer column.
pub fn take_opt_int(v: &Value) -> (r: Result<Option<i64>, StoreError>)
    ensures
        match r {
            Ok(o) => opt_int_ok(*v) && o == spec_opt_int(*v),
            Err(e) => e == StoreError::DecodeError && !opt_int_ok(*v),
        },
{
    match v {
        Value::Int(i) => Ok(Some(*i)),
        Value::Null => Ok(None),
        _ => Err(StoreError::DecodeError),
    }
}

/// Whether `v` is an integer column value that fits an `i32` field.
pub open spec fn int_i32_ok(v: Value) -> bool {
    v is Int && i32::MIN <= v->Int_0 <= i32::MAX
}

/// Whether `v` can fill a nullable `i32` field.
pub open spec fn opt_i32_ok(v: Value) -> bool {
    v is Null || int_i32_ok(v)
}

/// The `i32` an integer column holds.
pub open spec fn spec_i32(v: Value) -> i32 {
    v->Int_0 as i32
}

/// The optional `i32` a nullable integer column holds.
pub open spec fn spec_opt_i32(v: Value) -> Option<i32> {
    match v {
        Value::Int(i) => Some(i as i32),
        _ => None,
    }
}

/// Reads an integer column into an `i32` field.
pub fn take_i32(v: &Value) -> (r: Result<i32, StoreError>)
    ensures
        match r {
            Ok(i) => int_i32_ok(*v) && i == spec_i32(*v),
            Err(e) => e == StoreError::DecodeError && !int_i32_ok(*v),
        },
{
    match v {
        Value::Int(i) => {
            if *i >= i32::MIN as i64 && *i <= i32::MAX as i64 {
                Ok(*i as i32)
            } else {
                Err(StoreError::DecodeError)
            }
        },
        _ => Err(StoreError::DecodeError),
    }
}

/// Reads a nullable integer column into an optional `i32` field.
pub fn take_opt_i32(v: &Value) -> (r: Result<Option<i32>, StoreError>)
    ensures
        match r {
            Ok(o) => opt_i32_ok(*v) && o == spec_opt_i32(*v),
            Err(e) => e == StoreError::DecodeError && !opt_i32_ok(*v),
        },
{
    match v {
        Value::Int(i) => {
            if *i >= i32::MIN as i64 && *i <= i32::MAX as i64 {
                Ok(Some(*i as i32))
            } else {
                Err(StoreError::DecodeError)
            }
        },
        Value::Null => Ok(None),
        _ => Err(StoreError::DecodeError),
    }
}

/// The raw value an optional `i32` is stored as.
pub open spec fn opt_i32_value(o: Option<i32>) -> Value {
    match o {
        Some(i) => Value::Int(i as i64),
        None => Value::Null,
    }
}

/// Stores an optional `i32` as a raw value.
pub fn make_opt_i32(o: &Option<i32>) -> (r: Value)
    ensures
        r == opt_i32_value(*o),
{
    match o {
        Some(i) => Value::Int(*i as i64),
        None => Value::Null,
    }
}

/// Stores an optional string as a raw value.
pub fn make_opt_text(o: &Option<String>) -> (r: Value)
    ensures
        r == opt_text_value(*o),
{
    match o {
        Some(s) => Value::Text(s.clone()),
        None => Value::Null,
    }
}

/// Stores an optional integer as a raw value.
pub fn make_opt_int(o: &Option<i64>) -> (r: Value)
    ensures
        r == opt_int_value(*o),
{
    match o {
        Some(i) => Value::Int(*i),
        None => Value::Null,
    }
}

} // verus!
