//! The function catalog: the named engine-side functions on the map type,
//! each with its name and its argument and result types, and the typed
//! builders that put a call into an expression.
//!
//! Two functions of the engine are left out on purpose: building a map from
//! a record, and turning a map into a two-dimensional array. Neither a record
//! nor a two-dimensional array has a type here.

use crate::dsl::SqlType;
use crate::expr::{apply1, apply2, BoolExpr, Expr, MapExpr, TextArrayExpr, TextExpr};
use vstd::prelude::*;

verus! {

/// The engine-side functions on the map type.
#[derive(Clone, Copy, Debug, PartialEq, Eq, Structural)]
pub enum Function {
    /// `hstore(text[])`: the map of an array that holds key, value, key,
    /// value.
    FromArray,
    /// `hstore(text[], text[])`: the map of the keys and the values that
    /// stand at the same index. Arrays of different lengths are the engine's
    /// error; nothing here checks them.
    FromKvArray,
    /// `hstore(text, text)`: the map of one pair.
    FromKv,
    /// `hstore_to_array(map)`: keys and values in turn.
    ToArray,
    /// `akeys(map)`: the keys.
    ToKeys,
    /// `avals(map)`: the values.
    ToValues,
    /// `slice(map, text[])`: the entries whose key is listed; a listed key
    /// that is absent adds nothing.
    Slice,
    /// `exist(map, text)`: whether the key is present.
    Exist,
    /// `defined(map, text)`: whether the key is present with a value that is
    /// not `NULL`.
    Defined,
    /// `delete(map, text)`: the map without one key.
    DeleteKey,
    /// `delete(map, text[])`: the map without the listed keys.
    DeleteArray,
    /// `delete(map, map)`: the map without the entries that the second map
    /// holds with the same value.
    DeleteMatching,
}

impl Function {
    /// The function's name in the engine.
    pub open spec fn name_text(self) -> Seq<char> {
        match self {
            Function::FromArray => "hstore"@,
            Function::FromKvArray => "hstore"@,
            Function::FromKv => "hstore"@,
            Function::ToArray => "hstore_to_array"@,
            Function::ToKeys => "akeys"@,
            Function::ToValues => "avals"@,
            Function::Slice => "slice"@,
            Function::Exist => "exist"@,
            Function::Defined => "defined"@,
            Function::DeleteKey => "delete"@,
            Function::DeleteArray => "delete"@,
            Function::DeleteMatching => "delete"@,
        }
    }

    /// The function's name in the engine.
    pub fn name(self) -> (t: &'static str)
        ensures
            t@ == self.name_text(),
    {
        match self {
            Function::FromArray => "hstore",
            Function::FromKvArray => "hstore",
            Function::FromKv => "hstore",
            Function::ToArray => "hstore_to_array",
            Function::ToKeys => "akeys",
            Function::ToValues => "avals",
            Function::Slice => "slice",
            Function::Exist => "exist",
            Function::Defined => "defined",
            Function::DeleteKey => "delete",
            Function::DeleteArray => "delete",
            Function::DeleteMatching => "delete",
        }
    }

    /// The type of the first argument.
    pub open spec fn spec_first_type(self) -> SqlType {
        match self {
            Function::FromArray => SqlType::TextArray,
            Function::FromKvArray => SqlType::TextArray,
            Function::FromKv => SqlType::Text,
            _ => SqlType::Hstore,
        }
    }

    /// The type of the first argument.
    #[verifier::when_used_as_spec(spec_first_type)]
    pub fn first_type(self) -> (t: SqlType)
        ensures
            t == self.spec_first_type(),
    {
        match self {
            Function::FromArray => SqlType::TextArray,
            Function::FromKvArray => SqlType::TextArray,
            Function::FromKv => SqlType::Text,
            _ => SqlType::Hstore,
        }
    }

    /// The type of the second argument; `None` where the function takes one
    /// argument only.
    pub open spec fn spec_second_type(self) -> Option<SqlType> {
        match self {
            Function::FromArray => None,
            Function::FromKvArray => Some(SqlType::TextArray),
            Function::FromKv => Some(SqlType::Text),
            Function::ToArray => None,
            Function::ToKeys => None,
            Function::ToValues => None,
            Function::Slice => Some(SqlType::TextArray),
            Function::Exist => Some(SqlType::Text),
            Function::Defined => Some(SqlType::Text),
            Function::DeleteKey => Some(SqlType::Text),
            Function::DeleteArray => Some(SqlType::TextArray),
            Function::DeleteMatching => Some(SqlType::Hstore),
        }
    }

    /// The type of the second argument; `None` where the function takes one
    /// argument only.
    #[verifier::when_used_as_spec(spec_second_type)]
    pub fn second_type(self) -> (t: Option<SqlType>)
        ensures
            t == self.spec_second_type(),
    {
        match self {
            Function::FromArray => None,
            Function::FromKvArray => Some(SqlType::TextArray),
            Function::FromKv => Some(SqlType::Text),
            Function::ToArray => None,
            Function::ToKeys => None,
            Function::ToValues => None,
            Function::Slice => Some(SqlType::TextArray),
            Function::Exist => Some(SqlType::Text),
            Function::Defined => Some(SqlType::Text),
            Function::DeleteKey => Some(SqlType::Text),
            Function::DeleteArray => Some(SqlType::TextArray),
            Function::DeleteMatching => Some(SqlType::Hstore),
        }
    }

    /// The type of the function's result.
    pub open spec fn spec_result_type(self) -> SqlType {
        match self {
            Function::FromArray => SqlType::Hstore,
            Function::FromKvArray => SqlType::Hstore,
            Function::FromKv => SqlType::Hstore,
            Function::ToArray => SqlType::TextArray,
            Function::ToKeys => SqlType::TextArray,
            Function::ToValues => SqlType::TextArray,
            Function::Slice => SqlType::Hstore,
            Function::Exist => SqlType::Bool,
            Function::Defined => SqlType::Bool,
            Function::DeleteKey => SqlType::Hstore,
            Function::DeleteArray => SqlType::Hstore,
            Function::DeleteMatching => SqlType::Hstore,
        }
    }

    /// The type of the function's result.
    #[verifier::when_used_as_spec(spec_result_type)]
    pub fn result_type(self) -> (t: SqlType)
        ensures
            t == self.spec_result_type(),
    {
        match self {
            Function::FromArray => SqlType::Hstore,
            Function::FromKvArray => SqlType::Hstore,
            Function::FromKv => SqlType::Hstore,
            Function::ToArray => SqlType::TextArray,
            Function::ToKeys => SqlType::TextArray,
            Function::ToValues => SqlType::TextArray,
            Function::Slice => SqlType::Hstore,
            Function::Exist => SqlType::Bool,
            Function::Defined => SqlType::Bool,
            Function::DeleteKey => SqlType::Hstore,
            Function::DeleteArray => SqlType::Hstore,
            Function::DeleteMatching => SqlType::Hstore,
        }
    }
}

/// The expression that calls `function` on one argument.
pub open spec fn call1(function: Function, arg: Expr) -> Expr {
    Expr::Call1 { function, arg: Box::new(arg) }
}

/// The expression that calls `function` on two arguments.
pub open spec fn call2(function: Function, first: Expr, second: Expr) -> Expr {
    Expr::Call2 { function, first: Box::new(first), second: Box::new(second) }
}

/// `hstore(arr)`: the map of an array that holds key, value, key, value.
pub fn hstore_from_array(arr: TextArrayExpr) -> (r: MapExpr)
    ensures
        r@ == call1(Function::FromArray, arr@),
        r@.well_typed(),
        r@.sql_type() == SqlType::Hstore,
{
    MapExpr::from_expr(apply1(Function::FromArray, arr.into_expr()))
}

/// `hstore_to_array(h)`: keys and values in turn.
pub fn hstore_to_array(h: MapExpr) -> (r: TextArrayExpr)
    ensures
        r@ == call1(Function::ToArray, h@),
        r@.well_typed(),
        r@.sql_type() == SqlType::TextArray,
{
    TextArrayExpr::from_expr(apply1(Function::ToArray, h.into_expr()))
}

/// `hstore(keys, values)`: the map of the keys and the values that stand at
/// the same index. That the arrays have one length is for the engine to
/// check.
pub fn hstore_from_kv_array(keys: TextArrayExpr, values: TextArrayExpr) -> (r: MapExpr)
    ensures
        r@ == call2(Function::FromKvArray, keys@, values@),
        r@.well_typed(),
        r@.sql_type() == SqlType::Hstore,
{
    MapExpr::from_expr(apply2(Function::FromKvArray, keys.into_expr(), values.into_expr()))
}

/// `hstore(key, value)`: the map of one pair.
pub fn hstore_from_kv(key: TextExpr, value: TextExpr) -> (r: MapExpr)
    ensures
        r@ == call2(Function::FromKv, key@, value@),
        r@.well_typed(),
        r@.sql_type() == SqlType::Hstore,
{
    MapExpr::from_expr(apply2(Function::FromKv, key.into_expr(), value.into_expr()))
}

/// `akeys(h)`: the keys.
pub fn hstore_to_keys(h: MapExpr) -> (r: TextArrayExpr)
    ensures
        r@ == call1(Function::ToKeys, h@),
        r@.well_typed(),
        r@.sql_type() == SqlType::TextArray,
{
    TextArrayExpr::from_expr(apply1(Function::ToKeys, h.into_expr()))
}

/// `avals(h)`: the values.
pub fn hstore_to_values(h: MapExpr) -> (r: TextArrayExpr)
    ensures
        r@ == call1(Function::ToValues, h@),
        r@.well_typed(),
        r@.sql_type() == SqlType::TextArray,
{
    TextArrayExpr::from_expr(apply1(Function::ToValues, h.into_expr()))
}

/// `slice(h, keys)`: the entries of `h` whose key is listed.
pub fn hstore_slice(h: MapExpr, keys: TextArrayExpr) -> (r: MapExpr)
    ensures
        r@ == call2(Function::Slice, h@, keys@),
        r@.well_typed(),
        r@.sql_type() == SqlType::Hstore,
{
    MapExpr::from_expr(apply2(Function::Slice, h.into_expr(), keys.into_expr()))
}

/// `exist(h, k)`: whether the key is present.
pub fn hstore_exist(h: MapExpr, k: TextExpr) -> (r: BoolExpr)
    ensures
        r@ == call2(Function::Exist, h@, k@),
        r@.well_typed(),
        r@.sql_type() == SqlType::Bool,
{
    BoolExpr::from_expr(apply2(Function::Exist, h.into_expr(), k.into_expr()))
}

/// `defined(h, k)`: whether the key is present with a value that is not
/// `NULL`.
pub fn hstore_defined(h: MapExpr, k: TextExpr) -> (r: BoolExpr)
    ensures
        r@ == call2(Function::Defined, h@, k@),
        r@.well_typed(),
        r@.sql_type() == SqlType::Bool,
{
    BoolExpr::from_expr(apply2(Function::Defined, h.into_expr(), k.into_expr()))
}

/// `delete(h, key)`: the map without one key.
pub fn hstore_delete_key(h: MapExpr, key: TextExpr) -> (r: MapExpr)
    ensures
        r@ == call2(Function::DeleteKey, h@, key@),
        r@.well_typed(),
        r@.sql_type() == SqlType::Hstore,
{
    MapExpr::from_expr(apply2(Function::DeleteKey, h.into_expr(), key.into_expr()))
}

/// `delete(h, keys)`: the map without the listed keys.
pub fn hstore_delete_array(h: MapExpr, keys: TextArrayExpr) -> (r: MapExpr)
    ensures
        r@ == call2(Function::DeleteArray, h@, keys@),
        r@.well_typed(),
        r@.sql_type() == SqlType::Hstore,
{
    MapExpr::from_expr(apply2(Function::DeleteArray, h.into_expr(), keys.into_expr()))
}

/// `delete(h, other)`: the map without the entries that `other` holds with
/// the same value.
pub fn hstore_delete_matching(h: MapExpr, other: MapExpr) -> (r: MapExpr)
    ensures
        r@ == call2(Function::DeleteMatching, h@, other@),
        r@.well_typed(),
        r@.sql_type() == SqlType::Hstore,
{
    MapExpr::from_expr(apply2(Function::DeleteMatching, h.into_expr(), other.into_expr()))
}

} // verus!
