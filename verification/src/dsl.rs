//! The operator catalog: the infix and prefix operators of the map algebra,
//! each with its token and its operand and result types, and the typed
//! builders that put them into an expression.

use crate::expr::{
    apply_infix, apply_prefix, BoolExpr, Expr, MapExpr, NullableTextExpr, TextArrayExpr, TextExpr,
};
use vstd::prelude::*;

verus! {

/// The SQL types that the catalogs speak of.
#[derive(Clone, Copy, Debug, PartialEq, Eq, Structural)]
pub enum SqlType {
    /// The map type itself.
    Hstore,
    /// Text that is never `NULL`.
    Text,
    /// Text that may be `NULL`.
    NullableText,
    /// An array of texts.
    TextArray,
    /// A truth value.
    Bool,
}

/// The operators of the map algebra.
#[derive(Clone, Copy, Debug, PartialEq, Eq, Structural)]
pub enum Operator {
    /// `map -> text`: the value under a key, `NULL` where the key is absent.
    GetValue,
    /// `map -> text[]`: the values under the keys, in the order of the keys,
    /// `NULL` where a key is absent.
    GetArray,
    /// `map || map`: both maps together; on a shared key the right operand's
    /// value stays.
    Concat,
    /// `map ? text`: whether the key is present.
    HasKey,
    /// `map ?& text[]`: whether every listed key is present.
    HasAllKeys,
    /// `map ?| text[]`: whether some listed key is present.
    HasAnyKeys,
    /// `map <@ map`: whether every entry of the left operand is in the right
    /// operand, with the same value.
    Contains,
    /// `map @> map`: whether every entry of the right operand is in the left
    /// operand, with the same value.
    IsContainedBy,
    /// `map - text`: the map without one key.
    RemoveKey,
    /// `map - text[]`: the map without the listed keys.
    RemoveKeys,
    /// `map - map`: the map without the entries that the right operand holds
    /// with the same value.
    Difference,
    /// `%% map`: keys and values in turn, in an order the engine chooses.
    ToFlatArray,
}

impl Operator {
    /// The operator's token in the engine's syntax.
    pub open spec fn token_text(self) -> Seq<char> {
        match self {
            Operator::GetValue => "->"@,
            Operator::GetArray => "->"@,
            Operator::Concat => "||"@,
            Operator::HasKey => "?"@,
            Operator::HasAllKeys => "?&"@,
            Operator::HasAnyKeys => "?|"@,
            Operator::Contains => "<@"@,
            Operator::IsContainedBy => "@>"@,
            Operator::RemoveKey => "-"@,
            Operator::RemoveKeys => "-"@,
            Operator::Difference => "-"@,
            Operator::ToFlatArray => "%%"@,
        }
    }

    /// The operator's token in the engine's syntax.
    pub fn token(self) -> (t: &'static str)
        ensures
            t@ == self.token_text(),
    {
        match self {
            Operator::GetValue => "->",
            Operator::GetArray => "->",
            Operator::Concat => "||",
            Operator::HasKey => "?",
            Operator::HasAllKeys => "?&",
            Operator::HasAnyKeys => "?|",
            Operator::Contains => "<@",
            Operator::IsContainedBy => "@>",
            Operator::RemoveKey => "-",
            Operator::RemoveKeys => "-",
            Operator::Difference => "-",
            Operator::ToFlatArray => "%%",
        }
    }

    /// Whether the operator stands before its one operand.
    pub open spec fn spec_is_prefix(self) -> bool {
        self == Operator::ToFlatArray
    }

    /// Whether the operator stands before its one operand.
    #[verifier::when_used_as_spec(spec_is_prefix)]
    pub fn is_prefix(self) -> (b: bool)
        ensures
            b == self.spec_is_prefix(),
    {
        match self {
            Operator::ToFlatArray => true,
            _ => false,
        }
    }

    /// The type of the right operand; `None` for a prefix operator, which has
    /// none. The left operand, or the only one, is always a map.
    pub open spec fn spec_right_type(self) -> Option<SqlType> {
        match self {
            Operator::GetValue => Some(SqlType::Text),
            Operator::GetArray => Some(SqlType::TextArray),
            Operator::Concat => Some(SqlType::Hstore),
            Operator::HasKey => Some(SqlType::Text),
            Operator::HasAllKeys => Some(SqlType::TextArray),
            Operator::HasAnyKeys => Some(SqlType::TextArray),
            Operator::Contains => Some(SqlType::Hstore),
            Operator::IsContainedBy => Some(SqlType::Hstore),
            Operator::RemoveKey => Some(SqlType::Text),
            Operator::RemoveKeys => Some(SqlType::TextArray),
            Operator::Difference => Some(SqlType::Hstore),
            Operator::ToFlatArray => None,
        }
    }

    /// The type of the right operand; `None` for a prefix operator, which has
    /// none. The left operand, or the only one, is always a map.
    #[verifier::when_used_as_spec(spec_right_type)]
    pub fn right_type(self) -> (t: Option<SqlType>)
        ensures
            t == self.spec_right_type(),
    {
        match self {
            Operator::GetValue => Some(SqlType::Text),
            Operator::GetArray => Some(SqlType::TextArray),
            Operator::Concat => Some(SqlType::Hstore),
            Operator::HasKey => Some(SqlType::Text),
            Operator::HasAllKeys => Some(SqlType::TextArray),
            Operator::HasAnyKeys => Some(SqlType::TextArray),
            Operator::Contains => Some(SqlType::Hstore),
            Operator::IsContainedBy => Some(SqlType::Hstore),
            Operator::RemoveKey => Some(SqlType::Text),
            Operator::RemoveKeys => Some(SqlType::TextArray),
            Operator::Difference => Some(SqlType::Hstore),
            Operator::ToFlatArray => None,
        }
    }

    /// The type of the operator's result.
    pub open spec fn spec_result_type(self) -> SqlType {
        match self {
            Operator::GetValue => SqlType::NullableText,
            Operator::GetArray => SqlType::TextArray,
            Operator::Concat => SqlType::Hstore,
            Operator::HasKey => SqlType::Bool,
            Operator::HasAllKeys => SqlType::Bool,
            Operator::HasAnyKeys => SqlType::Bool,
            Operator::Contains => SqlType::Bool,
            Operator::IsContainedBy => SqlType::Bool,
            Operator::RemoveKey => SqlType::Hstore,
            Operator::RemoveKeys => SqlType::Hstore,
            Operator::Difference => SqlType::Hstore,
            Operator::ToFlatArray => SqlType::TextArray,
        }
    }

    /// The type of the operator's result.
    #[verifier::when_used_as_spec(spec_result_type)]
    pub fn result_type(self) -> (t: SqlType)
        ensures
            t == self.spec_result_type(),
    {
        match self {
            Operator::GetValue => SqlType::NullableText,
            Operator::GetArray => SqlType::TextArray,
            Operator::Concat => SqlType::Hstore,
            Operator::HasKey => SqlType::Bool,
            Operator::HasAllKeys => SqlType::Bool,
            Operator::HasAnyKeys => SqlType::Bool,
            Operator::Contains => SqlType::Bool,
            Operator::IsContainedBy => SqlType::Bool,
            Operator::RemoveKey => SqlType::Hstore,
            Operator::RemoveKeys => SqlType::Hstore,
            Operator::Difference => SqlType::Hstore,
            Operator::ToFlatArray => SqlType::TextArray,
        }
    }
}

/// The expression that applies the infix operator `op` to two operands.
pub open spec fn infix(op: Operator, left: Expr, right: Expr) -> Expr {
    Expr::Infix { op, left: Box::new(left), right: Box::new(right) }
}

/// The expression that applies the prefix operator `op` to its operand.
pub open spec fn prefix(op: Operator, operand: Expr) -> Expr {
    Expr::Prefix { op, operand: Box::new(operand) }
}

/// The operators of the map algebra as builders on a map-typed expression.
/// The operand types are fixed by the signatures, so an operator applied to
/// an operand of another type does not compile.
pub trait HstoreOpExtensions: Sized {
    /// The expression that `self` stands for.
    spec fn node(&self) -> Expr;

    /// `self -> other`: the value under the key `other`, `NULL` where it is
    /// absent.
    fn get_value(self, other: TextExpr) -> (r: NullableTextExpr)
        ensures
            r@ == infix(Operator::GetValue, self.node(), other@),
    ;

    /// `self -> other`: the values under the keys `other`, in their order,
    /// `NULL` where a key is absent.
    fn get_array(self, other: TextArrayExpr) -> (r: TextArrayExpr)
        ensures
            r@ == infix(Operator::GetArray, self.node(), other@),
    ;

    /// `self || other`: both maps together; on a shared key the value of
    /// `other` stays.
    fn concat(self, other: MapExpr) -> (r: MapExpr)
        ensures
            r@ == infix(Operator::Concat, self.node(), other@),
    ;

    /// `self ? other`: whether the key `other` is present.
    fn has_key(self, other: TextExpr) -> (r: BoolExpr)
        ensures
            r@ == infix(Operator::HasKey, self.node(), other@),
    ;

    /// `self ?& other`: whether every key of `other` is present.
    fn has_all_keys(self, other: TextArrayExpr) -> (r: BoolExpr)
        ensures
            r@ == infix(Operator::HasAllKeys, self.node(), other@),
    ;

    /// `self ?| other`: whether some key of `other` is present.
    fn has_any_keys(self, other: TextArrayExpr) -> (r: BoolExpr)
        ensures
            r@ == infix(Operator::HasAnyKeys, self.node(), other@),
    ;

    /// `self <@ other`: whether every entry of `self` is in `other`, with the
    /// same value. Mind the direction: the builder of this name is bound to
    /// `<@`, so it asks whether `self` lies within `other`.
    fn contains(self, other: MapExpr) -> (r: BoolExpr)
        ensures
            r@ == infix(Operator::Contains, self.node(), other@),
    ;

    /// `self @> other`: whether every entry of `other` is in `self`, with the
    /// same value. Mind the direction: the builder of this name is bound to
    /// `@>`, so it asks whether `other` lies within `self`.
    fn is_contained_by(self, other: MapExpr) -> (r: BoolExpr)
        ensures
            r@ == infix(Operator::IsContainedBy, self.node(), other@),
    ;

    /// `self - other`: the map without the key `other`.
    fn remove_key(self, other: TextExpr) -> (r: MapExpr)
        ensures
            r@ == infix(Operator::RemoveKey, self.node(), other@),
    ;

    /// `self - other`: the map without the keys of `other`.
    fn remove_keys(self, other: TextArrayExpr) -> (r: MapExpr)
        ensures
            r@ == infix(Operator::RemoveKeys, self.node(), other@),
    ;

    /// `self - other`: the map without the entries that `other` holds with
    /// the same value.
    fn difference(self, other: MapExpr) -> (r: MapExpr)
        ensures
            r@ == infix(Operator::Difference, self.node(), other@),
    ;

    /// `%% self`: keys and values in turn.
    fn to_flat_array(self) -> (r: TextArrayExpr)
        ensures
            r@ == prefix(Operator::ToFlatArray, self.node()),
    ;
}

impl HstoreOpExtensions for MapExpr {
    open spec fn node(&self) -> Expr {
        self@
    }

    fn get_value(self, other: TextExpr) -> (r: NullableTextExpr)
        ensures
            r@.well_typed(),
            r@.sql_type() == SqlType::NullableText,
    {
        NullableTextExpr::from_expr(apply_infix(Operator::GetValue, self.into_expr(), other.into_expr()))
    }

    fn get_array(self, other: TextArrayExpr) -> (r: TextArrayExpr)
        ensures
            r@.well_typed(),
            r@.sql_type() == SqlType::TextArray,
    {
        TextArrayExpr::from_expr(apply_infix(Operator::GetArray, self.into_expr(), other.into_expr()))
    }

    fn concat(self, other: MapExpr) -> (r: MapExpr)
        ensures
            r@.well_typed(),
            r@.sql_type() == SqlType::Hstore,
    {
        MapExpr::from_expr(apply_infix(Operator::Concat, self.into_expr(), other.into_expr()))
    }

    fn has_key(self, other: TextExpr) -> (r: BoolExpr)
        ensures
            r@.well_typed(),
            r@.sql_type() == SqlType::Bool,
    {
        BoolExpr::from_expr(apply_infix(Operator::HasKey, self.into_expr(), other.into_expr()))
    }

    fn has_all_keys(self, other: TextArrayExpr) -> (r: BoolExpr)
        ensures
            r@.well_typed(),
            r@.sql_type() == SqlType::Bool,
    {
        BoolExpr::from_expr(apply_infix(Operator::HasAllKeys, self.into_expr(), other.into_expr()))
    }

    fn has_any_keys(self, other: TextArrayExpr) -> (r: BoolExpr)
        ensures
            r@.well_typed(),
            r@.sql_type() == SqlType::Bool,
    {
        BoolExpr::from_expr(apply_infix(Operator::HasAnyKeys, self.into_expr(), other.into_expr()))
    }

    fn contains(self, other: MapExpr) -> (r: BoolExpr)
        ensures
            r@.well_typed(),
            r@.sql_type() == SqlType::Bool,
    {
        BoolExpr::from_expr(apply_infix(Operator::Contains, self.into_expr(), other.into_expr()))
    }

    fn is_contained_by(self, other: MapExpr) -> (r: BoolExpr)
        ensures
            r@.well_typed(),
            r@.sql_type() == SqlType::Bool,
    {
        BoolExpr::from_expr(apply_infix(Operator::IsContainedBy, self.into_expr(), other.into_expr()))
    }

    fn remove_key(self, other: TextExpr) -> (r: MapExpr)
        ensures
            r@.well_typed(),
            r@.sql_type() == SqlType::Hstore,
    {
        MapExpr::from_expr(apply_infix(Operator::RemoveKey, self.into_expr(), other.into_expr()))
    }

    fn remove_keys(self, other: TextArrayExpr) -> (r: MapExpr)
        ensures
            r@.well_typed(),
            r@.sql_type() == SqlType::Hstore,
    {
        MapExpr::from_expr(apply_infix(Operator::RemoveKeys, self.into_expr(), other.into_expr()))
    }

    fn difference(self, other: MapExpr) -> (r: MapExpr)
        ensures
            r@.well_typed(),
            r@.sql_type() == SqlType::Hstore,
    {
        MapExpr::from_expr(apply_infix(Operator::Difference, self.into_expr(), other.into_expr()))
    }

    fn to_flat_array(self) -> (r: TextArrayExpr)
        ensures
            r@.well_typed(),
            r@.sql_type() == SqlType::TextArray,
    {
        TextArrayExpr::from_expr(apply_prefix(Operator::ToFlatArray, self.into_expr()))
    }
}

} // verus!
