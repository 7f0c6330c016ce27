//! Expression nodes: immutable fragments of a query, each an operator or a
//! function of the catalogs applied to typed operands, with a declared
//! result type and a rendering in the engine's syntax.

use crate::container::Hstore;
use crate::dsl::{Operator, SqlType};
use crate::functions::Function;
use crate::literal::{literal_sql, render_literal};
use vstd::prelude::*;
use vstd::string::StringExecFns;

verus! {

/// A node of an expression tree.
#[derive(Debug)]
pub enum Expr {
    /// Query text that the surrounding query builder supplies, such as a
    /// column or a bound parameter, with the type it is declared to have.
    Fragment { sql: String, ty: SqlType },
    /// A map value, rendered as a literal.
    Literal(Hstore),
    /// An infix operator between two operands.
    Infix { op: Operator, left: Box<Expr>, right: Box<Expr> },
    /// A prefix operator before its operand.
    Prefix { op: Operator, operand: Box<Expr> },
    /// A function called on one argument.
    Call1 { function: Function, arg: Box<Expr> },
    /// A function called on two arguments.
    Call2 { function: Function, first: Box<Expr>, second: Box<Expr> },
}

impl Expr {
    /// The type that the node is declared to have.
    pub open spec fn sql_type(self) -> SqlType {
        match self {
            Expr::Fragment { sql, ty } => ty,
            Expr::Literal(h) => SqlType::Hstore,
            Expr::Infix { op, left, right } => op.result_type(),
            Expr::Prefix { op, operand } => op.result_type(),
            Expr::Call1 { function, arg } => function.result_type(),
            Expr::Call2 { function, first, second } => function.result_type(),
        }
    }

    /// Whether every operator and function in the tree is applied to as many
    /// operands as it takes, each of the type it takes.
    pub open spec fn well_typed(self) -> bool
        decreases self,
    {
        match self {
            Expr::Fragment { sql, ty } => true,
            Expr::Literal(h) => true,
            Expr::Infix { op, left, right } => {
                &&& left.well_typed()
                &&& right.well_typed()
                &&& left.sql_type() == SqlType::Hstore
                &&& op.right_type() == Some(right.sql_type())
            },
            Expr::Prefix { op, operand } => {
                &&& operand.well_typed()
                &&& operand.sql_type() == SqlType::Hstore
                &&& op.right_type() is None
            },
            Expr::Call1 { function, arg } => {
                &&& arg.well_typed()
                &&& arg.sql_type() == function.first_type()
                &&& function.second_type() is None
            },
            Expr::Call2 { function, first, second } => {
                &&& first.well_typed()
                &&& second.well_typed()
                &&& first.sql_type() == function.first_type()
                &&& function.second_type() == Some(second.sql_type())
            },
        }
    }

    /// The node in the engine's syntax: an operator between or before its
    /// operands, in parentheses; a function's name before its arguments.
    pub open spec fn sql(self) -> Seq<char>
        decreases self,
    {
        match self {
            Expr::Fragment { sql, ty } => sql@,
            Expr::Literal(h) => literal_sql(h.entries()),
            Expr::Infix { op, left, right } => "("@ + left.sql() + " "@ + op.token_text() + " "@
                + right.sql() + ")"@,
            Expr::Prefix { op, operand } => "("@ + op.token_text() + " "@ + operand.sql() + ")"@,
            Expr::Call1 { function, arg } => function.name_text() + "("@ + arg.sql() + ")"@,
            Expr::Call2 { function, first, second } => function.name_text() + "("@ + first.sql()
                + ", "@ + second.sql() + ")"@,
        }
    }

    /// The type of the node where the tree is well typed, `None` where it is
    /// not.
    pub fn type_of(&self) -> (t: Option<SqlType>)
        ensures
            t is Some <==> self.well_typed(),
            t matches Some(ty) ==> ty == self.sql_type(),
        decreases self,
    {
        match self {
            Expr::Fragment { sql, ty } => Some(*ty),
            Expr::Literal(h) => Some(SqlType::Hstore),
            Expr::Infix { op, left, right } => {
                match (left.type_of(), right.type_of()) {
                    (Some(SqlType::Hstore), Some(r)) => {
                        if op.right_type() == Some(r) {
                            Some(op.result_type())
                        } else {
                            None
                        }
                    },
                    _ => None,
                }
            },
            Expr::Prefix { op, operand } => {
                match operand.type_of() {
                    Some(SqlType::Hstore) => {
                        if op.right_type().is_none() {
                            Some(op.result_type())
                        } else {
                            None
                        }
                    },
                    _ => None,
                }
            },
            Expr::Call1 { function, arg } => {
                match arg.type_of() {
                    Some(a) => {
                        if a == function.first_type() && function.second_type().is_none() {
                            Some(function.result_type())
                        } else {
                            None
                        }
                    },
                    None => None,
                }
            },
            Expr::Call2 { function, first, second } => {
                match (first.type_of(), second.type_of()) {
                    (Some(a), Some(b)) => {
                        if a == function.first_type() && function.second_type() == Some(b) {
                            Some(function.result_type())
                        } else {
                            None
                        }
                    },
                    _ => None,
                }
            },
        }
    }

    /// Renders the node in the engine's syntax.
    pub fn to_sql(&self) -> (s: String)
        ensures
            s@ == self.sql(),
        decreases self,
    {
        match self {
            Expr::Fragment { sql, ty } => sql.clone(),
            Expr::Literal(h) => {
                match render_literal(h, false) {
                    Ok(s) => s,
                    Err(_) => {
                        assert(false);
                        String::new()
                    },
                }
            },
            Expr::Infix { op, left, right } => {
                let l = left.to_sql();
                let r = right.to_sql();
                let mut out = String::new();
                out.append("(");
                out.append(l.as_str());
                out.append(" ");
                out.append(op.token());
                out.append(" ");
                out.append(r.as_str());
                out.append(")");
                assert(out@ =~= self.sql());
                out
            },
            Expr::Prefix { op, operand } => {
                let inner = operand.to_sql();
                let mut out = String::new();
                out.append("(");
                out.append(op.token());
                out.append(" ");
                out.append(inner.as_str());
                out.append(")");
                assert(out@ =~= self.sql());
                out
            },
            Expr::Call1 { function, arg } => {
                let a = arg.to_sql();
                let mut out = String::new();
                out.append(function.name());
                out.append("(");
                out.append(a.as_str());
                out.append(")");
                assert(out@ =~= self.sql());
                out
            },
            Expr::Call2 { function, first, second } => {
                let a = first.to_sql();
                let b = second.to_sql();
                let mut out = String::new();
                out.append(function.name());
                out.append("(");
                out.append(a.as_str());
                out.append(", ");
                out.append(b.as_str());
                out.append(")");
                assert(out@ =~= self.sql());
                out
            },
        }
    }
}

/// Applies an infix operator to a map on the left and an operand of the
/// operator's type on the right.
pub(crate) fn apply_infix(op: Operator, left: Expr, right: Expr) -> (r: Expr)
    requires
        left.well_typed(),
        right.well_typed(),
        left.sql_type() == SqlType::Hstore,
        op.right_type() == Some(right.sql_type()),
    ensures
        r == (Expr::Infix { op, left: Box::new(left), right: Box::new(right) }),
        r.well_typed(),
        r.sql_type() == op.result_type(),
{
    Expr::Infix { op, left: Box::new(left), right: Box::new(right) }
}

/// Applies a prefix operator to a map.
pub(crate) fn apply_prefix(op: Operator, operand: Expr) -> (r: Expr)
    requires
        operand.well_typed(),
        operand.sql_type() == SqlType::Hstore,
        op.right_type() is None,
    ensures
        r == (Expr::Prefix { op, operand: Box::new(operand) }),
        r.well_typed(),
        r.sql_type() == op.result_type(),
{
    Expr::Prefix { op, operand: Box::new(operand) }
}

/// Calls a function of one argument.
pub(crate) fn apply1(function: Function, arg: Expr) -> (r: Expr)
    requires
        arg.well_typed(),
        arg.sql_type() == function.first_type(),
        function.second_type() is None,
    ensures
        r == (Expr::Call1 { function, arg: Box::new(arg) }),
        r.well_typed(),
        r.sql_type() == function.result_type(),
{
    Expr::Call1 { function, arg: Box::new(arg) }
}

/// Calls a function of two arguments.
pub(crate) fn apply2(function: Function, first: Expr, second: Expr) -> (r: Expr)
    requires
        first.well_typed(),
        second.well_typed(),
        first.sql_type() == function.first_type(),
        function.second_type() == Some(second.sql_type()),
    ensures
        r == (Expr::Call2 { function, first: Box::new(first), second: Box::new(second) }),
        r.well_typed(),
        r.sql_type() == function.result_type(),
{
    Expr::Call2 { function, first: Box::new(first), second: Box::new(second) }
}

/// An expression of the map type.
#[derive(Debug)]
pub struct MapExpr {
    node: Expr,
}

impl View for MapExpr {
    type V = Expr;

    closed spec fn view(&self) -> Expr {
        self.node
    }
}

impl MapExpr {
    #[verifier::type_invariant]
    pub closed spec fn wf(&self) -> bool {
        self.node.well_typed() && self.node.sql_type() == SqlType::Hstore
    }

    /// Query text of the map type that the query builder supplies: a column,
    /// a bound parameter.
    pub fn fragment(sql: String) -> (r: MapExpr)
        ensures
            r@ == (Expr::Fragment { sql, ty: SqlType::Hstore }),
    {
        MapExpr { node: Expr::Fragment { sql, ty: SqlType::Hstore } }
    }

    /// A map value, to be rendered as a literal.
    pub fn literal(h: Hstore) -> (r: MapExpr)
        ensures
            r@ == Expr::Literal(h),
    {
        MapExpr { node: Expr::Literal(h) }
    }

    /// Wraps a node that is known to be a well-typed map.
    pub(crate) fn from_expr(node: Expr) -> (r: MapExpr)
        requires
            node.well_typed(),
            node.sql_type() == SqlType::Hstore,
        ensures
            r@ == node,
    {
        MapExpr { node }
    }

    /// The node, which is well typed and of the map type.
    pub fn into_expr(self) -> (e: Expr)
        ensures
            e == self@,
            e.well_typed(),
            e.sql_type() == SqlType::Hstore,
    {
        proof {
            use_type_invariant(&self);
        }
        self.node
    }

    /// Renders the expression in the engine's syntax.
    pub fn to_sql(&self) -> (s: String)
        ensures
            s@ == self@.sql(),
    {
        self.node.to_sql()
    }
}

/// An expression of the text type.
#[derive(Debug)]
pub struct TextExpr {
    node: Expr,
}

impl View for TextExpr {
    type V = Expr;

    closed spec fn view(&self) -> Expr {
        self.node
    }
}

impl TextExpr {
    #[verifier::type_invariant]
    pub closed spec fn wf(&self) -> bool {
        self.node.well_typed() && self.node.sql_type() == SqlType::Text
    }

    /// Query text of the text type that the query builder supplies: a
    /// column, a bound parameter, a quoted literal.
    pub fn fragment(sql: String) -> (r: TextExpr)
        ensures
            r@ == (Expr::Fragment { sql, ty: SqlType::Text }),
    {
        TextExpr { node: Expr::Fragment { sql, ty: SqlType::Text } }
    }

    /// The node, which is well typed and of the text type.
    pub fn into_expr(self) -> (e: Expr)
        ensures
            e == self@,
            e.well_typed(),
            e.sql_type() == SqlType::Text,
    {
        proof {
            use_type_invariant(&self);
        }
        self.node
    }

    /// Renders the expression in the engine's syntax.
    pub fn to_sql(&self) -> (s: String)
        ensures
            s@ == self@.sql(),
    {
        self.node.to_sql()
    }
}

/// An expression of the text type that may be `NULL`.
#[derive(Debug)]
pub struct NullableTextExpr {
    node: Expr,
}

impl View for NullableTextExpr {
    type V = Expr;

    closed spec fn view(&self) -> Expr {
        self.node
    }
}

impl NullableTextExpr {
    #[verifier::type_invariant]
    pub closed spec fn wf(&self) -> bool {
        self.node.well_typed() && self.node.sql_type() == SqlType::NullableText
    }

    /// Wraps a node that is known to be a well-typed nullable text.
    pub(crate) fn from_expr(node: Expr) -> (r: NullableTextExpr)
        requires
            node.well_typed(),
            node.sql_type() == SqlType::NullableText,
        ensures
            r@ == node,
    {
        NullableTextExpr { node }
    }

    /// The node, which is well typed and of the nullable text type.
    pub fn into_expr(self) -> (e: Expr)
        ensures
            e == self@,
            e.well_typed(),
            e.sql_type() == SqlType::NullableText,
    {
        proof {
            use_type_invariant(&self);
        }
        self.node
    }

    /// Renders the expression in the engine's syntax.
    pub fn to_sql(&self) -> (s: String)
        ensures
            s@ == self@.sql(),
    {
        self.node.to_sql()
    }
}

/// An expression of the text array type.
#[derive(Debug)]
pub struct TextArrayExpr {
    node: Expr,
}

impl View for TextArrayExpr {
    type V = Expr;

    closed spec fn view(&self) -> Expr {
        self.node
    }
}

impl TextArrayExpr {
    #[verifier::type_invariant]
    pub closed spec fn wf(&self) -> bool {
        self.node.well_typed() && self.node.sql_type() == SqlType::TextArray
    }

    /// Query text of the text array type that the query builder supplies: a
    /// column, a bound parameter, an array literal.
    pub fn fragment(sql: String) -> (r: TextArrayExpr)
        ensures
            r@ == (Expr::Fragment { sql, ty: SqlType::TextArray }),
    {
        TextArrayExpr { node: Expr::Fragment { sql, ty: SqlType::TextArray } }
    }

    /// Wraps a node that is known to be a well-typed text array.
    pub(crate) fn from_expr(node: Expr) -> (r: TextArrayExpr)
        requires
            node.well_typed(),
            node.sql_type() == SqlType::TextArray,
        ensures
            r@ == node,
    {
        TextArrayExpr { node }
    }

    /// The node, which is well typed and of the text array type.
    pub fn into_expr(self) -> (e: Expr)
        ensures
            e == self@,
            e.well_typed(),
            e.sql_type() == SqlType::TextArray,
    {
        proof {
            use_type_invariant(&self);
        }
        self.node
    }

    /// Renders the expression in the engine's syntax.
    pub fn to_sql(&self) -> (s: String)
        ensures
            s@ == self@.sql(),
    {
        self.node.to_sql()
    }
}

/// An expression of the boolean type.
#[derive(Debug)]
pub struct BoolExpr {
    node: Expr,
}

impl View for BoolExpr {
    type V = Expr;

    closed spec fn view(&self) -> Expr {
        self.node
    }
}

impl BoolExpr {
    #[verifier::type_invariant]
    pub closed spec fn wf(&self) -> bool {
        self.node.well_typed() && self.node.sql_type() == SqlType::Bool
    }

    /// Wraps a node that is known to be a well-typed boolean.
    pub(crate) fn from_expr(node: Expr) -> (r: BoolExpr)
        requires
            node.well_typed(),
            node.sql_type() == SqlType::Bool,
        ensures
            r@ == node,
    {
        BoolExpr { node }
    }

    /// The node, which is well typed and of the boolean type.
    pub fn into_expr(self) -> (e: Expr)
        ensures
            e == self@,
            e.well_typed(),
            e.sql_type() == SqlType::Bool,
    {
        proof {
            use_type_invariant(&self);
        }
        self.node
    }

    /// Renders the expression in the engine's syntax.
    pub fn to_sql(&self) -> (s: String)
        ensures
            s@ == self@.sql(),
    {
        self.node.to_sql()
    }
}

} // verus!
