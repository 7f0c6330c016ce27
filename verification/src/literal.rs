//! Rendering a container as a literal of the engine's own syntax, for query
//! text that must hold the value itself and not a bound parameter.
//!
//! Keys and values are spliced into the literal as they are. A key or value
//! that holds a delimiter of the syntax changes what the literal means, so a
//! caller that cannot vouch for its texts checks them first, or renders with
//! [`render_literal_strict`].

use crate::container::{pair_views, Hstore, Pair};
use vstd::prelude::*;
use vstd::string::StringExecFns;

verus! {

/// Why a literal was not rendered.
#[derive(Clone, Copy, Debug, PartialEq, Eq, Structural)]
pub enum RenderError {
    /// The container is empty and the caller asked for a literal with at
    /// least one pair.
    EmptyLiteral,
    /// A key or a value holds a character that the literal syntax gives a
    /// meaning.
    SqlInjectionHazard,
}

/// One pair of a literal: `key=>value`.
pub open spec fn pair_sql(p: Pair) -> Seq<char> {
    p.0 + "=>"@ + p.1
}

/// The pairs of a literal, separated by commas.
pub open spec fn pairs_sql(es: Seq<Pair>) -> Seq<char>
    decreases es.len(),
{
    if es.len() == 0 {
        Seq::empty()
    } else if es.len() == 1 {
        pair_sql(es[0])
    } else {
        pairs_sql(es.drop_last()) + ","@ + pair_sql(es.last())
    }
}

/// The literal of the given pairs: `'k1=>v1,k2=>v2'::hstore`.
pub open spec fn literal_sql(es: Seq<Pair>) -> Seq<char> {
    "'"@ + pairs_sql(es) + "'::hstore"@
}

/// The characters that the literal syntax gives a meaning: the delimiters
/// `=`, `>`, `,` and `'`, the quoting characters `"` and `\`, and white
/// space.
pub open spec fn is_meta(c: char) -> bool {
    c == '=' || c == '>' || c == ',' || c == '\'' || c == '"' || c == '\\' || c == ' ' || c == '\t'
        || c == '\n' || c == '\r'
}

/// Whether `t` holds a character with a meaning in the literal syntax.
pub open spec fn has_meta(t: Seq<char>) -> bool {
    exists|i: int| 0 <= i < t.len() && is_meta(#[trigger] t[i])
}

/// Whether some key or value of `es` holds a character with a meaning in the
/// literal syntax.
pub open spec fn hazardous(es: Seq<Pair>) -> bool {
    exists|i: int| 0 <= i < es.len() && (has_meta((#[trigger] es[i]).0) || has_meta(es[i].1))
}

/// Whether `c` has a meaning in the literal syntax.
fn char_is_meta(c: char) -> (b: bool)
    ensures
        b == is_meta(c),
{
    c == '=' || c == '>' || c == ',' || c == '\'' || c == '"' || c == '\\' || c == ' ' || c == '\t'
        || c == '\n' || c == '\r'
}

/// Whether `s` holds a character with a meaning in the literal syntax.
fn text_has_meta(s: &str) -> (b: bool)
    ensures
        b == has_meta(s@),
{
    for c in it: s.chars()
        invariant
            it.seq() == s@,
            forall|j: int| 0 <= j < it.index() ==> !is_meta(#[trigger] s@[j]),
    {
        if char_is_meta(c) {
            return true;
        }
    }
    false
}

/// Whether splicing the container into a literal would change the literal's
/// meaning: whether a key or a value holds a delimiter, a quoting character
/// or white space.
pub fn has_injection_hazard(h: &Hstore) -> (b: bool)
    ensures
        b == hazardous(h.entries()),
{
    let items = h.as_slice();
    let mut i: usize = 0;
    while i < items.len()
        invariant
            i <= items@.len(),
            pair_views(items@) == h.entries(),
            forall|j: int|
                0 <= j < i ==> !has_meta((#[trigger] h.entries()[j]).0) && !has_meta(h.entries()[j].1),
        decreases items@.len() - i,
    {
        assert(h.entries()[i as int] == (items@[i as int].0@, items@[i as int].1@));
        if text_has_meta(items[i].0.as_str()) || text_has_meta(items[i].1.as_str()) {
            return true;
        }
        i += 1;
    }
    false
}

/// Renders the container as a literal, pairs in the container's own order,
/// keys and values spliced in as they are. An empty container renders as the
/// empty literal `''::hstore`, unless the caller requires at least one pair:
/// then, and only then, rendering is refused.
pub fn render_literal(h: &Hstore, require_non_empty: bool) -> (r: Result<String, RenderError>)
    ensures
        match r {
            Ok(s) => !(require_non_empty && h.entries().len() == 0) && s@ == literal_sql(h.entries()),
            Err(e) => require_non_empty && h.entries().len() == 0 && e == RenderError::EmptyLiteral,
        },
{
    let items = h.as_slice();
    if require_non_empty && items.len() == 0 {
        return Err(RenderError::EmptyLiteral);
    }
    let ghost es = h.entries();
    let mut out = String::new();
    out.append("'");
    let mut i: usize = 0;
    while i < items.len()
        invariant
            i <= items@.len(),
            es == pair_views(items@),
            out@ == "'"@ + pairs_sql(es.take(i as int)),
        decreases items@.len() - i,
    {
        if i > 0 {
            out.append(",");
        }
        out.append(items[i].0.as_str());
        out.append("=>");
        out.append(items[i].1.as_str());
        proof {
            let next = es.take(i + 1);
            assert(next.drop_last() =~= es.take(i as int));
            assert(next.last() == es[i as int]);
            assert(es[i as int] == (items@[i as int].0@, items@[i as int].1@));
            assert(out@ =~= "'"@ + pairs_sql(next));
        }
        i += 1;
    }
    out.append("'::hstore");
    assert(es.take(i as int) =~= es);
    Ok(out)
}

/// Renders like [`render_literal`], but refuses a container whose keys or
/// values would change the literal's meaning.
pub fn render_literal_strict(h: &Hstore, require_non_empty: bool) -> (r: Result<
    String,
    RenderError,
>)
    ensures
        match r {
            Ok(s) => !hazardous(h.entries()) && !(require_non_empty && h.entries().len() == 0) && s@
                == literal_sql(h.entries()),
            Err(RenderError::SqlInjectionHazard) => hazardous(h.entries()),
            Err(RenderError::EmptyLiteral) => !hazardous(h.entries()) && require_non_empty
                && h.entries().len() == 0,
        },
{
    if has_injection_hazard(h) {
        return Err(RenderError::SqlInjectionHazard);
    }
    render_literal(h, require_non_empty)
}

} // verus!
