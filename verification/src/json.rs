use vstd::prelude::*;

verus! {

/// A parsed JSON document: a recursive tagged union with one arm per JSON
/// kind. A number keeps the exact textual form the parser stored for it, so
/// rendering preserves integer versus floating-point formatting as given.
/// An object keeps its entries in insertion order; keys are expected to be
/// unique within one object, but nothing here depends on that.
///
/// The value is immutable once built: the renderer only reads it. The host
/// converts the external parser's output into this shape before rendering.
#[derive(Debug, PartialEq)]
pub enum Json {
    Null,
    Bool(bool),
    Num(String),
    Str(String),
    Arr(Vec<Json>),
    Obj(Vec<(String, Json)>),
}

/// Nesting depth of a value: 0 for a leaf, one more than the deepest child
/// for a container (an empty container counts as depth 1). This bounds the
/// indentation the renderer can reach while laying the value out.
pub open spec fn depth(v: Json) -> nat
    decreases v, 1int, 0int,
{
    match v {
        Json::Null => 0,
        Json::Bool(_) => 0,
        Json::Num(_) => 0,
        Json::Str(_) => 0,
        Json::Arr(a) => 1 + items_depth(a@, 0),
        Json::Obj(o) => 1 + entries_depth(o@, 0),
    }
}

/// Deepest nesting among the array elements `s[i..]`; 0 past the end.
pub open spec fn items_depth(s: Seq<Json>, i: int) -> nat
    decreases s, 0int, s.len() - i,
{
    if i < 0 || i >= s.len() {
        0
    } else {
        let d = depth(s[i]);
        let rest = items_depth(s, i + 1);
        if d > rest {
            d
        } else {
            rest
        }
    }
}

/// Deepest nesting among the values of the object entries `s[i..]`; 0 past
/// the end.
pub open spec fn entries_depth(s: Seq<(String, Json)>, i: int) -> nat
    decreases s, 0int, s.len() - i,
{
    if i < 0 || i >= s.len() {
        0
    } else {
        let d = depth(s[i].1);
        let rest = entries_depth(s, i + 1);
        if d > rest {
            d
        } else {
            rest
        }
    }
}

/// `items_depth(s, i)` bounds the depth of every element from position `i` on.
pub proof fn lemma_items_depth_bound(s: Seq<Json>, i: int, j: int)
    requires
        0 <= i <= j < s.len(),
    ensures
        depth(s[j]) <= items_depth(s, i),
    decreases j - i,
{
    if i < j {
        lemma_items_depth_bound(s, i + 1, j);
    }
}

/// `entries_depth(s, i)` bounds the depth of every entry value from position
/// `i` on.
pub proof fn lemma_entries_depth_bound(s: Seq<(String, Json)>, i: int, j: int)
    requires
        0 <= i <= j < s.len(),
    ensures
        depth(s[j].1) <= entries_depth(s, i),
    decreases j - i,
{
    if i < j {
        lemma_entries_depth_bound(s, i + 1, j);
    }
}

} // verus!
