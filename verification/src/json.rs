//! The nesting depth of a JSON request context.

use vstd::prelude::*;

verus! {

/// The shape of a JSON value: what its nesting depth depends on.
pub enum JsonShape {
    /// A null, boolean, number or string.
    Scalar,
    /// An array of values.
    Array(Vec<JsonShape>),
    /// An object, by the values of its members.
    Object(Vec<JsonShape>),
}

/// The largest depth among `items[..n]`, 0 when there are none.
pub open spec fn max_depth_of(items: Seq<JsonShape>, n: int) -> nat
    decreases items, n,
{
    if n <= 0 || n > items.len() {
        0
    } else {
        let rest = max_depth_of(items, n - 1);
        let d = spec_json_depth(items[n - 1]);
        if d > rest {
            d
        } else {
            rest
        }
    }
}

/// The nesting depth of a value: 1 for a scalar, and for an array or an
/// object 1 more than its deepest element (1 when it is empty).
pub open spec fn spec_json_depth(v: JsonShape) -> nat
    decreases v, 0int,
{
    match v {
        JsonShape::Scalar => 1,
        JsonShape::Array(items) => 1 + max_depth_of(items@, items@.len() as int),
        JsonShape::Object(items) => 1 + max_depth_of(items@, items@.len() as int),
    }
}

/// The largest depth among `items` (0 when empty), saturating at
/// `usize::MAX`.
fn items_depth(items: &Vec<JsonShape>) -> (r: usize)
    ensures
        r as nat == if max_depth_of(items@, items@.len() as int) < usize::MAX {
            max_depth_of(items@, items@.len() as int)
        } else {
            usize::MAX as nat
        },
    decreases items@, 1int,
{
    let mut best: usize = 0;
    let mut i: usize = 0;
    while i < items.len()
        invariant
            i <= items@.len(),
            best as nat == if max_depth_of(items@, i as int) < usize::MAX {
                max_depth_of(items@, i as int)
            } else {
                usize::MAX as nat
            },
        decreases items@.len() - i,
    {
        assert(decreases_to!(items@ => items@[i as int]));
        let d = json_depth(&items[i]);
        if d > best {
            best = d;
        }
        i = i + 1;
    }
    best
}

/// The nesting depth of `value` (see `spec_json_depth`), or `usize::MAX`
/// should it be larger.
pub fn json_depth(value: &JsonShape) -> (r: usize)
    ensures
        r as nat == if spec_json_depth(*value) < usize::MAX {
            spec_json_depth(*value)
        } else {
            usize::MAX as nat
        },
    decreases *value, 0int,
{
    match value {
        JsonShape::Scalar => 1,
        JsonShape::Array(items) => items_depth(items).saturating_add(1),
        JsonShape::Object(items) => items_depth(items).saturating_add(1),
    }
}

} // verus!
