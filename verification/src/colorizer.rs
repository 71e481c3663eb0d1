//! Color rules: mapping a data value to a color code. The code's meaning
//! belongs to the host renderer and is not interpreted here.

use vstd::prelude::*;
use crate::data::{display_of, Data, DataView};

verus! {

/// A rule mapping a data value to a color code.
pub enum Colorizer {
    /// Always the same color, whatever the data.
    Constant(u8),
    /// A null color when the data's textual rendering equals the null
    /// value, else an active color: `(null_color, active_color)` and the
    /// null value.
    Binary((u8, u8), String),
    /// For a number, one of `(low_color, mid_color, high_color)` by the
    /// two thresholds `(low, mid)`: the low color strictly below the low
    /// threshold, the high color at or above the mid threshold, the mid
    /// color between. For text, always the mid color. The thresholds are
    /// not validated against each other: with `low >= mid` the middle
    /// range is empty or inverted.
    Trinary((u8, u8, u8), i32, i32),
}

/// The color a rule yields for a value.
pub open spec fn color_of(c: Colorizer, d: DataView) -> u8 {
    match c {
        Colorizer::Constant(k) => k,
        Colorizer::Binary(pair, nv) => if display_of(d) == nv@ {
            pair.0
        } else {
            pair.1
        },
        Colorizer::Trinary(triple, lt, mt) => match d {
            DataView::Text(_) => triple.1,
            DataView::Number(v) => if v < lt {
                triple.0
            } else if v < mt {
                triple.1
            } else {
                triple.2
            },
        },
    }
}

impl Colorizer {
    /// The color for a value under this rule.
    pub fn get_color(&self, d: &Data) -> (r: u8)
        ensures
            r == color_of(*self, d@),
    {
        match self {
            Colorizer::Constant(c) => *c,
            Colorizer::Binary(pair, nv) => {
                let ds = d.display_string();
                if ds.eq(nv) {
                    pair.0
                } else {
                    pair.1
                }
            },
            Colorizer::Trinary(triple, lt, mt) => {
                match d {
                    Data::Text(_) => triple.1,
                    Data::Number(n) => {
                        if *n < *lt {
                            triple.0
                        } else if *n < *mt {
                            triple.1
                        } else {
                            triple.2
                        }
                    },
                }
            },
        }
    }
}

/// Law: with ordered thresholds and three distinct colors, a trinary rule
/// partitions the numbers: the low color exactly below the low threshold,
/// the high color exactly at or above the mid threshold, the mid color
/// exactly between. (With inverted thresholds the low check wins, so the
/// high direction of the partition does not hold; with equal colors the
/// color no longer tells the ranges apart.)
pub proof fn lemma_trinary_partition(cols: (u8, u8, u8), lt: i32, mt: i32, v: int)
    requires
        lt <= mt,
        cols.0 != cols.1,
        cols.1 != cols.2,
        cols.0 != cols.2,
    ensures
        (color_of(Colorizer::Trinary(cols, lt, mt), DataView::Number(v)) == cols.0) <==> (v < lt),
        (color_of(Colorizer::Trinary(cols, lt, mt), DataView::Number(v)) == cols.2) <==> (v
            >= mt),
        (color_of(Colorizer::Trinary(cols, lt, mt), DataView::Number(v)) == cols.1) <==> (lt <= v
            < mt),
{
}

/// Law: with distinct colors, a binary rule yields the null color exactly
/// when the data's textual rendering equals the null value, and the active
/// color otherwise.
pub proof fn lemma_binary_choice(cols: (u8, u8), nv: String, d: DataView)
    requires
        cols.0 != cols.1,
    ensures
        (color_of(Colorizer::Binary(cols, nv), d) == cols.0) <==> (display_of(d) == nv@),
        (color_of(Colorizer::Binary(cols, nv), d) == cols.1) <==> (display_of(d) != nv@),
{
}

} // verus!
