//! The sampled value: a whole number or free text, with its textual
//! rendering and the digit-scraping numeric parser.

use vstd::prelude::*;
use crate::text::{
    dec_repr, digits_of, digits_val, i32_to_string, is_digit, lemma_digits_of_take_step,
    lemma_digits_of_take_val, strip_nl,
};

verus! {

/// Why a sample requested in numeric mode could not become a number.
/// This is a per-widget misconfiguration, recoverable by the caller;
/// it never aborts rendering of other widgets.
#[derive(Clone, Copy, PartialEq, Eq, Debug)]
pub enum WidgetError {
    /// The sample held no decimal digit at all.
    NoDigits,
    /// The scraped digits denote a number too large for the data type.
    OutOfRange,
}

/// A sampled value: a whole number or free text.
#[derive(PartialEq, Eq, Debug)]
pub enum Data {
    Number(i32),
    Text(String),
}

/// The mathematical form of a `Data` value.
pub enum DataView {
    Number(int),
    Text(Seq<char>),
}

impl View for Data {
    type V = DataView;

    open spec fn view(&self) -> DataView {
        match self {
            Data::Number(n) => DataView::Number(*n as int),
            Data::Text(t) => DataView::Text(t@),
        }
    }
}

/// The textual rendering of a value: the decimal representation of a
/// number, or the text verbatim.
pub open spec fn display_of(d: DataView) -> Seq<char> {
    match d {
        DataView::Number(n) => dec_repr(n),
        DataView::Text(t) => t,
    }
}

/// The degraded placeholder returned when a source is unavailable:
/// zero in numeric mode, empty text otherwise.
pub open spec fn degraded(is_numeric: bool) -> DataView {
    if is_numeric {
        DataView::Number(0)
    } else {
        DataView::Text(Seq::empty())
    }
}

impl Data {
    /// The default value for a mode, used as the degraded placeholder when
    /// a source is unavailable.
    pub fn new(is_numeric: bool) -> (r: Data)
        ensures
            r@ == degraded(is_numeric),
    {
        if is_numeric {
            Data::Number(0)
        } else {
            Data::Text(String::new())
        }
    }

    /// The textual rendering of the value.
    pub fn display_string(&self) -> (r: String)
        ensures
            r@ == display_of(self@),
    {
        match self {
            Data::Number(n) => i32_to_string(*n),
            Data::Text(t) => t.clone(),
        }
    }
}

/// What decoded sample text becomes in a given mode. In numeric mode every
/// ASCII digit is kept, everything else is discarded, and the digits are
/// read as one non-negative number; no digit at all, or a number too large,
/// is an error. In text mode the text is kept verbatim but for one
/// trailing newline.
pub open spec fn parsed_data(cs: Seq<char>, is_numeric: bool) -> Result<DataView, WidgetError> {
    if is_numeric {
        if digits_of(cs).len() == 0 {
            Err(WidgetError::NoDigits)
        } else if digits_val(digits_of(cs)) > i32::MAX {
            Err(WidgetError::OutOfRange)
        } else {
            Ok(DataView::Number(digits_val(digits_of(cs))))
        }
    } else {
        Ok(DataView::Text(strip_nl(cs)))
    }
}

/// Scrapes every ASCII digit out of `s`, in order, and reads the digits as
/// one non-negative number.
pub fn parse_numeric(s: &str) -> (r: Result<i32, WidgetError>)
    ensures
        match r {
            Ok(v) => digits_of(s@).len() > 0 && v == digits_val(digits_of(s@)),
            Err(WidgetError::NoDigits) => digits_of(s@).len() == 0,
            Err(WidgetError::OutOfRange) => digits_of(s@).len() > 0 && digits_val(digits_of(s@))
                > i32::MAX,
        },
{
    let n: usize = s.unicode_len();
    let mut i: usize = 0;
    let mut acc: i32 = 0;
    let mut seen: bool = false;
    while i < n
        invariant
            i <= n,
            n == s@.len(),
            seen == (digits_of(s@.take(i as int)).len() > 0),
            0 <= acc,
            acc == digits_val(digits_of(s@.take(i as int))),
        decreases n - i,
    {
        let c: char = s.get_char(i);
        proof {
            lemma_digits_of_take_step(s@, i as int);
        }
        if is_digit(c) {
            let d: i32 = (c as u32 - 48) as i32;
            proof {
                let pre = digits_of(s@.take(i as int));
                assert(pre.push(c).drop_last() =~= pre);
                assert(digits_val(pre.push(c)) == acc * 10 + d);
            }
            if acc > (i32::MAX - d) / 10 {
                proof {
                    lemma_digits_of_take_val(s@, i as int + 1);
                    assert(s@.take(n as int) =~= s@);
                }
                return Err(WidgetError::OutOfRange);
            }
            acc = acc * 10 + d;
            seen = true;
        }
        i = i + 1;
    }
    proof {
        assert(s@.take(n as int) =~= s@);
    }
    if seen {
        Ok(acc)
    } else {
        Err(WidgetError::NoDigits)
    }
}

} // verus!
