//! Sourcing strategies: the source descriptors, the command-line
//! tokenizer, and the conversion of a raw sample into a `Data` value.
//!
//! Acquiring the bytes themselves (spawning the command, opening the
//! file) is blocking I/O and is left to the caller; a source that could
//! not be reached is handed in as `None` and degrades to a placeholder
//! instead of failing.

use vstd::prelude::*;
use vstd::string::*;
use crate::data::{degraded, parse_numeric, parsed_data, Data, DataView, WidgetError};
use crate::text::{is_space, strip_trailing_newline};

verus! {

/// Where a widget's sample comes from. The descriptor is plain
/// configuration; each retrieval re-acquires the source anew.
pub enum DataRetriever {
    /// The standard output of a command line: the first whitespace-separated
    /// token is the program, the remaining tokens are its arguments.
    Extern(String),
    /// The first line of the file at a path.
    File(String),
}

/// What `String::from_utf8_lossy` returns for given bytes; the result
/// depends on the bytes alone.
pub uninterp spec fn lossy_of(b: Seq<u8>) -> Seq<char>;

/// Relies on `String::from_utf8_lossy`: decodes bytes as UTF-8, replacing
/// invalid sequences with the replacement character. Empty input plainly
/// gives an empty string.
#[verifier::external_body]
fn decode_lossy(b: &Vec<u8>) -> (r: String)
    ensures
        r@ == lossy_of(b@),
        b@.len() == 0 ==> r@.len() == 0,
{
    String::from_utf8_lossy(b).into_owned()
}

/// The value a widget shows for a raw sample: the degraded placeholder when
/// the source was unavailable, else the decoded bytes read per mode.
pub open spec fn update_model(raw: Option<Seq<u8>>, is_numeric: bool) -> Result<
    DataView,
    WidgetError,
> {
    match raw {
        None => Ok(degraded(is_numeric)),
        Some(b) => parsed_data(lossy_of(b), is_numeric),
    }
}

/// An executable retrieval result agrees with its model.
pub open spec fn result_models(
    r: Result<Data, WidgetError>,
    m: Result<DataView, WidgetError>,
) -> bool {
    match (r, m) {
        (Ok(d), Ok(dv)) => d@ == dv,
        (Err(e), Err(em)) => e == em,
        _ => false,
    }
}

impl DataRetriever {
    /// Turns a raw sample into the widget's value. `raw` is `None` when the
    /// source was unavailable (the command failed to launch, the file failed
    /// to open): retrieval then degrades rather than failing. The one error
    /// surfaced to the caller is a numeric-mode sample whose digits cannot
    /// become a number.
    pub fn retrieve(&self, raw: &Option<Vec<u8>>, is_numeric: bool) -> (r: Result<
        Data,
        WidgetError,
    >)
        ensures
            result_models(r, update_model(raw.deep_view(), is_numeric)),
    {
        match raw {
            None => Ok(Data::new(is_numeric)),
            Some(b) => {
                proof {
                    assert(b.deep_view() =~= b@);
                }
                let s = decode_lossy(&b);
                if is_numeric {
                    match parse_numeric(s.as_str()) {
                        Ok(v) => Ok(Data::Number(v)),
                        Err(e) => Err(e),
                    }
                } else {
                    Ok(Data::Text(strip_trailing_newline(s)))
                }
            },
        }
    }
}

/// The whitespace-separated tokens of `s`, given that the characters of
/// `cur` (an unfinished token) came just before `s`.
pub open spec fn tokens_from(s: Seq<char>, cur: Seq<char>) -> Seq<Seq<char>>
    decreases s.len(),
{
    if s.len() == 0 {
        if cur.len() == 0 {
            Seq::empty()
        } else {
            seq![cur]
        }
    } else if is_space(s[0]) {
        if cur.len() == 0 {
            tokens_from(s.skip(1), Seq::empty())
        } else {
            seq![cur] + tokens_from(s.skip(1), Seq::empty())
        }
    } else {
        tokens_from(s.skip(1), cur.push(s[0]))
    }
}

/// The whitespace-separated tokens of `s`, in order.
pub open spec fn tokens_of(s: Seq<char>) -> Seq<Seq<char>> {
    tokens_from(s, Seq::empty())
}

/// Splits a line into its whitespace-separated tokens.
pub fn tokenize(s: &str) -> (r: Vec<String>)
    ensures
        r.deep_view() == tokens_of(s@),
{
    let n: usize = s.unicode_len();
    let mut toks: Vec<String> = Vec::new();
    let mut i: usize = 0;
    let mut start: usize = 0;
    proof {
        assert(s@.skip(0) =~= s@);
        assert(s@.subrange(0, 0) =~= Seq::<char>::empty());
        assert(toks.deep_view() + tokens_from(s@.skip(0), s@.subrange(0, 0)) =~~= tokens_of(s@));
    }
    while i < n
        invariant
            start <= i <= n,
            n == s@.len(),
            tokens_of(s@) == toks.deep_view() + tokens_from(
                s@.skip(i as int),
                s@.subrange(start as int, i as int),
            ),
        decreases n - i,
    {
        let c: char = s.get_char(i);
        proof {
            assert(s@.skip(i as int)[0] == s@[i as int]);
            assert(s@.skip(i as int).skip(1) =~= s@.skip(i as int + 1));
        }
        if is_space_char(c) {
            if start < i {
                let ghost before = toks.deep_view();
                let tok = s.substring_char(start, i);
                toks.push(tok.to_owned());
                proof {
                    assert(toks.deep_view() =~~= before.push(tok@));
                }
            }
            proof {
                assert(s@.subrange(i as int + 1, i as int + 1) =~= Seq::<char>::empty());
            }
            start = i + 1;
        } else {
            proof {
                assert(s@.subrange(start as int, i as int + 1) =~= s@.subrange(
                    start as int,
                    i as int,
                ).push(s@[i as int]));
            }
        }
        i = i + 1;
        proof {
            assert(tokens_of(s@) =~~= toks.deep_view() + tokens_from(
                s@.skip(i as int),
                s@.subrange(start as int, i as int),
            ));
        }
    }
    proof {
        assert(s@.skip(n as int) =~= Seq::<char>::empty());
    }
    if start < n {
        let ghost before = toks.deep_view();
        let tok = s.substring_char(start, n);
        toks.push(tok.to_owned());
        proof {
            assert(toks.deep_view() =~~= before.push(tok@));
        }
    }
    proof {
        assert(toks.deep_view() =~~= tokens_of(s@));
    }
    toks
}

/// Decides `is_space`.
pub fn is_space_char(c: char) -> (r: bool)
    ensures
        r == is_space(c),
{
    c == ' ' || c == '\t' || c == '\n' || c == '\r'
}

/// Splits a command line into the program (its first whitespace-separated
/// token) and the remaining tokens as arguments; `None` when the line
/// holds no token at all.
pub fn command_parts(cmd: &str) -> (r: Option<(String, Vec<String>)>)
    ensures
        match r {
            Some(parts) => tokens_of(cmd@).len() > 0 && parts.0@ == tokens_of(cmd@)[0]
                && parts.1.deep_view() == tokens_of(cmd@).skip(1),
            None => tokens_of(cmd@).len() == 0,
        },
{
    let mut toks = tokenize(cmd);
    if toks.len() == 0 {
        return None;
    }
    let prog = toks.remove(0);
    proof {
        assert(toks.deep_view() =~~= tokens_of(cmd@).skip(1));
    }
    Some((prog, toks))
}

} // verus!
