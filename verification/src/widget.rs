//! A widget binds an identifier, a sourcing strategy, a color rule and a
//! numeric-mode flag, and renders one markup segment on demand.

use vstd::prelude::*;
use vstd::string::*;
use crate::colorizer::{color_of, Colorizer};
use crate::data::{display_of, Data, DataView, WidgetError};
use crate::retrieve::{result_models, update_model, DataRetriever};
use crate::text::{dec_digits, push_dec};

verus! {

/// One labeled, independently sourced, colorized status value. Created
/// once, immutable thereafter, and re-evaluated on every render.
pub struct Widget {
    /// The identifier shown before the value; duplicates are permitted.
    pub id: String,
    /// Where the raw sample comes from.
    pub retriever: DataRetriever,
    /// How the value maps to a color.
    pub colorizer: Colorizer,
    /// Whether the sample is read as a number instead of verbatim text.
    pub is_num: bool,
}

/// The markup for one widget: the identifier, then the value wrapped in a
/// foreground-color escape that is reset afterwards.
pub open spec fn markup_of(id: Seq<char>, color: u8, val: Seq<char>) -> Seq<char> {
    id + ": +@fg="@ + dec_digits(color as nat) + ";"@ + val + "+@fg=0;"@
}

/// What one widget renders for a raw sample: its markup, or the error a
/// numeric misconfiguration surfaces.
pub open spec fn segment_of(w: Widget, raw: Option<Seq<u8>>) -> Result<Seq<char>, WidgetError> {
    match update_model(raw, w.is_num) {
        Ok(dv) => Ok(markup_of(w.id@, color_of(w.colorizer, dv), display_of(dv))),
        Err(e) => Err(e),
    }
}

/// The segment a bar shows for one widget: its markup, or, when the widget
/// is misconfigured, its identifier with a question mark in place of a
/// value.
pub open spec fn segment_display(w: Widget, raw: Option<Seq<u8>>) -> Seq<char> {
    match segment_of(w, raw) {
        Ok(s) => s,
        Err(_) => w.id@ + ": ?"@,
    }
}

/// Builds the markup segment for an identifier, a color and a rendered
/// value.
fn markup(id: &String, color: u8, val: &String) -> (r: String)
    ensures
        r@ == markup_of(id@, color, val@),
{
    let mut s = id.clone();
    s.append(": +@fg=");
    push_dec(&mut s, color as u32);
    s.append(";");
    s.append(val.as_str());
    s.append("+@fg=0;");
    proof {
        assert(s@ =~= markup_of(id@, color, val@));
    }
    s
}

impl Widget {
    /// Pure construction; no source is touched until the widget renders.
    pub fn new(id: &str, retriever: DataRetriever, colorizer: Colorizer, is_num: bool) -> (w:
        Widget)
        ensures
            w.id@ == id@,
            w.retriever == retriever,
            w.colorizer == colorizer,
            w.is_num == is_num,
    {
        Widget { id: id.to_owned(), retriever, colorizer, is_num }
    }

    /// Turns the raw sample from this widget's source into its value:
    /// the degraded placeholder when the source was unavailable (`None`),
    /// else the bytes read per the widget's mode.
    pub fn update(&self, raw: &Option<Vec<u8>>) -> (r: Result<Data, WidgetError>)
        ensures
            result_models(r, update_model(raw.deep_view(), self.is_num)),
    {
        self.retriever.retrieve(raw, self.is_num)
    }

    /// Renders this widget's markup segment for a raw sample; the one error
    /// is a numeric-mode sample whose digits cannot become a number.
    pub fn render_sample(&self, raw: &Option<Vec<u8>>) -> (r: Result<String, WidgetError>)
        ensures
            match (r, segment_of(*self, raw.deep_view())) {
                (Ok(s), Ok(m)) => s@ == m,
                (Err(e), Err(em)) => e == em,
                _ => false,
            },
    {
        match self.update(raw) {
            Ok(d) => {
                let color = self.colorizer.get_color(&d);
                let val = d.display_string();
                Ok(markup(&self.id, color, &val))
            },
            Err(e) => Err(e),
        }
    }

    /// Renders this widget's segment, falling back to the identifier with a
    /// question mark when the widget is misconfigured, so that one bad
    /// widget never takes a whole bar down.
    pub fn render_or_placeholder(&self, raw: &Option<Vec<u8>>) -> (r: String)
        ensures
            r@ == segment_display(*self, raw.deep_view()),
    {
        match self.render_sample(raw) {
            Ok(s) => s,
            Err(_) => {
                let mut s = self.id.clone();
                s.append(": ?");
                proof {
                    assert(s@ =~= self.id@ + ": ?"@);
                }
                s
            },
        }
    }
}

} // verus!
