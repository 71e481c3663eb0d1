//! The bar: an ordered sequence of widgets, rendered left to right as one
//! joined string with a `" | "` separator after every segment — the last
//! segment too carries the separator; that is the output format on purpose.

use vstd::prelude::*;
use vstd::string::*;
use crate::colorizer::Colorizer;
use crate::retrieve::DataRetriever;
use crate::widget::{segment_display, Widget};

verus! {

/// An ordered collection of widgets; the order is the display order.
/// Mutable only by appending.
pub struct Bar {
    widgets: Vec<Widget>,
}

impl View for Bar {
    type V = Seq<Widget>;

    closed spec fn view(&self) -> Seq<Widget> {
        self.widgets@
    }
}

/// The whole bar's output for one raw sample per widget: every widget's
/// segment in order, each followed by the separator.
pub open spec fn bar_out(ws: Seq<Widget>, samples: Seq<Option<Seq<u8>>>) -> Seq<char>
    decreases ws.len(),
{
    if ws.len() == 0 {
        Seq::empty()
    } else {
        bar_out(ws.drop_last(), samples.drop_last()) + segment_display(ws.last(), samples.last())
            + " | "@
    }
}

/// Law: rendering preserves widget order: a bar with one more widget
/// renders the previous bar's output, then the new widget's segment, then
/// the separator.
pub proof fn lemma_render_append(
    ws: Seq<Widget>,
    samples: Seq<Option<Seq<u8>>>,
    w: Widget,
    raw: Option<Seq<u8>>,
)
    ensures
        bar_out(ws.push(w), samples.push(raw)) == bar_out(ws, samples) + segment_display(w, raw)
            + " | "@,
{
    assert(ws.push(w).drop_last() =~= ws);
    assert(samples.push(raw).drop_last() =~= samples);
}

impl Bar {
    /// An empty bar.
    pub fn new() -> (b: Bar)
        ensures
            b@ == Seq::<Widget>::empty(),
    {
        Bar { widgets: Vec::new() }
    }

    /// How many widgets the bar holds.
    pub fn len(&self) -> (n: usize)
        ensures
            n == self@.len(),
    {
        self.widgets.len()
    }

    /// The widget at a display position.
    pub fn widget_at(&self, i: usize) -> (w: &Widget)
        requires
            i < self@.len(),
        ensures
            *w == self@[i as int],
    {
        &self.widgets[i]
    }

    /// Constructs a widget and appends it; no uniqueness is asked of the
    /// identifier.
    pub fn add_widget(&mut self, id: &str, retriever: DataRetriever, colorizer: Colorizer, is_num:
        bool)
        ensures
            final(self)@.len() == old(self)@.len() + 1,
            final(self)@.drop_last() == old(self)@,
            final(self)@.last().id@ == id@,
            final(self)@.last().retriever == retriever,
            final(self)@.last().colorizer == colorizer,
            final(self)@.last().is_num == is_num,
    {
        self.widgets.push(Widget::new(id, retriever, colorizer, is_num));
        proof {
            assert(final(self)@.drop_last() =~= old(self)@);
        }
    }

    /// Renders every widget in order over its raw sample and joins the
    /// segments, a separator after each. A misconfigured widget renders as
    /// its placeholder segment; it never takes the whole bar down.
    pub fn render(&self, samples: &Vec<Option<Vec<u8>>>) -> (r: String)
        requires
            samples@.len() == self@.len(),
        ensures
            r@ == bar_out(self@, samples.deep_view()),
    {
        let mut out = String::new();
        let mut i: usize = 0;
        proof {
            assert(out@ =~= bar_out(self@.take(0), samples.deep_view().take(0)));
        }
        while i < self.widgets.len()
            invariant
                i <= self@.len(),
                samples@.len() == self@.len(),
                samples.deep_view().len() == self@.len(),
                out@ == bar_out(self@.take(i as int), samples.deep_view().take(i as int)),
            decreases self@.len() - i,
        {
            let seg = self.widgets[i].render_or_placeholder(&samples[i]);
            out.append(seg.as_str());
            out.append(" | ");
            proof {
                let ws = self@.take(i as int + 1);
                let ss = samples.deep_view().take(i as int + 1);
                assert(ws.drop_last() =~= self@.take(i as int));
                assert(ss.drop_last() =~= samples.deep_view().take(i as int));
                assert(ss.last() == samples[i as int].deep_view());
                assert(out@ =~= bar_out(ws, ss));
            }
            i = i + 1;
        }
        proof {
            assert(self@.take(self@.len() as int) =~= self@);
            assert(samples.deep_view().take(self@.len() as int) =~= samples.deep_view());
        }
        out
    }
}

} // verus!
