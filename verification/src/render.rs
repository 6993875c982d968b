//! The listing text for one task: a checkbox marker, an urgency glyph, the
//! optional due-date text, the hierarchical name, and an optional indented
//! description line.

use vstd::prelude::*;

use crate::dates::display_utc;
use crate::dates::in_utc_display_range;
use crate::dates::utc_display;
use crate::tasks::Task;
use crate::tasks::Urgency;

verus! {

/// The glyph that marks each urgency tier in a listing.
pub open spec fn glyph_seq(u: Urgency) -> Seq<char> {
    match u {
        Urgency::Low => " "@,
        Urgency::Medium => "\u{ea74}"@,
        Urgency::High => "\u{ea6c}"@,
    }
}

/// The listing text of a task, given the text to show for its due instant:
/// `- [x] <glyph> <due> <name>` with the due part only when given, the `x`
/// only when completed, and the description on an indented second line.
pub open spec fn render_spec(t: Task, due_text: Option<Seq<char>>) -> Seq<char> {
    "- ["@ + (if t.completed {
        "x"@
    } else {
        " "@
    }) + "] "@ + glyph_seq(t.urgency) + (match due_text {
        Some(d) => " "@ + d,
        None => Seq::<char>::empty(),
    }) + " "@ + t.name@ + (match t.description {
        Some(d) => "\n    "@ + d@,
        None => Seq::<char>::empty(),
    })
}

impl Task {
    /// The urgency tier's glyph.
    pub fn glyph(&self) -> (r: String)
        ensures
            r@ == glyph_seq(self.urgency),
    {
        match self.urgency {
            Urgency::Low => String::from_str(" "),
            Urgency::Medium => String::from_str("\u{ea74}"),
            Urgency::High => String::from_str("\u{ea6c}"),
        }
    }

    /// The task's listing line, where `due_text` is the text shown for the
    /// due instant: exactly what `render_spec` describes.
    pub fn render_line(&self, due_text: Option<&str>) -> (r: String)
        ensures
            due_text matches Some(d) ==> r@ == render_spec(*self, Some(d@)),
            due_text is None ==> r@ == render_spec(*self, None),
    {
        let mut out = String::from_str("- [");
        if self.completed {
            out.append("x");
        } else {
            out.append(" ");
        }
        out.append("] ");
        let glyph = self.glyph();
        out.append(glyph.as_str());
        match due_text {
            Some(d) => {
                out.append(" ");
                out.append(d);
            },
            None => {},
        }
        out.append(" ");
        out.append(self.name.as_str());
        match &self.description {
            Some(d) => {
                out.append("\n    ");
                out.append(d.as_str());
            },
            None => {},
        }
        proof {
            match due_text {
                Some(d) => {
                    assert(out@ =~= render_spec(*self, Some(d@)));
                },
                None => {
                    assert(out@ =~= render_spec(*self, None));
                },
            }
        }
        out
    }

    /// The task's listing line: the due part is present exactly when the
    /// task has a due instant that chrono's calendar can represent, and then
    /// reads as chrono writes that instant; an undated task, or one whose
    /// instant lies outside the fixed representable range, gets the line
    /// without a due part.
    pub fn display_string(&self) -> (r: String)
        ensures
            self.due is None ==> r@ == render_spec(*self, None),
            self.due matches Some(d) ==> r@ == (if in_utc_display_range(d as int) {
                render_spec(*self, Some(utc_display(d as int)))
            } else {
                render_spec(*self, None)
            }),
    {
        match self.due {
            None => self.render_line(None),
            Some(d) => match display_utc(d) {
                Some(text) => self.render_line(Some(text.as_str())),
                None => self.render_line(None),
            },
        }
    }
}

} // verus!
