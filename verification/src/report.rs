//! [`Report`]: textual report for devices, rooms, and the whole home.

use vstd::prelude::*;

use crate::console::emit;

verus! {

/// Types that can produce a human-readable report.
pub trait Report {
    /// The value is in a state its report describes (its invariant holds).
    spec fn is_reportable(&self) -> bool;

    /// `text` is a report this value can give. It is one text for values whose
    /// readings are known; a thermometer fed over UDP reports whatever reading
    /// arrived last.
    spec fn is_report_text(&self, text: Seq<char>) -> bool;

    /// Full report text (typically multiple lines).
    fn report(&self) -> (r: String)
        requires
            self.is_reportable(),
        ensures
            self.is_report_text(r@),
    ;

    /// Prints the report to standard output.
    fn print_report(&self)
        requires
            self.is_reportable(),
    {
        let text = self.report();
        emit(text.as_str());
    }
}

} // verus!
