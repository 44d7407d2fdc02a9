//! Collects the error messages that the scanner reports.

use vstd::prelude::*;
use crate::text::{decimal, push_decimal, push_str};

verus! {

/// The text recorded for an error reported at `line` with `message`:
/// `[Line <line>] Error: <message>`.
pub open spec fn error_entry(line: nat, message: Seq<char>) -> Seq<char> {
    "[Line "@ + decimal(line) + "] Error: "@ + message
}

/// The messages of `log`, each followed by a line break.
pub open spec fn joined_lines(log: Seq<Seq<char>>) -> Seq<char>
    decreases log.len(),
{
    if log.len() == 0 {
        Seq::empty()
    } else {
        joined_lines(log.drop_last()) + log.last() + seq!['\n']
    }
}

/// How a log reads when printed: every message on a line of its own, or
/// `No errors reported.` when it is empty.
pub open spec fn report_text(log: Seq<Seq<char>>) -> Seq<char> {
    if log.len() == 0 {
        "No errors reported."@
    } else {
        joined_lines(log)
    }
}

/// A log of reported errors, in the order they were reported.
pub struct Error {
    list: Vec<String>,
}

impl View for Error {
    type V = Seq<Seq<char>>;

    /// The recorded messages, oldest first.
    closed spec fn view(&self) -> Seq<Seq<char>> {
        self.list@.map_values(|m: String| m@)
    }
}

impl Error {
    /// An empty log.
    pub fn new() -> (r: Self)
        ensures
            r@ == Seq::<Seq<char>>::empty(),
    {
        let r = Error { list: Vec::new() };
        assert(r@ =~= Seq::<Seq<char>>::empty());
        r
    }

    /// Records an error: appends `[Line <line>] Error: <message>` to the log.
    pub fn error(&mut self, line: usize, message: &str)
        ensures
            final(self)@ == old(self)@.push(error_entry(line as nat, message@)),
    {
        let mut text = String::new();
        push_str(&mut text, "[Line ");
        push_decimal(&mut text, line as u64);
        push_str(&mut text, "] Error: ");
        push_str(&mut text, message);
        assert(text@ =~= error_entry(line as nat, message@));
                self.list.push(text);
        assert(self@ =~= old(self)@.push(error_entry(line as nat, message@)));
    }

    /// Whether any error has been recorded since the log was made or last cleared.
    pub fn has_error_occurred(&self) -> (r: bool)
        ensures
            r == (self@.len() > 0),
    {
        self.list.len() > 0
    }

    /// All recorded messages, oldest first.
    pub fn get_errors(&self) -> (r: &Vec<String>)
        ensures
            r@.map_values(|m: String| m@) == self@,
    {
        &self.list
    }

    /// The log as printed text: every message on a line of its own, or
    /// `No errors reported.` when nothing was recorded.
    pub fn to_string(&self) -> (r: String)
        ensures
            r@ == report_text(self@),
    {
        if self.list.len() == 0 {
            let r = String::from_str("No errors reported.");
            return r;
        }
        let mut text = String::new();
        let mut i: usize = 0;
        while i < self.list.len()
            invariant
                0 < self.list@.len(),
                i <= self.list@.len(),
                text@ == joined_lines(self@.take(i as int)),
            decreases self.list@.len() - i,
        {
            proof {
                assert(self@.take(i + 1).drop_last() =~= self@.take(i as int));
            }
            push_str(&mut text, self.list[i].as_str());
            text.push('\n');
            i = i + 1;
        }
        assert(self@.take(self@.len() as int) =~= self@);
        text
    }

    /// Forgets every recorded message.
    pub fn clear_errors(&mut self)
        ensures
            final(self)@ == Seq::<Seq<char>>::empty(),
    {
        self.list.clear();
        assert(self@ =~= Seq::<Seq<char>>::empty());
    }
}

impl Default for Error {
    fn default() -> (r: Self)
        ensures
            r@ == Seq::<Seq<char>>::empty(),
    {
        Error::new()
    }
}

} // verus!
