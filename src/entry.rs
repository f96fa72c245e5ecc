use vstd::prelude::*;
use vstd::string::*;

verus! {

/// The upper-case form of a string, as `str::to_uppercase` gives it.
pub uninterp spec fn upper_of(s: Seq<char>) -> Seq<char>;

/// Relies on `str::to_uppercase`: its result depends on the characters alone,
/// and an empty string stays empty.
#[verifier::external_body]
fn uppercase(s: &str) -> (r: String)
    ensures
        r@ == upper_of(s@),
        s@.len() == 0 ==> r@.len() == 0,
{
    s.to_uppercase()
}

/// One log entry. Only its rendered line is ever stored.
#[derive(Debug)]
pub struct LogEntry {
    pub timestamp: String,
    pub level: String,
    pub message: String,
    pub details: Option<String>,
}

/// The details of an entry, empty where there are none.
pub open spec fn details_view(d: Option<String>) -> Seq<char> {
    match d {
        Some(s) => s@,
        None => Seq::empty(),
    }
}

/// `[<timestamp>] [<LEVEL>] <message> <details>` and a line feed.
pub open spec fn line_of(
    timestamp: Seq<char>,
    level_upper: Seq<char>,
    message: Seq<char>,
    details: Seq<char>,
) -> Seq<char> {
    seq!['['] + timestamp + seq![']', ' ', '['] + level_upper + seq![']', ' '] + message + seq![' ']
        + details + seq!['\n']
}

/// Renders a line from its parts, the level already in upper case.
pub fn render_line(timestamp: &str, level_upper: &str, message: &str, details: &str) -> (r: String)
    ensures
        r@ == line_of(timestamp@, level_upper@, message@, details@),
{
    proof {
        reveal_strlit("[");
        reveal_strlit("] [");
        reveal_strlit("] ");
        reveal_strlit(" ");
        reveal_strlit("\n");
    }
    let mut r = String::from_str("[");
    r.append(timestamp);
    r.append("] [");
    r.append(level_upper);
    r.append("] ");
    r.append(message);
    r.append(" ");
    r.append(details);
    r.append("\n");
    proof {
        assert(r@ =~= line_of(timestamp@, level_upper@, message@, details@));
    }
    r
}

impl LogEntry {
    /// The line that stands for this entry in the current file.
    pub fn render(&self) -> (r: String)
        ensures
            r@ == line_of(
                self.timestamp@,
                upper_of(self.level@),
                self.message@,
                details_view(self.details),
            ),
    {
        let level = uppercase(self.level.as_str());
        let details: &str = match &self.details {
            Some(d) => d.as_str(),
            None => "",
        };
        proof {
            reveal_strlit("");
        }
        render_line(self.timestamp.as_str(), level.as_str(), self.message.as_str(), details)
    }
}

} // verus!
