//! Task records: classifying a line of text and turning a qualifying line
//! into a structured record of task text and parsed timestamp.

use vstd::prelude::*;

use crate::date::DateTime;
use crate::parse::{extract_timestamp, spec_extract, token_of, ParseFailure};
use crate::text::{
    contains_sub, contains_sub_str, find_char, find_sub, find_sub_from, lemma_find_sub_from,
};

verus! {

/// The fixed substring that marks a line as an actionable task.
pub open spec fn task_marker() -> Seq<char> {
    "*TODO"@
}

/// The fixed substrings that mark a line as scheduled or deadlined.
pub open spec fn deadline_marker() -> Seq<char> {
    "DEADLINE"@
}

pub open spec fn scheduled_marker() -> Seq<char> {
    "SCHEDULED"@
}

/// A line is of interest when it carries the task marker together with at
/// least one of the two scheduling markers.
pub open spec fn is_task_line(s: Seq<char>) -> bool {
    contains_sub(s, task_marker()) && (contains_sub(s, deadline_marker()) || contains_sub(
        s,
        scheduled_marker(),
    ))
}

/// One parsed task: the text after the task marker, and the timestamp the
/// line carries.
#[derive(Debug, Clone)]
pub struct Todo {
    pub item: String,
    pub date: DateTime,
}

impl View for Todo {
    type V = (Seq<char>, DateTime);

    open spec fn view(&self) -> (Seq<char>, DateTime) {
        (self.item@, self.date)
    }
}

impl PartialEq for Todo {
    /// Two records are equal exactly when both fields are equal.
    fn eq(&self, other: &Todo) -> (r: bool) {
        self.item == other.item && self.date == other.date
    }
}

impl vstd::std_specs::cmp::PartialEqSpecImpl for Todo {
    open spec fn obeys_eq_spec() -> bool {
        true
    }

    open spec fn eq_spec(&self, other: &Todo) -> bool {
        self@ == other@
    }
}

impl Eq for Todo {}

/// The record a line yields when its marker and timestamp are both read,
/// whether or not the line carries a scheduling marker: the text after the
/// first task marker, paired with the parsed timestamp.
pub open spec fn spec_parse_todo(s: Seq<char>) -> Option<(Seq<char>, DateTime)> {
    let m = find_sub_from(s, task_marker(), 0);
    if m < 0 {
        None
    } else {
        match spec_extract(s) {
            Ok(dt) => Some((s.subrange(m + task_marker().len(), s.len() as int), dt)),
            Err(_) => None,
        }
    }
}

/// The record a line contributes to a scan: none unless the line is a task
/// line whose timestamp parses.
pub open spec fn spec_build(s: Seq<char>) -> Option<(Seq<char>, DateTime)> {
    if is_task_line(s) {
        spec_parse_todo(s)
    } else {
        None
    }
}

/// View of an optional record.
pub open spec fn opt_todo_view(r: Option<Todo>) -> Option<(Seq<char>, DateTime)> {
    match r {
        Some(t) => Some(t@),
        None => None,
    }
}

impl Todo {
    /// Whether a line carries the task marker and a scheduling marker.
    pub fn filter(line: &str) -> (r: bool)
        ensures
            r == is_task_line(line@),
    {
        contains_sub_str(line, "*TODO") && (contains_sub_str(line, "DEADLINE") || contains_sub_str(
            line,
            "SCHEDULED",
        ))
    }

    /// Parse one line into a record: the task text is everything after the
    /// first task marker, and the timestamp is read from the line's `<...>`
    /// token.  A line without the marker, or whose timestamp does not
    /// parse, yields nothing.
    pub fn parse_todo(line: &str) -> (r: Option<Todo>)
        ensures
            opt_todo_view(r) == spec_parse_todo(line@),
    {
        proof {
            reveal_strlit("*TODO");
        }
        let m = find_sub(line, "*TODO");
        match m {
            None => None,
            Some(i) => {
                proof {
                    lemma_find_sub_from(line@, task_marker(), 0);
                }
                match extract_timestamp(line) {
                    Err(_) => None,
                    Ok(dt) => {
                        let n = line.unicode_len();
                        let item = line.substring_char(i + 5, n);
                        Some(Todo { item: item.to_owned(), date: dt })
                    },
                }
            },
        }
    }

    /// The timestamp token of a line: the characters strictly between the
    /// first `<` and the first `>` after it, when both exist.
    pub fn find_date<'a>(line: &'a str) -> (r: Option<&'a str>)
        ensures
            match r {
                Some(t) => token_of(line@) == Some(t@),
                None => token_of(line@) is None,
            },
    {
        let n = line.unicode_len();
        let lt = find_char(line, '<', 0);
        if lt == n {
            return None;
        }
        let gt = find_char(line, '>', lt + 1);
        if gt == n {
            return None;
        }
        Some(line.substring_char(lt + 1, gt))
    }

    /// Find and parse the timestamp of a line.
    pub fn parse_date(line: &str) -> (r: Result<DateTime, ParseFailure>)
        ensures
            r == spec_extract(line@),
    {
        extract_timestamp(line)
    }

    /// Textual form of the record: the task text, a comma, and the
    /// timestamp's canonical text.
    pub fn render(&self) -> (r: String)
        requires
            self.date.valid(),
        ensures
            r@ == self.item@ + seq![','] + self.date.text(),
    {
        let mut out = self.item.clone();
        out.append(",");
        let date_text = self.date.render();
        out.append(date_text.as_str());
        proof {
            reveal_strlit(",");
            assert(","@ =~= seq![',']);
            assert(out@ =~= self.item@ + seq![','] + self.date.text());
        }
        out
    }

    /// The record builder of a scan: a line contributes a record exactly
    /// when it is a task line and its timestamp parses.
    pub fn build(line: &str) -> (r: Option<Todo>)
        ensures
            opt_todo_view(r) == spec_build(line@),
    {
        if Todo::filter(line) {
            Todo::parse_todo(line)
        } else {
            None
        }
    }
}

/// A line with the task marker but neither scheduling marker is never a
/// task line, whatever else it contains.
pub proof fn lemma_marker_without_schedule(s: Seq<char>)
    requires
        !contains_sub(s, deadline_marker()),
        !contains_sub(s, scheduled_marker()),
    ensures
        !is_task_line(s),
{
}

/// A line with the task marker and at least one scheduling marker is a task
/// line, whatever else it contains.
pub proof fn lemma_marker_with_schedule(s: Seq<char>)
    requires
        contains_sub(s, task_marker()),
        contains_sub(s, deadline_marker()) || contains_sub(s, scheduled_marker()),
    ensures
        is_task_line(s),
{
}

/// A line yields a record in a scan exactly when the classifier accepts it
/// and its timestamp parses; no other line contributes anything.
pub proof fn lemma_build_some_iff(s: Seq<char>)
    ensures
        spec_build(s) is Some <==> is_task_line(s) && spec_extract(s) is Ok,
{
    reveal_strlit("*TODO");
    if is_task_line(s) {
        lemma_find_sub_from(s, task_marker(), 0);
    }
}

} // verus!
