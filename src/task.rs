use vstd::prelude::*;

verus! {

/// A task as it is kept in memory and in the store.
///
/// `due_date` is a moment in whole seconds since the Unix epoch, UTC.
#[derive(Debug, PartialEq)]
pub struct Task {
    pub id: Option<i32>,
    pub title: String,
    pub description: String,
    pub due_date: i64,
    pub priority: i32,
    pub completed: bool,
}

impl Task {
    /// A task equal to this one in every field.
    pub fn duplicate(&self) -> (r: Task)
        ensures
            r == *self,
    {
        Task {
            id: self.id,
            title: self.title.clone(),
            description: self.description.clone(),
            due_date: self.due_date,
            priority: self.priority,
            completed: self.completed,
        }
    }
}

/// Relies on std's `str::chars` collected into a `Vec`: the characters of
/// the text, in order.
#[verifier::external_body]
pub(crate) fn chars_of(s: &str) -> (r: Vec<char>)
    ensures
        r@ == s@,
{
    s.chars().collect()
}

/// Relies on std's `String: FromIterator<&char>`: the text made of the
/// characters, in order.
#[verifier::external_body]
pub(crate) fn string_of(chars: &Vec<char>) -> (r: String)
    ensures
        r@ == chars@,
{
    chars.iter().collect()
}

/// The tasks among `rows`, in their order; a `None` stands for a row that
/// could not be read and is left out.
pub open spec fn readable_rows(rows: Seq<Option<Task>>) -> Seq<Task>
    decreases rows.len(),
{
    if rows.len() == 0 {
        Seq::empty()
    } else {
        let front = readable_rows(rows.drop_last());
        match rows.last() {
            Some(t) => front.push(t),
            None => front,
        }
    }
}

/// Keeps the rows that could be read as tasks, in their order, and drops the
/// malformed ones: one bad row does not hide the others.
pub fn keep_readable_rows(rows: &Vec<Option<Task>>) -> (r: Vec<Task>)
    ensures
        r@ == readable_rows(rows@),
{
    let mut out: Vec<Task> = Vec::new();
    let mut i: usize = 0;
    while i < rows.len()
        invariant
            i <= rows.len(),
            out@ == readable_rows(rows@.subrange(0, i as int)),
        decreases rows.len() - i,
    {
        proof {
            assert(rows@.subrange(0, i + 1).drop_last() =~= rows@.subrange(0, i as int));
        }
        match &rows[i] {
            Some(t) => {
                out.push(t.duplicate());
            },
            None => {},
        }
        i = i + 1;
    }
    proof {
        assert(rows@.subrange(0, rows.len() as int) =~= rows@);
    }
    out
}

} // verus!
