//! The in-memory log the Logs panel shows: a bounded buffer of the most recent
//! lines, and how one line's message is put together.

use vstd::prelude::*;
use vstd::string::StringExecFns;
use crate::text::{chars_of, strings_view};

verus! {

broadcast use vstd::string::group_string_axioms;

/// How many lines the buffer keeps.
pub const CAPACITY: usize = 2_000;

/// One logged line.
#[derive(Debug)]
pub struct LogLine {
    pub timestamp: i64,
    pub level: String,
    pub target: String,
    pub message: String,
}

impl Clone for LogLine {
    fn clone(&self) -> (r: Self)
        ensures
            r == *self,
    {
        LogLine {
            timestamp: self.timestamp,
            level: self.level.clone(),
            target: self.target.clone(),
            message: self.message.clone(),
        }
    }
}

/// The most recent lines, oldest first, never more than `capacity` of them.
#[derive(Debug)]
pub struct LogBuffer {
    lines: Vec<LogLine>,
    capacity: usize,
}

impl LogBuffer {
    /// The lines held, oldest first.
    pub closed spec fn spec_lines(&self) -> Seq<LogLine> {
        self.lines@
    }

    /// How many lines the buffer keeps.
    pub closed spec fn spec_capacity(&self) -> nat {
        self.capacity as nat
    }

    /// The buffer never holds more lines than it keeps, and keeps at least one.
    pub closed spec fn well_formed(&self) -> bool {
        self.capacity > 0 && self.lines@.len() <= self.capacity
    }

    /// An empty buffer keeping `CAPACITY` lines.
    pub fn new() -> (r: Self)
        ensures
            r.well_formed(),
            r.spec_lines() == Seq::<LogLine>::empty(),
            r.spec_capacity() == CAPACITY,
    {
        LogBuffer { lines: Vec::new(), capacity: CAPACITY }
    }

    /// Adds a line, dropping the oldest when the buffer is full.
    pub fn push(&mut self, line: LogLine)
        requires
            old(self).well_formed(),
        ensures
            final(self).well_formed(),
            final(self).spec_capacity() == old(self).spec_capacity(),
            final(self).spec_lines() == if old(self).spec_lines().len() == old(self).spec_capacity() {
                old(self).spec_lines().drop_first().push(line)
            } else {
                old(self).spec_lines().push(line)
            },
    {
        if self.lines.len() == self.capacity {
            self.lines.remove(0);
        }
        self.lines.push(line);
    }

    /// The last `limit` lines, oldest first (all of them when there are fewer).
    pub fn recent(&self, limit: usize) -> (r: Vec<LogLine>)
        ensures
            r@ == self.spec_lines().skip(
                if self.spec_lines().len() > limit {
                    self.spec_lines().len() - limit
                } else {
                    0
                },
            ),
    {
        let n = self.lines.len();
        let skip = n.saturating_sub(limit);
        let mut r: Vec<LogLine> = Vec::new();
        let mut i = skip;
        while i < n
            invariant
                skip <= i <= n,
                n == self.lines@.len(),
                r@ == self.lines@.subrange(skip as int, i as int),
            decreases n - i,
        {
            r.push(self.lines[i].clone());
            assert(self.lines@.subrange(skip as int, i + 1) =~= self.lines@.subrange(skip as int, i as int).push(
                self.lines@[i as int],
            ));
            i = i + 1;
        }
        assert(self.lines@.subrange(skip as int, n as int) =~= self.lines@.skip(skip as int));
        r
    }

    /// Forgets every line.
    pub fn clear(&mut self)
        requires
            old(self).well_formed(),
        ensures
            final(self).well_formed(),
            final(self).spec_lines() == Seq::<LogLine>::empty(),
            final(self).spec_capacity() == old(self).spec_capacity(),
    {
        self.lines.clear();
    }

    /// How many lines the buffer holds.
    pub fn len(&self) -> (n: usize)
        ensures
            n == self.spec_lines().len(),
    {
        self.lines.len()
    }
}

/// A full buffer stays full after a push: it keeps exactly its capacity of
/// lines, the newest last.
pub proof fn lemma_a_full_buffer_keeps_the_newest(lines: Seq<LogLine>, capacity: nat, line: LogLine)
    requires
        capacity > 0,
        lines.len() == capacity,
    ensures
        lines.drop_first().push(line).len() == capacity,
        lines.drop_first().push(line).last() == line,
        forall|i: int| 0 <= i < capacity - 1 ==> lines.drop_first().push(line)[i] == lines[i + 1],
{
}

/// What a log line's fields came to while it was being recorded.
#[derive(Debug)]
pub struct LineVisitor {
    pub message: String,
    pub fields: Vec<String>,
}

/// `s` without the double quotes at either end (`trim_matches('"')`).
pub open spec fn unquoted(s: Seq<char>) -> Seq<char> {
    let a = leading_quotes(s);
    let t = s.skip(a as int);
    t.take(t.len() - trailing_quotes(t))
}

/// How many double quotes `s` starts with.
pub open spec fn leading_quotes(s: Seq<char>) -> nat
    decreases s.len(),
{
    if s.len() > 0 && s[0] == '"' {
        1 + leading_quotes(s.drop_first())
    } else {
        0
    }
}

/// How many double quotes `s` ends with.
pub open spec fn trailing_quotes(s: Seq<char>) -> nat
    decreases s.len(),
{
    if s.len() > 0 && s.last() == '"' {
        1 + trailing_quotes(s.drop_last())
    } else {
        0
    }
}

/// The fields joined by ", ".
pub open spec fn joined_fields(fields: Seq<Seq<char>>) -> Seq<char>
    decreases fields.len(),
{
    if fields.len() == 0 {
        Seq::empty()
    } else if fields.len() == 1 {
        fields[0]
    } else {
        joined_fields(fields.drop_last()) + ", "@ + fields.last()
    }
}

impl LineVisitor {
    /// Nothing recorded yet.
    pub fn new() -> (r: Self)
        ensures
            r.message@ == Seq::<char>::empty(),
            r.fields@.len() == 0,
    {
        LineVisitor { message: String::new(), fields: Vec::new() }
    }

    /// Records a field given in its `Debug` form (`rendered`): the message
    /// field loses its quotes, any other is kept as `name=rendered`.
    pub fn record_debug(&mut self, name: &str, rendered: &str)
        ensures
            name@ == "message"@ ==> final(self).message@ == unquoted(rendered@) && final(self).fields
                == old(self).fields,
            name@ != "message"@ ==> final(self).message == old(self).message && strings_view(
                final(self).fields@,
            ) == strings_view(old(self).fields@).push(name@ + "="@ + rendered@),
    {
        if crate::text::eq_str(name, "message") {
            self.message = strip_quotes(rendered);
        } else {
            let mut f = String::from_str(name);
            f.append("=");
            f.append(rendered);
            let ghost before = self.fields@;
            self.fields.push(f);
            assert(strings_view(self.fields@) =~= strings_view(before).push(name@ + "="@ + rendered@));
        }
    }

    /// Records a field given as text: the message field as it is, any other
    /// as `name=value`.
    pub fn record_str(&mut self, name: &str, value: &str)
        ensures
            name@ == "message"@ ==> final(self).message@ == value@ && final(self).fields == old(self).fields,
            name@ != "message"@ ==> final(self).message == old(self).message && strings_view(
                final(self).fields@,
            ) == strings_view(old(self).fields@).push(name@ + "="@ + value@),
    {
        if crate::text::eq_str(name, "message") {
            self.message = String::from_str(value);
        } else {
            let mut f = String::from_str(name);
            f.append("=");
            f.append(value);
            let ghost before = self.fields@;
            self.fields.push(f);
            assert(strings_view(self.fields@) =~= strings_view(before).push(name@ + "="@ + value@));
        }
    }

    /// The line's message: the message alone, or followed by the other fields
    /// in parentheses, separated by commas.
    pub fn finish(self) -> (r: String)
        ensures
            r@ == if self.fields@.len() == 0 {
                self.message@
            } else {
                self.message@ + " ("@ + joined_fields(strings_view(self.fields@)) + ")"@
            },
    {
        if self.fields.len() == 0 {
            return self.message;
        }
        let mut r = self.message;
        r.append(" (");
        let mut i: usize = 0;
        while i < self.fields.len()
            invariant
                i <= self.fields@.len(),
                self.fields@.len() > 0,
                r@ == self.message@ + " ("@ + joined_fields(strings_view(self.fields@).take(i as int)),
            decreases self.fields@.len() - i,
        {
            let ghost prev = r@;
            if i > 0 {
                r.append(", ");
            }
            r.append(self.fields[i].as_str());
            assert(strings_view(self.fields@).take(i + 1).drop_last() =~= strings_view(self.fields@).take(i as int));
            if i == 0 {
                assert(joined_fields(strings_view(self.fields@).take(1)) == strings_view(self.fields@)[0]);
                assert(r@ =~= self.message@ + " ("@ + joined_fields(strings_view(self.fields@).take(i + 1)));
            } else {
                assert(r@ =~= self.message@ + " ("@ + joined_fields(strings_view(self.fields@).take(i + 1)));
            }
            i = i + 1;
        }
        assert(strings_view(self.fields@).take(i as int) =~= strings_view(self.fields@));
        r.append(")");
        r
    }
}

/// `s` without the double quotes at either end.
fn strip_quotes(s: &str) -> (r: String)
    ensures
        r@ == unquoted(s@),
{
    let v = chars_of(s);
    let n = v.len();
    let mut a: usize = 0;
    assert(v@.skip(0) =~= v@);
    while a < n && v[a] == '"'
        invariant
            a <= n == v@.len(),
            v@ == s@,
            leading_quotes(v@) == a + leading_quotes(v@.skip(a as int)),
        decreases n - a,
    {
        assert(v@.skip(a as int).drop_first() =~= v@.skip(a + 1));
        a = a + 1;
    }
    assert(leading_quotes(v@.skip(a as int)) == 0);
    let ghost t = v@.skip(a as int);
    let mut b: usize = n;
    while b > a && v[b - 1] == '"'
        invariant
            a <= b <= n == v@.len(),
            t == v@.skip(a as int),
            trailing_quotes(t) == (n - b) + trailing_quotes(v@.subrange(a as int, b as int)),
        decreases b - a,
    {
        assert(v@.subrange(a as int, b as int).drop_last() =~= v@.subrange(a as int, b - 1));
        b = b - 1;
    }
    assert(trailing_quotes(v@.subrange(a as int, b as int)) == 0);
    assert(t.take(t.len() - trailing_quotes(t)) =~= v@.subrange(a as int, b as int));
    crate::text::string_from_range(&v, a, b)
}

} // verus!
