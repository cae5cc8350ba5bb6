//! The layout of the durable ingest queue file: one JSON record per line,
//! or (as older files were written) a single JSON array.

use vstd::prelude::*;
use crate::text::{chars_of, is_ws, push_str, string_of, trim, trim_chars, trim_end, trim_start};

verus! {

/// How the records of a queue file are laid out.
#[derive(Debug)]
pub enum QueueFileRecords {
    /// Nothing but white space.
    Empty,
    /// One JSON array holding every record (the trimmed text).
    Array(String),
    /// One JSON record per non-blank line.
    Lines(Vec<String>),
}

/// A line without the `'\r'` of a `"\r\n"` ending.
pub open spec fn strip_cr(line: Seq<char>) -> Seq<char> {
    if line.len() > 0 && line.last() == '\r' { line.drop_last() } else { line }
}

/// Whether a line holds a record (is not blank).
pub open spec fn holds_record(line: Seq<char>) -> bool {
    trim(strip_cr(line)).len() > 0
}

/// Reading `s` line by line: the records of the lines that ended, and the
/// line still open.
pub open spec fn lines_so_far(s: Seq<char>) -> (Seq<Seq<char>>, Seq<char>)
    decreases s.len(),
{
    if s.len() == 0 {
        (Seq::empty(), Seq::empty())
    } else {
        let (done, cur) = lines_so_far(s.drop_last());
        if s.last() == '\n' {
            (if holds_record(cur) { done.push(strip_cr(cur)) } else { done }, Seq::empty())
        } else {
            (done, cur.push(s.last()))
        }
    }
}

/// The non-blank lines of `s` (split at `'\n'`, a `"\r\n"` ending removed).
pub open spec fn record_lines(s: Seq<char>) -> Seq<Seq<char>> {
    let (done, cur) = lines_so_far(s);
    if holds_record(cur) { done.push(strip_cr(cur)) } else { done }
}

/// The layout of a queue file with text `text`: empty when blank; an array
/// when the trimmed text starts with `[`; else its non-blank lines.
pub open spec fn queue_layout(text: Seq<char>) -> (int, Seq<Seq<char>>) {
    let t = trim(text);
    if t.len() == 0 {
        (0, Seq::empty())
    } else if t[0] == '[' {
        (1, seq![t])
    } else {
        (2, record_lines(t))
    }
}

pub open spec fn records_view(r: QueueFileRecords) -> (int, Seq<Seq<char>>) {
    match r {
        QueueFileRecords::Empty => (0, Seq::empty()),
        QueueFileRecords::Array(s) => (1, seq![s@]),
        QueueFileRecords::Lines(v) => (2, v@.map_values(|l: String| l@)),
    }
}

fn strip_cr_exec(line: &Vec<char>) -> (r: Vec<char>)
    ensures
        r@ == strip_cr(line@),
{
    let mut r = line.clone();
    if r.len() > 0 && r[r.len() - 1] == '\r' {
        r.pop();
        assert(r@ =~= line@.drop_last());
    }
    r
}

fn holds_record_exec(line: &Vec<char>) -> (r: bool)
    ensures
        r == holds_record(line@),
{
    let stripped = strip_cr_exec(line);
    trim_chars(&stripped).len() > 0
}

/// Splits the text of a queue file into its records.
pub fn queue_file_records(text: &str) -> (r: QueueFileRecords)
    ensures
        records_view(r) == queue_layout(text@),
{
    let all = chars_of(text);
    let t = trim_chars(&all);
    if t.len() == 0 {
        return QueueFileRecords::Empty;
    }
    if t[0] == '[' {
        let s = string_of(t.as_slice());
        assert(seq![s@] =~= seq![trim(text@)]);
        return QueueFileRecords::Array(s);
    }
    let ghost tv = t@;
    let mut done: Vec<String> = Vec::new();
    let mut cur: Vec<char> = Vec::new();
    let n = t.len();
    let mut i: usize = 0;
    while i < n
        invariant
            n == t@.len(),
            tv == t@,
            i <= n,
            ({
                let (d, c) = lines_so_far(tv.take(i as int));
                done@.map_values(|l: String| l@) == d && cur@ == c
            }),
        decreases n - i,
    {
        let c = t[i];
        let ghost prev = lines_so_far(tv.take(i as int));
        assert(tv.take(i + 1).drop_last() =~= tv.take(i as int));
        assert(tv.take(i + 1).last() == c);
        if c == '\n' {
            if holds_record_exec(&cur) {
                let stripped = strip_cr_exec(&cur);
                let line = string_of(stripped.as_slice());
                let ghost before = done@;
                done.push(line);
                assert(done@.map_values(|l: String| l@) =~= before.map_values(|l: String| l@).push(strip_cr(prev.1)));
            }
            cur = Vec::new();
            assert(cur@ =~= Seq::<char>::empty());
        } else {
            cur.push(c);
        }
        i = i + 1;
    }
    assert(tv.take(n as int) =~= tv);
    if holds_record_exec(&cur) {
        let stripped = strip_cr_exec(&cur);
        let line = string_of(stripped.as_slice());
        let ghost before = done@;
        done.push(line);
        assert(done@.map_values(|l: String| l@) =~= before.map_values(|l: String| l@).push(strip_cr(cur@)));
    }
    QueueFileRecords::Lines(done)
}

/// The records, each followed by a line break.
pub open spec fn queue_text(records: Seq<Seq<char>>) -> Seq<char>
    decreases records.len(),
{
    if records.len() == 0 {
        Seq::empty()
    } else {
        queue_text(records.drop_last()) + records.last() + seq!['\n']
    }
}

/// The text of a queue file holding `records` (each one line of JSON).
pub fn queue_file_text(records: &Vec<String>) -> (s: String)
    ensures
        s@ == queue_text(records@.map_values(|l: String| l@)),
{
    let mut s = String::new();
    let n = records.len();
    let mut i: usize = 0;
    while i < n
        invariant
            n == records@.len(),
            i <= n,
            s@ == queue_text(records@.map_values(|l: String| l@).take(i as int)),
        decreases n - i,
    {
        let ghost rs = records@.map_values(|l: String| l@);
        assert(rs.take(i + 1).drop_last() =~= rs.take(i as int));
        assert(rs.take(i + 1).last() == records@[i as int]@);
        push_str(&mut s, records[i].as_str());
        push_str(&mut s, "\n");
        proof {
            reveal_strlit("\n");
            assert(s@ =~= queue_text(rs.take(i + 1)));
        }
        i = i + 1;
    }
    assert(records@.map_values(|l: String| l@).take(n as int) =~= records@.map_values(|l: String| l@));
    s
}

proof fn lemma_trim_start_shape(s: Seq<char>)
    ensures
        trim_start(s).len() <= s.len(),
        trim_start(s) == s.skip(s.len() - trim_start(s).len()),
        trim_start(s).len() > 0 ==> !is_ws(trim_start(s)[0]),
    decreases s.len(),
{
    if s.len() > 0 && is_ws(s[0]) {
        lemma_trim_start_shape(s.drop_first());
        assert(s.drop_first().skip(s.drop_first().len() - trim_start(s).len()) =~= s.skip(s.len() - trim_start(s).len()));
    } else {
        assert(s.skip(0) =~= s);
    }
}

proof fn lemma_trim_end_shape(s: Seq<char>)
    ensures
        trim_end(s).len() <= s.len(),
        trim_end(s) == s.take(trim_end(s).len() as int),
        trim_end(s).len() > 0 ==> !is_ws(trim_end(s).last()),
    decreases s.len(),
{
    if s.len() > 0 && is_ws(s.last()) {
        lemma_trim_end_shape(s.drop_last());
        assert(s.drop_last().take(trim_end(s).len() as int) =~= s.take(trim_end(s).len() as int));
    } else {
        assert(s.take(s.len() as int) =~= s);
    }
}

/// A trimmed non-empty line begins and ends with a non-white-space character.
proof fn lemma_trimmed_ends(r: Seq<char>)
    requires
        trim(r) == r,
        r.len() > 0,
    ensures
        !is_ws(r[0]),
        !is_ws(r.last()),
{
    lemma_trim_start_shape(r);
    lemma_trim_end_shape(trim_start(r));
    let x = trim_start(r);
    assert(r[0] == x.take(r.len() as int)[0]);
}

/// A line without line breaks read after complete lines stays open.
proof fn lemma_open_line(q: Seq<char>, done: Seq<Seq<char>>, r: Seq<char>)
    requires
        lines_so_far(q) == (done, Seq::<char>::empty()),
        forall|j: int| 0 <= j < r.len() ==> #[trigger] r[j] != '\n',
    ensures
        lines_so_far(q + r) == (done, r),
    decreases r.len(),
{
    if r.len() == 0 {
        assert(q + r =~= q);
    } else {
        lemma_open_line(q, done, r.drop_last());
        assert((q + r).drop_last() =~= q + r.drop_last());
        assert((q + r).last() == r.last());
        assert(r.drop_last().push(r.last()) =~= r);
    }
}

pub open spec fn is_record_line(r: Seq<char>) -> bool {
    &&& r.len() > 0
    &&& trim(r) == r
    &&& forall|j: int| 0 <= j < r.len() ==> #[trigger] r[j] != '\n'
}

proof fn lemma_queue_text_lines(records: Seq<Seq<char>>)
    requires
        forall|i: int| 0 <= i < records.len() ==> #[trigger] is_record_line(records[i]),
    ensures
        lines_so_far(queue_text(records)) == (records, Seq::<char>::empty()),
    decreases records.len(),
{
    if records.len() > 0 {
        let rest = records.drop_last();
        let last = records.last();
        assert forall|i: int| 0 <= i < rest.len() implies #[trigger] is_record_line(rest[i]) by {
            assert(rest[i] == records[i]);
        }
        lemma_queue_text_lines(rest);
        assert(is_record_line(records[records.len() - 1]));
        lemma_open_line(queue_text(rest), rest, last);
        let x = queue_text(rest) + last;
        assert((x + seq!['\n']).drop_last() =~= x);
        assert((x + seq!['\n']).last() == '\n');
        lemma_trimmed_ends(last);
        assert(strip_cr(last) == last);
        assert(rest.push(last) =~= records);
    }
}

/// Reading a queue file back gives what was written: the text of records
/// that are each one trimmed, non-empty line, the first not starting with
/// `[`, is laid out as those records, one per line (none, when empty).
pub proof fn law_queue_text_reads_back(records: Seq<Seq<char>>)
    requires
        forall|i: int| 0 <= i < records.len() ==> #[trigger] is_record_line(records[i]),
        records.len() > 0 ==> records[0][0] != '[',
    ensures
        queue_layout(queue_text(records)) == (if records.len() == 0 { (0int, Seq::<Seq<char>>::empty()) } else {
            (2int, records) }),
{
    if records.len() == 0 {
        assert(trim(queue_text(records)) =~= Seq::<char>::empty());
    } else {
        let rest = records.drop_last();
        let last = records.last();
        assert forall|i: int| 0 <= i < rest.len() implies #[trigger] is_record_line(rest[i]) by {
            assert(rest[i] == records[i]);
        }
        assert(is_record_line(records[records.len() - 1]));
        assert(is_record_line(records[0]));
        lemma_trimmed_ends(last);
        lemma_trimmed_ends(records[0]);
        let p = queue_text(rest) + last;
        let t = queue_text(records);
        assert(t =~= p + seq!['\n']);
        lemma_queue_text_first(records);
        assert(trim_start(t) == t);
        assert(t.drop_last() =~= p);
        assert(trim_end(t) == trim_end(p));
        assert(p.last() == last.last());
        assert(trim_end(p) == p);
        assert(trim(t) == p);
        assert(p[0] == records[0][0]);
        lemma_queue_text_lines(rest);
        lemma_open_line(queue_text(rest), rest, last);
        assert(strip_cr(last) == last);
        assert(rest.push(last) =~= records);
    }
}

/// The text of non-empty records begins with the first record.
proof fn lemma_queue_text_first(records: Seq<Seq<char>>)
    requires
        records.len() > 0,
        records[0].len() > 0,
    ensures
        queue_text(records).len() > 0,
        queue_text(records)[0] == records[0][0],
    decreases records.len(),
{
    let rest = records.drop_last();
    let head = queue_text(rest) + records.last();
    assert(queue_text(records) == head + seq!['\n']);
    if records.len() > 1 {
        assert(rest[0] == records[0]);
        lemma_queue_text_first(rest);
        assert(head[0] == queue_text(rest)[0]);
    } else {
        assert(queue_text(rest) =~= Seq::<char>::empty());
        assert(head =~= records[0]);
    }
    assert((head + seq!['\n'])[0] == head[0]);
}

} // verus!
