//! Server-sent-events framing: which data each event of a stream carries.
use vstd::prelude::*;
use crate::text::{copy_range, is_whitespace, leading_whitespace_len, line_views, trim_start};

verus! {

/// The characters `data:`, which open a data line.
pub open spec fn data_field() -> Seq<char> {
    seq!['d', 'a', 't', 'a', ':']
}

/// The data a line carries: after leading whitespace, the line must start
/// with `data:`; one space after the colon is not part of the data.
pub open spec fn data_payload(line: Seq<char>) -> Option<Seq<char>> {
    let t = trim_start(line);
    if t.len() >= 5 && t.take(5) == data_field() {
        let p = t.skip(5);
        Some(
            if p.len() > 0 && p[0] == ' ' {
                p.drop_first()
            } else {
                p
            },
        )
    } else {
        None
    }
}

/// The data of an event after one more data line: lines are joined by
/// `'\n'`, and nothing is put before the first non-empty data.
pub open spec fn append_data(current: Seq<char>, payload: Seq<char>) -> Seq<char> {
    if current.len() == 0 {
        payload
    } else {
        current + seq!['\n'] + payload
    }
}

/// The data of each event of a stream given by its lines, in order. Events
/// end at empty lines; the last element is the event still open at the end
/// of the stream. Lines that are neither empty nor data lines are ignored.
pub open spec fn sse_events(lines: Seq<Seq<char>>) -> Seq<Seq<char>>
    decreases lines.len(),
{
    if lines.len() == 0 {
        seq![Seq::empty()]
    } else {
        let events = sse_events(lines.drop_last());
        let line = lines.last();
        if line.len() == 0 {
            events.push(Seq::empty())
        } else {
            match data_payload(line) {
                Some(p) => events.update(events.len() - 1, append_data(events.last(), p)),
                None => events,
            }
        }
    }
}

/// A data line carries what follows `data:` and one optional space: `data: x`
/// and `data:x` (for `x` not starting with a space) both carry `x`, and
/// leading spaces before `data:` change nothing.
pub proof fn law_data_line_payload(x: Seq<char>)
    ensures
        data_payload(seq!['d', 'a', 't', 'a', ':', ' '] + x) == Some(x),
        (x.len() == 0 || x[0] != ' ') ==> data_payload(seq!['d', 'a', 't', 'a', ':'] + x) == Some(
            x,
        ),
        data_payload(seq![' '] + seq!['d', 'a', 't', 'a', ':'] + x) == data_payload(
            seq!['d', 'a', 't', 'a', ':'] + x,
        ),
{
    let d = seq!['d', 'a', 't', 'a', ':'];
    let l1 = seq!['d', 'a', 't', 'a', ':', ' '] + x;
    let l2 = d + x;
    let l3 = seq![' '] + d + x;
    assert(!is_whitespace('d'));
    assert(l1[0] == 'd');
    assert(l2[0] == 'd');
    assert(trim_start(l1) == l1);
    assert(trim_start(l2) == l2);
    assert(l1.take(5) =~= d);
    assert(l1.skip(5) =~= seq![' '] + x);
    assert((seq![' '] + x).drop_first() =~= x);
    assert(l2.take(5) =~= d);
    assert(l2.skip(5) =~= x);
    assert(is_whitespace(' '));
    assert(l3.drop_first() =~= l2);
    assert(trim_start(l3) == trim_start(l2));
}

/// Data lines of one event are joined with a newline, and an empty line
/// closes the event: the lines `data: a`, `data: b` make one event `a`,
/// newline, `b` (for non-empty `a`); `data: a` and an empty line make the
/// event `a` followed by a new, empty one.
pub proof fn law_data_lines_make_events(a: Seq<char>, b: Seq<char>)
    ensures
        a.len() > 0 ==> sse_events(
            seq![seq!['d', 'a', 't', 'a', ':', ' '] + a, seq!['d', 'a', 't', 'a', ':', ' '] + b],
        ) == seq![a + seq!['\n'] + b],
        sse_events(seq![seq!['d', 'a', 't', 'a', ':', ' '] + a, Seq::<char>::empty()]) == seq![
            a,
            Seq::<char>::empty(),
        ],
{
    let la = seq!['d', 'a', 't', 'a', ':', ' '] + a;
    let lb = seq!['d', 'a', 't', 'a', ':', ' '] + b;
    law_data_line_payload(a);
    law_data_line_payload(b);
    let one = seq![la];
    assert(one.drop_last() =~= Seq::<Seq<char>>::empty());
    assert(sse_events(Seq::<Seq<char>>::empty()) == seq![Seq::<char>::empty()]);
    assert(sse_events(one) =~= seq![a]);
    let two = seq![la, lb];
    assert(two.drop_last() =~= one);
    if a.len() > 0 {
        assert(append_data(a, b) == a + seq!['\n'] + b);
        assert(sse_events(two) =~= seq![a + seq!['\n'] + b]);
    }
    let closed = seq![la, Seq::<char>::empty()];
    assert(closed.drop_last() =~= one);
    assert(sse_events(closed) =~= seq![a, Seq::<char>::empty()]);
}

/// A non-empty line that is not a data line changes no event.
pub proof fn law_other_lines_ignored(lines: Seq<Seq<char>>, line: Seq<char>)
    requires
        line.len() > 0,
        data_payload(line) is None,
    ensures
        sse_events(lines.push(line)) == sse_events(lines),
{
    assert(lines.push(line).drop_last() =~= lines);
}

/// The data a line carries, if it is a data line.
pub fn line_data(line: &[char]) -> (r: Option<Vec<char>>)
    ensures
        match r {
            Some(p) => data_payload(line@) == Some(p@),
            None => data_payload(line@) is None,
        },
{
    let start = leading_whitespace_len(line);
    let n = line.len();
    if n - start >= 5 && line[start] == 'd' && line[start + 1] == 'a' && line[start + 2] == 't'
        && line[start + 3] == 'a' && line[start + 4] == ':' {
        let ghost t = line@.skip(start as int);
        assert(t.take(5) =~= data_field());
        let mut from = start + 5;
        if from < n && line[from] == ' ' {
            from = from + 1;
        }
        let p = copy_range(line, from, n);
        assert(p@ =~= data_payload(line@)->0);
        Some(p)
    } else {
        proof {
            let t = line@.skip(start as int);
            if t.len() >= 5 && t.take(5) == data_field() {
                assert(t.take(5)[0] == 'd');
                assert(t.take(5)[1] == 'a');
                assert(t.take(5)[2] == 't');
                assert(t.take(5)[3] == 'a');
                assert(t.take(5)[4] == ':');
            }
        }
        None
    }
}

/// Appends one data line's payload to the data of the open event.
pub fn push_data(current: &mut Vec<char>, payload: &[char])
    ensures
        final(current)@ == append_data(old(current)@, payload@),
{
    if current.len() > 0 {
        current.push('\n');
    }
    let mut i: usize = 0;
    let ghost base = current@;
    while i < payload.len()
        invariant
            i <= payload@.len(),
            current@ == base + payload@.take(i as int),
        decreases payload@.len() - i,
    {
        current.push(payload[i]);
        assert(payload@.take(i + 1) =~= payload@.take(i as int).push(payload@[i as int]));
        i = i + 1;
    }
    assert(payload@.take(payload@.len() as int) =~= payload@);
    assert(current@ =~= append_data(old(current)@, payload@));
}

/// The data of each event of a stream given by its lines.
pub fn event_data(lines: &Vec<Vec<char>>) -> (r: Vec<Vec<char>>)
    ensures
        line_views(r@) == sse_events(line_views(lines@)),
{
    let ghost lv = line_views(lines@);
    let mut closed: Vec<Vec<char>> = Vec::new();
    let mut current: Vec<char> = Vec::new();
    let mut k: usize = 0;
    assert(lv.take(0) =~= Seq::<Seq<char>>::empty());
    while k < lines.len()
        invariant
            k <= lines@.len(),
            lv == line_views(lines@),
            line_views(closed@).push(current@) == sse_events(lv.take(k as int)),
        decreases lines@.len() - k,
    {
        let ghost before = sse_events(lv.take(k as int));
        assert(lv.take(k + 1).drop_last() =~= lv.take(k as int));
        assert(lv.take(k + 1).last() == lines@[k as int]@);
        let line = &lines[k];
        if line.len() == 0 {
            let done = current;
            closed.push(done);
            current = Vec::new();
            assert(line_views(closed@).push(current@) =~= before.push(Seq::empty()));
        } else {
            match line_data(line.as_slice()) {
                Some(p) => {
                    push_data(&mut current, p.as_slice());
                    assert(line_views(closed@).push(current@) =~= before.update(
                        before.len() - 1,
                        append_data(before.last(), p@),
                    ));
                },
                None => {},
            }
        }
        k = k + 1;
    }
    assert(lv.take(lines@.len() as int) =~= lv);
    closed.push(current);
    assert(line_views(closed@) =~= sse_events(lv));
    closed
}

} // verus!
