//! The ledger at the tempstore's root: one line per completed relocation,
//! holding the time, the original path and the destination path.
//!
//! Fields are separated by a tab. Inside a field a backslash, a tab and a
//! line feed are written `\\`, `\t` and `\n`, so that any path, spaces and
//! control characters included, reads back exactly and a record never
//! spans two lines.
use vstd::prelude::*;

use crate::text::{chars_of, string_of};

verus! {

/// The name of the ledger file inside the tempstore.
pub const RECORD: &'static str = ".record";

/// One completed relocation. Entries are created once and never changed.
#[derive(Debug, PartialEq, Eq)]
pub struct Entry {
    pub timestamp: String,
    pub original: String,
    pub destination: String,
}

impl View for Entry {
    type V = (Seq<char>, Seq<char>, Seq<char>);

    open spec fn view(&self) -> (Seq<char>, Seq<char>, Seq<char>) {
        (self.timestamp@, self.original@, self.destination@)
    }
}

pub open spec fn escape_char(c: char) -> Seq<char> {
    if c == '\\' {
        seq!['\\', '\\']
    } else if c == '\t' {
        seq!['\\', 't']
    } else if c == '\n' {
        seq!['\\', 'n']
    } else {
        seq![c]
    }
}

/// A field as it is written in a ledger line.
pub open spec fn escape(s: Seq<char>) -> Seq<char>
    decreases s.len(),
{
    if s.len() == 0 {
        Seq::empty()
    } else {
        escape(s.drop_last()) + escape_char(s.last())
    }
}

/// The ledger line of an entry, without its line feed.
pub open spec fn record_line(e: (Seq<char>, Seq<char>, Seq<char>)) -> Seq<char> {
    escape(e.0) + seq!['\t'] + escape(e.1) + seq!['\t'] + escape(e.2)
}

/// Reads the fields of the rest `s` of a line, after the complete fields
/// `fields` and the start `cur` of the current one; `None` on a dangling or
/// unknown escape or a raw line feed.
pub open spec fn parse_fields(s: Seq<char>, fields: Seq<Seq<char>>, cur: Seq<char>) -> Option<Seq<Seq<char>>>
    decreases s.len(),
{
    if s.len() == 0 {
        Some(fields.push(cur))
    } else if s[0] == '\t' {
        parse_fields(s.drop_first(), fields.push(cur), Seq::empty())
    } else if s[0] == '\n' {
        None
    } else if s[0] == '\\' {
        if s.len() < 2 {
            None
        } else if s[1] == '\\' {
            parse_fields(s.skip(2), fields, cur.push('\\'))
        } else if s[1] == 't' {
            parse_fields(s.skip(2), fields, cur.push('\t'))
        } else if s[1] == 'n' {
            parse_fields(s.skip(2), fields, cur.push('\n'))
        } else {
            None
        }
    } else {
        parse_fields(s.drop_first(), fields, cur.push(s[0]))
    }
}

/// The entry that a ledger line holds, if it is well formed.
pub open spec fn parse_record(s: Seq<char>) -> Option<(Seq<char>, Seq<char>, Seq<char>)> {
    match parse_fields(s, Seq::empty(), Seq::empty()) {
        Some(f) => if f.len() == 3 {
            Some((f[0], f[1], f[2]))
        } else {
            None
        },
        None => None,
    }
}

proof fn lemma_parse_escaped(f: Seq<char>, rest: Seq<char>, fields: Seq<Seq<char>>, cur: Seq<char>)
    ensures
        parse_fields(escape(f) + rest, fields, cur) == parse_fields(rest, fields, cur + f),
    decreases f.len(),
{
    if f.len() == 0 {
        assert(escape(f) + rest =~= rest);
        assert(cur + f =~= cur);
    } else {
        let (init, c) = (f.drop_last(), f.last());
        let tail = escape_char(c) + rest;
        assert(escape(f) + rest =~= escape(init) + tail);
        lemma_parse_escaped(init, tail, fields, cur);
        assert(cur + f =~= (cur + init).push(c));
        if c == '\\' || c == '\t' || c == '\n' {
            assert(tail.skip(2) =~= rest);
        } else {
            assert(tail.drop_first() =~= rest);
        }
    }
}

/// An escaped field holds no tab and no line feed.
pub proof fn lemma_escape_plain(s: Seq<char>)
    ensures
        forall|i: int| 0 <= i < escape(s).len() ==> escape(s)[i] != '\t' && escape(s)[i] != '\n',
    decreases s.len(),
{
    if s.len() > 0 {
        let (a, b) = (escape(s.drop_last()), escape_char(s.last()));
        lemma_escape_plain(s.drop_last());
        assert(escape(s) == a + b);
        assert forall|i: int| 0 <= i < escape(s).len() implies escape(s)[i] != '\t' && escape(s)[i] != '\n' by {
            if i < a.len() {
                assert(escape(s)[i] == a[i]);
            } else {
                assert(escape(s)[i] == b[i - a.len()]);
            }
        }
    }
}

/// A ledger line reads back as exactly the entry it was written from.
pub proof fn lemma_record_round_trip(e: (Seq<char>, Seq<char>, Seq<char>))
    ensures
        parse_record(record_line(e)) == Some(e),
{
    let empty = Seq::<char>::empty();
    let nil = Seq::<Seq<char>>::empty();
    let t = seq!['\t'];
    let r2 = escape(e.2);
    let r1 = escape(e.1) + t + r2;
    assert(record_line(e) =~= escape(e.0) + (t + r1));
    lemma_parse_escaped(e.0, t + r1, nil, empty);
    assert(empty + e.0 =~= e.0);
    assert((t + r1).drop_first() =~= r1);
    assert(r1 =~= escape(e.1) + (t + r2));
    lemma_parse_escaped(e.1, t + r2, nil.push(e.0), empty);
    assert(empty + e.1 =~= e.1);
    assert((t + r2).drop_first() =~= r2);
    assert(r2 =~= escape(e.2) + empty);
    lemma_parse_escaped(e.2, empty, nil.push(e.0).push(e.1), empty);
    assert(empty + e.2 =~= e.2);
    let f = nil.push(e.0).push(e.1).push(e.2);
    assert(parse_fields(empty, nil.push(e.0).push(e.1), e.2) == Some(f));
    assert(f[0] == e.0 && f[1] == e.1 && f[2] == e.2);
}

/// Appends the escaped form of `s` to `out`.
fn push_escaped(out: &mut Vec<char>, s: &String)
    ensures
        final(out)@ == old(out)@ + escape(s@),
{
    let c = chars_of(s.as_str());
    let mut i: usize = 0;
    while i < c.len()
        invariant
            c@ == s@,
            i <= c.len(),
            out@ == old(out)@ + escape(c@.take(i as int)),
        decreases c.len() - i,
    {
        let ch = c[i];
        if ch == '\\' {
            out.push('\\');
            out.push('\\');
        } else if ch == '\t' {
            out.push('\\');
            out.push('t');
        } else if ch == '\n' {
            out.push('\\');
            out.push('n');
        } else {
            out.push(ch);
        }
        assert(c@.take(i + 1).drop_last() =~= c@.take(i as int));
        i = i + 1;
        assert(out@ =~= old(out)@ + escape(c@.take(i as int)));
    }
    assert(c@.take(c.len() as int) =~= s@);
}

pub open spec fn field_views(v: Seq<Vec<char>>) -> Seq<Seq<char>> {
    v.map_values(|f: Vec<char>| f@)
}

impl Entry {
    pub fn new(timestamp: String, original: String, destination: String) -> (r: Entry)
        ensures
            r@ == (timestamp@, original@, destination@),
    {
        Entry { timestamp, original, destination }
    }

    /// The ledger line of this entry, without its line feed.
    pub fn encode(&self) -> (r: String)
        ensures
            r@ == record_line(self@),
            forall|i: int| 0 <= i < r@.len() ==> r@[i] != '\n',
    {
        let mut out: Vec<char> = Vec::new();
        push_escaped(&mut out, &self.timestamp);
        out.push('\t');
        push_escaped(&mut out, &self.original);
        out.push('\t');
        push_escaped(&mut out, &self.destination);
        proof {
            assert(out@ =~= record_line(self@));
            lemma_escape_plain(self.timestamp@);
            lemma_escape_plain(self.original@);
            lemma_escape_plain(self.destination@);
            assert forall|i: int| 0 <= i < out@.len() implies out@[i] != '\n' by {
                let (a, b) = (escape(self.timestamp@).len() as int, escape(self.original@).len() as int);
                if i < a {
                    assert(out@[i] == escape(self.timestamp@)[i]);
                } else if i == a || i == a + 1 + b {
                } else if i < a + 1 + b {
                    assert(out@[i] == escape(self.original@)[i - a - 1]);
                } else {
                    assert(out@[i] == escape(self.destination@)[i - a - b - 2]);
                }
            }
        }
        string_of(&out)
    }

    /// The entry that a ledger line holds; `None` where the line is not
    /// three fields with well-formed escapes.
    pub fn decode(line: &str) -> (r: Option<Entry>)
        ensures
            match parse_record(line@) {
                Some(e) => r.is_some() && r.unwrap()@ == e,
                None => r.is_none(),
            },
    {
        let s = chars_of(line);
        let mut fields: Vec<Vec<char>> = Vec::new();
        let mut cur: Vec<char> = Vec::new();
        let mut i: usize = 0;
        assert(s@.skip(0) =~= s@);
        assert(field_views(fields@) =~= Seq::<Seq<char>>::empty());
        while i < s.len()
            invariant
                s@ == line@,
                i <= s.len(),
                parse_fields(s@, Seq::empty(), Seq::empty()) == parse_fields(s@.skip(i as int), field_views(fields@), cur@),
            decreases s.len() - i,
        {
            let rest = Ghost(s@.skip(i as int));
            let c = s[i];
            if c == '\t' {
                let done = cur;
                cur = Vec::new();
                proof {
                    assert(field_views(fields@.push(done)) =~= field_views(fields@).push(done@));
                    assert(rest@.drop_first() =~= s@.skip(i + 1));
                    assert(cur@ =~= Seq::<char>::empty());
                }
                fields.push(done);
                i = i + 1;
            } else if c == '\n' {
                return None;
            } else if c == '\\' {
                if i + 1 >= s.len() {
                    return None;
                }
                let e = s[i + 1];
                proof {
                    assert(rest@.skip(2) =~= s@.skip(i + 2));
                }
                if e == '\\' {
                    cur.push('\\');
                } else if e == 't' {
                    cur.push('\t');
                } else if e == 'n' {
                    cur.push('\n');
                } else {
                    return None;
                }
                i = i + 2;
            } else {
                proof {
                    assert(rest@.drop_first() =~= s@.skip(i + 1));
                }
                cur.push(c);
                i = i + 1;
            }
        }
        let ghost views = field_views(fields@).push(cur@);
        assert(s@.skip(i as int) =~= Seq::<char>::empty());
        fields.push(cur);
        assert(field_views(fields@) =~= views);
        if fields.len() != 3 {
            return None;
        }
        let timestamp = string_of(&fields[0]);
        let original = string_of(&fields[1]);
        let destination = string_of(&fields[2]);
        Some(Entry { timestamp, original, destination })
    }
}

} // verus!
