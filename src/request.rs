use vstd::prelude::*;
use crate::text::{chars_of, split_on, split_text, string_from, strings_model};

verus! {

/// The parts of a raw HTTP request: the three words of its start line, its
/// header fields in order, and its body.
#[derive(Debug)]
pub struct RequestHead {
    pub method: String,
    pub path: String,
    pub http_version: String,
    pub headers: Vec<(String, String)>,
    pub body: String,
}

/// The mathematical value of a [`RequestHead`].
pub struct HeadModel {
    pub method: Seq<char>,
    pub path: Seq<char>,
    pub http_version: Seq<char>,
    pub headers: Seq<(Seq<char>, Seq<char>)>,
    pub body: Seq<char>,
}

impl RequestHead {
    pub open spec fn model(&self) -> HeadModel {
        HeadModel {
            method: self.method@,
            path: self.path@,
            http_version: self.http_version@,
            headers: pairs_model(self.headers@),
            body: self.body@,
        }
    }
}

pub open spec fn pairs_model(v: Seq<(String, String)>) -> Seq<(Seq<char>, Seq<char>)> {
    v.map_values(|p: (String, String)| (p.0@, p.1@))
}

pub open spec fn is_blank(c: char) -> bool {
    c == ' ' || c == '\t' || c == '\r' || c == '\n'
}

pub open spec fn trim_start(s: Seq<char>) -> Seq<char>
    decreases s.len(),
{
    if s.len() > 0 && is_blank(s[0]) {
        trim_start(s.drop_first())
    } else {
        s
    }
}

pub open spec fn trim_end(s: Seq<char>) -> Seq<char>
    decreases s.len(),
{
    if s.len() > 0 && is_blank(s.last()) {
        trim_end(s.drop_last())
    } else {
        s
    }
}

/// `s` without leading and trailing spaces, tabs and line breaks.
pub open spec fn trimmed(s: Seq<char>) -> Seq<char> {
    trim_end(trim_start(s))
}

/// A line without the carriage return that ends it, if any.
pub open spec fn strip_cr(l: Seq<char>) -> Seq<char> {
    if l.len() > 0 && l.last() == '\r' {
        l.drop_last()
    } else {
        l
    }
}

/// The lines of a request, with `\n` or `\r\n` endings.
pub open spec fn lines_of(text: Seq<char>) -> Seq<Seq<char>> {
    split_on(text, '\n').map_values(|l: Seq<char>| strip_cr(l))
}

/// The position of the first `c` in `s` from `from` on.
pub open spec fn index_of(s: Seq<char>, c: char, from: int) -> Option<int>
    decreases s.len() - from,
{
    if from < 0 || from >= s.len() {
        None
    } else if s[from] == c {
        Some(from)
    } else {
        index_of(s, c, from + 1)
    }
}

/// A header line as (name, value), split at its first `:`; a line without
/// one is no header.
pub open spec fn header_entry(l: Seq<char>) -> Option<(Seq<char>, Seq<char>)> {
    match index_of(l, ':', 0) {
        Some(i) => Some((trimmed(l.subrange(0, i)), trimmed(l.subrange(i + 1, l.len() as int)))),
        None => None,
    }
}

pub open spec fn headers_of(lines: Seq<Seq<char>>) -> Seq<(Seq<char>, Seq<char>)>
    decreases lines.len(),
{
    if lines.len() == 0 {
        Seq::empty()
    } else {
        match header_entry(lines.last()) {
            Some(e) => headers_of(lines.drop_last()).push(e),
            None => headers_of(lines.drop_last()),
        }
    }
}

/// The position of the first empty line from `from` on, or the number of
/// lines when there is none.
pub open spec fn blank_from(lines: Seq<Seq<char>>, from: int) -> int
    decreases lines.len() - from,
{
    if from < 0 || from >= lines.len() {
        lines.len() as int
    } else if lines[from].len() == 0 {
        from
    } else {
        blank_from(lines, from + 1)
    }
}

/// Lines joined with `\n`.
pub open spec fn joined(lines: Seq<Seq<char>>) -> Seq<char>
    decreases lines.len(),
{
    if lines.len() == 0 {
        Seq::empty()
    } else if lines.len() == 1 {
        lines[0]
    } else {
        joined(lines.drop_last()) + seq!['\n'] + lines.last()
    }
}

/// A raw request read as its parts: the first line holds at least three
/// space-separated words (method, path, version); the header lines run to
/// the first empty line; what follows it, trimmed, is the body.
pub open spec fn parsed_request(text: Seq<char>) -> Option<HeadModel> {
    let lines = lines_of(text);
    let start = split_on(lines[0], ' ');
    if lines[0].len() == 0 || start.len() < 3 {
        None
    } else {
        let k = blank_from(lines, 1);
        let rest = if k < lines.len() {
            k + 1
        } else {
            k
        };
        Some(
            HeadModel {
                method: start[0],
                path: start[1],
                http_version: start[2],
                headers: headers_of(lines.subrange(1, k)),
                body: trimmed(joined(lines.subrange(rest, lines.len() as int))),
            },
        )
    }
}

pub proof fn lemma_split_on_nonempty(s: Seq<char>, sep: char)
    ensures
        split_on(s, sep).len() >= 1,
    decreases s.len(),
{
    if s.len() > 0 {
        lemma_split_on_nonempty(s.drop_last(), sep);
    }
}

fn blank(c: char) -> (r: bool)
    ensures
        r == is_blank(c),
{
    c == ' ' || c == '\t' || c == '\r' || c == '\n'
}

/// The characters `cs[lo..hi]` without leading and trailing blanks.
fn trim_range(cs: &Vec<char>, lo: usize, hi: usize) -> (r: String)
    requires
        lo <= hi <= cs@.len(),
    ensures
        r@ == trimmed(cs@.subrange(lo as int, hi as int)),
{
    let mut a = lo;
    while a < hi && blank(cs[a])
        invariant
            lo <= a <= hi <= cs@.len(),
            trim_start(cs@.subrange(lo as int, hi as int)) == trim_start(cs@.subrange(a as int, hi as int)),
        decreases hi - a,
    {
        assert(cs@.subrange(a as int, hi as int).drop_first() =~= cs@.subrange(a + 1, hi as int));
        a += 1;
    }
    let ghost front = cs@.subrange(a as int, hi as int);
    assert(trim_start(front) == front);
    let mut b = hi;
    while b > a && blank(cs[b - 1])
        invariant
            a <= b <= hi <= cs@.len(),
            trim_end(front) == trim_end(cs@.subrange(a as int, b as int)),
            front == cs@.subrange(a as int, hi as int),
        decreases b - a,
    {
        assert(cs@.subrange(a as int, b as int).drop_last() =~= cs@.subrange(a as int, b - 1));
        b -= 1;
    }
    assert(trim_end(cs@.subrange(a as int, b as int)) == cs@.subrange(a as int, b as int));
    string_from(cs, a, b)
}

fn strip_line(l: &String) -> (r: String)
    ensures
        r@ == strip_cr(l@),
{
    let cs = chars_of(l.as_str());
    let n = cs.len();
    if n > 0 && cs[n - 1] == '\r' {
        let r = string_from(&cs, 0, n - 1);
        assert(r@ =~= strip_cr(l@));
        r
    } else {
        let r = string_from(&cs, 0, n);
        assert(r@ =~= l@);
        r
    }
}

fn header_of(l: &String) -> (r: Option<(String, String)>)
    ensures
        match header_entry(l@) {
            Some(e) => r matches Some(p) && (p.0@, p.1@) == e,
            None => r is None,
        },
{
    let cs = chars_of(l.as_str());
    let mut i: usize = 0;
    while i < cs.len()
        invariant
            cs@ == l@,
            i <= cs@.len(),
            index_of(l@, ':', 0) == index_of(l@, ':', i as int),
        decreases cs@.len() - i,
    {
        if cs[i] == ':' {
            let name = trim_range(&cs, 0, i);
            let value = trim_range(&cs, i + 1, cs.len());
            return Some((name, value));
        }
        i += 1;
    }
    None
}

/// Splits a raw request into its parts; `None` when the first line does not
/// hold a method, a path and a version.
pub fn parse_request(text: &str) -> (r: Option<RequestHead>)
    ensures
        match parsed_request(text@) {
            Some(m) => r matches Some(h) && h.model() == m,
            None => r is None,
        },
{
    let ghost all = lines_of(text@);
    let raw = split_text(text, '\n');
    proof {
        lemma_split_on_nonempty(text@, '\n');
    }
    let mut lines: Vec<String> = Vec::new();
    let mut i: usize = 0;
    while i < raw.len()
        invariant
            strings_model(raw@) == split_on(text@, '\n'),
            all == lines_of(text@),
            all.len() == raw@.len(),
            i <= raw@.len(),
            lines@.len() == i,
            forall|j: int| 0 <= j < i ==> #[trigger] lines@[j]@ == all[j],
        decreases raw@.len() - i,
    {
        assert(split_on(text@, '\n')[i as int] == raw@[i as int]@);
        lines.push(strip_line(&raw[i]));
        i += 1;
    }
    assert(strings_model(lines@) =~= all);
    let start = split_text(lines[0].as_str(), ' ');
    assert(all[0] == lines@[0]@);
    if lines[0].as_str().is_empty() || start.len() < 3 {
        return None;
    }
    let ghost sm = split_on(all[0], ' ');
    assert(sm[0] == start@[0]@ && sm[1] == start@[1]@ && sm[2] == start@[2]@);
    let mut k: usize = 1;
    while k < lines.len() && !lines[k].as_str().is_empty()
        invariant
            1 <= k <= lines@.len(),
            strings_model(lines@) == all,
            blank_from(all, 1) == blank_from(all, k as int),
        decreases lines@.len() - k,
    {
        assert(all[k as int] == lines@[k as int]@);
        k += 1;
    }
    proof {
        if k < lines@.len() {
            assert(all[k as int] == lines@[k as int]@);
        }
    }
    let mut headers: Vec<(String, String)> = Vec::new();
    let mut h: usize = 1;
    assert(all.subrange(1, 1) =~= Seq::<Seq<char>>::empty());
    assert(pairs_model(headers@) =~= Seq::<(Seq<char>, Seq<char>)>::empty());
    while h < k
        invariant
            1 <= h <= k <= lines@.len(),
            strings_model(lines@) == all,
            pairs_model(headers@) == headers_of(all.subrange(1, h as int)),
        decreases k - h,
    {
        let ghost sub = all.subrange(1, h + 1);
        assert(sub.drop_last() =~= all.subrange(1, h as int));
        assert(sub.last() == lines@[h as int]@);
        let ghost before = pairs_model(headers@);
        match header_of(&lines[h]) {
            Some(p) => {
                let ghost pm = (p.0@, p.1@);
                headers.push(p);
                assert(pairs_model(headers@) =~= before.push(pm));
            },
            None => {},
        }
        h += 1;
    }
    let rest = if k < lines.len() {
        k + 1
    } else {
        k
    };
    let mut body = String::new();
    let mut b: usize = rest;
    assert(all.subrange(rest as int, rest as int) =~= Seq::<Seq<char>>::empty());
    while b < lines.len()
        invariant
            rest <= b <= lines@.len(),
            strings_model(lines@) == all,
            body@ == joined(all.subrange(rest as int, b as int)),
        decreases lines@.len() - b,
    {
        let ghost sub = all.subrange(rest as int, b + 1);
        assert(sub.drop_last() =~= all.subrange(rest as int, b as int));
        assert(sub.last() == lines@[b as int]@);
        if b > rest {
            body.push('\n');
        }
        body.append(lines[b].as_str());
        proof {
            if b == rest {
                assert(body@ =~= joined(sub));
            } else {
                assert(body@ =~= joined(sub));
            }
        }
        b += 1;
    }
    let body_chars = chars_of(body.as_str());
    let trimmed_body = trim_range(&body_chars, 0, body_chars.len());
    assert(body_chars@.subrange(0, body_chars@.len() as int) =~= body@);
    let r = RequestHead {
        method: crate::text::string_of(start[0].as_str()),
        path: crate::text::string_of(start[1].as_str()),
        http_version: crate::text::string_of(start[2].as_str()),
        headers,
        body: trimmed_body,
    };
    Some(r)
}

} // verus!
