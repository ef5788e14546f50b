//! The request decoder: a raw buffer becomes a method, a path, a list of
//! header pairs and a body.

use vstd::prelude::*;
use crate::bytes::{bytes_eq, copy_range, push_all};

verus! {

/// A decoded request. Header pairs are kept in wire order; a lookup takes
/// the last pair with the requested name, so a later value wins.
pub struct Request {
    pub method: Vec<u8>,
    pub path: Vec<u8>,
    pub headers: Vec<(Vec<u8>, Vec<u8>)>,
    pub body: Vec<u8>,
}

/// The mathematical value of a [`Request`].
pub struct RequestView {
    pub method: Seq<u8>,
    pub path: Seq<u8>,
    pub headers: Seq<(Seq<u8>, Seq<u8>)>,
    pub body: Seq<u8>,
}

/// Header pairs as pairs of byte sequences.
pub open spec fn pair_views(hs: Seq<(Vec<u8>, Vec<u8>)>) -> Seq<(Seq<u8>, Seq<u8>)> {
    hs.map_values(|h: (Vec<u8>, Vec<u8>)| (h.0@, h.1@))
}

/// Lines as byte sequences.
pub open spec fn line_views(ls: Seq<Vec<u8>>) -> Seq<Seq<u8>> {
    ls.map_values(|l: Vec<u8>| l@)
}

impl View for Request {
    type V = RequestView;

    open spec fn view(&self) -> RequestView {
        RequestView {
            method: self.method@,
            path: self.path@,
            headers: pair_views(self.headers@),
            body: self.body@,
        }
    }
}

/// Whitespace as the request line is split on: the six ASCII whitespace
/// bytes. The request is read as bytes, so Unicode whitespace such as
/// U+0085 or U+00A0 is not a separator here.
pub open spec fn is_space(b: u8) -> bool {
    b == 0x20 || b == 0x09 || b == 0x0a || b == 0x0b || b == 0x0c || b == 0x0d
}

/// A line without the carriage return that ended it, if any.
pub open spec fn strip_cr(l: Seq<u8>) -> Seq<u8> {
    if l.len() > 0 && l.last() == 0x0d {
        l.drop_last()
    } else {
        l
    }
}

/// The lines of `s` from index `i` on, the current one having begun at
/// `start`. Lines end at a newline, which is dropped along with a carriage
/// return just before it; a last line without a newline is kept as it is,
/// and a newline at the very end opens no further line.
pub open spec fn lines_from(s: Seq<u8>, start: int, i: int) -> Seq<Seq<u8>>
    decreases s.len() - i,
{
    if i >= s.len() {
        if start < s.len() {
            seq![s.subrange(start, s.len() as int)]
        } else {
            seq![]
        }
    } else if s[i] == 0x0a {
        seq![strip_cr(s.subrange(start, i))] + lines_from(s, i + 1, i + 1)
    } else {
        lines_from(s, start, i + 1)
    }
}

/// The lines of a buffer.
pub open spec fn lines(s: Seq<u8>) -> Seq<Seq<u8>> {
    lines_from(s, 0, 0)
}

/// First index at or after `i` that holds no whitespace (or the end).
pub open spec fn skip_space(l: Seq<u8>, i: int) -> int
    decreases l.len() - i,
{
    if 0 <= i < l.len() && is_space(l[i]) {
        skip_space(l, i + 1)
    } else {
        i
    }
}

/// First index at or after `i` that holds whitespace (or the end).
pub open spec fn word_end(l: Seq<u8>, i: int) -> int
    decreases l.len() - i,
{
    if 0 <= i < l.len() && !is_space(l[i]) {
        word_end(l, i + 1)
    } else {
        i
    }
}

/// The first two whitespace-separated words of the request line: method
/// and path. Anything after them (the protocol version) is ignored.
pub open spec fn request_line(l: Seq<u8>) -> Option<(Seq<u8>, Seq<u8>)> {
    let a = skip_space(l, 0);
    let b = word_end(l, a);
    let c = skip_space(l, b);
    let d = word_end(l, c);
    if a < b && c < d {
        Some((l.subrange(a, b), l.subrange(c, d)))
    } else {
        None
    }
}

/// Index of the first `": "` in `l` at or after `i`.
pub open spec fn find_separator(l: Seq<u8>, i: int) -> Option<int>
    decreases l.len() - i,
{
    if i < 0 || i + 1 >= l.len() {
        None
    } else if l[i] == 0x3a && l[i + 1] == 0x20 {
        Some(i)
    } else {
        find_separator(l, i + 1)
    }
}

/// A header line split at its first `": "` into name and value.
pub open spec fn header_line(l: Seq<u8>) -> Option<(Seq<u8>, Seq<u8>)> {
    match find_separator(l, 0) {
        Some(k) => Some((l.subrange(0, k), l.subrange(k + 2, l.len() as int))),
        None => None,
    }
}

/// All header lines split; fails if any of them has no separator.
pub open spec fn header_lines(ls: Seq<Seq<u8>>) -> Option<Seq<(Seq<u8>, Seq<u8>)>>
    decreases ls.len(),
{
    if ls.len() == 0 {
        Some(seq![])
    } else {
        match (header_lines(ls.drop_last()), header_line(ls.last())) {
            (Some(hs), Some(h)) => Some(hs.push(h)),
            _ => None,
        }
    }
}

/// Index of the first empty line at or after `i` (or the number of lines).
pub open spec fn blank_line(ls: Seq<Seq<u8>>, i: int) -> int
    decreases ls.len() - i,
{
    if i < 0 || i >= ls.len() {
        ls.len() as int
    } else if ls[i].len() == 0 {
        i
    } else {
        blank_line(ls, i + 1)
    }
}

/// Lines joined with newlines in between.
pub open spec fn join_lines(ls: Seq<Seq<u8>>) -> Seq<u8>
    decreases ls.len(),
{
    if ls.len() == 0 {
        seq![]
    } else if ls.len() == 1 {
        ls[0]
    } else {
        join_lines(ls.drop_last()) + seq![0x0au8] + ls.last()
    }
}

/// The request that a list of lines holds, if it is well formed: a request
/// line, header lines up to the first empty line, and after that line the
/// body, its lines joined with newlines.
pub open spec fn parse_lines(ls: Seq<Seq<u8>>) -> Option<RequestView> {
    if ls.len() == 0 {
        None
    } else {
        let k = blank_line(ls, 1);
        match (request_line(ls[0]), header_lines(ls.subrange(1, k))) {
            (Some(mp), Some(hs)) => Some(
                RequestView {
                    method: mp.0,
                    path: mp.1,
                    headers: hs,
                    body: if k < ls.len() {
                        join_lines(ls.subrange(k + 1, ls.len() as int))
                    } else {
                        seq![]
                    },
                },
            ),
            _ => None,
        }
    }
}

/// The request that a buffer holds, if it is well formed.
pub open spec fn parse(s: Seq<u8>) -> Option<RequestView> {
    parse_lines(lines(s))
}

/// The value of the last header named `name`.
pub open spec fn header_value(hs: Seq<(Seq<u8>, Seq<u8>)>, name: Seq<u8>) -> Option<Seq<u8>>
    decreases hs.len(),
{
    if hs.len() == 0 {
        None
    } else if hs.last().0 == name {
        Some(hs.last().1)
    } else {
        header_value(hs.drop_last(), name)
    }
}

/// Splits a buffer into its lines.
pub fn split_lines(s: &[u8]) -> (r: Vec<Vec<u8>>)
    ensures
        line_views(r@) == lines(s@),
{
    let mut out: Vec<Vec<u8>> = Vec::new();
    let mut start: usize = 0;
    let mut i: usize = 0;
    while i < s.len()
        invariant
            start <= i <= s@.len(),
            line_views(out@) + lines_from(s@, start as int, i as int) == lines(s@),
        decreases s@.len() - i,
    {
        if s[i] == 0x0a {
            let mut end: usize = i;
            if end > start && s[end - 1] == 0x0d {
                end = end - 1;
            }
            let line = copy_range(s, start, end);
            assert(line@ == strip_cr(s@.subrange(start as int, i as int)));
            let ghost before = line_views(out@);
            let ghost rest = lines_from(s@, (i + 1) as int, (i + 1) as int);
            out.push(line);
            assert(line_views(out@) =~= before.push(line@));
            assert(before + (seq![line@] + rest) =~= before.push(line@) + rest);
            start = i + 1;
        }
        i = i + 1;
    }
    if start < s.len() {
        let line = copy_range(s, start, s.len());
        let ghost before = line_views(out@);
        out.push(line);
        assert(line_views(out@) =~= before.push(line@));
        assert(before + seq![line@] =~= before.push(line@));
    } else {
        assert(line_views(out@) + seq![] =~= line_views(out@));
    }
    out
}

/// Skips whitespace from `i`.
fn skip_space_from(l: &[u8], i: usize) -> (r: usize)
    requires
        i <= l@.len(),
    ensures
        r == skip_space(l@, i as int),
        i <= r <= l@.len(),
{
    let mut j: usize = i;
    while j < l.len() && (l[j] == 0x20 || l[j] == 0x09 || l[j] == 0x0a || l[j] == 0x0b
        || l[j] == 0x0c || l[j] == 0x0d)
        invariant
            i <= j <= l@.len(),
            skip_space(l@, j as int) == skip_space(l@, i as int),
        decreases l@.len() - j,
    {
        j = j + 1;
    }
    j
}

/// Skips a word from `i`.
fn word_end_from(l: &[u8], i: usize) -> (r: usize)
    requires
        i <= l@.len(),
    ensures
        r == word_end(l@, i as int),
        i <= r <= l@.len(),
{
    let mut j: usize = i;
    while j < l.len() && !(l[j] == 0x20 || l[j] == 0x09 || l[j] == 0x0a || l[j] == 0x0b
        || l[j] == 0x0c || l[j] == 0x0d)
        invariant
            i <= j <= l@.len(),
            word_end(l@, j as int) == word_end(l@, i as int),
        decreases l@.len() - j,
    {
        j = j + 1;
    }
    j
}

/// Splits a request line into method and path.
pub fn split_request_line(l: &[u8]) -> (r: Option<(Vec<u8>, Vec<u8>)>)
    ensures
        match r {
            Some(mp) => request_line(l@) == Some((mp.0@, mp.1@)),
            None => request_line(l@).is_none(),
        },
{
    let a = skip_space_from(l, 0);
    let b = word_end_from(l, a);
    let c = skip_space_from(l, b);
    let d = word_end_from(l, c);
    if a < b && c < d {
        Some((copy_range(l, a, b), copy_range(l, c, d)))
    } else {
        None
    }
}

/// Splits a header line at its first `": "`.
pub fn split_header(l: &[u8]) -> (r: Option<(Vec<u8>, Vec<u8>)>)
    ensures
        match r {
            Some(h) => header_line(l@) == Some((h.0@, h.1@)),
            None => header_line(l@).is_none(),
        },
{
    let mut i: usize = 0;
    while l.len() > 1 && i < l.len() - 1
        invariant
            i <= l@.len(),
            find_separator(l@, i as int) == find_separator(l@, 0),
        decreases l@.len() - i,
    {
        if l[i] == 0x3a && l[i + 1] == 0x20 {
            return Some((copy_range(l, 0, i), copy_range(l, i + 2, l.len())));
        }
        i = i + 1;
    }
    None
}

/// Decodes a request from its lines.
pub fn parse_request_lines(ls: &Vec<Vec<u8>>) -> (r: Option<Request>)
    ensures
        match r {
            Some(req) => parse_lines(line_views(ls@)) == Some(req@),
            None => parse_lines(line_views(ls@)).is_none(),
        },
{
    let ghost lv = line_views(ls@);
    if ls.len() == 0 {
        return None;
    }
    let mp = split_request_line(ls[0].as_slice());
    let mut k: usize = 1;
    while k < ls.len() && ls[k].len() != 0
        invariant
            1 <= k <= ls@.len(),
            lv == line_views(ls@),
            blank_line(lv, k as int) == blank_line(lv, 1),
        decreases ls@.len() - k,
    {
        k = k + 1;
    }
    assert(k == blank_line(lv, 1));
    let mut headers: Vec<(Vec<u8>, Vec<u8>)> = Vec::new();
    let mut j: usize = 1;
    while j < k
        invariant
            1 <= j <= k <= ls@.len(),
            lv == line_views(ls@),
            k == blank_line(lv, 1),
            header_lines(lv.subrange(1, j as int)) == Some(pair_views(headers@)),
        decreases k - j,
    {
        let h = split_header(ls[j].as_slice());
        assert(lv.subrange(1, j + 1).drop_last() =~= lv.subrange(1, j as int));
        match h {
            Some(h) => {
                let ghost before = pair_views(headers@);
                let ghost hv = (h.0@, h.1@);
                headers.push(h);
                assert(pair_views(headers@) =~= before.push(hv));
            },
            None => {
                proof {
                    assert(lv.subrange(1, j + 1).last() == lv[j as int]);
                    assert(header_lines(lv.subrange(1, j + 1)).is_none());
                    assert(lv.subrange(1, k as int).subrange(0, j as int) =~= lv.subrange(1, j + 1));
                    lemma_header_lines_fail(lv.subrange(1, k as int), j - 1);
                }
                return None;
            },
        }
        j = j + 1;
    }
    let mut body: Vec<u8> = Vec::new();
    if k < ls.len() {
        let mut m: usize = k + 1;
        while m < ls.len()
            invariant
                k + 1 <= m <= ls@.len(),
                lv == line_views(ls@),
                body@ == join_lines(lv.subrange(k + 1, m as int)),
            decreases ls@.len() - m,
        {
            assert(lv.subrange(k + 1, m + 1).drop_last() =~= lv.subrange(k + 1, m as int));
            if m > k + 1 {
                body.push(0x0a);
            }
            push_all(&mut body, ls[m].as_slice());
            m = m + 1;
        }
    }
    match mp {
        Some(mp) => {
            assert(lv.subrange(1, k as int) =~= lv.subrange(1, j as int));
            Some(Request { method: mp.0, path: mp.1, headers, body })
        },
        None => None,
    }
}

/// A failing header line makes every longer list fail.
proof fn lemma_header_lines_fail(ls: Seq<Seq<u8>>, i: int)
    requires
        0 <= i < ls.len(),
        header_lines(ls.subrange(0, i + 1)).is_none(),
    ensures
        header_lines(ls).is_none(),
    decreases ls.len(),
{
    if i + 1 < ls.len() {
        assert(ls.drop_last().subrange(0, i + 1) =~= ls.subrange(0, i + 1));
        lemma_header_lines_fail(ls.drop_last(), i);
    } else {
        assert(ls.subrange(0, i + 1) =~= ls);
    }
}

/// Decodes a request buffer: the whole decoder.
pub fn request_parser(buf: &[u8]) -> (r: Option<Request>)
    ensures
        match r {
            Some(req) => parse(buf@) == Some(req@),
            None => parse(buf@).is_none(),
        },
{
    let ls = split_lines(buf);
    parse_request_lines(&ls)
}

impl Request {
    /// The value of the last header named `name`.
    pub fn header(&self, name: &[u8]) -> (r: Option<&Vec<u8>>)
        ensures
            match r {
                Some(v) => header_value(self@.headers, name@) == Some(v@),
                None => header_value(self@.headers, name@).is_none(),
            },
    {
        let ghost hs = self@.headers;
        let mut i: usize = self.headers.len();
        assert(hs.subrange(0, i as int) =~= hs);
        while i > 0
            invariant
                i <= self.headers@.len(),
                hs == pair_views(self.headers@),
                header_value(hs.subrange(0, i as int), name@) == header_value(hs, name@),
            decreases i,
        {
            assert(hs.subrange(0, i as int).drop_last() =~= hs.subrange(0, i - 1));
            if bytes_eq(self.headers[i - 1].0.as_slice(), name) {
                return Some(&self.headers[i - 1].1);
            }
            i = i - 1;
        }
        None
    }
}

} // verus!
