//! The wire form of a request, and the law that the decoder reads back
//! every part of a well-formed one.

use vstd::prelude::*;
use crate::bytes::{contains, occurs_at};
use crate::request::{
    blank_line, find_separator, header_line, header_lines, is_space, join_lines, lines,
    lines_from, parse, request_line, skip_space, strip_cr, word_end, RequestView,
};
use crate::text::crlf;

verus! {

/// No newline byte.
pub open spec fn no_newline(s: Seq<u8>) -> bool {
    forall|i: int| 0 <= i < s.len() ==> #[trigger] s[i] != 0x0a
}

/// No carriage return byte.
pub open spec fn no_cr(s: Seq<u8>) -> bool {
    forall|i: int| 0 <= i < s.len() ==> #[trigger] s[i] != 0x0d
}

/// A non-empty run of bytes that are not whitespace.
pub open spec fn is_word(s: Seq<u8>) -> bool {
    s.len() > 0 && forall|i: int| 0 <= i < s.len() ==> !is_space(#[trigger] s[i])
}

/// The separator between a header's name and its value.
pub open spec fn separator() -> Seq<u8> {
    seq![0x3au8, 0x20]
}

/// A header pair that survives a trip through the wire: no newline in it,
/// and no separator inside the name.
pub open spec fn well_formed_header(h: (Seq<u8>, Seq<u8>)) -> bool {
    no_newline(h.0) && no_newline(h.1) && !contains(h.0, separator())
}

/// A body that survives a trip through the wire: no carriage return, and
/// no newline at its very end.
pub open spec fn well_formed_body(b: Seq<u8>) -> bool {
    no_cr(b) && (b.len() == 0 || b.last() != 0x0a)
}

/// A header as `name: value`.
pub open spec fn header_line_text(h: (Seq<u8>, Seq<u8>)) -> Seq<u8> {
    h.0 + separator() + h.1
}

/// Each header as `name: value` followed by CRLF.
pub open spec fn headers_text(hs: Seq<(Seq<u8>, Seq<u8>)>) -> Seq<u8>
    decreases hs.len(),
{
    if hs.len() == 0 {
        seq![]
    } else {
        header_line_text(hs[0]) + crlf() + headers_text(hs.drop_first())
    }
}

/// A request as a client writes it: `method path version`, the headers,
/// a blank line, the body.
pub open spec fn request_text(
    method: Seq<u8>,
    path: Seq<u8>,
    version: Seq<u8>,
    hs: Seq<(Seq<u8>, Seq<u8>)>,
    body: Seq<u8>,
) -> Seq<u8> {
    method + seq![0x20u8] + path + seq![0x20u8] + version + crlf() + headers_text(hs) + crlf()
        + body
}

proof fn lemma_lines_shift(p: Seq<u8>, y: Seq<u8>, a: int, b: int)
    requires
        0 <= a <= b <= y.len(),
    ensures
        lines_from(p + y, p.len() + a, p.len() + b) == lines_from(y, a, b),
    decreases y.len() - b,
{
    let s = p + y;
    if b >= y.len() {
        assert(s.subrange(p.len() + a, s.len() as int) =~= y.subrange(a, y.len() as int));
    } else {
        assert(s[p.len() + b] == y[b]);
        if y[b] == 0x0a {
            assert(s.subrange(p.len() + a, p.len() + b) =~= y.subrange(a, b));
            lemma_lines_shift(p, y, b + 1, b + 1);
        } else {
            lemma_lines_shift(p, y, a, b + 1);
        }
    }
}

proof fn lemma_lines_first(x: Seq<u8>, y: Seq<u8>, i: int)
    requires
        no_newline(x),
        0 <= i <= x.len(),
    ensures
        lines_from(x + seq![0x0au8] + y, 0, i) == seq![strip_cr(x)] + lines_from(
            x + seq![0x0au8] + y,
            x.len() + 1 as int,
            x.len() + 1 as int,
        ),
    decreases x.len() - i,
{
    let s = x + seq![0x0au8] + y;
    if i == x.len() {
        assert(s[i] == 0x0a);
        assert(s.subrange(0, i) =~= x);
    } else {
        assert(s[i] == x[i]);
        lemma_lines_first(x, y, i + 1);
    }
}

/// A line ended by a newline, then the rest.
proof fn lemma_lines_cons(x: Seq<u8>, y: Seq<u8>)
    requires
        no_newline(x),
    ensures
        lines(x + seq![0x0au8] + y) == seq![strip_cr(x)] + lines(y),
{
    let p = x + seq![0x0au8];
    assert(x + seq![0x0au8] + y =~= p + y);
    lemma_lines_first(x, y, 0);
    lemma_lines_shift(p, y, 0, 0);
}

/// A line ended by CRLF, then the rest.
proof fn lemma_lines_crlf(x: Seq<u8>, y: Seq<u8>)
    requires
        no_newline(x),
    ensures
        lines(x + crlf() + y) == seq![x] + lines(y),
{
    let xr = x.push(0x0d);
    assert(x + crlf() + y =~= xr + seq![0x0au8] + y);
    assert(no_newline(xr)) by {
        assert forall|i: int| 0 <= i < xr.len() implies #[trigger] xr[i] != 0x0a by {
            if i < x.len() {
                assert(xr[i] == x[i]);
            }
        }
    }
    lemma_lines_cons(xr, y);
    assert(strip_cr(xr) =~= x);
}

proof fn lemma_lines_single(s: Seq<u8>, i: int)
    requires
        no_newline(s),
        0 <= i <= s.len(),
    ensures
        lines_from(s, 0, i) == (if s.len() > 0 {
            seq![s]
        } else {
            seq![]
        }),
    decreases s.len() - i,
{
    if i == s.len() {
        assert(s.subrange(0, s.len() as int) =~= s);
    } else {
        lemma_lines_single(s, i + 1);
    }
}

proof fn lemma_join_cons(x: Seq<u8>, ls: Seq<Seq<u8>>)
    requires
        ls.len() > 0,
    ensures
        join_lines(seq![x] + ls) == x + seq![0x0au8] + join_lines(ls),
    decreases ls.len(),
{
    let xs = seq![x] + ls;
    assert(xs.last() == ls.last());
    if ls.len() == 1 {
        assert(xs.drop_last() =~= seq![x]);
        assert(join_lines(seq![x]) == x);
        assert(join_lines(ls) == ls.last());
    } else {
        assert(xs.drop_last() =~= seq![x] + ls.drop_last());
        lemma_join_cons(x, ls.drop_last());
        assert(x + seq![0x0au8] + join_lines(ls.drop_last()) + seq![0x0au8] + ls.last() =~= x
            + seq![0x0au8] + (join_lines(ls.drop_last()) + seq![0x0au8] + ls.last()));
    }
}

spec fn first_newline(s: Seq<u8>, i: int) -> int
    decreases s.len() - i,
{
    if i < 0 || i >= s.len() {
        s.len() as int
    } else if s[i] == 0x0a {
        i
    } else {
        first_newline(s, i + 1)
    }
}

proof fn lemma_first_newline(s: Seq<u8>, i: int)
    requires
        0 <= i <= s.len(),
    ensures
        i <= first_newline(s, i) <= s.len(),
        forall|j: int| i <= j < first_newline(s, i) ==> #[trigger] s[j] != 0x0a,
        first_newline(s, i) < s.len() ==> s[first_newline(s, i)] == 0x0a,
    decreases s.len() - i,
{
    if i < s.len() && s[i] != 0x0a {
        lemma_first_newline(s, i + 1);
    }
}

/// The body lines, joined again, give back a well-formed body.
proof fn lemma_body_round_trip(body: Seq<u8>)
    requires
        well_formed_body(body),
    ensures
        join_lines(lines(body)) == body,
    decreases body.len(),
{
    lemma_first_newline(body, 0);
    let f = first_newline(body, 0);
    if f == body.len() {
        assert(no_newline(body));
        lemma_lines_single(body, 0);
    } else {
        let x = body.subrange(0, f);
        let y = body.subrange(f + 1, body.len() as int);
        assert(body =~= x + seq![0x0au8] + y);
        assert(no_newline(x));
        lemma_lines_cons(x, y);
        if x.len() > 0 {
            assert(x.last() == body[f - 1]);
        }
        assert(strip_cr(x) == x);
        assert(y.len() > 0);
        assert(y.last() == body.last());
        assert(no_cr(y)) by {
            assert forall|i: int| 0 <= i < y.len() implies #[trigger] y[i] != 0x0d by {
                assert(y[i] == body[f + 1 + i]);
            }
        }
        lemma_body_round_trip(y);
        lemma_join_cons(x, lines(y));
    }
}

proof fn lemma_skip_space_run(l: Seq<u8>, i: int, j: int)
    requires
        0 <= i <= j <= l.len(),
        forall|k: int| i <= k < j ==> is_space(#[trigger] l[k]),
        j == l.len() || !is_space(l[j]),
    ensures
        skip_space(l, i) == j,
    decreases j - i,
{
    if i < j {
        lemma_skip_space_run(l, i + 1, j);
    }
}

proof fn lemma_word_end_run(l: Seq<u8>, i: int, j: int)
    requires
        0 <= i <= j <= l.len(),
        forall|k: int| i <= k < j ==> !is_space(#[trigger] l[k]),
        j == l.len() || is_space(l[j]),
    ensures
        word_end(l, i) == j,
    decreases j - i,
{
    if i < j {
        lemma_word_end_run(l, i + 1, j);
    }
}

proof fn lemma_request_line(method: Seq<u8>, path: Seq<u8>, version: Seq<u8>)
    requires
        is_word(method),
        is_word(path),
    ensures
        request_line(method + seq![0x20u8] + path + seq![0x20u8] + version) == Some((method, path)),
{
    let l = method + seq![0x20u8] + path + seq![0x20u8] + version;
    let m = method.len() as int;
    let e = m + 1 + path.len();
    assert(l[0] == method[0]);
    lemma_skip_space_run(l, 0, 0);
    assert forall|k: int| 0 <= k < m implies !is_space(#[trigger] l[k]) by {
        assert(l[k] == method[k]);
    }
    assert(l[m] == 0x20);
    lemma_word_end_run(l, 0, m);
    assert(l[m + 1] == path[0]);
    lemma_skip_space_run(l, m, m + 1);
    assert forall|k: int| m + 1 <= k < e implies !is_space(#[trigger] l[k]) by {
        assert(l[k] == path[k - m - 1]);
    }
    assert(l[e] == 0x20);
    lemma_word_end_run(l, m + 1, e);
    assert(l.subrange(0, m) =~= method);
    assert(l.subrange(m + 1, e) =~= path);
}

proof fn lemma_find_separator(h: (Seq<u8>, Seq<u8>), i: int)
    requires
        well_formed_header(h),
        0 <= i <= h.0.len(),
    ensures
        find_separator(header_line_text(h), i) == Some(h.0.len() as int),
    decreases h.0.len() - i,
{
    let l = header_line_text(h);
    let n = h.0.len() as int;
    if i == n {
        assert(l[n] == 0x3a && l[n + 1] == 0x20);
    } else {
        assert(l[i] == h.0[i]);
        if i + 1 < n {
            assert(l[i + 1] == h.0[i + 1]);
            assert(!occurs_at(h.0, separator(), i));
            if l[i] == 0x3a && l[i + 1] == 0x20 {
                assert(h.0.subrange(i, i + 2) =~= separator());
            }
        } else {
            assert(l[i + 1] == 0x3a);
        }
        lemma_find_separator(h, i + 1);
    }
}

proof fn lemma_header_line(h: (Seq<u8>, Seq<u8>))
    requires
        well_formed_header(h),
    ensures
        header_line(header_line_text(h)) == Some(h),
        no_newline(header_line_text(h)),
        header_line_text(h).len() >= 2,
{
    let l = header_line_text(h);
    let n = h.0.len() as int;
    lemma_find_separator(h, 0);
    assert(l.subrange(0, n) =~= h.0);
    assert(l.subrange(n + 2, l.len() as int) =~= h.1);
    assert forall|i: int| 0 <= i < l.len() implies #[trigger] l[i] != 0x0a by {
        if i < n {
            assert(l[i] == h.0[i]);
        } else if i >= n + 2 {
            assert(l[i] == h.1[i - n - 2]);
        }
    }
}

/// The header lines of a list of pairs.
pub open spec fn header_texts(hs: Seq<(Seq<u8>, Seq<u8>)>) -> Seq<Seq<u8>> {
    hs.map_values(|h: (Seq<u8>, Seq<u8>)| header_line_text(h))
}

proof fn lemma_header_block_lines(hs: Seq<(Seq<u8>, Seq<u8>)>, rest: Seq<u8>)
    requires
        forall|i: int| 0 <= i < hs.len() ==> well_formed_header(#[trigger] hs[i]),
    ensures
        lines(headers_text(hs) + crlf() + rest) == header_texts(hs) + seq![seq![]] + lines(rest),
    decreases hs.len(),
{
    if hs.len() == 0 {
        assert(headers_text(hs) + crlf() + rest =~= seq![] + crlf() + rest);
        lemma_lines_crlf(seq![], rest);
        assert(header_texts(hs) + seq![seq![]] + lines(rest) =~= seq![seq![]] + lines(rest));
    } else {
        let t = hs.drop_first();
        assert(well_formed_header(hs[0]));
        lemma_header_line(hs[0]);
        assert forall|i: int| 0 <= i < t.len() implies well_formed_header(#[trigger] t[i]) by {
            assert(t[i] == hs[i + 1]);
        }
        lemma_header_block_lines(t, rest);
        let x = header_line_text(hs[0]);
        assert(headers_text(hs) + crlf() + rest =~= x + crlf() + (headers_text(t) + crlf() + rest));
        lemma_lines_crlf(x, headers_text(t) + crlf() + rest);
        assert(header_texts(hs) =~= seq![x] + header_texts(t));
        assert(header_texts(hs) + seq![seq![]] + lines(rest) =~= seq![x] + (header_texts(t)
            + seq![seq![]] + lines(rest)));
    }
}

proof fn lemma_header_texts_parse(hs: Seq<(Seq<u8>, Seq<u8>)>)
    requires
        forall|i: int| 0 <= i < hs.len() ==> well_formed_header(#[trigger] hs[i]),
    ensures
        header_lines(header_texts(hs)) == Some(hs),
        forall|i: int| 0 <= i < hs.len() ==> #[trigger] header_texts(hs)[i].len() >= 2,
    decreases hs.len(),
{
    assert forall|i: int| 0 <= i < hs.len() implies #[trigger] header_texts(hs)[i].len() >= 2 by {
        lemma_header_line(hs[i]);
    }
    if hs.len() > 0 {
        let d = hs.drop_last();
        assert forall|i: int| 0 <= i < d.len() implies well_formed_header(#[trigger] d[i]) by {
            assert(d[i] == hs[i]);
        }
        lemma_header_texts_parse(d);
        assert(header_texts(hs).drop_last() =~= header_texts(d));
        lemma_header_line(hs.last());
        assert(d.push(hs.last()) =~= hs);
    }
}

proof fn lemma_blank_line(ls: Seq<Seq<u8>>, n: int, i: int)
    requires
        1 <= i <= n + 1 < ls.len(),
        forall|j: int| 1 <= j < n + 1 ==> #[trigger] ls[j].len() > 0,
        ls[n + 1].len() == 0,
    ensures
        blank_line(ls, i) == n + 1,
    decreases n + 1 - i,
{
    if i < n + 1 {
        lemma_blank_line(ls, n, i + 1);
    }
}

/// Decoding a request written out in the wire form gives back its method,
/// its path and its header pairs in order, byte for byte, whatever the
/// body; the body comes back as its lines joined with newlines.
pub proof fn lemma_decode_recovers(
    method: Seq<u8>,
    path: Seq<u8>,
    version: Seq<u8>,
    hs: Seq<(Seq<u8>, Seq<u8>)>,
    body: Seq<u8>,
)
    requires
        is_word(method),
        is_word(path),
        no_newline(version),
        forall|i: int| 0 <= i < hs.len() ==> well_formed_header(#[trigger] hs[i]),
    ensures
        parse(request_text(method, path, version, hs, body)) == Some(
            RequestView { method, path, headers: hs, body: join_lines(lines(body)) },
        ),
{
    let rl = method + seq![0x20u8] + path + seq![0x20u8] + version;
    let rest = headers_text(hs) + crlf() + body;
    assert(request_text(method, path, version, hs, body) =~= rl + crlf() + rest);
    assert forall|i: int| 0 <= i < rl.len() implies #[trigger] rl[i] != 0x0a by {
        let m = method.len() as int;
        let e = m + 1 + path.len();
        if i < m {
            assert(rl[i] == method[i]);
        } else if m < i < e {
            assert(rl[i] == path[i - m - 1]);
        } else if i > e {
            assert(rl[i] == version[i - e - 1]);
        }
    }
    lemma_lines_crlf(rl, rest);
    lemma_header_block_lines(hs, body);
    let ht = header_texts(hs);
    let n = hs.len() as int;
    let ls = seq![rl] + ht + seq![seq![]] + lines(body);
    assert(lines(rl + crlf() + rest) =~= ls);
    lemma_header_texts_parse(hs);
    assert forall|j: int| 1 <= j < n + 1 implies #[trigger] ls[j].len() > 0 by {
        assert(ls[j] == ht[j - 1]);
    }
    lemma_blank_line(ls, n, 1);
    lemma_request_line(method, path, version);
    assert(ls.subrange(1, n + 1) =~= ht);
    assert(ls.subrange(n + 2, ls.len() as int) =~= lines(body));
}

/// When the body has no carriage return and no final newline, decoding
/// also gives it back byte for byte.
pub proof fn lemma_decode_recovers_body(
    method: Seq<u8>,
    path: Seq<u8>,
    version: Seq<u8>,
    hs: Seq<(Seq<u8>, Seq<u8>)>,
    body: Seq<u8>,
)
    requires
        is_word(method),
        is_word(path),
        no_newline(version),
        forall|i: int| 0 <= i < hs.len() ==> well_formed_header(#[trigger] hs[i]),
        well_formed_body(body),
    ensures
        parse(request_text(method, path, version, hs, body)) == Some(
            RequestView { method, path, headers: hs, body },
        ),
{
    lemma_decode_recovers(method, path, version, hs, body);
    lemma_body_round_trip(body);
}

} // verus!
