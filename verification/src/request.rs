//! Extraction of the method and path from the bytes of a request.
//!
//! Only the first line of whatever was read from the connection
//! matters: its first whitespace-delimited token is the method, its
//! second is the request path. A missing path defaults to `/`, and the
//! method is kept but never acted on.

use crate::path::root_request;
use crate::util::copy_range;
use vstd::prelude::*;

verus! {

/// The method and path of one request.
pub struct RawRequest {
    pub method: Vec<u8>,
    pub path: Vec<u8>,
}

/// ASCII whitespace: the token separators of the request line.
pub open spec fn is_ws(b: u8) -> bool {
    b == ' ' as u8 || b == '\t' as u8 || b == '\r' as u8 || b == '\n' as u8 || b == 11 || b == 12
}

/// Whether `b` is ASCII whitespace.
fn is_ws_byte(b: u8) -> (r: bool)
    ensures
        r == is_ws(b),
{
    b == ' ' as u8 || b == '\t' as u8 || b == '\r' as u8 || b == '\n' as u8 || b == 11 || b == 12
}

/// Everything before the first line feed; all of `b` when it has none.
pub open spec fn first_line_of(b: Seq<u8>) -> Seq<u8>
    decreases b.len(),
{
    if b.len() == 0 {
        b
    } else if b[0] == '\n' as u8 {
        Seq::<u8>::empty()
    } else {
        seq![b[0]] + first_line_of(b.skip(1))
    }
}

/// `s` without its leading whitespace.
pub open spec fn skip_ws(s: Seq<u8>) -> Seq<u8>
    decreases s.len(),
{
    if s.len() > 0 && is_ws(s[0]) {
        skip_ws(s.skip(1))
    } else {
        s
    }
}

/// The leading run of non-whitespace bytes of `s`.
pub open spec fn take_tok(s: Seq<u8>) -> Seq<u8>
    decreases s.len(),
{
    if s.len() > 0 && !is_ws(s[0]) {
        seq![s[0]] + take_tok(s.skip(1))
    } else {
        Seq::<u8>::empty()
    }
}

/// `s` without its leading run of non-whitespace bytes.
pub open spec fn drop_tok(s: Seq<u8>) -> Seq<u8>
    decreases s.len(),
{
    if s.len() > 0 && !is_ws(s[0]) {
        drop_tok(s.skip(1))
    } else {
        s
    }
}

/// The first whitespace-delimited token of `s`; empty when `s` has no
/// token at all.
pub open spec fn first_token(s: Seq<u8>) -> Seq<u8> {
    take_tok(skip_ws(s))
}

/// The second whitespace-delimited token of `s`; empty when `s` has
/// fewer than two tokens.
pub open spec fn second_token(s: Seq<u8>) -> Seq<u8> {
    first_token(drop_tok(skip_ws(s)))
}

proof fn lemma_first_line_take(b: Seq<u8>, n: int)
    requires
        0 <= n <= b.len(),
        forall|j: int| 0 <= j < n ==> b[j] != '\n' as u8,
        n == b.len() || b[n] == '\n' as u8,
    ensures
        first_line_of(b) == b.take(n),
    decreases n,
{
    if n == 0 {
        assert(b.take(0) =~= Seq::<u8>::empty());
        if b.len() == 0 {
            assert(b.take(0) =~= b);
        }
    } else {
        assert(b.skip(1).take(n - 1) =~= b.take(n).skip(1));
        assert forall|j: int| 0 <= j < n - 1 implies b.skip(1)[j] != '\n' as u8 by {
            assert(b.skip(1)[j] == b[j + 1]);
        }
        lemma_first_line_take(b.skip(1), n - 1);
        assert(seq![b[0]] + b.skip(1).take(n - 1) =~= b.take(n));
    }
}

proof fn lemma_scan_ws(line: Seq<u8>, a: int, k: int)
    requires
        0 <= a <= k <= line.len(),
        forall|j: int| a <= j < k ==> is_ws(line[j]),
        k == line.len() || !is_ws(line[k]),
    ensures
        skip_ws(line.skip(a)) == line.skip(k),
    decreases k - a,
{
    if a == k {
        if a < line.len() {
            assert(line.skip(a)[0] == line[a]);
        }
    } else {
        assert(line.skip(a)[0] == line[a]);
        assert(line.skip(a).skip(1) =~= line.skip(a + 1));
        lemma_scan_ws(line, a + 1, k);
    }
}

proof fn lemma_scan_tok(line: Seq<u8>, a: int, k: int)
    requires
        0 <= a <= k <= line.len(),
        forall|j: int| a <= j < k ==> !is_ws(line[j]),
        k == line.len() || is_ws(line[k]),
    ensures
        take_tok(line.skip(a)) == line.subrange(a, k),
        drop_tok(line.skip(a)) == line.skip(k),
    decreases k - a,
{
    if a == k {
        assert(line.subrange(a, a) =~= Seq::<u8>::empty());
        if a < line.len() {
            assert(line.skip(a)[0] == line[a]);
        }
    } else {
        assert(line.skip(a)[0] == line[a]);
        assert(line.skip(a).skip(1) =~= line.skip(a + 1));
        lemma_scan_tok(line, a + 1, k);
        assert(seq![line[a]] + line.subrange(a + 1, k) =~= line.subrange(a, k));
    }
}

/// Parses the bytes read from a connection: on their first line, the
/// first whitespace-delimited token is the method and the second is
/// the request path, with `/` standing in when the line has fewer than
/// two tokens. Every further line is ignored.
pub fn parse_request(data: &Vec<u8>) -> (r: RawRequest)
    ensures
        r.method@ == first_token(first_line_of(data@)),
        r.path@ == if second_token(first_line_of(data@)).len() > 0 {
            second_token(first_line_of(data@))
        } else {
            root_request()
        },
{
    let mut e: usize = 0;
    while e < data.len() && data[e] != '\n' as u8
        invariant
            e <= data@.len(),
            forall|j: int| 0 <= j < e ==> data@[j] != '\n' as u8,
        decreases data@.len() - e,
    {
        e += 1;
    }
    let ghost line = first_line_of(data@);
    proof {
        lemma_first_line_take(data@, e as int);
        assert(line == data@.take(e as int));
    }
    let mut t0s: usize = 0;
    while t0s < e && is_ws_byte(data[t0s])
        invariant
            t0s <= e <= data@.len(),
            forall|j: int| 0 <= j < t0s ==> is_ws(data@[j]),
        decreases e - t0s,
    {
        t0s += 1;
    }
    let mut t0e: usize = t0s;
    while t0e < e && !is_ws_byte(data[t0e])
        invariant
            t0s <= t0e <= e <= data@.len(),
            forall|j: int| t0s <= j < t0e ==> !is_ws(data@[j]),
        decreases e - t0e,
    {
        t0e += 1;
    }
    let method = copy_range(data, t0s, t0e);
    let mut t1s: usize = t0e;
    while t1s < e && is_ws_byte(data[t1s])
        invariant
            t0e <= t1s <= e <= data@.len(),
            forall|j: int| t0e <= j < t1s ==> is_ws(data@[j]),
        decreases e - t1s,
    {
        t1s += 1;
    }
    let mut t1e: usize = t1s;
    while t1e < e && !is_ws_byte(data[t1e])
        invariant
            t1s <= t1e <= e <= data@.len(),
            forall|j: int| t1s <= j < t1e ==> !is_ws(data@[j]),
        decreases e - t1e,
    {
        t1e += 1;
    }
    proof {
        assert(line.len() == e as int);
        assert(forall|j: int| 0 <= j < e ==> line[j] == data@[j]);
        assert(line.skip(0) =~= line);
        lemma_scan_ws(line, 0, t0s as int);
        lemma_scan_tok(line, t0s as int, t0e as int);
        assert(first_token(line) == line.subrange(t0s as int, t0e as int));
        assert(line.subrange(t0s as int, t0e as int) =~= data@.subrange(t0s as int, t0e as int));
        lemma_scan_ws(line, t0e as int, t1s as int);
        lemma_scan_tok(line, t1s as int, t1e as int);
        assert(second_token(line) == line.subrange(t1s as int, t1e as int));
        assert(line.subrange(t1s as int, t1e as int) =~= data@.subrange(t1s as int, t1e as int));
    }
    let path = if t1e > t1s {
        copy_range(data, t1s, t1e)
    } else {
        let v: Vec<u8> = vec!['/' as u8];
        proof {
            assert(v@ =~= root_request());
            assert(second_token(line).len() == 0);
        }
        v
    };
    RawRequest { method, path }
}

} // verus!
