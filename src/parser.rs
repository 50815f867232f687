//! Lexical scanning of definition text: the `service` blocks of a file and the
//! `rpc` signatures of a service body.
use vstd::prelude::*;

use crate::chars::{
    alphanumeric, chars_of, is_alphanumeric, is_whitespace, matches_at, occurs_at, slice_chars,
    string_of, whitespace,
};
use crate::model::{methods_view, MethodSpec, ParsedMethod};

verus! {

/// Characters that may form a name: alphanumerics, `_` and `.`.
pub open spec fn ident_char(c: char) -> bool {
    alphanumeric(c) || c == '_' || c == '.'
}

/// The keyword that opens a service block.
pub open spec fn service_kw() -> Seq<char> {
    seq!['s', 'e', 'r', 'v', 'i', 'c', 'e']
}

/// The keyword that opens a method signature.
pub open spec fn rpc_kw() -> Seq<char> {
    seq!['r', 'p', 'c']
}

/// The streaming modifier.
pub open spec fn stream_kw() -> Seq<char> {
    seq!['s', 't', 'r', 'e', 'a', 'm']
}

/// Whether the keyword `word` stands at `i`, followed by a whitespace character.
pub open spec fn keyword_at(s: Seq<char>, i: int, word: Seq<char>) -> bool {
    occurs_at(s, i, word) && i + word.len() < s.len() && whitespace(s[i + word.len()])
}

/// The keyword between the input and the output of a signature.
pub open spec fn returns_kw() -> Seq<char> {
    seq!['r', 'e', 't', 'u', 'r', 'n', 's']
}

/// The number of whitespace characters that start at `i`.
pub open spec fn ws_len(s: Seq<char>, i: int) -> nat
    decreases s.len() - i,
{
    if 0 <= i < s.len() && whitespace(s[i]) {
        1 + ws_len(s, i + 1)
    } else {
        0
    }
}

/// The number of name characters that start at `i`.
pub open spec fn ident_len(s: Seq<char>, i: int) -> nat
    decreases s.len() - i,
{
    if 0 <= i < s.len() && ident_char(s[i]) {
        1 + ident_len(s, i + 1)
    } else {
        0
    }
}

/// The number of characters from `i` through the first `stop`, or to the end.
pub open spec fn through_len(s: Seq<char>, i: int, stop: char) -> nat
    decreases s.len() - i,
{
    if 0 <= i < s.len() {
        if s[i] == stop {
            1
        } else {
            1 + through_len(s, i + 1, stop)
        }
    } else {
        0
    }
}

/// One more than `o`, if there is one.
pub open spec fn opt_succ(o: Option<nat>) -> Option<nat> {
    match o {
        Some(n) => Some(n + 1),
        None => None,
    }
}

/// With `d` braces open before `k`: the number of characters from `k` through
/// the `}` that closes them all, or `None` when the text ends first.
pub open spec fn brace_end(s: Seq<char>, k: int, d: nat) -> Option<nat>
    decreases s.len() - k,
{
    if 0 <= k < s.len() {
        if s[k] == '{' {
            opt_succ(brace_end(s, k + 1, d + 1))
        } else if s[k] == '}' {
            if d <= 1 {
                Some(1)
            } else {
                opt_succ(brace_end(s, k + 1, (d - 1) as nat))
            }
        } else {
            opt_succ(brace_end(s, k + 1, d))
        }
    } else {
        None
    }
}

/// How many characters are left from index `i` of a text of length `len`.
pub open spec fn left(len: int, i: int) -> int {
    if i < len {
        len - i
    } else {
        0
    }
}

/// The (name, body) pairs of the service blocks found from index `i` on.
/// A `service` keyword counts only where whitespace follows it and no name
/// character precedes it; a block whose braces never balance ends the scan,
/// keeping what came before.
pub open spec fn services_from(s: Seq<char>, i: int) -> Seq<(Seq<char>, Seq<char>)>
    decreases left(s.len() as int, i),
{
    if i < 0 || i >= s.len() {
        seq![]
    } else if !keyword_at(s, i, service_kw()) {
        services_from(s, i + 1)
    } else if i > 0 && ident_char(s[i - 1]) {
        services_from(s, i + 7)
    } else {
        let j = i + 7 + ws_len(s, i + 7);
        let ne = j + ident_len(s, j);
        if ne == j {
            services_from(s, i + 7)
        } else {
            let k = ne + ws_len(s, ne);
            if k >= s.len() || s[k] != '{' {
                services_from(s, ne)
            } else {
                match brace_end(s, k + 1, 1) {
                    None => seq![],
                    Some(n) => seq![(s.subrange(j, ne), s.subrange(k + 1, k + n))]
                        + services_from(s, k + 1 + n),
                }
            }
        }
    }
}

/// The method signatures found in a service body from index `i` on, in order.
/// The keywords `rpc` and `stream` count only where whitespace follows them.
/// A signature that lacks its `(`, its `returns` or its second `(` is left
/// out, and the scan goes on from where it failed.
pub open spec fn methods_from(b: Seq<char>, i: int) -> Seq<MethodSpec>
    decreases left(b.len() as int, i),
{
    if i < 0 || i >= b.len() {
        seq![]
    } else if !keyword_at(b, i, rpc_kw()) {
        methods_from(b, i + 1)
    } else {
        let n0 = i + 3 + ws_len(b, i + 3);
        let n1 = n0 + ident_len(b, n0);
        if n1 == n0 {
            methods_from(b, i + 4)
        } else {
            let p = n1 + ws_len(b, n1);
            if p >= b.len() || b[p] != '(' {
                methods_from(b, p)
            } else {
                let in_stream = keyword_at(b, p + 1, stream_kw());
                let t0 = if in_stream { p + 7 + ws_len(b, p + 7) } else { p + 1 };
                let t1 = t0 + ident_len(b, t0);
                let q = t1 + through_len(b, t1, ')');
                let r0 = q + ws_len(b, q);
                if !occurs_at(b, r0, returns_kw()) {
                    methods_from(b, r0)
                } else {
                    let r1 = r0 + 7 + ws_len(b, r0 + 7);
                    if r1 >= b.len() || b[r1] != '(' {
                        methods_from(b, r1)
                    } else {
                        let out_stream = keyword_at(b, r1 + 1, stream_kw());
                        let u0 = if out_stream { r1 + 7 + ws_len(b, r1 + 7) } else { r1 + 1 };
                        let u1 = u0 + ident_len(b, u0);
                        let v = u1 + through_len(b, u1, ')');
                        let w = v + ws_len(b, v);
                        let e = if w < b.len() && b[w] == '{' {
                            match brace_end(b, w + 1, 1) {
                                Some(n) => w + 1 + n,
                                None => b.len() as int,
                            }
                        } else {
                            w + through_len(b, w, ';')
                        };
                        seq![
                            MethodSpec {
                                name: b.subrange(n0, n1),
                                input_type: b.subrange(t0, t1),
                                output_type: b.subrange(u0, u1),
                                streaming: in_stream || out_stream,
                            },
                        ] + methods_from(b, e)
                    }
                }
            }
        }
    }
}

/// The views of a sequence of (name, body) pairs.
pub open spec fn pairs_view(ps: Seq<(String, String)>) -> Seq<(Seq<char>, Seq<char>)> {
    ps.map_values(|p: (String, String)| (p.0@, p.1@))
}

/// Whether `c` may be part of a name.
pub fn is_ident_char(c: char) -> (r: bool)
    ensures
        r == ident_char(c),
{
    is_alphanumeric(c) || c == '_' || c == '.'
}

fn skip_whitespace(s: &Vec<char>, i: usize) -> (r: usize)
    requires
        i <= s@.len(),
    ensures
        r == i + ws_len(s@, i as int),
        r <= s@.len(),
{
    let mut j: usize = i;
    while j < s.len() && is_whitespace(s[j])
        invariant
            i <= j <= s@.len(),
            ws_len(s@, i as int) == (j - i) + ws_len(s@, j as int),
        decreases s@.len() - j,
    {
        j = j + 1;
    }
    j
}

fn skip_ident(s: &Vec<char>, i: usize) -> (r: usize)
    requires
        i <= s@.len(),
    ensures
        r == i + ident_len(s@, i as int),
        r <= s@.len(),
{
    let mut j: usize = i;
    while j < s.len() && is_ident_char(s[j])
        invariant
            i <= j <= s@.len(),
            ident_len(s@, i as int) == (j - i) + ident_len(s@, j as int),
        decreases s@.len() - j,
    {
        j = j + 1;
    }
    j
}

fn skip_through(s: &Vec<char>, i: usize, stop: char) -> (r: usize)
    requires
        i <= s@.len(),
    ensures
        r == i + through_len(s@, i as int, stop),
        r <= s@.len(),
{
    let mut j: usize = i;
    while j < s.len()
        invariant
            i <= j <= s@.len(),
            through_len(s@, i as int, stop) == (j - i) + through_len(s@, j as int, stop),
        decreases s@.len() - j,
    {
        if s[j] == stop {
            return j + 1;
        }
        j = j + 1;
    }
    j
}

/// Whether the keyword `word` stands at `i`, followed by a whitespace character.
fn keyword_here(s: &Vec<char>, i: usize, word: &Vec<char>) -> (r: bool)
    requires
        i <= s@.len(),
    ensures
        r == keyword_at(s@, i as int, word@),
{
    let n = s.len();
    if !matches_at(s, i, word) {
        return false;
    }
    let after = i + word.len();
    after < n && is_whitespace(s[after])
}

/// `o` with `m` added, if there is one.
pub open spec fn opt_add(o: Option<nat>, m: nat) -> Option<nat> {
    match o {
        Some(n) => Some(n + m),
        None => None,
    }
}

/// With one brace open before `k0`: the index just past the `}` that closes it.
fn close_brace(s: &Vec<char>, k0: usize) -> (r: Option<usize>)
    requires
        1 <= k0 <= s@.len(),
    ensures
        match brace_end(s@, k0 as int, 1) {
            Some(n) => r == Some((k0 + n) as usize) && k0 + n <= s@.len(),
            None => r is None,
        },
        r matches Some(e) ==> k0 < e <= s@.len(),
{
    let mut k: usize = k0;
    let mut d: usize = 1;
    let len = s.len();
    while k < len
        invariant
            len == s@.len(),
            1 <= k0 <= k <= s@.len(),
            1 <= d <= k - k0 + 1,
            brace_end(s@, k0 as int, 1) == opt_add(brace_end(s@, k as int, d as nat), (k - k0) as nat),
        decreases s@.len() - k,
    {
        let c = s[k];
        if c == '}' && d <= 1 {
            return Some(k + 1);
        }
        if c == '{' {
            d = d + 1;
        } else if c == '}' {
            d = d - 1;
        }
        k = k + 1;
    }
    None
}

/// The (name, body) pairs of the service blocks of `content`, in order.
pub fn parse_services(content: &str) -> (r: Vec<(String, String)>)
    ensures
        pairs_view(r@) == services_from(content@, 0),
{
    let s = chars_of(content);
    let kw: Vec<char> = vec!['s', 'e', 'r', 'v', 'i', 'c', 'e'];
    let mut out: Vec<(String, String)> = Vec::new();
    let mut i: usize = 0;
    let len = s.len();
    while i < len
        invariant
            len == s@.len(),
            s@ == content@,
            kw@ == service_kw(),
            i <= len,
            pairs_view(out@) + services_from(s@, i as int) == services_from(s@, 0),
        decreases len - i,
    {
        if !keyword_here(&s, i, &kw) {
            i = i + 1;
            continue;
        }
        if i > 0 && is_ident_char(s[i - 1]) {
            i = i + 7;
            continue;
        }
        let j = skip_whitespace(&s, i + 7);
        let ne = skip_ident(&s, j);
        if ne == j {
            i = i + 7;
            continue;
        }
        let k = skip_whitespace(&s, ne);
        if k >= len || s[k] != '{' {
            i = ne;
            continue;
        }
        match close_brace(&s, k + 1) {
            None => {
                assert(pairs_view(out@) + services_from(s@, i as int) =~= pairs_view(out@));
                return out;
            },
            Some(e) => {
                let ghost prev = pairs_view(out@);
                let ghost rest = services_from(s@, e as int);
                let name = string_of(slice_chars(&s, j, ne));
                let body = string_of(slice_chars(&s, k + 1, e - 1));
                let ghost x = (name@, body@);
                out.push((name, body));
                assert(pairs_view(out@) =~= prev.push(x));
                assert(prev.push(x) + rest =~= prev + (seq![x] + rest));
                i = e;
            },
        }
    }
    assert(pairs_view(out@) + services_from(s@, i as int) =~= pairs_view(out@));
    out
}

/// The method signatures of a service body, in declaration order.
pub fn parse_methods(body: &str) -> (r: Vec<ParsedMethod>)
    ensures
        methods_view(r@) == methods_from(body@, 0),
{
    let b = chars_of(body);
    let rpc: Vec<char> = vec!['r', 'p', 'c'];
    let stream: Vec<char> = vec!['s', 't', 'r', 'e', 'a', 'm'];
    let returns_word: Vec<char> = vec!['r', 'e', 't', 'u', 'r', 'n', 's'];
    let mut out: Vec<ParsedMethod> = Vec::new();
    let mut i: usize = 0;
    let len = b.len();
    while i < len
        invariant
            len == b@.len(),
            b@ == body@,
            rpc@ == rpc_kw(),
            stream@ == stream_kw(),
            returns_word@ == returns_kw(),
            i <= len,
            methods_view(out@) + methods_from(b@, i as int) == methods_from(b@, 0),
        decreases len - i,
    {
        if !keyword_here(&b, i, &rpc) {
            i = i + 1;
            continue;
        }
        let n0 = skip_whitespace(&b, i + 3);
        let n1 = skip_ident(&b, n0);
        if n1 == n0 {
            i = i + 4;
            continue;
        }
        let p = skip_whitespace(&b, n1);
        if p >= len || b[p] != '(' {
            i = p;
            continue;
        }
        let in_stream = keyword_here(&b, p + 1, &stream);
        let t0 = if in_stream { skip_whitespace(&b, p + 7) } else { p + 1 };
        let t1 = skip_ident(&b, t0);
        let q = skip_through(&b, t1, ')');
        let r0 = skip_whitespace(&b, q);
        if !matches_at(&b, r0, &returns_word) {
            i = r0;
            continue;
        }
        let r1 = skip_whitespace(&b, r0 + 7);
        if r1 >= len || b[r1] != '(' {
            i = r1;
            continue;
        }
        let out_stream = keyword_here(&b, r1 + 1, &stream);
        let u0 = if out_stream { skip_whitespace(&b, r1 + 7) } else { r1 + 1 };
        let u1 = skip_ident(&b, u0);
        let v = skip_through(&b, u1, ')');
        let w = skip_whitespace(&b, v);
        let e = if w < len && b[w] == '{' {
            match close_brace(&b, w + 1) {
                Some(e) => e,
                None => len,
            }
        } else {
            skip_through(&b, w, ';')
        };
        let ghost prev = methods_view(out@);
        let ghost rest = methods_from(b@, e as int);
        let m = ParsedMethod {
            name: string_of(slice_chars(&b, n0, n1)),
            input_type: string_of(slice_chars(&b, t0, t1)),
            output_type: string_of(slice_chars(&b, u0, u1)),
            streaming: in_stream || out_stream,
        };
        let ghost x = m@;
        out.push(m);
        assert(methods_view(out@) =~= prev.push(x));
        assert(prev.push(x) + rest =~= prev + (seq![x] + rest));
        i = e;
    }
    assert(methods_view(out@) + methods_from(b@, i as int) =~= methods_view(out@));
    out
}

} // verus!
