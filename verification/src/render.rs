//! What the rendered URL spells, character by character: one spec
//! function per segment of the output, and one for the whole string.

use vstd::prelude::*;

use crate::model::UrlParts;

verus! {

/// The three characters `://` that stand between protocol and host.
pub open spec fn scheme_sep() -> Seq<char> {
    seq![':', '/', '/']
}

/// The character spelling a single decimal digit `d` (for `d < 10`).
pub open spec fn digit_char(d: nat) -> char {
    if d == 0 {
        '0'
    } else if d == 1 {
        '1'
    } else if d == 2 {
        '2'
    } else if d == 3 {
        '3'
    } else if d == 4 {
        '4'
    } else if d == 5 {
        '5'
    } else if d == 6 {
        '6'
    } else if d == 7 {
        '7'
    } else if d == 8 {
        '8'
    } else {
        '9'
    }
}

/// The decimal numeral for `n`, most significant digit first, with no
/// leading zeros (`0` itself is the single digit `0`).
pub open spec fn dec_digits(n: nat) -> Seq<char>
    decreases n,
{
    if n < 10 {
        seq![digit_char(n)]
    } else {
        dec_digits(n / 10).push(digit_char(n % 10))
    }
}

/// The port segment: nothing for the sentinel 0, otherwise `:`
/// followed by the decimal numeral.
pub open spec fn port_text(port: u16) -> Seq<char> {
    if port == 0 {
        Seq::empty()
    } else {
        seq![':'] + dec_digits(port as nat)
    }
}

/// The path: every segment in the order it was added, each preceded by
/// one `/`.
pub open spec fn route_text(routes: Seq<Seq<char>>) -> Seq<char>
    decreases routes.len(),
{
    if routes.len() == 0 {
        Seq::empty()
    } else {
        route_text(routes.drop_last()) + seq!['/'] + routes.last()
    }
}

/// One rendered query parameter: `name=value&`, with the `&` after
/// every pair, the last included.
pub open spec fn param_chunk(p: (Seq<char>, Seq<char>)) -> Seq<char> {
    p.0 + seq!['='] + p.1 + seq!['&']
}

/// All query parameters, one chunk after another, in the order held.
pub open spec fn params_text(ps: Seq<(Seq<char>, Seq<char>)>) -> Seq<char>
    decreases ps.len(),
{
    if ps.len() == 0 {
        Seq::empty()
    } else {
        params_text(ps.drop_last()) + param_chunk(ps.last())
    }
}

/// The query string: empty when no parameter was added, otherwise `?`
/// followed by every `name=value&` chunk.
pub open spec fn query_text(ps: Seq<(Seq<char>, Seq<char>)>) -> Seq<char> {
    if ps.len() == 0 {
        Seq::empty()
    } else {
        seq!['?'] + params_text(ps)
    }
}

/// The whole rendered URL: protocol, `://`, host, the port segment,
/// the path, and the query string, in that order.
pub open spec fn render_url(v: UrlParts) -> Seq<char> {
    v.protocol + scheme_sep() + v.host + port_text(v.port) + route_text(v.routes) + query_text(
        v.params,
    )
}

} // verus!
