//! General properties of the model and the rendering, stated and
//! proved once for all inputs.

use vstd::prelude::*;

use crate::model::has_param;
use crate::model::insert_param;
use crate::model::lemma_insert_param_absent;
use crate::model::lemma_insert_param_found;
use crate::model::params_wf;
use crate::model::UrlParts;
use crate::render::dec_digits;
use crate::render::param_chunk;
use crate::render::params_text;
use crate::render::port_text;
use crate::render::query_text;
use crate::render::render_url;
use crate::render::route_text;
use crate::render::scheme_sep;

verus! {

/// With no port, no routes and no parameters, the rendered URL is
/// exactly the protocol, `://`, and the host.
pub proof fn lemma_render_protocol_host(p: Seq<char>, h: Seq<char>)
    ensures
        render_url(
            (UrlParts {
                protocol: p,
                host: h,
                port: 0,
                routes: Seq::empty(),
                params: Seq::empty(),
            }),
        ) == p + scheme_sep() + h,
{
    let v = UrlParts { protocol: p, host: h, port: 0, routes: Seq::empty(), params: Seq::empty() };
    assert(render_url(v) =~= p + scheme_sep() + h);
}

/// A nonzero port appears as `:` and its decimal numeral immediately
/// after the host, before any path or query text.
pub proof fn lemma_nonzero_port_after_host(v: UrlParts)
    requires
        v.port != 0,
    ensures
        render_url(v) == v.protocol + scheme_sep() + v.host + seq![':'] + dec_digits(
            v.port as nat,
        ) + route_text(v.routes) + query_text(v.params),
{
    assert(render_url(v) =~= v.protocol + scheme_sep() + v.host + seq![':'] + dec_digits(
        v.port as nat,
    ) + route_text(v.routes) + query_text(v.params));
}

/// Port 0 leaves the port segment out altogether: the rendered URL
/// goes straight from the host to the path and query text, exactly as
/// for a builder whose port was never set.
pub proof fn lemma_zero_port_omitted(v: UrlParts)
    requires
        v.port == 0,
    ensures
        render_url(v) == v.protocol + scheme_sep() + v.host + route_text(v.routes) + query_text(
            v.params,
        ),
{
    assert(render_url(v) =~= v.protocol + scheme_sep() + v.host + route_text(v.routes)
        + query_text(v.params));
}

/// Appending one route extends the rendered path by `/` and that
/// segment, after everything added before it.
pub proof fn lemma_route_append(rs: Seq<Seq<char>>, r: Seq<char>)
    ensures
        route_text(rs.push(r)) == route_text(rs) + seq!['/'] + r,
{
    assert(rs.push(r).drop_last() =~= rs);
}

/// The rendered path is exactly the segments in the order they were
/// added, each preceded by one `/` and nothing else.
pub proof fn lemma_route_text_in_order(rs: Seq<Seq<char>>)
    ensures
        route_text(rs) == rs.map_values(|r: Seq<char>| seq!['/'] + r).flatten(),
    decreases rs.len(),
{
    let mapped = rs.map_values(|r: Seq<char>| seq!['/'] + r);
    mapped.lemma_flatten_and_flatten_alt_are_equivalent();
    if rs.len() == 0 {
        assert(mapped.flatten_alt() =~= Seq::<char>::empty());
    } else {
        lemma_route_text_in_order(rs.drop_last());
        let mapped_prefix = rs.drop_last().map_values(|r: Seq<char>| seq!['/'] + r);
        assert(mapped.drop_last() =~= mapped_prefix);
        mapped_prefix.lemma_flatten_and_flatten_alt_are_equivalent();
        assert(route_text(rs) =~= mapped.flatten_alt());
    }
}

/// The rendered parameter text is exactly one `name=value&` chunk per
/// pair, in the order held, and nothing else.
pub proof fn lemma_params_text_is_chunks(ps: Seq<(Seq<char>, Seq<char>)>)
    ensures
        params_text(ps) == ps.map_values(|p: (Seq<char>, Seq<char>)| param_chunk(p)).flatten(),
    decreases ps.len(),
{
    let mapped = ps.map_values(|p: (Seq<char>, Seq<char>)| param_chunk(p));
    mapped.lemma_flatten_and_flatten_alt_are_equivalent();
    if ps.len() == 0 {
        assert(mapped.flatten_alt() =~= Seq::<char>::empty());
    } else {
        lemma_params_text_is_chunks(ps.drop_last());
        let mapped_prefix = ps.drop_last().map_values(|p: (Seq<char>, Seq<char>)| param_chunk(p));
        assert(mapped.drop_last() =~= mapped_prefix);
        mapped_prefix.lemma_flatten_and_flatten_alt_are_equivalent();
        assert(params_text(ps) =~= mapped.flatten_alt());
    }
}

/// A nonempty parameter list renders to text that ends in `&`.
proof fn lemma_params_text_ends_amp(ps: Seq<(Seq<char>, Seq<char>)>)
    requires
        ps.len() > 0,
    ensures
        params_text(ps).len() > 0,
        params_text(ps).last() == '&',
{
    assert(param_chunk(ps.last()).last() == '&');
}

/// The position in `params_text` where the chunk for the parameter at
/// index `i` stands: the text there spells `name=value&`, and what
/// comes right before it, if anything, ends in `&`.
proof fn lemma_chunk_in_params_text(ps: Seq<(Seq<char>, Seq<char>)>, i: int) -> (k: int)
    requires
        0 <= i < ps.len(),
    ensures
        0 <= k,
        k + param_chunk(ps[i]).len() <= params_text(ps).len(),
        params_text(ps).subrange(k, k + param_chunk(ps[i]).len() as int) == param_chunk(ps[i]),
        k == 0 || params_text(ps)[k - 1] == '&',
    decreases ps.len(),
{
    let chunk = param_chunk(ps[i]);
    let l = chunk.len() as int;
    if i == ps.len() - 1 {
        let k = params_text(ps.drop_last()).len() as int;
        assert(params_text(ps).subrange(k, k + l) =~= chunk);
        if k > 0 {
            lemma_params_text_ends_amp(ps.drop_last());
            assert(params_text(ps)[k - 1] == params_text(ps.drop_last()).last());
        }
        k
    } else {
        let k = lemma_chunk_in_params_text(ps.drop_last(), i);
        assert(ps.drop_last()[i] == ps[i]);
        assert(params_text(ps).subrange(k, k + l) =~= params_text(ps.drop_last()).subrange(
            k,
            k + l,
        ));
        k
    }
}

/// A nonempty query string begins with `?` and ends with `&`.
pub proof fn lemma_query_marks(ps: Seq<(Seq<char>, Seq<char>)>)
    requires
        ps.len() > 0,
    ensures
        query_text(ps).len() > 1,
        query_text(ps)[0] == '?',
        query_text(ps).last() == '&',
{
    lemma_params_text_ends_amp(ps);
    assert(query_text(ps).last() == params_text(ps).last());
}

/// Every parameter pair appears in the rendered URL as `name=value&`
/// — the `&` after the last pair included — and what stands right
/// before the pair is the `?` that opens the query string or the `&`
/// that closes another pair. The returned value is the position where
/// the pair's text starts.
pub proof fn lemma_param_appears(v: UrlParts, i: int) -> (k: int)
    requires
        0 <= i < v.params.len(),
    ensures
        1 <= k,
        k + param_chunk(v.params[i]).len() <= render_url(v).len(),
        render_url(v).subrange(k, k + param_chunk(v.params[i]).len() as int) == param_chunk(
            v.params[i],
        ),
        render_url(v)[k - 1] == '?' || render_url(v)[k - 1] == '&',
        render_url(v).last() == '&',
{
    let base = v.protocol + scheme_sep() + v.host + port_text(v.port) + route_text(v.routes);
    let chunk = param_chunk(v.params[i]);
    let l = chunk.len() as int;
    let kq = lemma_chunk_in_params_text(v.params, i);
    let k = base.len() as int + 1 + kq;
    assert(render_url(v) =~= base + seq!['?'] + params_text(v.params));
    assert(render_url(v).subrange(k, k + l) =~= params_text(v.params).subrange(kq, kq + l));
    if kq == 0 {
        assert(render_url(v)[k - 1] == '?');
    } else {
        assert(render_url(v)[k - 1] == params_text(v.params)[kq - 1]);
    }
    lemma_params_text_ends_amp(v.params);
    assert(render_url(v).last() == params_text(v.params).last());
    k
}

/// Writing the same name twice keeps only the later value: a second
/// insertion for `name` makes the first as if it had never happened.
pub proof fn lemma_last_value_wins(
    ps: Seq<(Seq<char>, Seq<char>)>,
    name: Seq<char>,
    v1: Seq<char>,
    v2: Seq<char>,
)
    ensures
        insert_param(insert_param(ps, name, v1), name, v2) == insert_param(ps, name, v2),
    decreases ps.len(),
{
    if ps.len() == 0 {
        assert(insert_param(insert_param(ps, name, v1), name, v2) =~= insert_param(
            ps,
            name,
            v2,
        ));
    } else if ps[0].0 == name {
        let once = insert_param(ps, name, v1);
        assert(once.drop_first() =~= ps.drop_first());
        assert(insert_param(insert_param(ps, name, v1), name, v2) =~= insert_param(
            ps,
            name,
            v2,
        ));
    } else {
        let inner = insert_param(ps.drop_first(), name, v1);
        lemma_last_value_wins(ps.drop_first(), name, v1, v2);
        assert((seq![ps[0]] + inner).drop_first() =~= inner);
        assert(insert_param(insert_param(ps, name, v1), name, v2) =~= insert_param(
            ps,
            name,
            v2,
        ));
    }
}

/// Insertion keeps parameter names unique: a list without repeated
/// names still has none after any insertion.
pub proof fn lemma_insert_param_wf(
    ps: Seq<(Seq<char>, Seq<char>)>,
    name: Seq<char>,
    value: Seq<char>,
)
    requires
        params_wf(ps),
    ensures
        params_wf(insert_param(ps, name, value)),
{
    if has_param(ps, name) {
        let k = choose|k: int| 0 <= k < ps.len() && ps[k].0 == name;
        assert(forall|j: int| 0 <= j < k ==> ps[j].0 != name);
        lemma_insert_param_found(ps, name, value, k);
        let r = insert_param(ps, name, value);
        assert(forall|m: int| 0 <= m < r.len() ==> r[m].0 == ps[m].0);
    } else {
        assert(forall|j: int| 0 <= j < ps.len() ==> ps[j].0 != name);
        lemma_insert_param_absent(ps, name, value);
    }
}

} // verus!
