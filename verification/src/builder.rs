//! The builder: accumulates URL parts through chainable setters and
//! renders them on `build`.

use vstd::prelude::*;
use vstd::string::StringExecFns;

use crate::digits::decimal_string;
use crate::model::insert_param;
use crate::model::lemma_insert_param_absent;
use crate::model::lemma_insert_param_found;
use crate::model::UrlParts;
use crate::render::port_text;
use crate::render::params_text;
use crate::render::render_url;
use crate::render::route_text;
use crate::render::scheme_sep;

verus! {

/// An accumulator for the parts of a URL.
///
/// Created empty, filled through chainable setter calls, and consumed
/// by [`URLBuilder::build`], which renders the accumulated state as a
/// string. Its view is a [`UrlParts`] record; every method's contract
/// is stated over that view.
///
/// Query parameters are held in the order their names were first
/// added; a later value for the same name replaces the earlier one in
/// place, so the rendering of a given builder state is deterministic.
pub struct URLBuilder {
    protocol: String,
    host: String,
    port: u16,
    params: Vec<(String, String)>,
    routes: Vec<String>,
}

impl View for URLBuilder {
    type V = UrlParts;

    closed spec fn view(&self) -> UrlParts {
        UrlParts {
            protocol: self.protocol@,
            host: self.host@,
            port: self.port,
            routes: self.routes@.map_values(|r: String| r@),
            params: self.params@.map_values(|p: (String, String)| (p.0@, p.1@)),
        }
    }
}

impl URLBuilder {
    /// Creates a builder with every part empty and the port at its
    /// "no port" sentinel 0.
    pub fn new() -> (r: URLBuilder)
        ensures
            r@ == UrlParts::empty(),
    {
        let r = URLBuilder {
            protocol: String::new(),
            host: String::new(),
            port: 0,
            params: Vec::new(),
            routes: Vec::new(),
        };
        proof {
            assert(r@ =~= UrlParts::empty());
        }
        r
    }

    /// Replaces the protocol, unconditionally; returns the builder for
    /// chaining.
    pub fn set_protocol(&mut self, protocol: &str) -> (ret: &mut Self)
        ensures
            (*ret)@ == (UrlParts { protocol: protocol@, ..old(self)@ }),
            *final(self) == *final(ret),
    {
        self.protocol = protocol.to_owned();
        proof {
            assert(self@ =~= (UrlParts { protocol: protocol@, ..old(self)@ }));
        }
        self
    }

    /// Replaces the host, unconditionally; returns the builder for
    /// chaining.
    pub fn set_host(&mut self, host: &str) -> (ret: &mut Self)
        ensures
            (*ret)@ == (UrlParts { host: host@, ..old(self)@ }),
            *final(self) == *final(ret),
    {
        self.host = host.to_owned();
        proof {
            assert(self@ =~= (UrlParts { host: host@, ..old(self)@ }));
        }
        self
    }

    /// Replaces the port; 0 means the port segment is left out of the
    /// rendered URL. Returns the builder for chaining.
    pub fn set_port(&mut self, port: u16) -> (ret: &mut Self)
        ensures
            (*ret)@ == (UrlParts { port: port, ..old(self)@ }),
            *final(self) == *final(ret),
    {
        self.port = port;
        proof {
            assert(self@ =~= (UrlParts { port: port, ..old(self)@ }));
        }
        self
    }

    /// Appends one path segment; segments render in the order added.
    /// Returns the builder for chaining.
    pub fn add_route(&mut self, route: &str) -> (ret: &mut Self)
        ensures
            (*ret)@ == (UrlParts { routes: old(self)@.routes.push(route@), ..old(self)@ }),
            *final(self) == *final(ret),
    {
        self.routes.push(route.to_owned());
        proof {
            assert(self@ =~= (UrlParts { routes: old(self)@.routes.push(route@), ..old(self)@ }));
        }
        self
    }

    /// Inserts or overwrites the value for `param`: the last value
    /// written for a name wins. Returns the builder for chaining.
    pub fn add_param(&mut self, param: &str, value: &str) -> (ret: &mut Self)
        ensures
            (*ret)@ == (UrlParts {
                params: insert_param(old(self)@.params, param@, value@),
                ..old(self)@
            }),
            *final(self) == *final(ret),
    {
        let name = param.to_owned();
        let val = value.to_owned();
        let ghost ps = self@.params;
        let n = self.params.len();
        let mut i: usize = 0;
        while i < n
            invariant
                n == self.params.len(),
                i <= n,
                *self == *old(self),
                name@ == param@,
                val@ == value@,
                ps == self@.params,
                forall|j: int| 0 <= j < i ==> ps[j].0 != param@,
            decreases n - i,
        {
            if self.params[i].0 == name {
                proof {
                    lemma_insert_param_found(ps, param@, value@, i as int);
                }
                self.params[i] = (name, val);
                proof {
                    assert(self@.params =~= ps.update(i as int, (param@, value@)));
                    assert(self@ =~= (UrlParts {
                        params: insert_param(old(self)@.params, param@, value@),
                        ..old(self)@
                    }));
                }
                return self;
            }
            i = i + 1;
        }
        proof {
            lemma_insert_param_absent(ps, param@, value@);
        }
        self.params.push((name, val));
        proof {
            assert(self@.params =~= ps.push((param@, value@)));
            assert(self@ =~= (UrlParts {
                params: insert_param(old(self)@.params, param@, value@),
                ..old(self)@
            }));
        }
        self
    }

    /// The port currently set (0 when none is).
    pub fn port(&self) -> (r: u16)
        ensures
            r == self@.port,
    {
        self.port
    }

    /// The host currently set.
    pub fn host(&self) -> (r: &str)
        ensures
            r@ == self@.host,
    {
        self.host.as_str()
    }

    /// The protocol currently set.
    pub fn protocol(&self) -> (r: &str)
        ensures
            r@ == self@.protocol,
    {
        self.protocol.as_str()
    }

    /// Consumes the builder and renders the accumulated parts: the
    /// returned string spells exactly `render_url` of the builder's
    /// view.
    pub fn build(self) -> (r: String)
        ensures
            r@ == render_url(self@),
    {
        let ghost v: UrlParts = self@;
        let mut out = String::new();
        out.append(self.protocol.as_str());
        out.append("://");
        proof {
            reveal_strlit("://");
            assert(out@ =~= v.protocol + scheme_sep());
        }
        out.append(self.host.as_str());
        if self.port != 0 {
            out.append(":");
            let ptext = decimal_string(self.port);
            out.append(ptext.as_str());
            proof {
                reveal_strlit(":");
                assert(out@ =~= v.protocol + scheme_sep() + v.host + port_text(v.port));
            }
        }
        proof {
            assert(out@ =~= v.protocol + scheme_sep() + v.host + port_text(v.port));
        }
        let nroutes = self.routes.len();
        let mut i: usize = 0;
        while i < nroutes
            invariant
                nroutes == self.routes.len(),
                i <= nroutes,
                v == self@,
                out@ == v.protocol + scheme_sep() + v.host + port_text(v.port) + route_text(
                    v.routes.take(i as int),
                ),
            decreases nroutes - i,
        {
            out.append("/");
            out.append(self.routes[i].as_str());
            proof {
                reveal_strlit("/");
                assert(v.routes.take(i as int + 1).drop_last() =~= v.routes.take(i as int));
                assert(out@ =~= v.protocol + scheme_sep() + v.host + port_text(v.port)
                    + route_text(v.routes.take(i as int + 1)));
            }
            i = i + 1;
        }
        proof {
            assert(v.routes.take(nroutes as int) =~= v.routes);
            assert(out@ =~= v.protocol + scheme_sep() + v.host + port_text(v.port) + route_text(
                v.routes,
            ));
        }
        let nparams = self.params.len();
        if nparams > 0 {
            out.append("?");
            proof {
                reveal_strlit("?");
            }
            let mut j: usize = 0;
            while j < nparams
                invariant
                    nparams == self.params.len(),
                    j <= nparams,
                    v == self@,
                    out@ == v.protocol + scheme_sep() + v.host + port_text(v.port) + route_text(
                        v.routes,
                    ) + seq!['?'] + params_text(v.params.take(j as int)),
                decreases nparams - j,
            {
                out.append(self.params[j].0.as_str());
                out.append("=");
                out.append(self.params[j].1.as_str());
                out.append("&");
                proof {
                    reveal_strlit("=");
                    reveal_strlit("&");
                    assert(v.params.take(j as int + 1).drop_last() =~= v.params.take(j as int));
                    assert(out@ =~= v.protocol + scheme_sep() + v.host + port_text(v.port)
                        + route_text(v.routes) + seq!['?'] + params_text(
                        v.params.take(j as int + 1),
                    ));
                }
                j = j + 1;
            }
            proof {
                assert(v.params.take(nparams as int) =~= v.params);
                assert(out@ =~= render_url(v));
            }
        } else {
            proof {
                assert(v.params.len() == 0);
                assert(out@ =~= render_url(v));
            }
        }
        out
    }
}

impl Default for URLBuilder {
    /// The same empty state as [`URLBuilder::new`].
    fn default() -> (r: URLBuilder)
        ensures
            r@ == UrlParts::empty(),
    {
        URLBuilder::new()
    }
}

} // verus!
