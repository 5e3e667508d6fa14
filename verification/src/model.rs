//! The mathematical view of a builder: a ghost record of the pieces it
//! has accumulated, and the insertion rule for query parameters.

use vstd::prelude::*;

verus! {

/// The accumulated parts of a URL, as mathematical values: character
/// sequences for the textual parts, the port number (0 meaning "no
/// port"), the path segments in the order they were added, and the
/// query parameters as name/value pairs in first-insertion order.
#[verifier::ext_equal]
pub ghost struct UrlParts {
    pub protocol: Seq<char>,
    pub host: Seq<char>,
    pub port: u16,
    pub routes: Seq<Seq<char>>,
    pub params: Seq<(Seq<char>, Seq<char>)>,
}

impl UrlParts {
    /// The state of a freshly created builder: all parts empty, port 0.
    pub open spec fn empty() -> UrlParts {
        UrlParts {
            protocol: Seq::empty(),
            host: Seq::empty(),
            port: 0,
            routes: Seq::empty(),
            params: Seq::empty(),
        }
    }
}

/// True when no parameter name occurs twice.
pub open spec fn params_wf(ps: Seq<(Seq<char>, Seq<char>)>) -> bool {
    forall|i: int, j: int| 0 <= i < j < ps.len() ==> ps[i].0 != ps[j].0
}

/// True when some pair in `ps` carries the name `name`.
pub open spec fn has_param(ps: Seq<(Seq<char>, Seq<char>)>, name: Seq<char>) -> bool {
    exists|i: int| 0 <= i < ps.len() && ps[i].0 == name
}

/// Inserting a parameter: the first pair with the same name, if any,
/// has its value replaced in place; otherwise the new pair goes to the
/// end.
pub open spec fn insert_param(
    ps: Seq<(Seq<char>, Seq<char>)>,
    name: Seq<char>,
    value: Seq<char>,
) -> Seq<(Seq<char>, Seq<char>)>
    decreases ps.len(),
{
    if ps.len() == 0 {
        seq![(name, value)]
    } else if ps[0].0 == name {
        seq![(name, value)] + ps.drop_first()
    } else {
        seq![ps[0]] + insert_param(ps.drop_first(), name, value)
    }
}

/// When `name` first occurs at index `k`, inserting replaces exactly
/// that entry.
pub proof fn lemma_insert_param_found(
    ps: Seq<(Seq<char>, Seq<char>)>,
    name: Seq<char>,
    value: Seq<char>,
    k: int,
)
    requires
        0 <= k < ps.len(),
        ps[k].0 == name,
        forall|j: int| 0 <= j < k ==> ps[j].0 != name,
    ensures
        insert_param(ps, name, value) == ps.update(k, (name, value)),
    decreases ps.len(),
{
    if k == 0 {
        assert(insert_param(ps, name, value) =~= ps.update(0, (name, value)));
    } else {
        assert(ps.drop_first()[k - 1].0 == name);
        assert(forall|j: int| 0 <= j < k - 1 ==> ps.drop_first()[j].0 != name);
        lemma_insert_param_found(ps.drop_first(), name, value, k - 1);
        assert(insert_param(ps, name, value) =~= ps.update(k, (name, value)));
    }
}

/// When `name` occurs nowhere in `ps`, inserting appends the new pair.
pub proof fn lemma_insert_param_absent(
    ps: Seq<(Seq<char>, Seq<char>)>,
    name: Seq<char>,
    value: Seq<char>,
)
    requires
        forall|j: int| 0 <= j < ps.len() ==> ps[j].0 != name,
    ensures
        insert_param(ps, name, value) == ps.push((name, value)),
    decreases ps.len(),
{
    if ps.len() == 0 {
        assert(insert_param(ps, name, value) =~= ps.push((name, value)));
    } else {
        assert(forall|j: int| 0 <= j < ps.drop_first().len() ==> ps.drop_first()[j].0 != name);
        lemma_insert_param_absent(ps.drop_first(), name, value);
        assert(insert_param(ps, name, value) =~= ps.push((name, value)));
    }
}

} // verus!
