//! Scenarios: one combination of candidates, the request it materializes
//! into, and the response it expects.
use vstd::prelude::*;
use crate::combiner::{axes_view, combinations, combinations_of, ok_first, picks_view, sort_axis};
use crate::instructions::{RequestPart, OK};
use crate::mutation::{Mutation, MutationValue};
use crate::operation::{response_index, Endpoint};
use crate::request_param::RequestParam;

verus! {

/// A request to send: method, path, content type and query parameters.
#[derive(Debug)]
pub struct Request {
    pub method: String,
    pub path: String,
    pub content_type: String,
    pub query_params: Vec<RequestParam>,
}

/// A request as texts: method, path, content type, and the parameters.
pub type RequestView = (Seq<char>, Seq<char>, Seq<char>, Seq<(Seq<char>, Option<Seq<char>>)>);

impl View for Request {
    type V = RequestView;

    open spec fn view(&self) -> RequestView {
        (self.method@, self.path@, self.content_type@, self.query_params@.map_values(|p: RequestParam| p@))
    }
}

/// The request before any candidate applies.
pub open spec fn default_request() -> RequestView {
    ("get"@, ""@, "json"@, Seq::empty())
}

/// The request with one candidate applied: a facet value replaces the
/// method, path or content type; a parameter value is added to the query.
/// Leaving a parameter out adds nothing.
pub open spec fn apply(r: RequestView, m: Mutation) -> RequestView {
    match (m.mutagen.request_part, m.payload) {
        (RequestPart::ContentType, MutationValue::Value(v)) => (r.0, r.1, v@, r.3),
        (RequestPart::Method, MutationValue::Value(v)) => (v@, r.1, r.2, r.3),
        (RequestPart::Path, MutationValue::Value(v)) => (r.0, v@, r.2, r.3),
        (RequestPart::AnyParam, MutationValue::Param(p)) => (r.0, r.1, r.2, r.3.push(p@)),
        _ => r,
    }
}

/// The request that a list of candidates materializes into.
pub open spec fn request_of(ms: Seq<Mutation>) -> RequestView
    decreases ms.len(),
{
    if ms.len() == 0 {
        default_request()
    } else {
        apply(request_of(ms.drop_last()), ms.last())
    }
}

/// The query part: `?name=value&...` over the parameters that carry a
/// value, or nothing when none does.
pub open spec fn query_text(ps: Seq<(Seq<char>, Option<Seq<char>>)>) -> Seq<char>
    decreases ps.len(),
{
    if ps.len() == 0 {
        Seq::empty()
    } else {
        let prev = query_text(ps.drop_last());
        match ps.last().1 {
            None => prev,
            Some(v) => prev + (if prev.len() == 0 { seq!['?'] } else { seq!['&'] }) + ps.last().0 + seq!['='] + v,
        }
    }
}

impl Request {
    /// The request before any candidate applies.
    pub fn new() -> (r: Self)
        ensures
            r@ == default_request(),
    {
        let r = Request {
            method: String::from_str("get"),
            path: String::from_str(""),
            content_type: String::from_str("json"),
            query_params: Vec::new(),
        };
        proof {
            assert(r@ =~= default_request());
        }
        r
    }

    /// Sets the path.
    pub fn path(&mut self, new_path: String)
        ensures
            final(self)@ == (old(self)@.0, new_path@, old(self)@.2, old(self)@.3),
    {
        self.path = new_path;
    }

    /// Adds a query parameter.
    pub fn query_params(&mut self, param: RequestParam)
        ensures
            final(self)@ == (old(self)@.0, old(self)@.1, old(self)@.2, old(self)@.3.push(param@)),
    {
        self.query_params.push(param);
        proof {
            assert(final(self)@.3 =~= old(self)@.3.push(param@));
        }
    }

    /// Sets the content type.
    pub fn content_type(&mut self, content_type: String)
        ensures
            final(self)@ == (old(self)@.0, old(self)@.1, content_type@, old(self)@.3),
    {
        self.content_type = content_type;
    }

    /// Sets the method.
    pub fn method(&mut self, method: String)
        ensures
            final(self)@ == (method@, old(self)@.1, old(self)@.2, old(self)@.3),
    {
        self.method = method;
    }

    /// The path followed by the query part.
    pub fn path_and_query(&self) -> (r: String)
        ensures
            r@ == self.path@ + query_text(self@.3),
    {
        let mut query = String::new();
        let ghost ps = self@.3;
        let mut i: usize = 0;
        while i < self.query_params.len()
            invariant
                i <= self.query_params.len(),
                ps == self@.3,
                query@ == query_text(ps.subrange(0, i as int)),
            decreases self.query_params.len() - i,
        {
            let p = &self.query_params[i];
            proof {
                assert(ps.subrange(0, i + 1).drop_last() =~= ps.subrange(0, i as int));
                assert(ps.subrange(0, i + 1).last() == p@);
            }
            if let Some(v) = &p.value {
                let ghost prev = query@;
                if query.as_str().is_empty() {
                    query.append("?");
                } else {
                    query.append("&");
                }
                query.append(p.name.as_str());
                query.append("=");
                query.append(v.as_str());
                proof {
                    reveal_strlit("?");
                    reveal_strlit("&");
                    reveal_strlit("=");
                    assert(query@ =~= query_text(ps.subrange(0, i + 1)));
                }
            }
            i = i + 1;
        }
        proof {
            assert(ps.subrange(0, ps.len() as int) =~= ps);
        }
        let mut r = self.path.clone();
        r.append(query.as_str());
        r
    }
}

/// Builds the request of a list of candidates.
pub fn request_from_instructions(mutations: &Vec<Mutation>) -> (r: Request)
    ensures
        r@ == request_of(mutations@),
{
    let mut request = Request::new();
    let mut i: usize = 0;
    while i < mutations.len()
        invariant
            i <= mutations.len(),
            request@ == request_of(mutations@.subrange(0, i as int)),
        decreases mutations.len() - i,
    {
        let m = &mutations[i];
        proof {
            assert(mutations@.subrange(0, i + 1).drop_last() =~= mutations@.subrange(0, i as int));
        }
        let ghost before = request@;
        match (&m.mutagen.request_part, &m.payload) {
            (RequestPart::ContentType, MutationValue::Value(v)) => {
                request.content_type(v.clone());
            },
            (RequestPart::Method, MutationValue::Value(v)) => {
                request.method(v.clone());
            },
            (RequestPart::Path, MutationValue::Value(v)) => {
                request.path(v.clone());
            },
            (RequestPart::AnyParam, MutationValue::Param(p)) => {
                request.query_params(p.duplicate());
            },
            _ => {},
        }
        proof {
            assert(request@ =~= apply(before, mutations@[i as int]));
        }
        i = i + 1;
    }
    proof {
        assert(mutations@.subrange(0, mutations@.len() as int) =~= mutations@);
    }
    request
}

/// The status of the first candidate that expects a failure, else `200`.
pub open spec fn expected_status(ms: Seq<Mutation>) -> u16
    decreases ms.len(),
{
    if ms.len() == 0 {
        OK
    } else if ms[0].mutagen.expected != OK {
        ms[0].mutagen.expected
    } else {
        expected_status(ms.drop_first())
    }
}

/// The status a list of candidates expects.
pub fn expected_status_code(instructions: &Vec<Mutation>) -> (r: u16)
    ensures
        r == expected_status(instructions@),
{
    let mut i: usize = 0;
    assert(instructions@.subrange(0, instructions@.len() as int) =~= instructions@);
    while i < instructions.len()
        invariant
            i <= instructions.len(),
            expected_status(instructions@) == expected_status(instructions@.subrange(i as int, instructions@.len() as int)),
        decreases instructions.len() - i,
    {
        let ghost rest = instructions@.subrange(i as int, instructions@.len() as int);
        if instructions[i].mutagen.expected != OK {
            assert(rest[0] == instructions@[i as int]);
            return instructions[i].mutagen.expected;
        }
        proof {
            assert(rest.drop_first() =~= instructions@.subrange(i + 1, instructions@.len() as int));
        }
        i = i + 1;
    }
    OK
}

/// What a scenario expects of the response.
#[derive(Debug)]
pub struct ScenarioExpectation<'a> {
    pub status_code: u16,
    /// The documented response for that status, if any.
    pub body: Option<&'a crate::operation::ResponseSpec>,
    pub content_type: String,
}

/// A generated scenario.
#[derive(Debug)]
pub struct Scenario<'a> {
    /// The candidates the scenario was built from, one per axis.
    pub instructions: Vec<Mutation>,
    pub request: Request,
    pub expectation: ScenarioExpectation<'a>,
}

impl<'a> Scenario<'a> {
    /// The request of the scenario.
    pub fn request(&self) -> (r: &Request)
        ensures
            r == &self.request,
    {
        &self.request
    }

    /// The expectations of the scenario.
    pub fn expectation(&self) -> (r: &ScenarioExpectation<'a>)
        ensures
            r == &self.expectation,
    {
        &self.expectation
    }
}

/// The candidates one combination chooses: on each axis, the chosen one.
pub open spec fn chosen(axes: Seq<Seq<Mutation>>, c: Seq<int>) -> Seq<Mutation> {
    Seq::new(axes.len(), |i: int| axes[i][c[i]])
}

/// The axes with passing candidates first.
pub open spec fn sorted_axes(axes: Seq<Seq<Mutation>>) -> Seq<Seq<Mutation>> {
    axes.map_values(|a: Seq<Mutation>| ok_first(a))
}

/// The candidate lists of the scenarios for the given axes: the
/// combinations of the sorted axes, keeping, unless every status code is
/// wanted, only those that expect success.
pub open spec fn scenario_plan(axes: Seq<Seq<Mutation>>, all_codes: bool) -> Seq<Seq<Mutation>> {
    let sorted = sorted_axes(axes);
    combinations_of(sorted).map_values(|c: Seq<int>| chosen(sorted, c))
        .filter(|ms: Seq<Mutation>| all_codes || expected_status(ms) == OK)
}

/// A scenario is the candidate list `ms` of the endpoint: its request, its
/// expected status, and the documented response for that status.
pub open spec fn scenario_matches(s: Scenario, e: Endpoint, ms: Seq<Mutation>) -> bool {
    &&& s.instructions@ == ms
    &&& s.request@ == request_of(ms)
    &&& s.expectation.status_code == expected_status(ms)
    &&& s.expectation.content_type@ == "application/json"@
    &&& match response_index(e.method.responses@, expected_status(ms)) {
        None => s.expectation.body is None,
        Some(i) => s.expectation.body == Some(&e.method.responses@[i]),
    }
}

/// The scenarios are, one for one and in order, the planned candidate lists.
pub open spec fn scenarios_follow(ss: Seq<Scenario>, e: Endpoint, plan: Seq<Seq<Mutation>>) -> bool {
    &&& ss.len() == plan.len()
    &&& forall|k: int| 0 <= k < ss.len() ==> scenario_matches(#[trigger] ss[k], e, plan[k])
}

} // verus!

verus! {

fn sort_axes(axes: Vec<Vec<Mutation>>) -> (r: Vec<Vec<Mutation>>)
    ensures
        axes_view(r@) == sorted_axes(axes_view(axes@)),
{
    let ghost all = axes_view(axes@);
    let mut rest = axes;
    let mut r: Vec<Vec<Mutation>> = Vec::new();
    let total = rest.len();
    let mut k: usize = 0;
    while rest.len() > 0
        invariant
            k <= total,
            all.len() == total,
            axes_view(rest@) == all.subrange(k as int, total as int),
            axes_view(r@) == sorted_axes(all.subrange(0, k as int)),
        decreases rest@.len(),
    {
        let ghost rv = axes_view(rest@);
        let a = rest.remove(0);
        proof {
            assert(rv[0] == a@);
            assert(axes_view(rest@) =~= rv.drop_first());
            assert(all[k as int] == a@);
        }
        let ghost before = axes_view(r@);
        let s = sort_axis(a);
        r.push(s);
        proof {
            assert(axes_view(r@) =~= before.push(s@));
            assert(sorted_axes(all.subrange(0, k + 1)) =~= sorted_axes(all.subrange(0, k as int)).push(ok_first(all[k as int])));
        }
        k = k + 1;
    }
    proof {
        assert(all.subrange(0, k as int) =~= all);
    }
    r
}

fn pick_candidates(axes: &Vec<Vec<Mutation>>, c: &Vec<usize>) -> (r: Vec<Mutation>)
    requires
        crate::combiner::valid_combination(axes_view(axes@), picks_view(*c)),
    ensures
        r@ == chosen(axes_view(axes@), picks_view(*c)),
{
    let mut r: Vec<Mutation> = Vec::new();
    let mut i: usize = 0;
    while i < axes.len()
        invariant
            i <= axes.len(),
            crate::combiner::valid_combination(axes_view(axes@), picks_view(*c)),
            r@ == chosen(axes_view(axes@), picks_view(*c)).subrange(0, i as int),
        decreases axes.len() - i,
    {
        proof {
            assert(picks_view(*c)[i as int] == c@[i as int] as int);
            assert(axes_view(axes@)[i as int] == axes@[i as int]@);
        }
        let m = axes[i][c[i]].duplicate();
        r.push(m);
        i = i + 1;
        proof {
            assert(r@ =~= chosen(axes_view(axes@), picks_view(*c)).subrange(0, i as int));
        }
    }
    proof {
        assert(chosen(axes_view(axes@), picks_view(*c)).subrange(0, i as int) =~= chosen(axes_view(axes@), picks_view(*c)));
    }
    r
}

/// The scenarios of an endpoint from its axes: each axis sorted with its
/// passing candidates first, then one scenario per combination (see
/// [`combinations`]), each with its request, its expected status and the
/// documented response for that status. Unless every status code is
/// wanted, only the scenarios that expect success are kept.
pub fn scenarios_from_mutations<'a>(endpoint: &'a Endpoint, axes: Vec<Vec<Mutation>>, all_codes: bool) -> (r: Vec<Scenario<'a>>)
    ensures
        scenarios_follow(r@, *endpoint, scenario_plan(axes_view(axes@), all_codes)),
{
    let ghost av = axes_view(axes@);
    let sorted = sort_axes(axes);
    let ghost sv = axes_view(sorted@);
    let combos = combinations(&sorted);
    let ghost cs = combinations_of(sv);
    let ghost mapped = cs.map_values(|c: Seq<int>| chosen(sv, c));
    let ghost pred = |ms: Seq<Mutation>| all_codes || expected_status(ms) == OK;
    let mut r: Vec<Scenario<'a>> = Vec::new();
    let mut k: usize = 0;
    proof {
        assert(combos@.map_values(|c: Vec<usize>| picks_view(c)).len() == combos@.len());
    }
    while k < combos.len()
        invariant
            k <= combos.len(),
            sv == axes_view(sorted@),
            cs == combinations_of(sv),
            combos@.map_values(|c: Vec<usize>| picks_view(c)) == cs,
            mapped == cs.map_values(|c: Seq<int>| chosen(sv, c)),
            pred == (|ms: Seq<Mutation>| all_codes || expected_status(ms) == OK),
            scenarios_follow(r@, *endpoint, mapped.subrange(0, k as int).filter(pred)),
        decreases combos.len() - k,
    {
        proof {
            assert(cs[k as int] == picks_view(combos@[k as int]));
            crate::combiner::lemma_combinations_valid(sv, k as int);
        }
        let ms = pick_candidates(&sorted, &combos[k]);
        let status = expected_status_code(&ms);
        let ghost s1 = mapped.subrange(0, k + 1);
        proof {
            reveal(Seq::filter);
            assert(s1.drop_last() =~= mapped.subrange(0, k as int));
            assert(s1.last() == ms@);
        }
        let ghost before = r@;
        if all_codes || status == OK {
            let request = request_from_instructions(&ms);
            let body = endpoint.method.response(status);
            let expectation = ScenarioExpectation {
                status_code: status,
                body,
                content_type: String::from_str("application/json"),
            };
            r.push(Scenario { instructions: ms, request, expectation });
            proof {
                assert(s1.filter(pred) == mapped.subrange(0, k as int).filter(pred).push(ms@));
                assert forall|a: int| 0 <= a < r@.len() implies scenario_matches(#[trigger] r@[a], *endpoint, s1.filter(pred)[a]) by {
                    if a < before.len() {
                        assert(r@[a] == before[a]);
                    }
                }
            }
        } else {
            proof {
                assert(s1.filter(pred) == mapped.subrange(0, k as int).filter(pred));
            }
        }
        k = k + 1;
    }
    proof {
        assert(mapped.subrange(0, k as int) =~= mapped);
        assert(sv == sorted_axes(av));
    }
    r
}

} // verus!
