//! The mutator: builds every axis of an endpoint (path, method, content
//! type, and one per query parameter) and combines them into scenarios.
use vstd::prelude::*;
use crate::combiner::axes_view;
use crate::instructions::{instr, mutagens, Mutagen, MutagenInstruction, RequestPart, NOT_FOUND, OK};
use crate::known_param::{chosen_entry, known_path, valid_picks, values_for, ConversionView, Conversions, EntryView};
use crate::mutation::{follows, mutate, param_plan, Mutation, MutationValue, ParamLocation, ParameterDescriptor};
use crate::operation::{method_name, templated, Endpoint};
use crate::patterns::{regex_replace_all, regex_replaced};
use crate::request_param::opt_view;
use crate::scenario::{scenario_plan, scenarios_follow, scenarios_from_mutations, Scenario};

verus! {

/// The pattern of a variable in a path template, matched as briefly as possible.
pub open spec fn variable_pattern() -> Seq<char> {
    "\\{.*?\\}"@
}

/// The text put in place of path variables to reach a resource that does not exist.
pub open spec fn wrong_path_item() -> Seq<char> {
    "wrongPathItemHere"@
}

/// `m` sets a whole facet to `v` under the instruction `i`.
pub open spec fn is_value_candidate(m: Mutation, i: MutagenInstruction, v: Seq<char>) -> bool {
    &&& m.mutagen == i
    &&& m.payload matches MutationValue::Value(s) && s@ == v
}

/// The path axis: the proper path when one is known (the template itself,
/// or the template resolved through the store), then a random path when the
/// template has a variable to spoil.
pub open spec fn path_axis_ok(axis: Seq<Mutation>, path: Seq<char>, resolved: Option<Seq<char>>) -> bool {
    let proper = if templated(path) { resolved } else { Some(path) };
    let random = if templated(path) { regex_replaced(variable_pattern(), path, wrong_path_item()) } else { None };
    let np: int = if proper is Some { 1 } else { 0 };
    &&& axis.len() == np + (if random is Some { 1int } else { 0int })
    &&& proper matches Some(v) ==> is_value_candidate(axis[0], instr(RequestPart::Path, Mutagen::PathProper, OK), v)
    &&& random matches Some(v) ==> is_value_candidate(axis[np], instr(RequestPart::Path, Mutagen::PathRandom, NOT_FOUND), v)
}

/// The method axis: the endpoint's own method.
pub open spec fn method_axis_ok(axis: Seq<Mutation>, e: Endpoint) -> bool {
    &&& axis.len() == 1
    &&& is_value_candidate(axis[0], instr(RequestPart::Method, Mutagen::EndpointProperValues, OK), method_name(e.crud))
}

/// The content-type axis: JSON, then a misspelt media type that the service
/// should refuse.
pub open spec fn content_type_axis_ok(axis: Seq<Mutation>) -> bool {
    &&& axis.len() == 2
    &&& axis[0].mutagen.request_part == RequestPart::ContentType && axis[0].mutagen.expected == OK
    &&& axis[0].payload matches MutationValue::Value(s) && s@ == "application/json"@
    &&& axis[1].mutagen.request_part == RequestPart::ContentType
    &&& axis[1].mutagen.expected == crate::instructions::NOT_ACCEPTABLE
    &&& axis[1].payload matches MutationValue::Value(s) && s@ == "application/jason"@
}

/// A parameter that travels outside the path.
pub open spec fn off_path(p: ParameterDescriptor) -> bool {
    p.location != ParamLocation::Path
}

/// The parameters that get an axis: the optional ones, then the required
/// ones, leaving out those that travel in the path.
pub open spec fn query_params(ps: Seq<ParameterDescriptor>) -> Seq<ParameterDescriptor> {
    ps.filter(|p: ParameterDescriptor| !p.required && off_path(p))
        + ps.filter(|p: ParameterDescriptor| p.required && off_path(p))
}

/// A value the store may have supplied for `name`: none when no entry
/// defines it, else one of the chosen entry's values.
pub open spec fn possible_value(view: Seq<EntryView>, name: Seq<char>, v: Option<Seq<char>>) -> bool {
    match chosen_entry(view, name) {
        None => v is None,
        Some(i) => v matches Some(x) && values_for(view[i], name).contains(x),
    }
}

/// A path the store may have resolved the template into.
pub open spec fn possible_path(view: Seq<EntryView>, path: Seq<char>, v: Option<Seq<char>>) -> bool {
    exists|picks: Seq<Seq<int>>| valid_picks(view, picks) && #[trigger] known_path(view, path, picks) == v
}

/// The axes of an endpoint, as built with the entries `view` that apply to it.
pub open spec fn axes_ok(axes: Seq<Seq<Mutation>>, e: Endpoint, view: Seq<EntryView>) -> bool {
    let qs = query_params(e.method.parameters@);
    &&& axes.len() == 3 + qs.len()
    &&& exists|resolved: Option<Seq<char>>| possible_path(view, e.path_name@, resolved)
        && #[trigger] path_axis_ok(axes[0], e.path_name@, resolved)
    &&& method_axis_ok(axes[1], e)
    &&& content_type_axis_ok(axes[2])
    &&& forall|k: int| 0 <= k < qs.len() ==> #[trigger] param_axis_ok(axes[3 + k], qs[k], view)
}

/// The axis of one parameter, with a value the store may have supplied.
pub open spec fn param_axis_ok(axis: Seq<Mutation>, p: ParameterDescriptor, view: Seq<EntryView>) -> bool {
    exists|v: Option<Seq<char>>| possible_value(view, p.name@, v)
        && #[trigger] follows(axis, p.name@, param_plan(p, v))
}

/// Which path a path mutagen asks for.
#[derive(Debug, Clone, Copy, PartialEq, Eq, Structural)]
pub enum PathMutation {
    Proper,
    Random,
}

/// Turns an endpoint into scenarios, with the known-parameter store.
pub struct Mutator {
    pub known_params: Conversions,
    /// Keep the scenarios that expect a failure too.
    pub scenarios_all_codes: bool,
}

} // verus!

verus! {

/// The parameters that get an axis among those that are (or are not) required.
pub open spec fn wanted(ps: Seq<ParameterDescriptor>, required: bool) -> Seq<ParameterDescriptor> {
    ps.filter(|p: ParameterDescriptor| p.required == required && off_path(p))
}

proof fn lemma_query_params(ps: Seq<ParameterDescriptor>)
    ensures
        query_params(ps) == wanted(ps, false) + wanted(ps, true),
{
    let f1 = |p: ParameterDescriptor| !p.required && off_path(p);
    let g1 = |p: ParameterDescriptor| p.required == false && off_path(p);
    let f2 = |p: ParameterDescriptor| p.required && off_path(p);
    let g2 = |p: ParameterDescriptor| p.required == true && off_path(p);
    assert(f1 == g1);
    assert(f2 == g2);
}

impl Mutator {
    /// The store is well formed.
    pub open spec fn wf(&self) -> bool {
        self.known_params.wf()
    }

    /// A mutator over the given store.
    pub fn new(known_params: Conversions, scenarios_all_codes: bool) -> (r: Self)
        requires
            known_params.wf(),
        ensures
            r.known_params == known_params,
            r.scenarios_all_codes == scenarios_all_codes,
            r.wf(),
    {
        Mutator { known_params, scenarios_all_codes }
    }

    /// Appends one axis per parameter that is (or is not) required and
    /// travels outside the path, in order.
    fn push_param_axes(&self, view: &ConversionView, params: &Vec<ParameterDescriptor>, required: bool, axes: &mut Vec<Vec<Mutation>>)
        requires
            view.wf(),
        ensures
            axes_view(final(axes)@).subrange(0, old(axes)@.len() as int) == axes_view(old(axes)@),
            final(axes)@.len() == old(axes)@.len() + wanted(params@, required).len(),
            forall|k: int| 0 <= k < wanted(params@, required).len() ==> #[trigger] param_axis_ok(
                axes_view(final(axes)@)[old(axes)@.len() + k],
                wanted(params@, required)[k],
                view@,
            ),
    {
        let ghost start = axes_view(axes@);
        let ghost n0 = axes@.len();
        let ghost pred = |p: ParameterDescriptor| p.required == required && off_path(p);
        let mut i: usize = 0;
        while i < params.len()
            invariant
                i <= params.len(),
                view.wf(),
                pred == (|p: ParameterDescriptor| p.required == required && off_path(p)),
                n0 == start.len(),
                axes_view(axes@).subrange(0, n0 as int) == start,
                axes@.len() == n0 + params@.subrange(0, i as int).filter(pred).len(),
                forall|k: int| 0 <= k < params@.subrange(0, i as int).filter(pred).len() ==> #[trigger] param_axis_ok(
                    axes_view(axes@)[n0 + k],
                    params@.subrange(0, i as int).filter(pred)[k],
                    view@,
                ),
            decreases params.len() - i,
        {
            let p = &params[i];
            let ghost s1 = params@.subrange(0, i + 1);
            let ghost prev = params@.subrange(0, i as int).filter(pred);
            proof {
                reveal(Seq::filter);
                assert(s1.drop_last() =~= params@.subrange(0, i as int));
                assert(s1.last() == params@[i as int]);
            }
            let ghost before = axes_view(axes@);
            if p.required == required && p.location != ParamLocation::Path {
                let known = view.param_value(p.name.as_str());
                let pm = mutate(p, known);
                axes.push(pm.variations);
                proof {
                    assert(s1.filter(pred) == prev.push(*p));
                    assert(axes_view(axes@) =~= before.push(pm.variations@));
                    assert(possible_value(view@, p.name@, opt_view(known)));
                    assert(param_axis_ok(pm.variations@, *p, view@));
                    assert forall|k: int| 0 <= k < s1.filter(pred).len() implies #[trigger] param_axis_ok(
                        axes_view(axes@)[n0 + k],
                        s1.filter(pred)[k],
                        view@,
                    ) by {
                        if k < prev.len() {
                            assert(axes_view(axes@)[n0 + k] == before[n0 + k]);
                        }
                    }
                    assert(axes_view(axes@).subrange(0, n0 as int) =~= start);
                }
            } else {
                proof {
                    assert(s1.filter(pred) == prev);
                }
            }
            i = i + 1;
        }
        proof {
            assert(params@.subrange(0, params@.len() as int) =~= params@);
        }
    }
}

} // verus!

verus! {

/// The store entries that apply to a path template.
pub open spec fn view_for(c: Conversions, pattern: Seq<char>) -> Seq<EntryView> {
    c@.filter(|e: EntryView| crate::known_param::applies_to(e, pattern))
}

impl Mutator {
    /// The path for a path mutation: the proper path is the template itself
    /// when it has no variable, else its resolution through the store; the
    /// random path puts a fixed word in place of each variable, and exists
    /// only for templates with a variable.
    pub fn make_path2(&self, view: &ConversionView, path: &str, mutation: PathMutation) -> (r: Option<String>)
        requires
            view.wf(),
        ensures
            mutation is Proper && templated(path@) ==> possible_path(view@, path@, opt_view(r)),
            mutation is Proper && !templated(path@) ==> opt_view(r) == Some(path@),
            mutation is Random && templated(path@) ==> opt_view(r) == regex_replaced(variable_pattern(), path@, wrong_path_item()),
            mutation is Random && !templated(path@) ==> r is None,
    {
        let has_variable = Endpoint::url_with_variable(path);
        match mutation {
            PathMutation::Proper => if has_variable {
                view.retrieve_known_path(path)
            } else {
                Some(String::from_str(path))
            },
            PathMutation::Random => if has_variable {
                regex_replace_all("\\{.*?\\}", path, "wrongPathItemHere")
            } else {
                None
            },
        }
    }

    /// The endpoint-level axes, in the order of their facets: the path, the
    /// method and the content type.
    pub fn mutations_from_mutagen(&self, endpoint: &Endpoint, view: &ConversionView) -> (r: Vec<Vec<Mutation>>)
        requires
            view.wf(),
        ensures
            r@.len() == 3,
            exists|resolved: Option<Seq<char>>| possible_path(view@, endpoint.path_name@, resolved)
                && #[trigger] path_axis_ok(r@[0]@, endpoint.path_name@, resolved),
            method_axis_ok(r@[1]@, *endpoint),
            content_type_axis_ok(r@[2]@),
    {
        let path = endpoint.path_name.as_str();
        let mut ins = mutagens();
        let method_i = ins.remove(0);
        let proper_i = ins.remove(0);
        let random_i = ins.remove(0);
        let json_i = ins.remove(0);
        let jason_i = ins.remove(0);

        let method_axis = vec![Mutation::new(method_i, String::from_str(endpoint.crud.to_method_name()))];

        let mut path_axis: Vec<Mutation> = Vec::new();
        let proper = self.make_path2(view, path, PathMutation::Proper);
        let ghost resolved = opt_view(proper);
        if let Some(p) = proper {
            path_axis.push(Mutation::new(proper_i, p));
        }
        let rnd = self.make_path2(view, path, PathMutation::Random);
        if let Some(p) = rnd {
            path_axis.push(Mutation::new(random_i, p));
        }

        let json = match &json_i.mutagen {
            Mutagen::Value(v) => v.clone(),
            _ => String::new(),
        };
        let jason = match &jason_i.mutagen {
            Mutagen::Value(v) => v.clone(),
            _ => String::new(),
        };
        let ct_axis = vec![Mutation::new(json_i, json), Mutation::new(jason_i, jason)];
        proof {
            if templated(path@) {
                assert(path_axis_ok(path_axis@, path@, resolved));
            } else {
                let fp = crate::known_param::first_picks(view@);
                crate::known_param::lemma_first_picks(view@);
                let w = known_path(view@, path@, fp);
                assert(possible_path(view@, path@, w));
                assert(path_axis_ok(path_axis@, path@, w));
            }
        }
        vec![path_axis, method_axis, ct_axis]
    }

    /// The scenarios of an endpoint: its path, method and content-type axes
    /// and one axis per query parameter, combined one factor at a time.
    pub fn mutate<'a>(&self, endpoint: &'a Endpoint) -> (r: Vec<Scenario<'a>>)
        requires
            self.wf(),
        ensures
            exists|axes: Seq<Seq<Mutation>>|
                axes_ok(axes, *endpoint, view_for(self.known_params, endpoint.path_name@))
                && #[trigger] scenarios_follow(r@, *endpoint, scenario_plan(axes, self.scenarios_all_codes)),
    {
        let path = endpoint.path_name.as_str();
        let view = self.known_params.for_path(path);
        let mut axes = self.mutations_from_mutagen(endpoint, &view);
        let ghost a3 = axes_view(axes@);
        proof {
            assert(a3[0] == axes@[0]@);
            assert(a3[1] == axes@[1]@);
            assert(a3[2] == axes@[2]@);
        }
        let params = &endpoint.method.parameters;
        self.push_param_axes(&view, params, false, &mut axes);
        let ghost a4 = axes_view(axes@);
        self.push_param_axes(&view, params, true, &mut axes);
        let ghost av = axes_view(axes@);
        proof {
            let qs = query_params(params@);
            let w0 = wanted(params@, false);
            let w1 = wanted(params@, true);
            lemma_query_params(params@);
            assert(view@ == view_for(self.known_params, endpoint.path_name@));
            assert(av.subrange(0, 3) == a4.subrange(0, 3));
            assert(av[0] == a4.subrange(0, 3)[0]);
            assert(a4[0] == a3[0]);
            assert(av[0] == a3[0]);
            assert(av[1] == a3[1]);
            assert(av[2] == a3[2]);
            let resolved = choose|res: Option<Seq<char>>| possible_path(view@, endpoint.path_name@, res)
                && path_axis_ok(a3[0], endpoint.path_name@, res);
            assert(path_axis_ok(av[0], endpoint.path_name@, resolved));
            assert(method_axis_ok(av[1], *endpoint));
            assert(content_type_axis_ok(av[2]));
            assert forall|k: int| 0 <= k < qs.len() implies #[trigger] param_axis_ok(av[3 + k], qs[k], view@) by {
                if k < w0.len() {
                    assert(qs[k] == w0[k]);
                    assert(av.subrange(0, a4.len() as int)[3 + k] == av[3 + k]);
                    assert(av[3 + k] == a4[3 + k]);
                    assert(param_axis_ok(a4[3 + k], w0[k], view@));
                } else {
                    let k2 = k - w0.len();
                    assert(qs[k] == w1[k2]);
                    assert(a4.len() == 3 + w0.len());
                    assert(param_axis_ok(av[a4.len() + k2], w1[k2], view@));
                    assert(a4.len() + k2 == 3 + k);
                }
            }
            assert(axes_ok(av, *endpoint, view_for(self.known_params, endpoint.path_name@)));
        }
        let r = scenarios_from_mutations(endpoint, axes, self.scenarios_all_codes);
        proof {
            assert(scenarios_follow(r@, *endpoint, scenario_plan(av, self.scenarios_all_codes)));
        }
        r
    }
}

} // verus!
