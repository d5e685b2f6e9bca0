//! The generator: the endpoints of a contract and the scenarios of each.
use vstd::prelude::*;
use crate::known_param::Conversions;
use crate::mutation::Mutation;
use crate::mutator::{axes_ok, view_for, Mutator};
use crate::operation::{resource_path, Crud, Endpoint, Operation, PathItem};
use crate::scenario::{scenario_plan, scenarios_follow, Scenario};
use crate::text::{occurs_in, str_contains};

verus! {

/// Configuration for the generation of the scenarios.
#[derive(Debug)]
pub struct GeneratorConfig {
    /// The file with the contract.
    pub filename: String,
    /// The file with known parameter values, if any.
    pub conv_filename: Option<String>,
    /// Keep the scenarios that expect a failure too.
    pub scenarios_all_codes: bool,
    /// Only paths that hold this text get scenarios.
    pub matches: String,
}

impl GeneratorConfig {
    /// A configuration of the four settings.
    pub fn new(filename: String, conv_filename: Option<String>, scenarios_all_codes: bool, matches: String) -> (r: Self)
        ensures
            r.filename == filename,
            r.conv_filename == conv_filename,
            r.scenarios_all_codes == scenarios_all_codes,
            r.matches == matches,
    {
        GeneratorConfig { filename, conv_filename, scenarios_all_codes, matches }
    }
}

/// A path template of the contract and the operations declared on it.
pub type PathEntry = (String, PathItem);

/// The dereferenced contract: the base path of its first server (empty
/// when it names none) and its path templates, in the contract's order.
#[derive(Debug)]
pub struct Contract {
    pub base_path: String,
    pub paths: Vec<PathEntry>,
}

/// What became of loading one input file.
#[derive(Debug)]
pub enum Loaded<T> {
    /// The file was not found or could not be read.
    Missing,
    /// The file was read but is not the expected YAML document.
    Unparsable,
    Ready(T),
}

/// Why no generator could be built.
#[derive(Debug, PartialEq, Eq)]
pub enum DaedalusError {
    /// The file could not be deserialized as YAML.
    Parsing { basename: String },
    /// The contract file was not found or could not be read.
    NotFound { filename: String },
}

/// The reading endpoint of each path that holds `matches`: its full path
/// (base path first), its role and its `get` operation.
pub open spec fn endpoints_plan(base: Seq<char>, paths: Seq<PathEntry>, matches: Seq<char>) -> Seq<(Seq<char>, Crud, Operation)>
    decreases paths.len(),
{
    if paths.len() == 0 {
        Seq::empty()
    } else {
        let prev = endpoints_plan(base, paths.drop_last(), matches);
        let (name, item) = paths.last();
        let full = base + name@;
        if occurs_in(name@, matches) && item.get is Some {
            prev.push((full, if resource_path(full) { Crud::Show } else { Crud::Index }, item.get->0))
        } else {
            prev
        }
    }
}

/// The endpoints are, one for one and in order, the plan.
pub open spec fn endpoints_match(es: Seq<Endpoint>, plan: Seq<(Seq<char>, Crud, Operation)>) -> bool {
    &&& es.len() == plan.len()
    &&& forall|k: int| 0 <= k < es.len() ==> {
        &&& (#[trigger] es[k]).path_name@ == plan[k].0
        &&& es[k].crud == plan[k].1
        &&& es[k].method == plan[k].2
    }
}

/// The groups of scenarios, one after the other.
pub open spec fn concat_all(groups: Seq<Seq<Scenario>>) -> Seq<Scenario>
    decreases groups.len(),
{
    if groups.len() == 0 {
        Seq::empty()
    } else {
        concat_all(groups.drop_last()) + groups.last()
    }
}

/// The scenarios the mutator may produce for one endpoint.
pub open spec fn endpoint_scenarios(ss: Seq<Scenario>, e: Endpoint, m: Mutator) -> bool {
    exists|axes: Seq<Seq<Mutation>>|
        axes_ok(axes, e, view_for(m.known_params, e.path_name@))
        && #[trigger] scenarios_follow(ss, e, scenario_plan(axes, m.scenarios_all_codes))
}

/// Builds the scenarios of the contract's endpoints.
pub struct Generator {
    pub mutator: Mutator,
    pub endpoints: Vec<Endpoint>,
}

impl Generator {
    /// The store is well formed.
    pub open spec fn wf(&self) -> bool {
        self.mutator.wf()
    }

    /// A generator from what loading the configured files gave. A contract
    /// that is missing or does not parse is fatal; a conversions file that
    /// is missing or does not parse leaves the store empty, as does a
    /// configuration without one.
    pub fn new(config: &GeneratorConfig, contract: Loaded<Contract>, conversions: Loaded<Conversions>) -> (r: Result<Self, DaedalusError>)
        requires
            conversions matches Loaded::Ready(c) ==> c.wf(),
        ensures
            contract is Missing ==> r == Err::<Self, DaedalusError>(DaedalusError::NotFound { filename: config.filename }),
            contract is Unparsable ==> r == Err::<Self, DaedalusError>(DaedalusError::Parsing { basename: config.filename }),
            contract is Ready ==> r is Ok,
            r matches Ok(g) ==> {
                &&& g.wf()
                &&& g.mutator.scenarios_all_codes == config.scenarios_all_codes
                &&& (conversions is Ready && config.conv_filename is Some
                    ==> g.mutator.known_params == conversions->Ready_0)
                &&& (!(conversions is Ready && config.conv_filename is Some) ==> g.mutator.known_params@.len() == 0)
                &&& endpoints_match(g.endpoints@, endpoints_plan(contract->Ready_0.base_path@, contract->Ready_0.paths@, config.matches@))
            },
    {
        let c = match contract {
            Loaded::Missing => {
                return Err(DaedalusError::NotFound { filename: config.filename.clone() });
            },
            Loaded::Unparsable => {
                return Err(DaedalusError::Parsing { basename: config.filename.clone() });
            },
            Loaded::Ready(c) => c,
        };
        let known = match (conversions, &config.conv_filename) {
            (Loaded::Ready(t), Some(_)) => t,
            _ => Conversions::empty(),
        };
        let mutator = Mutator::new(known, config.scenarios_all_codes);
        let endpoints = Generator::endpoints(c.base_path.as_str(), c.paths, config.matches.as_str());
        Ok(Generator { mutator, endpoints })
    }

    /// The reading endpoints of the paths that hold `matches`, the base
    /// path put in front of each.
    pub fn endpoints(base_path: &str, paths: Vec<PathEntry>, matches: &str) -> (r: Vec<Endpoint>)
        ensures
            endpoints_match(r@, endpoints_plan(base_path@, paths@, matches@)),
    {
        let ghost all = paths@;
        let mut rest = paths;
        let total = rest.len();
        let mut r: Vec<Endpoint> = Vec::new();
        let mut k: usize = 0;
        while rest.len() > 0
            invariant
                k <= total,
                all.len() == total,
                rest@ == all.subrange(k as int, total as int),
                endpoints_match(r@, endpoints_plan(base_path@, all.subrange(0, k as int), matches@)),
            decreases rest@.len(),
        {
            let ghost rv = rest@;
            let (name, item) = rest.remove(0);
            proof {
                assert(rv[0] == all[k as int]);
                assert(rest@ =~= all.subrange(k + 1, total as int));
                assert(all.subrange(0, k + 1).drop_last() =~= all.subrange(0, k as int));
                assert(all.subrange(0, k + 1).last() == all[k as int]);
            }
            let ghost before = r@;
            if str_contains(name.as_str(), matches) {
                let mut full = String::from_str(base_path);
                full.append(name.as_str());
                let ghost get = item.get;
                let mut found = Endpoint::new_supported(full.as_str(), item);
                if found.len() > 0 {
                    let e = found.remove(0);
                    r.push(e);
                    proof {
                        assert forall|a: int| 0 <= a < r@.len() implies {
                            &&& (#[trigger] r@[a]).path_name@ == endpoints_plan(base_path@, all.subrange(0, k + 1), matches@)[a].0
                            &&& r@[a].crud == endpoints_plan(base_path@, all.subrange(0, k + 1), matches@)[a].1
                            &&& r@[a].method == endpoints_plan(base_path@, all.subrange(0, k + 1), matches@)[a].2
                        } by {
                            if a < before.len() {
                                assert(r@[a] == before[a]);
                            }
                        }
                    }
                }
            }
            k = k + 1;
        }
        proof {
            assert(all.subrange(0, k as int) =~= all);
        }
        r
    }

    /// The scenarios of every endpoint, endpoint after endpoint.
    pub fn scenarios(&self) -> (r: Vec<Scenario<'_>>)
        requires
            self.wf(),
        ensures
            exists|groups: Seq<Seq<Scenario>>| {
                &&& groups.len() == self.endpoints@.len()
                &&& r@ == concat_all(groups)
                &&& forall|k: int| 0 <= k < groups.len()
                    ==> #[trigger] endpoint_scenarios(groups[k], self.endpoints@[k], self.mutator)
            },
    {
        let mut r: Vec<Scenario<'_>> = Vec::new();
        let ghost mut groups: Seq<Seq<Scenario>> = Seq::empty();
        let mut i: usize = 0;
        while i < self.endpoints.len()
            invariant
                i <= self.endpoints.len(),
                self.wf(),
                groups.len() == i,
                r@ == concat_all(groups),
                forall|k: int| 0 <= k < groups.len()
                    ==> #[trigger] endpoint_scenarios(groups[k], self.endpoints@[k], self.mutator),
            decreases self.endpoints.len() - i,
        {
            let mut ss = self.mutator.mutate(&self.endpoints[i]);
            let ghost g = ss@;
            let ghost before = r@;
            r.append(&mut ss);
            proof {
                let groups2 = groups.push(g);
                assert(groups2.drop_last() =~= groups);
                assert(endpoint_scenarios(g, self.endpoints@[i as int], self.mutator));
                assert forall|k: int| 0 <= k < groups2.len()
                    implies #[trigger] endpoint_scenarios(groups2[k], self.endpoints@[k], self.mutator) by {
                    if k < groups.len() {
                        assert(groups2[k] == groups[k]);
                    }
                }
                groups = groups2;
            }
            i = i + 1;
        }
        r
    }
}

} // verus!
