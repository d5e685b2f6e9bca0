//! The endpoints of the contract: an operation on a path template, and the
//! role it plays among the create/read/update/delete operations.
use vstd::prelude::*;
use crate::mutation::ParameterDescriptor;
use crate::schema::Schema;
use crate::text::{occurs_in, str_contains};

verus! {

/// The role of an operation, told apart by its method and by whether the
/// path template ends in a variable.
#[derive(Debug, Clone, Copy, PartialEq, Eq, Structural)]
pub enum Crud {
    Index,
    Create,
    Show,
    Update,
    Delete,
    Patch,
}

/// The HTTP method of a role.
pub open spec fn method_name(c: Crud) -> Seq<char> {
    match c {
        Crud::Index => "GET"@,
        Crud::Show => "GET"@,
        Crud::Create => "POST"@,
        Crud::Update => "PUT"@,
        Crud::Patch => "PATCH"@,
        Crud::Delete => "DELETE"@,
    }
}

impl Crud {
    /// The HTTP method of the role.
    pub fn to_method_name(&self) -> (r: &'static str)
        ensures
            r@ == method_name(*self),
    {
        match self {
            Crud::Index => "GET",
            Crud::Show => "GET",
            Crud::Create => "POST",
            Crud::Update => "PUT",
            Crud::Patch => "PATCH",
            Crud::Delete => "DELETE",
        }
    }
}

/// A documented response: its status code and its JSON body schema, if any.
#[derive(Debug)]
pub struct ResponseSpec {
    pub status: u16,
    pub schema: Option<Schema>,
}

/// An operation of the contract.
#[derive(Debug)]
pub struct Operation {
    pub parameters: Vec<ParameterDescriptor>,
    pub responses: Vec<ResponseSpec>,
}

/// The operations declared on one path template.
#[derive(Debug)]
pub struct PathItem {
    pub get: Option<Operation>,
    pub put: Option<Operation>,
    pub post: Option<Operation>,
    pub patch: Option<Operation>,
    pub delete: Option<Operation>,
}

/// An operation together with its path and role.
#[derive(Debug)]
pub struct Endpoint {
    pub crud: Crud,
    pub path_name: String,
    pub method: Operation,
}

/// The index of the first documented response with the given status.
pub open spec fn response_index(rs: Seq<ResponseSpec>, status: u16) -> Option<int>
    decreases rs.len(),
{
    if rs.len() == 0 {
        None
    } else {
        match response_index(rs.drop_last(), status) {
            Some(i) => Some(i),
            None => if rs.last().status == status { Some(rs.len() - 1) } else { None },
        }
    }
}

impl Operation {
    /// The documented response for a status code.
    pub fn response(&self, status: u16) -> (r: Option<&ResponseSpec>)
        ensures
            match response_index(self.responses@, status) {
                None => r is None,
                Some(i) => r == Some(&self.responses@[i]),
            },
    {
        let mut i: usize = 0;
        while i < self.responses.len()
            invariant
                i <= self.responses.len(),
                response_index(self.responses@.subrange(0, i as int), status) is None,
            decreases self.responses.len() - i,
        {
            proof {
                assert(self.responses@.subrange(0, i + 1).drop_last() =~= self.responses@.subrange(0, i as int));
            }
            if self.responses[i].status == status {
                proof {
                    lemma_response_index_prefix(self.responses@, status, i + 1);
                }
                return Some(&self.responses[i]);
            }
            i = i + 1;
        }
        proof {
            assert(self.responses@.subrange(0, self.responses.len() as int) =~= self.responses@);
        }
        None
    }
}

proof fn lemma_response_index_prefix(rs: Seq<ResponseSpec>, status: u16, n: int)
    requires
        0 <= n <= rs.len(),
        response_index(rs.subrange(0, n), status) is Some,
    ensures
        response_index(rs, status) == response_index(rs.subrange(0, n), status),
    decreases rs.len() - n,
{
    if n < rs.len() {
        assert(rs.subrange(0, n + 1).drop_last() =~= rs.subrange(0, n));
        lemma_response_index_prefix(rs, status, n + 1);
    } else {
        assert(rs.subrange(0, n) =~= rs);
    }
}

/// A path template with a variable in it.
pub open spec fn templated(path: Seq<char>) -> bool {
    occurs_in(path, seq!['}'])
}

/// The last segment of the path (after its last `/`) holds a variable:
/// the path names one resource rather than a collection.
pub open spec fn resource_path(path: Seq<char>) -> bool
    decreases path.len(),
{
    if path.len() == 0 {
        false
    } else if path.last() == '/' {
        false
    } else if path.last() == '}' {
        true
    } else {
        resource_path(path.drop_last())
    }
}

/// The roles of a path item's operations, in order: on a resource path
/// the read, replace, patch and delete of one resource; else the listing,
/// and the creation, which is declared with `post`.
pub open spec fn supported_plan(path: Seq<char>, item: PathItem) -> Seq<(Crud, Option<Operation>)> {
    if resource_path(path) {
        seq![(Crud::Show, item.get), (Crud::Update, item.put), (Crud::Patch, item.patch), (Crud::Delete, item.delete)]
    } else {
        seq![(Crud::Index, item.get), (Crud::Create, item.post)]
    }
}

/// The endpoints are the present operations of the plan, in order.
pub open spec fn endpoints_follow(es: Seq<Endpoint>, path: Seq<char>, plan: Seq<(Crud, Option<Operation>)>) -> bool {
    let present = plan.filter(|p: (Crud, Option<Operation>)| p.1 is Some);
    &&& es.len() == present.len()
    &&& forall|k: int| 0 <= k < es.len() ==> {
        &&& (#[trigger] es[k]).crud == present[k].0
        &&& Some(es[k].method) == present[k].1
        &&& es[k].path_name@ == path
    }
}

impl Endpoint {
    /// Whether the path template holds a variable.
    pub fn url_with_variable(path_name: &str) -> (r: bool)
        ensures
            r == templated(path_name@),
    {
        proof {
            reveal_strlit("}");
            assert("}"@ =~= seq!['}']);
        }
        str_contains(path_name, "}")
    }

    /// Whether the last segment of the path holds a variable.
    pub fn names_resource(path_name: &str) -> (r: bool)
        ensures
            r == resource_path(path_name@),
    {
        let cs = crate::text::chars_of(path_name);
        let mut i: usize = cs.len();
        assert(cs@.subrange(0, i as int) =~= cs@);
        while i > 0
            invariant
                i <= cs.len(),
                cs@ == path_name@,
                resource_path(path_name@) == resource_path(cs@.subrange(0, i as int)),
            decreases i,
        {
            let c = cs[i - 1];
            proof {
                let pre = cs@.subrange(0, i as int);
                assert(pre.drop_last() =~= cs@.subrange(0, i - 1));
                assert(pre.last() == c);
            }
            if c == '/' {
                return false;
            }
            if c == '}' {
                return true;
            }
            i = i - 1;
        }
        false
    }

    /// The endpoints of every operation declared on the path.
    pub fn create_supported_endpoint(path_name: &str, methods: PathItem) -> (r: Vec<Endpoint>)
        ensures
            endpoints_follow(r@, path_name@, supported_plan(path_name@, methods)),
    {
        let ghost plan = supported_plan(path_name@, methods);
        let mut slots: Vec<(Crud, Option<Operation>)> = Vec::new();
        if Endpoint::names_resource(path_name) {
            slots.push((Crud::Show, methods.get));
            slots.push((Crud::Update, methods.put));
            slots.push((Crud::Patch, methods.patch));
            slots.push((Crud::Delete, methods.delete));
        } else {
            slots.push((Crud::Index, methods.get));
            slots.push((Crud::Create, methods.post));
        }
        proof {
            assert(slots@ =~= plan);
        }
        let ghost pred = |p: (Crud, Option<Operation>)| p.1 is Some;
        let mut r: Vec<Endpoint> = Vec::new();
        let mut k: usize = 0;
        let ghost total = slots@;
        let mut rest = slots;
        while rest.len() > 0
            invariant
                total == plan,
                total.len() <= 4,
                k <= total.len(),
                rest@ == total.subrange(k as int, total.len() as int),
                pred == (|p: (Crud, Option<Operation>)| p.1 is Some),
                endpoints_follow(r@, path_name@, total.subrange(0, k as int)),
            decreases rest@.len(),
        {
            let slot = rest.remove(0);
            let ghost s1 = total.subrange(0, k + 1);
            proof {
                reveal(Seq::filter);
                assert(s1.drop_last() =~= total.subrange(0, k as int));
                assert(slot == total[k as int]);
                assert(s1.last() == slot);
                assert(rest@ =~= total.subrange(k + 1, total.len() as int));
            }
            let ghost before = r@;
            match slot {
                (crud, Some(op)) => {
                    r.push(Endpoint { crud, path_name: String::from_str(path_name), method: op });
                    proof {
                        assert(s1.filter(pred) == total.subrange(0, k as int).filter(pred).push(slot));
                        assert(r@.drop_last() == before);
                        assert forall|a: int| 0 <= a < r@.len() implies {
                            &&& (#[trigger] r@[a]).crud == s1.filter(pred)[a].0
                            &&& Some(r@[a].method) == s1.filter(pred)[a].1
                            &&& r@[a].path_name@ == path_name@
                        } by {
                            if a < before.len() {
                                assert(r@[a] == before[a]);
                            }
                        }
                    }
                },
                (_, None) => {
                    proof {
                        assert(s1.filter(pred) == total.subrange(0, k as int).filter(pred));
                    }
                },
            }
            k = k + 1;
        }
        proof {
            assert(total.subrange(0, k as int) =~= total);
        }
        r
    }

    /// The endpoints of the path that scenarios are generated for: the
    /// operations that read, a single resource or a listing.
    pub fn new_supported(path_name: &str, methods: PathItem) -> (r: Vec<Endpoint>)
        ensures
            match methods.get {
                None => r@.len() == 0,
                Some(op) => r@.len() == 1 && r@[0].method == op && r@[0].path_name@ == path_name@
                    && r@[0].crud == (if resource_path(path_name@) { Crud::Show } else { Crud::Index }),
            },
    {
        let crud = if Endpoint::names_resource(path_name) { Crud::Show } else { Crud::Index };
        let mut r: Vec<Endpoint> = Vec::new();
        if let Some(op) = methods.get {
            r.push(Endpoint { crud, path_name: String::from_str(path_name), method: op });
        }
        r
    }
}

} // verus!
