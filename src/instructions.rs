//! The reasons a candidate value was chosen, the request facets they mutate,
//! and the status code the service is expected to answer with.
use vstd::prelude::*;
use crate::request_param::RequestParam;

verus! {

/// HTTP `200 OK`.
pub const OK: u16 = 200;

/// HTTP `404 Not Found`.
pub const NOT_FOUND: u16 = 404;

/// HTTP `406 Not Acceptable`.
pub const NOT_ACCEPTABLE: u16 = 406;

/// HTTP `422 Unprocessable Entity`.
pub const UNPROCESSABLE_ENTITY: u16 = 422;

/// Why a value was chosen for a request facet.
#[derive(Debug)]
pub enum Mutagen {
    EndpointProperValues,
    PathProper,
    PathRandom,
    ParamProper,
    WrongPattern,
    Absent,
    BelowMinimumLength,
    MinimumLength,
    MaximumLength,
    OverMaximumLength,
    BelowMinimum,
    Minimum,
    Maximum,
    OverMaximum,
    EnumerationElement,
    NotEnumerationElement,
    Value(String),
    StaticParam(RequestParam),
}

/// The facet of a request that a mutagen acts on.
#[derive(Debug, Clone, Copy, PartialEq, Eq, Structural)]
pub enum RequestPart {
    Path,
    AnyParam,
    RequiredParam,
    OptionalParam,
    Endpoint,
    Method,
    ContentType,
}

/// A mutagen, the facet it acts on, and the status code it should provoke.
#[derive(Debug)]
pub struct MutagenInstruction {
    pub mutagen: Mutagen,
    pub request_part: RequestPart,
    pub expected: u16,
}

/// A mutagen that carries no value.
pub open spec fn is_plain(m: Mutagen) -> bool {
    !(m is Value) && !(m is StaticParam)
}

impl Mutagen {
    /// A copy of the mutagen.
    pub fn duplicate(&self) -> (r: Self)
        ensures
            r == *self,
    {
        match self {
            Mutagen::EndpointProperValues => Mutagen::EndpointProperValues,
            Mutagen::PathProper => Mutagen::PathProper,
            Mutagen::PathRandom => Mutagen::PathRandom,
            Mutagen::ParamProper => Mutagen::ParamProper,
            Mutagen::WrongPattern => Mutagen::WrongPattern,
            Mutagen::Absent => Mutagen::Absent,
            Mutagen::BelowMinimumLength => Mutagen::BelowMinimumLength,
            Mutagen::MinimumLength => Mutagen::MinimumLength,
            Mutagen::MaximumLength => Mutagen::MaximumLength,
            Mutagen::OverMaximumLength => Mutagen::OverMaximumLength,
            Mutagen::BelowMinimum => Mutagen::BelowMinimum,
            Mutagen::Minimum => Mutagen::Minimum,
            Mutagen::Maximum => Mutagen::Maximum,
            Mutagen::OverMaximum => Mutagen::OverMaximum,
            Mutagen::EnumerationElement => Mutagen::EnumerationElement,
            Mutagen::NotEnumerationElement => Mutagen::NotEnumerationElement,
            Mutagen::Value(v) => Mutagen::Value(v.clone()),
            Mutagen::StaticParam(p) => Mutagen::StaticParam(p.duplicate()),
        }
    }

    /// Whether two mutagens agree, where the first one carries no value.
    pub fn same_plain(&self, other: &Self) -> (r: bool)
        requires
            is_plain(*self),
        ensures
            r == (*self == *other),
    {
        match (self, other) {
            (Mutagen::EndpointProperValues, Mutagen::EndpointProperValues) => true,
            (Mutagen::PathProper, Mutagen::PathProper) => true,
            (Mutagen::PathRandom, Mutagen::PathRandom) => true,
            (Mutagen::ParamProper, Mutagen::ParamProper) => true,
            (Mutagen::WrongPattern, Mutagen::WrongPattern) => true,
            (Mutagen::Absent, Mutagen::Absent) => true,
            (Mutagen::BelowMinimumLength, Mutagen::BelowMinimumLength) => true,
            (Mutagen::MinimumLength, Mutagen::MinimumLength) => true,
            (Mutagen::MaximumLength, Mutagen::MaximumLength) => true,
            (Mutagen::OverMaximumLength, Mutagen::OverMaximumLength) => true,
            (Mutagen::BelowMinimum, Mutagen::BelowMinimum) => true,
            (Mutagen::Minimum, Mutagen::Minimum) => true,
            (Mutagen::Maximum, Mutagen::Maximum) => true,
            (Mutagen::OverMaximum, Mutagen::OverMaximum) => true,
            (Mutagen::EnumerationElement, Mutagen::EnumerationElement) => true,
            (Mutagen::NotEnumerationElement, Mutagen::NotEnumerationElement) => true,
            _ => false,
        }
    }
}

impl MutagenInstruction {
    /// A copy of the instruction.
    pub fn duplicate(&self) -> (r: Self)
        ensures
            r == *self,
    {
        MutagenInstruction {
            mutagen: self.mutagen.duplicate(),
            request_part: self.request_part,
            expected: self.expected,
        }
    }
}

/// An instruction, built from its three parts.
pub open spec fn instr(part: RequestPart, mutagen: Mutagen, expected: u16) -> MutagenInstruction {
    MutagenInstruction { mutagen, request_part: part, expected }
}

/// The instructions for parameter values: which mutagens should pass and
/// which should be refused as unprocessable.
pub open spec fn schema_table() -> Seq<MutagenInstruction> {
    seq![
        instr(RequestPart::AnyParam, Mutagen::ParamProper, OK),
        instr(RequestPart::AnyParam, Mutagen::MinimumLength, OK),
        instr(RequestPart::AnyParam, Mutagen::MaximumLength, OK),
        instr(RequestPart::AnyParam, Mutagen::Minimum, OK),
        instr(RequestPart::AnyParam, Mutagen::Maximum, OK),
        instr(RequestPart::AnyParam, Mutagen::EnumerationElement, OK),
        instr(RequestPart::RequiredParam, Mutagen::Absent, UNPROCESSABLE_ENTITY),
        instr(RequestPart::OptionalParam, Mutagen::Absent, OK),
        instr(RequestPart::AnyParam, Mutagen::WrongPattern, UNPROCESSABLE_ENTITY),
        instr(RequestPart::AnyParam, Mutagen::BelowMinimumLength, UNPROCESSABLE_ENTITY),
        instr(RequestPart::AnyParam, Mutagen::OverMaximumLength, UNPROCESSABLE_ENTITY),
        instr(RequestPart::AnyParam, Mutagen::BelowMinimum, UNPROCESSABLE_ENTITY),
        instr(RequestPart::AnyParam, Mutagen::OverMaximum, UNPROCESSABLE_ENTITY),
        instr(RequestPart::AnyParam, Mutagen::NotEnumerationElement, UNPROCESSABLE_ENTITY),
    ]
}

/// The parameter instructions, in their fixed order.
pub fn schema_mutagens() -> (r: Vec<MutagenInstruction>)
    ensures
        r@ == schema_table(),
{
    let r = vec![
        MutagenInstruction { mutagen: Mutagen::ParamProper, request_part: RequestPart::AnyParam, expected: OK },
        MutagenInstruction { mutagen: Mutagen::MinimumLength, request_part: RequestPart::AnyParam, expected: OK },
        MutagenInstruction { mutagen: Mutagen::MaximumLength, request_part: RequestPart::AnyParam, expected: OK },
        MutagenInstruction { mutagen: Mutagen::Minimum, request_part: RequestPart::AnyParam, expected: OK },
        MutagenInstruction { mutagen: Mutagen::Maximum, request_part: RequestPart::AnyParam, expected: OK },
        MutagenInstruction { mutagen: Mutagen::EnumerationElement, request_part: RequestPart::AnyParam, expected: OK },
        MutagenInstruction { mutagen: Mutagen::Absent, request_part: RequestPart::RequiredParam, expected: UNPROCESSABLE_ENTITY },
        MutagenInstruction { mutagen: Mutagen::Absent, request_part: RequestPart::OptionalParam, expected: OK },
        MutagenInstruction { mutagen: Mutagen::WrongPattern, request_part: RequestPart::AnyParam, expected: UNPROCESSABLE_ENTITY },
        MutagenInstruction { mutagen: Mutagen::BelowMinimumLength, request_part: RequestPart::AnyParam, expected: UNPROCESSABLE_ENTITY },
        MutagenInstruction { mutagen: Mutagen::OverMaximumLength, request_part: RequestPart::AnyParam, expected: UNPROCESSABLE_ENTITY },
        MutagenInstruction { mutagen: Mutagen::BelowMinimum, request_part: RequestPart::AnyParam, expected: UNPROCESSABLE_ENTITY },
        MutagenInstruction { mutagen: Mutagen::OverMaximum, request_part: RequestPart::AnyParam, expected: UNPROCESSABLE_ENTITY },
        MutagenInstruction { mutagen: Mutagen::NotEnumerationElement, request_part: RequestPart::AnyParam, expected: UNPROCESSABLE_ENTITY },
    ];
    proof {
        assert(r@ =~= schema_table());
    }
    r
}

/// The parameter instructions for one mutagen, in table order.
pub fn schema_mutagen(mutagen: &Mutagen) -> (r: Vec<MutagenInstruction>)
    ensures
        r@ == schema_table().filter(|i: MutagenInstruction| i.mutagen == *mutagen),
{
    let all = schema_mutagens();
    let mut r: Vec<MutagenInstruction> = Vec::new();
    let ghost pred = |i: MutagenInstruction| i.mutagen == *mutagen;
    let mut k: usize = 0;
    while k < all.len()
        invariant
            all@ == schema_table(),
            k <= all.len(),
            pred == (|i: MutagenInstruction| i.mutagen == *mutagen),
            r@ == all@.subrange(0, k as int).filter(pred),
        decreases all.len() - k,
    {
        let ghost s1 = all@.subrange(0, k + 1);
        proof {
            reveal(Seq::filter);
            assert(s1.drop_last() =~= all@.subrange(0, k as int));
            assert(s1.last() == all@[k as int]);
            assert(pred(all@[k as int]) == (all@[k as int].mutagen == *mutagen));
            assert(s1.filter(pred) == if pred(all@[k as int]) {
                all@.subrange(0, k as int).filter(pred).push(all@[k as int])
            } else {
                all@.subrange(0, k as int).filter(pred)
            });
        }
        if all[k].mutagen.same_plain(mutagen) {
            r.push(all[k].duplicate());
        }
        assert(r@ == s1.filter(pred));
        k = k + 1;
    }
    proof {
        assert(all@.subrange(0, all.len() as int) =~= all@);
    }
    r
}

/// The endpoint-level instructions, in their fixed order.
pub fn mutagens() -> (r: Vec<MutagenInstruction>)
    ensures
        r.len() == 5,
        r@[0] == instr(RequestPart::Method, Mutagen::EndpointProperValues, OK),
        r@[1] == instr(RequestPart::Path, Mutagen::PathProper, OK),
        r@[2] == instr(RequestPart::Path, Mutagen::PathRandom, NOT_FOUND),
        r@[3].request_part == RequestPart::ContentType && r@[3].expected == OK,
        r@[3].mutagen matches Mutagen::Value(v) && v@ == "application/json"@,
        r@[4].request_part == RequestPart::ContentType && r@[4].expected == NOT_ACCEPTABLE,
        r@[4].mutagen matches Mutagen::Value(v) && v@ == "application/jason"@,
{
    vec![
        MutagenInstruction { mutagen: Mutagen::EndpointProperValues, request_part: RequestPart::Method, expected: OK },
        MutagenInstruction { mutagen: Mutagen::PathProper, request_part: RequestPart::Path, expected: OK },
        MutagenInstruction { mutagen: Mutagen::PathRandom, request_part: RequestPart::Path, expected: NOT_FOUND },
        MutagenInstruction {
            mutagen: Mutagen::Value(String::from_str("application/json")),
            request_part: RequestPart::ContentType,
            expected: OK,
        },
        MutagenInstruction {
            mutagen: Mutagen::Value(String::from_str("application/jason")),
            request_part: RequestPart::ContentType,
            expected: NOT_ACCEPTABLE,
        },
    ]
}

} // verus!
