//! The mutation catalog: for each parameter, an ordered list of candidate
//! values, each with the reason it was chosen and the status it should provoke.
use vstd::prelude::*;
use crate::instructions::{instr, Mutagen, MutagenInstruction, RequestPart, OK, UNPROCESSABLE_ENTITY};
use crate::literal::{date_literal, date_time_literal, decimal, decimal_text, iso_date, iso_time};
use crate::request_param::{opt_view, RequestParam};
use crate::text::{all_upper, is_all_uppercase, repeat_seq, same_text, str_repeat, str_to_uppercase, upper_of};

verus! {

/// Where a parameter travels in a request.
#[derive(Debug, Clone, Copy, PartialEq, Eq, Structural)]
pub enum ParamLocation {
    Path,
    Query,
    Header,
    Cookie,
}

/// The format declared for a string parameter.
#[derive(Debug)]
pub enum StringFormat {
    Date,
    DateTime,
    Other(String),
}

/// The declared type of a parameter.
#[derive(Debug)]
pub enum ParamType {
    Boolean,
    /// Inclusive bounds.
    Integer { min: i64, max: i64 },
    Str {
        format: Option<StringFormat>,
        enumeration: Vec<String>,
        min_length: Option<usize>,
        max_length: Option<usize>,
    },
    Array,
    Object,
}

/// A parameter of an operation, as the contract declares it.
#[derive(Debug)]
pub struct ParameterDescriptor {
    pub name: String,
    pub location: ParamLocation,
    pub required: bool,
    /// `None` where the contract declares no type.
    pub param_type: Option<ParamType>,
}

/// What a mutation sets: a whole facet, or one parameter.
#[derive(Debug)]
pub enum MutationValue {
    Value(String),
    Param(RequestParam),
}

/// One candidate: the instruction behind it and the value it sets.
#[derive(Debug)]
pub struct Mutation {
    pub mutagen: MutagenInstruction,
    pub payload: MutationValue,
}

impl Mutation {
    /// A candidate that sets a whole facet to `value`.
    pub fn new(mutagen: MutagenInstruction, value: String) -> (r: Self)
        ensures
            r.mutagen == mutagen,
            r.payload == MutationValue::Value(value),
    {
        Mutation { mutagen, payload: MutationValue::Value(value) }
    }

    /// A candidate that sets one parameter.
    pub fn new_param(mutagen: MutagenInstruction, value: RequestParam) -> (r: Self)
        ensures
            r.mutagen == mutagen,
            r.payload == MutationValue::Param(value),
    {
        Mutation { mutagen, payload: MutationValue::Param(value) }
    }

    /// A copy of the candidate.
    pub fn duplicate(&self) -> (r: Self)
        ensures
            r == *self,
    {
        let payload = match &self.payload {
            MutationValue::Value(v) => MutationValue::Value(v.clone()),
            MutationValue::Param(p) => MutationValue::Param(p.duplicate()),
        };
        Mutation { mutagen: self.mutagen.duplicate(), payload }
    }
}

/// The status a parameter mutagen should provoke; `None` for the mutagens
/// that do not act on parameter values.
pub open spec fn param_expected(m: Mutagen) -> Option<u16> {
    match m {
        Mutagen::ParamProper | Mutagen::MinimumLength | Mutagen::MaximumLength
        | Mutagen::Minimum | Mutagen::Maximum | Mutagen::EnumerationElement => Some(OK),
        Mutagen::WrongPattern | Mutagen::BelowMinimumLength | Mutagen::OverMaximumLength
        | Mutagen::BelowMinimum | Mutagen::OverMaximum
        | Mutagen::NotEnumerationElement => Some(UNPROCESSABLE_ENTITY),
        _ => None,
    }
}

/// The instruction for a value mutagen of a parameter.
pub open spec fn value_instr(m: Mutagen) -> MutagenInstruction {
    instr(RequestPart::AnyParam, m, param_expected(m)->0)
}

/// The instruction for leaving a parameter out.
pub open spec fn absent_instr(required: bool) -> MutagenInstruction {
    if required {
        instr(RequestPart::RequiredParam, Mutagen::Absent, UNPROCESSABLE_ENTITY)
    } else {
        instr(RequestPart::OptionalParam, Mutagen::Absent, OK)
    }
}

/// A planned candidate: its instruction and the value sent, if any.
pub type Planned = (MutagenInstruction, Option<Seq<char>>);

/// A planned value candidate.
pub open spec fn valued(m: Mutagen, v: Seq<char>) -> Planned {
    (value_instr(m), Some(v))
}

/// `x` is the candidate `p` for the parameter `name`.
pub open spec fn is_candidate(x: Mutation, name: Seq<char>, p: Planned) -> bool {
    &&& x.mutagen == p.0
    &&& x.payload matches MutationValue::Param(rp) && rp@ == (name, p.1)
}

/// The candidates `xs` are, one for one and in order, the plan for `name`.
pub open spec fn follows(xs: Seq<Mutation>, name: Seq<char>, plan: Seq<Planned>) -> bool {
    &&& xs.len() == plan.len()
    &&& forall|i: int| 0 <= i < xs.len() ==> is_candidate(#[trigger] xs[i], name, plan[i])
}

/// Parameters whose service clamps or ignores wrong values.
pub open spec fn is_pagination(name: Seq<char>) -> bool {
    name == "page"@ || name == "per_page"@
}

/// One less than `min`, or `min` itself where that is not representable.
pub open spec fn below_min_spec(min: i64) -> i64 {
    if min == i64::MIN { min } else { (min - 1) as i64 }
}

/// One more than `max`, or `max` itself where that is not representable.
pub open spec fn over_max_spec(max: i64) -> i64 {
    if max == i64::MAX { max } else { (max + 1) as i64 }
}

/// Half of `x`, rounded toward zero.
pub open spec fn half_toward_zero(x: int) -> int {
    if x >= 0 { x / 2 } else { -((-x) / 2) }
}

/// The candidates for an integer parameter with inclusive bounds `[min, max]`.
pub open spec fn integer_plan(name: Seq<char>, min: i64, max: i64) -> Seq<Planned> {
    if is_pagination(name) {
        seq![valued(Mutagen::ParamProper, "1"@)]
    } else {
        let base = seq![
            valued(Mutagen::ParamProper, decimal(half_toward_zero(max as int))),
            valued(Mutagen::Minimum, decimal(min as int)),
            valued(Mutagen::Maximum, decimal(max as int)),
        ];
        let with_below = if min == i64::MIN {
            base
        } else {
            base.push(valued(Mutagen::BelowMinimum, decimal(min - 1)))
        };
        let with_over = if max == i64::MAX {
            with_below
        } else {
            with_below.push(valued(Mutagen::OverMaximum, decimal(max + 1)))
        };
        with_over.push(valued(Mutagen::WrongPattern, "NotAnInteger"@))
    }
}

/// The candidates for a boolean parameter.
pub open spec fn boolean_plan(name: Seq<char>) -> Seq<Planned> {
    if name == "include_count"@ {
        seq![valued(Mutagen::ParamProper, "false"@)]
    } else {
        seq![valued(Mutagen::ParamProper, "false"@), valued(Mutagen::WrongPattern, "NotABool"@)]
    }
}

/// The candidates for one member `e` of the enumeration `all`: the member,
/// then its upper-case form where that differs and is no member itself.
pub open spec fn member_plan(e: Seq<char>, all: Seq<Seq<char>>) -> Seq<Planned> {
    if all_upper(e) || all.contains(upper_of(e)) {
        seq![valued(Mutagen::EnumerationElement, e)]
    } else {
        seq![valued(Mutagen::EnumerationElement, e), valued(Mutagen::NotEnumerationElement, upper_of(e))]
    }
}

/// The candidates for the members `es` of the enumeration `all`, in order.
pub open spec fn members_plan(es: Seq<Seq<char>>, all: Seq<Seq<char>>) -> Seq<Planned>
    decreases es.len(),
{
    if es.len() == 0 {
        Seq::empty()
    } else {
        members_plan(es.drop_last(), all) + member_plan(es.last(), all)
    }
}

/// A value refused as outside the enumeration, unless it is a member.
pub open spec fn outside_value(v: Seq<char>, all: Seq<Seq<char>>) -> Seq<Planned> {
    if all.contains(v) {
        Seq::empty()
    } else {
        seq![valued(Mutagen::NotEnumerationElement, v)]
    }
}

/// The candidates for a string parameter with an enumeration: its members,
/// then the empty string and a foreign word, each where it is no member.
pub open spec fn enumeration_plan(es: Seq<Seq<char>>) -> Seq<Planned> {
    members_plan(es, es) + outside_value(""@, es) + outside_value("NotInAnyEnum"@, es)
}

/// The candidates for a string parameter with length bounds and no format.
pub open spec fn length_plan(min_length: Option<usize>, max_length: Option<usize>) -> Seq<Planned> {
    let below = match min_length {
        Some(min) if min > 1 => seq![valued(Mutagen::BelowMinimumLength, repeat_seq("N"@, (min - 1) as nat))],
        _ => Seq::empty(),
    };
    let at_min = match min_length {
        Some(min) => seq![valued(Mutagen::MinimumLength, repeat_seq("G"@, min as nat))],
        None => Seq::empty(),
    };
    let at_max = match max_length {
        Some(max) => if max < usize::MAX {
            seq![
                valued(Mutagen::MaximumLength, repeat_seq("G"@, max as nat)),
                valued(Mutagen::OverMaximumLength, repeat_seq("X"@, (max + 1) as nat)),
            ]
        } else {
            seq![valued(Mutagen::MaximumLength, repeat_seq("G"@, max as nat))]
        },
        None => Seq::empty(),
    };
    below + at_min + at_max
}

/// The reference day for dates: 28 November 2019.
pub open spec fn reference_date() -> Seq<char> {
    iso_date(2019, 11, 28)
}

/// The reference instant for date-times: 28 November 2019, 12:00:09 UTC.
pub open spec fn reference_date_time() -> Seq<char> {
    iso_date(2019, 11, 28) + seq!['T'] + iso_time(12, 0, 9) + seq!['Z']
}

/// The proper literal for a declared format, where one can be made.
pub open spec fn format_literal(f: StringFormat) -> Option<Seq<char>> {
    match f {
        StringFormat::Date => Some(reference_date()),
        StringFormat::DateTime => Some(reference_date_time()),
        StringFormat::Other(_) => None,
    }
}

/// The candidates for a string parameter with a declared format.
pub open spec fn format_plan(f: StringFormat) -> Seq<Planned> {
    let wrong = seq![valued(Mutagen::WrongPattern, "NotValidValueForFormat"@)];
    match format_literal(f) {
        Some(v) => seq![valued(Mutagen::ParamProper, v)] + wrong,
        None => wrong,
    }
}

/// The texts of a list of strings.
pub open spec fn texts(v: Seq<String>) -> Seq<Seq<char>> {
    v.map_values(|s: String| s@)
}

/// The candidates for a string parameter.
pub open spec fn string_plan(
    format: Option<StringFormat>,
    enumeration: Seq<String>,
    min_length: Option<usize>,
    max_length: Option<usize>,
) -> Seq<Planned> {
    if enumeration.len() > 0 {
        enumeration_plan(texts(enumeration))
    } else {
        match format {
            None => length_plan(min_length, max_length),
            Some(f) => format_plan(f),
        }
    }
}

/// The candidates for a parameter of a given type.
pub open spec fn typed_plan(name: Seq<char>, t: ParamType) -> Seq<Planned> {
    match t {
        ParamType::Boolean => boolean_plan(name),
        ParamType::Integer { min, max } => integer_plan(name, min, max),
        ParamType::Str { format, enumeration, min_length, max_length } =>
            string_plan(format, enumeration@, min_length, max_length),
        ParamType::Array => seq![valued(Mutagen::WrongPattern, "notAnArray"@)],
        ParamType::Object => seq![valued(Mutagen::WrongPattern, "notAnObject"@)],
    }
}

/// The whole candidate list of a parameter, given the value that the
/// known-parameter store supplied for it, if any.
pub open spec fn param_plan(p: ParameterDescriptor, known: Option<Seq<char>>) -> Seq<Planned> {
    let absent = seq![(absent_instr(p.required), None::<Seq<char>>)];
    let with_known = match known {
        Some(v) => absent.push(valued(Mutagen::ParamProper, v)),
        None => absent,
    };
    match p.param_type {
        None => Seq::empty(),
        Some(t) => with_known + typed_plan(p.name@, t),
    }
}

/// The candidates of one parameter, as they are built.
pub struct ParamMutation {
    pub variations: Vec<Mutation>,
    pub name: String,
}

impl ParamMutation {
    /// No candidates yet for the parameter `name`.
    pub fn new_param(name: &str) -> (r: Self)
        ensures
            r.name@ == name@,
            r.variations@.len() == 0,
    {
        ParamMutation { variations: Vec::new(), name: String::from_str(name) }
    }

    /// Appends the candidate that sends `value` for the reason `mutagen`.
    pub fn push(&mut self, value: &str, mutagen: Mutagen)
        requires
            param_expected(mutagen) is Some,
        ensures
            final(self).name == old(self).name,
            final(self).variations@.len() == old(self).variations@.len() + 1,
            final(self).variations@.drop_last() == old(self).variations@,
            is_candidate(final(self).variations@.last(), old(self).name@, valued(mutagen, value@)),
    {
        let expected = match mutagen {
            Mutagen::ParamProper | Mutagen::MinimumLength | Mutagen::MaximumLength
            | Mutagen::Minimum | Mutagen::Maximum | Mutagen::EnumerationElement => OK,
            _ => UNPROCESSABLE_ENTITY,
        };
        let instruction = MutagenInstruction { mutagen, request_part: RequestPart::AnyParam, expected };
        let param = RequestParam::new(self.name.as_str(), value);
        self.variations.push(Mutation::new_param(instruction, param));
        proof {
            assert(final(self).variations@.drop_last() =~= old(self).variations@);
        }
    }

    /// Appends the candidate that leaves the parameter out, or sends `value`.
    pub fn push_multiple(&mut self, value: Option<String>, mutagen: Mutagen, required: bool)
        requires
            mutagen is Absent,
        ensures
            final(self).name == old(self).name,
            final(self).variations@.len() == old(self).variations@.len() + 1,
            final(self).variations@.drop_last() == old(self).variations@,
            is_candidate(final(self).variations@.last(), old(self).name@, (absent_instr(required), opt_view(value))),
    {
        let instruction = if required {
            MutagenInstruction { mutagen, request_part: RequestPart::RequiredParam, expected: UNPROCESSABLE_ENTITY }
        } else {
            MutagenInstruction { mutagen, request_part: RequestPart::OptionalParam, expected: OK }
        };
        let param = RequestParam::new2(self.name.as_str(), value);
        self.variations.push(Mutation::new_param(instruction, param));
        proof {
            assert(final(self).variations@.drop_last() =~= old(self).variations@);
        }
    }

    /// Appends the candidates of `other`.
    pub fn extend(&mut self, other: Self)
        ensures
            final(self).name == old(self).name,
            final(self).variations@ == old(self).variations@ + other.variations@,
    {
        let mut other = other;
        self.variations.append(&mut other.variations);
    }
}

} // verus!

verus! {

proof fn lemma_follows_extend(xs: Seq<Mutation>, ys: Seq<Mutation>, name: Seq<char>, plan: Seq<Planned>, more: Seq<Planned>)
    requires
        follows(xs, name, plan),
        more.len() <= 1,
        ys.len() == xs.len() + more.len(),
        ys.subrange(0, xs.len() as int) == xs,
        more.len() == 1 ==> is_candidate(ys.last(), name, more[0]),
    ensures
        follows(ys, name, plan + more),
{
    assert forall|i: int| 0 <= i < ys.len() implies is_candidate(#[trigger] ys[i], name, (plan + more)[i]) by {
        if i < xs.len() {
            assert(ys[i] == ys.subrange(0, xs.len() as int)[i]);
        }
    }
}

proof fn lemma_follows_push(xs: Seq<Mutation>, ys: Seq<Mutation>, name: Seq<char>, plan: Seq<Planned>, p: Planned)
    requires
        follows(xs, name, plan),
        ys.len() == xs.len() + 1,
        ys.drop_last() == xs,
        is_candidate(ys.last(), name, p),
    ensures
        follows(ys, name, plan.push(p)),
{
    assert forall|i: int| 0 <= i < ys.len() implies is_candidate(#[trigger] ys[i], name, plan.push(p)[i]) by {
        if i < xs.len() {
            assert(ys[i] == ys.drop_last()[i]);
        }
    }
}

/// One less than `min`, saturating at the smallest representable value.
pub fn below_min(min: i64) -> (r: i64)
    ensures
        r == below_min_spec(min),
        min > i64::MIN ==> r == min - 1,
        min == i64::MIN ==> r == min,
{
    match min.checked_sub(1) {
        Some(v) => v,
        None => min,
    }
}

/// One more than `max`, saturating at the largest representable value.
pub fn over_max(max: i64) -> (r: i64)
    ensures
        r == over_max_spec(max),
        max < i64::MAX ==> r == max + 1,
        max == i64::MAX ==> r == max,
{
    match max.checked_add(1) {
        Some(v) => v,
        None => max,
    }
}

/// The candidates for an integer parameter with inclusive bounds `[min, max]`:
/// a proper value of `max / 2`, both bounds, the values just outside them
/// where those are representable, and a non-numeric value. Pagination
/// parameters get the single proper value `1`.
pub fn integer_mutations(name: &str, min: i64, max: i64) -> (r: ParamMutation)
    ensures
        r.name@ == name@,
        is_pagination(name@) ==> r.variations@.len() == 1
            && is_candidate(r.variations@[0], name@, valued(Mutagen::ParamProper, "1"@)),
        follows(r.variations@, name@, integer_plan(name@, min, max)),
{
    let mut mutations = ParamMutation::new_param(name);
    let ghost plan: Seq<Planned> = Seq::empty();
    proof { reveal_strlit("page"); reveal_strlit("per_page"); }
    if same_text(name, "page") || same_text(name, "per_page") {
        let ghost e = mutations.variations@;
        mutations.push("1", Mutagen::ParamProper);
        proof {
            lemma_follows_push(e, mutations.variations@, name@, plan, valued(Mutagen::ParamProper, "1"@));
            assert(plan.push(valued(Mutagen::ParamProper, "1"@)) =~= integer_plan(name@, min, max));
        }
        return mutations;
    }
    let ghost v0 = mutations.variations@;
    let half = max / 2;
    assert(half as int == half_toward_zero(max as int));
    let t = decimal_text(half);
    mutations.push(t.as_str(), Mutagen::ParamProper);
    proof {
        lemma_follows_push(v0, mutations.variations@, name@, plan, valued(Mutagen::ParamProper, t@));
        plan = plan.push(valued(Mutagen::ParamProper, t@));
    }
    let ghost v1 = mutations.variations@;
    let t = decimal_text(min);
    mutations.push(t.as_str(), Mutagen::Minimum);
    proof {
        lemma_follows_push(v1, mutations.variations@, name@, plan, valued(Mutagen::Minimum, t@));
        plan = plan.push(valued(Mutagen::Minimum, t@));
    }
    let ghost v2 = mutations.variations@;
    let t = decimal_text(max);
    mutations.push(t.as_str(), Mutagen::Maximum);
    proof {
        lemma_follows_push(v2, mutations.variations@, name@, plan, valued(Mutagen::Maximum, t@));
        plan = plan.push(valued(Mutagen::Maximum, t@));
    }
    if min > i64::MIN {
        let ghost v3 = mutations.variations@;
        let t = decimal_text(below_min(min));
        mutations.push(t.as_str(), Mutagen::BelowMinimum);
        proof {
            lemma_follows_push(v3, mutations.variations@, name@, plan, valued(Mutagen::BelowMinimum, t@));
            plan = plan.push(valued(Mutagen::BelowMinimum, t@));
        }
    }
    if max < i64::MAX {
        let ghost v4 = mutations.variations@;
        let t = decimal_text(over_max(max));
        mutations.push(t.as_str(), Mutagen::OverMaximum);
        proof {
            lemma_follows_push(v4, mutations.variations@, name@, plan, valued(Mutagen::OverMaximum, t@));
            plan = plan.push(valued(Mutagen::OverMaximum, t@));
        }
    }
    let ghost v5 = mutations.variations@;
    mutations.push("NotAnInteger", Mutagen::WrongPattern);
    proof {
        lemma_follows_push(v5, mutations.variations@, name@, plan, valued(Mutagen::WrongPattern, "NotAnInteger"@));
        plan = plan.push(valued(Mutagen::WrongPattern, "NotAnInteger"@));
        assert(plan =~= integer_plan(name@, min, max));
    }
    mutations
}

/// The candidates for a boolean parameter: `false`, and a value that is no
/// boolean unless the service is known to coerce this flag silently.
pub fn boolean_mutations(name: &str) -> (r: ParamMutation)
    ensures
        r.name@ == name@,
        follows(r.variations@, name@, boolean_plan(name@)),
{
    let mut mutations = ParamMutation::new_param(name);
    let ghost v0 = mutations.variations@;
    mutations.push("false", Mutagen::ParamProper);
    proof {
        lemma_follows_push(v0, mutations.variations@, name@, Seq::empty(), valued(Mutagen::ParamProper, "false"@));
    }
    let ghost plan = seq![valued(Mutagen::ParamProper, "false"@)];
    proof { reveal_strlit("include_count"); }
    if !same_text(name, "include_count") {
        let ghost v1 = mutations.variations@;
        mutations.push("NotABool", Mutagen::WrongPattern);
        proof {
            lemma_follows_push(v1, mutations.variations@, name@, plan, valued(Mutagen::WrongPattern, "NotABool"@));
            assert(plan.push(valued(Mutagen::WrongPattern, "NotABool"@)) =~= boolean_plan(name@));
        }
    } else {
        proof { assert(plan =~= boolean_plan(name@)); }
    }
    mutations
}

} // verus!

verus! {

/// Whether `v` is a member of the enumeration.
pub fn is_member(enumeration: &Vec<String>, v: &str) -> (r: bool)
    ensures
        r == texts(enumeration@).contains(v@),
{
    let mut i: usize = 0;
    while i < enumeration.len()
        invariant
            i <= enumeration.len(),
            forall|k: int| 0 <= k < i ==> enumeration@[k]@ != v@,
        decreases enumeration.len() - i,
    {
        if same_text(enumeration[i].as_str(), v) {
            proof {
                assert(texts(enumeration@)[i as int] == v@);
            }
            return true;
        }
        i = i + 1;
    }
    proof {
        if texts(enumeration@).contains(v@) {
            let k = choose|k: int| 0 <= k < texts(enumeration@).len() && texts(enumeration@)[k] == v@;
            assert(enumeration@[k]@ == v@);
        }
    }
    false
}

/// Appends the candidates for each member of an enumeration: the member
/// itself, and its upper-case form where that differs and is no member.
fn push_members(mutations: &mut ParamMutation, enumeration: &Vec<String>)
    requires
        follows(old(mutations).variations@, old(mutations).name@, Seq::empty()),
    ensures
        final(mutations).name == old(mutations).name,
        follows(final(mutations).variations@, old(mutations).name@, members_plan(texts(enumeration@), texts(enumeration@))),
{
    let ghost name = mutations.name@;
    let ghost all = texts(enumeration@);
    let mut i: usize = 0;
    while i < enumeration.len()
        invariant
            i <= enumeration.len(),
            all == texts(enumeration@),
            mutations.name@ == name,
            mutations.name == old(mutations).name,
            follows(mutations.variations@, name, members_plan(texts(enumeration@.subrange(0, i as int)), all)),
        decreases enumeration.len() - i,
    {
        let ghost before = texts(enumeration@.subrange(0, i as int));
        let ghost after = texts(enumeration@.subrange(0, i + 1));
        proof {
            assert(after.drop_last() =~= before);
            assert(after.last() == enumeration@[i as int]@);
        }
        let element = &enumeration[i];
        let ghost v0 = mutations.variations@;
        mutations.push(element.as_str(), Mutagen::EnumerationElement);
        proof {
            lemma_follows_push(v0, mutations.variations@, name, members_plan(before, all), valued(Mutagen::EnumerationElement, element@));
        }
        let ghost p1 = members_plan(before, all).push(valued(Mutagen::EnumerationElement, element@));
        let upper = str_to_uppercase(element.as_str());
        if !is_all_uppercase(element.as_str()) && !is_member(enumeration, upper.as_str()) {
            let ghost v1 = mutations.variations@;
            mutations.push(upper.as_str(), Mutagen::NotEnumerationElement);
            proof {
                lemma_follows_push(v1, mutations.variations@, name, p1, valued(Mutagen::NotEnumerationElement, upper@));
                assert(p1.push(valued(Mutagen::NotEnumerationElement, upper@)) =~= members_plan(after, all));
            }
        } else {
            proof {
                assert(p1 =~= members_plan(after, all));
            }
        }
        i = i + 1;
    }
    proof {
        assert(enumeration@.subrange(0, enumeration@.len() as int) =~= enumeration@);
    }
}

/// Appends the value as refused, unless it is a member of the enumeration.
fn push_outside(mutations: &mut ParamMutation, enumeration: &Vec<String>, v: &str)
    ensures
        final(mutations).name == old(mutations).name,
        final(mutations).variations@.len() == old(mutations).variations@.len() + outside_value(v@, texts(enumeration@)).len(),
        final(mutations).variations@.subrange(0, old(mutations).variations@.len() as int) == old(mutations).variations@,
        outside_value(v@, texts(enumeration@)).len() == 1 ==> is_candidate(
            final(mutations).variations@.last(),
            old(mutations).name@,
            outside_value(v@, texts(enumeration@))[0],
        ),
{
    if !is_member(enumeration, v) {
        let ghost before = mutations.variations@;
        mutations.push(v, Mutagen::NotEnumerationElement);
        proof {
            assert(mutations.variations@.subrange(0, before.len() as int) =~= before);
        }
    } else {
        proof {
            assert(mutations.variations@.subrange(0, mutations.variations@.len() as int) =~= mutations.variations@);
        }
    }
}

/// The candidates for a string parameter. With an enumeration: each member,
/// and values outside it (upper-case forms, the empty string, a foreign
/// word), none of which is a member.
/// Else, with no format: strings of the boundary lengths. Else: the proper
/// literal of the format where one can be made, and a malformed value.
pub fn string_mutations(
    name: &str,
    format: &Option<StringFormat>,
    enumeration: &Vec<String>,
    min_length: Option<usize>,
    max_length: Option<usize>,
) -> (r: ParamMutation)
    ensures
        r.name@ == name@,
        follows(r.variations@, name@, string_plan(*format, enumeration@, min_length, max_length)),
        enumeration@.len() > 0 ==> candidates_outside(r.variations@, texts(enumeration@)),
{
    let mut mutations = ParamMutation::new_param(name);
    if enumeration.len() > 0 {
        let ghost all = texts(enumeration@);
        push_members(&mut mutations, enumeration);
        let ghost p0 = members_plan(all, all);
        let ghost v0 = mutations.variations@;
        push_outside(&mut mutations, enumeration, "");
        let ghost p1 = p0 + outside_value(""@, all);
        proof {
            lemma_follows_extend(v0, mutations.variations@, name@, p0, outside_value(""@, all));
        }
        let ghost v1 = mutations.variations@;
        push_outside(&mut mutations, enumeration, "NotInAnyEnum");
        proof {
            lemma_follows_extend(v1, mutations.variations@, name@, p1, outside_value("NotInAnyEnum"@, all));
            assert(p1 + outside_value("NotInAnyEnum"@, all) == string_plan(*format, enumeration@, min_length, max_length));
            lemma_refused_outside(all);
            lemma_candidates_outside(mutations.variations@, name@, string_plan(*format, enumeration@, min_length, max_length), all);
        }
        return mutations;
    }
    match format {
        None => {
            let ghost plan: Seq<Planned> = Seq::empty();
            if let Some(min) = min_length {
                if min > 1 {
                    let t = str_repeat("N", min - 1);
                    let ghost v = mutations.variations@;
                    mutations.push(t.as_str(), Mutagen::BelowMinimumLength);
                    proof {
                        lemma_follows_push(v, mutations.variations@, name@, plan, valued(Mutagen::BelowMinimumLength, t@));
                        plan = plan.push(valued(Mutagen::BelowMinimumLength, t@));
                    }
                }
                let t = str_repeat("G", min);
                let ghost v = mutations.variations@;
                mutations.push(t.as_str(), Mutagen::MinimumLength);
                proof {
                    lemma_follows_push(v, mutations.variations@, name@, plan, valued(Mutagen::MinimumLength, t@));
                    plan = plan.push(valued(Mutagen::MinimumLength, t@));
                }
            }
            if let Some(max) = max_length {
                let t = str_repeat("G", max);
                let ghost v = mutations.variations@;
                mutations.push(t.as_str(), Mutagen::MaximumLength);
                proof {
                    lemma_follows_push(v, mutations.variations@, name@, plan, valued(Mutagen::MaximumLength, t@));
                    plan = plan.push(valued(Mutagen::MaximumLength, t@));
                }
                if max < usize::MAX {
                    let t = str_repeat("X", max + 1);
                    let ghost v = mutations.variations@;
                    mutations.push(t.as_str(), Mutagen::OverMaximumLength);
                    proof {
                        lemma_follows_push(v, mutations.variations@, name@, plan, valued(Mutagen::OverMaximumLength, t@));
                        plan = plan.push(valued(Mutagen::OverMaximumLength, t@));
                    }
                }
            }
            proof {
                assert(plan =~= string_plan(*format, enumeration@, min_length, max_length));
            }
        },
        Some(f) => {
            let proper = format_value(f);
            let ghost plan: Seq<Planned> = Seq::empty();
            if let Some(v) = proper {
                let ghost before = mutations.variations@;
                mutations.push(v.as_str(), Mutagen::ParamProper);
                proof {
                    lemma_follows_push(before, mutations.variations@, name@, plan, valued(Mutagen::ParamProper, v@));
                    plan = plan.push(valued(Mutagen::ParamProper, v@));
                }
            }
            let ghost before = mutations.variations@;
            mutations.push("NotValidValueForFormat", Mutagen::WrongPattern);
            proof {
                lemma_follows_push(before, mutations.variations@, name@, plan, valued(Mutagen::WrongPattern, "NotValidValueForFormat"@));
                plan = plan.push(valued(Mutagen::WrongPattern, "NotValidValueForFormat"@));
                assert(plan =~= string_plan(*format, enumeration@, min_length, max_length));
            }
        },
    }
    mutations
}

/// The proper literal for a declared format: the reference day or instant
/// for dates and date-times, and nothing for any other format.
pub fn format_value(f: &StringFormat) -> (r: Option<String>)
    ensures
        opt_view(r) == format_literal(*f),
{
    match f {
        StringFormat::Date => {
            let d = date_literal(2019, 11, 28);
            proof { lemma_reference_day(); }
            d
        },
        StringFormat::DateTime => {
            proof { lemma_reference_day(); }
            date_time_literal(2019, 11, 28, 12, 0, 9)
        },
        StringFormat::Other(_) => None,
    }
}

proof fn lemma_reference_day()
    ensures
        crate::literal::calendar_day(2019, 11, 28),
{
}

} // verus!

verus! {

/// The candidate list of one parameter: leaving it out first (expected to
/// pass when it is optional, to be refused when required), then the value
/// of the known-parameter store if it supplied one, then the candidates of
/// its type. A parameter without a declared type gets no candidates.
pub fn mutate(param: &ParameterDescriptor, known: Option<String>) -> (r: ParamMutation)
    ensures
        r.name@ == param.name@,
        follows(r.variations@, param.name@, param_plan(*param, opt_view(known))),
{
    let name = param.name.as_str();
    let mut mutations = ParamMutation::new_param(name);
    let ghost v0 = mutations.variations@;
    mutations.push_multiple(None, Mutagen::Absent, param.required);
    let ghost absent = seq![(absent_instr(param.required), None::<Seq<char>>)];
    proof {
        lemma_follows_push(v0, mutations.variations@, name@, Seq::empty(), (absent_instr(param.required), None::<Seq<char>>));
        assert(Seq::<Planned>::empty().push((absent_instr(param.required), None::<Seq<char>>)) =~= absent);
    }
    let ghost with_known = absent;
    if let Some(value) = known {
        let ghost v1 = mutations.variations@;
        mutations.push(value.as_str(), Mutagen::ParamProper);
        proof {
            lemma_follows_push(v1, mutations.variations@, name@, absent, valued(Mutagen::ParamProper, value@));
            with_known = absent.push(valued(Mutagen::ParamProper, value@));
        }
    }
    match &param.param_type {
        None => {
            let empty = ParamMutation::new_param(name);
            proof {
                assert(param_plan(*param, opt_view(known)) =~= Seq::empty());
            }
            empty
        },
        Some(t) => {
            let typed = match t {
                ParamType::Boolean => boolean_mutations(name),
                ParamType::Integer { min, max } => integer_mutations(name, *min, *max),
                ParamType::Str { format, enumeration, min_length, max_length } =>
                    string_mutations(name, format, enumeration, *min_length, *max_length),
                ParamType::Array => {
                    let mut m = ParamMutation::new_param(name);
                    let ghost e = m.variations@;
                    m.push("notAnArray", Mutagen::WrongPattern);
                    proof {
                        lemma_follows_push(e, m.variations@, name@, Seq::empty(), valued(Mutagen::WrongPattern, "notAnArray"@));
                        assert(Seq::<Planned>::empty().push(valued(Mutagen::WrongPattern, "notAnArray"@))
                            =~= typed_plan(name@, *t));
                    }
                    m
                },
                ParamType::Object => {
                    let mut m = ParamMutation::new_param(name);
                    let ghost e = m.variations@;
                    m.push("notAnObject", Mutagen::WrongPattern);
                    proof {
                        lemma_follows_push(e, m.variations@, name@, Seq::empty(), valued(Mutagen::WrongPattern, "notAnObject"@));
                        assert(Seq::<Planned>::empty().push(valued(Mutagen::WrongPattern, "notAnObject"@))
                            =~= typed_plan(name@, *t));
                    }
                    m
                },
            };
            let ghost before = mutations.variations@;
            let ghost tv = typed.variations@;
            mutations.extend(typed);
            proof {
                let plan = param_plan(*param, opt_view(known));
                assert(plan =~= with_known + typed_plan(name@, *t));
                assert forall|i: int| 0 <= i < mutations.variations@.len()
                    implies is_candidate(#[trigger] mutations.variations@[i], name@, plan[i]) by {
                    if i < before.len() {
                        assert(mutations.variations@[i] == before[i]);
                    } else {
                        assert(mutations.variations@[i] == tv[i - before.len()]);
                    }
                }
            }
            mutations
        },
    }
}

} // verus!

verus! {

/// A planned candidate for an enumeration member.
pub open spec fn is_member_candidate(p: Planned) -> bool {
    p.0.mutagen is EnumerationElement
}

proof fn lemma_filter_pair(a: Planned, b: Planned, f: spec_fn(Planned) -> bool)
    ensures
        seq![a].filter(f) == (if f(a) { seq![a] } else { Seq::empty() }),
        seq![a, b].filter(f) == seq![a].filter(f) + (if f(b) { seq![b] } else { Seq::empty() }),
{
    reveal(Seq::filter);
    let one = seq![a];
    let two = seq![a, b];
    assert(one.drop_last() =~= Seq::<Planned>::empty());
    assert(Seq::<Planned>::empty().filter(f) =~= Seq::<Planned>::empty());
    assert(one.filter(f) =~= (if f(a) { seq![a] } else { Seq::empty() }));
    assert(two.drop_last() =~= one);
    assert(two.filter(f) =~= one.filter(f) + (if f(b) { seq![b] } else { Seq::empty() }));
}

proof fn lemma_members_filter(es: Seq<Seq<char>>, all: Seq<Seq<char>>)
    ensures
        members_plan(es, all).filter(|p: Planned| is_member_candidate(p))
            == es.map_values(|e: Seq<char>| valued(Mutagen::EnumerationElement, e)),
    decreases es.len(),
{
    let f = |p: Planned| is_member_candidate(p);
    let g = |e: Seq<char>| valued(Mutagen::EnumerationElement, e);
    if es.len() == 0 {
        reveal(Seq::filter);
        assert(members_plan(es, all).filter(f) =~= es.map_values(g));
    } else {
        lemma_members_filter(es.drop_last(), all);
        let last = member_plan(es.last(), all);
        Seq::filter_distributes_over_add(members_plan(es.drop_last(), all), last, f);
        let a = valued(Mutagen::EnumerationElement, es.last());
        let b = valued(Mutagen::NotEnumerationElement, upper_of(es.last()));
        lemma_filter_pair(a, b, f);
        if all_upper(es.last()) || all.contains(upper_of(es.last())) {
            assert(last.filter(f) =~= seq![g(es.last())]);
        } else {
            assert(last == seq![a, b]);
            assert(last.filter(f) =~= seq![g(es.last())]);
        }
        assert(es.drop_last().map_values(g).push(g(es.last())) =~= es.map_values(g));
    }
}

/// Every refused enumeration value of the plan lies outside `all`.
pub open spec fn refusals_outside(plan: Seq<Planned>, all: Seq<Seq<char>>) -> bool {
    forall|i: int| 0 <= i < plan.len() && (#[trigger] plan[i]).0.mutagen is NotEnumerationElement ==>
        match plan[i].1 {
            Some(v) => !all.contains(v),
            None => false,
        }
}

/// Every refused enumeration value among the candidates lies outside `all`.
pub open spec fn candidates_outside(xs: Seq<Mutation>, all: Seq<Seq<char>>) -> bool {
    forall|i: int| 0 <= i < xs.len() && (#[trigger] xs[i]).mutagen.mutagen is NotEnumerationElement ==>
        match xs[i].payload {
            MutationValue::Param(p) => match p@.1 {
                Some(v) => !all.contains(v),
                None => false,
            },
            MutationValue::Value(_) => false,
        }
}

proof fn lemma_members_outside(es: Seq<Seq<char>>, all: Seq<Seq<char>>)
    ensures
        refusals_outside(members_plan(es, all), all),
    decreases es.len(),
{
    if es.len() > 0 {
        lemma_members_outside(es.drop_last(), all);
        let prev = members_plan(es.drop_last(), all);
        let last = member_plan(es.last(), all);
        assert forall|i: int| 0 <= i < (prev + last).len() && (#[trigger] (prev + last)[i]).0.mutagen is NotEnumerationElement
            implies match (prev + last)[i].1 {
                Some(v) => !all.contains(v),
                None => false,
            } by {
            if i < prev.len() {
                assert((prev + last)[i] == prev[i]);
            } else {
                assert((prev + last)[i] == last[i - prev.len()]);
            }
        }
    }
}

proof fn lemma_refused_outside(all: Seq<Seq<char>>)
    ensures
        refusals_outside(enumeration_plan(all), all),
{
    lemma_members_outside(all, all);
    let a = members_plan(all, all);
    let b = outside_value(""@, all);
    let c = outside_value("NotInAnyEnum"@, all);
    assert forall|i: int| 0 <= i < (a + b + c).len() && (#[trigger] (a + b + c)[i]).0.mutagen is NotEnumerationElement
        implies match (a + b + c)[i].1 {
            Some(v) => !all.contains(v),
            None => false,
        } by {
        if i < a.len() {
            assert((a + b + c)[i] == a[i]);
        } else if i < a.len() + b.len() {
            assert((a + b + c)[i] == b[i - a.len()]);
        } else {
            assert((a + b + c)[i] == c[i - a.len() - b.len()]);
        }
    }
}

proof fn lemma_candidates_outside(xs: Seq<Mutation>, name: Seq<char>, plan: Seq<Planned>, all: Seq<Seq<char>>)
    requires
        follows(xs, name, plan),
        refusals_outside(plan, all),
    ensures
        candidates_outside(xs, all),
{
    assert forall|i: int| 0 <= i < xs.len() && (#[trigger] xs[i]).mutagen.mutagen is NotEnumerationElement
        implies match xs[i].payload {
            MutationValue::Param(p) => match p@.1 {
                Some(v) => !all.contains(v),
                None => false,
            },
            MutationValue::Value(_) => false,
        } by {
        assert(is_candidate(xs[i], name, plan[i]));
    }
}

/// Enumeration coverage: the member candidates of a string parameter with
/// an enumeration are exactly its members, in order and each expected to
/// pass; every value refused as outside the enumeration is no member; and
/// unless the foreign word `NotInAnyEnum` is itself a member, at least one
/// such value is refused.
pub proof fn law_enumeration_coverage(es: Seq<Seq<char>>)
    requires
        es.len() > 0,
    ensures
        enumeration_plan(es).filter(|p: Planned| is_member_candidate(p))
            == es.map_values(|e: Seq<char>| valued(Mutagen::EnumerationElement, e)),
        refusals_outside(enumeration_plan(es), es),
        !es.contains("NotInAnyEnum"@) ==> exists|i: int| 0 <= i < enumeration_plan(es).len() && {
            let p = #[trigger] enumeration_plan(es)[i];
            &&& p.0 == value_instr(Mutagen::NotEnumerationElement)
            &&& p.0.expected == UNPROCESSABLE_ENTITY
        },
{
    let f = |p: Planned| is_member_candidate(p);
    lemma_members_filter(es, es);
    lemma_refused_outside(es);
    let a = valued(Mutagen::NotEnumerationElement, ""@);
    let b = valued(Mutagen::NotEnumerationElement, "NotInAnyEnum"@);
    let t1 = outside_value(""@, es);
    let t2 = outside_value("NotInAnyEnum"@, es);
    lemma_filter_pair(a, b, f);
    lemma_filter_pair(b, a, f);
    assert(t1.filter(f) =~= Seq::<Planned>::empty());
    assert(t2.filter(f) =~= Seq::<Planned>::empty());
    Seq::filter_distributes_over_add(members_plan(es, es), t1, f);
    Seq::filter_distributes_over_add(members_plan(es, es) + t1, t2, f);
    assert(members_plan(es, es).filter(f) + t1.filter(f) + t2.filter(f) =~= members_plan(es, es).filter(f));
    if !es.contains("NotInAnyEnum"@) {
        let n = enumeration_plan(es).len() - 1;
        assert(enumeration_plan(es)[n] == b);
    }
}

} // verus!
