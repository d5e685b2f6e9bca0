//! The response validator: checks a live response against the status,
//! content type and body schema that its scenario expects.
use vstd::prelude::*;
use crate::disparity::{Disparity, DisparityKind, DisparityList, DisparityView, JsonKind, KnownFormat, Location, SchemaKind};
use crate::operation::ResponseSpec;
use crate::patterns::{regex_is_match, regex_verdict};
use crate::request_param::opt_view;
use crate::schema::{Json, Schema};
use crate::text::{occurs_in, same_text, str_contains};

verus! {

/// Recognizes a UUID.
pub const UUID_STRING: &'static str =
    "^(?i)[0-9A-F]{8}-[0-9A-F]{4}-[0-9A-F]{4}-[89AB][0-9A-F]{3}-[0-9A-F]{12}$";

/// Recognizes a calendar date `YYYY-MM-DD`.
pub const DATE_STRING: &'static str = "^(?:[1-9]\\d{3}-(?:(?:0[1-9]|1[0-2])-(?:0[1-9]|1\\d|2[0-8])|(?:0[13-9]|1[0-2])-(?:29|30)|(?:0[13578]|1[02])-31)|(?:[1-9]\\d(?:0[48]|[2468][048]|[13579][26])|(?:[2468][048]|[13579][26])00)-02-29)$";

/// Recognizes a date-time `YYYY-MM-DDThh:mm:ss` with a zone.
pub const DATETIME_STRING: &'static str = "^(?:[1-9]\\d{3}-(?:(?:0[1-9]|1[0-2])-(?:0[1-9]|1\\d|2[0-8])|(?:0[13-9]|1[0-2])-(?:29|30)|(?:0[13578]|1[02])-31)|(?:[1-9]\\d(?:0[48]|[2468][048]|[13579][26])|(?:[2468][048]|[13579][26])00)-02-29)T(?:[01]\\d|2[0-3]):[0-5]\\d:[0-5]\\d(?:Z|[+-][01]\\d:[0-5]\\d)$";

/// The most disparities one response reports.
pub const MAX_DISPARITIES: usize = 8;

/// The pattern of a known format.
pub open spec fn format_pattern(f: KnownFormat) -> Seq<char> {
    match f {
        KnownFormat::Uuid => UUID_STRING@,
        KnownFormat::Date => DATE_STRING@,
        KnownFormat::DateTime => DATETIME_STRING@,
    }
}

/// The text follows the known format.
pub open spec fn follows_format(t: Seq<char>, f: KnownFormat) -> bool {
    regex_verdict(format_pattern(f), t) == Some(true)
}

/// The kind of a JSON value.
pub open spec fn kind_of(v: Json) -> JsonKind {
    match v {
        Json::Null => JsonKind::Null,
        Json::Bool(_) => JsonKind::Bool,
        Json::Number => JsonKind::Number,
        Json::Str(_) => JsonKind::Str,
        Json::Array(_) => JsonKind::Array,
        Json::Object(_) => JsonKind::Object,
    }
}

/// The type a typed schema node declares.
pub open spec fn schema_kind(s: Schema) -> SchemaKind {
    match s {
        Schema::Boolean => SchemaKind::Boolean,
        Schema::Integer => SchemaKind::Integer,
        Schema::Number => SchemaKind::Number,
        Schema::Str(_) => SchemaKind::Str,
        Schema::Array(_) => SchemaKind::Array,
        _ => SchemaKind::Object,
    }
}

/// The kinds agree: `null` matches anything, and a number matches both
/// numeric types.
pub open spec fn kind_matches(v: Json, s: Schema) -> bool {
    match (v, s) {
        (Json::Null, _) => true,
        (_, Schema::Untyped) => true,
        (Json::Bool(_), Schema::Boolean) => true,
        (Json::Number, Schema::Integer) => true,
        (Json::Number, Schema::Number) => true,
        (Json::Str(_), Schema::Str(_)) => true,
        (Json::Array(_), Schema::Array(_)) => true,
        (Json::Object(_), Schema::Object(_)) => true,
        _ => false,
    }
}

/// The format a string schema declares, when it is one that is checked.
pub open spec fn declared_format(fmt: Seq<char>) -> Option<KnownFormat> {
    if fmt == "uuid"@ {
        Some(KnownFormat::Uuid)
    } else if fmt == "date"@ {
        Some(KnownFormat::Date)
    } else if fmt == "date-time"@ {
        Some(KnownFormat::DateTime)
    } else {
        None
    }
}

/// The disparities of a string: against its declared format, or, when it
/// declares none, a nudge to declare the format it visibly follows. A
/// custom format is not checked.
pub open spec fn check_string(t: Seq<char>, fmt: Option<Seq<char>>, loc: Seq<Seq<char>>) -> Seq<DisparityView> {
    match fmt {
        Some(f) if f.len() > 0 => match declared_format(f) {
            Some(k) => if follows_format(t, k) {
                Seq::empty()
            } else {
                seq![(DisparityKind::FormatMismatch(k), loc)]
            },
            None => Seq::empty(),
        },
        _ => if follows_format(t, KnownFormat::Uuid) {
            seq![(DisparityKind::UndeclaredFormat(KnownFormat::Uuid), loc)]
        } else if follows_format(t, KnownFormat::DateTime) {
            seq![(DisparityKind::UndeclaredFormat(KnownFormat::DateTime), loc)]
        } else if follows_format(t, KnownFormat::Date) {
            seq![(DisparityKind::UndeclaredFormat(KnownFormat::Date), loc)]
        } else {
            Seq::empty()
        },
    }
}

/// The index of the declared property with the given name.
pub open spec fn property_index(decl: Seq<(String, Schema)>, name: Seq<char>) -> Option<int>
    decreases decl.len(),
{
    if decl.len() == 0 {
        None
    } else {
        match property_index(decl.drop_last(), name) {
            Some(i) => Some(i),
            None => if decl.last().0@ == name { Some(decl.len() - 1) } else { None },
        }
    }
}

/// The disparities of a value against its schema node, at `loc`.
pub open spec fn check_value(v: Json, s: Schema, loc: Seq<Seq<char>>) -> Seq<DisparityView>
    decreases v, 1int, 0int,
{
    if v is Null || s is Untyped {
        Seq::empty()
    } else if !kind_matches(v, s) {
        seq![(DisparityKind::TypeMismatch { value: kind_of(v), declared: schema_kind(s) }, loc)]
    } else {
        match (v, s) {
            (Json::Array(items), Schema::Array(Some(item))) => if items@.len() == 0 {
                Seq::empty()
            } else {
                check_value(items@[0], *item, loc.push("items"@))
            },
            (Json::Object(props), Schema::Object(decl)) => check_props(v, decl@, loc, props@.len() as int),
            (Json::Str(t), Schema::Str(fmt)) => check_string(t@, opt_view(fmt), loc),
            _ => Seq::empty(),
        }
    }
}

/// The disparities of the first `n` properties of the object `v`: each
/// declared one against its schema, each undeclared one reported.
pub open spec fn check_props(v: Json, decl: Seq<(String, Schema)>, loc: Seq<Seq<char>>, n: int) -> Seq<DisparityView>
    decreases v, 0int, n,
{
    if let Json::Object(props) = v {
        if n <= 0 || n > props@.len() {
            Seq::empty()
        } else {
            let (name, value) = props@[n - 1];
            let here = match property_index(decl, name@) {
                Some(i) => check_value(value, decl[i].1, loc.push(name@)),
                None => seq![(DisparityKind::UndocumentedProperty(name), loc)],
            };
            check_props(v, decl, loc, n - 1) + here
        }
    } else {
        Seq::empty()
    }
}

} // verus!

verus! {

/// Whether the text follows the known format.
pub fn check_format(t: &str, f: KnownFormat) -> (r: bool)
    ensures
        r == follows_format(t@, f),
{
    let pattern = match f {
        KnownFormat::Uuid => UUID_STRING,
        KnownFormat::Date => DATE_STRING,
        KnownFormat::DateTime => DATETIME_STRING,
    };
    match regex_is_match(pattern, t) {
        Some(b) => b,
        None => false,
    }
}

/// The disparity of a string, if any (see [`check_string`]).
pub fn validate_string(t: &str, fmt: &Option<String>, loc: &Location) -> (r: Option<Disparity>)
    ensures
        match r {
            None => check_string(t@, opt_view(*fmt), loc@) == Seq::<DisparityView>::empty(),
            Some(d) => check_string(t@, opt_view(*fmt), loc@) == seq![d@],
        },
{
    proof {
        reveal_strlit("uuid");
        reveal_strlit("date");
        reveal_strlit("date-time");
    }
    let declared = match fmt {
        Some(f) => !f.as_str().is_empty(),
        None => false,
    };
    if declared {
        let f = match fmt {
            Some(f) => f.as_str(),
            None => "",
        };
        let known = if same_text(f, "uuid") {
            Some(KnownFormat::Uuid)
        } else if same_text(f, "date") {
            Some(KnownFormat::Date)
        } else if same_text(f, "date-time") {
            Some(KnownFormat::DateTime)
        } else {
            None
        };
        proof {
            assert(f@.len() > 0);
            assert(known == declared_format(f@));
        }
        match known {
            Some(k) => if check_format(t, k) {
                None
            } else {
                Some(Disparity::new(DisparityKind::FormatMismatch(k), loc.duplicate()))
            },
            None => None,
        }
    } else {
        proof {
            match fmt {
                Some(f) => { assert(f@.len() == 0); },
                None => {},
            }
        }
        if check_format(t, KnownFormat::Uuid) {
            Some(Disparity::new(DisparityKind::UndeclaredFormat(KnownFormat::Uuid), loc.duplicate()))
        } else if check_format(t, KnownFormat::DateTime) {
            Some(Disparity::new(DisparityKind::UndeclaredFormat(KnownFormat::DateTime), loc.duplicate()))
        } else if check_format(t, KnownFormat::Date) {
            Some(Disparity::new(DisparityKind::UndeclaredFormat(KnownFormat::Date), loc.duplicate()))
        } else {
            None
        }
    }
}

/// The declared property with the given name, if any.
pub fn find_property(decl: &Vec<(String, Schema)>, name: &str) -> (r: Option<usize>)
    ensures
        match r {
            Some(i) => property_index(decl@, name@) == Some(i as int) && i < decl@.len(),
            None => property_index(decl@, name@) is None,
        },
{
    let mut i: usize = 0;
    while i < decl.len()
        invariant
            i <= decl.len(),
            property_index(decl@.subrange(0, i as int), name@) is None,
        decreases decl.len() - i,
    {
        proof {
            assert(decl@.subrange(0, i + 1).drop_last() =~= decl@.subrange(0, i as int));
        }
        if same_text(decl[i].0.as_str(), name) {
            proof {
                lemma_property_index_prefix(decl@, name@, i + 1);
            }
            return Some(i);
        }
        i = i + 1;
    }
    proof {
        assert(decl@.subrange(0, decl@.len() as int) =~= decl@);
    }
    None
}

proof fn lemma_property_index_prefix(decl: Seq<(String, Schema)>, name: Seq<char>, n: int)
    requires
        0 <= n <= decl.len(),
        property_index(decl.subrange(0, n), name) is Some,
    ensures
        property_index(decl, name) == property_index(decl.subrange(0, n), name),
    decreases decl.len() - n,
{
    if n < decl.len() {
        assert(decl.subrange(0, n + 1).drop_last() =~= decl.subrange(0, n));
        lemma_property_index_prefix(decl, name, n + 1);
    } else {
        assert(decl.subrange(0, n) =~= decl);
    }
}

fn json_kind(v: &Json) -> (r: JsonKind)
    ensures
        r == kind_of(*v),
{
    match v {
        Json::Null => JsonKind::Null,
        Json::Bool(_) => JsonKind::Bool,
        Json::Number => JsonKind::Number,
        Json::Str(_) => JsonKind::Str,
        Json::Array(_) => JsonKind::Array,
        Json::Object(_) => JsonKind::Object,
    }
}

fn declared_kind(s: &Schema) -> (r: SchemaKind)
    ensures
        r == schema_kind(*s),
{
    match s {
        Schema::Boolean => SchemaKind::Boolean,
        Schema::Integer => SchemaKind::Integer,
        Schema::Number => SchemaKind::Number,
        Schema::Str(_) => SchemaKind::Str,
        Schema::Array(_) => SchemaKind::Array,
        _ => SchemaKind::Object,
    }
}

fn kinds_agree(v: &Json, s: &Schema) -> (r: bool)
    ensures
        r == kind_matches(*v, *s),
{
    match (v, s) {
        (Json::Null, _) => true,
        (_, Schema::Untyped) => true,
        (Json::Bool(_), Schema::Boolean) => true,
        (Json::Number, Schema::Integer) => true,
        (Json::Number, Schema::Number) => true,
        (Json::Str(_), Schema::Str(_)) => true,
        (Json::Array(_), Schema::Array(_)) => true,
        (Json::Object(_), Schema::Object(_)) => true,
        _ => false,
    }
}

/// Checks a value against its schema node at `loc`, appending what it
/// finds: a kind mismatch stops the descent there; an array is checked
/// through its first item; each property of an object is checked against
/// its declaration or reported as undocumented; a string is checked
/// against its format. `null` matches anything.
pub fn validate_value(v: &Json, s: &Schema, loc: &Location, out: &mut DisparityList)
    ensures
        final(out)@ == old(out)@ + check_value(*v, *s, loc@),
    decreases v,
{
    let ghost start = out@;
    if matches!(v, Json::Null) || matches!(s, Schema::Untyped) {
        proof {
            assert(out@ =~= start + check_value(*v, *s, loc@));
        }
        return;
    }
    if !kinds_agree(v, s) {
        let kind = DisparityKind::TypeMismatch { value: json_kind(v), declared: declared_kind(s) };
        out.push(Disparity::new(kind, loc.duplicate()));
        return;
    }
    match (v, s) {
        (Json::Array(items), Schema::Array(Some(item))) => {
            if items.len() > 0 {
                let next = loc.add("items");
                proof {
                    reveal_strlit("items");
                }
                validate_value(&items[0], item, &next, out);
            } else {
                proof {
                    assert(out@ =~= start + check_value(*v, *s, loc@));
                }
            }
        },
        (Json::Object(props), Schema::Object(decl)) => {
            let mut i: usize = 0;
            proof {
                assert(out@ =~= start + check_props(*v, decl@, loc@, 0));
            }
            while i < props.len()
                invariant
                    *v == Json::Object(*props),
                    i <= props.len(),
                    out@ == start + check_props(*v, decl@, loc@, i as int),
                decreases props.len() - i,
            {
                let ghost before = out@;
                let name = &props[i].0;
                let value = &props[i].1;
                match find_property(decl, name.as_str()) {
                    Some(k) => {
                        let next = loc.add(name.as_str());
                        validate_value(value, &decl[k].1, &next, out);
                    },
                    None => {
                        out.push(Disparity::new(DisparityKind::UndocumentedProperty(name.clone()), loc.duplicate()));
                    },
                }
                proof {
                    assert(out@ =~= start + check_props(*v, decl@, loc@, i + 1));
                }
                i = i + 1;
            }
        },
        (Json::Str(t), Schema::Str(fmt)) => {
            let d = validate_string(t.as_str(), fmt, loc);
            out.option_push(d);
            proof {
                assert(out@ =~= start + check_value(*v, *s, loc@));
            }
        },
        _ => {
            proof {
                assert(out@ =~= start + check_value(*v, *s, loc@));
            }
        },
    }
}

} // verus!

verus! {

/// A response as the service sent it.
#[derive(Debug)]
pub struct ServiceResponse {
    pub status: u16,
    /// The `Content-Type` header, if present.
    pub content_type: Option<String>,
    /// The body parsed as JSON; `None` when it does not parse.
    pub body: Option<Json>,
}

/// The status codes whose bodies the application itself defines, and so
/// must document.
pub open spec fn application_defined(code: u16) -> bool {
    code == 200 || code == 400 || code == 403 || code == 404 || code == 409 || code == 422 || code == 423
}

/// Whether the application defines the body of this status code.
pub fn is_application_defined_code(expected: u16) -> (r: bool)
    ensures
        r == application_defined(expected),
{
    expected == 200 || expected == 400 || expected == 403 || expected == 404 || expected == 409
        || expected == 422 || expected == 423
}

/// The schema the body is held to: an error where the application defines
/// the status but the contract does not document it, or documents it
/// without a schema; no schema for the other undocumented statuses.
pub open spec fn extracted(status: u16, body: Option<ResponseSpec>) -> Result<Option<Schema>, DisparityKind> {
    match body {
        None => if application_defined(status) {
            Err(DisparityKind::UndocumentedCode(status))
        } else {
            Ok(None)
        },
        Some(r) => match r.schema {
            Some(s) => Ok(Some(s)),
            None => if application_defined(status) {
                Err(DisparityKind::SchemaNotFound(status))
            } else {
                Ok(None)
            },
        },
    }
}

/// The schema that a documented response gives the body.
pub fn extract_schema<'b>(expected_status_code: u16, expected_body: Option<&'b ResponseSpec>) -> (r: Result<Option<&'b Schema>, DisparityKind>)
    ensures
        match expected_body {
            None => r == match extracted(expected_status_code, None) {
                Ok(_) => Ok(None),
                Err(k) => Err::<Option<&Schema>, DisparityKind>(k),
            },
            Some(b) => match (r, extracted(expected_status_code, Some(*b))) {
                (Ok(Some(s)), Ok(Some(t))) => *s == t,
                (Ok(None), Ok(None)) => true,
                (Err(k), Err(j)) => k == j,
                _ => false,
            },
        },
{
    match expected_body {
        None => if is_application_defined_code(expected_status_code) {
            Err(DisparityKind::UndocumentedCode(expected_status_code))
        } else {
            Ok(None)
        },
        Some(body) => match &body.schema {
            Some(s) => Ok(Some(s)),
            None => if is_application_defined_code(expected_status_code) {
                Err(DisparityKind::SchemaNotFound(expected_status_code))
            } else {
                Ok(None)
            },
        },
    }
}

/// The documented response a scenario expects, as a value.
pub open spec fn expected_body(body: Option<&ResponseSpec>) -> Option<ResponseSpec> {
    match body {
        Some(b) => Some(*b),
        None => None,
    }
}

/// Everything found in a response, before truncation: the status, the
/// content type (which must hold the expected one, so that a charset
/// suffix passes), and the body against the schema of the expected status.
pub open spec fn validation(
    response: ServiceResponse,
    status: u16,
    content_type: Seq<char>,
    body: Option<ResponseSpec>,
) -> Seq<DisparityView> {
    let root = Seq::<Seq<char>>::empty();
    let part1 = if response.status != status {
        seq![(DisparityKind::StatusDisparity { expected: status, found: response.status }, root)]
    } else {
        Seq::empty()
    };
    let part2 = match response.content_type {
        None => seq![(DisparityKind::IncorrectContentType(None), root)],
        Some(c) => if occurs_in(c@, content_type) {
            Seq::empty()
        } else {
            seq![(DisparityKind::IncorrectContentType(Some(c)), root)]
        },
    };
    let part3 = match extracted(status, body) {
        Err(k) => seq![(k, root)],
        Ok(Some(s)) => match response.body {
            None => seq![(DisparityKind::JsonError, root)],
            Some(v) => check_value(v, s, root),
        },
        Ok(None) => Seq::empty(),
    };
    part1 + part2 + part3
}

/// At most the first `MAX_DISPARITIES` disparities.
pub open spec fn truncated(ds: Seq<DisparityView>) -> Seq<DisparityView> {
    if ds.len() > MAX_DISPARITIES { ds.subrange(0, MAX_DISPARITIES as int) } else { ds }
}

/// Checks a response against what its scenario expects and lists the
/// disparities, at most `MAX_DISPARITIES` of them.
pub fn validate(response: &ServiceResponse, expectation: &crate::scenario::ScenarioExpectation) -> (r: DisparityList)
    ensures
        r@ == truncated(validation(*response, expectation.status_code, expectation.content_type@, expected_body(expectation.body))),
{
    let mut out = DisparityList::new();
    let status = expectation.status_code;
    if response.status != status {
        out.push(Disparity::new(
            DisparityKind::StatusDisparity { expected: status, found: response.status },
            Location::empty(),
        ));
    }
    match &response.content_type {
        None => {
            out.push(Disparity::new(DisparityKind::IncorrectContentType(None), Location::empty()));
        },
        Some(c) => {
            if !str_contains(c.as_str(), expectation.content_type.as_str()) {
                out.push(Disparity::new(DisparityKind::IncorrectContentType(Some(c.clone())), Location::empty()));
            }
        },
    }
    match extract_schema(status, expectation.body) {
        Err(k) => {
            out.push(Disparity::new(k, Location::empty()));
        },
        Ok(Some(s)) => match &response.body {
            None => {
                out.push(Disparity::new(DisparityKind::JsonError, Location::empty()));
            },
            Some(v) => {
                let root = Location::empty();
                validate_value(v, s, &root, &mut out);
            },
        },
        Ok(None) => {},
    }
    proof {
        assert(out@ =~= validation(*response, status, expectation.content_type@, expected_body(expectation.body)));
    }
    out.inner.truncate(MAX_DISPARITIES);
    proof {
        assert(out@ =~= truncated(validation(*response, status, expectation.content_type@, expected_body(expectation.body))));
    }
    out
}

} // verus!

verus! {

proof fn lemma_props_prefix_empty(v: Json, decl: Seq<(String, Schema)>, loc: Seq<Seq<char>>, n: int, m: int)
    requires
        v is Object,
        0 <= n <= m <= v->Object_0@.len(),
        check_props(v, decl, loc, m).len() == 0,
    ensures
        check_props(v, decl, loc, n).len() == 0,
    decreases m - n,
{
    if n < m {
        assert(check_props(v, decl, loc, m - 1).len() <= check_props(v, decl, loc, m).len());
        lemma_props_prefix_empty(v, decl, loc, n, m - 1);
    }
}

proof fn lemma_property_index_range(decl: Seq<(String, Schema)>, name: Seq<char>)
    ensures
        property_index(decl, name) matches Some(i) ==> 0 <= i < decl.len() && decl[i].0@ == name,
    decreases decl.len(),
{
    if decl.len() > 0 {
        lemma_property_index_range(decl.drop_last(), name);
    }
}

proof fn lemma_one_mismatch(
    v: Json,
    v2: Json,
    decl: Seq<(String, Schema)>,
    loc: Seq<Seq<char>>,
    k: int,
    n: int,
)
    requires
        v is Object,
        v2 is Object,
        ({
            let ps = v->Object_0@;
            let qs = v2->Object_0@;
            &&& ps.len() == qs.len()
            &&& 0 <= k < ps.len()
            &&& 0 <= n <= ps.len()
            &&& forall|i: int| 0 <= i < ps.len() && i != k ==> #[trigger] qs[i] == ps[i]
            &&& qs[k].0 == ps[k].0
            &&& property_index(decl, ps[k].0@) is Some
            &&& !(qs[k].1 is Null)
            &&& !(decl[property_index(decl, ps[k].0@)->0].1 is Untyped)
            &&& !kind_matches(qs[k].1, decl[property_index(decl, ps[k].0@)->0].1)
        }),
        check_props(v, decl, loc, v->Object_0@.len() as int).len() == 0,
    ensures
        ({
            let ps = v->Object_0@;
            let qs = v2->Object_0@;
            let s = decl[property_index(decl, ps[k].0@)->0].1;
            check_props(v2, decl, loc, n) == if n > k {
                seq![(DisparityKind::TypeMismatch { value: kind_of(qs[k].1), declared: schema_kind(s) }, loc.push(ps[k].0@))]
            } else {
                Seq::empty()
            }
        }),
    decreases n,
{
    let ps = v->Object_0@;
    let qs = v2->Object_0@;
    lemma_property_index_range(decl, ps[k].0@);
    if n > 0 {
        lemma_one_mismatch(v, v2, decl, loc, k, n - 1);
        lemma_props_prefix_empty(v, decl, loc, n, ps.len() as int);
        let here1 = match property_index(decl, ps[n - 1].0@) {
            Some(i) => check_value(ps[n - 1].1, decl[i].1, loc.push(ps[n - 1].0@)),
            None => seq![(DisparityKind::UndocumentedProperty(ps[n - 1].0), loc)],
        };
        let here2 = match property_index(decl, qs[n - 1].0@) {
            Some(i) => check_value(qs[n - 1].1, decl[i].1, loc.push(qs[n - 1].0@)),
            None => seq![(DisparityKind::UndocumentedProperty(qs[n - 1].0), loc)],
        };
        assert(check_props(v, decl, loc, n) == check_props(v, decl, loc, n - 1) + here1);
        assert(check_props(v2, decl, loc, n) == check_props(v2, decl, loc, n - 1) + here2);
        if n - 1 != k {
            assert(qs[n - 1] == ps[n - 1]);
            assert(here1.len() == 0);
            assert(here2 =~= Seq::<DisparityView>::empty());
        } else {
            let t = decl[property_index(decl, ps[k].0@)->0].1;
            assert(here2 == check_value(qs[k].1, t, loc.push(ps[k].0@)));
        }
        assert(check_props(v2, decl, loc, n) =~= if n > k {
            seq![(DisparityKind::TypeMismatch { value: kind_of(qs[k].1), declared: schema_kind(decl[property_index(decl, ps[k].0@)->0].1) }, loc.push(ps[k].0@))]
        } else {
            Seq::<DisparityView>::empty()
        });
    }
}

/// A string follows its declaration: the declared known format, or, when
/// none is declared, none of the known formats; a custom format accepts
/// anything.
pub open spec fn string_conforms(t: Seq<char>, fmt: Option<Seq<char>>) -> bool {
    match fmt {
        Some(f) if f.len() > 0 => match declared_format(f) {
            Some(k) => follows_format(t, k),
            None => true,
        },
        _ => !follows_format(t, KnownFormat::Uuid) && !follows_format(t, KnownFormat::DateTime)
            && !follows_format(t, KnownFormat::Date),
    }
}

/// A value structurally matches its schema node: `null` and untyped nodes
/// match anything; otherwise the kinds agree, the first item of an array
/// matches the item schema, every property of an object is declared and
/// matches its declaration, and a string follows its declared format.
pub open spec fn conforms(v: Json, s: Schema) -> bool
    decreases v, 1int, 0int,
{
    if v is Null || s is Untyped {
        true
    } else {
        &&& kind_matches(v, s)
        &&& match (v, s) {
            (Json::Array(items), Schema::Array(Some(item))) => items@.len() == 0 || conforms(items@[0], *item),
            (Json::Object(props), Schema::Object(decl)) => props_conform(v, decl@, props@.len() as int),
            (Json::Str(t), Schema::Str(fmt)) => string_conforms(t@, opt_view(fmt)),
            _ => true,
        }
    }
}

/// The first `n` properties of the object `v` are declared and match.
pub open spec fn props_conform(v: Json, decl: Seq<(String, Schema)>, n: int) -> bool
    decreases v, 0int, n,
{
    if let Json::Object(props) = v {
        if n <= 0 || n > props@.len() {
            true
        } else {
            let (name, value) = props@[n - 1];
            &&& props_conform(v, decl, n - 1)
            &&& match property_index(decl, name@) {
                Some(i) => conforms(value, decl[i].1),
                None => false,
            }
        }
    } else {
        true
    }
}

proof fn lemma_conforms(v: Json, s: Schema, loc: Seq<Seq<char>>)
    requires
        conforms(v, s),
    ensures
        check_value(v, s, loc) == Seq::<DisparityView>::empty(),
    decreases v, 1int, 0int,
{
    if !(v is Null || s is Untyped) {
        match (v, s) {
            (Json::Array(items), Schema::Array(Some(item))) => {
                if items@.len() > 0 {
                    lemma_conforms(items@[0], *item, loc.push("items"@));
                }
            },
            (Json::Object(props), Schema::Object(decl)) => {
                lemma_props_conform(v, decl@, loc, props@.len() as int);
            },
            _ => {},
        }
    }
}

proof fn lemma_props_conform(v: Json, decl: Seq<(String, Schema)>, loc: Seq<Seq<char>>, n: int)
    requires
        props_conform(v, decl, n),
    ensures
        check_props(v, decl, loc, n) == Seq::<DisparityView>::empty(),
    decreases v, 0int, n,
{
    if let Json::Object(props) = v {
        if 0 < n <= props@.len() {
            lemma_props_conform(v, decl, loc, n - 1);
            let (name, value) = props@[n - 1];
            let i = property_index(decl, name@)->0;
            lemma_conforms(value, decl[i].1, loc.push(name@));
            assert(check_props(v, decl, loc, n) =~= Seq::<DisparityView>::empty());
        }
    }
}

/// A response whose status and content type are the expected ones and
/// whose body structurally matches the documented schema yields no
/// disparity.
pub proof fn law_conforming_response_passes(
    response: ServiceResponse,
    status: u16,
    content_type: Seq<char>,
    body: ResponseSpec,
)
    requires
        response.status == status,
        response.content_type matches Some(c) && occurs_in(c@, content_type),
        body.schema matches Some(s) && (response.body matches Some(v) && conforms(v, s)),
    ensures
        validation(response, status, content_type, Some(body)) == Seq::<DisparityView>::empty(),
{
    lemma_conforms(response.body->0, body.schema->0, Seq::empty());
    assert(validation(response, status, content_type, Some(body)) =~= Seq::<DisparityView>::empty());
}

/// Replacing the value of one declared, typed property of an object body
/// that passes its schema by a non-null value of another JSON kind yields
/// exactly one disparity: a kind mismatch located at that property.
pub proof fn law_one_property_one_disparity(
    v: Json,
    v2: Json,
    s: Schema,
    loc: Seq<Seq<char>>,
    k: int,
)
    requires
        s is Object,
        v is Object,
        v2 is Object,
        check_value(v, s, loc).len() == 0,
        ({
            let ps = v->Object_0@;
            let qs = v2->Object_0@;
            let decl = s->Object_0@;
            &&& ps.len() == qs.len()
            &&& 0 <= k < ps.len()
            &&& forall|i: int| 0 <= i < ps.len() && i != k ==> #[trigger] qs[i] == ps[i]
            &&& qs[k].0 == ps[k].0
            &&& property_index(decl, ps[k].0@) is Some
            &&& !(decl[property_index(decl, ps[k].0@)->0].1 is Untyped)
            &&& !(ps[k].1 is Null)
            &&& !(qs[k].1 is Null)
            &&& kind_of(qs[k].1) != kind_of(ps[k].1)
        }),
    ensures
        ({
            let ps = v->Object_0@;
            let qs = v2->Object_0@;
            let decl = s->Object_0@;
            let t = decl[property_index(decl, ps[k].0@)->0].1;
            check_value(v2, s, loc) == seq![
                (DisparityKind::TypeMismatch { value: kind_of(qs[k].1), declared: schema_kind(t) }, loc.push(ps[k].0@))
            ]
        }),
{
    let decl = s->Object_0@;
    let ps = v->Object_0@;
    let qs = v2->Object_0@;
    let j = property_index(decl, ps[k].0@)->0;
    let t = decl[j].1;
    assert(check_value(v, s, loc) == check_props(v, decl, loc, ps.len() as int));
    lemma_props_prefix_empty(v, decl, loc, k + 1, ps.len() as int);
    assert(check_props(v, decl, loc, k + 1) == check_props(v, decl, loc, k) + check_value(ps[k].1, t, loc.push(ps[k].0@)));
    assert(kind_matches(ps[k].1, t));
    assert(!kind_matches(qs[k].1, t));
    lemma_one_mismatch(v, v2, decl, loc, k, ps.len() as int);
}

} // verus!
