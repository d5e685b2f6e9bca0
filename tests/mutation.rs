use daedalus::instructions::{schema_mutagen, schema_mutagens, Mutagen, RequestPart};
use daedalus::literal::decimal_text;
use daedalus::mutation::{
    below_min, boolean_mutations, format_value, integer_mutations, mutate, over_max, string_mutations,
    Mutation, MutationValue, ParamLocation, ParamType, ParameterDescriptor, StringFormat,
};

fn value(m: &Mutation) -> Option<String> {
    match &m.payload {
        MutationValue::Param(p) => p.value.clone(),
        MutationValue::Value(v) => Some(v.clone()),
    }
}

fn pairs(ms: &[Mutation]) -> Vec<(String, Option<String>, u16)> {
    ms.iter().map(|m| (format!("{:?}", m.mutagen.mutagen), value(m), m.mutagen.expected)).collect()
}

fn find<'a>(ms: &'a [Mutation], tag: &str) -> Vec<&'a Mutation> {
    ms.iter().filter(|m| format!("{:?}", m.mutagen.mutagen) == tag).collect()
}

#[test]
fn integer_boundaries_saturate() {
    assert_eq!(over_max(i64::MAX), i64::MAX);
    assert_eq!(over_max(100), 101);
    assert_eq!(below_min(1), 0);
    assert_eq!(below_min(i64::MIN), i64::MIN);
}

#[test]
fn integer_candidates_in_order() {
    let m = integer_mutations("count", 1, 100);
    assert_eq!(
        pairs(&m.variations),
        vec![
            ("ParamProper".to_string(), Some("50".to_string()), 200),
            ("Minimum".to_string(), Some("1".to_string()), 200),
            ("Maximum".to_string(), Some("100".to_string()), 200),
            ("BelowMinimum".to_string(), Some("0".to_string()), 422),
            ("OverMaximum".to_string(), Some("101".to_string()), 422),
            ("WrongPattern".to_string(), Some("NotAnInteger".to_string()), 422),
        ]
    );
}

#[test]
fn integer_at_the_largest_value_has_no_over_maximum() {
    let m = integer_mutations("count", 1, i64::MAX);
    assert!(find(&m.variations, "OverMaximum").is_empty());
    let max = find(&m.variations, "Maximum");
    assert_eq!(value(max[0]), Some(i64::MAX.to_string()));
    assert_eq!(value(&m.variations[0]), Some((i64::MAX / 2).to_string()));
    let low = integer_mutations("count", i64::MIN, -3);
    assert!(find(&low.variations, "BelowMinimum").is_empty());
    assert_eq!(value(&low.variations[0]), Some("-1".to_string()));
}

#[test]
fn pagination_gets_one_proper_value() {
    for name in ["page", "per_page"] {
        let m = integer_mutations(name, -5, 7);
        assert_eq!(pairs(&m.variations), vec![("ParamProper".to_string(), Some("1".to_string()), 200)]);
    }
}

#[test]
fn boolean_candidates() {
    let m = boolean_mutations("active");
    assert_eq!(
        pairs(&m.variations),
        vec![
            ("ParamProper".to_string(), Some("false".to_string()), 200),
            ("WrongPattern".to_string(), Some("NotABool".to_string()), 422),
        ]
    );
    let coerced = boolean_mutations("include_count");
    assert_eq!(pairs(&coerced.variations), vec![("ParamProper".to_string(), Some("false".to_string()), 200)]);
}

#[test]
fn enumeration_coverage() {
    let m = string_mutations("kind", &None, &vec!["a".to_string(), "b".to_string()], None, None);
    let members: Vec<Option<String>> = find(&m.variations, "EnumerationElement").iter().map(|m| value(m)).collect();
    assert_eq!(members, vec![Some("a".to_string()), Some("b".to_string())]);
    let outside = find(&m.variations, "NotEnumerationElement");
    assert!(!outside.is_empty());
    assert!(outside.iter().all(|m| m.mutagen.expected == 422));
    assert!(outside.iter().any(|m| value(m) != Some("a".to_string()) && value(m) != Some("b".to_string())));
    let values: Vec<Option<String>> = m.variations.iter().map(value).collect();
    assert_eq!(
        values,
        vec![
            Some("a".to_string()),
            Some("A".to_string()),
            Some("b".to_string()),
            Some("B".to_string()),
            Some("".to_string()),
            Some("NotInAnyEnum".to_string()),
        ]
    );
}

#[test]
fn upper_case_members_get_no_case_flip() {
    let m = string_mutations("kind", &None, &vec!["ABC".to_string()], None, None);
    assert_eq!(m.variations.len(), 3);
    assert_eq!(find(&m.variations, "NotEnumerationElement").len(), 2);
}

#[test]
fn string_length_boundaries() {
    let m = string_mutations("code", &None, &vec![], Some(3), Some(5));
    assert_eq!(
        pairs(&m.variations),
        vec![
            ("BelowMinimumLength".to_string(), Some("NN".to_string()), 422),
            ("MinimumLength".to_string(), Some("GGG".to_string()), 200),
            ("MaximumLength".to_string(), Some("GGGGG".to_string()), 200),
            ("OverMaximumLength".to_string(), Some("XXXXXX".to_string()), 422),
        ]
    );
    let short = string_mutations("code", &None, &vec![], Some(1), None);
    assert_eq!(pairs(&short.variations), vec![("MinimumLength".to_string(), Some("G".to_string()), 200)]);
    let free = string_mutations("code", &None, &vec![], None, None);
    assert!(free.variations.is_empty());
}

#[test]
fn formatted_strings() {
    let date = string_mutations("day", &Some(StringFormat::Date), &vec![], None, None);
    assert_eq!(
        pairs(&date.variations),
        vec![
            ("ParamProper".to_string(), Some("2019-11-28".to_string()), 200),
            ("WrongPattern".to_string(), Some("NotValidValueForFormat".to_string()), 422),
        ]
    );
    assert_eq!(format_value(&StringFormat::DateTime), Some("2019-11-28T12:00:09Z".to_string()));
    assert_eq!(format_value(&StringFormat::Other("uuid".to_string())), None);
    assert_eq!(format_value(&StringFormat::Other("mdsol_uri".to_string())), None);
    assert_eq!(format_value(&StringFormat::Other("email".to_string())), None);
    let id = string_mutations("id", &Some(StringFormat::Other("uuid".to_string())), &vec![], None, None);
    assert_eq!(pairs(&id.variations), vec![("WrongPattern".to_string(), Some("NotValidValueForFormat".to_string()), 422)]);
}

fn descriptor(name: &str, required: bool, param_type: Option<ParamType>) -> ParameterDescriptor {
    ParameterDescriptor { name: name.to_string(), location: ParamLocation::Query, required, param_type }
}

#[test]
fn parameter_candidates_start_with_absence() {
    let optional = mutate(&descriptor("flag", false, Some(ParamType::Boolean)), None);
    assert_eq!(
        pairs(&optional.variations),
        vec![
            ("Absent".to_string(), None, 200),
            ("ParamProper".to_string(), Some("false".to_string()), 200),
            ("WrongPattern".to_string(), Some("NotABool".to_string()), 422),
        ]
    );
    let required = mutate(&descriptor("flag", true, Some(ParamType::Boolean)), None);
    assert_eq!(required.variations[0].mutagen.request_part, RequestPart::RequiredParam);
    assert_eq!(required.variations[0].mutagen.expected, 422);
}

#[test]
fn known_values_come_after_absence() {
    let known = mutate(&descriptor("id", true, Some(ParamType::Boolean)), Some("K".to_string()));
    assert_eq!(
        pairs(&known.variations),
        vec![
            ("Absent".to_string(), None, 422),
            ("ParamProper".to_string(), Some("K".to_string()), 200),
            ("ParamProper".to_string(), Some("false".to_string()), 200),
            ("WrongPattern".to_string(), Some("NotABool".to_string()), 422),
        ]
    );
    let arr = mutate(&descriptor("ids", false, Some(ParamType::Array)), Some("K".to_string()));
    assert_eq!(value(&arr.variations[2]), Some("notAnArray".to_string()));
}

#[test]
fn refused_enumeration_values_are_never_members() {
    let empty_member = string_mutations("kind", &None, &vec!["".to_string()], None, None);
    let values: Vec<Option<String>> = empty_member.variations.iter().map(value).collect();
    assert_eq!(values, vec![Some("".to_string()), Some("NotInAnyEnum".to_string())]);
    assert_eq!(empty_member.variations[0].mutagen.expected, 200);
    let cased = string_mutations("kind", &None, &vec!["a".to_string(), "A".to_string()], None, None);
    let refused: Vec<Option<String>> = find(&cased.variations, "NotEnumerationElement").iter().map(|m| value(m)).collect();
    assert_eq!(refused, vec![Some("".to_string()), Some("NotInAnyEnum".to_string())]);
}

#[test]
fn untyped_parameters_get_nothing_and_collections_a_wrong_value() {
    assert!(mutate(&descriptor("x", false, None), None).variations.is_empty());
    let arr = mutate(&descriptor("xs", false, Some(ParamType::Array)), None);
    assert_eq!(value(&arr.variations[1]), Some("notAnArray".to_string()));
    let obj = mutate(&descriptor("o", false, Some(ParamType::Object)), None);
    assert_eq!(value(&obj.variations[1]), Some("notAnObject".to_string()));
}

#[test]
fn decimal_texts() {
    assert_eq!(decimal_text(0), "0");
    assert_eq!(decimal_text(-42), "-42");
    assert_eq!(decimal_text(i64::MIN), i64::MIN.to_string());
    assert_eq!(decimal_text(i64::MAX), i64::MAX.to_string());
}

#[test]
fn schema_instruction_table() {
    assert_eq!(schema_mutagens().len(), 14);
    let absent = schema_mutagen(&Mutagen::Absent);
    assert_eq!(absent.len(), 2);
    assert_eq!(absent[0].expected, 422);
    assert_eq!(absent[1].expected, 200);
    assert!(schema_mutagen(&Mutagen::PathRandom).is_empty());
}
