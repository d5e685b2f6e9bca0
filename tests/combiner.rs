use daedalus::combiner::{combinations, sort_axis};
use daedalus::instructions::{Mutagen, MutagenInstruction, RequestPart};
use daedalus::mutation::Mutation;

fn cand(expected: u16, v: &str) -> Mutation {
    Mutation::new(
        MutagenInstruction { mutagen: Mutagen::ParamProper, request_part: RequestPart::Path, expected },
        v.to_string(),
    )
}

fn axis(statuses: &[u16]) -> Vec<Mutation> {
    statuses.iter().enumerate().map(|(i, s)| cand(*s, &i.to_string())).collect()
}

#[test]
fn one_factor_at_a_time_count() {
    let axes = vec![axis(&[200]), axis(&[200, 404]), axis(&[200, 422, 422])];
    let combos = combinations(&axes);
    assert_eq!(combos.len(), 1 + 0 + 1 + 2);
    assert_eq!(combos[0], vec![0, 0, 0]);
    assert_eq!(combos[1], vec![0, 1, 0]);
    assert_eq!(combos[2], vec![0, 0, 1]);
    assert_eq!(combos[3], vec![0, 0, 2]);
}

#[test]
fn failing_baseline_gives_nothing() {
    let axes = vec![axis(&[404]), axis(&[200, 406])];
    assert!(combinations(&axes).is_empty());
    let empty_axis = vec![axis(&[200]), vec![]];
    assert!(combinations(&empty_axis).is_empty());
}

#[test]
fn sorting_puts_passing_candidates_first_and_is_stable() {
    let sorted = sort_axis(vec![cand(422, "a"), cand(200, "b"), cand(404, "c"), cand(200, "d")]);
    let order: Vec<(u16, String)> = sorted
        .iter()
        .map(|m| (m.mutagen.expected, match &m.payload {
            daedalus::mutation::MutationValue::Value(v) => v.clone(),
            _ => String::new(),
        }))
        .collect();
    assert_eq!(
        order,
        vec![(200, "b".to_string()), (200, "d".to_string()), (422, "a".to_string()), (404, "c".to_string())]
    );
}
