use daedalus::known_param::{ConversionEntry, Conversions, KnownValues};

fn entry(path: &str, params: &[(&str, &[&str])]) -> ConversionEntry {
    ConversionEntry {
        path: path.to_string(),
        params: params
            .iter()
            .map(|(name, values)| KnownValues {
                name: name.to_string(),
                values: values.iter().map(|v| v.to_string()).collect(),
            })
            .collect(),
    }
}

fn table() -> Conversions {
    Conversions::new(vec![
        entry("/", &[("uuid", &["03b97130-1be2-42f9-bdaf-e1f6a2b9e269"])]),
        entry("/currencies", &[("uuid", &["facaca04-d759-4d9d-99f5-fe97bd10a996"])]),
        entry("/users", &[("uuid", &["11197130-1be2-42f9-bdaf-e1f6a2b9e111"])]),
    ])
}

#[test]
fn testing_param_values() {
    let conversions = table();
    let all_matches = conversions.for_path("/");
    assert_eq!(all_matches.param_value("uuid"), Some("03b97130-1be2-42f9-bdaf-e1f6a2b9e269".to_string()));
    assert_eq!(all_matches.param_value("itisnothere"), None);
    let user_matches = conversions.for_path("/users");
    assert_eq!(user_matches.param_value("uuid"), Some("11197130-1be2-42f9-bdaf-e1f6a2b9e111".to_string()));
}

#[test]
fn testing_retrieve_known_paths() {
    let path = "/currencies/{uuid}";
    let result = table().for_path(path).retrieve_known_path(path);
    assert_eq!(result, Some("/currencies/facaca04-d759-4d9d-99f5-fe97bd10a996".to_string()));
}

#[test]
fn specific_entries_win_over_the_default() {
    let t = Conversions::new(vec![entry("/", &[("uuid", &["X"])]), entry("/users", &[("uuid", &["Y"])])]);
    assert_eq!(t.for_path("/users/123").param_value("uuid"), Some("Y".to_string()));
    assert_eq!(t.for_path("/orders").param_value("uuid"), Some("X".to_string()));
}

#[test]
fn for_path_keeps_ancestor_entries() {
    let t = table();
    let view = t.for_path("/users/{uuid}");
    let paths: Vec<&str> = view.paths.iter().map(|e| e.path.as_str()).collect();
    assert_eq!(paths, vec!["/", "/users"]);
    assert_eq!(view.matches("uuid"), vec![0, 1]);
    assert!(view.matches("other").is_empty());
}

#[test]
fn multi_placeholder_substitution() {
    let t = Conversions::new(vec![entry("/currencies", &[("uuid", &["V"])])]);
    assert_eq!(t.for_path("/currencies/{uuid}").retrieve_known_path("/currencies/{uuid}"), Some("/currencies/V".to_string()));
    let two = Conversions::new(vec![entry("/users", &[("id", &["7"]), ("tag", &["t"])])]);
    let pattern = "/users/{id}/tags/{tag}/{id}";
    assert_eq!(two.for_path(pattern).retrieve_known_path(pattern), Some("/users/7/tags/t/7".to_string()));
}

#[test]
fn unresolved_templates_give_nothing() {
    let t = Conversions::new(vec![entry("/users", &[("id", &["7"])])]);
    let pattern = "/users/{id}/tags/{tag}";
    assert_eq!(t.for_path(pattern).retrieve_known_path(pattern), None);
    assert_eq!(Conversions::empty().for_path(pattern).retrieve_known_path(pattern), None);
}

#[test]
fn default_resolution_is_the_fallback() {
    let t = Conversions::new(vec![entry("/", &[("id", &["D"])]), entry("/users", &[("other", &["O"])])]);
    let pattern = "/users/{id}";
    assert_eq!(t.for_path(pattern).retrieve_known_path(pattern), Some("/users/D".to_string()));
}

#[test]
fn random_choice_stays_within_the_values() {
    let t = Conversions::new(vec![entry("/", &[("id", &["1", "2", "3"])])]);
    for _ in 0..20 {
        let v = t.for_path("/x").param_value("id").unwrap();
        assert!(["1", "2", "3"].contains(&v.as_str()));
    }
}
