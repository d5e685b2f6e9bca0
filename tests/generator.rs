use daedalus::generator::{Contract, DaedalusError, Generator, GeneratorConfig, Loaded};
use daedalus::known_param::{ConversionEntry, Conversions, KnownValues};
use daedalus::mutation::{ParamLocation, ParamType, ParameterDescriptor};
use daedalus::operation::{Crud, Endpoint, Operation, PathItem, ResponseSpec};
use daedalus::schema::Schema;

fn int_param(name: &str) -> ParameterDescriptor {
    ParameterDescriptor {
        name: name.to_string(),
        location: ParamLocation::Query,
        required: false,
        param_type: Some(ParamType::Integer { min: 1, max: 100 }),
    }
}

fn listing() -> PathItem {
    PathItem {
        get: Some(Operation {
            parameters: vec![int_param("page"), int_param("per_page")],
            responses: vec![ResponseSpec { status: 200, schema: Some(Schema::Object(vec![])) }],
        }),
        put: None,
        post: None,
        patch: None,
        delete: None,
    }
}

fn resource() -> PathItem {
    PathItem {
        get: Some(Operation {
            parameters: vec![ParameterDescriptor {
                name: "uuid".to_string(),
                location: ParamLocation::Path,
                required: true,
                param_type: Some(ParamType::Str {
                    format: Some(daedalus::mutation::StringFormat::Other("uuid".to_string())),
                    enumeration: vec![],
                    min_length: None,
                    max_length: None,
                }),
            }],
            responses: vec![ResponseSpec { status: 200, schema: None }],
        }),
        put: None,
        post: None,
        patch: None,
        delete: None,
    }
}

fn paths() -> Vec<(String, PathItem)> {
    vec![("/users".to_string(), listing()), ("/users/{uuid}".to_string(), resource())]
}

fn known_users() -> Conversions {
    Conversions::new(vec![ConversionEntry {
        path: "/users".to_string(),
        params: vec![KnownValues { name: "uuid".to_string(), values: vec!["V".to_string()] }],
    }])
}

fn contract(base_path: &str) -> Loaded<Contract> {
    Loaded::Ready(Contract { base_path: base_path.to_string(), paths: paths() })
}

fn statuses(generator: &Generator) -> Vec<u16> {
    generator.scenarios().iter().map(|s| s.expectation().status_code).collect()
}

#[test]
fn integration_test_passing_existing_files() {
    let config = GeneratorConfig::new("openapi.yaml".to_string(), Some("conversions.yaml".to_string()), true, "/".to_string());
    let generator = Generator::new(&config, contract(""), Loaded::Ready(known_users())).unwrap();
    let scenarios = generator.scenarios();
    assert_eq!(scenarios[0].instructions.len(), 5);
    assert_eq!(scenarios.len(), 7);
    assert_eq!(statuses(&generator), vec![200, 406, 200, 200, 200, 404, 406]);
    assert_eq!(scenarios[4].request().path, "/users/V");
    assert_eq!(scenarios[5].request().path, "/users/wrongPathItemHere");
}

#[test]
fn without_conversions_without_errors_default_scenarios() {
    let config = GeneratorConfig::new("openapi.yaml".to_string(), None, false, "/".to_string());
    let generator = Generator::new(&config, contract(""), Loaded::Missing).unwrap();
    let scenarios = generator.scenarios();
    assert_eq!(scenarios.len(), 3);
    assert_eq!(scenarios[0].expectation().status_code, 200);
    assert_eq!(scenarios[1].expectation().status_code, 200);
    assert_eq!(scenarios[2].expectation().status_code, 200);
}

#[test]
fn without_conversions_unresolvable_endpoint_is_skipped() {
    let config = GeneratorConfig::new("openapi.yaml".to_string(), None, true, "/".to_string());
    let generator = Generator::new(&config, contract(""), Loaded::Missing).unwrap();
    assert_eq!(statuses(&generator), vec![200, 406, 200, 200]);
}

#[test]
fn matches_filters_paths() {
    let config = GeneratorConfig::new("openapi.yaml".to_string(), None, true, "{uuid}".to_string());
    let generator = Generator::new(&config, contract("/api"), Loaded::Ready(known_users())).unwrap();
    assert_eq!(generator.endpoints.len(), 1);
    assert_eq!(generator.endpoints[0].path_name, "/api/users/{uuid}");
}

#[test]
fn reading_inexisting_files_fails() {
    let config = GeneratorConfig::new(
        "not_there.yaml".to_string(),
        Some("not_there_either.yaml".to_string()),
        true,
        "/".to_string(),
    );
    let generator = Generator::new(&config, Loaded::Missing, Loaded::Missing);
    assert_eq!(generator.is_err(), true);
}

#[test]
fn missing_contract_names_the_file() {
    let config = GeneratorConfig::new("not_there.yaml".to_string(), None, true, "/".to_string());
    let err = Generator::new(&config, Loaded::Missing, Loaded::Missing).err().unwrap();
    assert_eq!(err, DaedalusError::NotFound { filename: "not_there.yaml".to_string() });
    let err = Generator::new(&config, Loaded::Unparsable, Loaded::Missing).err().unwrap();
    assert_eq!(err, DaedalusError::Parsing { basename: "not_there.yaml".to_string() });
}

#[test]
fn unreadable_conversions_leave_the_store_empty() {
    let config = GeneratorConfig::new("openapi.yaml".to_string(), Some("broken.yaml".to_string()), true, "/".to_string());
    let generator = Generator::new(&config, contract(""), Loaded::Unparsable).unwrap();
    assert_eq!(generator.mutator.known_params.paths.len(), 0);
    assert_eq!(statuses(&generator), vec![200, 406, 200, 200]);
}

#[test]
fn conversions_without_a_configured_file_are_ignored() {
    let config = GeneratorConfig::new("openapi.yaml".to_string(), None, true, "/".to_string());
    let generator = Generator::new(&config, contract(""), Loaded::Ready(known_users())).unwrap();
    assert_eq!(generator.mutator.known_params.paths.len(), 0);
}

#[test]
fn scenario_requests_are_materialized() {
    let config = GeneratorConfig::new("openapi.yaml".to_string(), None, true, "/".to_string());
    let generator = Generator::new(&config, contract(""), Loaded::Missing).unwrap();
    let scenarios = generator.scenarios();
    let baseline = scenarios[0].request();
    assert_eq!(baseline.method, "GET");
    assert_eq!(baseline.path, "/users");
    assert_eq!(baseline.content_type, "application/json");
    assert_eq!(baseline.path_and_query(), "/users");
    assert_eq!(scenarios[1].request().content_type, "application/jason");
    assert_eq!(scenarios[2].request().path_and_query(), "/users?page=1");
    assert_eq!(scenarios[3].request().path_and_query(), "/users?per_page=1");
    assert!(scenarios[0].expectation().body.is_some());
    assert_eq!(scenarios[0].expectation().content_type, "application/json");
}

fn bare(get: bool, post: bool) -> PathItem {
    let op = || Operation { parameters: vec![], responses: vec![ResponseSpec { status: 200, schema: None }] };
    PathItem {
        get: if get { Some(op()) } else { None },
        put: None,
        post: if post { Some(op()) } else { None },
        patch: None,
        delete: None,
    }
}

#[test]
fn lib_passing_existing_files() {
    let config = GeneratorConfig::new(
        "test_openapi.yaml".to_string(),
        Some("test_conversions.yaml".to_string()),
        true,
        "/".to_string(),
    );
    let contract = Contract {
        base_path: String::new(),
        paths: vec![("/".to_string(), bare(true, false)), ("/users/{uuid}".to_string(), resource())],
    };
    let generator = Generator::new(&config, Loaded::Ready(contract), Loaded::Ready(known_users())).unwrap();
    let scenarios = generator.scenarios();
    let mut ein = 0;
    for _scenario in scenarios {
        ein = ein + 1;
    }
    assert_eq!(ein, 5);
}

#[test]
fn roles_follow_the_last_segment() {
    let nested = Endpoint::create_supported_endpoint("/users/{id}/friends", bare(true, true));
    let roles: Vec<Crud> = nested.iter().map(|e| e.crud).collect();
    assert_eq!(roles, vec![Crud::Index, Crud::Create]);
    let one = Endpoint::create_supported_endpoint("/users/{id}", bare(true, true));
    let roles: Vec<Crud> = one.iter().map(|e| e.crud).collect();
    assert_eq!(roles, vec![Crud::Show]);
    assert!(Endpoint::names_resource("/users/{id}"));
    assert!(!Endpoint::names_resource("/users/{id}/friends"));
}
