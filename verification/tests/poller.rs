use hive_node::models::poller::Poller;
use hive_node::models::tags::{Model, ModelDetails, Tags};

fn model(name: &str) -> Model {
    Model {
        name: name.to_string(),
        model: name.to_string(),
        modified_at: "2024-01-01T00:00:00Z".to_string(),
        size: 1,
        digest: "d".to_string(),
        details: ModelDetails {
            parent_model: String::new(),
            format: "gguf".to_string(),
            family: "llama".to_string(),
            families: vec!["llama".to_string()],
            parameter_size: "8B".to_string(),
            quantization_level: "Q4_0".to_string(),
        },
    }
}

fn tags(names: &[&str]) -> Tags {
    Tags { models: names.iter().map(|n| model(n)).collect() }
}

#[test]
fn empty_catalog_polls_wildcard() {
    let mut p = Poller::from(tags(&[]));
    assert_eq!(p.get_models_target(), "/");
    assert_eq!(p.next(), Some("/".to_string()));
    assert_eq!(p.next(), Some("/".to_string()));
}

#[test]
fn target_lists_models_in_order() {
    let p = Poller::from(tags(&["mistral:7b", "phi3:mini"]));
    assert_eq!(p.get_models_target(), "mistral:7b;phi3:mini");
}

#[test]
fn latest_is_also_polled_under_bare_name() {
    let p = Poller::from(tags(&["llama3:latest", "phi3:mini"]));
    assert_eq!(p.get_models_target(), "llama3;llama3:latest;phi3:mini");
}

#[test]
fn latest_counts_only_as_suffix() {
    let p = Poller::from(tags(&["a:latest-q4", ":latest"]));
    assert_eq!(p.get_models_target(), "a:latest-q4;;:latest");
}

#[test]
fn next_goes_round() {
    let mut p = Poller::from(tags(&["a:latest", "b"]));
    let got: Vec<String> = (0..7).map(|_| p.next().unwrap()).collect();
    assert_eq!(got, vec!["a", "a:latest", "b", "a", "a:latest", "b", "a"]);
}
