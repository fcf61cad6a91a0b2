//! Kubernetes manifests.

use sarusctl::{
    extract_images_from_yaml_value, extract_join_container_from_yaml_value,
    extract_pod_name_from_yaml_value, get_join_container_from_yaml_manifest,
    parse_yaml_value_from_str, AppError, YamlValue,
};

#[test]
fn parse_yaml_value_from_str_rejects_invalid_yaml() {
    let err = parse_yaml_value_from_str("apiVersion: [").unwrap_err();
    assert!(matches!(err, AppError::Yaml(_)));
}

#[test]
fn extract_images_from_yaml_str_deduplicates_nested_images() {
    let yaml = r#"
apiVersion: v1
kind: Pod
spec:
  initContainers:
    - image: alpine:3.22
  containers:
    - image: ubuntu:24.04
    - image: alpine:3.22
  sidecars:
    image: busybox:1.36
"#;

    let manifest = parse_yaml_value_from_str(yaml).unwrap();
    let images = extract_images_from_yaml_value(&manifest).unwrap();
    assert_eq!(
        images,
        vec![
            String::from("alpine:3.22"),
            String::from("busybox:1.36"),
            String::from("ubuntu:24.04")
        ]
    );
}

#[test]
fn extract_images_from_yaml_str_ignores_non_string_values() {
    let yaml = r#"
spec:
  containers:
    - image:
        name: alpine
    - image: alpine:3.22
  images:
    - should-not-count
"#;

    let manifest = parse_yaml_value_from_str(yaml).unwrap();
    let images = extract_images_from_yaml_value(&manifest).unwrap();
    assert_eq!(images, vec![String::from("alpine:3.22")]);
}

#[test]
fn extract_join_container_from_yaml_str_returns_single_unlabeled_container() {
    let yaml = r#"
apiVersion: v1
kind: Pod
metadata:
  name: training-pod
spec:
  containers:
    - name: app
      image: alpine:3.22
"#;

    let manifest = parse_yaml_value_from_str(yaml).unwrap();
    let join_container = extract_join_container_from_yaml_value(&manifest).unwrap();
    assert_eq!(join_container, String::from("app"));
}

#[test]
fn extract_join_container_from_yaml_str_returns_labeled_container() {
    let yaml = r#"
apiVersion: v1
kind: Pod
metadata:
  name: training-pod
spec:
  containers:
    - name: app
      image: alpine:3.22
    - name: sidecar
      image: ubuntu:24.04
      labels:
        run.sarus.join: "true"
"#;

    let manifest = parse_yaml_value_from_str(yaml).unwrap();
    let join_container = extract_join_container_from_yaml_value(&manifest).unwrap();
    assert_eq!(join_container, String::from("sidecar"));
}

#[test]
fn extract_join_container_from_yaml_str_rejects_multiple_labeled_containers() {
    let yaml = r#"
apiVersion: v1
kind: Pod
metadata:
  name: training-pod
spec:
  containers:
    - name: app
      image: alpine:3.22
      labels:
        run.sarus.join: "true"
    - name: sidecar
      image: ubuntu:24.04
      labels:
        run.sarus.join: "true"
"#;

    let manifest = parse_yaml_value_from_str(yaml).unwrap();
    let err = extract_join_container_from_yaml_value(&manifest).unwrap_err();
    assert_eq!(
        err,
        AppError::Yaml(String::from(
            "YAML manifest must not label more than one container with run.sarus.join=\"true\"",
        ))
    );
}

#[test]
fn extract_join_container_from_yaml_str_rejects_unlabeled_multi_container_pod() {
    let yaml = r#"
apiVersion: v1
kind: Pod
spec:
  containers:
    - name: app
      image: alpine:3.22
    - name: sidecar
      image: ubuntu:24.04
"#;

    let manifest = parse_yaml_value_from_str(yaml).unwrap();
    let err = extract_join_container_from_yaml_value(&manifest).unwrap_err();
    assert_eq!(
        err,
        AppError::Yaml(String::from(
            "YAML manifest must label exactly one container with run.sarus.join=\"true\" when spec.containers has multiple containers",
        ))
    );
}

#[test]
fn extract_join_container_from_yaml_str_ignores_init_containers_and_nested_templates() {
    let yaml = r#"
apiVersion: v1
kind: Pod
spec:
  initContainers:
    - name: init
      image: busybox:1.36
      labels:
        run.sarus.join: "true"
  containers:
    - name: app
      image: alpine:3.22
      labels:
        run.sarus.join: "true"
    - name: sidecar
      image: ubuntu:24.04
  template:
    spec:
      containers:
        - name: nested
          image: debian:bookworm
          labels:
            run.sarus.join: "true"
"#;

    let manifest = parse_yaml_value_from_str(yaml).unwrap();
    let join_container = extract_join_container_from_yaml_value(&manifest).unwrap();
    assert_eq!(join_container, String::from("app"));
}

#[test]
fn extract_pod_name_from_yaml_str_returns_metadata_name() {
    let yaml = r#"
apiVersion: v1
kind: Pod
metadata:
  name: training-pod
spec:
  containers:
    - name: app
      image: alpine:3.22
"#;

    let manifest = parse_yaml_value_from_str(yaml).unwrap();
    let pod_name = extract_pod_name_from_yaml_value(&manifest).unwrap();
    assert_eq!(pod_name, String::from("training-pod"));
}

#[test]
fn extract_pod_name_from_yaml_str_requires_metadata_name() {
    let yaml = r#"
apiVersion: v1
kind: Pod
spec:
  containers:
    - name: app
      image: alpine:3.22
"#;

    let manifest = parse_yaml_value_from_str(yaml).unwrap();
    let err = extract_pod_name_from_yaml_value(&manifest).unwrap_err();
    assert_eq!(
        err,
        AppError::Yaml(String::from(
            "YAML manifest must define metadata.name as a string",
        ))
    );
}

fn join_error(yaml: &str) -> AppError {
    let manifest = parse_yaml_value_from_str(yaml).unwrap();
    extract_join_container_from_yaml_value(&manifest).unwrap_err()
}

#[test]
fn a_manifest_needs_a_list_of_containers() {
    let expected = AppError::Yaml(String::from("YAML manifest must define spec.containers"));
    assert_eq!(join_error("kind: Pod"), expected);
    assert_eq!(join_error("- spec"), expected);
    assert_eq!(join_error("spec: {}"), expected);
    assert_eq!(join_error("spec: {containers: app}"), expected);
}

#[test]
fn a_manifest_needs_at_least_one_container() {
    assert_eq!(
        join_error("spec: {containers: []}"),
        AppError::Yaml(String::from(
            "YAML manifest must define at least one container in spec.containers"
        ))
    );
}

#[test]
fn every_container_needs_a_name() {
    let expected = AppError::Yaml(String::from(
        "Each container in spec.containers must define a string name",
    ));
    assert_eq!(join_error("spec: {containers: [{name: app}, {image: a}]}"), expected);
    assert_eq!(join_error("spec: {containers: [{name: 5}]}"), expected);
}

#[test]
fn the_label_is_the_text_true() {
    let yaml = "spec: {containers: [{name: a, labels: {run.sarus.join: true}}, \
                {name: b, labels: {run.sarus.join: 'true'}}]}";
    let manifest = parse_yaml_value_from_str(yaml).unwrap();
    assert_eq!(extract_join_container_from_yaml_value(&manifest).unwrap(), "b");
}

#[test]
fn tags_are_looked_through() {
    let yaml = "metadata: !meta {name: !n pod}\nspec: !s {containers: !c [!x {name: !y app}]}";
    let manifest = parse_yaml_value_from_str(yaml).unwrap();
    assert_eq!(
        get_join_container_from_yaml_manifest(&manifest).unwrap(),
        "pod-app"
    );
}

#[test]
fn the_container_of_podman_is_named_after_the_pod() {
    let yaml = "metadata: {name: training}\nspec: {containers: [{name: app}]}";
    let manifest = parse_yaml_value_from_str(yaml).unwrap();
    assert_eq!(
        get_join_container_from_yaml_manifest(&manifest).unwrap(),
        "training-app"
    );
}

#[test]
fn a_missing_container_is_reported_before_a_missing_name() {
    let manifest = parse_yaml_value_from_str("kind: Pod").unwrap();
    assert_eq!(
        get_join_container_from_yaml_manifest(&manifest).unwrap_err(),
        AppError::Yaml(String::from("YAML manifest must define spec.containers"))
    );
    let unnamed = parse_yaml_value_from_str("spec: {containers: [{name: app}]}").unwrap();
    assert_eq!(
        get_join_container_from_yaml_manifest(&unnamed).unwrap_err(),
        AppError::Yaml(String::from("YAML manifest must define metadata.name as a string"))
    );
}

#[test]
fn images_come_in_the_order_of_their_characters() {
    let yaml = "a: {image: b}\nb: [{image: a/b}, {image: a}, {image: 'Z'}, {image: ''}]";
    let manifest = parse_yaml_value_from_str(yaml).unwrap();
    assert_eq!(
        extract_images_from_yaml_value(&manifest).unwrap(),
        vec!["", "Z", "a", "a/b", "b"]
    );
}

#[test]
fn tagged_images_are_not_listed() {
    let yaml = "a: {image: !t x}\nb: !t {image: y}\nc: {image: z}";
    let manifest = parse_yaml_value_from_str(yaml).unwrap();
    assert_eq!(extract_images_from_yaml_value(&manifest).unwrap(), vec!["z"]);
}

#[test]
fn a_document_keeps_its_values() {
    let yaml = "[~, true, 1, text, {k: v}, !t x]";
    match parse_yaml_value_from_str(yaml).unwrap() {
        YamlValue::Sequence(items) => {
            assert_eq!(items.len(), 6);
            assert!(matches!(items[0], YamlValue::Null));
            assert!(matches!(items[1], YamlValue::Bool(true)));
            assert!(matches!(items[2], YamlValue::Number));
            assert!(matches!(&items[3], YamlValue::Text(text) if text == "text"));
            assert!(matches!(&items[4], YamlValue::Mapping(entries) if entries.len() == 1));
            assert!(matches!(&items[5], YamlValue::Tagged(_)));
        }
        other => panic!("not a sequence: {other:?}"),
    }
}

#[test]
fn a_refused_document_comes_with_the_message_of_the_reader() {
    let message = yaml_serde::from_str::<yaml_serde::Value>("a: [")
        .unwrap_err()
        .to_string();
    assert_eq!(
        parse_yaml_value_from_str("a: [").unwrap_err(),
        AppError::Yaml(message)
    );
}
