use oci_runtime::state::{
    ContainerProcessState, ContainerProcessStateBuilder, ContainerState, State, StateBuilder,
    SECCOMP_FD_NAME,
};

#[test]
fn default_state_fields() {
    let state = State::default();
    assert_eq!(state.version(), "");
    assert_eq!(state.id(), "");
    assert_eq!(state.status(), ContainerState::Stopped);
    assert_eq!(state.pid(), None);
    assert_eq!(state.bundle(), "");
    assert!(state.annotations().is_none());
}

#[test]
fn state_builder_sets_fields() {
    let state = StateBuilder::default()
        .version("1.0.2".to_string())
        .id("container-1".to_string())
        .status(ContainerState::Running)
        .pid(4711)
        .bundle("/run/bundle".to_string())
        .annotations(vec![("a".to_string(), "b".to_string())])
        .build()
        .expect("state builder must not fail");
    assert_eq!(state.version(), "1.0.2");
    assert_eq!(state.id(), "container-1");
    assert_eq!(state.status(), ContainerState::Running);
    assert_eq!(state.pid(), Some(4711));
    assert_eq!(state.bundle(), "/run/bundle");
    assert_eq!(
        state.annotations().as_ref().unwrap(),
        &vec![("a".to_string(), "b".to_string())]
    );
}

#[test]
fn state_setters_update_fields() {
    let mut state = State::default();
    state.set_version("1.0.0".to_string());
    state.set_id("abc".to_string());
    state.set_status(ContainerState::Created);
    state.set_pid(1);
    state.set_bundle("/b".to_string());
    state.set_annotations(Some(vec![("k".to_string(), "v".to_string())]));
    assert_eq!(state.version(), "1.0.0");
    assert_eq!(state.id(), "abc");
    assert_eq!(state.status(), ContainerState::Created);
    assert_eq!(state.pid(), Some(1));
    assert_eq!(state.bundle(), "/b");
    assert_eq!(
        state.annotations().as_ref().unwrap(),
        &vec![("k".to_string(), "v".to_string())]
    );
}

#[test]
fn state_serializes_with_exact_field_names_and_order() {
    let state = StateBuilder::default()
        .version("1.0.2".to_string())
        .id("c1".to_string())
        .status(ContainerState::Running)
        .pid(77)
        .bundle("/run/b".to_string())
        .build()
        .unwrap();
    assert_eq!(
        state.to_json_string(),
        "{\"ociVersion\":\"1.0.2\",\"id\":\"c1\",\"status\":\"running\",\"pid\":77,\"bundle\":\"/run/b\"}"
    );
}

#[test]
fn default_state_document_omits_optional_fields() {
    let state = State::default();
    assert_eq!(
        state.to_json_string(),
        "{\"ociVersion\":\"\",\"id\":\"\",\"status\":\"stopped\",\"bundle\":\"\"}"
    );
}

#[test]
fn state_round_trips_through_document_text() {
    let state = StateBuilder::default()
        .version("1.0.2".to_string())
        .id("round".to_string())
        .status(ContainerState::Creating)
        .pid(-5)
        .bundle("/x/y".to_string())
        .annotations(vec![
            ("one".to_string(), "1".to_string()),
            ("two".to_string(), "2".to_string()),
        ])
        .build()
        .unwrap();
    let text = state.to_json_string();
    let loaded = State::from_json_str(&text).expect("round trip must parse");
    assert_eq!(state, loaded);
}

#[test]
fn default_state_round_trips_through_document_text() {
    let state = State::default();
    let text = state.to_json_string();
    let loaded = State::from_json_str(&text).expect("round trip must parse");
    assert_eq!(
        state, loaded,
        "The saved state is not the same as the loaded state"
    );
}

#[test]
fn state_document_missing_optional_fields_reads_none() {
    let text = "{\"ociVersion\":\"1.0.2\",\"id\":\"i\",\"status\":\"running\",\"bundle\":\"/b\"}";
    let state = State::from_json_str(text).unwrap();
    assert_eq!(state.pid(), None);
    assert!(state.annotations().is_none());
    let out = state.to_json_string();
    assert!(!out.contains("pid"));
    assert!(!out.contains("annotations"));
    assert!(!out.contains("null"));
}

#[test]
fn state_document_fields_any_order_and_whitespace() {
    let text = " { \"bundle\" : \"/b\" , \"status\" : \"created\" , \"id\" : \"i\" ,\n \"ociVersion\" : \"1.0\" , \"pid\" : 42 } ";
    let state = State::from_json_str(text).unwrap();
    assert_eq!(state.version(), "1.0");
    assert_eq!(state.id(), "i");
    assert_eq!(state.status(), ContainerState::Created);
    assert_eq!(state.pid(), Some(42));
    assert_eq!(state.bundle(), "/b");
}

#[test]
fn empty_state_document_yields_defaults() {
    let state = State::from_json_str("{}").unwrap();
    assert_eq!(state, State::default());
}

#[test]
fn state_document_with_unknown_status_fails() {
    let text = "{\"status\":\"paused\"}";
    assert!(State::from_json_str(text).is_err());
}

#[test]
fn state_document_with_wrong_types_fails() {
    assert!(State::from_json_str("{\"ociVersion\":3}").is_err());
    assert!(State::from_json_str("{\"pid\":\"7\"}").is_err());
    assert!(State::from_json_str("{\"pid\":4294967296}").is_err());
    assert!(State::from_json_str("{\"annotations\":[]}").is_err());
    assert!(State::from_json_str("{\"annotations\":{\"k\":1}}").is_err());
    assert!(State::from_json_str("[]").is_err());
    assert!(State::from_json_str("{").is_err());
    assert!(State::from_json_str("{} trailing").is_err());
}

#[test]
fn container_state_tokens_are_lowercase_variant_names() {
    assert_eq!(ContainerState::Creating.as_str(), "creating");
    assert_eq!(ContainerState::Created.as_str(), "created");
    assert_eq!(ContainerState::Running.as_str(), "running");
    assert_eq!(ContainerState::Stopped.as_str(), "stopped");
}

#[test]
fn container_state_tokens_round_trip() {
    for cs in [
        ContainerState::Creating,
        ContainerState::Created,
        ContainerState::Running,
        ContainerState::Stopped,
    ] {
        assert_eq!(ContainerState::from_token(cs.as_str()), Some(cs));
    }
    assert_eq!(ContainerState::from_token("paused"), None);
    assert_eq!(ContainerState::default(), ContainerState::Stopped);
}

#[test]
fn seccomp_fd_name_constant() {
    assert_eq!(SECCOMP_FD_NAME, "seccompFd");
}

#[test]
fn container_process_state_defaults_and_builder() {
    let cps = ContainerProcessState::default();
    assert_eq!(cps.version(), "");
    assert!(cps.fds().is_empty());
    assert_eq!(cps.pid(), 0);
    assert!(cps.metadata().is_none());
    assert_eq!(cps.state(), &State::default());

    let built = ContainerProcessStateBuilder::default()
        .version("1.0".to_string())
        .fds(vec![SECCOMP_FD_NAME.to_string()])
        .pid(99)
        .metadata("opaque".to_string())
        .state(State::default())
        .build()
        .expect("builder must not fail");
    assert_eq!(built.version(), "1.0");
    assert_eq!(built.fds(), &vec!["seccompFd".to_string()]);
    assert_eq!(built.pid(), 99);
    assert_eq!(built.metadata().as_deref(), Some("opaque"));
}

#[test]
fn container_process_state_setters() {
    let mut cps = ContainerProcessState::default();
    cps.set_version("2".to_string());
    cps.set_fds(vec!["a".to_string(), "b".to_string()]);
    cps.set_pid(7);
    cps.set_metadata(Some("m".to_string()));
    let mut inner = State::default();
    inner.set_id("inner".to_string());
    cps.set_state(inner.clone());
    assert_eq!(cps.version(), "2");
    assert_eq!(cps.fds().len(), 2);
    assert_eq!(cps.pid(), 7);
    assert_eq!(cps.metadata().as_deref(), Some("m"));
    assert_eq!(cps.state(), &inner);
}

#[test]
fn container_process_state_document_round_trips() {
    let cps = ContainerProcessStateBuilder::default()
        .version("1.0".to_string())
        .fds(vec![SECCOMP_FD_NAME.to_string()])
        .pid(4)
        .metadata("notes".to_string())
        .state(
            StateBuilder::default()
                .id("c".to_string())
                .status(ContainerState::Running)
                .build()
                .unwrap(),
        )
        .build()
        .unwrap();
    let text = cps.to_json_string();
    assert_eq!(
        text,
        "{\"ociVersion\":\"1.0\",\"fds\":[\"seccompFd\"],\"pid\":4,\
         \"metadata\":\"notes\",\"state\":{\"ociVersion\":\"\",\"id\":\"c\",\
         \"status\":\"running\",\"bundle\":\"\"}}"
    );
    let back = ContainerProcessState::from_json_str(&text).unwrap();
    assert_eq!(cps, back);
}

#[test]
fn container_process_state_document_omits_absent_metadata() {
    let cps = ContainerProcessState::default();
    let text = cps.to_json_string();
    assert!(!text.contains("metadata"));
    assert_eq!(
        text,
        "{\"ociVersion\":\"\",\"fds\":[],\"pid\":0,\"state\":\
         {\"ociVersion\":\"\",\"id\":\"\",\"status\":\"stopped\",\"bundle\":\"\"}}"
    );
    assert_eq!(ContainerProcessState::from_json_str(&text).unwrap(), cps);
}

#[test]
fn container_process_state_document_with_wrong_shapes_fails() {
    assert!(ContainerProcessState::from_json_str("{\"fds\":[1]}").is_err());
    assert!(ContainerProcessState::from_json_str("{\"pid\":\"x\"}").is_err());
    assert!(ContainerProcessState::from_json_str("{\"state\":[]}").is_err());
    assert!(ContainerProcessState::from_json_str("{\"state\":{\"status\":\"nope\"}}").is_err());
}

#[test]
fn explicit_null_reads_as_absent_optional_field() {
    let state = State::from_json_str(
        "{\"ociVersion\":\"1.0\",\"id\":\"i\",\"pid\":null,\"annotations\":null}",
    )
    .unwrap();
    assert_eq!(state.pid(), None);
    assert!(state.annotations().is_none());

    let cps = ContainerProcessState::from_json_str("{\"metadata\":null}").unwrap();
    assert!(cps.metadata().is_none());
}

#[test]
fn explicit_null_for_required_field_fails() {
    assert!(State::from_json_str("{\"ociVersion\":null}").is_err());
    assert!(State::from_json_str("{\"status\":null}").is_err());
    assert!(ContainerProcessState::from_json_str("{\"fds\":null}").is_err());
    assert!(ContainerProcessState::from_json_str("{\"state\":null}").is_err());
}

#[test]
fn duplicate_recognized_field_is_rejected() {
    assert!(State::from_json_str("{\"pid\":1,\"pid\":2}").is_err());
    assert!(State::from_json_str("{\"id\":\"a\",\"id\":\"a\"}").is_err());
    assert!(ContainerProcessState::from_json_str("{\"pid\":1,\"pid\":1}").is_err());
}

#[test]
fn duplicate_annotation_keys_are_kept_in_order() {
    let state =
        State::from_json_str("{\"annotations\":{\"k\":\"1\",\"k\":\"2\"}}").unwrap();
    assert_eq!(
        state.annotations().as_ref().unwrap(),
        &vec![
            ("k".to_string(), "1".to_string()),
            ("k".to_string(), "2".to_string())
        ]
    );
}

#[test]
fn unknown_duplicate_fields_are_ignored() {
    let state = State::from_json_str("{\"extra\":1,\"extra\":2,\"id\":\"i\"}").unwrap();
    assert_eq!(state.id(), "i");
}
