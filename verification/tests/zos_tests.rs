use oci_runtime::json::Json;
use oci_runtime::zos::{
    ZOSBuilder, ZOSNamespace, ZOSNamespaceBuilder, ZOSNamespaceType, ZOS,
};

#[test]
fn namespace_type_tokens_parse() {
    assert_eq!(
        ZOSNamespaceType::try_from("pid").unwrap(),
        ZOSNamespaceType::Pid
    );
    assert_eq!(
        ZOSNamespaceType::try_from("mount").unwrap(),
        ZOSNamespaceType::Mount
    );
    assert_eq!(
        ZOSNamespaceType::try_from("ipc").unwrap(),
        ZOSNamespaceType::Ipc
    );
    assert_eq!(
        ZOSNamespaceType::try_from("uts").unwrap(),
        ZOSNamespaceType::Uts
    );
}

#[test]
fn unknown_namespace_token_is_rejected_naming_the_token() {
    let err = ZOSNamespaceType::try_from("bogus").unwrap_err();
    assert_eq!(
        err.message(),
        "unknown z/OS namespace bogus, could not convert"
    );
    assert!(ZOSNamespaceType::try_from("PID").is_err());
    assert!(ZOSNamespaceType::try_from("").is_err());
}

#[test]
fn namespace_type_tokens_are_lowercase_variant_names() {
    assert_eq!(ZOSNamespaceType::Pid.as_str(), "pid");
    assert_eq!(ZOSNamespaceType::Mount.as_str(), "mount");
    assert_eq!(ZOSNamespaceType::Ipc.as_str(), "ipc");
    assert_eq!(ZOSNamespaceType::Uts.as_str(), "uts");
}

#[test]
fn namespace_type_tokens_round_trip() {
    for t in [
        ZOSNamespaceType::Pid,
        ZOSNamespaceType::Mount,
        ZOSNamespaceType::Ipc,
        ZOSNamespaceType::Uts,
    ] {
        assert_eq!(ZOSNamespaceType::try_from(t.as_str()).unwrap(), t);
    }
}

#[test]
fn namespace_default_is_pid_without_path() {
    assert_eq!(ZOSNamespaceType::default(), ZOSNamespaceType::Pid);
    let ns = ZOSNamespace::default();
    assert_eq!(ns.typ(), ZOSNamespaceType::Pid);
    assert!(ns.path().is_none());
}

#[test]
fn namespace_builder_and_setters() {
    let ns = ZOSNamespaceBuilder::default()
        .typ(ZOSNamespaceType::Ipc)
        .path("/proc/1/ns/ipc".to_string())
        .build()
        .expect("namespace builder must not fail");
    assert_eq!(ns.typ(), ZOSNamespaceType::Ipc);
    assert_eq!(ns.path().as_deref(), Some("/proc/1/ns/ipc"));

    let mut ns2 = ZOSNamespace::default();
    ns2.set_typ(ZOSNamespaceType::Uts);
    ns2.set_path(Some("/p".to_string()));
    assert_eq!(ns2.typ(), ZOSNamespaceType::Uts);
    assert_eq!(ns2.path().as_deref(), Some("/p"));
}

#[test]
fn zos_holds_optional_namespace_list() {
    let z = ZOS::default();
    assert!(z.namespaces().is_none());

    let built = ZOSBuilder::default()
        .namespaces(vec![ZOSNamespace::default()])
        .build()
        .expect("builder must not fail");
    assert_eq!(built.namespaces().as_ref().unwrap().len(), 1);

    let mut z2 = ZOS::default();
    z2.set_namespaces(Some(vec![ZOSNamespace::default(), ZOSNamespace::default()]));
    assert_eq!(z2.namespaces().as_ref().unwrap().len(), 2);
}

#[test]
fn namespace_document_uses_type_field_name() {
    let ns = ZOSNamespaceBuilder::default()
        .typ(ZOSNamespaceType::Ipc)
        .path("/proc/1/ns/ipc".to_string())
        .build()
        .unwrap();
    assert_eq!(
        ns.to_json().to_text(),
        "{\"type\":\"ipc\",\"path\":\"/proc/1/ns/ipc\"}"
    );
    assert_eq!(ZOSNamespace::from_json(&ns.to_json()).unwrap(), ns);
}

#[test]
fn zos_document_round_trips() {
    let z = ZOSBuilder::default()
        .namespaces(vec![
            ZOSNamespace::default(),
            ZOSNamespaceBuilder::default()
                .typ(ZOSNamespaceType::Mount)
                .build()
                .unwrap(),
        ])
        .build()
        .unwrap();
    assert_eq!(
        z.to_json().to_text(),
        "{\"namespaces\":[{\"type\":\"pid\"},{\"type\":\"mount\"}]}"
    );
    assert_eq!(ZOS::from_json(&z.to_json()).unwrap(), z);
    assert_eq!(ZOS::default().to_json().to_text(), "{}");
}

#[test]
fn zos_document_requires_namespace_type() {
    let missing = Json::parse_text("{\"namespaces\":[{\"path\":\"/p\"}]}").unwrap();
    assert!(ZOS::from_json(&missing).is_err());
    let unknown = Json::parse_text("{\"namespaces\":[{\"type\":\"net\"}]}").unwrap();
    assert!(ZOS::from_json(&unknown).is_err());
}

#[test]
fn namespace_document_null_path_reads_as_absent() {
    let doc = Json::parse_text("{\"type\":\"uts\",\"path\":null}").unwrap();
    let ns = ZOSNamespace::from_json(&doc).unwrap();
    assert_eq!(ns.typ(), ZOSNamespaceType::Uts);
    assert!(ns.path().is_none());

    let z = ZOS::from_json(&Json::parse_text("{\"namespaces\":null}").unwrap()).unwrap();
    assert!(z.namespaces().is_none());
}

#[test]
fn namespace_document_duplicate_field_is_rejected() {
    let doc = Json::parse_text("{\"type\":\"pid\",\"type\":\"uts\"}").unwrap();
    assert!(ZOSNamespace::from_json(&doc).is_err());
}
