use oci_runtime::json::Json;
use oci_runtime::miscellaneous::{
    get_default_mounts, get_rootless_mounts, LinuxIdMapping, Mount, MountBuilder, Root,
    RootBuilder,
};

fn options_of(m: &Mount) -> Vec<String> {
    m.options().clone().unwrap_or_default()
}

#[test]
fn default_mounts_has_seven_entries_in_fixed_order() {
    let mounts = get_default_mounts();
    let destinations: Vec<&str> = mounts.iter().map(|m| m.destination().as_str()).collect();
    assert_eq!(
        destinations,
        vec![
            "/proc",
            "/dev",
            "/dev/pts",
            "/dev/shm",
            "/dev/mqueue",
            "/sys",
            "/sys/fs/cgroup",
        ]
    );
}

#[test]
fn default_mounts_devpts_carries_gid_5() {
    let mounts = get_default_mounts();
    let devpts = &mounts[2];
    assert_eq!(devpts.destination(), "/dev/pts");
    assert_eq!(devpts.typ().as_deref(), Some("devpts"));
    assert_eq!(devpts.source().as_deref(), Some("devpts"));
    assert!(options_of(devpts).iter().any(|o| o == "gid=5"));
}

#[test]
fn default_mounts_sys_is_readonly_sysfs() {
    let mounts = get_default_mounts();
    let sys = &mounts[5];
    assert_eq!(sys.destination(), "/sys");
    assert_eq!(sys.typ().as_deref(), Some("sysfs"));
    assert_eq!(sys.source().as_deref(), Some("sysfs"));
    assert!(options_of(sys).iter().any(|o| o == "ro"));
}

#[test]
fn default_mounts_exact_option_lists() {
    let mounts = get_default_mounts();
    assert!(mounts[0].options().is_none());
    assert_eq!(
        options_of(&mounts[1]),
        vec!["nosuid", "strictatime", "mode=755", "size=65536k"]
    );
    assert_eq!(
        options_of(&mounts[2]),
        vec![
            "nosuid",
            "noexec",
            "newinstance",
            "ptmxmode=0666",
            "mode=0620",
            "gid=5",
        ]
    );
    assert_eq!(
        options_of(&mounts[3]),
        vec!["nosuid", "noexec", "nodev", "mode=1777", "size=65536k"]
    );
    assert_eq!(options_of(&mounts[4]), vec!["nosuid", "noexec", "nodev"]);
    assert_eq!(
        options_of(&mounts[6]),
        vec!["nosuid", "noexec", "nodev", "relatime", "ro"]
    );
}

#[test]
fn rootless_mounts_keep_the_destinations() {
    let defaults = get_default_mounts();
    let rootless = get_rootless_mounts();
    assert_eq!(rootless.len(), 7);
    for (d, r) in defaults.iter().zip(rootless.iter()) {
        assert_eq!(d.destination(), r.destination());
    }
}

#[test]
fn rootless_mounts_devpts_drops_gid_5() {
    let rootless = get_rootless_mounts();
    let devpts = &rootless[2];
    assert_eq!(devpts.destination(), "/dev/pts");
    assert!(options_of(devpts).iter().all(|o| o != "gid=5"));
    assert_eq!(
        options_of(devpts),
        vec!["nosuid", "noexec", "newinstance", "ptmxmode=0666", "mode=0620"]
    );
}

#[test]
fn rootless_mounts_sys_becomes_recursive_bind() {
    let rootless = get_rootless_mounts();
    let sys = &rootless[5];
    assert_eq!(sys.destination(), "/sys");
    assert_eq!(sys.typ().as_deref(), Some("none"));
    assert_eq!(sys.source().as_deref(), Some("/sys"));
    assert!(options_of(sys).iter().any(|o| o == "rbind"));
    assert_eq!(
        options_of(sys),
        vec!["nosuid", "noexec", "nodev", "ro", "rbind"]
    );
}

#[test]
fn mount_builder_requires_mappings_together() {
    let mapping = LinuxIdMapping {
        container_id: 0,
        host_id: 1000,
        size: 1,
    };
    let uid_only = MountBuilder::default()
        .destination("/data".to_string())
        .uid_mappings(vec![mapping])
        .build();
    assert!(uid_only.is_err());
    let gid_only = MountBuilder::default()
        .destination("/data".to_string())
        .gid_mappings(vec![mapping])
        .build();
    assert!(gid_only.is_err());
}

#[test]
fn mount_builder_accepts_consistent_mappings() {
    let mapping = LinuxIdMapping {
        container_id: 0,
        host_id: 1000,
        size: 65536,
    };
    let both = MountBuilder::default()
        .destination("/data".to_string())
        .uid_mappings(vec![mapping])
        .gid_mappings(vec![mapping])
        .build()
        .expect("both mapping lists present must build");
    assert_eq!(both.uid_mappings().as_ref().unwrap().len(), 1);
    assert_eq!(both.gid_mappings().as_ref().unwrap().len(), 1);

    let neither = MountBuilder::default()
        .destination("/data".to_string())
        .build()
        .expect("absent mapping lists must build");
    assert!(neither.uid_mappings().is_none());

    let both_empty = MountBuilder::default()
        .destination("/data".to_string())
        .uid_mappings(vec![])
        .gid_mappings(vec![])
        .build()
        .expect("two empty mapping lists must build");
    assert_eq!(both_empty.uid_mappings().as_ref().unwrap().len(), 0);

    let uid_empty = MountBuilder::default()
        .destination("/data".to_string())
        .uid_mappings(vec![])
        .build()
        .expect("an empty list counts as unspecified");
    assert!(uid_empty.gid_mappings().is_none());
}

#[test]
fn mount_builder_error_names_the_pairing_rule() {
    let mapping = LinuxIdMapping {
        container_id: 0,
        host_id: 0,
        size: 1,
    };
    let err = MountBuilder::default()
        .uid_mappings(vec![mapping])
        .build()
        .unwrap_err();
    assert_eq!(
        err.message(),
        "Mount.uidMappings and Mount.gidMappings must be specified together"
    );
}

#[test]
fn mount_default_and_setters() {
    let mut m = Mount::default();
    assert_eq!(m.destination(), "");
    assert!(m.typ().is_none());
    m.set_destination("/tmp".to_string());
    m.set_typ(Some("tmpfs".to_string()));
    m.set_source(Some("tmpfs".to_string()));
    m.set_options(Some(vec!["nosuid".to_string()]));
    assert_eq!(m.destination(), "/tmp");
    assert_eq!(m.typ().as_deref(), Some("tmpfs"));
    assert_eq!(m.source().as_deref(), Some("tmpfs"));
    assert_eq!(m.options().as_ref().unwrap().len(), 1);
}

#[test]
fn root_default_is_readonly_rootfs() {
    let root = Root::default();
    assert_eq!(root.path(), "rootfs");
    assert_eq!(root.readonly(), Some(true));
}

#[test]
fn root_builder_defaults_and_overrides() {
    let defaulted = RootBuilder::default().build().unwrap();
    assert_eq!(defaulted, Root::default());
    let custom = RootBuilder::default()
        .path("/container/root".to_string())
        .readonly(false)
        .build()
        .unwrap();
    assert_eq!(custom.path(), "/container/root");
    assert_eq!(custom.readonly(), Some(false));
}

#[test]
fn root_setters_update_fields() {
    let mut root = Root::default();
    root.set_path("/r".to_string());
    root.set_readonly(None);
    assert_eq!(root.path(), "/r");
    assert_eq!(root.readonly(), None);
}

#[test]
fn mount_document_uses_external_field_names() {
    let mapping = LinuxIdMapping {
        container_id: 0,
        host_id: 1000,
        size: 65536,
    };
    let m = MountBuilder::default()
        .destination("/data".to_string())
        .typ("bind".to_string())
        .source("/src".to_string())
        .options(vec!["rbind".to_string(), "idmap".to_string()])
        .uid_mappings(vec![mapping])
        .gid_mappings(vec![mapping])
        .build()
        .unwrap();
    assert_eq!(
        m.to_json().to_text(),
        "{\"destination\":\"/data\",\"type\":\"bind\",\"source\":\"/src\",\
         \"options\":[\"rbind\",\"idmap\"],\
         \"uidMappings\":[{\"containerID\":0,\"hostID\":1000,\"size\":65536}],\
         \"gidMappings\":[{\"containerID\":0,\"hostID\":1000,\"size\":65536}]}"
    );
}

#[test]
fn mount_document_omits_absent_fields() {
    let m = MountBuilder::default()
        .destination("/proc".to_string())
        .build()
        .unwrap();
    assert_eq!(m.to_json().to_text(), "{\"destination\":\"/proc\"}");
}

#[test]
fn mount_round_trips_through_document() {
    let mapping = LinuxIdMapping {
        container_id: 5,
        host_id: 10,
        size: 20,
    };
    let m = MountBuilder::default()
        .destination("/data".to_string())
        .typ("bind".to_string())
        .options(vec!["nosuid".to_string()])
        .uid_mappings(vec![mapping])
        .gid_mappings(vec![mapping])
        .build()
        .unwrap();
    let back = Mount::from_json(&m.to_json()).unwrap();
    assert_eq!(m, back);
}

#[test]
fn mount_document_with_wrong_shapes_fails() {
    let bad_type = Json::parse_text("{\"destination\":\"/d\",\"type\":1}").unwrap();
    assert!(Mount::from_json(&bad_type).is_err());
    let bad_mappings = Json::parse_text("{\"uidMappings\":[{\"size\":-1}]}").unwrap();
    assert!(Mount::from_json(&bad_mappings).is_err());
    let bad_options = Json::parse_text("{\"options\":[1]}").unwrap();
    assert!(Mount::from_json(&bad_options).is_err());
}

#[test]
fn id_mapping_round_trips_through_document() {
    let mapping = LinuxIdMapping {
        container_id: 1,
        host_id: 100000,
        size: 65536,
    };
    assert_eq!(
        mapping.to_json().to_text(),
        "{\"containerID\":1,\"hostID\":100000,\"size\":65536}"
    );
    assert_eq!(LinuxIdMapping::from_json(&mapping.to_json()).unwrap(), mapping);
}

#[test]
fn root_round_trips_through_document() {
    let root = Root::default();
    assert_eq!(
        root.to_json().to_text(),
        "{\"path\":\"rootfs\",\"readonly\":true}"
    );
    assert_eq!(Root::from_json(&root.to_json()).unwrap(), root);

    let mut bare = Root::default();
    bare.set_readonly(None);
    assert_eq!(bare.to_json().to_text(), "{\"path\":\"rootfs\"}");
    assert_eq!(Root::from_json(&bare.to_json()).unwrap(), bare);
}

#[test]
fn mount_document_requires_destination() {
    let no_dest = Json::parse_text("{\"type\":\"bind\"}").unwrap();
    assert!(Mount::from_json(&no_dest).is_err());
    let null_dest = Json::parse_text("{\"destination\":null}").unwrap();
    assert!(Mount::from_json(&null_dest).is_err());
}

#[test]
fn mount_document_null_optionals_read_as_absent() {
    let doc = Json::parse_text(
        "{\"destination\":\"/d\",\"type\":null,\"source\":null,\"options\":null,\
         \"uidMappings\":null,\"gidMappings\":null}",
    )
    .unwrap();
    let m = Mount::from_json(&doc).unwrap();
    assert_eq!(m.destination(), "/d");
    assert!(m.typ().is_none());
    assert!(m.source().is_none());
    assert!(m.options().is_none());
    assert!(m.uid_mappings().is_none());
    assert!(m.gid_mappings().is_none());
}

#[test]
fn mount_document_duplicate_field_is_rejected() {
    let doc = Json::parse_text("{\"destination\":\"/a\",\"destination\":\"/b\"}").unwrap();
    assert!(Mount::from_json(&doc).is_err());
}

#[test]
fn root_document_null_readonly_reads_as_absent() {
    let doc = Json::parse_text("{\"path\":\"/r\",\"readonly\":null}").unwrap();
    let root = Root::from_json(&doc).unwrap();
    assert_eq!(root.readonly(), None);
}
