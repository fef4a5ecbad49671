use vstd::prelude::*;
use crate::error::OciSpecError;
use crate::json::{Json, JsonData, jview, jview_fields, jview_list, key_unique, key_unique_ex, lemma_jview_fields, lemma_jview_list, obj_lookup, obj_lookup_ex};
use crate::state::{all_text_items, item_text, json_to_strings, opt_text_field_ok, strings_to_json, text_field_ok, text_field_of, texts_arr};
use crate::text::str_eq;

verus! {

broadcast use vstd::string::group_string_axioms;

/// One uid or gid range mapping between the host and the container, as an
/// already-validated boundary value.
#[derive(Clone, Copy, Debug, Eq, PartialEq, Structural)]
pub struct LinuxIdMapping {
    /// The starting id inside the container.
    pub container_id: u32,
    /// The starting id on the host.
    pub host_id: u32,
    /// The number of ids in the range.
    pub size: u32,
}

/// The mathematical model of a [`Root`] value.
#[verifier::ext_equal]
pub struct RootData {
    pub path: Seq<char>,
    pub readonly: Option<bool>,
}

/// Root contains information about the container's root filesystem on the
/// host: its path and an optional read-only flag.
#[derive(Debug, Clone, PartialEq, Eq)]
pub struct Root {
    path: String,
    readonly: Option<bool>,
}

impl View for Root {
    type V = RootData;

    closed spec fn view(&self) -> RootData {
        RootData { path: self.path@, readonly: self.readonly }
    }
}

/// The documented default root: the relative path `rootfs`, read-only.
pub open spec fn default_root_data() -> RootData {
    RootData { path: "rootfs"@, readonly: Some(true) }
}

impl Default for Root {
    fn default() -> (r: Self)
        ensures
            r@ == default_root_data(),
    {
        let r = Root { path: "rootfs".to_owned(), readonly: Some(true) };
        proof {
            assert(r@ =~= default_root_data());
        }
        r
    }
}

impl Root {
    /// The absolute path to the container's root filesystem.
    pub fn path(&self) -> (r: &String)
        ensures
            r@ == self@.path,
    {
        &self.path
    }

    /// Whether the root filesystem is made read-only before the container
    /// process runs.
    pub fn readonly(&self) -> (r: Option<bool>)
        ensures
            r == self@.readonly,
    {
        self.readonly
    }

    pub fn set_path(&mut self, path: String)
        ensures
            final(self)@ == (RootData { path: path@, ..old(self)@ }),
    {
        self.path = path;
    }

    pub fn set_readonly(&mut self, readonly: Option<bool>)
        ensures
            final(self)@ == (RootData { readonly: readonly, ..old(self)@ }),
    {
        self.readonly = readonly;
    }
}

/// Staging structure for [`Root`]; unset fields fall back to the
/// documented default root.
pub struct RootBuilder {
    path: Option<String>,
    readonly: Option<bool>,
}

pub closed spec fn root_builder_data(b: RootBuilder) -> RootData {
    RootData {
        path: match b.path {
            Some(p) => p@,
            None => "rootfs"@,
        },
        readonly: match b.readonly {
            Some(ro) => Some(ro),
            None => Some(true),
        },
    }
}

impl Default for RootBuilder {
    fn default() -> (r: Self)
        ensures
            root_builder_data(r) == default_root_data(),
    {
        let r = RootBuilder { path: None, readonly: None };
        proof {
            assert(root_builder_data(r) =~= default_root_data());
        }
        r
    }
}

impl RootBuilder {
    pub fn path(self, path: String) -> (r: Self)
        ensures
            root_builder_data(r) == (RootData { path: path@, ..root_builder_data(self) }),
    {
        RootBuilder { path: Some(path), ..self }
    }

    pub fn readonly(self, readonly: bool) -> (r: Self)
        ensures
            root_builder_data(r) == (RootData {
                readonly: Some(readonly),
                ..root_builder_data(self)
            }),
    {
        RootBuilder { readonly: Some(readonly), ..self }
    }

    /// Yield the staged Root; no combination of fields is invalid.
    pub fn build(self) -> (r: Result<Root, OciSpecError>)
        ensures
            r matches Ok(root) && root@ == root_builder_data(self),
    {
        let ghost model = root_builder_data(self);
        let root = Root {
            path: match self.path {
                Some(p) => p,
                None => "rootfs".to_owned(),
            },
            readonly: match self.readonly {
                Some(ro) => Some(ro),
                None => Some(true),
            },
        };
        proof {
            assert(root@ =~= model);
        }
        Ok(root)
    }
}

pub open spec fn strs_view(v: Seq<String>) -> Seq<Seq<char>> {
    Seq::new(v.len(), |k: int| v[k]@)
}

/// The mathematical model of a [`Mount`] value.
#[verifier::ext_equal]
pub struct MountData {
    pub destination: Seq<char>,
    pub typ: Option<Seq<char>>,
    pub source: Option<Seq<char>>,
    pub options: Option<Seq<Seq<char>>>,
    pub uid_mappings: Option<Seq<LinuxIdMapping>>,
    pub gid_mappings: Option<Seq<LinuxIdMapping>>,
}

/// Mount specifies one filesystem mount for a container: where it is
/// placed, its kind, its source, its options, and optional id-mapping
/// metadata, whose two lists must be given together.
#[derive(Debug, Clone, PartialEq, Eq)]
pub struct Mount {
    destination: String,
    typ: Option<String>,
    source: Option<String>,
    options: Option<Vec<String>>,
    uid_mappings: Option<Vec<LinuxIdMapping>>,
    gid_mappings: Option<Vec<LinuxIdMapping>>,
}

impl View for Mount {
    type V = MountData;

    closed spec fn view(&self) -> MountData {
        MountData {
            destination: self.destination@,
            typ: match self.typ {
                None => None,
                Some(t) => Some(t@),
            },
            source: match self.source {
                None => None,
                Some(s) => Some(s@),
            },
            options: match self.options {
                None => None,
                Some(o) => Some(strs_view(o@)),
            },
            uid_mappings: match self.uid_mappings {
                None => None,
                Some(m) => Some(m@),
            },
            gid_mappings: match self.gid_mappings {
                None => None,
                Some(m) => Some(m@),
            },
        }
    }
}

/// The model of an empty mount: every field empty or absent.
pub open spec fn default_mount_data() -> MountData {
    MountData {
        destination: Seq::empty(),
        typ: None,
        source: None,
        options: None,
        uid_mappings: None,
        gid_mappings: None,
    }
}

impl Default for Mount {
    fn default() -> (r: Self)
        ensures
            r@ == default_mount_data(),
    {
        let r = Mount {
            destination: String::new(),
            typ: None,
            source: None,
            options: None,
            uid_mappings: None,
            gid_mappings: None,
        };
        proof {
            assert(r@ =~= default_mount_data());
        }
        r
    }
}

impl Mount {
    /// The absolute path where the mount is placed in the container.
    pub fn destination(&self) -> (r: &String)
        ensures
            r@ == self@.destination,
    {
        &self.destination
    }

    /// The mount kind.
    pub fn typ(&self) -> (r: &Option<String>)
        ensures
            ((*r) is Some) == (self@.typ is Some),
            (*r) matches Some(t) ==> self@.typ == Some(t@),
    {
        &self.typ
    }

    /// The source path of the mount.
    pub fn source(&self) -> (r: &Option<String>)
        ensures
            ((*r) is Some) == (self@.source is Some),
            (*r) matches Some(s) ==> self@.source == Some(s@),
    {
        &self.source
    }

    /// The fstab-style mount options.
    pub fn options(&self) -> (r: &Option<Vec<String>>)
        ensures
            ((*r) is Some) == (self@.options is Some),
            (*r) matches Some(o) ==> self@.options == Some(strs_view(o@)),
    {
        &self.options
    }

    /// The uid mappings of an id-mapped mount.
    pub fn uid_mappings(&self) -> (r: &Option<Vec<LinuxIdMapping>>)
        ensures
            ((*r) is Some) == (self@.uid_mappings is Some),
            (*r) matches Some(m) ==> self@.uid_mappings == Some(m@),
    {
        &self.uid_mappings
    }

    /// The gid mappings of an id-mapped mount.
    pub fn gid_mappings(&self) -> (r: &Option<Vec<LinuxIdMapping>>)
        ensures
            ((*r) is Some) == (self@.gid_mappings is Some),
            (*r) matches Some(m) ==> self@.gid_mappings == Some(m@),
    {
        &self.gid_mappings
    }

    pub fn set_destination(&mut self, destination: String)
        ensures
            final(self)@ == (MountData { destination: destination@, ..old(self)@ }),
    {
        self.destination = destination;
    }

    pub fn set_typ(&mut self, typ: Option<String>)
        ensures
            final(self)@ == (MountData {
                typ: match typ {
                    None => None,
                    Some(t) => Some(t@),
                },
                ..old(self)@
            }),
    {
        self.typ = typ;
    }

    pub fn set_source(&mut self, source: Option<String>)
        ensures
            final(self)@ == (MountData {
                source: match source {
                    None => None,
                    Some(s) => Some(s@),
                },
                ..old(self)@
            }),
    {
        self.source = source;
    }

    pub fn set_options(&mut self, options: Option<Vec<String>>)
        ensures
            final(self)@ == (MountData {
                options: match options {
                    None => None,
                    Some(o) => Some(strs_view(o@)),
                },
                ..old(self)@
            }),
    {
        self.options = options;
    }

    pub fn set_uid_mappings(&mut self, uid_mappings: Option<Vec<LinuxIdMapping>>)
        ensures
            final(self)@ == (MountData {
                uid_mappings: match uid_mappings {
                    None => None,
                    Some(m) => Some(m@),
                },
                ..old(self)@
            }),
    {
        self.uid_mappings = uid_mappings;
    }

    pub fn set_gid_mappings(&mut self, gid_mappings: Option<Vec<LinuxIdMapping>>)
        ensures
            final(self)@ == (MountData {
                gid_mappings: match gid_mappings {
                    None => None,
                    Some(m) => Some(m@),
                },
                ..old(self)@
            }),
    {
        self.gid_mappings = gid_mappings;
    }
}

/// Whether a mapping list is present and non-empty.
pub open spec fn maps_specified(m: Option<Seq<LinuxIdMapping>>) -> bool {
    match m {
        Some(v) => v.len() > 0,
        None => false,
    }
}

/// The joint-presence rule for id-mapped mounts: the uid mappings are
/// specified exactly when the gid mappings are. Both absent or empty, or
/// both present and non-empty, is valid; exactly one specified is not.
pub open spec fn mount_maps_consistent(d: MountData) -> bool {
    maps_specified(d.uid_mappings) == maps_specified(d.gid_mappings)
}

/// The message that a pairing violation carries: it names the rule.
pub open spec fn mount_pairing_message() -> Seq<char> {
    "Mount.uidMappings and Mount.gidMappings must be specified together"@
}

/// Staging structure for [`Mount`]; unset fields fall back to the empty
/// mount, and building runs the joint-presence validation.
pub struct MountBuilder {
    destination: Option<String>,
    typ: Option<String>,
    source: Option<String>,
    options: Option<Vec<String>>,
    uid_mappings: Option<Vec<LinuxIdMapping>>,
    gid_mappings: Option<Vec<LinuxIdMapping>>,
}

pub closed spec fn mount_builder_data(b: MountBuilder) -> MountData {
    MountData {
        destination: match b.destination {
            Some(d) => d@,
            None => Seq::empty(),
        },
        typ: match b.typ {
            None => None,
            Some(t) => Some(t@),
        },
        source: match b.source {
            None => None,
            Some(s) => Some(s@),
        },
        options: match b.options {
            None => None,
            Some(o) => Some(strs_view(o@)),
        },
        uid_mappings: match b.uid_mappings {
            None => None,
            Some(m) => Some(m@),
        },
        gid_mappings: match b.gid_mappings {
            None => None,
            Some(m) => Some(m@),
        },
    }
}

impl Default for MountBuilder {
    fn default() -> (r: Self)
        ensures
            mount_builder_data(r) == default_mount_data(),
    {
        let r = MountBuilder {
            destination: None,
            typ: None,
            source: None,
            options: None,
            uid_mappings: None,
            gid_mappings: None,
        };
        proof {
            assert(mount_builder_data(r) =~= default_mount_data());
        }
        r
    }
}

impl MountBuilder {
    pub fn destination(self, destination: String) -> (r: Self)
        ensures
            mount_builder_data(r) == (MountData {
                destination: destination@,
                ..mount_builder_data(self)
            }),
    {
        MountBuilder { destination: Some(destination), ..self }
    }

    pub fn typ(self, typ: String) -> (r: Self)
        ensures
            mount_builder_data(r) == (MountData { typ: Some(typ@), ..mount_builder_data(self) }),
    {
        MountBuilder { typ: Some(typ), ..self }
    }

    pub fn source(self, source: String) -> (r: Self)
        ensures
            mount_builder_data(r) == (MountData {
                source: Some(source@),
                ..mount_builder_data(self)
            }),
    {
        MountBuilder { source: Some(source), ..self }
    }

    pub fn options(self, options: Vec<String>) -> (r: Self)
        ensures
            mount_builder_data(r) == (MountData {
                options: Some(strs_view(options@)),
                ..mount_builder_data(self)
            }),
    {
        MountBuilder { options: Some(options), ..self }
    }

    pub fn uid_mappings(self, uid_mappings: Vec<LinuxIdMapping>) -> (r: Self)
        ensures
            mount_builder_data(r) == (MountData {
                uid_mappings: Some(uid_mappings@),
                ..mount_builder_data(self)
            }),
    {
        MountBuilder { uid_mappings: Some(uid_mappings), ..self }
    }

    pub fn gid_mappings(self, gid_mappings: Vec<LinuxIdMapping>) -> (r: Self)
        ensures
            mount_builder_data(r) == (MountData {
                gid_mappings: Some(gid_mappings@),
                ..mount_builder_data(self)
            }),
    {
        MountBuilder { gid_mappings: Some(gid_mappings), ..self }
    }

    /// The joint-presence validation: succeeds exactly when the staged
    /// uid and gid mapping lists are specified together or not at all,
    /// and otherwise fails with the validation error naming the pairing
    /// rule. The outcome depends on the two mapping lists alone.
    pub fn validate(&self) -> (r: Result<(), OciSpecError>)
        ensures
            (r is Ok) == mount_maps_consistent(mount_builder_data(*self)),
            r matches Err(e) ==> e matches OciSpecError::Other(m) && m@
                == mount_pairing_message(),
    {
        let uid_specified = match &self.uid_mappings {
            Some(v) => v.len() > 0,
            None => false,
        };
        let gid_specified = match &self.gid_mappings {
            Some(v) => v.len() > 0,
            None => false,
        };
        if uid_specified != gid_specified {
            return Err(
                OciSpecError::Other(
                    "Mount.uidMappings and Mount.gidMappings must be specified together".to_owned(),
                ),
            );
        }
        Ok(())
    }

    /// Yield the staged Mount after validation: succeeds exactly when the
    /// joint-presence rule holds, and then yields exactly the staged
    /// fields; otherwise it fails with the validation error naming the
    /// pairing rule and yields no Mount.
    pub fn build(self) -> (r: Result<Mount, OciSpecError>)
        ensures
            (r is Ok) == mount_maps_consistent(mount_builder_data(self)),
            r matches Ok(m) ==> m@ == mount_builder_data(self),
            r matches Err(e) ==> e matches OciSpecError::Other(m) && m@
                == mount_pairing_message(),
    {
        match self.validate() {
            Err(e) => Err(e),
            Ok(()) => {
                let ghost model = mount_builder_data(self);
                let m = Mount {
                    destination: match self.destination {
                        Some(d) => d,
                        None => String::new(),
                    },
                    typ: self.typ,
                    source: self.source,
                    options: self.options,
                    uid_mappings: self.uid_mappings,
                    gid_mappings: self.gid_mappings,
                };
                proof {
                    assert(m@ =~= model);
                }
                Ok(m)
            },
        }
    }
}

/// The canonical catalog of the seven standard container mounts, in the
/// order they are applied.
pub open spec fn default_mounts() -> Seq<MountData> {
    seq![
        MountData {
            destination: "/proc"@,
            typ: Some("proc"@),
            source: Some("proc"@),
            options: None,
            uid_mappings: None,
            gid_mappings: None,
        },
        MountData {
            destination: "/dev"@,
            typ: Some("tmpfs"@),
            source: Some("tmpfs"@),
            options: Some(seq!["nosuid"@, "strictatime"@, "mode=755"@, "size=65536k"@]),
            uid_mappings: None,
            gid_mappings: None,
        },
        MountData {
            destination: "/dev/pts"@,
            typ: Some("devpts"@),
            source: Some("devpts"@),
            options: Some(
                seq!["nosuid"@, "noexec"@, "newinstance"@, "ptmxmode=0666"@, "mode=0620"@, "gid=5"@],
            ),
            uid_mappings: None,
            gid_mappings: None,
        },
        MountData {
            destination: "/dev/shm"@,
            typ: Some("tmpfs"@),
            source: Some("shm"@),
            options: Some(seq!["nosuid"@, "noexec"@, "nodev"@, "mode=1777"@, "size=65536k"@]),
            uid_mappings: None,
            gid_mappings: None,
        },
        MountData {
            destination: "/dev/mqueue"@,
            typ: Some("mqueue"@),
            source: Some("mqueue"@),
            options: Some(seq!["nosuid"@, "noexec"@, "nodev"@]),
            uid_mappings: None,
            gid_mappings: None,
        },
        MountData {
            destination: "/sys"@,
            typ: Some("sysfs"@),
            source: Some("sysfs"@),
            options: Some(seq!["nosuid"@, "noexec"@, "nodev"@, "ro"@]),
            uid_mappings: None,
            gid_mappings: None,
        },
        MountData {
            destination: "/sys/fs/cgroup"@,
            typ: Some("cgroup"@),
            source: Some("cgroup"@),
            options: Some(seq!["nosuid"@, "noexec"@, "nodev"@, "relatime"@, "ro"@]),
            uid_mappings: None,
            gid_mappings: None,
        },
    ]
}

/// The canonical rootless catalog: the same seven destinations, with the
/// `gid=5` option removed from the `/dev/pts` entry and the `/sys` entry
/// converted to a recursive bind mount of the host's `/sys`.
pub open spec fn rootless_mounts() -> Seq<MountData> {
    default_mounts().update(
        2,
        MountData {
            destination: "/dev/pts"@,
            typ: Some("devpts"@),
            source: Some("devpts"@),
            options: Some(
                seq!["nosuid"@, "noexec"@, "newinstance"@, "ptmxmode=0666"@, "mode=0620"@],
            ),
            uid_mappings: None,
            gid_mappings: None,
        },
    ).update(
        5,
        MountData {
            destination: "/sys"@,
            typ: Some("none"@),
            source: Some("/sys"@),
            options: Some(seq!["nosuid"@, "noexec"@, "nodev"@, "ro"@, "rbind"@]),
            uid_mappings: None,
            gid_mappings: None,
        },
    )
}

/// The standard container mounts, exactly as [`default_mounts`] lists
/// them, in that order.
pub fn get_default_mounts() -> (r: Vec<Mount>)
    ensures
        r@.len() == 7,
        forall|k: int| 0 <= k < 7 ==> r@[k]@ == default_mounts()[k],
{
    let mut mounts: Vec<Mount> = Vec::new();
    let m0 = Mount {
        destination: "/proc".to_owned(),
        typ: Some("proc".to_owned()),
        source: Some("proc".to_owned()),
        options: None,
        uid_mappings: None,
        gid_mappings: None,
    };
    proof {
        assert(m0@ =~~= default_mounts()[0]);
    }
    mounts.push(m0);
    let m1 = Mount {
        destination: "/dev".to_owned(),
        typ: Some("tmpfs".to_owned()),
        source: Some("tmpfs".to_owned()),
        options: Some(
            vec![
                "nosuid".to_owned(),
                "strictatime".to_owned(),
                "mode=755".to_owned(),
                "size=65536k".to_owned(),
            ],
        ),
        uid_mappings: None,
        gid_mappings: None,
    };
    proof {
        assert(m1@ =~~= default_mounts()[1]);
    }
    mounts.push(m1);
    let m2 = Mount {
        destination: "/dev/pts".to_owned(),
        typ: Some("devpts".to_owned()),
        source: Some("devpts".to_owned()),
        options: Some(
            vec![
                "nosuid".to_owned(),
                "noexec".to_owned(),
                "newinstance".to_owned(),
                "ptmxmode=0666".to_owned(),
                "mode=0620".to_owned(),
                "gid=5".to_owned(),
            ],
        ),
        uid_mappings: None,
        gid_mappings: None,
    };
    proof {
        assert(m2@ =~~= default_mounts()[2]);
    }
    mounts.push(m2);
    let m3 = Mount {
        destination: "/dev/shm".to_owned(),
        typ: Some("tmpfs".to_owned()),
        source: Some("shm".to_owned()),
        options: Some(
            vec![
                "nosuid".to_owned(),
                "noexec".to_owned(),
                "nodev".to_owned(),
                "mode=1777".to_owned(),
                "size=65536k".to_owned(),
            ],
        ),
        uid_mappings: None,
        gid_mappings: None,
    };
    proof {
        assert(m3@ =~~= default_mounts()[3]);
    }
    mounts.push(m3);
    let m4 = Mount {
        destination: "/dev/mqueue".to_owned(),
        typ: Some("mqueue".to_owned()),
        source: Some("mqueue".to_owned()),
        options: Some(vec!["nosuid".to_owned(), "noexec".to_owned(), "nodev".to_owned()]),
        uid_mappings: None,
        gid_mappings: None,
    };
    proof {
        assert(m4@ =~~= default_mounts()[4]);
    }
    mounts.push(m4);
    let m5 = Mount {
        destination: "/sys".to_owned(),
        typ: Some("sysfs".to_owned()),
        source: Some("sysfs".to_owned()),
        options: Some(
            vec!["nosuid".to_owned(), "noexec".to_owned(), "nodev".to_owned(), "ro".to_owned()],
        ),
        uid_mappings: None,
        gid_mappings: None,
    };
    proof {
        assert(m5@ =~~= default_mounts()[5]);
    }
    mounts.push(m5);
    let m6 = Mount {
        destination: "/sys/fs/cgroup".to_owned(),
        typ: Some("cgroup".to_owned()),
        source: Some("cgroup".to_owned()),
        options: Some(
            vec![
                "nosuid".to_owned(),
                "noexec".to_owned(),
                "nodev".to_owned(),
                "relatime".to_owned(),
                "ro".to_owned(),
            ],
        ),
        uid_mappings: None,
        gid_mappings: None,
    };
    proof {
        assert(m6@ =~~= default_mounts()[6]);
    }
    mounts.push(m6);
    mounts
}

/// The sequence with every occurrence of `bad` removed, order kept.
pub open spec fn remove_str(v: Seq<Seq<char>>, bad: Seq<char>) -> Seq<Seq<char>>
    decreases v.len(),
{
    if v.len() == 0 {
        Seq::empty()
    } else if v[0] == bad {
        remove_str(v.subrange(1, v.len() as int), bad)
    } else {
        seq![v[0]] + remove_str(v.subrange(1, v.len() as int), bad)
    }
}

pub proof fn lemma_remove_str_snoc(a: Seq<Seq<char>>, x: Seq<char>, bad: Seq<char>)
    ensures
        remove_str(a.push(x), bad) == if x == bad {
            remove_str(a, bad)
        } else {
            remove_str(a, bad).push(x)
        },
    decreases a.len(),
{
    if a.len() == 0 {
        assert(a.push(x).subrange(1, 1) =~= Seq::<Seq<char>>::empty());
        assert(remove_str(Seq::<Seq<char>>::empty(), bad) =~= Seq::<Seq<char>>::empty());
        if x != bad {
            assert(remove_str(a.push(x), bad) =~= remove_str(a, bad).push(x));
        }
    } else {
        assert(a.push(x).subrange(1, a.len() + 1 as int) =~= a.subrange(1, a.len() as int).push(
            x,
        ));
        lemma_remove_str_snoc(a.subrange(1, a.len() as int), x, bad);
        if a[0] != bad && x != bad {
            assert(remove_str(a.push(x), bad) =~= remove_str(a, bad).push(x));
        }
    }
}

/// Keep every option except those equal to `bad`.
fn remove_opt(opts: Vec<String>, bad: &str) -> (r: Vec<String>)
    ensures
        strs_view(r@) == remove_str(strs_view(opts@), bad@),
{
    let ghost sv = strs_view(opts@);
    let mut out: Vec<String> = Vec::new();
    let mut k: usize = 0;
    proof {
        assert(sv.subrange(0, 0) =~= Seq::<Seq<char>>::empty());
        assert(strs_view(out@) =~= Seq::<Seq<char>>::empty());
    }
    while k < opts.len()
        invariant
            k <= opts@.len(),
            sv == strs_view(opts@),
            sv.len() == opts@.len(),
            strs_view(out@) == remove_str(sv.subrange(0, k as int), bad@),
        decreases opts@.len() - k,
    {
        let ghost prefix = sv.subrange(0, k as int);
        if !str_eq(opts[k].as_str(), bad) {
            let ghost out_before = out@;
            out.push(opts[k].clone());
            proof {
                assert(strs_view(out@) =~= strs_view(out_before).push(opts@[k as int]@));
            }
        }
        proof {
            assert(sv.subrange(0, k + 1 as int) =~= prefix.push(sv[k as int]));
            lemma_remove_str_snoc(prefix, sv[k as int], bad@);
        }
        k += 1;
    }
    proof {
        assert(sv.subrange(0, sv.len() as int) =~= sv);
    }
    out
}

/// The index of the first mount whose destination is `dest`, if any.
fn find_mount_index(mounts: &Vec<Mount>, dest: &str) -> (r: Option<usize>)
    ensures
        r matches Some(i) ==> i < mounts@.len() && mounts@[i as int]@.destination == dest@ && (
        forall|m: int| 0 <= m < i ==> mounts@[m]@.destination != dest@),
        r is None ==> forall|m: int| 0 <= m < mounts@.len() ==> mounts@[m]@.destination != dest@,
{
    let mut k: usize = 0;
    while k < mounts.len()
        invariant
            k <= mounts@.len(),
            forall|m: int| 0 <= m < k ==> mounts@[m]@.destination != dest@,
        decreases mounts@.len() - k,
    {
        if str_eq(mounts[k].destination.as_str(), dest) {
            return Some(k);
        }
        k += 1;
    }
    None
}

/// The rootless variant of the standard mounts, exactly as
/// [`rootless_mounts`] lists them: derived from the default catalog by
/// dropping `gid=5` from the `/dev/pts` options and turning `/sys` into a
/// recursive bind mount of the host's `/sys`.
#[verifier::rlimit(100)]
pub fn get_rootless_mounts() -> (r: Vec<Mount>)
    ensures
        r@.len() == 7,
        forall|k: int| 0 <= k < 7 ==> r@[k]@ == rootless_mounts()[k],
{
    let mut mounts = get_default_mounts();
    match find_mount_index(&mounts, "/dev/pts") {
        Some(di) => {
            proof {
                reveal_strlit("/proc");
                reveal_strlit("/dev");
                reveal_strlit("/dev/pts");
                assert("/proc"@.len() == 5);
                assert("/dev"@.len() == 4);
                assert("/dev/pts"@.len() == 8);
                assert(mounts@[0]@ == default_mounts()[0]);
                assert(default_mounts()[0].destination == "/proc"@);
                assert(mounts@[0]@.destination == "/proc"@);
                assert(mounts@[1]@.destination == "/dev"@);
                assert(mounts@[2]@.destination == "/dev/pts"@);
                assert(di == 2);
            }
            let ghost before = mounts@;
            let m = mounts.remove(di);
            let Mount { destination, typ, source, options, uid_mappings, gid_mappings } = m;
            let options2: Option<Vec<String>> = match options {
                None => None,
                Some(opts) => Some(remove_opt(opts, "gid=5")),
            };
            let new_m = Mount {
                destination,
                typ,
                source,
                options: options2,
                uid_mappings,
                gid_mappings,
            };
            let ghost nv = new_m;
            mounts.insert(di, new_m);
            proof {
                assert(mounts@ =~= before.update(2, nv));
                assert(nv@.destination == before[2]@.destination);
            }
        },
        None => {},
    }
    match find_mount_index(&mounts, "/sys") {
        Some(si) => {
            proof {
                reveal_strlit("/proc");
                reveal_strlit("/dev");
                reveal_strlit("/dev/pts");
                reveal_strlit("/dev/shm");
                reveal_strlit("/dev/mqueue");
                reveal_strlit("/sys");
                assert("/proc"@.len() == 5);
                assert("/dev"@.len() == 4);
                assert("/dev/pts"@.len() == 8);
                assert("/dev/shm"@.len() == 8);
                assert("/dev/mqueue"@.len() == 11);
                assert("/sys"@.len() == 4);
                assert("/dev"@[1] == 'd' && "/sys"@[1] == 's');
                assert(mounts@.len() == 7);
                assert(mounts@[0]@.destination == "/proc"@);
                assert(mounts@[1]@.destination == "/dev"@);
                assert(mounts@[2]@.destination == "/dev/pts"@);
                assert(mounts@[3]@.destination == "/dev/shm"@);
                assert(mounts@[4]@.destination == "/dev/mqueue"@);
                assert(mounts@[5]@.destination == "/sys"@);
                assert(si == 5);
            }
            let ghost before = mounts@;
            let m = mounts.remove(si);
            let Mount { destination, options, uid_mappings, gid_mappings, .. } = m;
            let options2: Option<Vec<String>> = match options {
                None => None,
                Some(mut opts) => {
                    let ghost opts_before = opts@;
                    opts.push("rbind".to_owned());
                    proof {
                        assert(strs_view(opts@) =~= strs_view(opts_before).push("rbind"@));
                    }
                    Some(opts)
                },
            };
            let new_m = Mount {
                destination,
                typ: Some("none".to_owned()),
                source: Some("/sys".to_owned()),
                options: options2,
                uid_mappings,
                gid_mappings,
            };
            let ghost nv = new_m;
            mounts.insert(si, new_m);
            proof {
                assert(mounts@ =~= before.update(5, nv));
            }
        },
        None => {},
    }
    proof {
        reveal_strlit("nosuid");
        reveal_strlit("noexec");
        reveal_strlit("newinstance");
        reveal_strlit("ptmxmode=0666");
        reveal_strlit("mode=0620");
        reveal_strlit("gid=5");
        assert("nosuid"@.len() == 6);
        assert("noexec"@.len() == 6);
        assert("newinstance"@.len() == 11);
        assert("ptmxmode=0666"@.len() == 13);
        assert("mode=0620"@.len() == 9);
        assert("gid=5"@.len() == 5);
        let bad = "gid=5"@;
        let e = Seq::<Seq<char>>::empty();
        assert(remove_str(e, bad) =~= e);
        let s5 = seq!["gid=5"@];
        assert(s5.subrange(1, 1) =~= e);
        assert(remove_str(s5, bad) =~= e);
        let s4 = seq!["mode=0620"@, "gid=5"@];
        assert(s4.subrange(1, 2) =~= s5);
        assert(remove_str(s4, bad) =~= seq!["mode=0620"@]);
        let s3 = seq!["ptmxmode=0666"@, "mode=0620"@, "gid=5"@];
        assert(s3.subrange(1, 3) =~= s4);
        assert(remove_str(s3, bad) =~= seq!["ptmxmode=0666"@, "mode=0620"@]);
        let s2 = seq!["newinstance"@, "ptmxmode=0666"@, "mode=0620"@, "gid=5"@];
        assert(s2.subrange(1, 4) =~= s3);
        assert(remove_str(s2, bad) =~= seq!["newinstance"@, "ptmxmode=0666"@, "mode=0620"@]);
        let s1 = seq!["noexec"@, "newinstance"@, "ptmxmode=0666"@, "mode=0620"@, "gid=5"@];
        assert(s1.subrange(1, 5) =~= s2);
        assert(remove_str(s1, bad) =~= seq![
            "noexec"@,
            "newinstance"@,
            "ptmxmode=0666"@,
            "mode=0620"@,
        ]);
        let s0 = seq![
            "nosuid"@,
            "noexec"@,
            "newinstance"@,
            "ptmxmode=0666"@,
            "mode=0620"@,
            "gid=5"@,
        ];
        assert(s0.subrange(1, 6) =~= s1);
        assert(remove_str(s0, bad) =~= seq![
            "nosuid"@,
            "noexec"@,
            "newinstance"@,
            "ptmxmode=0666"@,
            "mode=0620"@,
        ]);
        assert(mounts@[0]@ =~~= rootless_mounts()[0]);
        assert(mounts@[1]@ =~~= rootless_mounts()[1]);
        assert(mounts@[2]@ =~~= rootless_mounts()[2]);
        assert(mounts@[3]@ =~~= rootless_mounts()[3]);
        assert(mounts@[4]@ =~~= rootless_mounts()[4]);
        assert(mounts@[5]@ =~~= rootless_mounts()[5]);
        assert(mounts@[6]@ =~~= rootless_mounts()[6]);
    }
    mounts
}

/// One id mapping as a document object, under the external field names
/// `containerID`, `hostID` and `size`.
pub open spec fn idm_json(m: LinuxIdMapping) -> JsonData {
    JsonData::Obj(
        seq![
            ("containerID"@, JsonData::Int(m.container_id as int)),
            ("hostID"@, JsonData::Int(m.host_id as int)),
            ("size"@, JsonData::Int(m.size as int)),
        ],
    )
}

pub open spec fn u32_field_ok(o: Option<JsonData>) -> bool {
    match o {
        None => true,
        Some(JsonData::Int(i)) => 0 <= i <= 0xffff_ffff,
        Some(_) => false,
    }
}

pub open spec fn u32_field_of(o: Option<JsonData>) -> u32 {
    match o {
        Some(JsonData::Int(i)) => i as u32,
        _ => 0,
    }
}

/// The id mapping a document object stands for: its three fields, when
/// present, must be integers in the unsigned 32-bit range; missing fields
/// default to zero.
pub open spec fn json_idm(j: JsonData) -> Option<LinuxIdMapping> {
    match j {
        JsonData::Obj(fs) => if key_unique(fs, "containerID"@) && key_unique(fs, "hostID"@)
            && key_unique(fs, "size"@) && u32_field_ok(obj_lookup(fs, "containerID"@))
            && u32_field_ok(
            obj_lookup(fs, "hostID"@),
        ) && u32_field_ok(obj_lookup(fs, "size"@)) {
            Some(
                LinuxIdMapping {
                    container_id: u32_field_of(obj_lookup(fs, "containerID"@)),
                    host_id: u32_field_of(obj_lookup(fs, "hostID"@)),
                    size: u32_field_of(obj_lookup(fs, "size"@)),
                },
            )
        } else {
            None
        },
        _ => None,
    }
}

impl LinuxIdMapping {
    /// Serialize this mapping to its document, exactly as [`idm_json`]
    /// describes it.
    pub fn to_json(&self) -> (r: Json)
        ensures
            r@ == idm_json(*self),
    {
        let mut fields: Vec<(String, Json)> = Vec::new();
        fields.push(("containerID".to_owned(), Json::Int(self.container_id as i64)));
        fields.push(("hostID".to_owned(), Json::Int(self.host_id as i64)));
        fields.push(("size".to_owned(), Json::Int(self.size as i64)));
        let r = Json::Obj(fields);
        proof {
            lemma_jview_fields(fields@);
            assert(jview_fields(fields@) =~= match idm_json(*self) {
                JsonData::Obj(fs) => fs,
                _ => Seq::empty(),
            });
        }
        r
    }

    /// Read a mapping out of a document; fails with a serialization error
    /// exactly on the documents that [`json_idm`] rejects.
    pub fn from_json(j: &Json) -> (r: Result<LinuxIdMapping, OciSpecError>)
        ensures
            (r is Ok) == (json_idm(j@) is Some),
            r matches Ok(m) ==> json_idm(j@) == Some(m),
            r matches Err(e) ==> e is SerDe,
    {
        match j {
            Json::Obj(fields) => {
                proof {
                    lemma_jview_fields(fields@);
                }
                if !(key_unique_ex(fields, "containerID") && key_unique_ex(fields, "hostID")
                    && key_unique_ex(fields, "size")) {
                    return Err(OciSpecError::SerDe("duplicate field".to_owned()));
                }
                let container_id: u32 = match obj_lookup_ex(fields, "containerID") {
                    None => 0,
                    Some(vj) => match vj {
                        Json::Int(i) => if 0i64 <= *i && *i <= 4294967295i64 {
                            (*i) as u32
                        } else {
                            return Err(
                                OciSpecError::SerDe("containerID out of range".to_owned()),
                            );
                        },
                        _ => {
                            return Err(
                                OciSpecError::SerDe("containerID must be an integer".to_owned()),
                            );
                        },
                    },
                };
                let host_id: u32 = match obj_lookup_ex(fields, "hostID") {
                    None => 0,
                    Some(vj) => match vj {
                        Json::Int(i) => if 0i64 <= *i && *i <= 4294967295i64 {
                            (*i) as u32
                        } else {
                            return Err(OciSpecError::SerDe("hostID out of range".to_owned()));
                        },
                        _ => {
                            return Err(
                                OciSpecError::SerDe("hostID must be an integer".to_owned()),
                            );
                        },
                    },
                };
                let size: u32 = match obj_lookup_ex(fields, "size") {
                    None => 0,
                    Some(vj) => match vj {
                        Json::Int(i) => if 0i64 <= *i && *i <= 4294967295i64 {
                            (*i) as u32
                        } else {
                            return Err(OciSpecError::SerDe("size out of range".to_owned()));
                        },
                        _ => {
                            return Err(OciSpecError::SerDe("size must be an integer".to_owned()));
                        },
                    },
                };
                let m = LinuxIdMapping { container_id, host_id, size };
                proof {
                    assert(json_idm(j@) is Some);
                    assert(json_idm(j@)->0 == m);
                }
                Ok(m)
            },
            _ => Err(OciSpecError::SerDe("id mapping must be an object".to_owned())),
        }
    }
}

pub open spec fn idms_json(ms: Seq<LinuxIdMapping>) -> Seq<JsonData> {
    Seq::new(ms.len(), |k: int| idm_json(ms[k]))
}

pub open spec fn opt_text_of(o: Option<JsonData>) -> Option<Seq<char>> {
    match o {
        Some(JsonData::Text(t)) => Some(t),
        _ => None,
    }
}

pub open spec fn opts_field_ok(o: Option<JsonData>) -> bool {
    match o {
        None => true,
        Some(JsonData::Null) => true,
        Some(JsonData::Arr(items)) => all_text_items(items),
        Some(_) => false,
    }
}

pub open spec fn opts_field_of(o: Option<JsonData>) -> Option<Seq<Seq<char>>> {
    match o {
        Some(JsonData::Arr(items)) => Some(Seq::new(items.len(), |k: int| item_text(items[k]))),
        _ => None,
    }
}

pub open spec fn idms_field_ok(o: Option<JsonData>) -> bool {
    match o {
        None => true,
        Some(JsonData::Null) => true,
        Some(JsonData::Arr(items)) => forall|k: int|
            0 <= k < items.len() ==> json_idm(items[k]) is Some,
        Some(_) => false,
    }
}

pub open spec fn idms_field_of(o: Option<JsonData>) -> Option<Seq<LinuxIdMapping>> {
    match o {
        Some(JsonData::Arr(items)) => Some(
            Seq::new(items.len(), |k: int| json_idm(items[k])->0),
        ),
        _ => None,
    }
}

/// The document a Mount serializes to: `destination` always present, the
/// optional fields omitted entirely when absent, `typ` renamed to `type`
/// and the mapping lists renamed to `uidMappings` and `gidMappings`.
pub open spec fn mount_json_fields(d: MountData) -> Seq<(Seq<char>, JsonData)> {
    seq![("destination"@, JsonData::Text(d.destination))] + (match d.typ {
        Some(t) => seq![("type"@, JsonData::Text(t))],
        None => Seq::empty(),
    }) + (match d.source {
        Some(s) => seq![("source"@, JsonData::Text(s))],
        None => Seq::empty(),
    }) + (match d.options {
        Some(o) => seq![("options"@, JsonData::Arr(texts_arr(o)))],
        None => Seq::empty(),
    }) + (match d.uid_mappings {
        Some(m) => seq![("uidMappings"@, JsonData::Arr(idms_json(m)))],
        None => Seq::empty(),
    }) + (match d.gid_mappings {
        Some(m) => seq![("gidMappings"@, JsonData::Arr(idms_json(m)))],
        None => Seq::empty(),
    })
}

pub open spec fn mount_json(d: MountData) -> JsonData {
    JsonData::Obj(mount_json_fields(d))
}

/// The Mount a document stands for: the destination is required; the
/// recognised fields must occur at most once and, when present, have the
/// right shapes, an explicit null reading as absent. Unrecognised fields
/// are ignored. The
/// joint-presence rule is a construction-time check of the builder, not
/// of the wire format.
pub open spec fn json_mount(j: JsonData) -> Option<MountData> {
    match j {
        JsonData::Obj(fs) => if key_unique(fs, "destination"@) && key_unique(fs, "type"@)
            && key_unique(fs, "source"@) && key_unique(fs, "options"@) && key_unique(
            fs,
            "uidMappings"@,
        ) && key_unique(fs, "gidMappings"@) && (obj_lookup(fs, "destination"@) matches Some(
            JsonData::Text(_),
        )) && opt_text_field_ok(
            obj_lookup(fs, "type"@),
        ) && opt_text_field_ok(obj_lookup(fs, "source"@)) && opts_field_ok(
            obj_lookup(fs, "options"@),
        ) && idms_field_ok(obj_lookup(fs, "uidMappings"@)) && idms_field_ok(
            obj_lookup(fs, "gidMappings"@),
        ) {
            Some(
                MountData {
                    destination: text_field_of(obj_lookup(fs, "destination"@)),
                    typ: opt_text_of(obj_lookup(fs, "type"@)),
                    source: opt_text_of(obj_lookup(fs, "source"@)),
                    options: opts_field_of(obj_lookup(fs, "options"@)),
                    uid_mappings: idms_field_of(obj_lookup(fs, "uidMappings"@)),
                    gid_mappings: idms_field_of(obj_lookup(fs, "gidMappings"@)),
                },
            )
        } else {
            None
        },
        _ => None,
    }
}

fn idms_to_json(v: &Vec<LinuxIdMapping>) -> (r: Json)
    ensures
        r@ == JsonData::Arr(idms_json(v@)),
{
    let mut items: Vec<Json> = Vec::new();
    let mut k: usize = 0;
    while k < v.len()
        invariant
            k <= v@.len(),
            items@.len() == k,
            forall|m: int| 0 <= m < k ==> jview(items@[m]) == idm_json(v@[m]),
        decreases v@.len() - k,
    {
        items.push(v[k].to_json());
        k += 1;
    }
    let r = Json::Arr(items);
    proof {
        lemma_jview_list(items@);
        assert(jview_list(items@) =~= idms_json(v@));
    }
    r
}

fn json_to_idms(items: &Vec<Json>) -> (r: Result<Vec<LinuxIdMapping>, OciSpecError>)
    ensures
        (r is Ok) == (forall|k: int|
            0 <= k < items@.len() ==> json_idm(jview_list(items@)[k]) is Some),
        r matches Ok(v) ==> v@ == Seq::new(
            items@.len(),
            |k: int| json_idm(jview_list(items@)[k])->0,
        ),
        r matches Err(e) ==> e is SerDe,
{
    proof {
        lemma_jview_list(items@);
    }
    let ghost js = jview_list(items@);
    let mut out: Vec<LinuxIdMapping> = Vec::new();
    let mut k: usize = 0;
    while k < items.len()
        invariant
            k <= items@.len(),
            out@.len() == k,
            js == jview_list(items@),
            js.len() == items@.len(),
            forall|m: int| 0 <= m < items@.len() ==> js[m] == jview(items@[m]),
            forall|m: int| 0 <= m < k ==> (json_idm(js[m]) is Some),
            forall|m: int| 0 <= m < k ==> out@[m] == json_idm(js[m])->0,
        decreases items@.len() - k,
    {
        match LinuxIdMapping::from_json(&items[k]) {
            Ok(m) => {
                out.push(m);
            },
            Err(e) => {
                proof {
                    assert(!(json_idm(js[k as int]) is Some));
                }
                return Err(e);
            },
        }
        k += 1;
    }
    proof {
        assert(out@ =~= Seq::new(items@.len(), |k: int| json_idm(js[k])->0));
    }
    Ok(out)
}

impl Mount {
    /// Serialize this Mount to its document, exactly as [`mount_json`]
    /// describes it.
    pub fn to_json(&self) -> (r: Json)
        ensures
            r@ == mount_json(self@),
    {
        let mut fields: Vec<(String, Json)> = Vec::new();
        fields.push(("destination".to_owned(), Json::Text(self.destination.clone())));
        if let Some(t) = &self.typ {
            fields.push(("type".to_owned(), Json::Text(t.clone())));
        }
        if let Some(src) = &self.source {
            fields.push(("source".to_owned(), Json::Text(src.clone())));
        }
        if let Some(o) = &self.options {
            fields.push(("options".to_owned(), strings_to_json(o)));
        }
        if let Some(m) = &self.uid_mappings {
            fields.push(("uidMappings".to_owned(), idms_to_json(m)));
        }
        if let Some(m) = &self.gid_mappings {
            fields.push(("gidMappings".to_owned(), idms_to_json(m)));
        }
        let r = Json::Obj(fields);
        proof {
            lemma_jview_fields(fields@);
            assert(jview_fields(fields@) =~= mount_json_fields(self@));
        }
        r
    }

    /// Read a Mount out of a document; fails with a serialization error
    /// exactly on the documents that [`json_mount`] rejects.
    pub fn from_json(j: &Json) -> (r: Result<Mount, OciSpecError>)
        ensures
            (r is Ok) == (json_mount(j@) is Some),
            r matches Ok(m) ==> json_mount(j@) == Some(m@),
            r matches Err(e) ==> e is SerDe,
    {
        match j {
            Json::Obj(fields) => {
                proof {
                    lemma_jview_fields(fields@);
                }
                if !(key_unique_ex(fields, "destination") && key_unique_ex(fields, "type")
                    && key_unique_ex(fields, "source") && key_unique_ex(fields, "options")
                    && key_unique_ex(fields, "uidMappings") && key_unique_ex(
                    fields,
                    "gidMappings",
                )) {
                    return Err(OciSpecError::SerDe("duplicate field".to_owned()));
                }
                let destination: String = match obj_lookup_ex(fields, "destination") {
                    None => {
                        return Err(
                            OciSpecError::SerDe("the destination field is required".to_owned()),
                        );
                    },
                    Some(vj) => match vj {
                        Json::Text(t) => t.clone(),
                        _ => {
                            return Err(
                                OciSpecError::SerDe("destination must be a string".to_owned()),
                            );
                        },
                    },
                };
                let typ: Option<String> = match obj_lookup_ex(fields, "type") {
                    None => None,
                    Some(vj) => match vj {
                        Json::Null => None,
                        Json::Text(t) => Some(t.clone()),
                        _ => {
                            return Err(OciSpecError::SerDe("type must be a string".to_owned()));
                        },
                    },
                };
                let source: Option<String> = match obj_lookup_ex(fields, "source") {
                    None => None,
                    Some(vj) => match vj {
                        Json::Null => None,
                        Json::Text(t) => Some(t.clone()),
                        _ => {
                            return Err(OciSpecError::SerDe("source must be a string".to_owned()));
                        },
                    },
                };
                let options: Option<Vec<String>> = match obj_lookup_ex(fields, "options") {
                    None => None,
                    Some(vj) => match vj {
                        Json::Null => None,
                        Json::Arr(items) => {
                            proof {
                                lemma_jview_list(items@);
                            }
                            match json_to_strings(items) {
                                Ok(v) => Some(v),
                                Err(e) => {
                                    return Err(e);
                                },
                            }
                        },
                        _ => {
                            return Err(
                                OciSpecError::SerDe("options must be an array".to_owned()),
                            );
                        },
                    },
                };
                let uid_mappings: Option<Vec<LinuxIdMapping>> = match obj_lookup_ex(
                    fields,
                    "uidMappings",
                ) {
                    None => None,
                    Some(vj) => match vj {
                        Json::Null => None,
                        Json::Arr(items) => {
                            proof {
                                lemma_jview_list(items@);
                            }
                            match json_to_idms(items) {
                                Ok(v) => Some(v),
                                Err(e) => {
                                    return Err(e);
                                },
                            }
                        },
                        _ => {
                            return Err(
                                OciSpecError::SerDe("uidMappings must be an array".to_owned()),
                            );
                        },
                    },
                };
                let gid_mappings: Option<Vec<LinuxIdMapping>> = match obj_lookup_ex(
                    fields,
                    "gidMappings",
                ) {
                    None => None,
                    Some(vj) => match vj {
                        Json::Null => None,
                        Json::Arr(items) => {
                            proof {
                                lemma_jview_list(items@);
                            }
                            match json_to_idms(items) {
                                Ok(v) => Some(v),
                                Err(e) => {
                                    return Err(e);
                                },
                            }
                        },
                        _ => {
                            return Err(
                                OciSpecError::SerDe("gidMappings must be an array".to_owned()),
                            );
                        },
                    },
                };
                let m = Mount { destination, typ, source, options, uid_mappings, gid_mappings };
                proof {
                    assert(json_mount(j@) is Some);
                    assert(json_mount(j@)->0 =~~= m@);
                }
                Ok(m)
            },
            _ => Err(OciSpecError::SerDe("document root must be an object".to_owned())),
        }
    }
}

pub open spec fn bool_field_ok(o: Option<JsonData>) -> bool {
    match o {
        None => true,
        Some(JsonData::Null) => true,
        Some(JsonData::Bool(_)) => true,
        Some(_) => false,
    }
}

pub open spec fn bool_field_of(o: Option<JsonData>) -> Option<bool> {
    match o {
        Some(JsonData::Bool(b)) => Some(b),
        _ => None,
    }
}

/// The document a Root serializes to: the path always present, the
/// read-only flag omitted entirely when absent.
pub open spec fn root_json_fields(d: RootData) -> Seq<(Seq<char>, JsonData)> {
    seq![("path"@, JsonData::Text(d.path))] + (match d.readonly {
        Some(b) => seq![("readonly"@, JsonData::Bool(b))],
        None => Seq::empty(),
    })
}

pub open spec fn root_json(d: RootData) -> JsonData {
    JsonData::Obj(root_json_fields(d))
}

/// The Root a document stands for: the path must be text when present and
/// defaults to empty; the read-only flag must be a boolean when present,
/// and an explicit null reads as absent.
pub open spec fn json_root(j: JsonData) -> Option<RootData> {
    match j {
        JsonData::Obj(fs) => if key_unique(fs, "path"@) && key_unique(fs, "readonly"@)
            && text_field_ok(obj_lookup(fs, "path"@)) && bool_field_ok(
            obj_lookup(fs, "readonly"@),
        ) {
            Some(
                RootData {
                    path: text_field_of(obj_lookup(fs, "path"@)),
                    readonly: bool_field_of(obj_lookup(fs, "readonly"@)),
                },
            )
        } else {
            None
        },
        _ => None,
    }
}

impl Root {
    /// Serialize this Root to its document, exactly as [`root_json`]
    /// describes it.
    pub fn to_json(&self) -> (r: Json)
        ensures
            r@ == root_json(self@),
    {
        let mut fields: Vec<(String, Json)> = Vec::new();
        fields.push(("path".to_owned(), Json::Text(self.path.clone())));
        if let Some(b) = self.readonly {
            fields.push(("readonly".to_owned(), Json::Bool(b)));
        }
        let r = Json::Obj(fields);
        proof {
            lemma_jview_fields(fields@);
            assert(jview_fields(fields@) =~= root_json_fields(self@));
        }
        r
    }

    /// Read a Root out of a document; fails with a serialization error
    /// exactly on the documents that [`json_root`] rejects.
    pub fn from_json(j: &Json) -> (r: Result<Root, OciSpecError>)
        ensures
            (r is Ok) == (json_root(j@) is Some),
            r matches Ok(root) ==> json_root(j@) == Some(root@),
            r matches Err(e) ==> e is SerDe,
    {
        match j {
            Json::Obj(fields) => {
                proof {
                    lemma_jview_fields(fields@);
                }
                if !(key_unique_ex(fields, "path") && key_unique_ex(fields, "readonly")) {
                    return Err(OciSpecError::SerDe("duplicate field".to_owned()));
                }
                let path: String = match obj_lookup_ex(fields, "path") {
                    None => String::new(),
                    Some(vj) => match vj {
                        Json::Text(t) => t.clone(),
                        _ => {
                            return Err(OciSpecError::SerDe("path must be a string".to_owned()));
                        },
                    },
                };
                let readonly: Option<bool> = match obj_lookup_ex(fields, "readonly") {
                    None => None,
                    Some(vj) => match vj {
                        Json::Null => None,
                        Json::Bool(b) => Some(*b),
                        _ => {
                            return Err(
                                OciSpecError::SerDe("readonly must be a boolean".to_owned()),
                            );
                        },
                    },
                };
                let root = Root { path, readonly };
                proof {
                    assert(json_root(j@) is Some);
                    assert(json_root(j@)->0 =~= root@);
                }
                Ok(root)
            },
            _ => Err(OciSpecError::SerDe("document root must be an object".to_owned())),
        }
    }
}

} // verus!
