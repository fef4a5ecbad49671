//! Typed data model for OCI-style container runtime documents: the root
//! filesystem description, mounts with their default catalogs, the persisted
//! container state, and a platform namespace extension, together with the
//! JSON wire codec that the on-disk documents use.

pub mod error;
pub mod text;
pub mod json;
pub mod miscellaneous;
pub mod state;
pub mod zos;

pub use error::OciSpecError;
pub use miscellaneous::{
    get_default_mounts, get_rootless_mounts, LinuxIdMapping, Mount, MountBuilder, Root,
    RootBuilder,
};
pub use state::{
    ContainerProcessState, ContainerProcessStateBuilder, ContainerState, State, StateBuilder,
    SECCOMP_FD_NAME,
};
pub use zos::{ZOSBuilder, ZOSNamespace, ZOSNamespaceBuilder, ZOSNamespaceType, ZOS};
