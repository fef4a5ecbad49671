use vstd::prelude::*;
use crate::error::OciSpecError;
use crate::json::{Json, JsonData, jview, jview_fields, jview_list, key_unique, key_unique_ex, lemma_jview_fields, lemma_jview_list, obj_lookup, obj_lookup_ex};
use crate::text::str_eq;

verus! {

broadcast use vstd::string::group_string_axioms;

/// The namespace kinds available to z/OS based containers.
#[derive(Clone, Copy, Debug, Eq, Hash, PartialEq, Structural)]
pub enum ZOSNamespaceType {
    /// PID namespace, isolating process ids.
    Pid,
    /// Mount namespace, isolating mount points.
    Mount,
    /// IPC namespace, isolating System V IPC and POSIX message queues.
    Ipc,
    /// UTS namespace, isolating hostname and NIS domain name.
    Uts,
}

/// The default namespace kind is Pid.
impl Default for ZOSNamespaceType {
    fn default() -> (r: Self)
        ensures
            r == ZOSNamespaceType::Pid,
    {
        ZOSNamespaceType::Pid
    }
}

/// The wire and display token of a namespace kind: exactly the lowercase
/// variant name.
pub open spec fn zos_namespace_type_token(t: ZOSNamespaceType) -> Seq<char> {
    match t {
        ZOSNamespaceType::Pid => "pid"@,
        ZOSNamespaceType::Mount => "mount"@,
        ZOSNamespaceType::Ipc => "ipc"@,
        ZOSNamespaceType::Uts => "uts"@,
    }
}

/// The namespace kind a token stands for, if it is one of the four.
pub open spec fn token_zos_namespace_type(s: Seq<char>) -> Option<ZOSNamespaceType> {
    if s == "pid"@ {
        Some(ZOSNamespaceType::Pid)
    } else if s == "mount"@ {
        Some(ZOSNamespaceType::Mount)
    } else if s == "ipc"@ {
        Some(ZOSNamespaceType::Ipc)
    } else if s == "uts"@ {
        Some(ZOSNamespaceType::Uts)
    } else {
        None
    }
}

/// The message that rejecting an unknown namespace token carries: it
/// names the offending token.
pub open spec fn unknown_zos_namespace_message(s: Seq<char>) -> Seq<char> {
    "unknown z/OS namespace "@ + s + ", could not convert"@
}

impl ZOSNamespaceType {
    /// The lowercase wire and display token of this namespace kind.
    pub fn as_str(&self) -> (r: &'static str)
        ensures
            r@ == zos_namespace_type_token(*self),
    {
        match self {
            ZOSNamespaceType::Pid => "pid",
            ZOSNamespaceType::Mount => "mount",
            ZOSNamespaceType::Ipc => "ipc",
            ZOSNamespaceType::Uts => "uts",
        }
    }

    /// Convert a textual token to a namespace kind. Succeeds exactly on
    /// the four recognised tokens; any other input is rejected with a
    /// validation error naming the offending token.
    pub fn try_from(namespace: &str) -> (r: Result<ZOSNamespaceType, OciSpecError>)
        ensures
            (r is Ok) == (token_zos_namespace_type(namespace@) is Some),
            r matches Ok(t) ==> token_zos_namespace_type(namespace@) == Some(t),
            r matches Err(e) ==> e matches OciSpecError::Other(m) && m@
                == unknown_zos_namespace_message(namespace@),
    {
        if str_eq(namespace, "pid") {
            Ok(ZOSNamespaceType::Pid)
        } else if str_eq(namespace, "mount") {
            Ok(ZOSNamespaceType::Mount)
        } else if str_eq(namespace, "ipc") {
            Ok(ZOSNamespaceType::Ipc)
        } else if str_eq(namespace, "uts") {
            Ok(ZOSNamespaceType::Uts)
        } else {
            let msg = "unknown z/OS namespace ".to_owned().concat(namespace).concat(
                ", could not convert",
            );
            Err(OciSpecError::Other(msg))
        }
    }
}

/// The mathematical model of a [`ZOSNamespace`] value.
#[verifier::ext_equal]
pub struct ZOSNamespaceData {
    pub typ: ZOSNamespaceType,
    pub path: Option<Seq<char>>,
}

/// The configuration of one z/OS namespace: its kind and an optional path
/// to an existing namespace of the same kind to join.
#[derive(Debug, Clone, PartialEq, Eq)]
pub struct ZOSNamespace {
    typ: ZOSNamespaceType,
    path: Option<String>,
}

impl View for ZOSNamespace {
    type V = ZOSNamespaceData;

    closed spec fn view(&self) -> ZOSNamespaceData {
        ZOSNamespaceData {
            typ: self.typ,
            path: match self.path {
                None => None,
                Some(p) => Some(p@),
            },
        }
    }
}

pub open spec fn default_zos_namespace_data() -> ZOSNamespaceData {
    ZOSNamespaceData { typ: ZOSNamespaceType::Pid, path: None }
}

impl Default for ZOSNamespace {
    fn default() -> (r: Self)
        ensures
            r@ == default_zos_namespace_data(),
    {
        let r = ZOSNamespace { typ: ZOSNamespaceType::Pid, path: None };
        proof {
            assert(r@ =~= default_zos_namespace_data());
        }
        r
    }
}

impl ZOSNamespace {
    /// The kind of this namespace.
    pub fn typ(&self) -> (r: ZOSNamespaceType)
        ensures
            r == self@.typ,
    {
        self.typ
    }

    /// The path to an existing namespace persisted on disk.
    pub fn path(&self) -> (r: &Option<String>)
        ensures
            ((*r) is Some) == (self@.path is Some),
            (*r) matches Some(p) ==> self@.path == Some(p@),
    {
        &self.path
    }

    pub fn set_typ(&mut self, typ: ZOSNamespaceType)
        ensures
            final(self)@ == (ZOSNamespaceData { typ: typ, ..old(self)@ }),
    {
        self.typ = typ;
    }

    pub fn set_path(&mut self, path: Option<String>)
        ensures
            final(self)@ == (ZOSNamespaceData {
                path: match path {
                    None => None,
                    Some(p) => Some(p@),
                },
                ..old(self)@
            }),
    {
        self.path = path;
    }
}

/// Staging structure for [`ZOSNamespace`]; unset fields fall back to the
/// default namespace.
pub struct ZOSNamespaceBuilder {
    typ: Option<ZOSNamespaceType>,
    path: Option<String>,
}

pub closed spec fn zos_namespace_builder_data(b: ZOSNamespaceBuilder) -> ZOSNamespaceData {
    ZOSNamespaceData {
        typ: match b.typ {
            Some(t) => t,
            None => ZOSNamespaceType::Pid,
        },
        path: match b.path {
            None => None,
            Some(p) => Some(p@),
        },
    }
}

impl Default for ZOSNamespaceBuilder {
    fn default() -> (r: Self)
        ensures
            zos_namespace_builder_data(r) == default_zos_namespace_data(),
    {
        let r = ZOSNamespaceBuilder { typ: None, path: None };
        proof {
            assert(zos_namespace_builder_data(r) =~= default_zos_namespace_data());
        }
        r
    }
}

impl ZOSNamespaceBuilder {
    pub fn typ(self, typ: ZOSNamespaceType) -> (r: Self)
        ensures
            zos_namespace_builder_data(r) == (ZOSNamespaceData {
                typ: typ,
                ..zos_namespace_builder_data(self)
            }),
    {
        ZOSNamespaceBuilder { typ: Some(typ), ..self }
    }

    pub fn path(self, path: String) -> (r: Self)
        ensures
            zos_namespace_builder_data(r) == (ZOSNamespaceData {
                path: Some(path@),
                ..zos_namespace_builder_data(self)
            }),
    {
        ZOSNamespaceBuilder { path: Some(path), ..self }
    }

    /// Yield the staged namespace; no combination of fields is invalid.
    pub fn build(self) -> (r: Result<ZOSNamespace, OciSpecError>)
        ensures
            r matches Ok(ns) && ns@ == zos_namespace_builder_data(self),
    {
        let ghost model = zos_namespace_builder_data(self);
        let ns = ZOSNamespace {
            typ: match self.typ {
                Some(t) => t,
                None => ZOSNamespaceType::Pid,
            },
            path: self.path,
        };
        proof {
            assert(ns@ =~= model);
        }
        Ok(ns)
    }
}

pub open spec fn zos_namespaces_view(v: Seq<ZOSNamespace>) -> Seq<ZOSNamespaceData> {
    Seq::new(v.len(), |k: int| v[k]@)
}

/// The mathematical model of a [`ZOS`] value.
#[verifier::ext_equal]
pub struct ZOSData {
    pub namespaces: Option<Seq<ZOSNamespaceData>>,
}

/// ZOS contains the platform-specific configuration for z/OS based
/// containers: the namespaces the container creates or joins.
#[derive(Debug, Clone, PartialEq, Eq)]
pub struct ZOS {
    namespaces: Option<Vec<ZOSNamespace>>,
}

impl View for ZOS {
    type V = ZOSData;

    closed spec fn view(&self) -> ZOSData {
        ZOSData {
            namespaces: match self.namespaces {
                None => None,
                Some(v) => Some(zos_namespaces_view(v@)),
            },
        }
    }
}

impl Default for ZOS {
    fn default() -> (r: Self)
        ensures
            r@.namespaces is None,
    {
        ZOS { namespaces: None }
    }
}

impl ZOS {
    /// The namespaces created and/or joined by the container.
    pub fn namespaces(&self) -> (r: &Option<Vec<ZOSNamespace>>)
        ensures
            ((*r) is Some) == (self@.namespaces is Some),
            (*r) matches Some(v) ==> self@.namespaces == Some(zos_namespaces_view(v@)),
    {
        &self.namespaces
    }

    pub fn set_namespaces(&mut self, namespaces: Option<Vec<ZOSNamespace>>)
        ensures
            final(self)@ == (ZOSData {
                namespaces: match namespaces {
                    None => None,
                    Some(v) => Some(zos_namespaces_view(v@)),
                },
            }),
    {
        self.namespaces = namespaces;
    }
}

/// Staging structure for [`ZOS`].
pub struct ZOSBuilder {
    namespaces: Option<Vec<ZOSNamespace>>,
}

pub closed spec fn zos_builder_data(b: ZOSBuilder) -> ZOSData {
    ZOSData {
        namespaces: match b.namespaces {
            None => None,
            Some(v) => Some(zos_namespaces_view(v@)),
        },
    }
}

impl Default for ZOSBuilder {
    fn default() -> (r: Self)
        ensures
            zos_builder_data(r).namespaces is None,
    {
        ZOSBuilder { namespaces: None }
    }
}

impl ZOSBuilder {
    pub fn namespaces(self, namespaces: Vec<ZOSNamespace>) -> (r: Self)
        ensures
            zos_builder_data(r) == (ZOSData {
                namespaces: Some(zos_namespaces_view(namespaces@)),
            }),
    {
        ZOSBuilder { namespaces: Some(namespaces) }
    }

    /// Yield the staged value; no combination of fields is invalid.
    pub fn build(self) -> (r: Result<ZOS, OciSpecError>)
        ensures
            r matches Ok(z) && z@ == zos_builder_data(self),
    {
        let ghost model = zos_builder_data(self);
        let z = ZOS { namespaces: self.namespaces };
        proof {
            assert(z@ =~= model);
        }
        Ok(z)
    }
}

/// The document a namespace serializes to: its kind under the external
/// field name `type` (always present), the path omitted when absent.
pub open spec fn zns_json(d: ZOSNamespaceData) -> JsonData {
    JsonData::Obj(
        seq![("type"@, JsonData::Text(zos_namespace_type_token(d.typ)))] + (match d.path {
            Some(p) => seq![("path"@, JsonData::Text(p))],
            None => Seq::empty(),
        }),
    )
}

/// The namespace a document stands for: the `type` field is required and
/// must hold one of the four tokens; the path must be text when present,
/// and an explicit null reads as absent.
pub open spec fn json_zns(j: JsonData) -> Option<ZOSNamespaceData> {
    match j {
        JsonData::Obj(fs) => if !(key_unique(fs, "type"@) && key_unique(fs, "path"@)) {
            None
        } else {
            match obj_lookup(fs, "type"@) {
            Some(JsonData::Text(t)) => match token_zos_namespace_type(t) {
                Some(typ) => match obj_lookup(fs, "path"@) {
                    None => Some(ZOSNamespaceData { typ, path: None }),
                    Some(JsonData::Null) => Some(ZOSNamespaceData { typ, path: None }),
                    Some(JsonData::Text(p)) => Some(ZOSNamespaceData { typ, path: Some(p) }),
                    Some(_) => None,
                },
                None => None,
            },
            _ => None,
            }
        },
        _ => None,
    }
}

impl ZOSNamespace {
    /// Serialize this namespace to its document, exactly as [`zns_json`]
    /// describes it.
    pub fn to_json(&self) -> (r: Json)
        ensures
            r@ == zns_json(self@),
    {
        let mut fields: Vec<(String, Json)> = Vec::new();
        fields.push(("type".to_owned(), Json::Text(self.typ.as_str().to_owned())));
        if let Some(p) = &self.path {
            fields.push(("path".to_owned(), Json::Text(p.clone())));
        }
        let r = Json::Obj(fields);
        proof {
            lemma_jview_fields(fields@);
            assert(jview_fields(fields@) =~= match zns_json(self@) {
                JsonData::Obj(fs) => fs,
                _ => Seq::empty(),
            });
        }
        r
    }

    /// Read a namespace out of a document; fails with a serialization
    /// error exactly on the documents that [`json_zns`] rejects.
    pub fn from_json(j: &Json) -> (r: Result<ZOSNamespace, OciSpecError>)
        ensures
            (r is Ok) == (json_zns(j@) is Some),
            r matches Ok(ns) ==> json_zns(j@) == Some(ns@),
            r matches Err(e) ==> e is SerDe,
    {
        match j {
            Json::Obj(fields) => {
                proof {
                    lemma_jview_fields(fields@);
                }
                if !(key_unique_ex(fields, "type") && key_unique_ex(fields, "path")) {
                    return Err(OciSpecError::SerDe("duplicate field".to_owned()));
                }
                let typ: ZOSNamespaceType = match obj_lookup_ex(fields, "type") {
                    None => {
                        return Err(
                            OciSpecError::SerDe("namespace type field is required".to_owned()),
                        );
                    },
                    Some(vj) => match vj {
                        Json::Text(t) => match ZOSNamespaceType::try_from(t.as_str()) {
                            Ok(typ) => typ,
                            Err(_) => {
                                return Err(
                                    OciSpecError::SerDe("unknown namespace type token".to_owned()),
                                );
                            },
                        },
                        _ => {
                            return Err(
                                OciSpecError::SerDe("namespace type must be a string".to_owned()),
                            );
                        },
                    },
                };
                let path: Option<String> = match obj_lookup_ex(fields, "path") {
                    None => None,
                    Some(vj) => match vj {
                        Json::Null => None,
                        Json::Text(t) => Some(t.clone()),
                        _ => {
                            return Err(OciSpecError::SerDe("path must be a string".to_owned()));
                        },
                    },
                };
                let ns = ZOSNamespace { typ, path };
                proof {
                    assert(json_zns(j@) is Some);
                    assert(json_zns(j@)->0 =~= ns@);
                }
                Ok(ns)
            },
            _ => Err(OciSpecError::SerDe("namespace must be an object".to_owned())),
        }
    }
}

pub open spec fn znss_json(ns: Seq<ZOSNamespaceData>) -> Seq<JsonData> {
    Seq::new(ns.len(), |k: int| zns_json(ns[k]))
}

/// The document a ZOS value serializes to: the namespace list omitted
/// entirely when absent.
pub open spec fn zos_json_fields(d: ZOSData) -> Seq<(Seq<char>, JsonData)> {
    match d.namespaces {
        Some(ns) => seq![("namespaces"@, JsonData::Arr(znss_json(ns)))],
        None => Seq::empty(),
    }
}

pub open spec fn zos_json(d: ZOSData) -> JsonData {
    JsonData::Obj(zos_json_fields(d))
}

/// The ZOS value a document stands for: the namespace list, when present,
/// must be an array of well-formed namespace objects; an explicit null
/// reads as absent.
pub open spec fn json_zos(j: JsonData) -> Option<ZOSData> {
    match j {
        JsonData::Obj(fs) => if !key_unique(fs, "namespaces"@) {
            None
        } else {
            match obj_lookup(fs, "namespaces"@) {
            None => Some(ZOSData { namespaces: None }),
            Some(JsonData::Null) => Some(ZOSData { namespaces: None }),
            Some(JsonData::Arr(items)) => if forall|k: int|
                0 <= k < items.len() ==> json_zns(items[k]) is Some {
                Some(
                    ZOSData {
                        namespaces: Some(Seq::new(items.len(), |k: int| json_zns(items[k])->0)),
                    },
                )
            } else {
                None
            },
            Some(_) => None,
            }
        },
        _ => None,
    }
}

fn znss_to_json(v: &Vec<ZOSNamespace>) -> (r: Json)
    ensures
        r@ == JsonData::Arr(znss_json(zos_namespaces_view(v@))),
{
    let mut items: Vec<Json> = Vec::new();
    let mut k: usize = 0;
    while k < v.len()
        invariant
            k <= v@.len(),
            items@.len() == k,
            forall|m: int| 0 <= m < k ==> jview(items@[m]) == zns_json(v@[m]@),
        decreases v@.len() - k,
    {
        items.push(v[k].to_json());
        k += 1;
    }
    let r = Json::Arr(items);
    proof {
        lemma_jview_list(items@);
        assert(jview_list(items@) =~= znss_json(zos_namespaces_view(v@)));
    }
    r
}

fn json_to_znss(items: &Vec<Json>) -> (r: Result<Vec<ZOSNamespace>, OciSpecError>)
    ensures
        (r is Ok) == (forall|k: int|
            0 <= k < items@.len() ==> json_zns(jview_list(items@)[k]) is Some),
        r matches Ok(v) ==> zos_namespaces_view(v@) == Seq::new(
            items@.len(),
            |k: int| json_zns(jview_list(items@)[k])->0,
        ),
        r matches Err(e) ==> e is SerDe,
{
    proof {
        lemma_jview_list(items@);
    }
    let ghost js = jview_list(items@);
    let mut out: Vec<ZOSNamespace> = Vec::new();
    let mut k: usize = 0;
    while k < items.len()
        invariant
            k <= items@.len(),
            out@.len() == k,
            js == jview_list(items@),
            js.len() == items@.len(),
            forall|m: int| 0 <= m < items@.len() ==> js[m] == jview(items@[m]),
            forall|m: int| 0 <= m < k ==> (json_zns(js[m]) is Some),
            forall|m: int| 0 <= m < k ==> out@[m]@ == json_zns(js[m])->0,
        decreases items@.len() - k,
    {
        match ZOSNamespace::from_json(&items[k]) {
            Ok(ns) => {
                out.push(ns);
            },
            Err(e) => {
                proof {
                    assert(!(json_zns(js[k as int]) is Some));
                }
                return Err(e);
            },
        }
        k += 1;
    }
    proof {
        assert(zos_namespaces_view(out@) =~= Seq::new(
            items@.len(),
            |k: int| json_zns(js[k])->0,
        ));
    }
    Ok(out)
}

impl ZOS {
    /// Serialize this value to its document, exactly as [`zos_json`]
    /// describes it.
    pub fn to_json(&self) -> (r: Json)
        ensures
            r@ == zos_json(self@),
    {
        let mut fields: Vec<(String, Json)> = Vec::new();
        if let Some(ns) = &self.namespaces {
            fields.push(("namespaces".to_owned(), znss_to_json(ns)));
        }
        let r = Json::Obj(fields);
        proof {
            lemma_jview_fields(fields@);
            assert(jview_fields(fields@) =~= zos_json_fields(self@));
        }
        r
    }

    /// Read a value out of a document; fails with a serialization error
    /// exactly on the documents that [`json_zos`] rejects.
    pub fn from_json(j: &Json) -> (r: Result<ZOS, OciSpecError>)
        ensures
            (r is Ok) == (json_zos(j@) is Some),
            r matches Ok(z) ==> json_zos(j@) == Some(z@),
            r matches Err(e) ==> e is SerDe,
    {
        match j {
            Json::Obj(fields) => {
                proof {
                    lemma_jview_fields(fields@);
                }
                if !key_unique_ex(fields, "namespaces") {
                    return Err(OciSpecError::SerDe("duplicate field".to_owned()));
                }
                let namespaces: Option<Vec<ZOSNamespace>> = match obj_lookup_ex(
                    fields,
                    "namespaces",
                ) {
                    None => None,
                    Some(vj) => match vj {
                        Json::Null => None,
                        Json::Arr(items) => {
                            proof {
                                lemma_jview_list(items@);
                            }
                            match json_to_znss(items) {
                                Ok(v) => Some(v),
                                Err(e) => {
                                    return Err(e);
                                },
                            }
                        },
                        _ => {
                            return Err(
                                OciSpecError::SerDe("namespaces must be an array".to_owned()),
                            );
                        },
                    },
                };
                let z = ZOS { namespaces };
                proof {
                    assert(json_zos(j@) is Some);
                    assert(json_zos(j@)->0 =~~= z@);
                }
                Ok(z)
            },
            _ => Err(OciSpecError::SerDe("document root must be an object".to_owned())),
        }
    }
}

} // verus!
