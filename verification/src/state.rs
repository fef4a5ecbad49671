use vstd::prelude::*;
use crate::error::OciSpecError;
use crate::json::{Json, JsonData, wf_json, lemma_parse_render_doc, jview, jview_fields, lemma_jview_fields, obj_lookup, obj_lookup_ex, key_unique, key_unique_ex, lemma_obj_lookup_at, lemma_obj_lookup_none, parse_doc, render};
use crate::text::str_eq;
use crate::miscellaneous::strs_view;

verus! {

/// ContainerState represents the lifecycle phase of a container.
#[derive(Clone, Copy, Debug, Eq, Hash, PartialEq, Structural)]
pub enum ContainerState {
    /// The container is being created.
    Creating,
    /// The create operation has finished, but the container has not been
    /// run yet.
    Created,
    /// The container process has executed the user-specified program but
    /// has not exited.
    Running,
    /// The container process has exited.
    Stopped,
}

/// The default lifecycle phase is Stopped.
impl Default for ContainerState {
    fn default() -> (r: Self)
        ensures
            r == ContainerState::Stopped,
    {
        ContainerState::Stopped
    }
}

/// The wire token of a lifecycle phase: exactly the lowercase variant name.
pub open spec fn container_state_token(cs: ContainerState) -> Seq<char> {
    match cs {
        ContainerState::Creating => "creating"@,
        ContainerState::Created => "created"@,
        ContainerState::Running => "running"@,
        ContainerState::Stopped => "stopped"@,
    }
}

/// The lifecycle phase a wire token stands for, if it is one of the four.
pub open spec fn token_state(t: Seq<char>) -> Option<ContainerState> {
    if t == "creating"@ {
        Some(ContainerState::Creating)
    } else if t == "created"@ {
        Some(ContainerState::Created)
    } else if t == "running"@ {
        Some(ContainerState::Running)
    } else if t == "stopped"@ {
        Some(ContainerState::Stopped)
    } else {
        None
    }
}

impl ContainerState {
    /// The lowercase wire and display token of this phase.
    pub fn as_str(&self) -> (r: &'static str)
        ensures
            r@ == container_state_token(*self),
    {
        match self {
            ContainerState::Creating => "creating",
            ContainerState::Created => "created",
            ContainerState::Running => "running",
            ContainerState::Stopped => "stopped",
        }
    }

    /// Parse a wire token; unknown tokens yield nothing.
    pub fn from_token(s: &str) -> (r: Option<ContainerState>)
        ensures
            r == token_state(s@),
    {
        if str_eq(s, "creating") {
            Some(ContainerState::Creating)
        } else if str_eq(s, "created") {
            Some(ContainerState::Created)
        } else if str_eq(s, "running") {
            Some(ContainerState::Running)
        } else if str_eq(s, "stopped") {
            Some(ContainerState::Stopped)
        } else {
            None
        }
    }
}

/// Serializing any lifecycle phase to its token and parsing it back yields
/// the original phase.
pub proof fn lemma_container_state_token_round_trip(cs: ContainerState)
    ensures
        token_state(container_state_token(cs)) == Some(cs),
{
    broadcast use vstd::string::group_string_axioms;

    reveal_strlit("creating");
    reveal_strlit("created");
    reveal_strlit("running");
    reveal_strlit("stopped");
    assert("creating"@.len() == 8);
    assert("created"@.len() == 7);
    assert("running"@.len() == 7);
    assert("stopped"@.len() == 7);
    assert("created"@[0] == 'c' && "running"@[0] == 'r' && "stopped"@[0] == 's');
}

/// The mathematical model of a [`State`] value.
#[verifier::ext_equal]
pub struct StateData {
    pub version: Seq<char>,
    pub id: Seq<char>,
    pub status: ContainerState,
    pub pid: Option<i32>,
    pub bundle: Seq<char>,
    pub annotations: Option<Seq<(Seq<char>, Seq<char>)>>,
}

pub open spec fn pairs_view(v: Seq<(String, String)>) -> Seq<(Seq<char>, Seq<char>)> {
    Seq::new(v.len(), |k: int| (v[k].0@, v[k].1@))
}

/// State holds the externally persisted snapshot of a container: the
/// supported specification version, the container id, its lifecycle
/// status, the process id once one exists, the bundle path, and optional
/// annotations.
#[derive(Debug, Clone, PartialEq, Eq)]
pub struct State {
    version: String,
    id: String,
    status: ContainerState,
    pid: Option<i32>,
    bundle: String,
    annotations: Option<Vec<(String, String)>>,
}

impl View for State {
    type V = StateData;

    closed spec fn view(&self) -> StateData {
        StateData {
            version: self.version@,
            id: self.id@,
            status: self.status,
            pid: self.pid,
            bundle: self.bundle@,
            annotations: match self.annotations {
                None => None,
                Some(a) => Some(pairs_view(a@)),
            },
        }
    }
}

/// The model of a freshly constructed default [`State`].
pub open spec fn default_state_data() -> StateData {
    StateData {
        version: Seq::empty(),
        id: Seq::empty(),
        status: ContainerState::Stopped,
        pid: None,
        bundle: Seq::empty(),
        annotations: None,
    }
}

/// Every field of a default State is empty or absent; the status is
/// Stopped.
impl Default for State {
    fn default() -> (r: Self)
        ensures
            r@ == default_state_data(),
    {
        let r = State {
            version: String::new(),
            id: String::new(),
            status: ContainerState::Stopped,
            pid: None,
            bundle: String::new(),
            annotations: None,
        };
        proof {
            assert(r@ =~= default_state_data());
        }
        r
    }
}

impl State {
    /// The version of the specification this state supports.
    pub fn version(&self) -> (r: &String)
        ensures
            r@ == self@.version,
    {
        &self.version
    }

    /// The container id.
    pub fn id(&self) -> (r: &String)
        ensures
            r@ == self@.id,
    {
        &self.id
    }

    /// The runtime status of the container.
    pub fn status(&self) -> (r: ContainerState)
        ensures
            r == self@.status,
    {
        self.status
    }

    /// The container process id, absent while no process has started.
    pub fn pid(&self) -> (r: Option<i32>)
        ensures
            r == self@.pid,
    {
        self.pid
    }

    /// The path to the container's bundle directory.
    pub fn bundle(&self) -> (r: &String)
        ensures
            r@ == self@.bundle,
    {
        &self.bundle
    }

    /// The key-value annotations associated with the container. Pair
    /// order is kept; keys are expected to be pairwise distinct (see
    /// [`annotation_keys_unique`]).
    pub fn annotations(&self) -> (r: &Option<Vec<(String, String)>>)
        ensures
            ((*r) is Some) == (self@.annotations is Some),
            (*r) matches Some(a) ==> self@.annotations == Some(pairs_view(a@)),
    {
        &self.annotations
    }

    pub fn set_version(&mut self, version: String)
        ensures
            final(self)@ == (StateData { version: version@, ..old(self)@ }),
    {
        self.version = version;
    }

    pub fn set_id(&mut self, id: String)
        ensures
            final(self)@ == (StateData { id: id@, ..old(self)@ }),
    {
        self.id = id;
    }

    pub fn set_status(&mut self, status: ContainerState)
        ensures
            final(self)@ == (StateData { status: status, ..old(self)@ }),
    {
        self.status = status;
    }

    pub fn set_pid(&mut self, pid: i32)
        ensures
            final(self)@ == (StateData { pid: Some(pid), ..old(self)@ }),
    {
        self.pid = Some(pid);
    }

    pub fn set_bundle(&mut self, bundle: String)
        ensures
            final(self)@ == (StateData { bundle: bundle@, ..old(self)@ }),
    {
        self.bundle = bundle;
    }

    pub fn set_annotations(&mut self, annotations: Option<Vec<(String, String)>>)
        ensures
            final(self)@ == (StateData {
                annotations: match annotations {
                    None => None,
                    Some(a) => Some(pairs_view(a@)),
                },
                ..old(self)@
            }),
    {
        self.annotations = annotations;
    }
}

/// Staging structure for [`State`]: unset fields fall back to the
/// defaults of [`default_state_data`].
pub struct StateBuilder {
    version: Option<String>,
    id: Option<String>,
    status: Option<ContainerState>,
    pid: Option<i32>,
    bundle: Option<String>,
    annotations: Option<Vec<(String, String)>>,
}

/// The model of the State a builder yields.
pub closed spec fn state_builder_data(b: StateBuilder) -> StateData {
    StateData {
        version: match b.version {
            Some(v) => v@,
            None => Seq::empty(),
        },
        id: match b.id {
            Some(v) => v@,
            None => Seq::empty(),
        },
        status: match b.status {
            Some(v) => v,
            None => ContainerState::Stopped,
        },
        pid: b.pid,
        bundle: match b.bundle {
            Some(v) => v@,
            None => Seq::empty(),
        },
        annotations: match b.annotations {
            None => None,
            Some(a) => Some(pairs_view(a@)),
        },
    }
}

/// A fresh builder has every field unset.
impl Default for StateBuilder {
    fn default() -> (r: Self)
        ensures
            state_builder_data(r) == default_state_data(),
    {
        let r = StateBuilder {
            version: None,
            id: None,
            status: None,
            pid: None,
            bundle: None,
            annotations: None,
        };
        proof {
            assert(state_builder_data(r) =~= default_state_data());
        }
        r
    }
}

impl StateBuilder {
    pub fn version(self, version: String) -> (r: Self)
        ensures
            state_builder_data(r) == (StateData {
                version: version@,
                ..state_builder_data(self)
            }),
    {
        StateBuilder { version: Some(version), ..self }
    }

    pub fn id(self, id: String) -> (r: Self)
        ensures
            state_builder_data(r) == (StateData { id: id@, ..state_builder_data(self) }),
    {
        StateBuilder { id: Some(id), ..self }
    }

    pub fn status(self, status: ContainerState) -> (r: Self)
        ensures
            state_builder_data(r) == (StateData { status: status, ..state_builder_data(self) }),
    {
        StateBuilder { status: Some(status), ..self }
    }

    pub fn pid(self, pid: i32) -> (r: Self)
        ensures
            state_builder_data(r) == (StateData { pid: Some(pid), ..state_builder_data(self) }),
    {
        StateBuilder { pid: Some(pid), ..self }
    }

    pub fn bundle(self, bundle: String) -> (r: Self)
        ensures
            state_builder_data(r) == (StateData { bundle: bundle@, ..state_builder_data(self) }),
    {
        StateBuilder { bundle: Some(bundle), ..self }
    }

    pub fn annotations(self, annotations: Vec<(String, String)>) -> (r: Self)
        ensures
            state_builder_data(r) == (StateData {
                annotations: Some(pairs_view(annotations@)),
                ..state_builder_data(self)
            }),
    {
        StateBuilder { annotations: Some(annotations), ..self }
    }

    /// Yield the staged State. No combination of fields is invalid, so
    /// building always succeeds.
    pub fn build(self) -> (r: Result<State, OciSpecError>)
        ensures
            r matches Ok(st) && st@ == state_builder_data(self),
    {
        let ghost model = state_builder_data(self);
        let st = State {
            version: match self.version {
                Some(v) => v,
                None => String::new(),
            },
            id: match self.id {
                Some(v) => v,
                None => String::new(),
            },
            status: match self.status {
                Some(v) => v,
                None => ContainerState::Stopped,
            },
            pid: self.pid,
            bundle: match self.bundle {
                Some(v) => v,
                None => String::new(),
            },
            annotations: self.annotations,
        };
        proof {
            assert(st@ =~= model);
        }
        Ok(st)
    }
}

/// An annotations mapping as object fields: every value a text string.
pub open spec fn text_fields(a: Seq<(Seq<char>, Seq<char>)>) -> Seq<(Seq<char>, JsonData)> {
    Seq::new(a.len(), |k: int| (a[k].0, JsonData::Text(a[k].1)))
}

/// The well-formedness invariant of an annotations mapping: its keys are
/// pairwise distinct. The library keeps annotation pairs in order and
/// never merges or drops them, so callers are expected to supply keys
/// that satisfy this predicate; a mapping with repeated keys serializes
/// to an object with repeated keys.
pub open spec fn annotation_keys_unique(a: Seq<(Seq<char>, Seq<char>)>) -> bool {
    forall|i: int, j: int| 0 <= i < j < a.len() ==> a[i].0 != a[j].0
}

/// Serialization preserves the annotations invariant: the annotations
/// object written for a mapping with pairwise distinct keys has pairwise
/// distinct keys.
pub proof fn lemma_annotation_keys_written_unique(a: Seq<(Seq<char>, Seq<char>)>)
    requires
        annotation_keys_unique(a),
    ensures
        forall|i: int, j: int|
            0 <= i < j < text_fields(a).len() ==> text_fields(a)[i].0 != text_fields(a)[j].0,
{
}

/// Parsing preserves the annotations invariant: an annotations object
/// with pairwise distinct keys reads back as a mapping with pairwise
/// distinct keys.
pub proof fn lemma_annotation_keys_read_unique(fs: Seq<(Seq<char>, JsonData)>)
    requires
        forall|i: int, j: int| 0 <= i < j < fs.len() ==> fs[i].0 != fs[j].0,
    ensures
        annotation_keys_unique(texts_of(fs)),
{
}

/// The document a State serializes to: required fields always present in
/// declaration order with `version` renamed to `ociVersion`, the optional
/// `pid` and `annotations` omitted entirely when absent.
pub open spec fn state_json_fields(d: StateData) -> Seq<(Seq<char>, JsonData)> {
    seq![
        ("ociVersion"@, JsonData::Text(d.version)),
        ("id"@, JsonData::Text(d.id)),
        ("status"@, JsonData::Text(container_state_token(d.status))),
    ] + (match d.pid {
        Some(p) => seq![("pid"@, JsonData::Int(p as int))],
        None => Seq::empty(),
    }) + seq![("bundle"@, JsonData::Text(d.bundle))] + (match d.annotations {
        Some(a) => seq![("annotations"@, JsonData::Obj(text_fields(a)))],
        None => Seq::empty(),
    })
}

pub open spec fn state_json(d: StateData) -> JsonData {
    JsonData::Obj(state_json_fields(d))
}

pub open spec fn text_field_ok(o: Option<JsonData>) -> bool {
    match o {
        None => true,
        Some(j) => j is Text,
    }
}

/// An optional text field: absent, an explicit null (read as absent), or
/// text.
pub open spec fn opt_text_field_ok(o: Option<JsonData>) -> bool {
    match o {
        None => true,
        Some(JsonData::Null) => true,
        Some(j) => j is Text,
    }
}

pub open spec fn text_field_of(o: Option<JsonData>) -> Seq<char> {
    match o {
        Some(JsonData::Text(t)) => t,
        _ => Seq::empty(),
    }
}

pub open spec fn status_field_ok(o: Option<JsonData>) -> bool {
    match o {
        None => true,
        Some(JsonData::Text(t)) => token_state(t) is Some,
        Some(_) => false,
    }
}

pub open spec fn status_field_of(o: Option<JsonData>) -> ContainerState {
    match o {
        Some(JsonData::Text(t)) => match token_state(t) {
            Some(cs) => cs,
            None => ContainerState::Stopped,
        },
        _ => ContainerState::Stopped,
    }
}

pub open spec fn pid_field_ok(o: Option<JsonData>) -> bool {
    match o {
        None => true,
        Some(JsonData::Null) => true,
        Some(JsonData::Int(i)) => -2147483648 <= i <= 2147483647,
        Some(_) => false,
    }
}

pub open spec fn pid_field_of(o: Option<JsonData>) -> Option<i32> {
    match o {
        Some(JsonData::Int(i)) => Some(i as i32),
        _ => None,
    }
}

pub open spec fn all_text(fs: Seq<(Seq<char>, JsonData)>) -> bool {
    forall|k: int| 0 <= k < fs.len() ==> fs[k].1 is Text
}

pub open spec fn texts_of(fs: Seq<(Seq<char>, JsonData)>) -> Seq<(Seq<char>, Seq<char>)> {
    Seq::new(fs.len(), |k: int| (fs[k].0, text_field_of(Some(fs[k].1))))
}

pub open spec fn ann_field_ok(o: Option<JsonData>) -> bool {
    match o {
        None => true,
        Some(JsonData::Null) => true,
        Some(JsonData::Obj(fs)) => all_text(fs),
        Some(_) => false,
    }
}

pub open spec fn ann_field_of(o: Option<JsonData>) -> Option<Seq<(Seq<char>, Seq<char>)>> {
    match o {
        Some(JsonData::Obj(fs)) => Some(texts_of(fs)),
        _ => None,
    }
}

/// The State a document stands for: an object whose recognised fields, if
/// present, have the right shapes and occur at most once. Missing fields
/// take their defaults; unrecognised fields are ignored; the pairs of an
/// annotations object are all kept, in document order.
pub open spec fn json_state(j: JsonData) -> Option<StateData> {
    match j {
        JsonData::Obj(fields) => if key_unique(fields, "ociVersion"@) && key_unique(
            fields,
            "id"@,
        ) && key_unique(fields, "status"@) && key_unique(fields, "pid"@) && key_unique(
            fields,
            "bundle"@,
        ) && key_unique(fields, "annotations"@) && text_field_ok(
            obj_lookup(fields, "ociVersion"@),
        ) && text_field_ok(obj_lookup(fields, "id"@)) && status_field_ok(
            obj_lookup(fields, "status"@),
        ) && pid_field_ok(obj_lookup(fields, "pid"@)) && text_field_ok(
            obj_lookup(fields, "bundle"@),
        ) && ann_field_ok(obj_lookup(fields, "annotations"@)) {
            Some(
                StateData {
                    version: text_field_of(obj_lookup(fields, "ociVersion"@)),
                    id: text_field_of(obj_lookup(fields, "id"@)),
                    status: status_field_of(obj_lookup(fields, "status"@)),
                    pid: pid_field_of(obj_lookup(fields, "pid"@)),
                    bundle: text_field_of(obj_lookup(fields, "bundle"@)),
                    annotations: ann_field_of(obj_lookup(fields, "annotations"@)),
                },
            )
        } else {
            None
        },
        _ => None,
    }
}

fn annotations_to_json(a: &Vec<(String, String)>) -> (r: Json)
    ensures
        r@ == JsonData::Obj(text_fields(pairs_view(a@))),
{
    let mut fields: Vec<(String, Json)> = Vec::new();
    let mut k: usize = 0;
    while k < a.len()
        invariant
            k <= a@.len(),
            fields@.len() == k,
            forall|m: int|
                0 <= m < k ==> fields@[m].0@ == a@[m].0@ && jview(fields@[m].1)
                    == JsonData::Text(a@[m].1@),
        decreases a@.len() - k,
    {
        fields.push((a[k].0.clone(), Json::Text(a[k].1.clone())));
        k += 1;
    }
    let r = Json::Obj(fields);
    proof {
        lemma_jview_fields(fields@);
        assert(jview_fields(fields@) =~= text_fields(pairs_view(a@)));
    }
    r
}

fn json_to_annotations(afs: &Vec<(String, Json)>) -> (r: Result<
    Vec<(String, String)>,
    OciSpecError,
>)
    ensures
        (r is Ok) == all_text(jview_fields(afs@)),
        r matches Ok(v) ==> pairs_view(v@) == texts_of(jview_fields(afs@)),
        r matches Err(e) ==> e is SerDe,
{
    proof {
        lemma_jview_fields(afs@);
    }
    let ghost fs = jview_fields(afs@);
    let mut out: Vec<(String, String)> = Vec::new();
    let mut k: usize = 0;
    while k < afs.len()
        invariant
            k <= afs@.len(),
            out@.len() == k,
            fs == jview_fields(afs@),
            fs.len() == afs@.len(),
            forall|m: int| 0 <= m < afs@.len() ==> fs[m] == (afs@[m].0@, jview(afs@[m].1)),
            forall|m: int| 0 <= m < k ==> (fs[m].1 is Text),
            forall|m: int|
                0 <= m < k ==> out@[m].0@ == fs[m].0 && out@[m].1@ == text_field_of(
                    Some(fs[m].1),
                ),
        decreases afs@.len() - k,
    {
        match &afs[k].1 {
            Json::Text(t) => {
                out.push((afs[k].0.clone(), t.clone()));
            },
            _ => {
                proof {
                    assert(!(fs[k as int].1 is Text));
                }
                return Err(OciSpecError::SerDe("annotation values must be strings".to_owned()));
            },
        }
        k += 1;
    }
    proof {
        assert(pairs_view(out@) =~= texts_of(fs));
    }
    Ok(out)
}

impl State {
    /// Serialize this State to its document, exactly as [`state_json`]
    /// describes it.
    pub fn to_json(&self) -> (r: Json)
        ensures
            r@ == state_json(self@),
    {
        let mut fields: Vec<(String, Json)> = Vec::new();
        fields.push(("ociVersion".to_owned(), Json::Text(self.version.clone())));
        fields.push(("id".to_owned(), Json::Text(self.id.clone())));
        fields.push(("status".to_owned(), Json::Text(self.status.as_str().to_owned())));
        if let Some(p) = self.pid {
            fields.push(("pid".to_owned(), Json::Int(p as i64)));
        }
        fields.push(("bundle".to_owned(), Json::Text(self.bundle.clone())));
        if let Some(a) = &self.annotations {
            fields.push(("annotations".to_owned(), annotations_to_json(a)));
        }
        let r = Json::Obj(fields);
        proof {
            lemma_jview_fields(fields@);
            assert(jview_fields(fields@) =~= state_json_fields(self@));
        }
        r
    }

    /// Read a State out of a document; fails with a serialization error
    /// exactly on the documents that [`json_state`] rejects.
    pub fn from_json(j: &Json) -> (r: Result<State, OciSpecError>)
        ensures
            (r is Ok) == (json_state(j@) is Some),
            r matches Ok(st) ==> json_state(j@) == Some(st@),
            r matches Err(e) ==> e is SerDe,
    {
        match j {
            Json::Obj(fields) => {
                proof {
                    lemma_jview_fields(fields@);
                }
                let ghost fs = jview_fields(fields@);
                if !(key_unique_ex(fields, "ociVersion") && key_unique_ex(fields, "id")
                    && key_unique_ex(fields, "status") && key_unique_ex(fields, "pid")
                    && key_unique_ex(fields, "bundle") && key_unique_ex(
                    fields,
                    "annotations",
                )) {
                    return Err(OciSpecError::SerDe("duplicate field".to_owned()));
                }
                let version: String = match obj_lookup_ex(fields, "ociVersion") {
                    None => String::new(),
                    Some(vj) => match vj {
                        Json::Text(t) => t.clone(),
                        _ => {
                            return Err(
                                OciSpecError::SerDe("ociVersion must be a string".to_owned()),
                            );
                        },
                    },
                };
                let id: String = match obj_lookup_ex(fields, "id") {
                    None => String::new(),
                    Some(vj) => match vj {
                        Json::Text(t) => t.clone(),
                        _ => {
                            return Err(OciSpecError::SerDe("id must be a string".to_owned()));
                        },
                    },
                };
                let status: ContainerState = match obj_lookup_ex(fields, "status") {
                    None => ContainerState::Stopped,
                    Some(vj) => match vj {
                        Json::Text(t) => match ContainerState::from_token(t.as_str()) {
                            Some(cs) => cs,
                            None => {
                                return Err(
                                    OciSpecError::SerDe("unknown status token".to_owned()),
                                );
                            },
                        },
                        _ => {
                            return Err(OciSpecError::SerDe("status must be a string".to_owned()));
                        },
                    },
                };
                let pid: Option<i32> = match obj_lookup_ex(fields, "pid") {
                    None => None,
                    Some(vj) => match vj {
                        Json::Null => None,
                        Json::Int(i) => if -2147483648i64 <= *i && *i <= 2147483647i64 {
                            Some((*i) as i32)
                        } else {
                            return Err(
                                OciSpecError::SerDe("pid out of process id range".to_owned()),
                            );
                        },
                        _ => {
                            return Err(OciSpecError::SerDe("pid must be an integer".to_owned()));
                        },
                    },
                };
                let bundle: String = match obj_lookup_ex(fields, "bundle") {
                    None => String::new(),
                    Some(vj) => match vj {
                        Json::Text(t) => t.clone(),
                        _ => {
                            return Err(OciSpecError::SerDe("bundle must be a string".to_owned()));
                        },
                    },
                };
                let annotations: Option<Vec<(String, String)>> = match obj_lookup_ex(
                    fields,
                    "annotations",
                ) {
                    None => None,
                    Some(vj) => match vj {
                        Json::Null => None,
                        Json::Obj(afs) => match json_to_annotations(afs) {
                            Ok(v) => Some(v),
                            Err(e) => {
                                return Err(e);
                            },
                        },
                        _ => {
                            return Err(
                                OciSpecError::SerDe("annotations must be an object".to_owned()),
                            );
                        },
                    },
                };
                let st = State { version, id, status, pid, bundle, annotations };
                proof {
                    assert(json_state(j@) is Some);
                    assert(json_state(j@)->0 =~= st@);
                }
                Ok(st)
            },
            _ => Err(OciSpecError::SerDe("document root must be an object".to_owned())),
        }
    }

    /// The exact document text this State persists as.
    pub fn to_json_string(&self) -> (r: String)
        ensures
            r@ == state_text(self@),
    {
        let j = self.to_json();
        j.to_text()
    }

    /// Read a State from document text; fails with a serialization error
    /// exactly on the texts that [`text_state`] rejects.
    pub fn from_json_str(s: &str) -> (r: Result<State, OciSpecError>)
        ensures
            (r is Ok) == (text_state(s@) is Some),
            r matches Ok(st) ==> text_state(s@) == Some(st@),
            r matches Err(e) ==> e is SerDe,
    {
        match Json::parse_text(s) {
            Err(e) => Err(e),
            Ok(j) => State::from_json(&j),
        }
    }
}

/// The exact text a State persists as.
pub open spec fn state_text(d: StateData) -> Seq<char> {
    render(state_json(d))
}

/// The State a document text stands for, if it parses and has the right
/// shape.
pub open spec fn text_state(t: Seq<char>) -> Option<StateData> {
    match parse_doc(t) {
        None => None,
        Some(j) => json_state(j),
    }
}

/// Serializing any State to its document and reading the document back
/// yields the original State model.
pub proof fn lemma_state_json_round_trip(d: StateData)
    ensures
        json_state(state_json(d)) == Some(d),
{
    broadcast use vstd::string::group_string_axioms;

    reveal_strlit("ociVersion");
    reveal_strlit("id");
    reveal_strlit("status");
    reveal_strlit("pid");
    reveal_strlit("bundle");
    reveal_strlit("annotations");
    assert("ociVersion"@.len() == 10);
    assert("id"@.len() == 2);
    assert("status"@.len() == 6);
    assert("pid"@.len() == 3);
    assert("bundle"@.len() == 6);
    assert("annotations"@.len() == 11);
    assert("status"@[0] == 's' && "bundle"@[0] == 'b');
    let fs = state_json_fields(d);
    let k0 = "ociVersion"@;
    let k1 = "id"@;
    let k2 = "status"@;
    let k3 = "pid"@;
    let k4 = "bundle"@;
    let k5 = "annotations"@;
    lemma_container_state_token_round_trip(d.status);
    match d.pid {
        Some(p) => {
            match d.annotations {
                Some(a) => {
                    assert(fs =~= seq![
                        (k0, JsonData::Text(d.version)),
                        (k1, JsonData::Text(d.id)),
                        (k2, JsonData::Text(container_state_token(d.status))),
                        (k3, JsonData::Int(p as int)),
                        (k4, JsonData::Text(d.bundle)),
                        (k5, JsonData::Obj(text_fields(a))),
                    ]);
                    lemma_obj_lookup_at(fs, k0, 0);
                    lemma_obj_lookup_at(fs, k1, 1);
                    lemma_obj_lookup_at(fs, k2, 2);
                    lemma_obj_lookup_at(fs, k3, 3);
                    lemma_obj_lookup_at(fs, k4, 4);
                    lemma_obj_lookup_at(fs, k5, 5);
                    assert(texts_of(text_fields(a)) =~= a);
                },
                None => {
                    assert(fs =~= seq![
                        (k0, JsonData::Text(d.version)),
                        (k1, JsonData::Text(d.id)),
                        (k2, JsonData::Text(container_state_token(d.status))),
                        (k3, JsonData::Int(p as int)),
                        (k4, JsonData::Text(d.bundle)),
                    ]);
                    lemma_obj_lookup_at(fs, k0, 0);
                    lemma_obj_lookup_at(fs, k1, 1);
                    lemma_obj_lookup_at(fs, k2, 2);
                    lemma_obj_lookup_at(fs, k3, 3);
                    lemma_obj_lookup_at(fs, k4, 4);
                    lemma_obj_lookup_none(fs, k5);
                },
            }
        },
        None => {
            match d.annotations {
                Some(a) => {
                    assert(fs =~= seq![
                        (k0, JsonData::Text(d.version)),
                        (k1, JsonData::Text(d.id)),
                        (k2, JsonData::Text(container_state_token(d.status))),
                        (k4, JsonData::Text(d.bundle)),
                        (k5, JsonData::Obj(text_fields(a))),
                    ]);
                    lemma_obj_lookup_at(fs, k0, 0);
                    lemma_obj_lookup_at(fs, k1, 1);
                    lemma_obj_lookup_at(fs, k2, 2);
                    lemma_obj_lookup_none(fs, k3);
                    lemma_obj_lookup_at(fs, k4, 3);
                    lemma_obj_lookup_at(fs, k5, 4);
                    assert(texts_of(text_fields(a)) =~= a);
                },
                None => {
                    assert(fs =~= seq![
                        (k0, JsonData::Text(d.version)),
                        (k1, JsonData::Text(d.id)),
                        (k2, JsonData::Text(container_state_token(d.status))),
                        (k4, JsonData::Text(d.bundle)),
                    ]);
                    lemma_obj_lookup_at(fs, k0, 0);
                    lemma_obj_lookup_at(fs, k1, 1);
                    lemma_obj_lookup_at(fs, k2, 2);
                    lemma_obj_lookup_none(fs, k3);
                    lemma_obj_lookup_at(fs, k4, 3);
                    lemma_obj_lookup_none(fs, k5);
                },
            }
        },
    }
    assert(json_state(state_json(d)) is Some);
    assert(json_state(state_json(d))->0 =~= d);
}

/// A document whose fields include neither `pid` nor `annotations` reads
/// back, when it reads back at all, as a State with no pid and no
/// annotations.
pub proof fn lemma_absent_optional_fields_read_as_none(fields: Seq<(Seq<char>, JsonData)>)
    requires
        forall|m: int| 0 <= m < fields.len() ==> fields[m].0 != "pid"@,
        forall|m: int| 0 <= m < fields.len() ==> fields[m].0 != "annotations"@,
        json_state(JsonData::Obj(fields)) is Some,
    ensures
        json_state(JsonData::Obj(fields))->0.pid is None,
        json_state(JsonData::Obj(fields))->0.annotations is None,
{
    lemma_obj_lookup_none(fields, "pid"@);
    lemma_obj_lookup_none(fields, "annotations"@);
}

/// Serializing a State with no pid and no annotations emits neither
/// field: the document holds exactly the four required fields.
pub proof fn lemma_absent_optional_fields_not_written(d: StateData)
    requires
        d.pid is None,
        d.annotations is None,
    ensures
        state_json_fields(d).len() == 4,
        forall|m: int|
            0 <= m < state_json_fields(d).len() ==> state_json_fields(d)[m].0 != "pid"@
                && state_json_fields(d)[m].0 != "annotations"@,
{
    broadcast use vstd::string::group_string_axioms;

    reveal_strlit("ociVersion");
    reveal_strlit("id");
    reveal_strlit("status");
    reveal_strlit("pid");
    reveal_strlit("bundle");
    reveal_strlit("annotations");
    assert("ociVersion"@.len() == 10);
    assert("id"@.len() == 2);
    assert("status"@.len() == 6);
    assert("pid"@.len() == 3);
    assert("bundle"@.len() == 6);
    assert("annotations"@.len() == 11);
    let fs = state_json_fields(d);
    assert(fs =~= seq![
        ("ociVersion"@, JsonData::Text(d.version)),
        ("id"@, JsonData::Text(d.id)),
        ("status"@, JsonData::Text(container_state_token(d.status))),
        ("bundle"@, JsonData::Text(d.bundle)),
    ]);
}

proof fn lemma_state_json_wf(d: StateData)
    ensures
        wf_json(state_json(d)),
{
    let fs = state_json_fields(d);
    match d.annotations {
        Some(a) => {
            assert(wf_json(JsonData::Obj(text_fields(a)))) by {
                assert(forall|m: int|
                    0 <= m < text_fields(a).len() ==> wf_json(
                        (#[trigger] text_fields(a)[m]).1,
                    ));
            }
        },
        None => {},
    }
    assert forall|k: int| 0 <= k < fs.len() implies wf_json(#[trigger] fs[k].1) by {
        match d.pid {
            Some(p) => {
                match d.annotations {
                    Some(a) => {
                        assert(fs =~= seq![
                            ("ociVersion"@, JsonData::Text(d.version)),
                            ("id"@, JsonData::Text(d.id)),
                            ("status"@, JsonData::Text(container_state_token(d.status))),
                            ("pid"@, JsonData::Int(p as int)),
                            ("bundle"@, JsonData::Text(d.bundle)),
                            ("annotations"@, JsonData::Obj(text_fields(a))),
                        ]);
                    },
                    None => {
                        assert(fs =~= seq![
                            ("ociVersion"@, JsonData::Text(d.version)),
                            ("id"@, JsonData::Text(d.id)),
                            ("status"@, JsonData::Text(container_state_token(d.status))),
                            ("pid"@, JsonData::Int(p as int)),
                            ("bundle"@, JsonData::Text(d.bundle)),
                        ]);
                    },
                }
            },
            None => {
                match d.annotations {
                    Some(a) => {
                        assert(fs =~= seq![
                            ("ociVersion"@, JsonData::Text(d.version)),
                            ("id"@, JsonData::Text(d.id)),
                            ("status"@, JsonData::Text(container_state_token(d.status))),
                            ("bundle"@, JsonData::Text(d.bundle)),
                            ("annotations"@, JsonData::Obj(text_fields(a))),
                        ]);
                    },
                    None => {
                        assert(fs =~= seq![
                            ("ociVersion"@, JsonData::Text(d.version)),
                            ("id"@, JsonData::Text(d.id)),
                            ("status"@, JsonData::Text(container_state_token(d.status))),
                            ("bundle"@, JsonData::Text(d.bundle)),
                        ]);
                    },
                }
            },
        }
    }
}

/// Round-trip identity of persistence: for every State, reading back the
/// exact document text that serialization produces yields the original
/// State model.
pub proof fn lemma_state_text_round_trip(d: StateData)
    ensures
        text_state(state_text(d)) == Some(d),
{
    lemma_state_json_wf(d);
    lemma_parse_render_doc(state_json(d));
    lemma_state_json_round_trip(d);
}

/// The reserved name of the seccomp notify file descriptor inside a
/// [`ContainerProcessState`]'s fds list.
pub const SECCOMP_FD_NAME: &'static str = "seccompFd";

/// The mathematical model of a [`ContainerProcessState`] value.
#[verifier::ext_equal]
pub struct ContainerProcessStateData {
    pub version: Seq<char>,
    pub fds: Seq<Seq<char>>,
    pub pid: i32,
    pub metadata: Option<Seq<char>>,
    pub state: StateData,
}

/// ContainerProcessState is the envelope used to notify an external
/// listener about a container process: the supported specification
/// version, the names of the file descriptors passed out of band (the
/// index of a name matches the index of the descriptor in the transport),
/// the process id, optional opaque metadata, and the embedded container
/// state.
#[derive(Debug, Clone, PartialEq, Eq)]
pub struct ContainerProcessState {
    version: String,
    fds: Vec<String>,
    pid: i32,
    metadata: Option<String>,
    state: State,
}

impl View for ContainerProcessState {
    type V = ContainerProcessStateData;

    closed spec fn view(&self) -> ContainerProcessStateData {
        ContainerProcessStateData {
            version: self.version@,
            fds: strs_view(self.fds@),
            pid: self.pid,
            metadata: match self.metadata {
                None => None,
                Some(m) => Some(m@),
            },
            state: self.state@,
        }
    }
}

/// The model of a default ContainerProcessState.
pub open spec fn default_cps_data() -> ContainerProcessStateData {
    ContainerProcessStateData {
        version: Seq::empty(),
        fds: Seq::empty(),
        pid: 0,
        metadata: None,
        state: default_state_data(),
    }
}

impl Default for ContainerProcessState {
    fn default() -> (r: Self)
        ensures
            r@ == default_cps_data(),
    {
        let r = ContainerProcessState {
            version: String::new(),
            fds: Vec::new(),
            pid: 0,
            metadata: None,
            state: State::default(),
        };
        proof {
            assert(r@ =~~= default_cps_data());
        }
        r
    }
}

impl ContainerProcessState {
    /// The version of the specification this envelope supports.
    pub fn version(&self) -> (r: &String)
        ensures
            r@ == self@.version,
    {
        &self.version
    }

    /// The names of the file descriptors passed out of band.
    pub fn fds(&self) -> (r: &Vec<String>)
        ensures
            strs_view(r@) == self@.fds,
    {
        &self.fds
    }

    /// The process id as seen by the runtime.
    pub fn pid(&self) -> (r: i32)
        ensures
            r == self@.pid,
    {
        self.pid
    }

    /// The opaque metadata of this notification.
    pub fn metadata(&self) -> (r: &Option<String>)
        ensures
            ((*r) is Some) == (self@.metadata is Some),
            (*r) matches Some(m) ==> self@.metadata == Some(m@),
    {
        &self.metadata
    }

    /// The embedded container state.
    pub fn state(&self) -> (r: &State)
        ensures
            r@ == self@.state,
    {
        &self.state
    }

    pub fn set_version(&mut self, version: String)
        ensures
            final(self)@ == (ContainerProcessStateData { version: version@, ..old(self)@ }),
    {
        self.version = version;
    }

    pub fn set_fds(&mut self, fds: Vec<String>)
        ensures
            final(self)@ == (ContainerProcessStateData { fds: strs_view(fds@), ..old(self)@ }),
    {
        self.fds = fds;
    }

    pub fn set_pid(&mut self, pid: i32)
        ensures
            final(self)@ == (ContainerProcessStateData { pid: pid, ..old(self)@ }),
    {
        self.pid = pid;
    }

    pub fn set_metadata(&mut self, metadata: Option<String>)
        ensures
            final(self)@ == (ContainerProcessStateData {
                metadata: match metadata {
                    None => None,
                    Some(m) => Some(m@),
                },
                ..old(self)@
            }),
    {
        self.metadata = metadata;
    }

    pub fn set_state(&mut self, state: State)
        ensures
            final(self)@ == (ContainerProcessStateData { state: state@, ..old(self)@ }),
    {
        self.state = state;
    }
}

/// Staging structure for [`ContainerProcessState`]; unset fields fall
/// back to the defaults of [`default_cps_data`].
pub struct ContainerProcessStateBuilder {
    version: Option<String>,
    fds: Option<Vec<String>>,
    pid: Option<i32>,
    metadata: Option<String>,
    state: Option<State>,
}

pub closed spec fn cps_builder_data(b: ContainerProcessStateBuilder) -> ContainerProcessStateData {
    ContainerProcessStateData {
        version: match b.version {
            Some(v) => v@,
            None => Seq::empty(),
        },
        fds: match b.fds {
            Some(v) => strs_view(v@),
            None => Seq::empty(),
        },
        pid: match b.pid {
            Some(p) => p,
            None => 0,
        },
        metadata: match b.metadata {
            None => None,
            Some(m) => Some(m@),
        },
        state: match b.state {
            Some(st) => st@,
            None => default_state_data(),
        },
    }
}

impl Default for ContainerProcessStateBuilder {
    fn default() -> (r: Self)
        ensures
            cps_builder_data(r) == default_cps_data(),
    {
        let r = ContainerProcessStateBuilder {
            version: None,
            fds: None,
            pid: None,
            metadata: None,
            state: None,
        };
        proof {
            assert(cps_builder_data(r) =~~= default_cps_data());
        }
        r
    }
}

impl ContainerProcessStateBuilder {
    pub fn version(self, version: String) -> (r: Self)
        ensures
            cps_builder_data(r) == (ContainerProcessStateData {
                version: version@,
                ..cps_builder_data(self)
            }),
    {
        ContainerProcessStateBuilder { version: Some(version), ..self }
    }

    pub fn fds(self, fds: Vec<String>) -> (r: Self)
        ensures
            cps_builder_data(r) == (ContainerProcessStateData {
                fds: strs_view(fds@),
                ..cps_builder_data(self)
            }),
    {
        ContainerProcessStateBuilder { fds: Some(fds), ..self }
    }

    pub fn pid(self, pid: i32) -> (r: Self)
        ensures
            cps_builder_data(r) == (ContainerProcessStateData {
                pid: pid,
                ..cps_builder_data(self)
            }),
    {
        ContainerProcessStateBuilder { pid: Some(pid), ..self }
    }

    pub fn metadata(self, metadata: String) -> (r: Self)
        ensures
            cps_builder_data(r) == (ContainerProcessStateData {
                metadata: Some(metadata@),
                ..cps_builder_data(self)
            }),
    {
        ContainerProcessStateBuilder { metadata: Some(metadata), ..self }
    }

    pub fn state(self, state: State) -> (r: Self)
        ensures
            cps_builder_data(r) == (ContainerProcessStateData {
                state: state@,
                ..cps_builder_data(self)
            }),
    {
        ContainerProcessStateBuilder { state: Some(state), ..self }
    }

    /// Yield the staged envelope; no combination of fields is invalid.
    pub fn build(self) -> (r: Result<ContainerProcessState, OciSpecError>)
        ensures
            r matches Ok(c) && c@ == cps_builder_data(self),
    {
        let ghost model = cps_builder_data(self);
        let c = ContainerProcessState {
            version: match self.version {
                Some(v) => v,
                None => String::new(),
            },
            fds: match self.fds {
                Some(v) => v,
                None => Vec::new(),
            },
            pid: match self.pid {
                Some(p) => p,
                None => 0,
            },
            metadata: self.metadata,
            state: match self.state {
                Some(st) => st,
                None => State::default(),
            },
        };
        proof {
            assert(c@ =~~= model);
        }
        Ok(c)
    }
}

/// A list of descriptor names as an array of text values.
pub open spec fn texts_arr(fds: Seq<Seq<char>>) -> Seq<JsonData> {
    Seq::new(fds.len(), |k: int| JsonData::Text(fds[k]))
}

/// The document a ContainerProcessState serializes to: required fields
/// always present in declaration order with `version` renamed to
/// `ociVersion`, and `metadata` omitted entirely when absent.
pub open spec fn cps_json_fields(d: ContainerProcessStateData) -> Seq<(Seq<char>, JsonData)> {
    seq![
        ("ociVersion"@, JsonData::Text(d.version)),
        ("fds"@, JsonData::Arr(texts_arr(d.fds))),
        ("pid"@, JsonData::Int(d.pid as int)),
    ] + (match d.metadata {
        Some(m) => seq![("metadata"@, JsonData::Text(m))],
        None => Seq::empty(),
    }) + seq![("state"@, state_json(d.state))]
}

pub open spec fn cps_json(d: ContainerProcessStateData) -> JsonData {
    JsonData::Obj(cps_json_fields(d))
}

pub open spec fn all_text_items(items: Seq<JsonData>) -> bool {
    forall|k: int| 0 <= k < items.len() ==> items[k] is Text
}

pub open spec fn item_text(j: JsonData) -> Seq<char> {
    match j {
        JsonData::Text(t) => t,
        _ => Seq::empty(),
    }
}

pub open spec fn fds_field_ok(o: Option<JsonData>) -> bool {
    match o {
        None => true,
        Some(JsonData::Arr(items)) => all_text_items(items),
        Some(_) => false,
    }
}

pub open spec fn fds_field_of(o: Option<JsonData>) -> Seq<Seq<char>> {
    match o {
        Some(JsonData::Arr(items)) => Seq::new(items.len(), |k: int| item_text(items[k])),
        _ => Seq::empty(),
    }
}

pub open spec fn req_pid_field_ok(o: Option<JsonData>) -> bool {
    match o {
        None => true,
        Some(JsonData::Int(i)) => -2147483648 <= i <= 2147483647,
        Some(_) => false,
    }
}

pub open spec fn req_pid_field_of(o: Option<JsonData>) -> i32 {
    match o {
        Some(JsonData::Int(i)) => i as i32,
        _ => 0,
    }
}

pub open spec fn meta_field_of(o: Option<JsonData>) -> Option<Seq<char>> {
    match o {
        Some(JsonData::Text(t)) => Some(t),
        _ => None,
    }
}

pub open spec fn state_field_ok(o: Option<JsonData>) -> bool {
    match o {
        None => true,
        Some(j) => json_state(j) is Some,
    }
}

pub open spec fn state_field_of(o: Option<JsonData>) -> StateData {
    match o {
        Some(j) => match json_state(j) {
            Some(d) => d,
            None => default_state_data(),
        },
        None => default_state_data(),
    }
}

/// The ContainerProcessState a document stands for: an object whose
/// recognised fields, if present, have the right shapes and occur at
/// most once. Missing fields take their defaults; unrecognised fields
/// are ignored.
pub open spec fn json_cps(j: JsonData) -> Option<ContainerProcessStateData> {
    match j {
        JsonData::Obj(fields) => if key_unique(fields, "ociVersion"@) && key_unique(
            fields,
            "fds"@,
        ) && key_unique(fields, "pid"@) && key_unique(fields, "metadata"@) && key_unique(
            fields,
            "state"@,
        ) && text_field_ok(obj_lookup(fields, "ociVersion"@)) && fds_field_ok(
            obj_lookup(fields, "fds"@),
        ) && req_pid_field_ok(
            obj_lookup(fields, "pid"@),
        ) && opt_text_field_ok(obj_lookup(fields, "metadata"@)) && state_field_ok(
            obj_lookup(fields, "state"@),
        ) {
            Some(
                ContainerProcessStateData {
                    version: text_field_of(obj_lookup(fields, "ociVersion"@)),
                    fds: fds_field_of(obj_lookup(fields, "fds"@)),
                    pid: req_pid_field_of(obj_lookup(fields, "pid"@)),
                    metadata: meta_field_of(obj_lookup(fields, "metadata"@)),
                    state: state_field_of(obj_lookup(fields, "state"@)),
                },
            )
        } else {
            None
        },
        _ => None,
    }
}

pub(crate) fn strings_to_json(v: &Vec<String>) -> (r: Json)
    ensures
        r@ == JsonData::Arr(texts_arr(strs_view(v@))),
{
    let mut items: Vec<Json> = Vec::new();
    let mut k: usize = 0;
    while k < v.len()
        invariant
            k <= v@.len(),
            items@.len() == k,
            forall|m: int| 0 <= m < k ==> jview(items@[m]) == JsonData::Text(v@[m]@),
        decreases v@.len() - k,
    {
        items.push(Json::Text(v[k].clone()));
        k += 1;
    }
    let r = Json::Arr(items);
    proof {
        crate::json::lemma_jview_list(items@);
        assert(crate::json::jview_list(items@) =~= texts_arr(strs_view(v@)));
    }
    r
}

pub(crate) fn json_to_strings(items: &Vec<Json>) -> (r: Result<Vec<String>, OciSpecError>)
    ensures
        (r is Ok) == all_text_items(crate::json::jview_list(items@)),
        r matches Ok(v) ==> strs_view(v@) == Seq::new(
            items@.len(),
            |k: int| item_text(crate::json::jview_list(items@)[k]),
        ),
        r matches Err(e) ==> e is SerDe,
{
    proof {
        crate::json::lemma_jview_list(items@);
    }
    let ghost js = crate::json::jview_list(items@);
    let mut out: Vec<String> = Vec::new();
    let mut k: usize = 0;
    while k < items.len()
        invariant
            k <= items@.len(),
            out@.len() == k,
            js == crate::json::jview_list(items@),
            js.len() == items@.len(),
            forall|m: int| 0 <= m < items@.len() ==> js[m] == jview(items@[m]),
            forall|m: int| 0 <= m < k ==> (js[m] is Text),
            forall|m: int| 0 <= m < k ==> out@[m]@ == item_text(js[m]),
        decreases items@.len() - k,
    {
        match &items[k] {
            Json::Text(t) => {
                out.push(t.clone());
            },
            _ => {
                proof {
                    assert(!(js[k as int] is Text));
                }
                return Err(
                    OciSpecError::SerDe("file descriptor names must be strings".to_owned()),
                );
            },
        }
        k += 1;
    }
    proof {
        assert(strs_view(out@) =~= Seq::new(items@.len(), |k: int| item_text(js[k])));
    }
    Ok(out)
}

impl ContainerProcessState {
    /// Serialize this envelope to its document, exactly as [`cps_json`]
    /// describes it.
    pub fn to_json(&self) -> (r: Json)
        ensures
            r@ == cps_json(self@),
    {
        let mut fields: Vec<(String, Json)> = Vec::new();
        fields.push(("ociVersion".to_owned(), Json::Text(self.version.clone())));
        fields.push(("fds".to_owned(), strings_to_json(&self.fds)));
        fields.push(("pid".to_owned(), Json::Int(self.pid as i64)));
        if let Some(m) = &self.metadata {
            fields.push(("metadata".to_owned(), Json::Text(m.clone())));
        }
        fields.push(("state".to_owned(), self.state.to_json()));
        let r = Json::Obj(fields);
        proof {
            lemma_jview_fields(fields@);
            assert(jview_fields(fields@) =~= cps_json_fields(self@));
        }
        r
    }

    /// Read an envelope out of a document; fails with a serialization
    /// error exactly on the documents that [`json_cps`] rejects.
    pub fn from_json(j: &Json) -> (r: Result<ContainerProcessState, OciSpecError>)
        ensures
            (r is Ok) == (json_cps(j@) is Some),
            r matches Ok(c) ==> json_cps(j@) == Some(c@),
            r matches Err(e) ==> e is SerDe,
    {
        match j {
            Json::Obj(fields) => {
                proof {
                    lemma_jview_fields(fields@);
                }
                if !(key_unique_ex(fields, "ociVersion") && key_unique_ex(fields, "fds")
                    && key_unique_ex(fields, "pid") && key_unique_ex(fields, "metadata")
                    && key_unique_ex(fields, "state")) {
                    return Err(OciSpecError::SerDe("duplicate field".to_owned()));
                }
                let version: String = match obj_lookup_ex(fields, "ociVersion") {
                    None => String::new(),
                    Some(vj) => match vj {
                        Json::Text(t) => t.clone(),
                        _ => {
                            return Err(
                                OciSpecError::SerDe("ociVersion must be a string".to_owned()),
                            );
                        },
                    },
                };
                let fds: Vec<String> = match obj_lookup_ex(fields, "fds") {
                    None => Vec::new(),
                    Some(vj) => match vj {
                        Json::Arr(items) => {
                            proof {
                                crate::json::lemma_jview_list(items@);
                            }
                            match json_to_strings(items) {
                                Ok(v) => v,
                                Err(e) => {
                                    return Err(e);
                                },
                            }
                        },
                        _ => {
                            return Err(OciSpecError::SerDe("fds must be an array".to_owned()));
                        },
                    },
                };
                let pid: i32 = match obj_lookup_ex(fields, "pid") {
                    None => 0,
                    Some(vj) => match vj {
                        Json::Int(i) => if -2147483648i64 <= *i && *i <= 2147483647i64 {
                            (*i) as i32
                        } else {
                            return Err(
                                OciSpecError::SerDe("pid out of process id range".to_owned()),
                            );
                        },
                        _ => {
                            return Err(OciSpecError::SerDe("pid must be an integer".to_owned()));
                        },
                    },
                };
                let metadata: Option<String> = match obj_lookup_ex(fields, "metadata") {
                    None => None,
                    Some(vj) => match vj {
                        Json::Null => None,
                        Json::Text(t) => Some(t.clone()),
                        _ => {
                            return Err(
                                OciSpecError::SerDe("metadata must be a string".to_owned()),
                            );
                        },
                    },
                };
                let state: State = match obj_lookup_ex(fields, "state") {
                    None => State::default(),
                    Some(vj) => match State::from_json(vj) {
                        Ok(st) => st,
                        Err(e) => {
                            return Err(e);
                        },
                    },
                };
                let c = ContainerProcessState { version, fds, pid, metadata, state };
                proof {
                    assert(json_cps(j@) is Some);
                    assert(json_cps(j@)->0 =~~= c@);
                }
                Ok(c)
            },
            _ => Err(OciSpecError::SerDe("document root must be an object".to_owned())),
        }
    }

    /// The exact document text of this envelope.
    pub fn to_json_string(&self) -> (r: String)
        ensures
            r@ == cps_text(self@),
    {
        let j = self.to_json();
        j.to_text()
    }

    /// Read an envelope from document text; fails with a serialization
    /// error exactly on the texts that [`text_cps`] rejects.
    pub fn from_json_str(s: &str) -> (r: Result<ContainerProcessState, OciSpecError>)
        ensures
            (r is Ok) == (text_cps(s@) is Some),
            r matches Ok(c) ==> text_cps(s@) == Some(c@),
            r matches Err(e) ==> e is SerDe,
    {
        match Json::parse_text(s) {
            Err(e) => Err(e),
            Ok(j) => ContainerProcessState::from_json(&j),
        }
    }
}

/// The exact text an envelope serializes to.
pub open spec fn cps_text(d: ContainerProcessStateData) -> Seq<char> {
    render(cps_json(d))
}

/// The envelope a document text stands for, if it parses and has the
/// right shape.
pub open spec fn text_cps(t: Seq<char>) -> Option<ContainerProcessStateData> {
    match parse_doc(t) {
        None => None,
        Some(j) => json_cps(j),
    }
}

proof fn lemma_cps_json_wf(d: ContainerProcessStateData)
    ensures
        wf_json(cps_json(d)),
{
    let fs = cps_json_fields(d);
    lemma_state_json_wf(d.state);
    assert(wf_json(JsonData::Arr(texts_arr(d.fds)))) by {
        assert(forall|m: int|
            0 <= m < texts_arr(d.fds).len() ==> wf_json(#[trigger] texts_arr(d.fds)[m]));
    }
    assert forall|k: int| 0 <= k < fs.len() implies wf_json(#[trigger] fs[k].1) by {
        match d.metadata {
            Some(m) => {
                assert(fs =~= seq![
                    ("ociVersion"@, JsonData::Text(d.version)),
                    ("fds"@, JsonData::Arr(texts_arr(d.fds))),
                    ("pid"@, JsonData::Int(d.pid as int)),
                    ("metadata"@, JsonData::Text(m)),
                    ("state"@, state_json(d.state)),
                ]);
            },
            None => {
                assert(fs =~= seq![
                    ("ociVersion"@, JsonData::Text(d.version)),
                    ("fds"@, JsonData::Arr(texts_arr(d.fds))),
                    ("pid"@, JsonData::Int(d.pid as int)),
                    ("state"@, state_json(d.state)),
                ]);
            },
        }
    }
}

/// Round-trip identity of the notification envelope: for every
/// ContainerProcessState, reading back the exact document text that
/// serialization produces yields the original envelope model.
pub proof fn lemma_cps_text_round_trip(d: ContainerProcessStateData)
    ensures
        text_cps(cps_text(d)) == Some(d),
{
    lemma_cps_json_wf(d);
    lemma_parse_render_doc(cps_json(d));
    lemma_cps_json_round_trip(d);
}

/// Serializing any ContainerProcessState to its document and reading the
/// document back yields the original envelope model.
pub proof fn lemma_cps_json_round_trip(d: ContainerProcessStateData)
    ensures
        json_cps(cps_json(d)) == Some(d),
{
    broadcast use vstd::string::group_string_axioms;

    reveal_strlit("ociVersion");
    reveal_strlit("fds");
    reveal_strlit("pid");
    reveal_strlit("metadata");
    reveal_strlit("state");
    assert("ociVersion"@.len() == 10);
    assert("fds"@.len() == 3);
    assert("pid"@.len() == 3);
    assert("metadata"@.len() == 8);
    assert("state"@.len() == 5);
    assert("fds"@[0] == 'f' && "pid"@[0] == 'p');
    let fs = cps_json_fields(d);
    let k0 = "ociVersion"@;
    let k1 = "fds"@;
    let k2 = "pid"@;
    let k3 = "metadata"@;
    let k4 = "state"@;
    lemma_state_json_round_trip(d.state);
    match d.metadata {
        Some(m) => {
            assert(fs =~= seq![
                (k0, JsonData::Text(d.version)),
                (k1, JsonData::Arr(texts_arr(d.fds))),
                (k2, JsonData::Int(d.pid as int)),
                (k3, JsonData::Text(m)),
                (k4, state_json(d.state)),
            ]);
            lemma_obj_lookup_at(fs, k0, 0);
            lemma_obj_lookup_at(fs, k1, 1);
            lemma_obj_lookup_at(fs, k2, 2);
            lemma_obj_lookup_at(fs, k3, 3);
            lemma_obj_lookup_at(fs, k4, 4);
        },
        None => {
            assert(fs =~= seq![
                (k0, JsonData::Text(d.version)),
                (k1, JsonData::Arr(texts_arr(d.fds))),
                (k2, JsonData::Int(d.pid as int)),
                (k4, state_json(d.state)),
            ]);
            lemma_obj_lookup_at(fs, k0, 0);
            lemma_obj_lookup_at(fs, k1, 1);
            lemma_obj_lookup_at(fs, k2, 2);
            lemma_obj_lookup_none(fs, k3);
            lemma_obj_lookup_at(fs, k4, 3);
        },
    }
    assert(all_text_items(texts_arr(d.fds))) by {
        assert(forall|k: int|
            0 <= k < texts_arr(d.fds).len() ==> (#[trigger] texts_arr(d.fds)[k]) is Text);
    }
    assert(fds_field_of(Some(JsonData::Arr(texts_arr(d.fds)))) =~= d.fds);
    assert(json_cps(cps_json(d)) is Some);
    assert(json_cps(cps_json(d))->0 =~= d);
}

} // verus!
