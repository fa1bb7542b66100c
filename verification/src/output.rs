//! From the fetched bytes to the payloads that are written: decode, reduce
//! or outline, and encode.

use crate::cli::OutputProfile;
use crate::config::{Config, ReduceKey};
use crate::errors::{join, AppError, ErrorKind, Fault};
use crate::fetch::{decimal, decimal_text, parse_json, parse_json_spec};
use crate::json::{
    lookup, lookup_from, members_view, no_members, position, push_member, to_value, Json, Tree,
};
use crate::outline::{outline_openapi, outline_openapi_spec};
use std::path::PathBuf;
use vstd::prelude::*;
use vstd::string::StringExecFns;

verus! {

/// The payloads of one fetch: the primary one, and the outline beside it
/// where one is asked for.
#[derive(Debug)]
pub struct OutputPayloads {
    pub primary: String,
    pub outline: Option<String>,
}

/// The documents of one fetch, before they are encoded.
#[derive(Debug)]
pub struct Documents {
    pub primary: Json,
    pub outline: Option<Json>,
}

/// Whether a member named `name` is among `members`.
pub open spec fn has_member(members: Seq<(Seq<char>, Tree)>, name: Seq<char>) -> bool {
    lookup(members, name) is Some
}

/// `acc` with the member `name: value` at its end, unless a member of that
/// name is there already.
pub open spec fn put(acc: Seq<(Seq<char>, Tree)>, name: Seq<char>, value: Tree) -> Seq<
    (Seq<char>, Tree),
> {
    if has_member(acc, name) {
        acc
    } else {
        acc.push((name, value))
    }
}

/// The members kept for the keys from position `i` on, added to `acc` in
/// the order of the keys; the first key that the document lacks ends it.
pub open spec fn reduce_from(
    members: Seq<(Seq<char>, Tree)>,
    keys: Seq<ReduceKey>,
    i: int,
    acc: Seq<(Seq<char>, Tree)>,
) -> Result<Seq<(Seq<char>, Tree)>, Seq<char>>
    decreases keys.len() - i,
{
    if i < 0 || i >= keys.len() {
        Ok(acc)
    } else {
        match lookup(members, keys[i].name()) {
            Some(value) => reduce_from(members, keys, i + 1, put(acc, keys[i].name(), value)),
            None => Err("missing top-level key: "@ + keys[i].name()),
        }
    }
}

/// The document reduced to the sections that `keys` name, in the order of
/// the keys, each with its value unchanged. The document must be an object
/// that has every section asked for, and at least one must be asked for.
pub open spec fn reduce_openapi_spec(doc: Tree, keys: Seq<ReduceKey>) -> Result<Tree, Seq<char>> {
    match doc.members() {
        None => Err("OpenAPI document must be a JSON object"@),
        Some(members) => if keys.len() == 0 {
            Err("reduce list cannot be empty"@)
        } else {
            match reduce_from(members, keys, 0, Seq::empty()) {
                Ok(out) => Ok(Tree::Object(out)),
                Err(e) => Err(e),
            }
        },
    }
}

/// Reduces a document to the sections that `keys` name: see [`reduce_openapi_spec`].
pub fn reduce_openapi(value: Json, keys: &[ReduceKey]) -> (r: Result<Json, AppError>)
    ensures
        match r {
            Ok(reduced) => reduce_openapi_spec(value@, keys@) == Ok::<Tree, Seq<char>>(reduced@),
            Err(e) => e is Reduce && reduce_openapi_spec(value@, keys@) == Err::<Tree, Seq<char>>(
                e.text(),
            ),
        },
{
    let members = match value.as_object() {
        Some(members) => members,
        None => {
            return Err(AppError::Reduce("OpenAPI document must be a JSON object".to_owned()));
        },
    };
    if keys.len() == 0 {
        return Err(AppError::Reduce("reduce list cannot be empty".to_owned()));
    }
    let mut reduced = no_members();
    let mut i: usize = 0;
    while i < keys.len()
        invariant
            i <= keys.len(),
            keys@.len() > 0,
            value@.members() == Some(members_view(members@)),
            reduce_from(members_view(members@), keys@, 0, Seq::empty()) == reduce_from(
                members_view(members@),
                keys@,
                i as int,
                members_view(reduced@),
            ),
        decreases keys.len() - i,
    {
        let name = keys[i].as_str();
        match position(members, name) {
            Some(at) => {
                if position(&reduced, name).is_none() {
                    push_member(&mut reduced, name, members[at].1.clone());
                }
            },
            None => {
                return Err(AppError::Reduce(join("missing top-level key: ", name)));
            },
        }
        i += 1;
    }
    Ok(Json::object(reduced))
}

/// What one step of the pipeline yields in the model: a value, or the fault.
pub open spec fn lifted<T>(r: Result<T, Seq<char>>, kind: ErrorKind) -> Result<T, Fault> {
    match r {
        Ok(v) => Ok(v),
        Err(text) => Err(Fault { kind, text }),
    }
}

/// The documents that a configuration asks of a fetched document. The full
/// profile keeps the document, reduced where keys are set, and adds the
/// outline of the whole document where it has a destination; the outline
/// profile yields the outline alone.
pub open spec fn build_documents_spec(config: Config, doc: Tree) -> Result<
    (Tree, Option<Tree>),
    Fault,
> {
    match config.profile {
        OutputProfile::Full => {
            let primary = if config.reduce@.len() > 0 {
                lifted(reduce_openapi_spec(doc, config.reduce@), ErrorKind::Reduce)
            } else {
                Ok(doc)
            };
            match primary {
                Err(fault) => Err(fault),
                Ok(full) => if config.outline_out is Some {
                    match outline_openapi_spec(doc) {
                        Ok(outline) => Ok((full, Some(outline))),
                        Err(text) => Err(Fault { kind: ErrorKind::Outline, text }),
                    }
                } else {
                    Ok((full, None))
                },
            }
        },
        OutputProfile::Outline => match outline_openapi_spec(doc) {
            Ok(outline) => Ok((outline, None)),
            Err(text) => Err(Fault { kind: ErrorKind::Outline, text }),
        },
    }
}

/// The model of a pair of documents.
pub open spec fn documents_view(docs: Documents) -> (Tree, Option<Tree>) {
    (
        docs.primary@,
        match docs.outline {
            Some(outline) => Some(outline@),
            None => None,
        },
    )
}

/// Derives from one fetched document what the configuration asks for: see
/// [`build_documents_spec`]. Nothing partial is ever returned.
pub fn build_documents(config: &Config, doc: &Json) -> (r: Result<Documents, AppError>)
    ensures
        match r {
            Ok(docs) => build_documents_spec(*config, doc@) == Ok::<(Tree, Option<Tree>), Fault>(
                documents_view(docs),
            ),
            Err(e) => build_documents_spec(*config, doc@) == Err::<(Tree, Option<Tree>), Fault>(
                e@,
            ),
        },
{
    match config.profile {
        OutputProfile::Full => {
            let mut primary = doc.clone();
            if !config.reduce.is_empty() {
                primary = reduce_openapi(primary, config.reduce.as_slice())?;
            }
            let outline = if config.outline_out.is_some() {
                Some(outline_openapi(doc)?)
            } else {
                None
            };
            Ok(Documents { primary, outline })
        },
        OutputProfile::Outline => {
            let primary = outline_openapi(doc)?;
            Ok(Documents { primary, outline: None })
        },
    }
}

/// What `serde_json::to_string` makes of a document: its text on one line,
/// or the message of its error.
pub uninterp spec fn compact_text(doc: Tree) -> Result<Seq<char>, Seq<char>>;

/// What `serde_json::to_string_pretty` makes of a document: its indented
/// text, or the message of its error.
pub uninterp spec fn pretty_text(doc: Tree) -> Result<Seq<char>, Seq<char>>;

/// `serde_json::to_string`, on the document as a `serde_json::Value`.
#[verifier::external_body]
fn encode_compact(doc: &Json) -> (r: Result<String, String>)
    ensures
        match r {
            Ok(text) => compact_text(doc@) == Ok::<Seq<char>, Seq<char>>(text@),
            Err(msg) => compact_text(doc@) == Err::<Seq<char>, Seq<char>>(msg@),
        },
{
    match serde_json::to_string(&to_value(doc)) {
        Ok(text) => Ok(text),
        Err(err) => Err(err.to_string()),
    }
}

/// `serde_json::to_string_pretty`, on the document as a `serde_json::Value`.
#[verifier::external_body]
fn encode_pretty(doc: &Json) -> (r: Result<String, String>)
    ensures
        match r {
            Ok(text) => pretty_text(doc@) == Ok::<Seq<char>, Seq<char>>(text@),
            Err(msg) => pretty_text(doc@) == Err::<Seq<char>, Seq<char>>(msg@),
        },
{
    match serde_json::to_string_pretty(&to_value(doc)) {
        Ok(text) => Ok(text),
        Err(err) => Err(err.to_string()),
    }
}

/// The text of a document: on one line when minified, else indented.
pub open spec fn serialize_json_spec(doc: Tree, minify: bool) -> Result<Seq<char>, Seq<char>> {
    let encoded = if minify {
        compact_text(doc)
    } else {
        pretty_text(doc)
    };
    match encoded {
        Ok(text) => Ok(text),
        Err(msg) => Err("json error: "@ + msg),
    }
}

/// Encodes a document: see [`serialize_json_spec`].
pub fn serialize_json(value: &Json, minify: bool) -> (r: Result<String, AppError>)
    ensures
        match r {
            Ok(text) => serialize_json_spec(value@, minify) == Ok::<Seq<char>, Seq<char>>(text@),
            Err(e) => e is Json && serialize_json_spec(value@, minify) == Err::<
                Seq<char>,
                Seq<char>,
            >(e.text()),
        },
{
    let encoded = if minify {
        encode_compact(value)
    } else {
        encode_pretty(value)
    };
    match encoded {
        Ok(text) => Ok(text),
        Err(msg) => Err(AppError::Json(join("json error: ", msg.as_str()))),
    }
}

/// The texts of a pair of documents: the primary one first; the first
/// failure ends it.
pub open spec fn encode_documents_spec(docs: (Tree, Option<Tree>), minify: bool) -> Result<
    (Seq<char>, Option<Seq<char>>),
    Fault,
> {
    match serialize_json_spec(docs.0, minify) {
        Err(text) => Err(Fault { kind: ErrorKind::Json, text }),
        Ok(primary) => match docs.1 {
            None => Ok((primary, None)),
            Some(doc) => match serialize_json_spec(doc, minify) {
                Err(text) => Err(Fault { kind: ErrorKind::Json, text }),
                Ok(outline) => Ok((primary, Some(outline))),
            },
        },
    }
}

/// The payloads that a configuration asks of a fetched body: the body is
/// decoded once, and both payloads come from that one document.
pub open spec fn build_outputs_spec(config: Config, body: Seq<u8>) -> Result<
    (Seq<char>, Option<Seq<char>>),
    Fault,
> {
    match parse_json_spec(body) {
        Err(text) => Err(Fault { kind: ErrorKind::Json, text }),
        Ok(doc) => match build_documents_spec(config, doc) {
            Err(fault) => Err(fault),
            Ok(docs) => encode_documents_spec(docs, config.minify),
        },
    }
}

/// The model of a pair of payloads.
pub open spec fn payloads_view(outputs: OutputPayloads) -> (Seq<char>, Option<Seq<char>>) {
    (
        outputs.primary@,
        match outputs.outline {
            Some(outline) => Some(outline@),
            None => None,
        },
    )
}

/// Encodes a pair of documents: see [`encode_documents_spec`].
pub fn encode_documents(docs: &Documents, minify: bool) -> (r: Result<OutputPayloads, AppError>)
    ensures
        match r {
            Ok(outputs) => encode_documents_spec(documents_view(*docs), minify) == Ok::<
                (Seq<char>, Option<Seq<char>>),
                Fault,
            >(payloads_view(outputs)),
            Err(e) => encode_documents_spec(documents_view(*docs), minify) == Err::<
                (Seq<char>, Option<Seq<char>>),
                Fault,
            >(e@),
        },
{
    let primary = serialize_json(&docs.primary, minify)?;
    let outline = match &docs.outline {
        Some(doc) => Some(serialize_json(doc, minify)?),
        None => None,
    };
    Ok(OutputPayloads { primary, outline })
}

/// Builds the payloads from a fetched body: see [`build_outputs_spec`].
pub fn build_outputs(config: &Config, body: &[u8]) -> (r: Result<OutputPayloads, AppError>)
    ensures
        match r {
            Ok(outputs) => build_outputs_spec(*config, body@) == Ok::<
                (Seq<char>, Option<Seq<char>>),
                Fault,
            >(payloads_view(outputs)),
            Err(e) => build_outputs_spec(*config, body@) == Err::<
                (Seq<char>, Option<Seq<char>>),
                Fault,
            >(e@),
        },
{
    let doc = parse_json(body)?;
    let docs = build_documents(config, &doc)?;
    encode_documents(&docs, config.minify)
}

/// Builds the primary payload from a fetched body.
pub fn build_output(config: &Config, body: &[u8]) -> (r: Result<String, AppError>)
    ensures
        match r {
            Ok(primary) => build_outputs_spec(*config, body@) matches Ok(outputs) && outputs.0
                == primary@,
            Err(e) => build_outputs_spec(*config, body@) == Err::<
                (Seq<char>, Option<Seq<char>>),
                Fault,
            >(e@),
        },
{
    Ok(build_outputs(config, body)?.primary)
}

/// The name of the file that a payload is written to before it takes the
/// place of its destination: the destination's name between a dot and the
/// time of the write in milliseconds, so that no two writes share it.
pub open spec fn temp_file_name_spec(file_name: Seq<char>, timestamp_ms: u128) -> Seq<char> {
    "."@ + file_name + "."@ + decimal_text(timestamp_ms as nat) + ".tmp"@
}

/// The name of the temporary file of a write: see [`temp_file_name_spec`].
pub fn temp_file_name(file_name: &str, timestamp_ms: u128) -> (r: String)
    ensures
        r@ == temp_file_name_spec(file_name@, timestamp_ms),
{
    let mut name = ".".to_owned();
    name.append(file_name);
    name.append(".");
    name.append(decimal(timestamp_ms).as_str());
    name.append(".tmp");
    name
}

/// `<PathBuf as Clone>::clone`: the copy is the same path.
pub assume_specification[ <PathBuf as Clone>::clone ](path: &PathBuf) -> (r: PathBuf)
    ensures
        r == *path,
;

/// Where the payloads go.
#[derive(Debug)]
pub enum WritePlan {
    /// The primary payload goes to standard output, and nothing to a file.
    Stdout(String),
    /// Each payload replaces the file at its destination, in this order.
    Files(Vec<(PathBuf, String)>),
}

/// The model of a plan: the texts with their destinations.
pub enum PlanView {
    Stdout(Seq<char>),
    Files(Seq<(PathBuf, Seq<char>)>),
}

impl View for WritePlan {
    type V = PlanView;

    open spec fn view(&self) -> PlanView {
        match self {
            WritePlan::Stdout(text) => PlanView::Stdout(text@),
            WritePlan::Files(files) => PlanView::Files(
                Seq::new(files@.len(), |i: int| (files@[i].0, files@[i].1@)),
            ),
        }
    }
}

/// Where the payloads of a configuration go: the primary one to standard
/// output, or to the destination, which must then be set; the outline to its
/// own destination where both are there.
pub open spec fn plan_writes_spec(config: Config, outputs: OutputPayloads) -> Result<
    PlanView,
    Seq<char>,
> {
    if config.stdout {
        Ok(PlanView::Stdout(outputs.primary@))
    } else {
        match config.out {
            None => Err("--out is required unless --stdout is set."@),
            Some(out) => match (outputs.outline, config.outline_out) {
                (Some(outline), Some(outline_out)) => Ok(
                    PlanView::Files(seq![(out, outputs.primary@), (outline_out, outline@)]),
                ),
                _ => Ok(PlanView::Files(seq![(out, outputs.primary@)])),
            },
        }
    }
}

/// Decides where the payloads go: see [`plan_writes_spec`].
pub fn plan_writes(config: &Config, outputs: &OutputPayloads) -> (r: Result<WritePlan, AppError>)
    ensures
        match r {
            Ok(plan) => plan_writes_spec(*config, *outputs) == Ok::<PlanView, Seq<char>>(plan@),
            Err(e) => e is Usage && plan_writes_spec(*config, *outputs) == Err::<
                PlanView,
                Seq<char>,
            >(e.text()),
        },
{
    if config.stdout {
        return Ok(WritePlan::Stdout(outputs.primary.clone()));
    }
    let out = match &config.out {
        Some(out) => out,
        None => {
            return Err(AppError::Usage("--out is required unless --stdout is set.".to_owned()));
        },
    };
    let mut files: Vec<(PathBuf, String)> = Vec::new();
    files.push((out.clone(), outputs.primary.clone()));
    if let Some(outline) = &outputs.outline {
        if let Some(outline_out) = &config.outline_out {
            files.push((outline_out.clone(), outline.clone()));
            assert(WritePlan::Files(files)@->Files_0 =~= seq![
                (*out, outputs.primary@),
                (*outline_out, outline@),
            ]);
            return Ok(WritePlan::Files(files));
        }
    }
    assert(WritePlan::Files(files)@->Files_0 =~= seq![(*out, outputs.primary@)]);
    Ok(WritePlan::Files(files))
}

/// Looking a name up among members with one more at the end: what was
/// found before is found still, and the new member is found where none was.
pub proof fn lemma_lookup_push(
    acc: Seq<(Seq<char>, Tree)>,
    member: (Seq<char>, Tree),
    name: Seq<char>,
    i: int,
)
    requires
        0 <= i <= acc.len(),
    ensures
        lookup_from(acc.push(member), name, i) == match lookup_from(acc, name, i) {
            Some(value) => Some(value),
            None => if member.0 == name {
                Some(member.1)
            } else {
                None
            },
        },
    decreases acc.len() - i,
{
    if i < acc.len() {
        if acc[i].0 != name {
            lemma_lookup_push(acc, member, name, i + 1);
        }
    } else {
        assert(lookup_from(acc.push(member), name, i + 1) is None);
    }
}

/// What a lookup finds is the value of a member of that name.
pub proof fn lemma_lookup_found(acc: Seq<(Seq<char>, Tree)>, name: Seq<char>, i: int)
    requires
        0 <= i,
        lookup_from(acc, name, i) is Some,
    ensures
        exists|j: int|
            i <= j < acc.len() && (#[trigger] acc[j]).0 == name && lookup_from(acc, name, i)
                == Some(acc[j].1),
    decreases acc.len() - i,
{
    if i < acc.len() && acc[i].0 != name {
        lemma_lookup_found(acc, name, i + 1);
    }
}

/// Whether every member of `acc` has the value that `members` has under its name.
pub open spec fn agrees(acc: Seq<(Seq<char>, Tree)>, members: Seq<(Seq<char>, Tree)>) -> bool {
    forall|j: int| 0 <= j < acc.len() ==> lookup(members, (#[trigger] acc[j]).0) == Some(acc[j].1)
}

/// What is kept of a document holds, under every key asked for, the value
/// that the document has there, and nothing that the document has not.
pub proof fn lemma_reduce_keeps_values(
    members: Seq<(Seq<char>, Tree)>,
    keys: Seq<ReduceKey>,
    i: int,
    acc: Seq<(Seq<char>, Tree)>,
)
    requires
        0 <= i <= keys.len(),
        agrees(acc, members),
        reduce_from(members, keys, i, acc) is Ok,
    ensures
        agrees(reduce_from(members, keys, i, acc)->Ok_0, members),
        forall|name: Seq<char>|
            has_member(acc, name) ==> #[trigger] has_member(
                reduce_from(members, keys, i, acc)->Ok_0,
                name,
            ),
        forall|j: int|
            i <= j < keys.len() ==> lookup(
                reduce_from(members, keys, i, acc)->Ok_0,
                (#[trigger] keys[j]).name(),
            ) == lookup(members, keys[j].name()),
        forall|j: int| i <= j < keys.len() ==> lookup(members, (#[trigger] keys[j]).name()) is Some,
    decreases keys.len() - i,
{
    if i < keys.len() {
        let name = keys[i].name();
        let value = lookup(members, name)->Some_0;
        let next = put(acc, name, value);
        if !has_member(acc, name) {
            assert forall|n: Seq<char>| has_member(acc, n) implies has_member(next, n) by {
                lemma_lookup_push(acc, (name, value), n, 0);
            }
            lemma_lookup_push(acc, (name, value), name, 0);
        }
        lemma_reduce_keeps_values(members, keys, i + 1, next);
        let out = reduce_from(members, keys, i, acc)->Ok_0;
        assert(has_member(out, name));
        lemma_lookup_found(out, name, 0);
    }
}

/// Two documents that agree under every key asked for reduce alike.
pub proof fn lemma_reduce_reads_keys_only(
    first: Seq<(Seq<char>, Tree)>,
    second: Seq<(Seq<char>, Tree)>,
    keys: Seq<ReduceKey>,
    i: int,
    acc: Seq<(Seq<char>, Tree)>,
)
    requires
        0 <= i <= keys.len(),
        forall|j: int|
            i <= j < keys.len() ==> lookup(first, (#[trigger] keys[j]).name()) == lookup(
                second,
                keys[j].name(),
            ),
    ensures
        reduce_from(first, keys, i, acc) == reduce_from(second, keys, i, acc),
    decreases keys.len() - i,
{
    if i < keys.len() {
        match lookup(first, keys[i].name()) {
            Some(value) => {
                lemma_reduce_reads_keys_only(
                    first,
                    second,
                    keys,
                    i + 1,
                    put(acc, keys[i].name(), value),
                );
            },
            None => {},
        }
    }
}

/// Reducing is idempotent: a document that was reduced to some keys reduces
/// to itself under the same keys.
pub proof fn lemma_reduce_idempotent(doc: Tree, keys: Seq<ReduceKey>)
    requires
        reduce_openapi_spec(doc, keys) is Ok,
    ensures
        reduce_openapi_spec(reduce_openapi_spec(doc, keys)->Ok_0, keys) == reduce_openapi_spec(
            doc,
            keys,
        ),
{
    let members = doc.members()->Some_0;
    let out = reduce_from(members, keys, 0, Seq::empty())->Ok_0;
    lemma_reduce_keeps_values(members, keys, 0, Seq::empty());
    lemma_reduce_reads_keys_only(out, members, keys, 0, Seq::empty());
}

/// Nothing ends a reduce but a key that the document lacks.
pub proof fn lemma_reduce_total_from(
    members: Seq<(Seq<char>, Tree)>,
    keys: Seq<ReduceKey>,
    i: int,
    acc: Seq<(Seq<char>, Tree)>,
)
    requires
        0 <= i <= keys.len(),
        forall|j: int| i <= j < keys.len() ==> lookup(members, (#[trigger] keys[j]).name()) is Some,
    ensures
        reduce_from(members, keys, i, acc) is Ok,
    decreases keys.len() - i,
{
    if i < keys.len() {
        let value = lookup(members, keys[i].name())->Some_0;
        lemma_reduce_total_from(members, keys, i + 1, put(acc, keys[i].name(), value));
    }
}

/// Reducing is total on the documents that have what is asked for: an
/// object that has every key of a list that is not empty is reduced.
pub proof fn lemma_reduce_total(doc: Tree, keys: Seq<ReduceKey>)
    requires
        doc is Object,
        keys.len() > 0,
        forall|j: int| 0 <= j < keys.len() ==> doc.get((#[trigger] keys[j]).name()) is Some,
    ensures
        reduce_openapi_spec(doc, keys) is Ok,
{
    lemma_reduce_total_from(doc->Object_0, keys, 0, Seq::empty());
}

/// The first key that the document lacks ends a reduce, by name.
pub proof fn lemma_reduce_missing_from(
    members: Seq<(Seq<char>, Tree)>,
    keys: Seq<ReduceKey>,
    i: int,
    acc: Seq<(Seq<char>, Tree)>,
    k: int,
)
    requires
        0 <= i <= k < keys.len(),
        lookup(members, keys[k].name()) is None,
        forall|j: int| i <= j < k ==> lookup(members, (#[trigger] keys[j]).name()) is Some,
    ensures
        reduce_from(members, keys, i, acc) == Err::<Seq<(Seq<char>, Tree)>, Seq<char>>(
            "missing top-level key: "@ + keys[k].name(),
        ),
    decreases k - i,
{
    if i < k {
        let value = lookup(members, keys[i].name())->Some_0;
        lemma_reduce_missing_from(members, keys, i + 1, put(acc, keys[i].name(), value), k);
    }
}

/// A document that lacks a key asked for is not reduced: the failure names
/// the first key of the list that it lacks.
pub proof fn lemma_reduce_names_missing_key(doc: Tree, keys: Seq<ReduceKey>, k: int)
    requires
        doc is Object,
        0 <= k < keys.len(),
        doc.get(keys[k].name()) is None,
        forall|j: int| 0 <= j < k ==> doc.get((#[trigger] keys[j]).name()) is Some,
    ensures
        reduce_openapi_spec(doc, keys) == Err::<Tree, Seq<char>>(
            "missing top-level key: "@ + keys[k].name(),
        ),
{
    lemma_reduce_missing_from(doc->Object_0, keys, 0, Seq::empty(), k);
}

/// The two section names differ.
pub proof fn lemma_names_differ(a: ReduceKey, b: ReduceKey)
    ensures
        a.name() == b.name() ==> a == b,
{
    reveal_strlit("paths");
    reveal_strlit("components");
    assert("paths"@.len() != "components"@.len());
}

/// The member kept for the key at position `j`.
pub open spec fn kept(members: Seq<(Seq<char>, Tree)>, keys: Seq<ReduceKey>, j: int) -> (
    Seq<char>,
    Tree,
) {
    (keys[j].name(), lookup(members, keys[j].name())->Some_0)
}

/// While no key comes twice, each key adds its member at the end.
pub proof fn lemma_reduce_in_key_order_from(
    members: Seq<(Seq<char>, Tree)>,
    keys: Seq<ReduceKey>,
    i: int,
    acc: Seq<(Seq<char>, Tree)>,
)
    requires
        0 <= i <= keys.len(),
        keys.no_duplicates(),
        acc.len() == i,
        forall|j: int| 0 <= j < i ==> #[trigger] acc[j] == kept(members, keys, j),
        reduce_from(members, keys, i, acc) is Ok,
    ensures
        reduce_from(members, keys, i, acc)->Ok_0.len() == keys.len(),
        forall|j: int|
            0 <= j < keys.len() ==> #[trigger] reduce_from(members, keys, i, acc)->Ok_0[j] == kept(
                members,
                keys,
                j,
            ),
    decreases keys.len() - i,
{
    if i < keys.len() {
        let name = keys[i].name();
        let value = lookup(members, name)->Some_0;
        if has_member(acc, name) {
            lemma_lookup_found(acc, name, 0);
            let j = choose|j: int| 0 <= j < acc.len() && (#[trigger] acc[j]).0 == name;
            lemma_names_differ(keys[j], keys[i]);
            assert(false);
        }
        let next = acc.push((name, value));
        lemma_reduce_in_key_order_from(members, keys, i + 1, next);
    }
}

/// The order of the keys is the order of what is kept: where no key is
/// asked for twice, the reduced document has exactly one member per key, in
/// the order of the keys, whatever the order of the document.
pub proof fn lemma_reduce_in_key_order(doc: Tree, keys: Seq<ReduceKey>)
    requires
        keys.no_duplicates(),
        reduce_openapi_spec(doc, keys) is Ok,
    ensures
        reduce_openapi_spec(doc, keys) == Ok::<Tree, Seq<char>>(
            Tree::Object(Seq::new(keys.len(), |j: int| kept(doc->Object_0, keys, j))),
        ),
{
    let members = doc->Object_0;
    lemma_reduce_in_key_order_from(members, keys, 0, Seq::empty());
    assert(reduce_from(members, keys, 0, Seq::empty())->Ok_0 =~= Seq::new(
        keys.len(),
        |j: int| kept(members, keys, j),
    ));
}

} // verus!
