//! The outline of an OpenAPI document: per operation its query parameters, request and
//! responses, and a catalogue of simplified schemas.

use crate::errors::{join, AppError};
use crate::json::{
    array_view, members_view, no_items, no_members, push_item, push_member, same_text, Json, Tree,
};
use vstd::prelude::*;

verus! {

/// What a projection yields: a tree, or the message of the first fault met.
pub type Projected = Result<Tree, Seq<char>>;

/// `r` is the executable counterpart of `expected`: the same tree, or an
/// outline error with the same message.
pub open spec fn outcome(r: Result<Json, AppError>, expected: Projected) -> bool {
    match r {
        Ok(j) => expected == Ok::<Tree, Seq<char>>(j@),
        Err(e) => e is Outline && expected == Err::<Tree, Seq<char>>(e.text()),
    }
}

/// An outline error with the given message.
fn fault<T>(msg: &str) -> (r: Result<T, AppError>)
    ensures
        r matches Err(e) && e is Outline && e.text() == msg@,
{
    Err(AppError::Outline(msg.to_owned()))
}

/// An outline error whose message ends in the name of what is at fault.
fn fault_at<T>(msg: &str, subject: &str) -> (r: Result<T, AppError>)
    ensures
        r matches Err(e) && e is Outline && e.text() == msg@ + subject@,
{
    Err(AppError::Outline(join(msg, subject)))
}

/// `{"$ref": reference}`.
pub open spec fn ref_object(reference: Seq<char>) -> Tree {
    Tree::Object(seq![("$ref"@, Tree::Str(reference))])
}

/// `{keyword: [items...]}`.
pub open spec fn composed(keyword: Seq<char>, items: Seq<Tree>) -> Tree {
    Tree::Object(seq![(keyword, Tree::Array(items))])
}

/// `{"type": "array", "items": items}`.
pub open spec fn array_shape(items: Tree) -> Tree {
    Tree::Object(seq![("type"@, Tree::Str("array"@)), ("items"@, items)])
}

/// `{"type": name}`.
pub open spec fn typed(name: Seq<char>) -> Tree {
    Tree::Object(seq![("type"@, Tree::Str(name))])
}

/// `{"type": "object"}`, then `required` and `properties`, each where the schema has it.
pub open spec fn object_shape(
    required: Option<Seq<Tree>>,
    properties: Option<Seq<(Seq<char>, Tree)>>,
) -> Tree {
    let head = seq![("type"@, Tree::Str("object"@))];
    let with_required = match required {
        Some(names) => head.push(("required"@, Tree::Array(names))),
        None => head,
    };
    Tree::Object(
        match properties {
            Some(members) => with_required.push(("properties"@, Tree::Object(members))),
            None => with_required,
        },
    )
}

/// The composition keyword of a schema and the schemas under it: the first of
/// `oneOf`, `anyOf`, `allOf` that holds an array.
pub open spec fn composition_of(schema: Tree) -> Option<(Seq<char>, Seq<Tree>)> {
    if let Some(items) = schema.get_items("oneOf"@) {
        Some(("oneOf"@, items))
    } else if let Some(items) = schema.get_items("anyOf"@) {
        Some(("anyOf"@, items))
    } else if let Some(items) = schema.get_items("allOf"@) {
        Some(("allOf"@, items))
    } else {
        None
    }
}

/// The schemas under a composition keyword are parts of the schema.
pub proof fn lemma_composition_smaller(schema: Tree)
    ensures
        composition_of(schema) matches Some(c) ==> decreases_to!(schema => c.1),
{
    schema.lemma_get_smaller("oneOf"@);
    schema.lemma_get_smaller("anyOf"@);
    schema.lemma_get_smaller("allOf"@);
}

/// Whether every item is a string.
pub open spec fn all_text(items: Seq<Tree>) -> bool {
    forall|i: int| 0 <= i < items.len() ==> (#[trigger] items[i]) is Str
}

/// The `required` list of an object schema: absent, or an array of strings.
pub open spec fn required_spec(schema: Tree) -> Result<Option<Seq<Tree>>, Seq<char>> {
    match schema.get("required"@) {
        None => Ok(None),
        Some(r) => match r.items() {
            Some(names) => if all_text(names) {
                Ok(Some(names))
            } else {
                Err("schema required must be an array of strings"@)
            },
            None => Err("schema required must be an array of strings"@),
        },
    }
}

/// The projection of a schema where it is used: a reference becomes its target's
/// name, a composition keeps its keyword over the projections of its parts, an
/// array keeps the projection of its items, an object (declared, or implied by
/// the absence of a type) is simplified, and any other type becomes its name.
pub open spec fn schema_ref_or_type_spec(schema: Tree) -> Projected
    decreases schema, 1int,
{
    if let Some(reference) = schema.get_text("$ref"@) {
        Ok(Tree::Str(reference))
    } else if let Some(c) = composition_of(schema) {
        proof {
            lemma_composition_smaller(schema);
        }
        match project_each(c.1, 0, Seq::empty()) {
            Ok(parts) => Ok(composed(c.0, parts)),
            Err(e) => Err(e),
        }
    } else {
        match schema.get_text("type"@) {
            Some(name) => if name == "array"@ {
                match schema.get("items"@) {
                    Some(items) => {
                        proof {
                            schema.lemma_get_smaller("items"@);
                        }
                        match schema_ref_or_type_spec(items) {
                            Ok(p) => Ok(array_shape(p)),
                            Err(e) => Err(e),
                        }
                    },
                    None => Err("array schema missing items"@),
                }
            } else if name == "object"@ {
                simplify_object_spec(schema)
            } else {
                Ok(Tree::Str(name))
            },
            None => if schema is Object {
                simplify_object_spec(schema)
            } else {
                Err("schema missing type"@)
            },
        }
    }
}

/// The projections of the schemas from position `i` on, appended to `acc`;
/// the first fault ends it.
pub open spec fn project_each(items: Seq<Tree>, i: int, acc: Seq<Tree>) -> Result<
    Seq<Tree>,
    Seq<char>,
>
    decreases items, items.len() - i,
{
    if i < 0 || i >= items.len() {
        Ok(acc)
    } else {
        match schema_ref_or_type_spec(items[i]) {
            Ok(p) => project_each(items, i + 1, acc.push(p)),
            Err(e) => Err(e),
        }
    }
}

/// The properties from position `i` on, each under its name with its schema
/// projected, appended to `acc`; the first fault ends it.
pub open spec fn project_members(
    members: Seq<(Seq<char>, Tree)>,
    i: int,
    acc: Seq<(Seq<char>, Tree)>,
) -> Result<Seq<(Seq<char>, Tree)>, Seq<char>>
    decreases members, members.len() - i,
{
    if i < 0 || i >= members.len() {
        Ok(acc)
    } else {
        match schema_ref_or_type_spec(members[i].1) {
            Ok(p) => project_members(members, i + 1, acc.push((members[i].0, p))),
            Err(e) => Err(e),
        }
    }
}

/// The simplified form of an object schema: its type, its `required` list, and
/// its properties with each schema projected.
pub open spec fn simplify_object_spec(schema: Tree) -> Projected
    decreases schema, 0int,
{
    match required_spec(schema) {
        Err(e) => Err(e),
        Ok(required) => match schema.get("properties"@) {
            None => Ok(object_shape(required, None)),
            Some(p) => match p.members() {
                None => Err("schema properties must be an object"@),
                Some(members) => {
                    proof {
                        schema.lemma_get_smaller("properties"@);
                    }
                    match project_members(members, 0, Seq::empty()) {
                        Ok(properties) => Ok(object_shape(required, Some(properties))),
                        Err(e) => Err(e),
                    }
                },
            },
        },
    }
}

/// The projection of an array schema: the projection of its `items`, which it must have.
pub open spec fn array_schema_spec(schema: Tree) -> Projected {
    match schema.get("items"@) {
        Some(items) => match schema_ref_or_type_spec(items) {
            Ok(p) => Ok(array_shape(p)),
            Err(e) => Err(e),
        },
        None => Err("array schema missing items"@),
    }
}

/// The simplified form of a named schema of the catalogue: as where a schema is
/// used, but a reference and a plain type stay objects.
pub open spec fn simplify_schema_definition_spec(schema: Tree) -> Projected {
    if let Some(reference) = schema.get_text("$ref"@) {
        Ok(ref_object(reference))
    } else if let Some(c) = composition_of(schema) {
        match project_each(c.1, 0, Seq::empty()) {
            Ok(parts) => Ok(composed(c.0, parts)),
            Err(e) => Err(e),
        }
    } else {
        match schema.get_text("type"@) {
            Some(name) => if name == "array"@ {
                array_schema_spec(schema)
            } else if name == "object"@ {
                simplify_object_spec(schema)
            } else {
                Ok(typed(name))
            },
            None => if schema is Object {
                simplify_object_spec(schema)
            } else {
                Err("schema missing type"@)
            },
        }
    }
}

/// The composition keyword of a schema and the schemas under it.
fn composition<'a>(schema: &'a Json) -> (r: Option<(&'static str, &'a Vec<Json>)>)
    ensures
        match r {
            Some(c) => composition_of(schema@) == Some((c.0@, array_view(c.1@)))
                && decreases_to!(schema => c.1),
            None => composition_of(schema@) is None,
        },
{
    if let Some(items) = schema.get_array("oneOf") {
        Some(("oneOf", items))
    } else if let Some(items) = schema.get_array("anyOf") {
        Some(("anyOf", items))
    } else if let Some(items) = schema.get_array("allOf") {
        Some(("allOf", items))
    } else {
        None
    }
}

/// `{keyword: [parts...]}`.
fn compose(keyword: &str, parts: Vec<Json>) -> (r: Json)
    ensures
        r@ == composed(keyword@, array_view(parts@)),
{
    let mut members = no_members();
    push_member(&mut members, keyword, Json::array(parts));
    Json::object(members)
}

/// `{"type": "array", "items": items}`.
fn array_of(items: Json) -> (r: Json)
    ensures
        r@ == array_shape(items@),
{
    let mut members = no_members();
    push_member(&mut members, "type", Json::string("array"));
    push_member(&mut members, "items", items);
    assert(members_view(members@) =~= seq![("type"@, Tree::Str("array"@)), ("items"@, items@)]);
    Json::object(members)
}

/// Projects each schema of a list, in order.
fn project_list(items: &Vec<Json>) -> (r: Result<Vec<Json>, AppError>)
    ensures
        match r {
            Ok(out) => project_each(array_view(items@), 0, Seq::empty()) == Ok::<
                Seq<Tree>,
                Seq<char>,
            >(array_view(out@)),
            Err(e) => e is Outline && project_each(array_view(items@), 0, Seq::empty()) == Err::<
                Seq<Tree>,
                Seq<char>,
            >(e.text()),
        },
    decreases items, 0int,
{
    let mut out = no_items();
    let mut i: usize = 0;
    while i < items.len()
        invariant
            i <= items.len(),
            project_each(array_view(items@), 0, Seq::empty()) == project_each(
                array_view(items@),
                i as int,
                array_view(out@),
            ),
        decreases items.len() - i,
    {
        match schema_ref_or_type(&items[i]) {
            Ok(p) => {
                push_item(&mut out, p);
            },
            Err(e) => {
                return Err(e);
            },
        }
        i += 1;
    }
    Ok(out)
}

/// Projects the schema of each property, in order, under the property's name.
fn project_properties(members: &Vec<(String, Json)>) -> (r: Result<Vec<(String, Json)>, AppError>)
    ensures
        match r {
            Ok(out) => project_members(members_view(members@), 0, Seq::empty()) == Ok::<
                Seq<(Seq<char>, Tree)>,
                Seq<char>,
            >(members_view(out@)),
            Err(e) => e is Outline && project_members(members_view(members@), 0, Seq::empty())
                == Err::<Seq<(Seq<char>, Tree)>, Seq<char>>(e.text()),
        },
    decreases members, 0int,
{
    let mut out = no_members();
    let mut i: usize = 0;
    while i < members.len()
        invariant
            i <= members.len(),
            project_members(members_view(members@), 0, Seq::empty()) == project_members(
                members_view(members@),
                i as int,
                members_view(out@),
            ),
        decreases members.len() - i,
    {
        match schema_ref_or_type(&members[i].1) {
            Ok(p) => {
                push_member(&mut out, members[i].0.as_str(), p);
            },
            Err(e) => {
                return Err(e);
            },
        }
        i += 1;
    }
    Ok(out)
}

/// The `required` list of an object schema, copied.
fn required_names(schema: &Json) -> (r: Result<Option<Vec<Json>>, AppError>)
    ensures
        match r {
            Ok(Some(names)) => required_spec(schema@) == Ok::<Option<Seq<Tree>>, Seq<char>>(
                Some(array_view(names@)),
            ),
            Ok(None) => required_spec(schema@) == Ok::<Option<Seq<Tree>>, Seq<char>>(None),
            Err(e) => e is Outline && required_spec(schema@) == Err::<
                Option<Seq<Tree>>,
                Seq<char>,
            >(e.text()),
        },
{
    match schema.get("required") {
        None => Ok(None),
        Some(r) => match r.as_array() {
            None => fault("schema required must be an array of strings"),
            Some(items) => {
                let mut out = no_items();
                let mut i: usize = 0;
                while i < items.len()
                    invariant
                        i <= items.len(),
                        schema@.get("required"@) == Some(r@),
                        r@.items() == Some(array_view(items@)),
                        array_view(out@) == array_view(items@).subrange(0, i as int),
                        forall|k: int| 0 <= k < i ==> (#[trigger] array_view(items@)[k]) is Str,
                    decreases items.len() - i,
                {
                    match items[i].as_str() {
                        Some(name) => {
                            push_item(&mut out, Json::string(name));
                            assert(array_view(items@).subrange(0, i as int).push(
                                array_view(items@)[i as int],
                            ) =~= array_view(items@).subrange(0, i + 1));
                        },
                        None => {
                            assert(!(array_view(items@)[i as int] is Str));
                            return fault("schema required must be an array of strings");
                        },
                    }
                    i += 1;
                }
                assert(array_view(items@).subrange(0, i as int) =~= array_view(items@));
                Ok(Some(out))
            },
        },
    }
}

/// The simplified form of an object schema.
fn simplify_object(schema: &Json) -> (r: Result<Json, AppError>)
    ensures
        outcome(r, simplify_object_spec(schema@)),
    decreases schema, 0int,
{
    let required = required_names(schema)?;
    let mut members = no_members();
    push_member(&mut members, "type", Json::string("object"));
    let ghost mut required_view: Option<Seq<Tree>> = None;
    match required {
        Some(names) => {
            proof {
                required_view = Some(array_view(names@));
            }
            push_member(&mut members, "required", Json::array(names));
        },
        None => {},
    }
    match schema.get("properties") {
        None => {
            Ok(Json::object(members))
        },
        Some(p) => match p.as_object() {
            None => fault("schema properties must be an object"),
            Some(properties) => {
                let projected = project_properties(properties)?;
                push_member(&mut members, "properties", Json::object(projected));
                assert(Tree::Object(members_view(members@)) == object_shape(
                    required_view,
                    Some(members_view(projected@)),
                ));
                Ok(Json::object(members))
            },
        },
    }
}

/// Projects a schema where it is used: see [`schema_ref_or_type_spec`].
pub fn schema_ref_or_type(schema: &Json) -> (r: Result<Json, AppError>)
    ensures
        outcome(r, schema_ref_or_type_spec(schema@)),
    decreases schema, 1int,
{
    if let Some(reference) = schema.get_str("$ref") {
        return Ok(Json::string(reference));
    }
    if let Some(c) = composition(schema) {
        let parts = project_list(c.1)?;
        return Ok(compose(c.0, parts));
    }
    match schema.get_str("type") {
        Some(name) => {
            if same_text(name, "array") {
                match schema.get("items") {
                    Some(items) => {
                        let p = schema_ref_or_type(items)?;
                        Ok(array_of(p))
                    },
                    None => fault("array schema missing items"),
                }
            } else if same_text(name, "object") {
                simplify_object(schema)
            } else {
                Ok(Json::string(name))
            }
        },
        None => match schema {
            Json::Object(_) => simplify_object(schema),
            _ => fault("schema missing type"),
        },
    }
}

/// Simplifies a named schema of the catalogue: see [`simplify_schema_definition_spec`].
pub fn simplify_schema_definition(schema: &Json) -> (r: Result<Json, AppError>)
    ensures
        outcome(r, simplify_schema_definition_spec(schema@)),
{
    if let Some(reference) = schema.get_str("$ref") {
        let mut members = no_members();
        push_member(&mut members, "$ref", Json::string(reference));
        return Ok(Json::object(members));
    }
    if let Some(c) = composition(schema) {
        let parts = project_list(c.1)?;
        return Ok(compose(c.0, parts));
    }
    match schema.get_str("type") {
        Some(name) => {
            if same_text(name, "array") {
                match schema.get("items") {
                    Some(items) => {
                        let p = schema_ref_or_type(items)?;
                        Ok(array_of(p))
                    },
                    None => fault("array schema missing items"),
                }
            } else if same_text(name, "object") {
                simplify_object(schema)
            } else {
                let mut members = no_members();
                push_member(&mut members, "type", Json::string(name));
                Ok(Json::object(members))
            }
        },
        None => match schema {
            Json::Object(_) => simplify_object(schema),
            _ => fault("schema missing type"),
        },
    }
}

/// What a request body or a response lacks.
pub enum Missing {
    /// No `content` object.
    Content,
    /// No media type of the content declares a schema.
    Schema,
}

/// The first schema declared by a media type at or after position `i`.
pub open spec fn first_schema_from(content: Seq<(Seq<char>, Tree)>, i: int) -> Option<Tree>
    decreases content.len() - i,
{
    if i < 0 || i >= content.len() {
        None
    } else {
        match content[i].1.get("schema"@) {
            Some(schema) => Some(schema),
            None => first_schema_from(content, i + 1),
        }
    }
}

/// The schema that a content map offers: that of `application/json` where it
/// declares one, else the first that any media type declares.
pub open spec fn select_content_schema_spec(content: Seq<(Seq<char>, Tree)>) -> Option<Tree> {
    match crate::json::lookup(content, "application/json"@) {
        Some(entry) => match entry.get("schema"@) {
            Some(schema) => Some(schema),
            None => first_schema_from(content, 0),
        },
        None => first_schema_from(content, 0),
    }
}

/// The schema of a request body or response, through its `content`.
pub open spec fn content_schema_spec(holder: Tree) -> Result<Tree, Missing> {
    match holder.get_members("content"@) {
        None => Err(Missing::Content),
        Some(content) => match select_content_schema_spec(content) {
            Some(schema) => Ok(schema),
            None => Err(Missing::Schema),
        },
    }
}

/// `{"name": name, "required": required, "schema": schema}`.
pub open spec fn param_shape(name: Seq<char>, required: bool, schema: Tree) -> Tree {
    Tree::Object(
        seq![
            ("name"@, Tree::Str(name)),
            ("required"@, Tree::Bool(required)),
            ("schema"@, schema),
        ],
    )
}

/// The text of a member, or the empty text where it is absent or no string.
pub open spec fn text_or_empty(t: Tree, key: Seq<char>) -> Seq<char> {
    match t.get_text(key) {
        Some(s) => s,
        None => Seq::empty(),
    }
}

/// Whether a parameter is declared required: false unless `required` is the boolean true.
pub open spec fn required_flag(param: Tree) -> bool {
    match param.get("required"@) {
        Some(v) => v.truth() == Some(true),
        None => false,
    }
}

/// The outline of one parameter: a reference is kept as `{"$ref": ..}`; anything
/// else must be a query parameter with a name and a schema.
pub open spec fn outline_query_param_spec(param: Tree) -> Projected {
    if let Some(reference) = param.get_text("$ref"@) {
        Ok(ref_object(reference))
    } else if !(param is Object) {
        Err("parameter must be an object"@)
    } else if text_or_empty(param, "in"@) != "query"@ {
        Err("non-query parameter"@)
    } else if text_or_empty(param, "name"@).len() == 0 {
        Err("query parameter missing name"@)
    } else {
        match param.get("schema"@) {
            None => Err("query parameter missing schema"@),
            Some(schema) => match schema_ref_or_type_spec(schema) {
                Ok(p) => Ok(param_shape(text_or_empty(param, "name"@), required_flag(param), p)),
                Err(e) => Err(e),
            },
        }
    }
}

/// The outlines of the parameters from position `i` on, appended to `acc`;
/// the first fault ends it.
pub open spec fn query_each(items: Seq<Tree>, i: int, acc: Seq<Tree>) -> Result<
    Seq<Tree>,
    Seq<char>,
>
    decreases items.len() - i,
{
    if i < 0 || i >= items.len() {
        Ok(acc)
    } else {
        match outline_query_param_spec(items[i]) {
            Ok(p) => query_each(items, i + 1, acc.push(p)),
            Err(e) => Err(e),
        }
    }
}

/// The `query` of an operation: the outline of each of its `parameters`, or
/// the empty array where it has no such array.
pub open spec fn outline_query_params_spec(op: Tree) -> Projected {
    match op.get_items("parameters"@) {
        None => Ok(Tree::Array(Seq::empty())),
        Some(items) => match query_each(items, 0, Seq::empty()) {
            Ok(out) => Ok(Tree::Array(out)),
            Err(e) => Err(e),
        },
    }
}

/// The `request` of an operation: null without a `requestBody`, the target of
/// a reference, or the projection of the schema of its content.
pub open spec fn outline_request_body_spec(op: Tree) -> Projected {
    match op.get("requestBody"@) {
        None => Ok(Tree::Null),
        Some(body) => if let Some(reference) = body.get_text("$ref"@) {
            Ok(Tree::Str(reference))
        } else {
            match content_schema_spec(body) {
                Ok(schema) => schema_ref_or_type_spec(schema),
                Err(Missing::Content) => Err("request body content must be an object"@),
                Err(Missing::Schema) => Err("request body missing schema"@),
            }
        },
    }
}

/// The outline of the response under one status code.
pub open spec fn outline_response_spec(code: Seq<char>, response: Tree) -> Projected {
    if let Some(reference) = response.get_text("$ref"@) {
        Ok(Tree::Str(reference))
    } else {
        match content_schema_spec(response) {
            Ok(schema) => schema_ref_or_type_spec(schema),
            Err(Missing::Content) => Err("response content must be an object: "@ + code),
            Err(Missing::Schema) => Err("response missing schema: "@ + code),
        }
    }
}

/// The outlines of the responses from position `i` on, each under its status
/// code, appended to `acc`; the first fault ends it.
pub open spec fn responses_each(
    members: Seq<(Seq<char>, Tree)>,
    i: int,
    acc: Seq<(Seq<char>, Tree)>,
) -> Result<Seq<(Seq<char>, Tree)>, Seq<char>>
    decreases members.len() - i,
{
    if i < 0 || i >= members.len() {
        Ok(acc)
    } else {
        match outline_response_spec(members[i].0, members[i].1) {
            Ok(p) => responses_each(members, i + 1, acc.push((members[i].0, p))),
            Err(e) => Err(e),
        }
    }
}

/// The `responses` of an operation, which it must have: one outline per status code.
pub open spec fn outline_responses_spec(op: Tree) -> Projected {
    match op.get_members("responses"@) {
        None => Err("operation missing responses"@),
        Some(members) => match responses_each(members, 0, Seq::empty()) {
            Ok(out) => Ok(Tree::Object(out)),
            Err(e) => Err(e),
        },
    }
}

/// Whether a key of a path item names an HTTP method.
pub open spec fn is_http_method_spec(method: Seq<char>) -> bool {
    method == "get"@ || method == "post"@ || method == "put"@ || method == "patch"@ || method
        == "delete"@ || method == "options"@ || method == "head"@ || method == "trace"@
}

/// `{"query": query, "request": request, "responses": responses}`.
pub open spec fn operation_shape(query: Tree, request: Tree, responses: Tree) -> Tree {
    Tree::Object(seq![("query"@, query), ("request"@, request), ("responses"@, responses)])
}

/// The outline of one operation, which must be an object.
pub open spec fn outline_operation_spec(path: Seq<char>, method: Seq<char>, op: Tree) -> Projected {
    if !(op is Object) {
        Err("operation must be an object: "@ + path + " "@ + method)
    } else {
        match outline_query_params_spec(op) {
            Err(e) => Err(e),
            Ok(query) => match outline_request_body_spec(op) {
                Err(e) => Err(e),
                Ok(request) => match outline_responses_spec(op) {
                    Err(e) => Err(e),
                    Ok(responses) => Ok(operation_shape(query, request, responses)),
                },
            },
        }
    }
}

/// The outlines of the operations of a path item from position `i` on, each
/// under its method, appended to `acc`; keys that name no method are passed
/// over, and the first fault ends it.
pub open spec fn methods_each(
    path: Seq<char>,
    members: Seq<(Seq<char>, Tree)>,
    i: int,
    acc: Seq<(Seq<char>, Tree)>,
) -> Result<Seq<(Seq<char>, Tree)>, Seq<char>>
    decreases members.len() - i,
{
    if i < 0 || i >= members.len() {
        Ok(acc)
    } else if !is_http_method_spec(members[i].0) {
        methods_each(path, members, i + 1, acc)
    } else {
        match outline_operation_spec(path, members[i].0, members[i].1) {
            Ok(p) => methods_each(path, members, i + 1, acc.push((members[i].0, p))),
            Err(e) => Err(e),
        }
    }
}

/// The outline of one path item, which must be an object.
pub open spec fn outline_path_item_spec(path: Seq<char>, item: Tree) -> Projected {
    match item.members() {
        None => Err("path item must be an object: "@ + path),
        Some(members) => match methods_each(path, members, 0, Seq::empty()) {
            Ok(out) => Ok(Tree::Object(out)),
            Err(e) => Err(e),
        },
    }
}

/// The outlines of the path items from position `i` on, each under its path,
/// appended to `acc`; the first fault ends it.
pub open spec fn paths_each(
    members: Seq<(Seq<char>, Tree)>,
    i: int,
    acc: Seq<(Seq<char>, Tree)>,
) -> Result<Seq<(Seq<char>, Tree)>, Seq<char>>
    decreases members.len() - i,
{
    if i < 0 || i >= members.len() {
        Ok(acc)
    } else {
        match outline_path_item_spec(members[i].0, members[i].1) {
            Ok(p) => paths_each(members, i + 1, acc.push((members[i].0, p))),
            Err(e) => Err(e),
        }
    }
}

/// The outline of the `paths` section.
pub open spec fn outline_paths_spec(paths: Seq<(Seq<char>, Tree)>) -> Projected {
    match paths_each(paths, 0, Seq::empty()) {
        Ok(out) => Ok(Tree::Object(out)),
        Err(e) => Err(e),
    }
}

/// The simplified schemas from position `i` on, each under its name, appended
/// to `acc`; the first fault ends it.
pub open spec fn schemas_each(
    members: Seq<(Seq<char>, Tree)>,
    i: int,
    acc: Seq<(Seq<char>, Tree)>,
) -> Result<Seq<(Seq<char>, Tree)>, Seq<char>>
    decreases members.len() - i,
{
    if i < 0 || i >= members.len() {
        Ok(acc)
    } else {
        match simplify_schema_definition_spec(members[i].1) {
            Ok(p) => schemas_each(members, i + 1, acc.push((members[i].0, p))),
            Err(e) => Err(e),
        }
    }
}

/// The schema catalogue: one simplified schema per name, or the empty object
/// where the document has none.
pub open spec fn outline_schemas_spec(schemas: Option<Seq<(Seq<char>, Tree)>>) -> Projected {
    match schemas {
        None => Ok(Tree::Object(Seq::empty())),
        Some(members) => match schemas_each(members, 0, Seq::empty()) {
            Ok(out) => Ok(Tree::Object(out)),
            Err(e) => Err(e),
        },
    }
}

/// The named schemas of a document: the object at `components.schemas`, if there is one.
pub open spec fn catalogue_of(doc: Tree) -> Option<Seq<(Seq<char>, Tree)>> {
    match doc.get("components"@) {
        Some(components) => components.get_members("schemas"@),
        None => None,
    }
}

/// The outline of a document: `{"paths": .., "schemas": ..}`. The document
/// must be an object whose `paths` is an object.
pub open spec fn outline_openapi_spec(doc: Tree) -> Projected {
    if !(doc is Object) {
        Err("OpenAPI document must be a JSON object"@)
    } else {
        match doc.get_members("paths"@) {
            None => Err("OpenAPI document missing paths"@),
            Some(paths) => match outline_paths_spec(paths) {
                Err(e) => Err(e),
                Ok(outlined) => match outline_schemas_spec(catalogue_of(doc)) {
                    Err(e) => Err(e),
                    Ok(schemas) => Ok(
                        Tree::Object(seq![("paths"@, outlined), ("schemas"@, schemas)]),
                    ),
                },
            },
        }
    }
}

/// Picks the schema that a content map offers: see [`select_content_schema_spec`].
pub fn select_content_schema(content: &Vec<(String, Json)>) -> (r: Option<&Json>)
    ensures
        match r {
            Some(schema) => select_content_schema_spec(members_view(content@)) == Some(schema@),
            None => select_content_schema_spec(members_view(content@)) is None,
        },
{
    if let Some(i) = crate::json::position(content, "application/json") {
        if let Some(schema) = content[i].1.get("schema") {
            return Some(schema);
        }
    }
    let mut i: usize = 0;
    while i < content.len()
        invariant
            i <= content.len(),
            select_content_schema_spec(members_view(content@)) == first_schema_from(
                members_view(content@),
                0,
            ),
            first_schema_from(members_view(content@), 0) == first_schema_from(
                members_view(content@),
                i as int,
            ),
        decreases content.len() - i,
    {
        if let Some(schema) = content[i].1.get("schema") {
            return Some(schema);
        }
        i += 1;
    }
    None
}

/// The schema of a request body or response, through its `content`.
fn content_schema(holder: &Json) -> (r: Result<&Json, Missing>)
    ensures
        match r {
            Ok(schema) => content_schema_spec(holder@) == Ok::<Tree, Missing>(schema@),
            Err(m) => content_schema_spec(holder@) == Err::<Tree, Missing>(m),
        },
{
    match holder.get_object("content") {
        None => Err(Missing::Content),
        Some(content) => match select_content_schema(content) {
            Some(schema) => Ok(schema),
            None => Err(Missing::Schema),
        },
    }
}

/// Outlines one parameter: see [`outline_query_param_spec`].
pub fn outline_query_param(param: &Json) -> (r: Result<Json, AppError>)
    ensures
        outcome(r, outline_query_param_spec(param@)),
{
    if let Some(reference) = param.get_str("$ref") {
        let mut members = no_members();
        push_member(&mut members, "$ref", Json::string(reference));
        return Ok(Json::object(members));
    }
    match param {
        Json::Object(_) => {},
        _ => {
            return fault("parameter must be an object");
        },
    }
    let location = match param.get_str("in") {
        Some(s) => s,
        None => "",
    };
    proof {
        reveal_strlit("");
        assert(""@ =~= Seq::<char>::empty());
    }
    if !same_text(location, "query") {
        return fault("non-query parameter");
    }
    let name = match param.get_str("name") {
        Some(s) => s,
        None => "",
    };
    if name.is_empty() {
        return fault("query parameter missing name");
    }
    let required = match param.get("required") {
        Some(v) => match v.as_bool() {
            Some(b) => b,
            None => false,
        },
        None => false,
    };
    match param.get("schema") {
        None => fault("query parameter missing schema"),
        Some(schema) => {
            let projected = schema_ref_or_type(schema)?;
            let mut members = no_members();
            push_member(&mut members, "name", Json::string(name));
            push_member(&mut members, "required", Json::Bool(required));
            push_member(&mut members, "schema", projected);
            assert(members_view(members@) =~= seq![
                ("name"@, Tree::Str(name@)),
                ("required"@, Tree::Bool(required)),
                ("schema"@, projected@),
            ]);
            Ok(Json::object(members))
        },
    }
}

/// Outlines the parameters of an operation: see [`outline_query_params_spec`].
pub fn outline_query_params(op: &Json) -> (r: Result<Json, AppError>)
    ensures
        outcome(r, outline_query_params_spec(op@)),
{
    let mut out = no_items();
    if let Some(items) = op.get_array("parameters") {
        let mut i: usize = 0;
        while i < items.len()
            invariant
                i <= items.len(),
                op@.get_items("parameters"@) == Some(array_view(items@)),
                query_each(array_view(items@), 0, Seq::empty()) == query_each(
                    array_view(items@),
                    i as int,
                    array_view(out@),
                ),
            decreases items.len() - i,
        {
            match outline_query_param(&items[i]) {
                Ok(p) => {
                    push_item(&mut out, p);
                },
                Err(e) => {
                    return Err(e);
                },
            }
            i += 1;
        }
    }
    Ok(Json::array(out))
}

/// Outlines the request body of an operation: see [`outline_request_body_spec`].
pub fn outline_request_body(op: &Json) -> (r: Result<Json, AppError>)
    ensures
        outcome(r, outline_request_body_spec(op@)),
{
    let body = match op.get("requestBody") {
        Some(value) => value,
        None => {
            return Ok(Json::Null);
        },
    };
    if let Some(reference) = body.get_str("$ref") {
        return Ok(Json::string(reference));
    }
    match content_schema(body) {
        Ok(schema) => schema_ref_or_type(schema),
        Err(Missing::Content) => fault("request body content must be an object"),
        Err(Missing::Schema) => fault("request body missing schema"),
    }
}

/// Outlines the response under one status code.
fn outline_response(code: &str, response: &Json) -> (r: Result<Json, AppError>)
    ensures
        outcome(r, outline_response_spec(code@, response@)),
{
    if let Some(reference) = response.get_str("$ref") {
        return Ok(Json::string(reference));
    }
    match content_schema(response) {
        Ok(schema) => schema_ref_or_type(schema),
        Err(Missing::Content) => fault_at("response content must be an object: ", code),
        Err(Missing::Schema) => fault_at("response missing schema: ", code),
    }
}

/// Outlines the responses of an operation: see [`outline_responses_spec`].
pub fn outline_responses(op: &Json) -> (r: Result<Json, AppError>)
    ensures
        outcome(r, outline_responses_spec(op@)),
{
    let members = match op.get_object("responses") {
        Some(members) => members,
        None => {
            return fault("operation missing responses");
        },
    };
    let mut out = no_members();
    let mut i: usize = 0;
    while i < members.len()
        invariant
            i <= members.len(),
            op@.get_members("responses"@) == Some(members_view(members@)),
            responses_each(members_view(members@), 0, Seq::empty()) == responses_each(
                members_view(members@),
                i as int,
                members_view(out@),
            ),
        decreases members.len() - i,
    {
        match outline_response(members[i].0.as_str(), &members[i].1) {
            Ok(p) => {
                push_member(&mut out, members[i].0.as_str(), p);
            },
            Err(e) => {
                return Err(e);
            },
        }
        i += 1;
    }
    Ok(Json::object(out))
}

/// Whether a key of a path item names an HTTP method.
pub fn is_http_method(method: &str) -> (r: bool)
    ensures
        r == is_http_method_spec(method@),
{
    same_text(method, "get") || same_text(method, "post") || same_text(method, "put")
        || same_text(method, "patch") || same_text(method, "delete") || same_text(
        method,
        "options",
    ) || same_text(method, "head") || same_text(method, "trace")
}

/// Outlines one operation.
fn outline_operation(path: &str, method: &str, op: &Json) -> (r: Result<Json, AppError>)
    ensures
        outcome(r, outline_operation_spec(path@, method@, op@)),
{
    match op {
        Json::Object(_) => {},
        _ => {
            let subject = join(join(path, " ").as_str(), method);
            assert("operation must be an object: "@ + subject@ =~= "operation must be an object: "@
                + path@ + " "@ + method@);
            return fault_at("operation must be an object: ", subject.as_str());
        },
    }
    let query = outline_query_params(op)?;
    let request = outline_request_body(op)?;
    let responses = outline_responses(op)?;
    let mut members = no_members();
    push_member(&mut members, "query", query);
    push_member(&mut members, "request", request);
    push_member(&mut members, "responses", responses);
    assert(members_view(members@) =~= seq![
        ("query"@, query@),
        ("request"@, request@),
        ("responses"@, responses@),
    ]);
    Ok(Json::object(members))
}

/// Outlines one path item.
fn outline_path_item(path: &str, item: &Json) -> (r: Result<Json, AppError>)
    ensures
        outcome(r, outline_path_item_spec(path@, item@)),
{
    let members = match item.as_object() {
        Some(members) => members,
        None => {
            return fault_at("path item must be an object: ", path);
        },
    };
    let mut out = no_members();
    let mut i: usize = 0;
    while i < members.len()
        invariant
            i <= members.len(),
            item@.members() == Some(members_view(members@)),
            methods_each(path@, members_view(members@), 0, Seq::empty()) == methods_each(
                path@,
                members_view(members@),
                i as int,
                members_view(out@),
            ),
        decreases members.len() - i,
    {
        let method = members[i].0.as_str();
        if is_http_method(method) {
            match outline_operation(path, method, &members[i].1) {
                Ok(p) => {
                    push_member(&mut out, method, p);
                },
                Err(e) => {
                    return Err(e);
                },
            }
        }
        i += 1;
    }
    Ok(Json::object(out))
}

/// Outlines the `paths` section: see [`outline_paths_spec`].
pub fn outline_paths(paths: &Vec<(String, Json)>) -> (r: Result<Json, AppError>)
    ensures
        outcome(r, outline_paths_spec(members_view(paths@))),
{
    let mut out = no_members();
    let mut i: usize = 0;
    while i < paths.len()
        invariant
            i <= paths.len(),
            paths_each(members_view(paths@), 0, Seq::empty()) == paths_each(
                members_view(paths@),
                i as int,
                members_view(out@),
            ),
        decreases paths.len() - i,
    {
        match outline_path_item(paths[i].0.as_str(), &paths[i].1) {
            Ok(p) => {
                push_member(&mut out, paths[i].0.as_str(), p);
            },
            Err(e) => {
                return Err(e);
            },
        }
        i += 1;
    }
    Ok(Json::object(out))
}

/// Simplifies the schema catalogue: see [`outline_schemas_spec`].
pub fn outline_schemas(schemas: Option<&Vec<(String, Json)>>) -> (r: Result<Json, AppError>)
    ensures
        outcome(
            r,
            outline_schemas_spec(
                match schemas {
                    Some(members) => Some(members_view(members@)),
                    None => None,
                },
            ),
        ),
{
    let mut out = no_members();
    if let Some(members) = schemas {
        let mut i: usize = 0;
        while i < members.len()
            invariant
                i <= members.len(),
                schemas == Some(members),
                schemas_each(members_view(members@), 0, Seq::empty()) == schemas_each(
                    members_view(members@),
                    i as int,
                    members_view(out@),
                ),
            decreases members.len() - i,
        {
            match simplify_schema_definition(&members[i].1) {
                Ok(p) => {
                    push_member(&mut out, members[i].0.as_str(), p);
                },
                Err(e) => {
                    return Err(e);
                },
            }
            i += 1;
        }
    }
    Ok(Json::object(out))
}

/// Outlines a document: for each operation of each path its query parameters,
/// request and responses, and beside them the simplified schema catalogue.
/// Fails with the first structural fault, and yields nothing partial.
pub fn outline_openapi(value: &Json) -> (r: Result<Json, AppError>)
    ensures
        outcome(r, outline_openapi_spec(value@)),
{
    match value {
        Json::Object(_) => {},
        _ => {
            return fault("OpenAPI document must be a JSON object");
        },
    }
    let paths = match value.get_object("paths") {
        Some(paths) => paths,
        None => {
            return fault("OpenAPI document missing paths");
        },
    };
    let schemas = match value.get("components") {
        Some(components) => components.get_object("schemas"),
        None => None,
    };
    let outlined_paths = outline_paths(paths)?;
    let outlined_schemas = outline_schemas(schemas)?;
    let mut members = no_members();
    push_member(&mut members, "paths", outlined_paths);
    push_member(&mut members, "schemas", outlined_schemas);
    assert(members_view(members@) =~= seq![
        ("paths"@, outlined_paths@),
        ("schemas"@, outlined_schemas@),
    ]);
    Ok(Json::object(members))
}

/// A schema that is a reference projects to the name of its target.
pub proof fn lemma_reference_projects(schema: Tree, reference: Seq<char>)
    requires
        schema.get_text("$ref"@) == Some(reference),
    ensures
        schema_ref_or_type_spec(schema) == Ok::<Tree, Seq<char>>(Tree::Str(reference)),
        schema_ref_or_type_spec(ref_object(reference)) == Ok::<Tree, Seq<char>>(
            Tree::Str(reference),
        ),
{
}

/// A reference projects to the name of its target wherever a schema stands:
/// under a query parameter, as the schema of a request body's content, and
/// as the schema of a response's content.
pub proof fn lemma_reference_projects_in_place(
    param: Tree,
    op: Tree,
    body: Tree,
    code: Seq<char>,
    response: Tree,
    reference: Seq<char>,
)
    requires
        param is Object,
        param.get_text("$ref"@) is None,
        text_or_empty(param, "in"@) == "query"@,
        text_or_empty(param, "name"@).len() > 0,
        param.get("schema"@) == Some(ref_object(reference)),
        op.get("requestBody"@) == Some(body),
        body.get_text("$ref"@) is None,
        content_schema_spec(body) == Ok::<Tree, Missing>(ref_object(reference)),
        response.get_text("$ref"@) is None,
        content_schema_spec(response) == Ok::<Tree, Missing>(ref_object(reference)),
    ensures
        outline_query_param_spec(param) == Ok::<Tree, Seq<char>>(
            param_shape(text_or_empty(param, "name"@), required_flag(param), Tree::Str(reference)),
        ),
        outline_request_body_spec(op) == Ok::<Tree, Seq<char>>(Tree::Str(reference)),
        outline_response_spec(code, response) == Ok::<Tree, Seq<char>>(Tree::Str(reference)),
{
    lemma_reference_projects(ref_object(reference), reference);
}

/// An array schema without `items` is a fault, where it is used and in the catalogue.
pub proof fn lemma_array_needs_items(schema: Tree)
    requires
        schema.get_text("$ref"@) is None,
        composition_of(schema) is None,
        schema.get_text("type"@) == Some("array"@),
        schema.get("items"@) is None,
    ensures
        schema_ref_or_type_spec(schema) == Err::<Tree, Seq<char>>("array schema missing items"@),
        simplify_schema_definition_spec(schema) == Err::<Tree, Seq<char>>(
            "array schema missing items"@,
        ),
{
}

/// A fault in a schema of a list is a fault of the list.
pub proof fn lemma_part_fault_spreads(items: Seq<Tree>, i: int, acc: Seq<Tree>, k: int)
    requires
        0 <= i <= k < items.len(),
        schema_ref_or_type_spec(items[k]) is Err,
    ensures
        project_each(items, i, acc) is Err,
    decreases k - i,
{
    if i < k {
        if let Ok(p) = schema_ref_or_type_spec(items[i]) {
            lemma_part_fault_spreads(items, i + 1, acc.push(p), k);
        }
    }
}

/// A fault in the schema of a property is a fault of the properties.
pub proof fn lemma_property_fault_spreads(
    members: Seq<(Seq<char>, Tree)>,
    i: int,
    acc: Seq<(Seq<char>, Tree)>,
    k: int,
)
    requires
        0 <= i <= k < members.len(),
        schema_ref_or_type_spec(members[k].1) is Err,
    ensures
        project_members(members, i, acc) is Err,
    decreases k - i,
{
    if i < k {
        if let Ok(p) = schema_ref_or_type_spec(members[i].1) {
            lemma_property_fault_spreads(members, i + 1, acc.push((members[i].0, p)), k);
        }
    }
}

/// A fault in a named schema is a fault of the catalogue.
pub proof fn lemma_schema_fault_spreads(
    members: Seq<(Seq<char>, Tree)>,
    i: int,
    acc: Seq<(Seq<char>, Tree)>,
    k: int,
)
    requires
        0 <= i <= k < members.len(),
        simplify_schema_definition_spec(members[k].1) is Err,
    ensures
        schemas_each(members, i, acc) is Err,
    decreases k - i,
{
    if i < k {
        if let Ok(p) = simplify_schema_definition_spec(members[i].1) {
            lemma_schema_fault_spreads(members, i + 1, acc.push((members[i].0, p)), k);
        }
    }
}

/// A named schema that is an array without `items`, or that holds one as a
/// property, makes the outline of the document fail.
pub proof fn lemma_array_without_items_rejected(
    doc: Tree,
    schemas: Seq<(Seq<char>, Tree)>,
    k: int,
    properties: Seq<(Seq<char>, Tree)>,
    p: int,
    array: Tree,
)
    requires
        catalogue_of(doc) == Some(schemas),
        0 <= k < schemas.len(),
        array.get_text("$ref"@) is None,
        composition_of(array) is None,
        array.get_text("type"@) == Some("array"@),
        array.get("items"@) is None,
        schemas[k].1 == array || ({
            &&& schemas[k].1 is Object
            &&& schemas[k].1.get_text("$ref"@) is None
            &&& composition_of(schemas[k].1) is None
            &&& schemas[k].1.get_text("type"@) is None || schemas[k].1.get_text("type"@) == Some(
                "object"@,
            )
            &&& schemas[k].1.get_members("properties"@) == Some(properties)
            &&& 0 <= p < properties.len()
            &&& properties[p].1 == array
        }),
    ensures
        simplify_schema_definition_spec(schemas[k].1) is Err,
        outline_openapi_spec(doc) is Err,
{
    lemma_array_needs_items(array);
    if schemas[k].1 != array {
        lemma_property_fault_spreads(properties, 0, Seq::empty(), p);
        reveal_strlit("object");
        reveal_strlit("array");
        assert("object"@.len() != "array"@.len());
    }
    lemma_schema_fault_spreads(schemas, 0, Seq::empty(), k);
}

/// A fault among the parameters is a fault of the whole list.
pub proof fn lemma_query_fault_spreads(items: Seq<Tree>, i: int, acc: Seq<Tree>, k: int)
    requires
        0 <= i <= k < items.len(),
        outline_query_param_spec(items[k]) is Err,
    ensures
        query_each(items, i, acc) is Err,
    decreases k - i,
{
    if i < k {
        if let Ok(p) = outline_query_param_spec(items[i]) {
            lemma_query_fault_spreads(items, i + 1, acc.push(p), k);
        }
    }
}

/// A fault in an operation is a fault of its path item.
pub proof fn lemma_method_fault_spreads(
    path: Seq<char>,
    members: Seq<(Seq<char>, Tree)>,
    i: int,
    acc: Seq<(Seq<char>, Tree)>,
    k: int,
)
    requires
        0 <= i <= k < members.len(),
        is_http_method_spec(members[k].0),
        outline_operation_spec(path, members[k].0, members[k].1) is Err,
    ensures
        methods_each(path, members, i, acc) is Err,
    decreases k - i,
{
    if i < k {
        if !is_http_method_spec(members[i].0) {
            lemma_method_fault_spreads(path, members, i + 1, acc, k);
        } else if let Ok(p) = outline_operation_spec(path, members[i].0, members[i].1) {
            lemma_method_fault_spreads(path, members, i + 1, acc.push((members[i].0, p)), k);
        }
    }
}

/// A fault in a path item is a fault of the paths.
pub proof fn lemma_path_fault_spreads(
    members: Seq<(Seq<char>, Tree)>,
    i: int,
    acc: Seq<(Seq<char>, Tree)>,
    k: int,
)
    requires
        0 <= i <= k < members.len(),
        outline_path_item_spec(members[k].0, members[k].1) is Err,
    ensures
        paths_each(members, i, acc) is Err,
    decreases k - i,
{
    if i < k {
        if let Ok(p) = outline_path_item_spec(members[i].0, members[i].1) {
            lemma_path_fault_spreads(members, i + 1, acc.push((members[i].0, p)), k);
        }
    }
}

/// A parameter that is neither a reference nor in the query makes the
/// outline fail: of the parameters, of the operation, and of the document
/// that holds the operation under a method of one of its paths. It is never
/// passed over.
pub proof fn lemma_non_query_parameter_rejected(
    doc: Tree,
    paths: Seq<(Seq<char>, Tree)>,
    p: int,
    methods: Seq<(Seq<char>, Tree)>,
    m: int,
    params: Seq<Tree>,
    k: int,
)
    requires
        doc.get_members("paths"@) == Some(paths),
        0 <= p < paths.len(),
        paths[p].1.members() == Some(methods),
        0 <= m < methods.len(),
        is_http_method_spec(methods[m].0),
        methods[m].1.get_items("parameters"@) == Some(params),
        0 <= k < params.len(),
        params[k] is Object,
        params[k].get_text("$ref"@) is None,
        text_or_empty(params[k], "in"@) != "query"@,
    ensures
        outline_query_param_spec(params[k]) == Err::<Tree, Seq<char>>("non-query parameter"@),
        outline_query_params_spec(methods[m].1) is Err,
        outline_operation_spec(paths[p].0, methods[m].0, methods[m].1) is Err,
        outline_path_item_spec(paths[p].0, paths[p].1) is Err,
        outline_openapi_spec(doc) is Err,
{
    lemma_query_fault_spreads(params, 0, Seq::empty(), k);
    lemma_method_fault_spreads(paths[p].0, methods, 0, Seq::empty(), m);
    lemma_path_fault_spreads(paths, 0, Seq::empty(), p);
}

/// A parameter in a header is not in the query.
pub proof fn lemma_header_is_not_query(param: Tree)
    requires
        param.get_text("in"@) == Some("header"@),
    ensures
        text_or_empty(param, "in"@) != "query"@,
{
    reveal_strlit("header");
    reveal_strlit("query");
    assert("header"@.len() != "query"@.len());
}

/// The parts of a composition keep their order: each projection stands where its schema stood.
pub proof fn lemma_parts_in_order(items: Seq<Tree>, i: int, acc: Seq<Tree>)
    requires
        0 <= i <= items.len(),
        project_each(items, i, acc) is Ok,
    ensures
        project_each(items, i, acc)->Ok_0.len() == acc.len() + items.len() - i,
        forall|j: int| 0 <= j < acc.len() ==> project_each(items, i, acc)->Ok_0[j] == acc[j],
        forall|k: int|
            i <= k < items.len() ==> schema_ref_or_type_spec(#[trigger] items[k]) == Ok::<Tree, Seq<char>>(
                project_each(items, i, acc)->Ok_0[acc.len() + k - i],
            ),
    decreases items.len() - i,
{
    if i < items.len() {
        let p = schema_ref_or_type_spec(items[i])->Ok_0;
        lemma_parts_in_order(items, i + 1, acc.push(p));
        assert(acc.push(p)[acc.len() as int] == p);
        assert forall|j: int| 0 <= j < acc.len() implies project_each(items, i, acc)->Ok_0[j]
            == acc[j] by {
            assert(acc.push(p)[j] == acc[j]);
        }
    }
}

/// The parameters keep their order: each outline stands where its parameter stood.
pub proof fn lemma_parameters_in_order(items: Seq<Tree>, i: int, acc: Seq<Tree>)
    requires
        0 <= i <= items.len(),
        query_each(items, i, acc) is Ok,
    ensures
        query_each(items, i, acc)->Ok_0.len() == acc.len() + items.len() - i,
        forall|j: int| 0 <= j < acc.len() ==> query_each(items, i, acc)->Ok_0[j] == acc[j],
        forall|k: int|
            i <= k < items.len() ==> outline_query_param_spec(#[trigger] items[k]) == Ok::<Tree, Seq<char>>(
                query_each(items, i, acc)->Ok_0[acc.len() + k - i],
            ),
    decreases items.len() - i,
{
    if i < items.len() {
        let p = outline_query_param_spec(items[i])->Ok_0;
        lemma_parameters_in_order(items, i + 1, acc.push(p));
        assert(acc.push(p)[acc.len() as int] == p);
        assert forall|j: int| 0 <= j < acc.len() implies query_each(items, i, acc)->Ok_0[j]
            == acc[j] by {
            assert(acc.push(p)[j] == acc[j]);
        }
    }
}

/// The properties keep their names and their order, each with its schema projected.
pub proof fn lemma_properties_in_order(
    members: Seq<(Seq<char>, Tree)>,
    i: int,
    acc: Seq<(Seq<char>, Tree)>,
)
    requires
        0 <= i <= members.len(),
        project_members(members, i, acc) is Ok,
    ensures
        project_members(members, i, acc)->Ok_0.len() == acc.len() + members.len() - i,
        forall|j: int| 0 <= j < acc.len() ==> project_members(members, i, acc)->Ok_0[j] == acc[j],
        forall|k: int|
            i <= k < members.len() ==> {
                let kept = project_members(members, i, acc)->Ok_0[acc.len() + k - i];
                &&& kept.0 == (#[trigger] members[k]).0
                &&& schema_ref_or_type_spec(members[k].1) == Ok::<Tree, Seq<char>>(kept.1)
            },
    decreases members.len() - i,
{
    if i < members.len() {
        let p = (schema_ref_or_type_spec(members[i].1))->Ok_0;
        let next = acc.push((members[i].0, p));
        lemma_properties_in_order(members, i + 1, next);
        assert(next[acc.len() as int] == (members[i].0, p));
        assert forall|j: int| 0 <= j < acc.len() implies project_members(members, i, acc)->Ok_0[j]
            == acc[j] by {
            assert(next[j] == acc[j]);
        }
    }
}

/// The responses keep their status codes and their order, each with its outline.
pub proof fn lemma_responses_in_order(
    members: Seq<(Seq<char>, Tree)>,
    i: int,
    acc: Seq<(Seq<char>, Tree)>,
)
    requires
        0 <= i <= members.len(),
        responses_each(members, i, acc) is Ok,
    ensures
        responses_each(members, i, acc)->Ok_0.len() == acc.len() + members.len() - i,
        forall|j: int| 0 <= j < acc.len() ==> responses_each(members, i, acc)->Ok_0[j] == acc[j],
        forall|k: int|
            i <= k < members.len() ==> {
                let kept = responses_each(members, i, acc)->Ok_0[acc.len() + k - i];
                &&& kept.0 == (#[trigger] members[k]).0
                &&& outline_response_spec(members[k].0, members[k].1) == Ok::<Tree, Seq<char>>(kept.1)
            },
    decreases members.len() - i,
{
    if i < members.len() {
        let p = (outline_response_spec(members[i].0, members[i].1))->Ok_0;
        let next = acc.push((members[i].0, p));
        lemma_responses_in_order(members, i + 1, next);
        assert(next[acc.len() as int] == (members[i].0, p));
        assert forall|j: int| 0 <= j < acc.len() implies responses_each(members, i, acc)->Ok_0[j]
            == acc[j] by {
            assert(next[j] == acc[j]);
        }
    }
}

/// The paths keep their names and their order, each with the outline of its item.
pub proof fn lemma_paths_in_order(
    members: Seq<(Seq<char>, Tree)>,
    i: int,
    acc: Seq<(Seq<char>, Tree)>,
)
    requires
        0 <= i <= members.len(),
        paths_each(members, i, acc) is Ok,
    ensures
        paths_each(members, i, acc)->Ok_0.len() == acc.len() + members.len() - i,
        forall|j: int| 0 <= j < acc.len() ==> paths_each(members, i, acc)->Ok_0[j] == acc[j],
        forall|k: int|
            i <= k < members.len() ==> {
                let kept = paths_each(members, i, acc)->Ok_0[acc.len() + k - i];
                &&& kept.0 == (#[trigger] members[k]).0
                &&& outline_path_item_spec(members[k].0, members[k].1) == Ok::<Tree, Seq<char>>(kept.1)
            },
    decreases members.len() - i,
{
    if i < members.len() {
        let p = (outline_path_item_spec(members[i].0, members[i].1))->Ok_0;
        let next = acc.push((members[i].0, p));
        lemma_paths_in_order(members, i + 1, next);
        assert(next[acc.len() as int] == (members[i].0, p));
        assert forall|j: int| 0 <= j < acc.len() implies paths_each(members, i, acc)->Ok_0[j]
            == acc[j] by {
            assert(next[j] == acc[j]);
        }
    }
}

/// The named schemas keep their names and their order, each simplified.
pub proof fn lemma_schemas_in_order(
    members: Seq<(Seq<char>, Tree)>,
    i: int,
    acc: Seq<(Seq<char>, Tree)>,
)
    requires
        0 <= i <= members.len(),
        schemas_each(members, i, acc) is Ok,
    ensures
        schemas_each(members, i, acc)->Ok_0.len() == acc.len() + members.len() - i,
        forall|j: int| 0 <= j < acc.len() ==> schemas_each(members, i, acc)->Ok_0[j] == acc[j],
        forall|k: int|
            i <= k < members.len() ==> {
                let kept = schemas_each(members, i, acc)->Ok_0[acc.len() + k - i];
                &&& kept.0 == (#[trigger] members[k]).0
                &&& simplify_schema_definition_spec(members[k].1) == Ok::<Tree, Seq<char>>(kept.1)
            },
    decreases members.len() - i,
{
    if i < members.len() {
        let p = (simplify_schema_definition_spec(members[i].1))->Ok_0;
        let next = acc.push((members[i].0, p));
        lemma_schemas_in_order(members, i + 1, next);
        assert(next[acc.len() as int] == (members[i].0, p));
        assert forall|j: int| 0 <= j < acc.len() implies schemas_each(members, i, acc)->Ok_0[j]
            == acc[j] by {
            assert(next[j] == acc[j]);
        }
    }
}

/// The named schemas of a document, or none where it has no catalogue.
pub open spec fn named_schemas(doc: Tree) -> Seq<(Seq<char>, Tree)> {
    match catalogue_of(doc) {
        Some(members) => members,
        None => Seq::empty(),
    }
}

/// The outline of a document, said directly: it has exactly the members
/// `paths` and `schemas`; under `paths` every path of the document stands
/// with the outline of its item, and under `schemas` every named schema with
/// its simplified form, each list in the order of the document.
pub proof fn lemma_outline_keeps_paths_and_schemas(
    doc: Tree,
    paths: Seq<(Seq<char>, Tree)>,
    schemas: Seq<(Seq<char>, Tree)>,
)
    requires
        outline_openapi_spec(doc) is Ok,
        doc.get_members("paths"@) == Some(paths),
        schemas == named_schemas(doc),
    ensures
        ({
            let out = outline_openapi_spec(doc)->Ok_0->Object_0;
            let out_paths = out[0].1->Object_0;
            let out_schemas = out[1].1->Object_0;
            &&& outline_openapi_spec(doc)->Ok_0 is Object
            &&& out.len() == 2
            &&& out[0].0 == "paths"@
            &&& out[1].0 == "schemas"@
            &&& out[0].1 is Object
            &&& out[1].1 is Object
            &&& out_paths.len() == paths.len()
            &&& out_schemas.len() == schemas.len()
            &&& forall|k: int|
                0 <= k < paths.len() ==> out_paths[k].0 == (#[trigger] paths[k]).0
                    && outline_path_item_spec(paths[k].0, paths[k].1) == Ok::<Tree, Seq<char>>(
                    out_paths[k].1,
                )
            &&& forall|k: int|
                0 <= k < schemas.len() ==> out_schemas[k].0 == (#[trigger] schemas[k]).0
                    && simplify_schema_definition_spec(schemas[k].1) == Ok::<Tree, Seq<char>>(
                    out_schemas[k].1,
                )
        }),
{
    lemma_paths_in_order(paths, 0, Seq::empty());
    if catalogue_of(doc) is Some {
        lemma_schemas_in_order(schemas, 0, Seq::empty());
    }
}

} // verus!
