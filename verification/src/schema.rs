//! Function-calling schemas: the JSON objects that describe a tool's
//! parameters to the model.
use vstd::prelude::*;
use crate::json::JsonValue;
use crate::llm::{ToolDefinition, ToolFunction};

verus! {

/// One parameter of a tool, as text: its name, JSON type, description and,
/// for an enumeration, the allowed values.
pub struct ParamSpec {
    pub name: Seq<char>,
    pub ty: Seq<char>,
    pub desc: Seq<char>,
    pub choices: Seq<Seq<char>>,
}

/// A parameter without allowed values.
pub open spec fn plain_param(name: Seq<char>, ty: Seq<char>, desc: Seq<char>) -> ParamSpec {
    ParamSpec { name, ty, desc, choices: Seq::empty() }
}

/// `v` is the string `s`.
pub open spec fn str_value(v: JsonValue, s: Seq<char>) -> bool {
    v matches JsonValue::Str(t) && t@ == s
}

/// `v` is the array of the strings `s`.
pub open spec fn str_array(v: JsonValue, s: Seq<Seq<char>>) -> bool {
    &&& v matches JsonValue::Array(a)
    &&& a@.len() == s.len()
    &&& forall|i: int| 0 <= i < s.len() ==> #[trigger] str_value(a@[i], s[i])
}

/// `v` describes a parameter: `{"type": ty, "description": desc}`, with
/// `"enum": choices` between the two when there are choices.
pub open spec fn param_schema(v: JsonValue, ty: Seq<char>, desc: Seq<char>, choices: Seq<Seq<char>>) -> bool {
    &&& v matches JsonValue::Object(m)
    &&& m@.len() == (if choices.len() == 0 {
        2nat
    } else {
        3nat
    })
    &&& m@[0].0@ == "type"@
    &&& str_value(m@[0].1, ty)
    &&& m@[m@.len() - 1].0@ == "description"@
    &&& str_value(m@[m@.len() - 1].1, desc)
    &&& choices.len() > 0 ==> m@[1].0@ == "enum"@ && str_array(m@[1].1, choices)
}

/// `v` is the schema of an object whose properties are `params`, in order,
/// listing the `required` ones when there is such a list.
pub open spec fn object_schema_of(v: JsonValue, params: Seq<ParamSpec>, required: Option<Seq<Seq<char>>>) -> bool {
    &&& v matches JsonValue::Object(m)
    &&& m@.len() == (if required is Some {
        3nat
    } else {
        2nat
    })
    &&& m@[0].0@ == "type"@
    &&& str_value(m@[0].1, "object"@)
    &&& m@[1].0@ == "properties"@
    &&& m@[1].1 matches JsonValue::Object(ps)
    &&& ps@.len() == params.len()
    &&& forall|i: int|
        0 <= i < params.len() ==> #[trigger] ps@[i].0@ == params[i].name && param_schema(
            ps@[i].1,
            params[i].ty,
            params[i].desc,
            params[i].choices,
        )
    &&& match required {
        Some(req) => m@[2].0@ == "required"@ && str_array(m@[2].1, req),
        None => true,
    }
}

/// `t` is the function tool `name` described by `desc`, whose parameters
/// are `params` with the `required` ones listed.
pub open spec fn tool_of(
    t: ToolDefinition,
    name: Seq<char>,
    desc: Seq<char>,
    params: Seq<ParamSpec>,
    required: Option<Seq<Seq<char>>>,
) -> bool {
    &&& t.def_type@ == "function"@
    &&& t.function.name@ == name
    &&& t.function.description@ == desc
    &&& object_schema_of(t.function.parameters, params, required)
}

/// The strings of a list.
pub open spec fn texts(v: Seq<String>) -> Seq<Seq<char>> {
    v.map_values(|s: String| s@)
}

fn str_array_of(items: Vec<String>) -> (r: JsonValue)
    ensures
        str_array(r, texts(items@)),
{
    let mut out: Vec<JsonValue> = Vec::new();
    let mut i: usize = 0;
    while i < items.len()
        invariant
            i <= items@.len(),
            out@.len() == i,
            forall|k: int| 0 <= k < i ==> #[trigger] str_value(out@[k], items@[k]@),
        decreases items@.len() - i,
    {
        out.push(JsonValue::Str(items[i].clone()));
        i += 1;
    }
    let r = JsonValue::Array(out);
    assert forall|k: int| 0 <= k < items@.len() implies #[trigger] str_value(
        out@[k],
        texts(items@)[k],
    ) by {
        assert(str_value(out@[k], items@[k]@));
    }
    r
}

/// A parameter of JSON type `ty` described by `desc`.
pub fn param(ty: &str, desc: &str) -> (r: JsonValue)
    ensures
        param_schema(r, ty@, desc@, Seq::empty()),
{
    let mut m: Vec<(String, JsonValue)> = Vec::new();
    m.push(("type".to_string(), JsonValue::Str(ty.to_string())));
    m.push(("description".to_string(), JsonValue::Str(desc.to_string())));
    JsonValue::Object(m)
}

/// A parameter of JSON type `ty` that takes one of `choices`, described by
/// `desc`.
pub fn choice_param(ty: &str, choices: Vec<String>, desc: &str) -> (r: JsonValue)
    requires
        choices@.len() > 0,
    ensures
        param_schema(r, ty@, desc@, texts(choices@)),
{
    let mut m: Vec<(String, JsonValue)> = Vec::new();
    m.push(("type".to_string(), JsonValue::Str(ty.to_string())));
    m.push(("enum".to_string(), str_array_of(choices)));
    m.push(("description".to_string(), JsonValue::Str(desc.to_string())));
    JsonValue::Object(m)
}

/// The schema of an object with the properties `props`, listing the
/// `required` ones when given.
pub fn object_schema(props: Vec<(String, JsonValue)>, required: Option<Vec<String>>) -> (r: JsonValue)
    ensures
        r matches JsonValue::Object(m) && m@.len() == (if required is Some {
            3nat
        } else {
            2nat
        }) && m@[0].0@ == "type"@ && str_value(m@[0].1, "object"@) && m@[1].0@ == "properties"@
            && m@[1].1 == JsonValue::Object(props) && match required {
            Some(req) => m@[2].0@ == "required"@ && str_array(m@[2].1, texts(req@)),
            None => true,
        },
{
    let mut m: Vec<(String, JsonValue)> = Vec::new();
    m.push(("type".to_string(), JsonValue::Str("object".to_string())));
    m.push(("properties".to_string(), JsonValue::Object(props)));
    match required {
        Some(req) => {
            m.push(("required".to_string(), str_array_of(req)));
        },
        None => {},
    }
    JsonValue::Object(m)
}

/// The function tool `name` described by `desc`, with `parameters`.
pub fn function_tool(name: &str, desc: &str, parameters: JsonValue) -> (r: ToolDefinition)
    ensures
        r.def_type@ == "function"@,
        r.function.name@ == name@,
        r.function.description@ == desc@,
        r.function.parameters == parameters,
{
    ToolDefinition {
        def_type: "function".to_string(),
        function: ToolFunction { name: name.to_string(), description: desc.to_string(), parameters },
    }
}

} // verus!
