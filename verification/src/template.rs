//! The template resolver: renders a template string against a context
//! built from every frame on the navigation stack, keyed by each frame's
//! definition id. The context is assembled as a JSON value whose ghost
//! model the contracts speak of; only the final rendering call is trusted.

use vstd::prelude::*;

use crate::item::{joined_line, Item};
use crate::state::{clamp_sel, Frame};

verus! {

/// Rendering failure, carrying the engine's message.
#[derive(Debug)]
pub enum TemplateError {
    Render(String),
}

/// The ghost model of a JSON value handed to the templating engine.
pub enum JsonNode {
    Null,
    Str(Seq<char>),
    Arr(Seq<JsonNode>),
    Obj(Map<Seq<char>, JsonNode>),
}

#[verifier::external_type_specification]
#[verifier::external_body]
pub struct ExValue(serde_json::Value);

/// What a JSON value holds, as the ghost model above.
pub uninterp spec fn json_model(v: serde_json::Value) -> JsonNode;

/// What the templating engine returns for a template and a context: a
/// function of the two alone.
pub uninterp spec fn render_of(tpl: Seq<char>, data: JsonNode) -> Result<Seq<char>, Seq<char>>;

/// Relies on `serde_json::Value::Object` over `serde_json::Map::new`: the
/// empty JSON object.
#[verifier::external_body]
fn obj_new() -> (r: serde_json::Value)
    ensures
        json_model(r) == JsonNode::Obj(Map::<Seq<char>, JsonNode>::empty()),
{
    serde_json::Value::Object(serde_json::Map::new())
}

/// Relies on `serde_json::Map::insert` through `Value::as_object_mut`:
/// adds the key or replaces its value.
#[verifier::external_body]
fn obj_insert(obj: &mut serde_json::Value, key: &str, val: serde_json::Value)
    requires
        json_model(*old(obj)) matches JsonNode::Obj(_),
    ensures
        json_model(*final(obj)) == JsonNode::Obj(
            json_model(*old(obj))->Obj_0.insert(key@, json_model(val)),
        ),
{
    obj.as_object_mut().unwrap().insert(key.to_string(), val);
}

/// Relies on `serde_json::Value::String`: a JSON string of exactly the
/// given text.
#[verifier::external_body]
fn str_value(s: &str) -> (r: serde_json::Value)
    ensures
        json_model(r) == JsonNode::Str(s@),
{
    serde_json::Value::String(s.to_string())
}

/// Relies on `serde_json::Value::Array` over an empty vector: the empty
/// JSON array.
#[verifier::external_body]
fn arr_new() -> (r: serde_json::Value)
    ensures
        json_model(r) == JsonNode::Arr(Seq::<JsonNode>::empty()),
{
    serde_json::Value::Array(Vec::new())
}

/// Relies on `Vec::push` through `Value::as_array_mut`: appends one JSON
/// string to the array.
#[verifier::external_body]
fn arr_push_str(arr: &mut serde_json::Value, s: &str)
    requires
        json_model(*old(arr)) matches JsonNode::Arr(_),
    ensures
        json_model(*final(arr)) == JsonNode::Arr(
            json_model(*old(arr))->Arr_0.push(JsonNode::Str(s@)),
        ),
{
    arr.as_array_mut().unwrap().push(serde_json::Value::String(s.to_string()));
}

/// Relies on `handlebars::Handlebars::render_template` on a fresh registry
/// with escaping turned off: the outcome, success or failure, depends on
/// the template text and the context value alone.
#[verifier::external_body]
fn hb_render(tpl: &str, data: &serde_json::Value) -> (r: Result<String, String>)
    ensures
        r is Ok <==> render_of(tpl@, json_model(*data)) is Ok,
        r matches Ok(s) ==> s@ == render_of(tpl@, json_model(*data))->Ok_0,
        r matches Err(e) ==> e@ == render_of(tpl@, json_model(*data))->Err_0,
{
    let mut hb = handlebars::Handlebars::new();
    hb.register_escape_fn(handlebars::no_escape);
    hb.render_template(tpl, data).map_err(|e| e.to_string())
}

/// The item a frame's selection rests on: the selected filtered item, or
/// none when nothing is filtered.
pub open spec fn sel_of(f: Frame) -> Option<Item> {
    let len = f.filtered_items@.len() as int;
    if len == 0 {
        None
    } else {
        Some(f.filtered_items@[clamp_sel(len, f.selected_idx as int)])
    }
}

/// The ghost model of a frame's selection record: the three item fields,
/// the raw field array, and the tab-joined line — all empty when nothing
/// is selected.
pub open spec fn sel_node(sel: Option<Item>) -> JsonNode {
    match sel {
        Some(it) => JsonNode::Obj(
            map![
                "type"@ => JsonNode::Str(it.item_type@),
                "label"@ => JsonNode::Str(it.name@),
                "data"@ => JsonNode::Str(it.data@),
                "fields"@ => JsonNode::Arr(
                    seq![
                        JsonNode::Str(it.item_type@),
                        JsonNode::Str(it.name@),
                        JsonNode::Str(it.data@),
                    ],
                ),
                "raw"@ => JsonNode::Str(joined_line(it.item_type@, it.name@, it.data@)),
            ],
        ),
        None => JsonNode::Obj(
            map![
                "type"@ => JsonNode::Str(Seq::<char>::empty()),
                "label"@ => JsonNode::Str(Seq::<char>::empty()),
                "data"@ => JsonNode::Str(Seq::<char>::empty()),
                "fields"@ => JsonNode::Arr(Seq::<JsonNode>::empty()),
                "raw"@ => JsonNode::Str(Seq::<char>::empty()),
            ],
        ),
    }
}

/// The ghost model of one frame's context record.
pub open spec fn frame_node(f: Frame) -> JsonNode {
    JsonNode::Obj(
        map![
            "selection"@ => sel_node(sel_of(f)),
            "query"@ => JsonNode::Str(f.query@),
            "spellId"@ => JsonNode::Str(f.spell_id@),
        ],
    )
}

/// The context map over a stack of frames, keyed by definition id; a later
/// frame with the same id wins.
pub open spec fn frames_ctx(frames: Seq<Frame>) -> Map<Seq<char>, JsonNode>
    decreases frames.len(),
{
    if frames.len() == 0 {
        Map::<Seq<char>, JsonNode>::empty()
    } else {
        frames_ctx(frames.drop_last()).insert(
            frames.last().spell_id@,
            frame_node(frames.last()),
        )
    }
}

/// The whole context value a template is rendered against.
pub open spec fn template_data(frames: Seq<Frame>) -> JsonNode {
    JsonNode::Obj(map!["context"@ => JsonNode::Obj(frames_ctx(frames))])
}

/// The three item fields of a frame's selection as plain strings, all
/// empty when nothing is selected.
pub struct SelectionContext {
    pub kind: String,
    pub label: String,
    pub data: String,
    pub fields: Vec<String>,
    pub raw: String,
}

impl SelectionContext {
    /// Builds the selection record for an optional item.
    pub fn from_item(item: Option<&Item>) -> (r: Self)
        ensures
            item matches Some(it) ==> {
                &&& r.kind@ == it.item_type@
                &&& r.label@ == it.name@
                &&& r.data@ == it.data@
                &&& r.fields@.len() == 3
                &&& r.fields@[0]@ == it.item_type@
                &&& r.fields@[1]@ == it.name@
                &&& r.fields@[2]@ == it.data@
                &&& r.raw@ == joined_line(it.item_type@, it.name@, it.data@)
            },
            item is None ==> {
                &&& r.kind@ == Seq::<char>::empty()
                &&& r.label@ == Seq::<char>::empty()
                &&& r.data@ == Seq::<char>::empty()
                &&& r.fields@.len() == 0
                &&& r.raw@ == Seq::<char>::empty()
            },
    {
        match item {
            Some(value) => {
                let mut fields: Vec<String> = Vec::new();
                fields.push(value.item_type.clone());
                fields.push(value.name.clone());
                fields.push(value.data.clone());
                SelectionContext {
                    kind: value.item_type.clone(),
                    label: value.name.clone(),
                    data: value.data.clone(),
                    fields,
                    raw: value.raw(),
                }
            },
            None => SelectionContext {
                kind: String::new(),
                label: String::new(),
                data: String::new(),
                fields: Vec::new(),
                raw: String::new(),
            },
        }
    }
}

/// The frame's currently selected filtered item, if any.
pub fn selected_item(frame: &Frame) -> (r: Option<&Item>)
    ensures
        r is Some <==> sel_of(*frame) is Some,
        r matches Some(it) ==> *it == sel_of(*frame)->Some_0,
{
    let len = frame.filtered_items.len();
    if len == 0 {
        return None;
    }
    let idx = if frame.selected_idx < len {
        frame.selected_idx
    } else {
        len - 1
    };
    Some(&frame.filtered_items[idx])
}

/// Assembles the JSON context record of one frame.
fn frame_value(frame: &Frame) -> (r: serde_json::Value)
    ensures
        json_model(r) == frame_node(*frame),
{
    proof {
        reveal_strlit("type");
        reveal_strlit("label");
        reveal_strlit("data");
        reveal_strlit("fields");
        reveal_strlit("raw");
        reveal_strlit("selection");
        reveal_strlit("query");
        reveal_strlit("spellId");
    }
    let sel = selected_item(frame);
    let sc = SelectionContext::from_item(sel);
    let mut fields = arr_new();
    let m = sc.fields.len();
    let mut k: usize = 0;
    proof {
        assert(Seq::new(0nat, |i: int| JsonNode::Str(sc.fields@[i]@)) =~= Seq::<JsonNode>::empty());
    }
    while k < m
        invariant
            0 <= k <= m,
            m == sc.fields@.len(),
            json_model(fields) == JsonNode::Arr(
                Seq::new(k as nat, |i: int| JsonNode::Str(sc.fields@[i]@)),
            ),
        decreases m - k,
    {
        arr_push_str(&mut fields, sc.fields[k].as_str());
        proof {
            assert(Seq::new((k + 1) as nat, |i: int| JsonNode::Str(sc.fields@[i]@)) =~= Seq::new(
                k as nat,
                |i: int| JsonNode::Str(sc.fields@[i]@),
            ).push(JsonNode::Str(sc.fields@[k as int]@)));
        }
        k += 1;
    }
    let mut sel_obj = obj_new();
    obj_insert(&mut sel_obj, "type", str_value(sc.kind.as_str()));
    obj_insert(&mut sel_obj, "label", str_value(sc.label.as_str()));
    obj_insert(&mut sel_obj, "data", str_value(sc.data.as_str()));
    obj_insert(&mut sel_obj, "fields", fields);
    obj_insert(&mut sel_obj, "raw", str_value(sc.raw.as_str()));
    proof {
        let built = json_model(sel_obj)->Obj_0;
        let want = sel_node(sel_of(*frame))->Obj_0;
        match sel_of(*frame) {
            Some(it) => {
                assert(Seq::new(3nat, |i: int| JsonNode::Str(sc.fields@[i]@)) =~= seq![
                    JsonNode::Str(it.item_type@),
                    JsonNode::Str(it.name@),
                    JsonNode::Str(it.data@),
                ]);
                assert(built =~= want);
            },
            None => {
                assert(Seq::new(0nat, |i: int| JsonNode::Str(sc.fields@[i]@)) =~= Seq::<
                    JsonNode,
                >::empty());
                assert(built =~= want);
            },
        }
        assert(json_model(sel_obj) == sel_node(sel_of(*frame)));
    }
    let mut fr = obj_new();
    obj_insert(&mut fr, "selection", sel_obj);
    obj_insert(&mut fr, "query", str_value(frame.query.as_str()));
    obj_insert(&mut fr, "spellId", str_value(frame.spell_id.as_str()));
    proof {
        assert(json_model(fr)->Obj_0 =~= frame_node(*frame)->Obj_0);
    }
    fr
}

/// Assembles the context map over the whole stack, bottom to top.
pub fn build_context(frames: &Vec<Frame>) -> (r: serde_json::Value)
    ensures
        json_model(r) == JsonNode::Obj(frames_ctx(frames@)),
{
    let mut ctx = obj_new();
    let n = frames.len();
    let mut i: usize = 0;
    proof {
        assert(frames@.subrange(0, 0) =~= Seq::<Frame>::empty());
    }
    while i < n
        invariant
            0 <= i <= n,
            n == frames@.len(),
            json_model(ctx) == JsonNode::Obj(frames_ctx(frames@.subrange(0, i as int))),
        decreases n - i,
    {
        let fv = frame_value(&frames[i]);
        obj_insert(&mut ctx, frames[i].spell_id.as_str(), fv);
        proof {
            let pre = frames@.subrange(0, i as int);
            let post = frames@.subrange(0, i + 1);
            assert(post.drop_last() =~= pre);
            assert(post.last() == frames@[i as int]);
        }
        i += 1;
    }
    proof {
        assert(frames@.subrange(0, n as int) =~= frames@);
    }
    ctx
}

/// Renders a template against the stack's context. The result — rendered
/// text or the engine's failure message — is exactly what the engine
/// returns for this template and context.
pub fn resolve_template(template: &str, frames: &Vec<Frame>) -> (r: Result<String, TemplateError>)
    ensures
        r is Ok <==> render_of(template@, template_data(frames@)) is Ok,
        r matches Ok(s) ==> s@ == render_of(template@, template_data(frames@))->Ok_0,
        r matches Err(e) ==> ({
            &&& e matches TemplateError::Render(m)
            &&& m@ == render_of(template@, template_data(frames@))->Err_0
        }),
{
    proof {
        reveal_strlit("context");
    }
    let ctx = build_context(frames);
    let mut root = obj_new();
    obj_insert(&mut root, "context", ctx);
    proof {
        assert(json_model(root)->Obj_0 =~= template_data(frames@)->Obj_0);
    }
    match hb_render(template, &root) {
        Ok(s) => Ok(s),
        Err(e) => Err(TemplateError::Render(e)),
    }
}

} // verus!
