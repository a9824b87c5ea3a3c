//! The chat-component model for server descriptions (MOTDs). A description
//! is one of three shapes: a component object, a list of components, or a raw
//! JSON primitive. `get_motd` concatenates the `text` fields, descending into
//! `extra`.

use crate::json::{obj_lookup, str_eq, Json};
use vstd::prelude::*;

verus! {

/// Click-event data of a chat component.
#[derive(Debug)]
pub struct ChatClickEvent {
    pub open_url: Option<String>,
    pub run_command: Option<String>,
    pub suggest_command: Option<String>,
    pub copy_to_clipboard: Option<String>,
}

/// Hover-event data of a chat component.
#[derive(Debug)]
pub struct ChatHoverEvent {
    pub show_text: Option<Box<ChatObject>>,
    pub value: Option<Box<ChatObject>>,
    pub show_item: Option<String>,
    pub show_entity: Option<String>,
}

/// One piece of a chat message.
#[derive(Debug)]
pub struct ChatComponentObject {
    pub text: Option<String>,
    pub translate: Option<String>,
    pub keybind: Option<String>,
    pub bold: Option<bool>,
    pub italic: Option<bool>,
    pub underlined: Option<bool>,
    pub strikethrough: Option<bool>,
    pub obfuscated: Option<bool>,
    pub font: Option<String>,
    pub color: Option<String>,
    pub insertion: Option<String>,
    pub click_event: Option<ChatClickEvent>,
    pub hover_event: Option<ChatHoverEvent>,
    pub extra: Option<Vec<ChatObject>>,
}

/// A chat object: a component, a list of chat objects, or a raw primitive.
#[derive(Debug)]
pub enum ChatObject {
    Object(ChatComponentObject),
    Array(Vec<ChatObject>),
    JsonPrimitive(Json),
}

/// The text a chat object displays: its own `text`, then the text of each
/// `extra` sibling in order; a raw primitive displays itself when it is a
/// string and nothing otherwise.
pub open spec fn motd_of(c: ChatObject) -> Seq<char>
    decreases c,
{
    match c {
        ChatObject::Object(o) => {
            let own = match o.text {
                Some(t) => t@,
                None => Seq::<char>::empty(),
            };
            let rest = match o.extra {
                Some(ex) => motd_concat(ex@),
                None => Seq::<char>::empty(),
            };
            own + rest
        },
        ChatObject::Array(v) => motd_concat(v@),
        ChatObject::JsonPrimitive(j) => match j {
            Json::Str(s) => s@,
            _ => Seq::<char>::empty(),
        },
    }
}

/// The concatenated text of a list of chat objects.
pub open spec fn motd_concat(v: Seq<ChatObject>) -> Seq<char>
    decreases v,
{
    if v.len() == 0 {
        Seq::<char>::empty()
    } else {
        motd_of(v[0]) + motd_concat(v.skip(1))
    }
}

impl ChatObject {
    /// The displayed text of this chat object.
    pub fn get_motd(&self) -> (r: String)
        ensures
            r@ == motd_of(*self),
        decreases *self,
    {
        match self {
            ChatObject::Object(o) => {
                let mut out = match &o.text {
                    Some(t) => t.clone(),
                    None => String::new(),
                };
                match &o.extra {
                    Some(ex) => {
                        let mut rest = get_motd_list(ex);
                        out.append(rest.as_str());
                    },
                    None => {},
                }
                out
            },
            ChatObject::Array(v) => get_motd_list(v),
            ChatObject::JsonPrimitive(j) => match j.as_str() {
                Some(s) => s.clone(),
                None => String::new(),
            },
        }
    }
}

// ------------------------------------------------------------------
// the displayed text of a raw description document
// ------------------------------------------------------------------
/// The text a raw JSON description displays, under the same three-shape rule
/// as `motd_of`: an object contributes its first `text` binding when it is a
/// string, then the text of its first `extra` binding when it is a list; a
/// list contributes its members in order; a bare string displays itself.
pub open spec fn json_motd(j: Json) -> Seq<char>
    decreases j, 1int,
{
    match j {
        Json::Obj(fields) => {
            let own = match obj_lookup(fields@, "text"@) {
                Some(t) => match t {
                    Json::Str(s) => s@,
                    _ => Seq::<char>::empty(),
                },
                None => Seq::<char>::empty(),
            };
            own + extra_motd_fields(fields@)
        },
        Json::Arr(items) => json_motd_concat(items@),
        Json::Str(s) => s@,
        _ => Seq::<char>::empty(),
    }
}

/// The text contributed by the first `extra` binding among `fields`.
pub open spec fn extra_motd_fields(fields: Seq<(String, Json)>) -> Seq<char>
    decreases fields, 0int,
{
    if fields.len() == 0 {
        Seq::<char>::empty()
    } else if fields[0].0@ == "extra"@ {
        match fields[0].1 {
            Json::Arr(items) => json_motd_concat(items@),
            _ => Seq::<char>::empty(),
        }
    } else {
        extra_motd_fields(fields.skip(1))
    }
}

/// The concatenated text of a list of raw JSON descriptions.
pub open spec fn json_motd_concat(v: Seq<Json>) -> Seq<char>
    decreases v, 1int,
{
    if v.len() == 0 {
        Seq::<char>::empty()
    } else {
        json_motd(v[0]) + json_motd_concat(v.skip(1))
    }
}

/// The first string bound to `key` among `fields`; `None` when the first
/// binding is not a string or no binding exists.
pub open spec fn str_field(fields: Seq<(String, Json)>, key: Seq<char>) -> Option<String> {
    match obj_lookup(fields, key) {
        Some(t) => match t {
            Json::Str(s) => Some(s),
            _ => None,
        },
        None => None,
    }
}

/// Find the first binding of `key` among `fields`.
fn lookup_field<'a>(fields: &'a Vec<(String, Json)>, key: &str) -> (r: Option<&'a Json>)
    ensures
        match r {
            Some(v) => obj_lookup(fields@, key@) == Some(*v),
            None => obj_lookup(fields@, key@) is None,
        },
{
    let n = fields.len();
    let mut i: usize = 0;
    proof {
        assert(fields@.skip(0) =~= fields@);
    }
    while i < n
        invariant
            0 <= i <= n,
            n == fields@.len(),
            obj_lookup(fields@, key@) == obj_lookup(fields@.skip(i as int), key@),
        decreases n - i,
    {
        proof {
            assert(fields@.skip(i as int).skip(1) =~= fields@.skip(i as int + 1));
            assert(fields@.skip(i as int)[0] == fields@[i as int]);
        }
        if str_eq(fields[i].0.as_str(), key) {
            return Some(&fields[i].1);
        }
        i = i + 1;
    }
    None
}

/// The first string bound to `key`, cloned out.
fn field_str(fields: &Vec<(String, Json)>, key: &str) -> (r: Option<String>)
    ensures
        r == str_field(fields@, key@),
{
    match lookup_field(fields, key) {
        Some(v) => match v {
            Json::Str(s) => Some(s.clone()),
            _ => None,
        },
        None => None,
    }
}

/// The first boolean bound to `key` among `fields`; `None` when the first
/// binding is not a boolean or no binding exists.
pub open spec fn bool_field(fields: Seq<(String, Json)>, key: Seq<char>) -> Option<bool> {
    match obj_lookup(fields, key) {
        Some(t) => match t {
            Json::Bool(b) => Some(b),
            _ => None,
        },
        None => None,
    }
}

/// The first boolean bound to `key`.
fn field_bool(fields: &Vec<(String, Json)>, key: &str) -> (r: Option<bool>)
    ensures
        r == bool_field(fields@, key@),
{
    match lookup_field(fields, key) {
        Some(v) => match v {
            Json::Bool(b) => Some(*b),
            _ => None,
        },
        None => None,
    }
}

/// Click-event data out of its JSON object: each field is the first string
/// bound to its key.
fn click_from_json(j: &Json) -> (r: Option<ChatClickEvent>)
    ensures
        match *j {
            Json::Obj(fields) => r matches Some(c) && c.open_url == str_field(
                fields@,
                "open_url"@,
            ) && c.run_command == str_field(fields@, "run_command"@) && c.suggest_command
                == str_field(fields@, "suggest_command"@) && c.copy_to_clipboard == str_field(
                fields@,
                "copy_to_clipboard"@,
            ),
            _ => r is None,
        },
{
    match j {
        Json::Obj(fields) => Some(
            ChatClickEvent {
                open_url: field_str(fields, "open_url"),
                run_command: field_str(fields, "run_command"),
                suggest_command: field_str(fields, "suggest_command"),
                copy_to_clipboard: field_str(fields, "copy_to_clipboard"),
            },
        ),
        _ => None,
    }
}

/// Hover-event data out of its JSON object: the tip fields keep their
/// displayed text, the item and entity fields their first bound strings.
fn hover_from_json(j: &Json) -> (r: Option<ChatHoverEvent>)
    ensures
        match *j {
            Json::Obj(fields) => r matches Some(h) && {
                &&& (match obj_lookup(fields@, "show_text"@) {
                    Some(v) => h.show_text matches Some(t) && motd_of(*t) == json_motd(v),
                    None => h.show_text is None,
                })
                &&& (match obj_lookup(fields@, "value"@) {
                    Some(v) => h.value matches Some(t) && motd_of(*t) == json_motd(v),
                    None => h.value is None,
                })
                &&& h.show_item == str_field(fields@, "show_item"@)
                &&& h.show_entity == str_field(fields@, "show_entity"@)
            },
            _ => r is None,
        },
    decreases *j, 0int,
{
    match j {
        Json::Obj(fields) => {
            let show_text = match lookup_field_index(fields, "show_text") {
                Some(i) => Some(Box::new(chat_from_json(&fields[i].1))),
                None => None,
            };
            let value = match lookup_field_index(fields, "value") {
                Some(i) => Some(Box::new(chat_from_json(&fields[i].1))),
                None => None,
            };
            Some(
                ChatHoverEvent {
                    show_text,
                    value,
                    show_item: field_str(fields, "show_item"),
                    show_entity: field_str(fields, "show_entity"),
                },
            )
        },
        _ => None,
    }
}

/// The index of the first binding of `key` among `fields`.
fn lookup_field_index(fields: &Vec<(String, Json)>, key: &str) -> (r: Option<usize>)
    ensures
        match r {
            Some(i) => i < fields@.len() && obj_lookup(fields@, key@) == Some(fields@[i as int].1),
            None => obj_lookup(fields@, key@) is None,
        },
{
    let n = fields.len();
    let mut i: usize = 0;
    proof {
        assert(fields@.skip(0) =~= fields@);
    }
    while i < n
        invariant
            0 <= i <= n,
            n == fields@.len(),
            obj_lookup(fields@, key@) == obj_lookup(fields@.skip(i as int), key@),
        decreases n - i,
    {
        proof {
            assert(fields@.skip(i as int).skip(1) =~= fields@.skip(i as int + 1));
            assert(fields@.skip(i as int)[0] == fields@[i as int]);
        }
        if str_eq(fields[i].0.as_str(), key) {
            return Some(i);
        }
        i = i + 1;
    }
    None
}

/// The chat objects under the first `extra` binding, converted; `None` when
/// no binding exists or the first one is not a list.
fn extra_from_fields(fields: &Vec<(String, Json)>) -> (r: Option<Vec<ChatObject>>)
    ensures
        (match r {
            Some(v) => motd_concat(v@),
            None => Seq::<char>::empty(),
        }) == extra_motd_fields(fields@),
    decreases *fields, 0int,
{
    let n = fields.len();
    let mut i: usize = 0;
    proof {
        assert(fields@.skip(0) =~= fields@);
    }
    while i < n
        invariant
            0 <= i <= n,
            n == fields@.len(),
            extra_motd_fields(fields@) == extra_motd_fields(fields@.skip(i as int)),
        decreases n - i,
    {
        proof {
            assert(fields@.skip(i as int).skip(1) =~= fields@.skip(i as int + 1));
            assert(fields@.skip(i as int)[0] == fields@[i as int]);
        }
        if str_eq(fields[i].0.as_str(), "extra") {
            match &fields[i].1 {
                Json::Arr(items) => {
                    return Some(chat_list_from_json(items));
                },
                _ => {
                    return None;
                },
            }
        }
        i = i + 1;
    }
    None
}

/// Convert a list of raw JSON descriptions.
fn chat_list_from_json(items: &Vec<Json>) -> (r: Vec<ChatObject>)
    ensures
        motd_concat(r@) == json_motd_concat(items@),
    decreases *items, 0int,
{
    let mut out: Vec<ChatObject> = Vec::new();
    let n = items.len();
    let mut i: usize = 0;
    proof {
        assert(items@.skip(0) =~= items@);
    }
    while i < n
        invariant
            0 <= i <= n,
            n == items@.len(),
            motd_concat(out@) + json_motd_concat(items@.skip(i as int)) == json_motd_concat(
                items@,
            ),
        decreases n - i,
    {
        proof {
            assert(items@.skip(i as int).skip(1) =~= items@.skip(i as int + 1));
            assert(items@.skip(i as int)[0] == items@[i as int]);
        }
        let piece = chat_from_json(&items[i]);
        let ghost old_out = out@;
        out.push(piece);
        proof {
            lemma_motd_concat_push(old_out, out@[out@.len() - 1]);
            assert(out@.drop_last() =~= old_out);
        }
        i = i + 1;
    }
    proof {
        assert(items@.skip(n as int) =~= Seq::<Json>::empty());
    }
    out
}

/// Appending one chat object extends the concatenated text by its own text.
proof fn lemma_motd_concat_push(v: Seq<ChatObject>, x: ChatObject)
    ensures
        motd_concat(v.push(x)) == motd_concat(v) + motd_of(x),
    decreases v,
{
    if v.len() == 0 {
        assert(v.push(x)[0] == x);
        assert(v.push(x).skip(1) =~= Seq::<ChatObject>::empty());
        assert(motd_concat(v.push(x)) == motd_of(x) + motd_concat(Seq::<ChatObject>::empty()));
        assert(motd_of(x) + Seq::<char>::empty() =~= motd_of(x));
        assert(motd_concat(v) + motd_of(x) =~= motd_of(x));
    } else {
        assert(v.push(x).skip(1) =~= v.skip(1).push(x));
        lemma_motd_concat_push(v.skip(1), x);
        assert(motd_concat(v.push(x)) =~= motd_concat(v) + motd_of(x));
    }
}

/// Convert a raw JSON description into the chat model, keeping the displayed
/// text: a JSON object becomes a component (text, styling and events pinned
/// field for field, extras converted in order), a JSON list a component
/// list, and anything else a raw primitive.
pub fn chat_from_json(j: &Json) -> (r: ChatObject)
    ensures
        motd_of(r) == json_motd(*j),
        *j matches Json::Obj(fields) ==> r matches ChatObject::Object(c) && {
            &&& c.text == str_field(fields@, "text"@)
            &&& c.translate == str_field(fields@, "translate"@)
            &&& c.keybind == str_field(fields@, "keybind"@)
            &&& c.bold == bool_field(fields@, "bold"@)
            &&& c.italic == bool_field(fields@, "italic"@)
            &&& c.underlined == bool_field(fields@, "underlined"@)
            &&& c.strikethrough == bool_field(fields@, "strikethrough"@)
            &&& c.obfuscated == bool_field(fields@, "obfuscated"@)
            &&& c.font == str_field(fields@, "font"@)
            &&& c.color == str_field(fields@, "color"@)
            &&& c.insertion == str_field(fields@, "insertion"@)
            &&& (match obj_lookup(fields@, "clickEvent"@) {
                Some(v) => match v {
                    Json::Obj(cf) => c.click_event matches Some(ce) && ce.open_url == str_field(
                        cf@,
                        "open_url"@,
                    ) && ce.run_command == str_field(cf@, "run_command"@) && ce.suggest_command
                        == str_field(cf@, "suggest_command"@) && ce.copy_to_clipboard == str_field(
                        cf@,
                        "copy_to_clipboard"@,
                    ),
                    _ => c.click_event is None,
                },
                None => c.click_event is None,
            })
            &&& (match obj_lookup(fields@, "hoverEvent"@) {
                Some(v) => match v {
                    Json::Obj(hf) => c.hover_event matches Some(he) && {
                        &&& (match obj_lookup(hf@, "show_text"@) {
                            Some(w) => he.show_text matches Some(t) && motd_of(*t) == json_motd(w),
                            None => he.show_text is None,
                        })
                        &&& (match obj_lookup(hf@, "value"@) {
                            Some(w) => he.value matches Some(t) && motd_of(*t) == json_motd(w),
                            None => he.value is None,
                        })
                        &&& he.show_item == str_field(hf@, "show_item"@)
                        &&& he.show_entity == str_field(hf@, "show_entity"@)
                    },
                    _ => c.hover_event is None,
                },
                None => c.hover_event is None,
            })
        },
    decreases *j, 1int,
{
    match j {
        Json::Obj(fields) => {
            let comp = ChatComponentObject {
                text: field_str(fields, "text"),
                translate: field_str(fields, "translate"),
                keybind: field_str(fields, "keybind"),
                bold: field_bool(fields, "bold"),
                italic: field_bool(fields, "italic"),
                underlined: field_bool(fields, "underlined"),
                strikethrough: field_bool(fields, "strikethrough"),
                obfuscated: field_bool(fields, "obfuscated"),
                font: field_str(fields, "font"),
                color: field_str(fields, "color"),
                insertion: field_str(fields, "insertion"),
                click_event: match lookup_field(fields, "clickEvent") {
                    Some(v) => click_from_json(v),
                    None => None,
                },
                hover_event: match lookup_field_index(fields, "hoverEvent") {
                    Some(i) => hover_from_json(&fields[i].1),
                    None => None,
                },
                extra: extra_from_fields(fields),
            };
            ChatObject::Object(comp)
        },
        Json::Arr(items) => ChatObject::Array(chat_list_from_json(items)),
        Json::Null => ChatObject::JsonPrimitive(Json::Null),
        Json::Bool(b) => ChatObject::JsonPrimitive(Json::Bool(*b)),
        Json::Int(x) => ChatObject::JsonPrimitive(Json::Int(*x)),
        Json::Str(s) => ChatObject::JsonPrimitive(Json::Str(s.clone())),
    }
}

/// The display text of a raw description document.
pub fn description_to_str(description: &Json) -> (r: String)
    ensures
        r@ == json_motd(*description),
{
    chat_from_json(description).get_motd()
}

/// The concatenated displayed text of a list of chat objects.
pub fn get_motd_list(v: &Vec<ChatObject>) -> (r: String)
    ensures
        r@ == motd_concat(v@),
    decreases *v,
{
    let mut out = String::new();
    let n = v.len();
    let mut i: usize = 0;
    proof {
        assert(v@.skip(0) =~= v@);
    }
    while i < n
        invariant
            0 <= i <= n,
            n == v@.len(),
            motd_concat(v@) == out@ + motd_concat(v@.skip(i as int)),
        decreases n - i,
    {
        proof {
            assert(v@.skip(i as int).skip(1) =~= v@.skip(i as int + 1));
            assert(v@.skip(i as int)[0] == v@[i as int]);
        }
        let piece = v[i].get_motd();
        out.append(piece.as_str());
        i = i + 1;
    }
    out
}

} // verus!
