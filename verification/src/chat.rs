//! The chat transcript: role-tagged messages, the append-only history they
//! live in, and the structured document the transcript is exported as.

use vstd::prelude::*;

verus! {

use crate::json::Json;
use crate::json::JsonV;
use crate::json::jviews;
use crate::json::jview_fields;
use crate::json::lemma_jviews_push;
use crate::json::lemma_jviews_props;
use crate::json::spec_parse_doc;
use crate::json::parse_json_text;
use crate::json::json_to_string;
use crate::json::spec_emit;
use crate::text::chars_to_string;
use crate::text::str_to_chars;

/// The mathematical shape of a message.
pub struct MessageV {
    pub role: Option<Seq<char>>,
    pub content: Option<Seq<char>>,
}

/// The view of an optional string.
pub open spec fn opt_str_view(o: Option<String>) -> Option<Seq<char>> {
    match o {
        Some(s) => Some(s@),
        None => None,
    }
}

/// One role-tagged message of the conversation.
pub struct Message {
    pub role: Option<String>,
    pub content: Option<String>,
}

impl View for Message {
    type V = MessageV;

    open spec fn view(&self) -> MessageV {
        MessageV { role: opt_str_view(self.role), content: opt_str_view(self.content) }
    }
}

/// Copies an optional string.
pub fn clone_opt_string(o: &Option<String>) -> (r: Option<String>)
    ensures
        opt_str_view(r) == opt_str_view(*o),
{
    match o {
        Some(s) => Some(s.clone()),
        None => None,
    }
}

/// Copies a message.
pub fn clone_message(m: &Message) -> (r: Message)
    ensures
        r@ == m@,
{
    Message { role: clone_opt_string(&m.role), content: clone_opt_string(&m.content) }
}

/// The ordered conversation history.
pub struct GptChat {
    messages: Vec<Message>,
}

impl View for GptChat {
    type V = Seq<MessageV>;

    closed spec fn view(&self) -> Seq<MessageV> {
        self.messages@.map_values(|m: Message| m@)
    }
}

/// What a transcript offers: creation, appending, undo of the last entry,
/// a copy of everything, and clearing.
pub trait History: View<V = Seq<MessageV>> + Sized {
    fn new() -> (r: GptChat)
        ensures
            r@ == Seq::<MessageV>::empty(),
    ;

    fn add(&mut self, message: Message)
        ensures
            final(self)@ == old(self)@.push(message@),
    ;

    fn pop(&mut self)
        ensures
            final(self)@ == (if old(self)@.len() > 0 {
                old(self)@.drop_last()
            } else {
                old(self)@
            }),
    ;

    fn get_all(&self) -> (r: Vec<Message>)
        ensures
            r@.len() == self@.len(),
            forall|i: int| 0 <= i < r@.len() ==> r@[i]@ == self@[i],
    ;

    fn flush(&mut self)
        ensures
            final(self)@ == Seq::<MessageV>::empty(),
    ;
}

impl History for GptChat {
    fn new() -> (r: GptChat)
        ensures
            r@ == Seq::<MessageV>::empty(),
    {
        let r = GptChat { messages: Vec::new() };
        proof {
            assert(r@ =~= Seq::<MessageV>::empty());
        }
        r
    }

    fn add(&mut self, message: Message) {
        let ghost mv = message@;
        self.messages.push(message);
        proof {
            assert(self@ =~= old(self)@.push(mv));
        }
    }

    fn pop(&mut self) {
        let _ = self.messages.pop();
        proof {
            if old(self)@.len() > 0 {
                assert(self@ =~= old(self)@.drop_last());
            } else {
                assert(self@ =~= old(self)@);
            }
        }
    }

    fn get_all(&self) -> (r: Vec<Message>) {
        let mut out: Vec<Message> = Vec::new();
        let n = self.messages.len();
        let mut i: usize = 0;
        while i < n
            invariant
                0 <= i <= n == self.messages@.len(),
                out@.len() == i,
                forall|k: int| 0 <= k < i ==> out@[k]@ == self@[k],
            decreases n - i,
        {
            out.push(clone_message(&self.messages[i]));
            i += 1;
        }
        out
    }

    fn flush(&mut self) {
        self.messages = Vec::new();
        proof {
            assert(self@ =~= Seq::<MessageV>::empty());
        }
    }
}

/// The document shape of one message: an object with its role and content,
/// each a string or null.
pub open spec fn spec_msg_json(m: MessageV) -> JsonV {
    JsonV::Obj(
        seq![
            (
                "role"@,
                match m.role {
                    Some(s) => JsonV::Str(s),
                    None => JsonV::Null,
                },
            ),
            (
                "content"@,
                match m.content {
                    Some(s) => JsonV::Str(s),
                    None => JsonV::Null,
                },
            ),
        ],
    )
}

/// The document shape of a whole transcript: the ordered array of its
/// messages.
pub open spec fn spec_transcript_json(msgs: Seq<MessageV>) -> JsonV {
    JsonV::Arr(msgs.map_values(|m: MessageV| spec_msg_json(m)))
}

/// The exported text of a transcript.
pub open spec fn spec_export(msgs: Seq<MessageV>) -> Seq<char> {
    spec_emit(spec_transcript_json(msgs))
}

/// The views of a vector of messages.
pub open spec fn msg_views(v: Seq<Message>) -> Seq<MessageV> {
    v.map_values(|m: Message| m@)
}

/// Builds the document value of one message.
pub fn message_to_json(m: &Message) -> (r: Json)
    ensures
        r.jview() == spec_msg_json(m@),
{
    let role = match &m.role {
        Some(s) => Json::Str(s.clone()),
        None => Json::Null,
    };
    let content = match &m.content {
        Some(s) => Json::Str(s.clone()),
        None => Json::Null,
    };
    let mut fields: Vec<(String, Json)> = Vec::new();
    fields.push(("role".to_owned(), role));
    fields.push(("content".to_owned(), content));
    let r = Json::Obj(fields);
    proof {
        crate::json::lemma_jview_fields_props(fields@);
        assert(r.jview()->Obj_0 =~= spec_msg_json(m@)->Obj_0);
    }
    r
}

/// Serialises a transcript to its exported document text.
pub fn export_transcript(messages: &Vec<Message>) -> (r: String)
    ensures
        r@ == spec_export(msg_views(messages@)),
{
    let mut items: Vec<Json> = Vec::new();
    let n = messages.len();
    let mut i: usize = 0;
    while i < n
        invariant
            0 <= i <= n == messages@.len(),
            jviews(items@).len() == i,
            forall|k: int| 0 <= k < i ==> jviews(items@)[k] == spec_msg_json(messages@[k]@),
        decreases n - i,
    {
        let ghost items0 = items@;
        let j = message_to_json(&messages[i]);
        items.push(j);
        proof {
            lemma_jviews_push(items0, items@[items0.len() as int]);
        }
        i += 1;
    }
    let doc = Json::Arr(items);
    proof {
        assert(doc.jview()->Arr_0 =~= spec_transcript_json(msg_views(messages@))->Arr_0);
    }
    json_to_string(&doc)
}

/// The first value held under `key`, if any.
pub open spec fn obj_get(fields: Seq<(Seq<char>, JsonV)>, key: Seq<char>) -> Option<JsonV>
    decreases fields.len(),
{
    if fields.len() == 0 {
        None
    } else if fields[0].0 == key {
        Some(fields[0].1)
    } else {
        obj_get(fields.drop_first(), key)
    }
}

/// What an optional string field decodes to: absent and null are `None`,
/// a string is itself, anything else is a type error.
pub open spec fn dec_opt_str(v: Option<JsonV>) -> Option<Option<Seq<char>>> {
    match v {
        None => Some(None),
        Some(JsonV::Null) => Some(None),
        Some(JsonV::Str(s)) => Some(Some(s)),
        Some(_) => None,
    }
}

/// What one message object decodes to.
pub open spec fn spec_decode_msg(v: JsonV) -> Option<MessageV> {
    match v {
        JsonV::Obj(fields) => {
            let role = dec_opt_str(obj_get(fields, "role"@));
            let content = dec_opt_str(obj_get(fields, "content"@));
            if role is Some && content is Some {
                Some(MessageV { role: role->0, content: content->0 })
            } else {
                None
            }
        },
        _ => None,
    }
}

/// What a sequence of message objects decodes to.
pub open spec fn spec_decode_msgs(items: Seq<JsonV>) -> Option<Seq<MessageV>>
    decreases items.len(),
{
    if items.len() == 0 {
        Some(Seq::empty())
    } else {
        match spec_decode_msg(items[0]) {
            None => None,
            Some(m) => match spec_decode_msgs(items.drop_first()) {
                None => None,
                Some(rest) => Some(seq![m] + rest),
            },
        }
    }
}

/// What a transcript document decodes to.
pub open spec fn spec_decode_transcript(v: JsonV) -> Option<Seq<MessageV>> {
    match v {
        JsonV::Arr(items) => spec_decode_msgs(items),
        _ => None,
    }
}

/// What re-parsing an exported transcript yields.
pub open spec fn spec_parse_transcript(s: Seq<char>) -> Option<Seq<MessageV>> {
    match spec_parse_doc(s) {
        None => None,
        Some(v) => spec_decode_transcript(v),
    }
}

/// Finds a key in a decoded object.
pub(crate) fn obj_get_exec<'a>(fields: &'a Vec<(String, Json)>, key: &str) -> (r: Option<&'a Json>)
    ensures
        match r {
            Some(j) => obj_get(jview_fields(fields@), key@) == Some(j.jview()),
            None => obj_get(jview_fields(fields@), key@) is None,
        },
{
    let n = fields.len();
    let mut i: usize = 0;
    proof {
        crate::json::lemma_jview_fields_props(fields@);
    }
    while i < n
        invariant
            0 <= i <= n == fields@.len(),
            jview_fields(fields@).len() == n,
            forall|k: int|
                0 <= k < n ==> jview_fields(fields@)[k] == (fields@[k].0@, fields@[k].1.jview()),
            forall|k: int| 0 <= k < i ==> fields@[k].0@ != key@,
        decreases n - i,
    {
        if crate::text::str_eq(fields[i].0.as_str(), key) {
            proof {
                lemma_obj_get_at(jview_fields(fields@), key@, i as int);
            }
            return Some(&fields[i].1);
        }
        i += 1;
    }
    proof {
        lemma_obj_get_missing(jview_fields(fields@), key@);
    }
    None
}

pub proof fn lemma_obj_get_at(fields: Seq<(Seq<char>, JsonV)>, key: Seq<char>, i: int)
    requires
        0 <= i < fields.len(),
        fields[i].0 == key,
        forall|k: int| 0 <= k < i ==> fields[k].0 != key,
    ensures
        obj_get(fields, key) == Some(fields[i].1),
    decreases i,
{
    if i > 0 {
        assert(fields.drop_first()[i - 1] == fields[i]);
        assert(forall|k: int| 0 <= k < i - 1 ==> fields.drop_first()[k] == fields[k + 1]);
        lemma_obj_get_at(fields.drop_first(), key, i - 1);
    }
}

pub proof fn lemma_obj_get_missing(fields: Seq<(Seq<char>, JsonV)>, key: Seq<char>)
    requires
        forall|k: int| 0 <= k < fields.len() ==> fields[k].0 != key,
    ensures
        obj_get(fields, key) is None,
    decreases fields.len(),
{
    if fields.len() > 0 {
        assert(forall|k: int|
            0 <= k < fields.drop_first().len() ==> fields.drop_first()[k] == fields[k + 1]);
        lemma_obj_get_missing(fields.drop_first(), key);
    }
}

/// Decodes an optional string field.
pub(crate) fn dec_opt_str_exec(v: Option<&Json>) -> (r: Option<Option<String>>)
    ensures
        match r {
            Some(o) => dec_opt_str(match v {
                Some(j) => Some(j.jview()),
                None => None,
            }) == Some(opt_str_view(o)),
            None => dec_opt_str(match v {
                Some(j) => Some(j.jview()),
                None => None,
            }) is None,
        },
{
    match v {
        None => Some(None),
        Some(Json::Null) => Some(None),
        Some(Json::Str(s)) => Some(Some(s.clone())),
        Some(_) => None,
    }
}

/// Decodes one message object.
pub fn decode_message(j: &Json) -> (r: Option<Message>)
    ensures
        match r {
            Some(m) => spec_decode_msg(j.jview()) == Some(m@),
            None => spec_decode_msg(j.jview()) is None,
        },
{
    match j {
        Json::Obj(fields) => {
            let role = match dec_opt_str_exec(obj_get_exec(fields, "role")) {
                Some(o) => o,
                None => {
                    return None;
                },
            };
            let content = match dec_opt_str_exec(obj_get_exec(fields, "content")) {
                Some(o) => o,
                None => {
                    return None;
                },
            };
            Some(Message { role, content })
        },
        _ => None,
    }
}

/// Decodes a transcript document.
#[verifier::loop_isolation(false)]
pub fn decode_transcript(j: &Json) -> (r: Option<Vec<Message>>)
    ensures
        match r {
            Some(ms) => spec_decode_transcript(j.jview()) == Some(msg_views(ms@)),
            None => spec_decode_transcript(j.jview()) is None,
        },
{
    match j {
        Json::Arr(items) => {
            proof {
                lemma_jviews_props(items@);
            }
            let ghost itemsv = jviews(items@);
            let mut out: Vec<Message> = Vec::new();
            let n = items.len();
            let mut i: usize = 0;
            proof {
                assert(itemsv.subrange(0, n as int) =~= itemsv);
                assert(msg_views(out@) =~= Seq::<MessageV>::empty());
                match spec_decode_msgs(itemsv) {
                    Some(rest) => {
                        assert(msg_views(out@) + rest =~= rest);
                    },
                    None => {},
                }
            }
            while i < n
                invariant
                    0 <= i <= n == items@.len(),
                    out@.len() == i,
                    match spec_decode_msgs(itemsv.subrange(i as int, n as int)) {
                        Some(rest) => spec_decode_msgs(itemsv) == Some(msg_views(out@) + rest),
                        None => spec_decode_msgs(itemsv) is None,
                    },
                decreases n - i,
            {
                match decode_message(&items[i]) {
                    None => {
                        proof {
                            assert(itemsv.subrange(i as int, n as int)[0] == itemsv[i as int]);
                        }
                        return None;
                    },
                    Some(m) => {
                        let ghost out0 = out@;
                        let ghost mv = m@;
                        out.push(m);
                        proof {
                            let tail = itemsv.subrange(i as int, n as int);
                            assert(tail[0] == itemsv[i as int]);
                            assert(tail.drop_first() =~= itemsv.subrange(i + 1, n as int));
                            assert(msg_views(out@) =~= msg_views(out0).push(mv));
                            match spec_decode_msgs(itemsv.subrange(i + 1, n as int)) {
                                Some(rest2) => {
                                    assert(spec_decode_msgs(tail) == Some(seq![mv] + rest2));
                                    assert(msg_views(out0) + (seq![mv] + rest2) =~= msg_views(out@)
                                        + rest2);
                                },
                                None => {},
                            }
                        }
                        i += 1;
                    },
                }
            }
            proof {
                assert(itemsv.subrange(n as int, n as int) =~= Seq::<JsonV>::empty());
                assert(spec_decode_msgs(Seq::<JsonV>::empty()) == Some(Seq::<MessageV>::empty()));
                assert(msg_views(out@) + Seq::<MessageV>::empty() =~= msg_views(out@));
            }
            Some(out)
        },
        _ => None,
    }
}

/// A transcript document never holds a number, so its canonical text
/// parses back.
pub proof fn lemma_transcript_emit_safe(msgs: Seq<MessageV>)
    ensures
        crate::json::emit_safe(spec_transcript_json(msgs)),
    decreases msgs.len(),
{
    let items = msgs.map_values(|m: MessageV| spec_msg_json(m));
    if msgs.len() == 0 {
        assert(items.len() == 0);
    } else {
        let m0 = msgs[0];
        let j0 = spec_msg_json(m0);
        assert(items[0] == j0);
        let fields = j0->Obj_0;
        assert(crate::json::emit_safe(fields[0].1));
        assert(crate::json::emit_safe(fields[1].1));
        assert(fields.subrange(1, 2)[0] == fields[1]);
        assert(fields.subrange(1, 2).subrange(1, 1) =~= Seq::<(Seq<char>, JsonV)>::empty());
        assert(crate::json::emit_safe_fields(fields.subrange(1, 2).subrange(1, 1)));
        assert(crate::json::emit_safe_fields(fields.subrange(1, 2)));
        assert(crate::json::emit_safe(j0));
        lemma_transcript_emit_safe(msgs.drop_first());
        let rest = msgs.drop_first().map_values(|m: MessageV| spec_msg_json(m));
        assert(items.subrange(1, items.len() as int) =~= rest);
        assert(crate::json::emit_safe_seq(items));
    }
}

/// One emitted message object decodes back to its message.
pub proof fn lemma_decode_msg_json(m: MessageV)
    ensures
        spec_decode_msg(spec_msg_json(m)) == Some(m),
{
    let fields = spec_msg_json(m)->Obj_0;
    reveal_strlit("role");
    reveal_strlit("content");
    assert(obj_get(fields, "role"@) == Some(fields[0].1));
    assert("role"@.len() == 4);
    assert("content"@.len() == 7);
    assert(fields[0].0 != "content"@);
    assert(fields.drop_first()[0] == fields[1]);
    assert(obj_get(fields.drop_first(), "content"@) == Some(fields[1].1));
}

/// An emitted transcript document decodes back to its messages.
pub proof fn lemma_decode_transcript_json(msgs: Seq<MessageV>)
    ensures
        spec_decode_transcript(spec_transcript_json(msgs)) == Some(msgs),
    decreases msgs.len(),
{
    let items = msgs.map_values(|m: MessageV| spec_msg_json(m));
    if msgs.len() == 0 {
        assert(items.len() == 0);
        assert(msgs =~= Seq::<MessageV>::empty());
    } else {
        lemma_decode_msg_json(msgs[0]);
        assert(items[0] == spec_msg_json(msgs[0]));
        lemma_decode_transcript_json(msgs.drop_first());
        let rest = msgs.drop_first().map_values(|m: MessageV| spec_msg_json(m));
        assert(items.drop_first() =~= rest);
        assert(spec_decode_msgs(rest) == Some(msgs.drop_first()));
        assert(seq![msgs[0]] + msgs.drop_first() =~= msgs);
    }
}

/// Round trip: re-parsing an exported transcript yields messages equal,
/// role and content, to the transcript at export time.
pub proof fn lemma_export_round_trip(msgs: Seq<MessageV>)
    ensures
        spec_parse_transcript(spec_export(msgs)) == Some(msgs),
{
    lemma_transcript_emit_safe(msgs);
    crate::json::lemma_parse_doc_emit(spec_transcript_json(msgs));
    lemma_decode_transcript_json(msgs);
}

/// The mathematical shape of one returned choice.
pub struct ChoiceV {
    pub message: Option<MessageV>,
    pub index: Option<int>,
    pub logprobs: Option<int>,
    pub finish_reason: Option<Seq<char>>,
}

/// The mathematical shape of the usage accounting.
pub struct UsageV {
    pub prompt_tokens: Option<int>,
    pub completion_tokens: Option<int>,
    pub total_tokens: Option<int>,
}

/// The mathematical shape of a successful chat response.
pub struct ChatResponseV {
    pub id: Seq<char>,
    pub object: Option<Seq<char>>,
    pub created_at: Option<int>,
    pub choices: Option<Seq<ChoiceV>>,
    pub usage: Option<UsageV>,
}

struct Choice {
    message: Option<Message>,
    index: Option<i32>,
    logprobs: Option<i32>,
    finish_reason: Option<String>,
}

struct Usage {
    prompt_tokens: Option<i32>,
    completion_tokens: Option<i32>,
    total_tokens: Option<i32>,
}

/// A successful body of the chat endpoint.
pub struct ChatCreateCompletionResponse {
    id: String,
    object: Option<String>,
    created_at: Option<i64>,
    choices: Option<Vec<Choice>>,
    usage: Option<Usage>,
}

pub open spec fn opt_int_view<T: Integer>(o: Option<T>) -> Option<int> {
    match o {
        Some(x) => Some(x as int),
        None => None,
    }
}

impl Choice {
    spec fn cview(self) -> ChoiceV {
        ChoiceV {
            message: match self.message {
                Some(m) => Some(m@),
                None => None,
            },
            index: opt_int_view(self.index),
            logprobs: opt_int_view(self.logprobs),
            finish_reason: opt_str_view(self.finish_reason),
        }
    }
}

impl Usage {
    spec fn uview(self) -> UsageV {
        UsageV {
            prompt_tokens: opt_int_view(self.prompt_tokens),
            completion_tokens: opt_int_view(self.completion_tokens),
            total_tokens: opt_int_view(self.total_tokens),
        }
    }
}

impl View for ChatCreateCompletionResponse {
    type V = ChatResponseV;

    closed spec fn view(&self) -> ChatResponseV {
        ChatResponseV {
            id: self.id@,
            object: opt_str_view(self.object),
            created_at: opt_int_view(self.created_at),
            choices: match self.choices {
                Some(cs) => Some(cs@.map_values(|c: Choice| c.cview())),
                None => None,
            },
            usage: match self.usage {
                Some(u) => Some(u.uview()),
                None => None,
            },
        }
    }
}

/// What an optional integer field decodes to, within the given bounds:
/// absent and null are `None`, an integer lexeme in range is its value,
/// anything else is a type error.
pub open spec fn dec_opt_int(v: Option<JsonV>, lo: int, hi: int) -> Option<Option<int>> {
    match v {
        None => Some(None),
        Some(JsonV::Null) => Some(None),
        Some(JsonV::Num(lex)) => match crate::num::spec_lex_int(lex) {
            Some(x) => if lo <= x <= hi {
                Some(Some(x))
            } else {
                None
            },
            None => None,
        },
        Some(_) => None,
    }
}

/// What one choice object decodes to.
pub open spec fn spec_decode_choice(v: JsonV) -> Option<ChoiceV> {
    match v {
        JsonV::Obj(fields) => {
            let message = match obj_get(fields, "message"@) {
                None => Some(None),
                Some(JsonV::Null) => Some(None),
                Some(mv) => match spec_decode_msg(mv) {
                    Some(m) => Some(Some(m)),
                    None => None,
                },
            };
            let index = dec_opt_int(obj_get(fields, "index"@), i32::MIN as int, i32::MAX as int);
            let logprobs = dec_opt_int(
                obj_get(fields, "logprobs"@),
                i32::MIN as int,
                i32::MAX as int,
            );
            let finish_reason = dec_opt_str(obj_get(fields, "finish_reason"@));
            if message is Some && index is Some && logprobs is Some && finish_reason is Some {
                Some(
                    ChoiceV {
                        message: message->0,
                        index: index->0,
                        logprobs: logprobs->0,
                        finish_reason: finish_reason->0,
                    },
                )
            } else {
                None
            }
        },
        _ => None,
    }
}

/// What a sequence of choice objects decodes to.
pub open spec fn spec_decode_choices(items: Seq<JsonV>) -> Option<Seq<ChoiceV>>
    decreases items.len(),
{
    if items.len() == 0 {
        Some(Seq::empty())
    } else {
        match spec_decode_choice(items[0]) {
            None => None,
            Some(c) => match spec_decode_choices(items.drop_first()) {
                None => None,
                Some(rest) => Some(seq![c] + rest),
            },
        }
    }
}

/// What the usage object decodes to.
pub open spec fn spec_decode_usage(v: JsonV) -> Option<UsageV> {
    match v {
        JsonV::Obj(fields) => {
            let p = dec_opt_int(
                obj_get(fields, "prompt_tokens"@),
                i32::MIN as int,
                i32::MAX as int,
            );
            let c = dec_opt_int(
                obj_get(fields, "completion_tokens"@),
                i32::MIN as int,
                i32::MAX as int,
            );
            let t = dec_opt_int(obj_get(fields, "total_tokens"@), i32::MIN as int, i32::MAX as int);
            if p is Some && c is Some && t is Some {
                Some(UsageV { prompt_tokens: p->0, completion_tokens: c->0, total_tokens: t->0 })
            } else {
                None
            }
        },
        _ => None,
    }
}

/// What a successful chat response document decodes to.  The `id` field is
/// required; the rest are optional.
pub open spec fn spec_decode_chat(v: JsonV) -> Option<ChatResponseV> {
    match v {
        JsonV::Obj(fields) => {
            let id = match obj_get(fields, "id"@) {
                Some(JsonV::Str(s)) => Some(s),
                _ => None,
            };
            let object = dec_opt_str(obj_get(fields, "object"@));
            let created_at = dec_opt_int(
                obj_get(fields, "created_at"@),
                i64::MIN as int,
                i64::MAX as int,
            );
            let choices = match obj_get(fields, "choices"@) {
                None => Some(None),
                Some(JsonV::Null) => Some(None),
                Some(JsonV::Arr(items)) => match spec_decode_choices(items) {
                    Some(cs) => Some(Some(cs)),
                    None => None,
                },
                Some(_) => None,
            };
            let usage = match obj_get(fields, "usage"@) {
                None => Some(None),
                Some(JsonV::Null) => Some(None),
                Some(uv) => match spec_decode_usage(uv) {
                    Some(u) => Some(Some(u)),
                    None => None,
                },
            };
            if id is Some && object is Some && created_at is Some && choices is Some && usage
                is Some {
                Some(
                    ChatResponseV {
                        id: id->0,
                        object: object->0,
                        created_at: created_at->0,
                        choices: choices->0,
                        usage: usage->0,
                    },
                )
            } else {
                None
            }
        },
        _ => None,
    }
}

/// Decodes an optional bounded integer field into an `i64`.
pub(crate) fn dec_opt_int_exec(v: Option<&Json>, lo: i64, hi: i64) -> (r: Option<Option<i64>>)
    ensures
        match r {
            Some(o) => dec_opt_int(
                match v {
                    Some(j) => Some(j.jview()),
                    None => None,
                },
                lo as int,
                hi as int,
            ) == Some(opt_int_view(o)),
            None => dec_opt_int(
                match v {
                    Some(j) => Some(j.jview()),
                    None => None,
                },
                lo as int,
                hi as int,
            ) is None,
        },
{
    match v {
        None => Some(None),
        Some(Json::Null) => Some(None),
        Some(Json::Num(lex)) => {
            let cs = str_to_chars(lex.as_str());
            match crate::num::lex_int_chars(&cs) {
                Some(x) => if lo <= x && x <= hi {
                    Some(Some(x))
                } else {
                    None
                },
                None => None,
            }
        },
        Some(_) => None,
    }
}

/// Decodes one choice object.
fn decode_choice(j: &Json) -> (r: Option<Choice>)
    ensures
        match r {
            Some(c) => spec_decode_choice(j.jview()) == Some(c.cview()),
            None => spec_decode_choice(j.jview()) is None,
        },
{
    match j {
        Json::Obj(fields) => {
            let message: Option<Message> = match obj_get_exec(fields, "message") {
                None => None,
                Some(Json::Null) => None,
                Some(mj) => match decode_message(mj) {
                    Some(m) => Some(m),
                    None => {
                        return None;
                    },
                },
            };
            let index: Option<i32> = match dec_opt_int_exec(
                obj_get_exec(fields, "index"),
                i32::MIN as i64,
                i32::MAX as i64,
            ) {
                Some(o) => match o {
                    Some(x) => Some(x as i32),
                    None => None,
                },
                None => {
                    return None;
                },
            };
            let logprobs: Option<i32> = match dec_opt_int_exec(
                obj_get_exec(fields, "logprobs"),
                i32::MIN as i64,
                i32::MAX as i64,
            ) {
                Some(o) => match o {
                    Some(x) => Some(x as i32),
                    None => None,
                },
                None => {
                    return None;
                },
            };
            let finish_reason: Option<String> = match dec_opt_str_exec(
                obj_get_exec(fields, "finish_reason"),
            ) {
                Some(o) => o,
                None => {
                    return None;
                },
            };
            Some(Choice { message, index, logprobs, finish_reason })
        },
        _ => None,
    }
}

/// Decodes the usage object.
fn decode_usage(j: &Json) -> (r: Option<Usage>)
    ensures
        match r {
            Some(u) => spec_decode_usage(j.jview()) == Some(u.uview()),
            None => spec_decode_usage(j.jview()) is None,
        },
{
    match j {
        Json::Obj(fields) => {
            let p: Option<i32> = match dec_opt_int_exec(
                obj_get_exec(fields, "prompt_tokens"),
                i32::MIN as i64,
                i32::MAX as i64,
            ) {
                Some(o) => match o {
                    Some(x) => Some(x as i32),
                    None => None,
                },
                None => {
                    return None;
                },
            };
            let c: Option<i32> = match dec_opt_int_exec(
                obj_get_exec(fields, "completion_tokens"),
                i32::MIN as i64,
                i32::MAX as i64,
            ) {
                Some(o) => match o {
                    Some(x) => Some(x as i32),
                    None => None,
                },
                None => {
                    return None;
                },
            };
            let t: Option<i32> = match dec_opt_int_exec(
                obj_get_exec(fields, "total_tokens"),
                i32::MIN as i64,
                i32::MAX as i64,
            ) {
                Some(o) => match o {
                    Some(x) => Some(x as i32),
                    None => None,
                },
                None => {
                    return None;
                },
            };
            Some(Usage { prompt_tokens: p, completion_tokens: c, total_tokens: t })
        },
        _ => None,
    }
}

/// Decodes a successful chat response document.
#[verifier::loop_isolation(false)]
pub fn decode_chat_response(j: &Json) -> (r: Option<ChatCreateCompletionResponse>)
    ensures
        match r {
            Some(c) => spec_decode_chat(j.jview()) == Some(c@),
            None => spec_decode_chat(j.jview()) is None,
        },
{
    match j {
        Json::Obj(fields) => {
            let id: String = match obj_get_exec(fields, "id") {
                Some(Json::Str(s)) => s.clone(),
                _ => {
                    return None;
                },
            };
            let object: Option<String> = match dec_opt_str_exec(obj_get_exec(fields, "object")) {
                Some(o) => o,
                None => {
                    return None;
                },
            };
            let created_at: Option<i64> = match dec_opt_int_exec(
                obj_get_exec(fields, "created_at"),
                i64::MIN,
                i64::MAX,
            ) {
                Some(o) => o,
                None => {
                    return None;
                },
            };
            let choices: Option<Vec<Choice>> = match obj_get_exec(fields, "choices") {
                None => None,
                Some(Json::Null) => None,
                Some(Json::Arr(items)) => {
                    proof {
                        lemma_jviews_props(items@);
                    }
                    let ghost itemsv = jviews(items@);
                    let mut out: Vec<Choice> = Vec::new();
                    let n = items.len();
                    let mut i: usize = 0;
                    proof {
                        assert(itemsv.subrange(0, n as int) =~= itemsv);
                        assert(choice_views(out@) =~= Seq::<ChoiceV>::empty());
                        match spec_decode_choices(itemsv) {
                            Some(rest) => {
                                assert(choice_views(out@) + rest =~= rest);
                            },
                            None => {},
                        }
                    }
                    while i < n
                        invariant
                            0 <= i <= n == items@.len(),
                            out@.len() == i,
                            match spec_decode_choices(itemsv.subrange(i as int, n as int)) {
                                Some(rest) => spec_decode_choices(itemsv) == Some(
                                    choice_views(out@) + rest,
                                ),
                                None => spec_decode_choices(itemsv) is None,
                            },
                        decreases n - i,
                    {
                        match decode_choice(&items[i]) {
                            None => {
                                proof {
                                    assert(itemsv.subrange(i as int, n as int)[0]
                                        == itemsv[i as int]);
                                }
                                return None;
                            },
                            Some(c) => {
                                let ghost out0 = out@;
                                let ghost cv = c.cview();
                                out.push(c);
                                proof {
                                    let tail = itemsv.subrange(i as int, n as int);
                                    assert(tail[0] == itemsv[i as int]);
                                    assert(tail.drop_first() =~= itemsv.subrange(i + 1, n as int));
                                    assert(choice_views(out@) =~= choice_views(out0).push(cv));
                                    match spec_decode_choices(itemsv.subrange(i + 1, n as int)) {
                                        Some(rest2) => {
                                            assert(spec_decode_choices(tail) == Some(
                                                seq![cv] + rest2,
                                            ));
                                            assert(choice_views(out0) + (seq![cv] + rest2)
                                                =~= choice_views(out@) + rest2);
                                        },
                                        None => {},
                                    }
                                }
                                i += 1;
                            },
                        }
                    }
                    proof {
                        assert(itemsv.subrange(n as int, n as int) =~= Seq::<JsonV>::empty());
                        assert(spec_decode_choices(Seq::<JsonV>::empty()) == Some(
                            Seq::<ChoiceV>::empty(),
                        ));
                        assert(choice_views(out@) + Seq::<ChoiceV>::empty() =~= choice_views(out@));
                    }
                    Some(out)
                },
                Some(_) => {
                    return None;
                },
            };
            let usage: Option<Usage> = match obj_get_exec(fields, "usage") {
                None => None,
                Some(Json::Null) => None,
                Some(uj) => match decode_usage(uj) {
                    Some(u) => Some(u),
                    None => {
                        return None;
                    },
                },
            };
            Some(ChatCreateCompletionResponse { id, object, created_at, choices, usage })
        },
        _ => None,
    }
}

/// The views of a vector of choices.
spec fn choice_views(v: Seq<Choice>) -> Seq<ChoiceV> {
    v.map_values(|c: Choice| c.cview())
}

/// The message of the first returned choice, if there is one.
pub open spec fn spec_first_reply(v: ChatResponseV) -> Option<MessageV> {
    match v.choices {
        Some(cs) => if cs.len() > 0 {
            cs[0].message
        } else {
            None
        },
        None => None,
    }
}

/// The displayed text of a chat response: the first choice's content with
/// blank lines dropped.
pub open spec fn spec_chat_output(v: ChatResponseV) -> Seq<char> {
    match spec_first_reply(v) {
        Some(m) => match m.content {
            Some(t) => crate::text::spec_output_text(t),
            None => Seq::empty(),
        },
        None => Seq::empty(),
    }
}

impl ChatCreateCompletionResponse {
    /// The reply text prepared for display.
    pub fn get_output(&self) -> (r: String)
        ensures
            r@ == spec_chat_output(self@),
    {
        match &self.choices {
            Some(cs) => {
                if cs.len() > 0 {
                    match &cs[0].message {
                        Some(m) => match &m.content {
                            Some(t) => crate::text::output_text(t.as_str()),
                            None => String::new(),
                        },
                        None => String::new(),
                    }
                } else {
                    String::new()
                }
            },
            None => String::new(),
        }
    }
}

/// What a response contributes to the transcript: the first choice's
/// message, appended on success.
pub trait MessageHistory: View<V = ChatResponseV> + Sized {
    fn save_messages(&self, history: &mut GptChat)
        ensures
            final(history)@ == old(history)@ + (match spec_first_reply(self@) {
                Some(m) => seq![m],
                None => Seq::<MessageV>::empty(),
            }),
    ;
}

impl MessageHistory for ChatCreateCompletionResponse {
    fn save_messages(&self, history: &mut GptChat) {
        match &self.choices {
            Some(cs) => {
                if cs.len() > 0 {
                    match &cs[0].message {
                        Some(m) => {
                            history.add(clone_message(m));
                            proof {
                                assert(history@ =~= old(history)@ + seq![
                                    spec_first_reply(self@)->0,
                                ]);
                            }
                        },
                        None => {
                            proof {
                                assert(history@ =~= old(history)@ + Seq::<MessageV>::empty());
                            }
                        },
                    }
                } else {
                    proof {
                        assert(history@ =~= old(history)@ + Seq::<MessageV>::empty());
                    }
                }
            },
            None => {
                proof {
                    assert(history@ =~= old(history)@ + Seq::<MessageV>::empty());
                }
            },
        }
    }
}

/// The mathematical shape of the service's error report.
pub struct ErrV {
    pub message: Seq<char>,
    pub kind: Seq<char>,
    pub param: Option<Seq<char>>,
    pub code: Option<Seq<char>>,
}

/// The error report inside an error envelope.  Its category field is named
/// `type` on the wire.
pub struct Error {
    pub message: String,
    pub kind: String,
    pub param: Option<String>,
    pub code: Option<String>,
}

impl View for Error {
    type V = ErrV;

    open spec fn view(&self) -> ErrV {
        ErrV {
            message: self.message@,
            kind: self.kind@,
            param: opt_str_view(self.param),
            code: opt_str_view(self.code),
        }
    }
}

/// The error envelope the service answers with instead of a completion.
pub struct ErrorResponse {
    pub error: Error,
}

impl View for ErrorResponse {
    type V = ErrV;

    open spec fn view(&self) -> ErrV {
        self.error@
    }
}

/// What the error report object decodes to: `message` and `type` are
/// required strings, `param` and `code` optional ones.
pub open spec fn spec_decode_err(v: JsonV) -> Option<ErrV> {
    match v {
        JsonV::Obj(fields) => {
            let message = match obj_get(fields, "message"@) {
                Some(JsonV::Str(s)) => Some(s),
                _ => None,
            };
            let kind = match obj_get(fields, "type"@) {
                Some(JsonV::Str(s)) => Some(s),
                _ => None,
            };
            let param = dec_opt_str(obj_get(fields, "param"@));
            let code = dec_opt_str(obj_get(fields, "code"@));
            if message is Some && kind is Some && param is Some && code is Some {
                Some(ErrV { message: message->0, kind: kind->0, param: param->0, code: code->0 })
            } else {
                None
            }
        },
        _ => None,
    }
}

/// What an error envelope decodes to: an object whose `error` field is a
/// well-formed error report.
pub open spec fn spec_decode_error_resp(v: JsonV) -> Option<ErrV> {
    match v {
        JsonV::Obj(fields) => match obj_get(fields, "error"@) {
            Some(ev) => spec_decode_err(ev),
            None => None,
        },
        _ => None,
    }
}

/// Decodes an error envelope.
pub fn decode_error_response(j: &Json) -> (r: Option<ErrorResponse>)
    ensures
        match r {
            Some(e) => spec_decode_error_resp(j.jview()) == Some(e@),
            None => spec_decode_error_resp(j.jview()) is None,
        },
{
    match j {
        Json::Obj(fields) => {
            let ej = match obj_get_exec(fields, "error") {
                Some(ej) => ej,
                None => {
                    return None;
                },
            };
            match ej {
                Json::Obj(efields) => {
                    let message: String = match obj_get_exec(efields, "message") {
                        Some(Json::Str(s)) => s.clone(),
                        _ => {
                            return None;
                        },
                    };
                    let kind: String = match obj_get_exec(efields, "type") {
                        Some(Json::Str(s)) => s.clone(),
                        _ => {
                            return None;
                        },
                    };
                    let param: Option<String> = match dec_opt_str_exec(
                        obj_get_exec(efields, "param"),
                    ) {
                        Some(o) => o,
                        None => {
                            return None;
                        },
                    };
                    let code: Option<String> = match dec_opt_str_exec(
                        obj_get_exec(efields, "code"),
                    ) {
                        Some(o) => o,
                        None => {
                            return None;
                        },
                    };
                    Some(ErrorResponse { error: Error { message, kind, param, code } })
                },
                _ => None,
            }
        },
        _ => None,
    }
}

impl ErrorResponse {
    /// The error prepared for display: its category, then its message.
    pub fn get_output(&self) -> (r: String)
        ensures
            r@ == self@.kind + ": "@ + self@.message,
    {
        let mut out: Vec<char> = Vec::new();
        let kc = str_to_chars(self.error.kind.as_str());
        crate::text::push_chars(&mut out, &kc);
        out.push(':');
        out.push(' ');
        let mc = str_to_chars(self.error.message.as_str());
        crate::text::push_chars(&mut out, &mc);
        proof {
            reveal_strlit(": ");
            assert(out@ =~= self@.kind + ": "@ + self@.message);
        }
        chars_to_string(&out)
    }
}

/// Either shape a chat response body can take.
pub enum Response {
    ChatCreateCompletion(ChatCreateCompletionResponse),
    Error(ErrorResponse),
}

/// Reads a chat response body and tells its two shapes apart: a body whose
/// `error` field decodes as an error report is the error envelope, and
/// anything else must decode as a successful completion.
pub fn parse_chat_response(response: String) -> (r: Result<Response, crate::err::ApiError>)
    ensures
        match r {
            Ok(Response::Error(e)) => spec_parse_doc(response@) matches Some(v)
                && spec_decode_error_resp(v) == Some(e@),
            Ok(Response::ChatCreateCompletion(c)) => spec_parse_doc(response@) matches Some(v)
                && spec_decode_error_resp(v) is None && spec_decode_chat(v) == Some(c@),
            Err(e) => e.kind == crate::err::ErrorKind::Parse && (spec_parse_doc(response@) is None
                || (spec_decode_error_resp(spec_parse_doc(response@)->0) is None
                && spec_decode_chat(spec_parse_doc(response@)->0) is None)),
        },
{
    match parse_json_text(response.as_str()) {
        None => Err(crate::err::ApiError::parse("the response body is not a well-formed document")),
        Some(j) => {
            match decode_error_response(&j) {
                Some(e) => Ok(Response::Error(e)),
                None => match decode_chat_response(&j) {
                    Some(c) => Ok(Response::ChatCreateCompletion(c)),
                    None => Err(
                        crate::err::ApiError::parse(
                            "the response body matches neither expected shape",
                        ),
                    ),
                },
            }
        },
    }
}

/// The mathematical shape of a chat request.
pub struct ChatParamsV {
    pub model: Option<Seq<char>>,
    pub messages: Option<Seq<MessageV>>,
    pub temperature: Option<int>,
    pub max_tokens: Option<int>,
}

/// What a chat request carries: the model, the whole transcript, and the
/// sampling settings.  The temperature is held in thousandths of the unit
/// interval.
pub struct ChatCreateCompletionParams {
    pub model: Option<String>,
    pub messages: Option<Vec<Message>>,
    pub temperature: Option<u32>,
    pub max_tokens: Option<i32>,
}

impl View for ChatCreateCompletionParams {
    type V = ChatParamsV;

    open spec fn view(&self) -> ChatParamsV {
        ChatParamsV {
            model: opt_str_view(self.model),
            messages: match self.messages {
                Some(ms) => Some(msg_views(ms@)),
                None => None,
            },
            temperature: opt_int_view(self.temperature),
            max_tokens: opt_int_view(self.max_tokens),
        }
    }
}

/// The document shape of a chat request body.
pub open spec fn spec_chat_params_json(p: ChatParamsV) -> JsonV {
    JsonV::Obj(
        seq![
            (
                "model"@,
                match p.model {
                    Some(s) => JsonV::Str(s),
                    None => JsonV::Null,
                },
            ),
            (
                "messages"@,
                match p.messages {
                    Some(ms) => spec_transcript_json(ms),
                    None => JsonV::Null,
                },
            ),
            (
                "temperature"@,
                match p.temperature {
                    Some(t) => JsonV::Num(crate::num::spec_temp_str(t)),
                    None => JsonV::Null,
                },
            ),
            (
                "max_tokens"@,
                match p.max_tokens {
                    Some(n) => JsonV::Num(crate::num::spec_int_str(n)),
                    None => JsonV::Null,
                },
            ),
        ],
    )
}

/// The exact body text of a chat request.
pub open spec fn spec_chat_body(p: ChatParamsV) -> Seq<char> {
    spec_emit(spec_chat_params_json(p))
}

impl ChatCreateCompletionParams {
    /// Builds the outbound body for the chat endpoint.
    pub fn to_body(&self) -> (r: String)
        requires
            self.temperature matches Some(t) ==> t <= 1000,
        ensures
            r@ == spec_chat_body(self@),
    {
        let model = match &self.model {
            Some(s) => Json::Str(s.clone()),
            None => Json::Null,
        };
        let messages = match &self.messages {
            Some(ms) => {
                let mut items: Vec<Json> = Vec::new();
                let n = ms.len();
                let mut i: usize = 0;
                while i < n
                    invariant
                        0 <= i <= n == ms@.len(),
                        jviews(items@).len() == i,
                        forall|k: int|
                            0 <= k < i ==> jviews(items@)[k] == spec_msg_json(ms@[k]@),
                    decreases n - i,
                {
                    let ghost items0 = items@;
                    let jm = message_to_json(&ms[i]);
                    items.push(jm);
                    proof {
                        lemma_jviews_push(items0, items@[items0.len() as int]);
                    }
                    i += 1;
                }
                let arr = Json::Arr(items);
                proof {
                    assert(arr.jview()->Arr_0 =~= spec_transcript_json(msg_views(ms@))->Arr_0);
                }
                arr
            },
            None => Json::Null,
        };
        let temperature = match &self.temperature {
            Some(t) => Json::Num(chars_to_string(&crate::num::temp_to_chars(*t))),
            None => Json::Null,
        };
        let max_tokens = match &self.max_tokens {
            Some(n) => Json::Num(chars_to_string(&crate::num::i32_to_chars(*n))),
            None => Json::Null,
        };
        let mut fields: Vec<(String, Json)> = Vec::new();
        fields.push(("model".to_owned(), model));
        fields.push(("messages".to_owned(), messages));
        fields.push(("temperature".to_owned(), temperature));
        fields.push(("max_tokens".to_owned(), max_tokens));
        let doc = Json::Obj(fields);
        proof {
            crate::json::lemma_jview_fields_props(fields@);
            assert(doc.jview()->Obj_0 =~= spec_chat_params_json(self@)->Obj_0);
        }
        json_to_string(&doc)
    }
}

/// The message a submitted prompt becomes.
pub open spec fn spec_user_msg(prompt: Seq<char>) -> MessageV {
    MessageV { role: Some("user"@), content: Some(prompt) }
}

/// Wraps the prompt buffer into the user's next message.
pub fn generate_message_from_prompt(prompt: &str) -> (r: Message)
    ensures
        r@ == spec_user_msg(prompt@),
{
    Message { role: Some("user".to_owned()), content: Some(prompt.to_owned()) }
}

/// Re-parses an exported transcript document.
pub fn parse_transcript(s: &str) -> (r: Option<Vec<Message>>)
    ensures
        match r {
            Some(ms) => spec_parse_transcript(s@) == Some(msg_views(ms@)),
            None => spec_parse_transcript(s@) is None,
        },
{
    match parse_json_text(s) {
        None => None,
        Some(j) => decode_transcript(&j),
    }
}

} // verus!
