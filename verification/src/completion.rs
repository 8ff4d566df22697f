//! The single-shot completion endpoint: its request parameters, its
//! response shape, and the decoding of response bodies.

use vstd::prelude::*;

verus! {

use crate::json::Json;
use crate::json::JsonV;
use crate::json::jviews;
use crate::json::lemma_jviews_push;
use crate::json::lemma_jviews_props;
use crate::json::spec_parse_doc;
use crate::json::parse_json_text;
use crate::json::json_to_string;
use crate::json::spec_emit;
use crate::chat::obj_get;
use crate::chat::obj_get_exec;
use crate::chat::dec_opt_str;
use crate::chat::opt_int_view;
use crate::text::chars_to_string;
use crate::text::str_to_chars;
use crate::err::ApiError;
use crate::err::ErrorKind;

/// The mathematical shape of a completion request.
pub struct CompletionParamsV {
    pub model: Seq<char>,
    pub max_tokens: int,
    pub temperature: int,
    pub prompt: Seq<Seq<char>>,
}

/// What a completion request carries.  The temperature is held in
/// thousandths of the unit interval.
pub struct CodeCompletionCreateParams {
    pub model: String,
    pub max_tokens: i32,
    pub temperature: u32,
    pub prompt: Vec<String>,
}

impl View for CodeCompletionCreateParams {
    type V = CompletionParamsV;

    open spec fn view(&self) -> CompletionParamsV {
        CompletionParamsV {
            model: self.model@,
            max_tokens: self.max_tokens as int,
            temperature: self.temperature as int,
            prompt: self.prompt@.map_values(|s: String| s@),
        }
    }
}

/// The document shape of a completion request body.
pub open spec fn spec_completion_params_json(p: CompletionParamsV) -> JsonV {
    JsonV::Obj(
        seq![
            ("model"@, JsonV::Str(p.model)),
            ("prompt"@, JsonV::Arr(p.prompt.map_values(|s: Seq<char>| JsonV::Str(s)))),
            ("temperature"@, JsonV::Num(crate::num::spec_temp_str(p.temperature))),
            ("max_tokens"@, JsonV::Num(crate::num::spec_int_str(p.max_tokens))),
        ],
    )
}

/// The exact body text of a completion request.
pub open spec fn spec_completion_body(p: CompletionParamsV) -> Seq<char> {
    spec_emit(spec_completion_params_json(p))
}

impl CodeCompletionCreateParams {
    /// Builds the outbound body for the completion endpoint.
    pub fn to_body(&self) -> (r: String)
        requires
            self.temperature <= 1000,
        ensures
            r@ == spec_completion_body(self@),
    {
        let mut items: Vec<Json> = Vec::new();
        let n = self.prompt.len();
        let mut i: usize = 0;
        while i < n
            invariant
                0 <= i <= n == self.prompt@.len(),
                jviews(items@).len() == i,
                forall|k: int| 0 <= k < i ==> jviews(items@)[k] == JsonV::Str(self.prompt@[k]@),
            decreases n - i,
        {
            let ghost items0 = items@;
            items.push(Json::Str(self.prompt[i].clone()));
            proof {
                lemma_jviews_push(items0, items@[items0.len() as int]);
            }
            i += 1;
        }
        let arr = Json::Arr(items);
        proof {
            assert(arr.jview()->Arr_0 =~= spec_completion_params_json(self@)->Obj_0[1].1->Arr_0);
        }
        let mut fields: Vec<(String, Json)> = Vec::new();
        fields.push(("model".to_owned(), Json::Str(self.model.clone())));
        fields.push(("prompt".to_owned(), arr));
        fields.push(
            ("temperature".to_owned(), Json::Num(
                chars_to_string(&crate::num::temp_to_chars(self.temperature)),
            )),
        );
        fields.push(
            ("max_tokens".to_owned(), Json::Num(
                chars_to_string(&crate::num::i32_to_chars(self.max_tokens)),
            )),
        );
        let doc = Json::Obj(fields);
        proof {
            crate::json::lemma_jview_fields_props(fields@);
            assert(doc.jview()->Obj_0 =~= spec_completion_params_json(self@)->Obj_0);
        }
        json_to_string(&doc)
    }
}

/// The mathematical shape of one completion choice.
pub struct CChoiceV {
    pub text: Seq<char>,
    pub index: int,
    pub logprobs: bool,
    pub finish_reason: Seq<char>,
}

/// The mathematical shape of the completion usage accounting.
pub struct CUsageV {
    pub prompt_tokens: int,
    pub completion_tokens: int,
    pub total_tokens: int,
}

/// The mathematical shape of a completion response.
pub struct CompletionRespV {
    pub id: Seq<char>,
    pub object: Seq<char>,
    pub created: int,
    pub model: Seq<char>,
    pub choices: Seq<CChoiceV>,
    pub usage: CUsageV,
}

/// The log-probability block; its contents are not read.
pub struct Logprobs {}

/// One returned completion choice.
pub struct Choice {
    text: String,
    index: usize,
    logprobs: Option<Logprobs>,
    finish_reason: String,
}

impl Choice {
    spec fn cview(self) -> CChoiceV {
        CChoiceV {
            text: self.text@,
            index: self.index as int,
            logprobs: self.logprobs is Some,
            finish_reason: self.finish_reason@,
        }
    }
}

/// The completion usage accounting.
pub struct Usage {
    prompt_tokens: usize,
    completion_tokens: usize,
    total_tokens: usize,
}

impl Usage {
    spec fn uview(self) -> CUsageV {
        CUsageV {
            prompt_tokens: self.prompt_tokens as int,
            completion_tokens: self.completion_tokens as int,
            total_tokens: self.total_tokens as int,
        }
    }
}

/// A successful body of the completion endpoint; every field is required.
pub struct CodeCompletionResponse {
    id: String,
    object: String,
    created: i64,
    model: String,
    choices: Vec<Choice>,
    usage: Usage,
}

impl View for CodeCompletionResponse {
    type V = CompletionRespV;

    closed spec fn view(&self) -> CompletionRespV {
        CompletionRespV {
            id: self.id@,
            object: self.object@,
            created: self.created as int,
            model: self.model@,
            choices: self.choices@.map_values(|c: Choice| c.cview()),
            usage: self.usage.uview(),
        }
    }
}

/// A required string field.
pub open spec fn dec_req_str(v: Option<JsonV>) -> Option<Seq<char>> {
    match v {
        Some(JsonV::Str(s)) => Some(s),
        _ => None,
    }
}

/// A required integer field within bounds.
pub open spec fn dec_req_int(v: Option<JsonV>, lo: int, hi: int) -> Option<int> {
    match v {
        Some(JsonV::Num(lex)) => match crate::num::spec_lex_int(lex) {
            Some(x) => if lo <= x <= hi {
                Some(x)
            } else {
                None
            },
            None => None,
        },
        _ => None,
    }
}

/// The largest integer a `usize` field accepts: the machine word's range,
/// capped at `i64::MAX` by the decoder.
pub open spec fn usize_dec_max() -> int {
    if usize::MAX <= i64::MAX {
        usize::MAX as int
    } else {
        i64::MAX as int
    }
}

/// What one completion choice object decodes to: `text`, `index` and
/// `finish_reason` are required; `logprobs` may be absent, null, or any
/// object, whose contents are ignored.
pub open spec fn spec_decode_cchoice(v: JsonV) -> Option<CChoiceV> {
    match v {
        JsonV::Obj(fields) => {
            let text = dec_req_str(obj_get(fields, "text"@));
            let index = dec_req_int(obj_get(fields, "index"@), 0, usize_dec_max());
            let logprobs = match obj_get(fields, "logprobs"@) {
                None => Some(false),
                Some(JsonV::Null) => Some(false),
                Some(JsonV::Obj(_)) => Some(true),
                Some(_) => None,
            };
            let finish_reason = dec_req_str(obj_get(fields, "finish_reason"@));
            if text is Some && index is Some && logprobs is Some && finish_reason is Some {
                Some(
                    CChoiceV {
                        text: text->0,
                        index: index->0,
                        logprobs: logprobs->0,
                        finish_reason: finish_reason->0,
                    },
                )
            } else {
                None
            }
        },
        _ => None,
    }
}

/// What a sequence of completion choice objects decodes to.
pub open spec fn spec_decode_cchoices(items: Seq<JsonV>) -> Option<Seq<CChoiceV>>
    decreases items.len(),
{
    if items.len() == 0 {
        Some(Seq::empty())
    } else {
        match spec_decode_cchoice(items[0]) {
            None => None,
            Some(c) => match spec_decode_cchoices(items.drop_first()) {
                None => None,
                Some(rest) => Some(seq![c] + rest),
            },
        }
    }
}

/// What the completion usage object decodes to; every field is required.
pub open spec fn spec_decode_cusage(v: JsonV) -> Option<CUsageV> {
    match v {
        JsonV::Obj(fields) => {
            let p = dec_req_int(obj_get(fields, "prompt_tokens"@), 0, usize_dec_max());
            let c = dec_req_int(obj_get(fields, "completion_tokens"@), 0, usize_dec_max());
            let t = dec_req_int(obj_get(fields, "total_tokens"@), 0, usize_dec_max());
            if p is Some && c is Some && t is Some {
                Some(CUsageV { prompt_tokens: p->0, completion_tokens: c->0, total_tokens: t->0 })
            } else {
                None
            }
        },
        _ => None,
    }
}

/// What a completion response document decodes to.
pub open spec fn spec_decode_completion(v: JsonV) -> Option<CompletionRespV> {
    match v {
        JsonV::Obj(fields) => {
            let id = dec_req_str(obj_get(fields, "id"@));
            let object = dec_req_str(obj_get(fields, "object"@));
            let created = dec_req_int(obj_get(fields, "created"@), i64::MIN as int, i64::MAX as int);
            let model = dec_req_str(obj_get(fields, "model"@));
            let choices = match obj_get(fields, "choices"@) {
                Some(JsonV::Arr(items)) => spec_decode_cchoices(items),
                _ => None,
            };
            let usage = match obj_get(fields, "usage"@) {
                Some(uv) => spec_decode_cusage(uv),
                None => None,
            };
            if id is Some && object is Some && created is Some && model is Some && choices is Some
                && usage is Some {
                Some(
                    CompletionRespV {
                        id: id->0,
                        object: object->0,
                        created: created->0,
                        model: model->0,
                        choices: choices->0,
                        usage: usage->0,
                    },
                )
            } else {
                None
            }
        },
        _ => None,
    }
}

/// Decodes a required string field.
fn dec_req_str_exec(v: Option<&Json>) -> (r: Option<String>)
    ensures
        match r {
            Some(s) => dec_req_str(
                match v {
                    Some(j) => Some(j.jview()),
                    None => None,
                },
            ) == Some(s@),
            None => dec_req_str(
                match v {
                    Some(j) => Some(j.jview()),
                    None => None,
                },
            ) is None,
        },
{
    match v {
        Some(Json::Str(s)) => Some(s.clone()),
        _ => None,
    }
}

/// Decodes a required bounded integer field into an `i64`.
fn dec_req_int_exec(v: Option<&Json>, lo: i64, hi: i64) -> (r: Option<i64>)
    ensures
        match r {
            Some(x) => dec_req_int(
                match v {
                    Some(j) => Some(j.jview()),
                    None => None,
                },
                lo as int,
                hi as int,
            ) == Some(x as int),
            None => dec_req_int(
                match v {
                    Some(j) => Some(j.jview()),
                    None => None,
                },
                lo as int,
                hi as int,
            ) is None,
        },
{
    match v {
        Some(Json::Num(lex)) => {
            let cs = str_to_chars(lex.as_str());
            match crate::num::lex_int_chars(&cs) {
                Some(x) => if lo <= x && x <= hi {
                    Some(x)
                } else {
                    None
                },
                None => None,
            }
        },
        _ => None,
    }
}

/// Decodes a required `usize` field.
fn dec_req_usize_exec(v: Option<&Json>) -> (r: Option<usize>)
    ensures
        match r {
            Some(x) => dec_req_int(
                match v {
                    Some(j) => Some(j.jview()),
                    None => None,
                },
                0,
                usize_dec_max(),
            ) == Some(x as int),
            None => dec_req_int(
                match v {
                    Some(j) => Some(j.jview()),
                    None => None,
                },
                0,
                usize_dec_max(),
            ) is None,
        },
{
    match dec_req_int_exec(v, 0, i64::MAX) {
        Some(x) => {
            if x as u64 <= usize::MAX as u64 {
                Some(x as usize)
            } else {
                None
            }
        },
        None => None,
    }
}

/// Decodes one completion choice object.
fn decode_cchoice(j: &Json) -> (r: Option<Choice>)
    ensures
        match r {
            Some(c) => spec_decode_cchoice(j.jview()) == Some(c.cview()),
            None => spec_decode_cchoice(j.jview()) is None,
        },
{
    match j {
        Json::Obj(fields) => {
            let text = match dec_req_str_exec(obj_get_exec(fields, "text")) {
                Some(s) => s,
                None => {
                    return None;
                },
            };
            let index = match dec_req_usize_exec(obj_get_exec(fields, "index")) {
                Some(x) => x,
                None => {
                    return None;
                },
            };
            let logprobs: Option<Logprobs> = match obj_get_exec(fields, "logprobs") {
                None => None,
                Some(Json::Null) => None,
                Some(Json::Obj(_)) => Some(Logprobs {  }),
                Some(_) => {
                    return None;
                },
            };
            let finish_reason = match dec_req_str_exec(obj_get_exec(fields, "finish_reason")) {
                Some(s) => s,
                None => {
                    return None;
                },
            };
            Some(Choice { text, index, logprobs, finish_reason })
        },
        _ => None,
    }
}

/// Decodes the completion usage object.
fn decode_cusage(j: &Json) -> (r: Option<Usage>)
    ensures
        match r {
            Some(u) => spec_decode_cusage(j.jview()) == Some(u.uview()),
            None => spec_decode_cusage(j.jview()) is None,
        },
{
    match j {
        Json::Obj(fields) => {
            let p = match dec_req_usize_exec(obj_get_exec(fields, "prompt_tokens")) {
                Some(x) => x,
                None => {
                    return None;
                },
            };
            let c = match dec_req_usize_exec(obj_get_exec(fields, "completion_tokens")) {
                Some(x) => x,
                None => {
                    return None;
                },
            };
            let t = match dec_req_usize_exec(obj_get_exec(fields, "total_tokens")) {
                Some(x) => x,
                None => {
                    return None;
                },
            };
            Some(Usage { prompt_tokens: p, completion_tokens: c, total_tokens: t })
        },
        _ => None,
    }
}

/// The views of a vector of completion choices.
spec fn cchoice_views(v: Seq<Choice>) -> Seq<CChoiceV> {
    v.map_values(|c: Choice| c.cview())
}

/// Decodes a completion response document.
#[verifier::loop_isolation(false)]
pub fn decode_completion_response(j: &Json) -> (r: Option<CodeCompletionResponse>)
    ensures
        match r {
            Some(c) => spec_decode_completion(j.jview()) == Some(c@),
            None => spec_decode_completion(j.jview()) is None,
        },
{
    match j {
        Json::Obj(fields) => {
            let id = match dec_req_str_exec(obj_get_exec(fields, "id")) {
                Some(s) => s,
                None => {
                    return None;
                },
            };
            let object = match dec_req_str_exec(obj_get_exec(fields, "object")) {
                Some(s) => s,
                None => {
                    return None;
                },
            };
            let created = match dec_req_int_exec(
                obj_get_exec(fields, "created"),
                i64::MIN,
                i64::MAX,
            ) {
                Some(x) => x,
                None => {
                    return None;
                },
            };
            let model = match dec_req_str_exec(obj_get_exec(fields, "model")) {
                Some(s) => s,
                None => {
                    return None;
                },
            };
            let choices: Vec<Choice> = match obj_get_exec(fields, "choices") {
                Some(Json::Arr(items)) => {
                    proof {
                        lemma_jviews_props(items@);
                    }
                    let ghost itemsv = jviews(items@);
                    let mut out: Vec<Choice> = Vec::new();
                    let n = items.len();
                    let mut i: usize = 0;
                    proof {
                        assert(itemsv.subrange(0, n as int) =~= itemsv);
                        assert(cchoice_views(out@) =~= Seq::<CChoiceV>::empty());
                        match spec_decode_cchoices(itemsv) {
                            Some(rest) => {
                                assert(cchoice_views(out@) + rest =~= rest);
                            },
                            None => {},
                        }
                    }
                    while i < n
                        invariant
                            0 <= i <= n == items@.len(),
                            out@.len() == i,
                            match spec_decode_cchoices(itemsv.subrange(i as int, n as int)) {
                                Some(rest) => spec_decode_cchoices(itemsv) == Some(
                                    cchoice_views(out@) + rest,
                                ),
                                None => spec_decode_cchoices(itemsv) is None,
                            },
                        decreases n - i,
                    {
                        match decode_cchoice(&items[i]) {
                            None => {
                                proof {
                                    assert(itemsv.subrange(i as int, n as int)[0]
                                        == itemsv[i as int]);
                                }
                                return None;
                            },
                            Some(c) => {
                                let ghost out0 = out@;
                                let ghost cv = c.cview();
                                out.push(c);
                                proof {
                                    let tail = itemsv.subrange(i as int, n as int);
                                    assert(tail[0] == itemsv[i as int]);
                                    assert(tail.drop_first() =~= itemsv.subrange(i + 1, n as int));
                                    assert(cchoice_views(out@) =~= cchoice_views(out0).push(cv));
                                    match spec_decode_cchoices(itemsv.subrange(i + 1, n as int)) {
                                        Some(rest2) => {
                                            assert(spec_decode_cchoices(tail) == Some(
                                                seq![cv] + rest2,
                                            ));
                                            assert(cchoice_views(out0) + (seq![cv] + rest2)
                                                =~= cchoice_views(out@) + rest2);
                                        },
                                        None => {},
                                    }
                                }
                                i += 1;
                            },
                        }
                    }
                    proof {
                        assert(itemsv.subrange(n as int, n as int) =~= Seq::<JsonV>::empty());
                        assert(spec_decode_cchoices(Seq::<JsonV>::empty()) == Some(
                            Seq::<CChoiceV>::empty(),
                        ));
                        assert(cchoice_views(out@) + Seq::<CChoiceV>::empty() =~= cchoice_views(
                            out@,
                        ));
                    }
                    out
                },
                _ => {
                    return None;
                },
            };
            let usage: Usage = match obj_get_exec(fields, "usage") {
                Some(uj) => match decode_cusage(uj) {
                    Some(u) => u,
                    None => {
                        return None;
                    },
                },
                None => {
                    return None;
                },
            };
            Some(CodeCompletionResponse { id, object, created, model, choices, usage })
        },
        _ => None,
    }
}

/// The displayed text of a completion response: the first choice's text
/// with blank lines dropped.
pub open spec fn spec_completion_output(v: CompletionRespV) -> Seq<char> {
    if v.choices.len() > 0 {
        crate::text::spec_output_text(v.choices[0].text)
    } else {
        Seq::empty()
    }
}

impl CodeCompletionResponse {
    /// The completion text prepared for display.
    pub fn get_output(&self) -> (r: String)
        ensures
            r@ == spec_completion_output(self@),
    {
        if self.choices.len() > 0 {
            crate::text::output_text(self.choices[0].text.as_str())
        } else {
            String::new()
        }
    }
}

/// Reads a completion response body.
pub fn parse_completion_response(response: String) -> (r: Result<CodeCompletionResponse, ApiError>)
    ensures
        match r {
            Ok(c) => spec_parse_doc(response@) matches Some(v) && spec_decode_completion(v) == Some(
                c@,
            ),
            Err(e) => e.kind == ErrorKind::Parse && (spec_parse_doc(response@) is None
                || spec_decode_completion(spec_parse_doc(response@)->0) is None),
        },
{
    match parse_json_text(response.as_str()) {
        None => Err(ApiError::parse("the response body is not a well-formed document")),
        Some(j) => match decode_completion_response(&j) {
            Some(c) => Ok(c),
            None => Err(ApiError::parse("the response body does not match the expected shape")),
        },
    }
}

} // verus!
