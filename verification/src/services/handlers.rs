//! The two operation flows: building the wire payload for a request,
//! decoding the wire response, and mapping the HTTP status to a result
//! or an error. The network round-trip itself happens outside of this
//! library; the handlers here take the status code and the raw body as
//! plain values.

use vstd::prelude::*;
use crate::commands::{Args, CommandTypes, ImageCommand, Temperature, TextCommand};
use crate::json::{
    escape_seq, json_string, dec_digits, int_digits, append_json_string, u32_digits, i8_digits,
    chars_of, skip_ws, parse_string, parse_u64, parse_number_literal, skip_value, sskip_ws,
    sstring, su64, sscan_number, sskip_value,
};

verus! {

/// The wire body of a text completion request. The user's description
/// travels under the wire name `prompt`.
pub struct TextCompletionPayload {
    pub model: String,
    pub description: String,
    pub temperature: Temperature,
    pub max_tokens: u32,
}

/// The exact characters of the serialized text completion body.
pub open spec fn text_payload_json(p: TextCompletionPayload) -> Seq<char> {
    "{\"model\":"@ + json_string(p.model@) + ",\"prompt\":"@ + json_string(p.description@)
        + ",\"temperature\":"@ + p.temperature.chars() + ",\"max_tokens\":"@ + dec_digits(
        p.max_tokens as nat,
    ) + "}"@
}

impl TextCompletionPayload {
    /// Builds the payload, filling every absent option with its default:
    /// model `text-davinci-003`, temperature 0.7, and 100 tokens.
    pub fn new(
        prompt: &str,
        model: &Option<String>,
        temperature: Option<Temperature>,
        max_tokens: Option<u32>,
    ) -> (r: TextCompletionPayload)
        ensures
            r.description@ == prompt@,
            model matches Some(m) ==> r.model@ == m@,
            model is None ==> r.model@ == "text-davinci-003"@,
            temperature matches Some(t) ==> r.temperature == t,
            temperature is None ==> r.temperature.whole == 0 && r.temperature.frac@ == "7"@,
            max_tokens matches Some(n) ==> r.max_tokens == n,
            max_tokens is None ==> r.max_tokens == 100,
    {
        let m = match model {
            Some(m) => m.clone(),
            None => String::from_str("text-davinci-003"),
        };
        let t = match temperature {
            Some(t) => t,
            None => Temperature { whole: 0, frac: String::from_str("7") },
        };
        let mt = match max_tokens {
            Some(n) => n,
            None => 100,
        };
        TextCompletionPayload {
            model: m,
            description: String::from_str(prompt),
            temperature: t,
            max_tokens: mt,
        }
    }

    /// Serializes the payload; the result is exactly `text_payload_json`.
    /// A well-formed temperature is demanded so that the numeral put on
    /// the wire is valid JSON.
    pub fn to_json(&self) -> (r: String)
        requires
            self.temperature.wf(),
        ensures
            r@ == text_payload_json(*self),
    {
        let mut out = String::from_str("{\"model\":");
        append_json_string(&mut out, self.model.as_str());
        out.append(",\"prompt\":");
        append_json_string(&mut out, self.description.as_str());
        out.append(",\"temperature\":");
        let w = u32_digits(self.temperature.whole);
        out.append(w.as_str());
        out.append(".");
        out.append(self.temperature.frac.as_str());
        out.append(",\"max_tokens\":");
        let mt = u32_digits(self.max_tokens);
        out.append(mt.as_str());
        out.append("}");
        proof {
            assert(out@ =~= text_payload_json(*self));
        }
        out
    }
}

/// The wire body of an image generation request. The user's description
/// travels under the wire name `prompt`, the count under `n`, and the
/// size under `size`.
pub struct ImageGenerationPayload {
    pub description: String,
    pub number_of_images: i8,
    pub image_size: String,
}

/// The exact characters of the serialized image generation body.
pub open spec fn image_payload_json(p: ImageGenerationPayload) -> Seq<char> {
    "{\"prompt\":"@ + json_string(p.description@) + ",\"n\":"@ + int_digits(
        p.number_of_images as int,
    ) + ",\"size\":"@ + json_string(p.image_size@) + "}"@
}

impl ImageGenerationPayload {
    /// Builds the payload, filling every absent option with its default:
    /// one image of size 1024x1024.
    pub fn new(
        prompt: &str,
        number_of_images: Option<i8>,
        image_size: Option<String>,
    ) -> (r: ImageGenerationPayload)
        ensures
            r.description@ == prompt@,
            number_of_images matches Some(n) ==> r.number_of_images == n,
            number_of_images is None ==> r.number_of_images == 1,
            image_size matches Some(s) ==> r.image_size@ == s@,
            image_size is None ==> r.image_size@ == "1024x1024"@,
    {
        let n = match number_of_images {
            Some(n) => n,
            None => 1,
        };
        let s = match image_size {
            Some(s) => s,
            None => String::from_str("1024x1024"),
        };
        ImageGenerationPayload { description: String::from_str(prompt), number_of_images: n, image_size: s }
    }

    /// Serializes the payload; the result is exactly `image_payload_json`.
    pub fn to_json(&self) -> (r: String)
        ensures
            r@ == image_payload_json(*self),
    {
        let mut out = String::from_str("{\"prompt\":");
        append_json_string(&mut out, self.description.as_str());
        out.append(",\"n\":");
        let n = i8_digits(self.number_of_images);
        out.append(n.as_str());
        out.append(",\"size\":");
        append_json_string(&mut out, self.image_size.as_str());
        out.append("}");
        proof {
            assert(out@ =~= image_payload_json(*self));
        }
        out
    }
}

/// The log-probability record a completion choice may carry. The numbers
/// are kept as the decimal literals that stood in the response; nothing
/// in the client reads them.
pub struct TextCompletionLogprobs {
    pub token_logprobs: Vec<Vec<String>>,
    pub text_offset: Vec<Vec<String>>,
    pub top_logprobs: Vec<Vec<String>>,
}

/// One completion choice of a text response.
pub struct TextCompletionChoice {
    pub text: String,
    pub index: u32,
    pub logprobs: Option<TextCompletionLogprobs>,
    pub finish_reason: String,
}

/// A decoded text completion response.
pub struct TextCompletionResponse {
    pub id: String,
    pub object: String,
    pub created: u64,
    pub model: String,
    pub choices: Vec<TextCompletionChoice>,
}

/// One image record of an image response.
pub struct ImageGenerationData {
    pub url: String,
}

/// A decoded image generation response.
pub struct ImageGenerationResponse {
    pub created: u64,
    pub data: Vec<ImageGenerationData>,
}

/// A non-success answer from the service: a fixed human-readable label
/// and the HTTP status code that came back.
pub struct ServiceError {
    pub message: String,
    pub status: u16,
}

impl ServiceError {
    pub fn new(message: &str, status: u16) -> (r: ServiceError)
        ensures
            r.message@ == message@,
            r.status == status,
    {
        ServiceError { message: String::from_str(message), status }
    }
}

/// Everything that can go wrong in one invocation: a missing credential,
/// a failure before any HTTP response, a non-success status, or a success
/// body that did not match the expected schema.
pub enum ClientError {
    MissingCredential,
    Transport(String),
    Service(ServiceError),
    Decode,
}

/// The one-line diagnostic for each error.
pub open spec fn diagnostic_spec(e: ClientError) -> Seq<char> {
    match e {
        ClientError::MissingCredential => "OPENAI_API_KEY must be set"@,
        ClientError::Transport(m) => "Error sending request: "@ + m@,
        ClientError::Service(s) => s.message@,
        ClientError::Decode => "DecodeError: response body did not match the expected schema"@,
    }
}

/// Formats the one-line diagnostic for an error.
pub fn diagnostic(e: &ClientError) -> (r: String)
    ensures
        r@ == diagnostic_spec(*e),
{
    match e {
        ClientError::MissingCredential => String::from_str("OPENAI_API_KEY must be set"),
        ClientError::Transport(m) => {
            let mut s = String::from_str("Error sending request: ");
            s.append(m.as_str());
            s
        },
        ClientError::Service(se) => se.message.clone(),
        ClientError::Decode => String::from_str(
            "DecodeError: response body did not match the expected schema",
        ),
    }
}

/// The texts of a sequence of choices, in server order.
pub open spec fn texts_view(cs: Seq<TextCompletionChoice>) -> Seq<Seq<char>>
    decreases cs.len(),
{
    if cs.len() == 0 {
        Seq::empty()
    } else {
        texts_view(cs.drop_last()).push(cs.last().text@)
    }
}

/// The URLs of a sequence of image records, in server order.
pub open spec fn urls_view(ds: Seq<ImageGenerationData>) -> Seq<Seq<char>>
    decreases ds.len(),
{
    if ds.len() == 0 {
        Seq::empty()
    } else {
        urls_view(ds.drop_last()).push(ds.last().url@)
    }
}

/// The concatenation of a sequence of texts, in order.
pub open spec fn concat_texts(ts: Seq<Seq<char>>) -> Seq<char>
    decreases ts.len(),
{
    if ts.len() == 0 {
        Seq::empty()
    } else {
        concat_texts(ts.drop_last()) + ts.last()
    }
}

/// The concatenation of the texts of the choices, in server order.
pub open spec fn texts_of(cs: Seq<TextCompletionChoice>) -> Seq<char> {
    concat_texts(texts_view(cs))
}

/// The length and members of `urls_view`, spelled out index by index.
pub proof fn lemma_urls_view_index(ds: Seq<ImageGenerationData>)
    ensures
        urls_view(ds).len() == ds.len(),
        forall|k: int| 0 <= k < ds.len() ==> urls_view(ds)[k] == ds[k].url@,
    decreases ds.len(),
{
    if ds.len() > 0 {
        lemma_urls_view_index(ds.drop_last());
        assert(forall|k: int| 0 <= k < ds.len() - 1 ==> ds.drop_last()[k] == ds[k]);
    }
}

/// Concatenates the text fragments of a response in server order.
pub fn collect_text(r: &TextCompletionResponse) -> (t: String)
    ensures
        t@ == texts_of(r.choices@),
{
    let mut out = String::new();
    proof {
        assert(r.choices@.subrange(0, 0) =~= Seq::<TextCompletionChoice>::empty());
    }
    let mut i: usize = 0;
    while i < r.choices.len()
        invariant
            i <= r.choices@.len(),
            out@ == texts_of(r.choices@.subrange(0, i as int)),
        decreases r.choices@.len() - i,
    {
        let c = &r.choices[i];
        out.append(c.text.as_str());
        proof {
            let pre = r.choices@.subrange(0, i as int);
            let ext = r.choices@.subrange(0, i as int + 1);
            assert(ext.drop_last() =~= pre);
            assert(ext.last() == r.choices@[i as int]);
            assert(texts_view(ext).drop_last() =~= texts_view(pre));
            assert(texts_view(ext).last() == r.choices@[i as int].text@);
        }
        i += 1;
    }
    proof {
        assert(r.choices@.subrange(0, r.choices@.len() as int) =~= r.choices@);
    }
    out
}

/// Extracts the image URLs of a response, in server order.
pub fn collect_urls(r: &ImageGenerationResponse) -> (us: Vec<String>)
    ensures
        us@.len() == r.data@.len(),
        forall|k: int| 0 <= k < us@.len() ==> us@[k]@ == r.data@[k].url@,
{
    let mut out: Vec<String> = Vec::new();
    let mut i: usize = 0;
    while i < r.data.len()
        invariant
            i <= r.data@.len(),
            out@.len() == i,
            forall|k: int| 0 <= k < i ==> out@[k]@ == r.data@[k].url@,
        decreases r.data@.len() - i,
    {
        out.push(r.data[i].url.clone());
        i += 1;
    }
    out
}

fn key_is(k: &String, lit: &str) -> (b: bool)
    ensures
        b == (k@ == lit@),
{
    let s = String::from_str(lit);
    k.eq(&s)
}

/// The view of an optional string.
pub open spec fn sview(o: Option<String>) -> Option<Seq<char>> {
    match o {
        Some(s) => Some(s@),
        None => None,
    }
}

/// The acceptance and end of one array of JSON numbers, from its bracket.
pub open spec fn srow(v: Seq<char>, i: int) -> Option<int> {
    if 0 <= i && i < v.len() && v[i] == '[' {
        let j = sskip_ws(v, i + 1);
        if !(i + 1 <= j && j <= v.len()) {
            None
        } else if j < v.len() && v[j] == ']' {
            Some(j + 1)
        } else {
            srow_item(v, j)
        }
    } else {
        None
    }
}

/// One number element and what follows it in an array of numbers.
pub open spec fn srow_item(v: Seq<char>, j: int) -> Option<int>
    decreases v.len() - j,
{
    match sscan_number(v, j) {
        None => None,
        Some(e) => {
            if !(j < e && e <= v.len()) {
                None
            } else {
                let k = sskip_ws(v, e);
                if !(e <= k && k <= v.len()) {
                    None
                } else if k < v.len() && v[k] == ',' {
                    let m = sskip_ws(v, k + 1);
                    if !(k + 1 <= m && m <= v.len()) {
                        None
                    } else {
                        srow_item(v, m)
                    }
                } else if k < v.len() && v[k] == ']' {
                    Some(k + 1)
                } else {
                    None
                }
            }
        },
    }
}

/// The acceptance and end of an array of arrays of JSON numbers.
pub open spec fn smatrix(v: Seq<char>, i: int) -> Option<int> {
    if 0 <= i && i < v.len() && v[i] == '[' {
        let j = sskip_ws(v, i + 1);
        if !(i + 1 <= j && j <= v.len()) {
            None
        } else if j < v.len() && v[j] == ']' {
            Some(j + 1)
        } else {
            smatrix_item(v, j)
        }
    } else {
        None
    }
}

/// One row element and what follows it in an array of rows.
pub open spec fn smatrix_item(v: Seq<char>, j: int) -> Option<int>
    decreases v.len() - j,
{
    match srow(v, j) {
        None => None,
        Some(e) => {
            if !(j < e && e <= v.len()) {
                None
            } else {
                let k = sskip_ws(v, e);
                if !(e <= k && k <= v.len()) {
                    None
                } else if k < v.len() && v[k] == ',' {
                    let m = sskip_ws(v, k + 1);
                    if !(k + 1 <= m && m <= v.len()) {
                        None
                    } else {
                        smatrix_item(v, m)
                    }
                } else if k < v.len() && v[k] == ']' {
                    Some(k + 1)
                } else {
                    None
                }
            }
        },
    }
}

fn parse_num_row(v: &Vec<char>, i: usize) -> (r: Option<(Vec<String>, usize)>)
    requires
        i <= v@.len(),
    ensures
        r is Some <==> srow(v@, i as int) is Some,
        r matches Some(p) ==> (srow(v@, i as int) == Some(p.1 as int) && i < p.1 <= v@.len()),
{
    if i >= v.len() || v[i] != '[' {
        return None;
    }
    let j = skip_ws(v, i + 1);
    if j < v.len() && v[j] == ']' {
        return Some((Vec::new(), j + 1));
    }
    num_row_item(v, j, Vec::new())
}

fn num_row_item(v: &Vec<char>, j: usize, out: Vec<String>) -> (r: Option<(Vec<String>, usize)>)
    requires
        j <= v@.len(),
    ensures
        r is Some <==> srow_item(v@, j as int) is Some,
        r matches Some(p) ==> (srow_item(v@, j as int) == Some(p.1 as int) && j < p.1
            <= v@.len()),
    decreases v@.len() - j,
{
    let mut out = out;
    let p = match parse_number_literal(v, j) {
        Some(p) => p,
        None => {
            return None;
        },
    };
    out.push(p.0);
    let k = skip_ws(v, p.1);
    if k < v.len() && v[k] == ',' {
        let m = skip_ws(v, k + 1);
        num_row_item(v, m, out)
    } else if k < v.len() && v[k] == ']' {
        Some((out, k + 1))
    } else {
        None
    }
}

fn parse_num_matrix(v: &Vec<char>, i: usize) -> (r: Option<(Vec<Vec<String>>, usize)>)
    requires
        i <= v@.len(),
    ensures
        r is Some <==> smatrix(v@, i as int) is Some,
        r matches Some(p) ==> (smatrix(v@, i as int) == Some(p.1 as int) && i < p.1 <= v@.len()),
{
    if i >= v.len() || v[i] != '[' {
        return None;
    }
    let j = skip_ws(v, i + 1);
    if j < v.len() && v[j] == ']' {
        return Some((Vec::new(), j + 1));
    }
    num_matrix_item(v, j, Vec::new())
}

fn num_matrix_item(v: &Vec<char>, j: usize, out: Vec<Vec<String>>) -> (r: Option<
    (Vec<Vec<String>>, usize),
>)
    requires
        j <= v@.len(),
    ensures
        r is Some <==> smatrix_item(v@, j as int) is Some,
        r matches Some(p) ==> (smatrix_item(v@, j as int) == Some(p.1 as int) && j < p.1
            <= v@.len()),
    decreases v@.len() - j,
{
    let mut out = out;
    let p = match parse_num_row(v, j) {
        Some(p) => p,
        None => {
            return None;
        },
    };
    out.push(p.0);
    let k = skip_ws(v, p.1);
    if k < v.len() && v[k] == ',' {
        let m = skip_ws(v, k + 1);
        num_matrix_item(v, m, out)
    } else if k < v.len() && v[k] == ']' {
        Some((out, k + 1))
    } else {
        None
    }
}

/// The acceptance and end of the log-probability record: an object whose
/// three required members are arrays of arrays of numbers, with unknown
/// members tolerated and duplicates refused.
pub open spec fn slogprobs(v: Seq<char>, i: int) -> Option<int> {
    if 0 <= i && i < v.len() && v[i] == '{' {
        let j = sskip_ws(v, i + 1);
        if !(i + 1 <= j && j <= v.len()) {
            None
        } else if j < v.len() && v[j] == '}' {
            None
        } else {
            slogprobs_item(v, j, false, false, false)
        }
    } else {
        None
    }
}

/// One member of the log-probability record, given which of the three
/// required members came before.
pub open spec fn slogprobs_item(v: Seq<char>, j: int, t: bool, o: bool, tp: bool) -> Option<int>
    decreases v.len() - j,
{
    match sstring(v, j) {
        None => None,
        Some(p) => {
            if !(j < p.1 && p.1 <= v.len()) {
                None
            } else {
                let k1 = sskip_ws(v, p.1);
                if !(p.1 <= k1 && k1 <= v.len() && k1 < v.len() && v[k1] == ':') {
                    None
                } else {
                    let k2 = sskip_ws(v, k1 + 1);
                    if !(k1 + 1 <= k2 && k2 <= v.len()) {
                        None
                    } else {
                        if p.0 == "token_logprobs"@ {
                            if t {
                                None
                            } else {
                                match smatrix(v, k2) {
                                    None => None,
                                    Some(e) => {
                                        if !(j < e && e <= v.len()) {
                                            None
                                        } else {
                                            slogprobs_sep(v, e, true, o, tp)
                                        }
                                    },
                                }
                            }
                        } else if p.0 == "text_offset"@ {
                            if o {
                                None
                            } else {
                                match smatrix(v, k2) {
                                    None => None,
                                    Some(e) => {
                                        if !(j < e && e <= v.len()) {
                                            None
                                        } else {
                                            slogprobs_sep(v, e, t, true, tp)
                                        }
                                    },
                                }
                            }
                        } else if p.0 == "top_logprobs"@ {
                            if tp {
                                None
                            } else {
                                match smatrix(v, k2) {
                                    None => None,
                                    Some(e) => {
                                        if !(j < e && e <= v.len()) {
                                            None
                                        } else {
                                            slogprobs_sep(v, e, t, o, true)
                                        }
                                    },
                                }
                            }
                        } else {
                            match sskip_value(v, k2) {
                                None => None,
                                Some(e) => {
                                    if !(j < e && e <= v.len()) {
                                        None
                                    } else {
                                        slogprobs_sep(v, e, t, o, tp)
                                    }
                                },
                            }
                        }
                    }
                }
            }
        },
    }
}

/// What follows a member of the log-probability record: another member,
/// or the closing brace, accepted only with all three required members.
pub open spec fn slogprobs_sep(v: Seq<char>, e: int, t: bool, o: bool, tp: bool) -> Option<int>
    decreases v.len() - e,
{
    let k3 = sskip_ws(v, e);
    if !(e <= k3 && k3 <= v.len()) {
        None
    } else if k3 < v.len() && v[k3] == ',' {
        let m = sskip_ws(v, k3 + 1);
        if !(k3 + 1 <= m && m <= v.len()) {
            None
        } else {
            slogprobs_item(v, m, t, o, tp)
        }
    } else if k3 < v.len() && v[k3] == '}' {
        if t && o && tp {
            Some(k3 + 1)
        } else {
            None
        }
    } else {
        None
    }
}

fn parse_logprobs(v: &Vec<char>, i: usize) -> (r: Option<(TextCompletionLogprobs, usize)>)
    requires
        i <= v@.len(),
    ensures
        r is Some <==> slogprobs(v@, i as int) is Some,
        r matches Some(p) ==> (slogprobs(v@, i as int) == Some(p.1 as int) && i < p.1
            <= v@.len()),
{
    if i >= v.len() || v[i] != '{' {
        return None;
    }
    let j = skip_ws(v, i + 1);
    if j < v.len() && v[j] == '}' {
        return None;
    }
    logprobs_item(v, j, None, None, None)
}

fn logprobs_item(
    v: &Vec<char>,
    j: usize,
    token_v: Option<Vec<Vec<String>>>,
    offset_v: Option<Vec<Vec<String>>>,
    top_v: Option<Vec<Vec<String>>>,
) -> (r: Option<(TextCompletionLogprobs, usize)>)
    requires
        j <= v@.len(),
    ensures
        r is Some <==> slogprobs_item(
            v@,
            j as int,
            token_v is Some,
            offset_v is Some,
            top_v is Some,
        ) is Some,
        r matches Some(p) ==> (slogprobs_item(
            v@,
            j as int,
            token_v is Some,
            offset_v is Some,
            top_v is Some,
        ) == Some(p.1 as int) && j < p.1 <= v@.len()),
    decreases v@.len() - j,
{
    let mut token_v = token_v;
    let mut offset_v = offset_v;
    let mut top_v = top_v;
    let p = match parse_string(v, j) {
        Some(p) => p,
        None => {
            return None;
        },
    };
    let k1 = skip_ws(v, p.1);
    if !(k1 < v.len() && v[k1] == ':') {
        return None;
    }
    let k2 = skip_ws(v, k1 + 1);
    let e: usize;
    if key_is(&p.0, "token_logprobs") {
        if token_v.is_some() {
            return None;
        }
        match parse_num_matrix(v, k2) {
            Some(q) => {
                token_v = Some(q.0);
                e = q.1;
            },
            None => {
                return None;
            },
        }
    } else if key_is(&p.0, "text_offset") {
        if offset_v.is_some() {
            return None;
        }
        match parse_num_matrix(v, k2) {
            Some(q) => {
                offset_v = Some(q.0);
                e = q.1;
            },
            None => {
                return None;
            },
        }
    } else if key_is(&p.0, "top_logprobs") {
        if top_v.is_some() {
            return None;
        }
        match parse_num_matrix(v, k2) {
            Some(q) => {
                top_v = Some(q.0);
                e = q.1;
            },
            None => {
                return None;
            },
        }
    } else {
        match skip_value(v, k2) {
            Some(k) => {
                e = k;
            },
            None => {
                return None;
            },
        }
    }
    logprobs_sep(v, e, token_v, offset_v, top_v)
}

fn logprobs_sep(
    v: &Vec<char>,
    e: usize,
    token_v: Option<Vec<Vec<String>>>,
    offset_v: Option<Vec<Vec<String>>>,
    top_v: Option<Vec<Vec<String>>>,
) -> (r: Option<(TextCompletionLogprobs, usize)>)
    requires
        e <= v@.len(),
    ensures
        r is Some <==> slogprobs_sep(
            v@,
            e as int,
            token_v is Some,
            offset_v is Some,
            top_v is Some,
        ) is Some,
        r matches Some(p) ==> (slogprobs_sep(
            v@,
            e as int,
            token_v is Some,
            offset_v is Some,
            top_v is Some,
        ) == Some(p.1 as int) && e < p.1 <= v@.len()),
    decreases v@.len() - e,
{
    let k3 = skip_ws(v, e);
    if k3 < v.len() && v[k3] == ',' {
        let m = skip_ws(v, k3 + 1);
        logprobs_item(v, m, token_v, offset_v, top_v)
    } else if k3 < v.len() && v[k3] == '}' {
        match (token_v, offset_v, top_v) {
            (Some(token_logprobs), Some(text_offset), Some(top_logprobs)) => Some(
                (TextCompletionLogprobs { token_logprobs, text_offset, top_logprobs }, k3 + 1),
            ),
            _ => None,
        }
    } else {
        None
    }
}

/// The text and end of one completion choice: an object that must carry
/// `text`, `index` and `finish_reason`, may carry `logprobs` (null or a
/// record), tolerates unknown members and refuses duplicates.
pub open spec fn schoice(v: Seq<char>, i: int) -> Option<(Seq<char>, int)> {
    if 0 <= i && i < v.len() && v[i] == '{' {
        let j = sskip_ws(v, i + 1);
        if !(i + 1 <= j && j <= v.len()) {
            None
        } else if j < v.len() && v[j] == '}' {
            None
        } else {
            schoice_item(v, j, None, false, false, false)
        }
    } else {
        None
    }
}

/// One member of a completion choice, given what came before.
pub open spec fn schoice_item(
    v: Seq<char>,
    j: int,
    text: Option<Seq<char>>,
    ix: bool,
    lp: bool,
    fin: bool,
) -> Option<(Seq<char>, int)>
    decreases v.len() - j,
{
    match sstring(v, j) {
        None => None,
        Some(p) => {
            if !(j < p.1 && p.1 <= v.len()) {
                None
            } else {
                let k1 = sskip_ws(v, p.1);
                if !(p.1 <= k1 && k1 <= v.len() && k1 < v.len() && v[k1] == ':') {
                    None
                } else {
                    let k2 = sskip_ws(v, k1 + 1);
                    if !(k1 + 1 <= k2 && k2 <= v.len()) {
                        None
                    } else {
                        if p.0 == "text"@ {
                            if text is Some {
                                None
                            } else {
                                match sstring(v, k2) {
                                    None => None,
                                    Some(q) => {
                                        if !(j < q.1 && q.1 <= v.len()) {
                                            None
                                        } else {
                                            schoice_sep(v, q.1, Some(q.0), ix, lp, fin)
                                        }
                                    },
                                }
                            }
                        } else if p.0 == "index"@ {
                            if ix {
                                None
                            } else {
                                match su64(v, k2) {
                                    None => None,
                                    Some(q) => {
                                        if q.0 > 0xFFFFFFFF {
                                            None
                                        } else if !(j < q.1 && q.1 <= v.len()) {
                                            None
                                        } else {
                                            schoice_sep(v, q.1, text, true, lp, fin)
                                        }
                                    },
                                }
                            }
                        } else if p.0 == "logprobs"@ {
                            if lp {
                                None
                            } else if k2 < v.len() && v[k2] == 'n' {
                                match sskip_value(v, k2) {
                                    None => None,
                                    Some(e) => {
                                        if !(j < e && e <= v.len()) {
                                            None
                                        } else {
                                            schoice_sep(v, e, text, ix, true, fin)
                                        }
                                    },
                                }
                            } else {
                                match slogprobs(v, k2) {
                                    None => None,
                                    Some(e) => {
                                        if !(j < e && e <= v.len()) {
                                            None
                                        } else {
                                            schoice_sep(v, e, text, ix, true, fin)
                                        }
                                    },
                                }
                            }
                        } else if p.0 == "finish_reason"@ {
                            if fin {
                                None
                            } else {
                                match sstring(v, k2) {
                                    None => None,
                                    Some(q) => {
                                        if !(j < q.1 && q.1 <= v.len()) {
                                            None
                                        } else {
                                            schoice_sep(v, q.1, text, ix, lp, true)
                                        }
                                    },
                                }
                            }
                        } else {
                            match sskip_value(v, k2) {
                                None => None,
                                Some(e) => {
                                    if !(j < e && e <= v.len()) {
                                        None
                                    } else {
                                        schoice_sep(v, e, text, ix, lp, fin)
                                    }
                                },
                            }
                        }
                    }
                }
            }
        },
    }
}

/// What follows a member of a completion choice: another member, or the
/// closing brace, accepted only with the three required members present.
pub open spec fn schoice_sep(
    v: Seq<char>,
    e: int,
    text: Option<Seq<char>>,
    ix: bool,
    lp: bool,
    fin: bool,
) -> Option<(Seq<char>, int)>
    decreases v.len() - e,
{
    let k3 = sskip_ws(v, e);
    if !(e <= k3 && k3 <= v.len()) {
        None
    } else if k3 < v.len() && v[k3] == ',' {
        let m = sskip_ws(v, k3 + 1);
        if !(k3 + 1 <= m && m <= v.len()) {
            None
        } else {
            schoice_item(v, m, text, ix, lp, fin)
        }
    } else if k3 < v.len() && v[k3] == '}' {
        match text {
            Some(t) => {
                if ix && fin {
                    Some((t, k3 + 1))
                } else {
                    None
                }
            },
            None => None,
        }
    } else {
        None
    }
}

fn parse_choice(v: &Vec<char>, i: usize) -> (r: Option<(TextCompletionChoice, usize)>)
    requires
        i <= v@.len(),
    ensures
        r is Some <==> schoice(v@, i as int) is Some,
        r matches Some(p) ==> (schoice(v@, i as int) == Some((p.0.text@, p.1 as int)) && i < p.1
            <= v@.len()),
{
    if i >= v.len() || v[i] != '{' {
        return None;
    }
    let j = skip_ws(v, i + 1);
    if j < v.len() && v[j] == '}' {
        return None;
    }
    choice_item(v, j, None, None, None, false, None)
}

fn choice_item(
    v: &Vec<char>,
    j: usize,
    text_v: Option<String>,
    index_v: Option<u32>,
    logprobs_v: Option<TextCompletionLogprobs>,
    logprobs_seen: bool,
    finish_v: Option<String>,
) -> (r: Option<(TextCompletionChoice, usize)>)
    requires
        j <= v@.len(),
    ensures
        r is Some <==> schoice_item(
            v@,
            j as int,
            sview(text_v),
            index_v is Some,
            logprobs_seen,
            finish_v is Some,
        ) is Some,
        r matches Some(p) ==> (schoice_item(
            v@,
            j as int,
            sview(text_v),
            index_v is Some,
            logprobs_seen,
            finish_v is Some,
        ) == Some((p.0.text@, p.1 as int)) && j < p.1 <= v@.len()),
    decreases v@.len() - j,
{
    let mut text_v = text_v;
    let mut index_v = index_v;
    let mut logprobs_v = logprobs_v;
    let mut logprobs_seen = logprobs_seen;
    let mut finish_v = finish_v;
    let p = match parse_string(v, j) {
        Some(p) => p,
        None => {
            return None;
        },
    };
    let k1 = skip_ws(v, p.1);
    if !(k1 < v.len() && v[k1] == ':') {
        return None;
    }
    let k2 = skip_ws(v, k1 + 1);
    let e: usize;
    if key_is(&p.0, "text") {
        if text_v.is_some() {
            return None;
        }
        match parse_string(v, k2) {
            Some(q) => {
                text_v = Some(q.0);
                e = q.1;
            },
            None => {
                return None;
            },
        }
    } else if key_is(&p.0, "index") {
        if index_v.is_some() {
            return None;
        }
        match parse_u64(v, k2) {
            Some(q) => {
                if q.0 > 0xFFFFFFFFu64 {
                    return None;
                }
                index_v = Some(q.0 as u32);
                e = q.1;
            },
            None => {
                return None;
            },
        }
    } else if key_is(&p.0, "logprobs") {
        if logprobs_seen {
            return None;
        }
        logprobs_seen = true;
        if k2 < v.len() && v[k2] == 'n' {
            match skip_value(v, k2) {
                Some(k) => {
                    e = k;
                },
                None => {
                    return None;
                },
            }
        } else {
            match parse_logprobs(v, k2) {
                Some(q) => {
                    logprobs_v = Some(q.0);
                    e = q.1;
                },
                None => {
                    return None;
                },
            }
        }
    } else if key_is(&p.0, "finish_reason") {
        if finish_v.is_some() {
            return None;
        }
        match parse_string(v, k2) {
            Some(q) => {
                finish_v = Some(q.0);
                e = q.1;
            },
            None => {
                return None;
            },
        }
    } else {
        match skip_value(v, k2) {
            Some(k) => {
                e = k;
            },
            None => {
                return None;
            },
        }
    }
    choice_sep(v, e, text_v, index_v, logprobs_v, logprobs_seen, finish_v)
}

fn choice_sep(
    v: &Vec<char>,
    e: usize,
    text_v: Option<String>,
    index_v: Option<u32>,
    logprobs_v: Option<TextCompletionLogprobs>,
    logprobs_seen: bool,
    finish_v: Option<String>,
) -> (r: Option<(TextCompletionChoice, usize)>)
    requires
        e <= v@.len(),
    ensures
        r is Some <==> schoice_sep(
            v@,
            e as int,
            sview(text_v),
            index_v is Some,
            logprobs_seen,
            finish_v is Some,
        ) is Some,
        r matches Some(p) ==> (schoice_sep(
            v@,
            e as int,
            sview(text_v),
            index_v is Some,
            logprobs_seen,
            finish_v is Some,
        ) == Some((p.0.text@, p.1 as int)) && e < p.1 <= v@.len()),
    decreases v@.len() - e,
{
    let k3 = skip_ws(v, e);
    if k3 < v.len() && v[k3] == ',' {
        let m = skip_ws(v, k3 + 1);
        choice_item(v, m, text_v, index_v, logprobs_v, logprobs_seen, finish_v)
    } else if k3 < v.len() && v[k3] == '}' {
        match (text_v, index_v, finish_v) {
            (Some(text), Some(index), Some(finish_reason)) => Some(
                (TextCompletionChoice { text, index, logprobs: logprobs_v, finish_reason }, k3
                    + 1),
            ),
            _ => None,
        }
    } else {
        None
    }
}

/// The texts and end of the choices array.
pub open spec fn schoices(v: Seq<char>, i: int) -> Option<(Seq<Seq<char>>, int)> {
    if 0 <= i && i < v.len() && v[i] == '[' {
        let j = sskip_ws(v, i + 1);
        if !(i + 1 <= j && j <= v.len()) {
            None
        } else if j < v.len() && v[j] == ']' {
            Some((Seq::empty(), j + 1))
        } else {
            schoices_item(v, j, Seq::empty())
        }
    } else {
        None
    }
}

/// One choice element and what follows it in the choices array.
pub open spec fn schoices_item(v: Seq<char>, j: int, acc: Seq<Seq<char>>) -> Option<
    (Seq<Seq<char>>, int),
>
    decreases v.len() - j,
{
    match schoice(v, j) {
        None => None,
        Some(p) => {
            if !(j < p.1 && p.1 <= v.len()) {
                None
            } else {
                let k = sskip_ws(v, p.1);
                if !(p.1 <= k && k <= v.len()) {
                    None
                } else if k < v.len() && v[k] == ',' {
                    let m = sskip_ws(v, k + 1);
                    if !(k + 1 <= m && m <= v.len()) {
                        None
                    } else {
                        schoices_item(v, m, acc.push(p.0))
                    }
                } else if k < v.len() && v[k] == ']' {
                    Some((acc.push(p.0), k + 1))
                } else {
                    None
                }
            }
        },
    }
}

fn parse_choices(v: &Vec<char>, i: usize) -> (r: Option<(Vec<TextCompletionChoice>, usize)>)
    requires
        i <= v@.len(),
    ensures
        r is Some <==> schoices(v@, i as int) is Some,
        r matches Some(p) ==> (schoices(v@, i as int) == Some((texts_view(p.0@), p.1 as int))
            && i < p.1 <= v@.len()),
{
    if i >= v.len() || v[i] != '[' {
        return None;
    }
    let j = skip_ws(v, i + 1);
    if j < v.len() && v[j] == ']' {
        proof {
            assert(texts_view(Seq::<TextCompletionChoice>::empty()) =~= Seq::<Seq<char>>::empty());
        }
        return Some((Vec::new(), j + 1));
    }
    choices_item(v, j, Vec::new())
}

fn choices_item(v: &Vec<char>, j: usize, out: Vec<TextCompletionChoice>) -> (r: Option<
    (Vec<TextCompletionChoice>, usize),
>)
    requires
        j <= v@.len(),
    ensures
        r is Some <==> schoices_item(v@, j as int, texts_view(out@)) is Some,
        r matches Some(p) ==> (schoices_item(v@, j as int, texts_view(out@)) == Some(
            (texts_view(p.0@), p.1 as int),
        ) && j < p.1 <= v@.len()),
    decreases v@.len() - j,
{
    let mut out = out;
    let p = match parse_choice(v, j) {
        Some(p) => p,
        None => {
            return None;
        },
    };
    let ghost old_out = out@;
    out.push(p.0);
    proof {
        assert(out@.drop_last() =~= old_out);
        assert(texts_view(out@) == texts_view(old_out).push(out@.last().text@));
    }
    let k = skip_ws(v, p.1);
    if k < v.len() && v[k] == ',' {
        let m = skip_ws(v, k + 1);
        choices_item(v, m, out)
    } else if k < v.len() && v[k] == ']' {
        Some((out, k + 1))
    } else {
        None
    }
}

/// The view of an optional list of choices: the texts, in order.
pub open spec fn cview(o: Option<Vec<TextCompletionChoice>>) -> Option<Seq<Seq<char>>> {
    match o {
        Some(cs) => Some(texts_view(cs@)),
        None => None,
    }
}

/// One member of the text completion response object, given what came
/// before: which required members were seen, and the texts of the
/// choices if they were.
pub open spec fn stext_item(
    v: Seq<char>,
    j: int,
    id: bool,
    ob: bool,
    cr: bool,
    mo: bool,
    ch: Option<Seq<Seq<char>>>,
) -> Option<(Seq<Seq<char>>, int)>
    decreases v.len() - j,
{
    match sstring(v, j) {
        None => None,
        Some(p) => {
            if !(j < p.1 && p.1 <= v.len()) {
                None
            } else {
                let k1 = sskip_ws(v, p.1);
                if !(p.1 <= k1 && k1 <= v.len() && k1 < v.len() && v[k1] == ':') {
                    None
                } else {
                    let k2 = sskip_ws(v, k1 + 1);
                    if !(k1 + 1 <= k2 && k2 <= v.len()) {
                        None
                    } else {
                        if p.0 == "id"@ {
                            if id {
                                None
                            } else {
                                match sstring(v, k2) {
                                    None => None,
                                    Some(q) => {
                                        if !(j < q.1 && q.1 <= v.len()) {
                                            None
                                        } else {
                                            stext_sep(v, q.1, true, ob, cr, mo, ch)
                                        }
                                    },
                                }
                            }
                        } else if p.0 == "object"@ {
                            if ob {
                                None
                            } else {
                                match sstring(v, k2) {
                                    None => None,
                                    Some(q) => {
                                        if !(j < q.1 && q.1 <= v.len()) {
                                            None
                                        } else {
                                            stext_sep(v, q.1, id, true, cr, mo, ch)
                                        }
                                    },
                                }
                            }
                        } else if p.0 == "created"@ {
                            if cr {
                                None
                            } else {
                                match su64(v, k2) {
                                    None => None,
                                    Some(q) => {
                                        if !(j < q.1 && q.1 <= v.len()) {
                                            None
                                        } else {
                                            stext_sep(v, q.1, id, ob, true, mo, ch)
                                        }
                                    },
                                }
                            }
                        } else if p.0 == "model"@ {
                            if mo {
                                None
                            } else {
                                match sstring(v, k2) {
                                    None => None,
                                    Some(q) => {
                                        if !(j < q.1 && q.1 <= v.len()) {
                                            None
                                        } else {
                                            stext_sep(v, q.1, id, ob, cr, true, ch)
                                        }
                                    },
                                }
                            }
                        } else if p.0 == "choices"@ {
                            if ch is Some {
                                None
                            } else {
                                match schoices(v, k2) {
                                    None => None,
                                    Some(q) => {
                                        if !(j < q.1 && q.1 <= v.len()) {
                                            None
                                        } else {
                                            stext_sep(v, q.1, id, ob, cr, mo, Some(q.0))
                                        }
                                    },
                                }
                            }
                        } else {
                            match sskip_value(v, k2) {
                                None => None,
                                Some(e) => {
                                    if !(j < e && e <= v.len()) {
                                        None
                                    } else {
                                        stext_sep(v, e, id, ob, cr, mo, ch)
                                    }
                                },
                            }
                        }
                    }
                }
            }
        },
    }
}

/// What follows a member of the text response object: another member,
/// or the closing brace, accepted only with every required member.
pub open spec fn stext_sep(
    v: Seq<char>,
    e: int,
    id: bool,
    ob: bool,
    cr: bool,
    mo: bool,
    ch: Option<Seq<Seq<char>>>,
) -> Option<(Seq<Seq<char>>, int)>
    decreases v.len() - e,
{
    let k3 = sskip_ws(v, e);
    if !(e <= k3 && k3 <= v.len()) {
        None
    } else if k3 < v.len() && v[k3] == ',' {
        let m = sskip_ws(v, k3 + 1);
        if !(k3 + 1 <= m && m <= v.len()) {
            None
        } else {
            stext_item(v, m, id, ob, cr, mo, ch)
        }
    } else if k3 < v.len() && v[k3] == '}' {
        match ch {
            Some(ts) => {
                if id && ob && cr && mo {
                    Some((ts, k3 + 1))
                } else {
                    None
                }
            },
            None => None,
        }
    } else {
        None
    }
}

/// The texts of the choices of the text completion response that the
/// whole input decodes to, or `None` where the input does not decode:
/// not this object shape, a required member missing or doubled, or
/// anything but whitespace after the closing brace.
pub open spec fn stext_response(v: Seq<char>) -> Option<Seq<Seq<char>>> {
    let j = sskip_ws(v, 0);
    if !(0 <= j && j <= v.len() && j < v.len() && v[j] == '{') {
        None
    } else {
        let k = sskip_ws(v, j + 1);
        if !(j + 1 <= k && k <= v.len()) {
            None
        } else if k < v.len() && v[k] == '}' {
            None
        } else {
            match stext_item(v, k, false, false, false, false, None) {
                None => None,
                Some(p) => {
                    if !(p.1 <= v.len()) {
                        None
                    } else if sskip_ws(v, p.1) == v.len() {
                        Some(p.0)
                    } else {
                        None
                    }
                },
            }
        }
    }
}

fn text_item(
    v: &Vec<char>,
    j: usize,
    id_v: Option<String>,
    object_v: Option<String>,
    created_v: Option<u64>,
    model_v: Option<String>,
    choices_v: Option<Vec<TextCompletionChoice>>,
) -> (r: Option<(TextCompletionResponse, usize)>)
    requires
        j <= v@.len(),
    ensures
        r is Some <==> stext_item(
            v@,
            j as int,
            id_v is Some,
            object_v is Some,
            created_v is Some,
            model_v is Some,
            cview(choices_v),
        ) is Some,
        r matches Some(p) ==> (stext_item(
            v@,
            j as int,
            id_v is Some,
            object_v is Some,
            created_v is Some,
            model_v is Some,
            cview(choices_v),
        ) == Some((texts_view(p.0.choices@), p.1 as int)) && j < p.1 <= v@.len()),
    decreases v@.len() - j,
{
    let mut id_v = id_v;
    let mut object_v = object_v;
    let mut created_v = created_v;
    let mut model_v = model_v;
    let mut choices_v = choices_v;
    let p = match parse_string(v, j) {
        Some(p) => p,
        None => {
            return None;
        },
    };
    let k1 = skip_ws(v, p.1);
    if !(k1 < v.len() && v[k1] == ':') {
        return None;
    }
    let k2 = skip_ws(v, k1 + 1);
    let e: usize;
    if key_is(&p.0, "id") {
        if id_v.is_some() {
            return None;
        }
        match parse_string(v, k2) {
            Some(q) => {
                id_v = Some(q.0);
                e = q.1;
            },
            None => {
                return None;
            },
        }
    } else if key_is(&p.0, "object") {
        if object_v.is_some() {
            return None;
        }
        match parse_string(v, k2) {
            Some(q) => {
                object_v = Some(q.0);
                e = q.1;
            },
            None => {
                return None;
            },
        }
    } else if key_is(&p.0, "created") {
        if created_v.is_some() {
            return None;
        }
        match parse_u64(v, k2) {
            Some(q) => {
                created_v = Some(q.0);
                e = q.1;
            },
            None => {
                return None;
            },
        }
    } else if key_is(&p.0, "model") {
        if model_v.is_some() {
            return None;
        }
        match parse_string(v, k2) {
            Some(q) => {
                model_v = Some(q.0);
                e = q.1;
            },
            None => {
                return None;
            },
        }
    } else if key_is(&p.0, "choices") {
        if choices_v.is_some() {
            return None;
        }
        match parse_choices(v, k2) {
            Some(q) => {
                choices_v = Some(q.0);
                e = q.1;
            },
            None => {
                return None;
            },
        }
    } else {
        match skip_value(v, k2) {
            Some(k) => {
                e = k;
            },
            None => {
                return None;
            },
        }
    }
    text_sep(v, e, id_v, object_v, created_v, model_v, choices_v)
}

fn text_sep(
    v: &Vec<char>,
    e: usize,
    id_v: Option<String>,
    object_v: Option<String>,
    created_v: Option<u64>,
    model_v: Option<String>,
    choices_v: Option<Vec<TextCompletionChoice>>,
) -> (r: Option<(TextCompletionResponse, usize)>)
    requires
        e <= v@.len(),
    ensures
        r is Some <==> stext_sep(
            v@,
            e as int,
            id_v is Some,
            object_v is Some,
            created_v is Some,
            model_v is Some,
            cview(choices_v),
        ) is Some,
        r matches Some(p) ==> (stext_sep(
            v@,
            e as int,
            id_v is Some,
            object_v is Some,
            created_v is Some,
            model_v is Some,
            cview(choices_v),
        ) == Some((texts_view(p.0.choices@), p.1 as int)) && e < p.1 <= v@.len()),
    decreases v@.len() - e,
{
    let k3 = skip_ws(v, e);
    if k3 < v.len() && v[k3] == ',' {
        let m = skip_ws(v, k3 + 1);
        text_item(v, m, id_v, object_v, created_v, model_v, choices_v)
    } else if k3 < v.len() && v[k3] == '}' {
        match (id_v, object_v, created_v, model_v, choices_v) {
            (Some(id), Some(object), Some(created), Some(model), Some(choices)) => Some(
                (TextCompletionResponse { id, object, created, model, choices }, k3 + 1),
            ),
            _ => None,
        }
    } else {
        None
    }
}

/// Decodes a whole text completion response body; accepted and valued
/// exactly as `stext_response` says.
pub fn parse_text_response(v: &Vec<char>) -> (r: Option<TextCompletionResponse>)
    ensures
        r is Some <==> stext_response(v@) is Some,
        r matches Some(t) ==> stext_response(v@) == Some(texts_view(t.choices@)),
{
    let j = skip_ws(v, 0);
    if j >= v.len() || v[j] != '{' {
        return None;
    }
    let k = skip_ws(v, j + 1);
    if k < v.len() && v[k] == '}' {
        return None;
    }
    let p = match text_item(v, k, None, None, None, None, None) {
        Some(p) => p,
        None => {
            return None;
        },
    };
    let j2 = skip_ws(v, p.1);
    if j2 != v.len() {
        return None;
    }
    Some(p.0)
}

/// The view of an optional list of image records: the URLs, in order.
pub open spec fn uview(o: Option<Vec<ImageGenerationData>>) -> Option<Seq<Seq<char>>> {
    match o {
        Some(ds) => Some(urls_view(ds@)),
        None => None,
    }
}

/// The URL and end of one image record: an object that must carry
/// `url`, tolerates unknown members and refuses duplicates.
pub open spec fn simage_data(v: Seq<char>, i: int) -> Option<(Seq<char>, int)> {
    if 0 <= i && i < v.len() && v[i] == '{' {
        let j = sskip_ws(v, i + 1);
        if !(i + 1 <= j && j <= v.len()) {
            None
        } else if j < v.len() && v[j] == '}' {
            None
        } else {
            simage_data_item(v, j, None)
        }
    } else {
        None
    }
}

/// One member of an image record, given the URL seen so far.
pub open spec fn simage_data_item(v: Seq<char>, j: int, url: Option<Seq<char>>) -> Option<
    (Seq<char>, int),
>
    decreases v.len() - j,
{
    match sstring(v, j) {
        None => None,
        Some(p) => {
            if !(j < p.1 && p.1 <= v.len()) {
                None
            } else {
                let k1 = sskip_ws(v, p.1);
                if !(p.1 <= k1 && k1 <= v.len() && k1 < v.len() && v[k1] == ':') {
                    None
                } else {
                    let k2 = sskip_ws(v, k1 + 1);
                    if !(k1 + 1 <= k2 && k2 <= v.len()) {
                        None
                    } else {
                        if p.0 == "url"@ {
                            if url is Some {
                                None
                            } else {
                                match sstring(v, k2) {
                                    None => None,
                                    Some(q) => {
                                        if !(j < q.1 && q.1 <= v.len()) {
                                            None
                                        } else {
                                            simage_data_sep(v, q.1, Some(q.0))
                                        }
                                    },
                                }
                            }
                        } else {
                            match sskip_value(v, k2) {
                                None => None,
                                Some(e) => {
                                    if !(j < e && e <= v.len()) {
                                        None
                                    } else {
                                        simage_data_sep(v, e, url)
                                    }
                                },
                            }
                        }
                    }
                }
            }
        },
    }
}

/// What follows a member of an image record.
pub open spec fn simage_data_sep(v: Seq<char>, e: int, url: Option<Seq<char>>) -> Option<
    (Seq<char>, int),
>
    decreases v.len() - e,
{
    let k3 = sskip_ws(v, e);
    if !(e <= k3 && k3 <= v.len()) {
        None
    } else if k3 < v.len() && v[k3] == ',' {
        let m = sskip_ws(v, k3 + 1);
        if !(k3 + 1 <= m && m <= v.len()) {
            None
        } else {
            simage_data_item(v, m, url)
        }
    } else if k3 < v.len() && v[k3] == '}' {
        match url {
            Some(u) => Some((u, k3 + 1)),
            None => None,
        }
    } else {
        None
    }
}

fn parse_image_data(v: &Vec<char>, i: usize) -> (r: Option<(ImageGenerationData, usize)>)
    requires
        i <= v@.len(),
    ensures
        r is Some <==> simage_data(v@, i as int) is Some,
        r matches Some(p) ==> (simage_data(v@, i as int) == Some((p.0.url@, p.1 as int)) && i
            < p.1 <= v@.len()),
{
    if i >= v.len() || v[i] != '{' {
        return None;
    }
    let j = skip_ws(v, i + 1);
    if j < v.len() && v[j] == '}' {
        return None;
    }
    image_data_item(v, j, None)
}

fn image_data_item(v: &Vec<char>, j: usize, url_v: Option<String>) -> (r: Option<
    (ImageGenerationData, usize),
>)
    requires
        j <= v@.len(),
    ensures
        r is Some <==> simage_data_item(v@, j as int, sview(url_v)) is Some,
        r matches Some(p) ==> (simage_data_item(v@, j as int, sview(url_v)) == Some(
            (p.0.url@, p.1 as int),
        ) && j < p.1 <= v@.len()),
    decreases v@.len() - j,
{
    let mut url_v = url_v;
    let p = match parse_string(v, j) {
        Some(p) => p,
        None => {
            return None;
        },
    };
    let k1 = skip_ws(v, p.1);
    if !(k1 < v.len() && v[k1] == ':') {
        return None;
    }
    let k2 = skip_ws(v, k1 + 1);
    let e: usize;
    if key_is(&p.0, "url") {
        if url_v.is_some() {
            return None;
        }
        match parse_string(v, k2) {
            Some(q) => {
                url_v = Some(q.0);
                e = q.1;
            },
            None => {
                return None;
            },
        }
    } else {
        match skip_value(v, k2) {
            Some(k) => {
                e = k;
            },
            None => {
                return None;
            },
        }
    }
    image_data_sep(v, e, url_v)
}

fn image_data_sep(v: &Vec<char>, e: usize, url_v: Option<String>) -> (r: Option<
    (ImageGenerationData, usize),
>)
    requires
        e <= v@.len(),
    ensures
        r is Some <==> simage_data_sep(v@, e as int, sview(url_v)) is Some,
        r matches Some(p) ==> (simage_data_sep(v@, e as int, sview(url_v)) == Some(
            (p.0.url@, p.1 as int),
        ) && e < p.1 <= v@.len()),
    decreases v@.len() - e,
{
    let k3 = skip_ws(v, e);
    if k3 < v.len() && v[k3] == ',' {
        let m = skip_ws(v, k3 + 1);
        image_data_item(v, m, url_v)
    } else if k3 < v.len() && v[k3] == '}' {
        match url_v {
            Some(url) => Some((ImageGenerationData { url }, k3 + 1)),
            None => None,
        }
    } else {
        None
    }
}

/// The URLs and end of the data array.
pub open spec fn simage_list(v: Seq<char>, i: int) -> Option<(Seq<Seq<char>>, int)> {
    if 0 <= i && i < v.len() && v[i] == '[' {
        let j = sskip_ws(v, i + 1);
        if !(i + 1 <= j && j <= v.len()) {
            None
        } else if j < v.len() && v[j] == ']' {
            Some((Seq::empty(), j + 1))
        } else {
            simage_list_item(v, j, Seq::empty())
        }
    } else {
        None
    }
}

/// One image record and what follows it in the data array.
pub open spec fn simage_list_item(v: Seq<char>, j: int, acc: Seq<Seq<char>>) -> Option<
    (Seq<Seq<char>>, int),
>
    decreases v.len() - j,
{
    match simage_data(v, j) {
        None => None,
        Some(p) => {
            if !(j < p.1 && p.1 <= v.len()) {
                None
            } else {
                let k = sskip_ws(v, p.1);
                if !(p.1 <= k && k <= v.len()) {
                    None
                } else if k < v.len() && v[k] == ',' {
                    let m = sskip_ws(v, k + 1);
                    if !(k + 1 <= m && m <= v.len()) {
                        None
                    } else {
                        simage_list_item(v, m, acc.push(p.0))
                    }
                } else if k < v.len() && v[k] == ']' {
                    Some((acc.push(p.0), k + 1))
                } else {
                    None
                }
            }
        },
    }
}

fn parse_image_list(v: &Vec<char>, i: usize) -> (r: Option<(Vec<ImageGenerationData>, usize)>)
    requires
        i <= v@.len(),
    ensures
        r is Some <==> simage_list(v@, i as int) is Some,
        r matches Some(p) ==> (simage_list(v@, i as int) == Some((urls_view(p.0@), p.1 as int))
            && i < p.1 <= v@.len()),
{
    if i >= v.len() || v[i] != '[' {
        return None;
    }
    let j = skip_ws(v, i + 1);
    if j < v.len() && v[j] == ']' {
        proof {
            assert(urls_view(Seq::<ImageGenerationData>::empty()) =~= Seq::<Seq<char>>::empty());
        }
        return Some((Vec::new(), j + 1));
    }
    image_list_item(v, j, Vec::new())
}

fn image_list_item(v: &Vec<char>, j: usize, out: Vec<ImageGenerationData>) -> (r: Option<
    (Vec<ImageGenerationData>, usize),
>)
    requires
        j <= v@.len(),
    ensures
        r is Some <==> simage_list_item(v@, j as int, urls_view(out@)) is Some,
        r matches Some(p) ==> (simage_list_item(v@, j as int, urls_view(out@)) == Some(
            (urls_view(p.0@), p.1 as int),
        ) && j < p.1 <= v@.len()),
    decreases v@.len() - j,
{
    let mut out = out;
    let p = match parse_image_data(v, j) {
        Some(p) => p,
        None => {
            return None;
        },
    };
    let ghost old_out = out@;
    out.push(p.0);
    proof {
        assert(out@.drop_last() =~= old_out);
        assert(urls_view(out@) == urls_view(old_out).push(out@.last().url@));
    }
    let k = skip_ws(v, p.1);
    if k < v.len() && v[k] == ',' {
        let m = skip_ws(v, k + 1);
        image_list_item(v, m, out)
    } else if k < v.len() && v[k] == ']' {
        Some((out, k + 1))
    } else {
        None
    }
}

/// One member of the image response object, given what came before.
pub open spec fn simage_item(v: Seq<char>, j: int, cr: bool, da: Option<Seq<Seq<char>>>) -> Option<
    (Seq<Seq<char>>, int),
>
    decreases v.len() - j,
{
    match sstring(v, j) {
        None => None,
        Some(p) => {
            if !(j < p.1 && p.1 <= v.len()) {
                None
            } else {
                let k1 = sskip_ws(v, p.1);
                if !(p.1 <= k1 && k1 <= v.len() && k1 < v.len() && v[k1] == ':') {
                    None
                } else {
                    let k2 = sskip_ws(v, k1 + 1);
                    if !(k1 + 1 <= k2 && k2 <= v.len()) {
                        None
                    } else {
                        if p.0 == "created"@ {
                            if cr {
                                None
                            } else {
                                match su64(v, k2) {
                                    None => None,
                                    Some(q) => {
                                        if !(j < q.1 && q.1 <= v.len()) {
                                            None
                                        } else {
                                            simage_sep(v, q.1, true, da)
                                        }
                                    },
                                }
                            }
                        } else if p.0 == "data"@ {
                            if da is Some {
                                None
                            } else {
                                match simage_list(v, k2) {
                                    None => None,
                                    Some(q) => {
                                        if !(j < q.1 && q.1 <= v.len()) {
                                            None
                                        } else {
                                            simage_sep(v, q.1, cr, Some(q.0))
                                        }
                                    },
                                }
                            }
                        } else {
                            match sskip_value(v, k2) {
                                None => None,
                                Some(e) => {
                                    if !(j < e && e <= v.len()) {
                                        None
                                    } else {
                                        simage_sep(v, e, cr, da)
                                    }
                                },
                            }
                        }
                    }
                }
            }
        },
    }
}

/// What follows a member of the image response object.
pub open spec fn simage_sep(v: Seq<char>, e: int, cr: bool, da: Option<Seq<Seq<char>>>) -> Option<
    (Seq<Seq<char>>, int),
>
    decreases v.len() - e,
{
    let k3 = sskip_ws(v, e);
    if !(e <= k3 && k3 <= v.len()) {
        None
    } else if k3 < v.len() && v[k3] == ',' {
        let m = sskip_ws(v, k3 + 1);
        if !(k3 + 1 <= m && m <= v.len()) {
            None
        } else {
            simage_item(v, m, cr, da)
        }
    } else if k3 < v.len() && v[k3] == '}' {
        match da {
            Some(us) => {
                if cr {
                    Some((us, k3 + 1))
                } else {
                    None
                }
            },
            None => None,
        }
    } else {
        None
    }
}

/// The URLs of the image response that the whole input decodes to, or
/// `None` where the input does not decode.
pub open spec fn simage_response(v: Seq<char>) -> Option<Seq<Seq<char>>> {
    let j = sskip_ws(v, 0);
    if !(0 <= j && j <= v.len() && j < v.len() && v[j] == '{') {
        None
    } else {
        let k = sskip_ws(v, j + 1);
        if !(j + 1 <= k && k <= v.len()) {
            None
        } else if k < v.len() && v[k] == '}' {
            None
        } else {
            match simage_item(v, k, false, None) {
                None => None,
                Some(p) => {
                    if !(p.1 <= v.len()) {
                        None
                    } else if sskip_ws(v, p.1) == v.len() {
                        Some(p.0)
                    } else {
                        None
                    }
                },
            }
        }
    }
}

fn image_item(
    v: &Vec<char>,
    j: usize,
    created_v: Option<u64>,
    data_v: Option<Vec<ImageGenerationData>>,
) -> (r: Option<(ImageGenerationResponse, usize)>)
    requires
        j <= v@.len(),
    ensures
        r is Some <==> simage_item(v@, j as int, created_v is Some, uview(data_v)) is Some,
        r matches Some(p) ==> (simage_item(v@, j as int, created_v is Some, uview(data_v))
            == Some((urls_view(p.0.data@), p.1 as int)) && j < p.1 <= v@.len()),
    decreases v@.len() - j,
{
    let mut created_v = created_v;
    let mut data_v = data_v;
    let p = match parse_string(v, j) {
        Some(p) => p,
        None => {
            return None;
        },
    };
    let k1 = skip_ws(v, p.1);
    if !(k1 < v.len() && v[k1] == ':') {
        return None;
    }
    let k2 = skip_ws(v, k1 + 1);
    let e: usize;
    if key_is(&p.0, "created") {
        if created_v.is_some() {
            return None;
        }
        match parse_u64(v, k2) {
            Some(q) => {
                created_v = Some(q.0);
                e = q.1;
            },
            None => {
                return None;
            },
        }
    } else if key_is(&p.0, "data") {
        if data_v.is_some() {
            return None;
        }
        match parse_image_list(v, k2) {
            Some(q) => {
                data_v = Some(q.0);
                e = q.1;
            },
            None => {
                return None;
            },
        }
    } else {
        match skip_value(v, k2) {
            Some(k) => {
                e = k;
            },
            None => {
                return None;
            },
        }
    }
    image_sep(v, e, created_v, data_v)
}

fn image_sep(
    v: &Vec<char>,
    e: usize,
    created_v: Option<u64>,
    data_v: Option<Vec<ImageGenerationData>>,
) -> (r: Option<(ImageGenerationResponse, usize)>)
    requires
        e <= v@.len(),
    ensures
        r is Some <==> simage_sep(v@, e as int, created_v is Some, uview(data_v)) is Some,
        r matches Some(p) ==> (simage_sep(v@, e as int, created_v is Some, uview(data_v)) == Some(
            (urls_view(p.0.data@), p.1 as int),
        ) && e < p.1 <= v@.len()),
    decreases v@.len() - e,
{
    let k3 = skip_ws(v, e);
    if k3 < v.len() && v[k3] == ',' {
        let m = skip_ws(v, k3 + 1);
        image_item(v, m, created_v, data_v)
    } else if k3 < v.len() && v[k3] == '}' {
        match (created_v, data_v) {
            (Some(created), Some(data)) => Some(
                (ImageGenerationResponse { created, data }, k3 + 1),
            ),
            _ => None,
        }
    } else {
        None
    }
}

/// Decodes a whole image generation response body; accepted and valued
/// exactly as `simage_response` says.
pub fn parse_image_response(v: &Vec<char>) -> (r: Option<ImageGenerationResponse>)
    ensures
        r is Some <==> simage_response(v@) is Some,
        r matches Some(t) ==> simage_response(v@) == Some(urls_view(t.data@)),
{
    let j = skip_ws(v, 0);
    if j >= v.len() || v[j] != '{' {
        return None;
    }
    let k = skip_ws(v, j + 1);
    if k < v.len() && v[k] == '}' {
        return None;
    }
    let p = match image_item(v, k, None, None) {
        Some(p) => p,
        None => {
            return None;
        },
    };
    let j2 = skip_ws(v, p.1);
    if j2 != v.len() {
        return None;
    }
    Some(p.0)
}

/// Maps a status code and a decoded text response to the result of the
/// operation: any status other than 200 is a service error with the
/// fixed label and that status; a 200 whose body did not decode is a
/// decode error; a decoded 200 yields the concatenated choice texts.
pub fn text_outcome(status: u16, decoded: Option<TextCompletionResponse>) -> (r: Result<
    String,
    ClientError,
>)
    ensures
        status != 200 ==> (r matches Err(e) && e matches ClientError::Service(s)
            && s.message@ == "Error generating text"@ && s.status == status),
        status == 200 && decoded is None ==> r matches Err(ClientError::Decode),
        status == 200 ==> (decoded matches Some(t) ==> (r matches Ok(out) && out@ == texts_of(
            t.choices@,
        ))),
{
    if status != 200 {
        return Err(ClientError::Service(ServiceError::new("Error generating text", status)));
    }
    match decoded {
        Some(t) => Ok(collect_text(&t)),
        None => Err(ClientError::Decode),
    }
}

/// Maps a status code and a decoded image response to the result of the
/// operation, as `text_outcome` does for text.
pub fn image_outcome(status: u16, decoded: Option<ImageGenerationResponse>) -> (r: Result<
    Vec<String>,
    ClientError,
>)
    ensures
        status != 200 ==> (r matches Err(e) && e matches ClientError::Service(s)
            && s.message@ == "Error generating images"@ && s.status == status),
        status == 200 && decoded is None ==> r matches Err(ClientError::Decode),
        status == 200 ==> (decoded matches Some(t) ==> (r matches Ok(us) && us@.len()
            == t.data@.len() && forall|k: int|
            0 <= k < us@.len() ==> us@[k]@ == t.data@[k].url@)),
{
    if status != 200 {
        return Err(ClientError::Service(ServiceError::new("Error generating images", status)));
    }
    match decoded {
        Some(t) => Ok(collect_urls(&t)),
        None => Err(ClientError::Decode),
    }
}

/// The whole receiving half of the text operation: decodes the body only
/// on a 200 status and maps everything through `text_outcome`.
pub fn handle_text_response(status: u16, body: &str) -> (r: Result<String, ClientError>)
    ensures
        status != 200 ==> (r matches Err(e) && e matches ClientError::Service(s)
            && s.message@ == "Error generating text"@ && s.status == status),
        status == 200 ==> (r is Ok <==> stext_response(body@) is Some),
        status == 200 && stext_response(body@) is None ==> r matches Err(ClientError::Decode),
        status == 200 ==> (stext_response(body@) matches Some(ts) ==> (r matches Ok(out) && out@
            == concat_texts(ts))),
{
    if status != 200 {
        return text_outcome(status, None);
    }
    let v = chars_of(body);
    let d = parse_text_response(&v);
    text_outcome(status, d)
}

/// The whole receiving half of the image operation.
pub fn handle_image_response(status: u16, body: &str) -> (r: Result<Vec<String>, ClientError>)
    ensures
        status != 200 ==> (r matches Err(e) && e matches ClientError::Service(s)
            && s.message@ == "Error generating images"@ && s.status == status),
        status == 200 ==> (r is Ok <==> simage_response(body@) is Some),
        status == 200 && simage_response(body@) is None ==> r matches Err(ClientError::Decode),
        status == 200 ==> (simage_response(body@) matches Some(us) ==> (r matches Ok(out)
            && out@.len() == us.len() && forall|k: int|
            0 <= k < out@.len() ==> out@[k]@ == us[k])),
{
    if status != 200 {
        return image_outcome(status, None);
    }
    let v = chars_of(body);
    let d = parse_image_response(&v);
    proof {
        match &d {
            Some(t) => lemma_urls_view_index(t.data@),
            None => (),
        }
    }
    image_outcome(status, d)
}

/// The text written to standard output on a successful text operation:
/// the completion followed by a blank line.
pub fn render_text_output(text: &str) -> (r: String)
    ensures
        r@ == text@ + "\n\n"@,
{
    let mut s = String::from_str(text);
    s.append("\n\n");
    s
}

/// The text written to standard output on a successful image operation:
/// each URL followed by a blank line, in order.
pub open spec fn image_blocks(urls: Seq<String>) -> Seq<char>
    decreases urls.len(),
{
    if urls.len() == 0 {
        Seq::empty()
    } else {
        image_blocks(urls.drop_last()) + urls.last()@ + "\n\n"@
    }
}

/// The wire form of the model member: the given model, or the default.
pub open spec fn model_json(m: Option<String>) -> Seq<char> {
    match m {
        Some(s) => json_string(s@),
        None => json_string("text-davinci-003"@),
    }
}

/// The wire form of the temperature member: the given numeral, or 0.7.
pub open spec fn temperature_chars(t: Option<Temperature>) -> Seq<char> {
    match t {
        Some(tp) => tp.chars(),
        None => dec_digits(0) + "."@ + "7"@,
    }
}

/// The wire form of the max_tokens member: the given count, or 100.
pub open spec fn max_tokens_chars(n: Option<u32>) -> Seq<char> {
    match n {
        Some(k) => dec_digits(k as nat),
        None => dec_digits(100),
    }
}

/// The exact body a text command puts on the wire, defaults applied.
pub open spec fn text_command_body(c: TextCommand) -> Seq<char> {
    "{\"model\":"@ + model_json(c.model) + ",\"prompt\":"@ + json_string(c.description@)
        + ",\"temperature\":"@ + temperature_chars(c.temperature) + ",\"max_tokens\":"@
        + max_tokens_chars(c.max_tokens) + "}"@
}

/// The exact body an image command puts on the wire, defaults applied.
pub open spec fn image_command_body(c: ImageCommand) -> Seq<char> {
    "{\"prompt\":"@ + json_string(c.description@) + ",\"n\":"@ + int_digits(1) + ",\"size\":"@
        + json_string("1024x1024"@) + "}"@
}

/// The sending half of the dispatcher: turns the parsed command line
/// into the absolute endpoint and the exact body of the one request this
/// invocation makes, applying the documented defaults.
pub fn prepare_request(args: Args) -> (r: (String, String))
    requires
        args.commands matches CommandTypes::GenerateText(c) ==> (c.temperature matches Some(t)
            ==> t.wf()),
    ensures
        args.commands matches CommandTypes::GenerateText(c) ==> (r.0@
            == "https://api.openai.com/v1/completions"@ && r.1@ == text_command_body(c)),
        args.commands matches CommandTypes::GenerateImage(c) ==> (r.0@
            == "https://api.openai.com/v1/images/generations"@ && r.1@ == image_command_body(c)),
{
    match args.commands {
        CommandTypes::GenerateText(c) => {
            let payload = TextCompletionPayload::new(
                c.description.as_str(),
                &c.model,
                c.temperature,
                c.max_tokens,
            );
            proof {
                reveal_strlit("7");
                assert(payload.temperature.wf());
            }
            let body = payload.to_json();
            proof {
                assert(body@ =~= text_command_body(c));
            }
            (crate::completions_url(), body)
        },
        CommandTypes::GenerateImage(c) => {
            let payload = ImageGenerationPayload::new(c.description.as_str(), None, None);
            let body = payload.to_json();
            proof {
                assert(body@ =~= image_command_body(c));
            }
            (crate::images_url(), body)
        },
    }
}

/// The serialized text body up to the prompt member.
pub open spec fn text_json_before_prompt(p: TextCompletionPayload) -> Seq<char> {
    "{\"model\":"@ + json_string(p.model@) + ","@
}

/// The serialized text body after the prompt member.
pub open spec fn text_json_after_prompt(p: TextCompletionPayload) -> Seq<char> {
    ",\"temperature\":"@ + p.temperature.chars() + ",\"max_tokens\":"@ + dec_digits(
        p.max_tokens as nat,
    ) + "}"@
}

/// The serialized image body after the prompt member.
pub open spec fn image_json_after_prompt(p: ImageGenerationPayload) -> Seq<char> {
    ",\"n\":"@ + int_digits(p.number_of_images as int) + ",\"size\":"@ + json_string(
        p.image_size@,
    ) + "}"@
}

/// Field renaming: whatever the payload fields are called inside the
/// library, the wire member that carries the user's description is named
/// `prompt` in both operations; each serialized body splits around a
/// literal `"prompt":` followed by the quoted description.
pub proof fn lemma_prompt_field_name(t: TextCompletionPayload, i: ImageGenerationPayload)
    ensures
        text_payload_json(t) == text_json_before_prompt(t) + "\"prompt\":"@ + json_string(
            t.description@,
        ) + text_json_after_prompt(t),
        image_payload_json(i) == "{"@ + "\"prompt\":"@ + json_string(i.description@)
            + image_json_after_prompt(i),
{
    reveal_strlit("{\"model\":");
    reveal_strlit(",");
    reveal_strlit("\"prompt\":");
    reveal_strlit(",\"prompt\":");
    reveal_strlit("{\"prompt\":");
    reveal_strlit("{");
    assert(text_payload_json(t) =~= text_json_before_prompt(t) + "\"prompt\":"@ + json_string(
        t.description@,
    ) + text_json_after_prompt(t));
    assert(image_payload_json(i) =~= "{"@ + "\"prompt\":"@ + json_string(i.description@)
        + image_json_after_prompt(i));
}

/// Default application: a text payload whose fields hold the defaults
/// (model `text-davinci-003`, temperature 0.7, 100 tokens) serializes
/// with exactly those members written out on the wire.
pub proof fn lemma_text_defaults_serialization(p: TextCompletionPayload)
    requires
        p.model@ == "text-davinci-003"@,
        p.temperature.whole == 0,
        p.temperature.frac@ == "7"@,
        p.max_tokens == 100,
    ensures
        text_payload_json(p) == "{\"model\":\"text-davinci-003\",\"prompt\":"@ + json_string(
            p.description@,
        ) + ",\"temperature\":0.7,\"max_tokens\":100}"@,
{
    reveal_strlit("{\"model\":");
    reveal_strlit("text-davinci-003");
    reveal_strlit("\"");
    reveal_strlit(",\"prompt\":");
    reveal_strlit(",\"temperature\":");
    reveal_strlit(".");
    reveal_strlit("7");
    reveal_strlit(",\"max_tokens\":");
    reveal_strlit("}");
    reveal_strlit("{\"model\":\"text-davinci-003\",\"prompt\":");
    reveal_strlit(",\"temperature\":0.7,\"max_tokens\":100}");
    reveal_with_fuel(crate::json::escape_seq, 20);
    reveal_with_fuel(crate::json::dec_digits, 5);
    assert(escape_seq("text-davinci-003"@) =~= "text-davinci-003"@);
    assert(dec_digits(100 as nat) =~= seq!['1', '0', '0']);
    assert(text_payload_json(p) =~= "{\"model\":\"text-davinci-003\",\"prompt\":"@ + json_string(
        p.description@,
    ) + ",\"temperature\":0.7,\"max_tokens\":100}"@);
}

/// Image defaults: an image payload whose fields hold the defaults (one
/// image, size 1024x1024) serializes with `"n":1` and
/// `"size":"1024x1024"` written out on the wire.
pub proof fn lemma_image_defaults_serialization(p: ImageGenerationPayload)
    requires
        p.number_of_images == 1,
        p.image_size@ == "1024x1024"@,
    ensures
        image_payload_json(p) == "{\"prompt\":"@ + json_string(p.description@)
            + ",\"n\":1,\"size\":\"1024x1024\"}"@,
{
    reveal_strlit("{\"prompt\":");
    reveal_strlit(",\"n\":");
    reveal_strlit(",\"size\":");
    reveal_strlit("\"");
    reveal_strlit("}");
    reveal_strlit("1024x1024");
    reveal_strlit(",\"n\":1,\"size\":\"1024x1024\"}");
    reveal_with_fuel(crate::json::escape_seq, 12);
    reveal_with_fuel(crate::json::dec_digits, 3);
    assert(escape_seq("1024x1024"@) =~= "1024x1024"@);
    assert(image_payload_json(p) =~= "{\"prompt\":"@ + json_string(p.description@)
        + ",\"n\":1,\"size\":\"1024x1024\"}"@);
}

/// Whether `needle` occurs as a contiguous run inside `hay`.
pub open spec fn contains_seq(hay: Seq<char>, needle: Seq<char>) -> bool {
    exists|k: int|
        0 <= k && k + needle.len() <= hay.len() && #[trigger] hay.subrange(k, k + needle.len())
            == needle
}

/// No secret leakage: the two response handlers only ever produce a
/// service error with one of the two fixed labels or a decode error, so
/// a credential that does not occur in those fixed diagnostics never
/// appears in the diagnostic of an error they return.
pub proof fn lemma_no_credential_in_handler_diagnostic(e: ClientError, cred: Seq<char>)
    requires
        e matches ClientError::Service(s) ==> (s.message@ == "Error generating text"@
            || s.message@ == "Error generating images"@),
        e is Service || e is Decode,
        !contains_seq("Error generating text"@, cred),
        !contains_seq("Error generating images"@, cred),
        !contains_seq("DecodeError: response body did not match the expected schema"@, cred),
    ensures
        !contains_seq(diagnostic_spec(e), cred),
{
}

/// Renders the image URLs for standard output, in server order.
pub fn render_image_output(urls: &Vec<String>) -> (r: String)
    ensures
        r@ == image_blocks(urls@),
{
    let mut out = String::new();
    proof {
        assert(urls@.subrange(0, 0) =~= Seq::<String>::empty());
    }
    let mut i: usize = 0;
    while i < urls.len()
        invariant
            i <= urls@.len(),
            out@ == image_blocks(urls@.subrange(0, i as int)),
        decreases urls@.len() - i,
    {
        out.append(urls[i].as_str());
        out.append("\n\n");
        proof {
            let ext = urls@.subrange(0, i as int + 1);
            assert(ext.drop_last() =~= urls@.subrange(0, i as int));
            assert(ext.last() == urls@[i as int]);
        }
        i += 1;
    }
    proof {
        assert(urls@.subrange(0, urls@.len() as int) =~= urls@);
    }
    out
}

} // verus!
