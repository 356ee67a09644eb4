//! The client/server wire protocol.
//!
//! Each wire message is one self-contained JSON document with an integer
//! `type` discriminant and type-specific fields.  Decoding leans on the
//! JSON parser behind [`crate::json`]; every decision over the extracted
//! plain values stands in [`WireRequest::from_parts`] with an exact
//! contract.  Encoding of responses is the library's own, verified
//! character for character.

use vstd::prelude::*;
use vstd::string::{StrSliceExecFns, StringExecFns};

use crate::decimal::{dec_rep, lemma_dec_rep_digits, push_decimal};
use crate::json::{doc_str_field, doc_string_field, doc_type, doc_type_field};
use crate::message::MessageType;
use crate::names::valid_model_name;
use crate::worker::layer_info;

verus! {

/// One decoded client request.
#[derive(Debug)]
pub enum WireRequest {
    CreateModel { name: String, net_cfg: String },
    GetAvailableModels,
    GetLoadedModels,
    ModelInfo { mdl_name: String },
    LoadModel { mdl_name: String },
    UnloadModel { mdl_name: String },
    SaveModelCfg { mdl_name: String },
}

/// The mathematical shape of a decoded request.
pub ghost enum WireRequestV {
    CreateModel { name: Seq<char>, net_cfg: Seq<char> },
    GetAvailableModels,
    GetLoadedModels,
    ModelInfo { mdl_name: Seq<char> },
    LoadModel { mdl_name: Seq<char> },
    UnloadModel { mdl_name: Seq<char> },
    SaveModelCfg { mdl_name: Seq<char> },
}

impl View for WireRequest {
    type V = WireRequestV;

    open spec fn view(&self) -> WireRequestV {
        match self {
            WireRequest::CreateModel { name, net_cfg } => WireRequestV::CreateModel {
                name: name@,
                net_cfg: net_cfg@,
            },
            WireRequest::GetAvailableModels => WireRequestV::GetAvailableModels,
            WireRequest::GetLoadedModels => WireRequestV::GetLoadedModels,
            WireRequest::ModelInfo { mdl_name } => WireRequestV::ModelInfo { mdl_name: mdl_name@ },
            WireRequest::LoadModel { mdl_name } => WireRequestV::LoadModel { mdl_name: mdl_name@ },
            WireRequest::UnloadModel { mdl_name } => WireRequestV::UnloadModel {
                mdl_name: mdl_name@,
            },
            WireRequest::SaveModelCfg { mdl_name } => WireRequestV::SaveModelCfg {
                mdl_name: mdl_name@,
            },
        }
    }
}

/// The request a `type` discriminant and the three optional string fields
/// of a wire document stand for, if any.
///
/// Unknown discriminants, discriminants that name no served request
/// (deletion, training, evaluation and state snapshots are protocol surface
/// without a server action here), documents missing a required field, and
/// creations under a malformed model name all yield `None`: such documents
/// are dropped without closing the connection.
pub open spec fn spec_from_parts(
    code: u64,
    name: Option<Seq<char>>,
    net_cfg: Option<Seq<char>>,
    mdl_name: Option<Seq<char>>,
) -> Option<WireRequestV> {
    match MessageType::spec_from_u64(code) {
        None => None,
        Some(t) => match t {
            MessageType::CreateModel => if name is Some && valid_model_name(name->0)
                && net_cfg is Some {
                Some(WireRequestV::CreateModel { name: name->0, net_cfg: net_cfg->0 })
            } else {
                None
            },
            MessageType::GetAvailableModels => Some(WireRequestV::GetAvailableModels),
            MessageType::GetLoadedModels => Some(WireRequestV::GetLoadedModels),
            MessageType::ModelInfo => if mdl_name is Some {
                Some(WireRequestV::ModelInfo { mdl_name: mdl_name->0 })
            } else {
                None
            },
            MessageType::LoadModel => if mdl_name is Some {
                Some(WireRequestV::LoadModel { mdl_name: mdl_name->0 })
            } else {
                None
            },
            MessageType::UnloadModel => if mdl_name is Some {
                Some(WireRequestV::UnloadModel { mdl_name: mdl_name->0 })
            } else {
                None
            },
            MessageType::SaveModelCfg => if mdl_name is Some {
                Some(WireRequestV::SaveModelCfg { mdl_name: mdl_name->0 })
            } else {
                None
            },
            _ => None,
        },
    }
}

/// The names a request may ask the registry to create are well formed.
pub open spec fn request_wf(r: WireRequestV) -> bool {
    match r {
        WireRequestV::CreateModel { name, net_cfg } => valid_model_name(name),
        _ => true,
    }
}

impl WireRequest {
    /// Assembles a request from a document's discriminant and its optional
    /// `name`, `net_cfg` and `mdl_name` fields; see [`spec_from_parts`].
    pub fn from_parts(
        code: u64,
        name: Option<String>,
        net_cfg: Option<String>,
        mdl_name: Option<String>,
    ) -> (r: Option<WireRequest>)
        ensures
            match r {
                Some(req) => Some(req@) == spec_from_parts(
                    code,
                    name.deep_view(),
                    net_cfg.deep_view(),
                    mdl_name.deep_view(),
                ) && request_wf(req@),
                None => spec_from_parts(
                    code,
                    name.deep_view(),
                    net_cfg.deep_view(),
                    mdl_name.deep_view(),
                ) is None,
            },
    {
        match MessageType::from_u64(code) {
            None => None,
            Some(t) => match t {
                MessageType::CreateModel => match (name, net_cfg) {
                    (Some(n), Some(c)) => {
                        if crate::names::is_valid_model_name(n.as_str()) {
                            Some(WireRequest::CreateModel { name: n, net_cfg: c })
                        } else {
                            None
                        }
                    },
                    _ => None,
                },
                MessageType::GetAvailableModels => Some(WireRequest::GetAvailableModels),
                MessageType::GetLoadedModels => Some(WireRequest::GetLoadedModels),
                MessageType::ModelInfo => match mdl_name {
                    Some(m) => Some(WireRequest::ModelInfo { mdl_name: m }),
                    None => None,
                },
                MessageType::LoadModel => match mdl_name {
                    Some(m) => Some(WireRequest::LoadModel { mdl_name: m }),
                    None => None,
                },
                MessageType::UnloadModel => match mdl_name {
                    Some(m) => Some(WireRequest::UnloadModel { mdl_name: m }),
                    None => None,
                },
                MessageType::SaveModelCfg => match mdl_name {
                    Some(m) => Some(WireRequest::SaveModelCfg { mdl_name: m }),
                    None => None,
                },
                _ => None,
            },
        }
    }
}

/// The request one wire document decodes to: the `type` field picks the
/// discriminant, the named string fields fill it in, and a document with no
/// usable `type` field decodes to nothing.
pub open spec fn spec_decode(bytes: Seq<u8>) -> Option<WireRequestV> {
    match doc_type(bytes) {
        None => None,
        Some(code) => spec_from_parts(
            code,
            doc_str_field(bytes, "name"@),
            doc_str_field(bytes, "net_cfg"@),
            doc_str_field(bytes, "mdl_name"@),
        ),
    }
}

/// Decodes one wire document, exactly [`spec_decode`] of its bytes.
///
/// The JSON syntax is the parser's (trusted, [`crate::json`]); every
/// decision from the extracted discriminant and fields onward is
/// [`WireRequest::from_parts`], whose contract is exact.  `None` means the
/// document is dropped without closing the connection.
pub fn decode_request(bytes: &[u8]) -> (r: Option<WireRequest>)
    ensures
        (match r {
            Some(req) => Some(req@) == spec_decode(bytes@) && request_wf(req@),
            None => spec_decode(bytes@) is None,
        }),
{
    let code = match doc_type_field(bytes) {
        Some(c) => c,
        None => {
            return None;
        },
    };
    let name = doc_string_field(bytes, "name");
    let net_cfg = doc_string_field(bytes, "net_cfg");
    let mdl_name = doc_string_field(bytes, "mdl_name");
    WireRequest::from_parts(code, name, net_cfg, mdl_name)
}

/// One server response, before encoding.
#[derive(Debug)]
pub enum WireResponse {
    CreateSuccess,
    CreateFailure,
    AvailableModels(Vec<String>),
    LoadedModels(Vec<String>),
    ModelInfoSuccess(String),
    ModelInfoFailure,
    SaveCfgStatus(bool),
    LoadStatus(bool),
}

/// A character that may stand raw inside a JSON string: printable ASCII
/// other than the quote and the backslash.
pub open spec fn json_plain_char(c: char) -> bool {
    32 <= c as u32 && c as u32 <= 126 && c as u32 != 34 && c as u32 != 92
}

/// Text that needs no escaping inside a JSON string.
pub open spec fn json_plain(s: Seq<char>) -> bool {
    forall|i: int| 0 <= i < s.len() ==> json_plain_char(#[trigger] s[i])
}

/// Every string carried by the response needs no escaping.  Model names
/// and structural summaries satisfy this by construction
/// ([`lemma_valid_name_json_plain`], [`lemma_layer_info_json_plain`]).
pub open spec fn response_wf(r: WireResponse) -> bool {
    match r {
        WireResponse::AvailableModels(v) => forall|i: int|
            0 <= i < v@.len() ==> json_plain(#[trigger] v@[i]@),
        WireResponse::LoadedModels(v) => forall|i: int|
            0 <= i < v@.len() ==> json_plain(#[trigger] v@[i]@),
        WireResponse::ModelInfoSuccess(s) => json_plain(s@),
        _ => true,
    }
}

/// A well-formed model name needs no escaping inside a JSON string.
pub proof fn lemma_valid_name_json_plain(s: Seq<char>)
    requires
        valid_model_name(s),
    ensures
        json_plain(s),
{
    assert forall|i: int| 0 <= i < s.len() implies json_plain_char(s[i]) by {
        assert(crate::names::allowed_name_char(s[i]));
    }
}

/// A structural summary needs no escaping inside a JSON string.
pub proof fn lemma_layer_info_json_plain(sizes: Seq<usize>)
    ensures
        json_plain(layer_info(sizes)),
    decreases sizes.len(),
{
    if sizes.len() == 0 {
    } else if sizes.len() == 1 {
        lemma_dec_rep_digits(sizes[0] as int);
    } else {
        lemma_layer_info_json_plain(sizes.drop_last());
        lemma_dec_rep_digits(sizes.last() as int);
        let pre = layer_info(sizes.drop_last());
        let tail = dec_rep(sizes.last() as int);
        let whole = layer_info(sizes);
        assert forall|i: int| 0 <= i < whole.len() implies json_plain_char(whole[i]) by {
            if i < pre.len() {
                assert(whole[i] == pre[i]);
            } else if i == pre.len() {
                assert(whole[i] == '-');
            } else {
                assert(whole[i] == tail[i - pre.len() - 1]);
            }
        }
    }
}

/// `"type":` — the discriminant key with its separator.
pub open spec fn type_key() -> Seq<char> {
    seq!['"', 't', 'y', 'p', 'e', '"', ':']
}

/// A document carrying only a discriminant, `{"type":N}`.
pub open spec fn type_obj(code: int) -> Seq<char> {
    seq!['{'] + type_key() + dec_rep(code) + seq!['}']
}

/// `,"type":N}` — how every document with a payload field ends; keys are
/// emitted in lexicographic order, the discriminant last.
pub open spec fn type_suffix(code: int) -> Seq<char> {
    seq![','] + type_key() + dec_rep(code) + seq!['}']
}

/// A document with one payload field and the discriminant.
pub open spec fn field_obj(key: Seq<char>, value: Seq<char>, code: int) -> Seq<char> {
    seq!['{', '"'] + key + seq!['"', ':'] + value + type_suffix(code)
}

/// A JSON string literal around text that needs no escaping.
pub open spec fn json_str_lit(s: Seq<char>) -> Seq<char> {
    seq!['"'] + s + seq!['"']
}

/// The elements of a JSON array of strings, comma-separated.
pub open spec fn arr_inner(v: Seq<Seq<char>>) -> Seq<char>
    decreases v.len(),
{
    if v.len() == 0 {
        Seq::empty()
    } else if v.len() == 1 {
        json_str_lit(v[0])
    } else {
        arr_inner(v.drop_last()) + seq![','] + json_str_lit(v.last())
    }
}

/// A JSON array of strings.
pub open spec fn json_str_array(v: Seq<Seq<char>>) -> Seq<char> {
    seq!['['] + arr_inner(v) + seq![']']
}

pub open spec fn available_key() -> Seq<char> {
    seq!['a', 'v', 'a', 'i', 'l', 'a', 'b', 'l', 'e', '_', 'm', 'd', 'l', 's']
}

pub open spec fn loaded_key() -> Seq<char> {
    seq!['l', 'o', 'a', 'd', 'e', 'd', '_', 'm', 'd', 'l', 's']
}

pub open spec fn info_key() -> Seq<char> {
    seq!['m', 'd', 'l', '_', 'i', 'n', 'f', 'o']
}

pub open spec fn status_key() -> Seq<char> {
    seq!['s', 't', 'a', 't', 'u', 's']
}

/// The exact document each response encodes to.
pub open spec fn response_json(r: WireResponse) -> Seq<char> {
    match r {
        WireResponse::CreateSuccess => type_obj(
            MessageType::RespModelCreateSuccess.code_spec() as int,
        ),
        WireResponse::CreateFailure => type_obj(
            MessageType::RespModelCreateFailure.code_spec() as int,
        ),
        WireResponse::AvailableModels(v) => field_obj(
            available_key(),
            json_str_array(v.deep_view()),
            MessageType::RespAvailableModels.code_spec() as int,
        ),
        WireResponse::LoadedModels(v) => field_obj(
            loaded_key(),
            json_str_array(v.deep_view()),
            MessageType::RespLoadedModels.code_spec() as int,
        ),
        WireResponse::ModelInfoSuccess(s) => field_obj(
            info_key(),
            json_str_lit(s@),
            MessageType::RespModelInfoSuccess.code_spec() as int,
        ),
        WireResponse::ModelInfoFailure => type_obj(
            MessageType::RespModelInfoFailure.code_spec() as int,
        ),
        WireResponse::SaveCfgStatus(b) => field_obj(
            status_key(),
            dec_rep(if b { 1 } else { 0 }),
            MessageType::RespModelSaveCfg.code_spec() as int,
        ),
        WireResponse::LoadStatus(b) => field_obj(
            status_key(),
            dec_rep(if b { 1 } else { 0 }),
            MessageType::RespLoadModel.code_spec() as int,
        ),
    }
}

/// Decides `json_plain`.
fn is_json_plain(s: &str) -> (r: bool)
    ensures
        r == json_plain(s@),
{
    let n = s.unicode_len();
    let mut i: usize = 0;
    while i < n
        invariant
            i <= n,
            n == s@.len(),
            forall|j: int| 0 <= j < i ==> json_plain_char(#[trigger] s@[j]),
        decreases n - i,
    {
        let c = s.get_char(i);
        let u = c as u32;
        if !(32 <= u && u <= 126 && u != 34 && u != 92) {
            return false;
        }
        i += 1;
    }
    true
}

/// Decides `response_wf`, so that an unverified caller can test it before
/// asking for an encoding.
pub fn response_encodable(resp: &WireResponse) -> (r: bool)
    ensures
        r == response_wf(*resp),
{
    match resp {
        WireResponse::AvailableModels(v) => all_json_plain(v),
        WireResponse::LoadedModels(v) => all_json_plain(v),
        WireResponse::ModelInfoSuccess(s) => is_json_plain(s.as_str()),
        _ => true,
    }
}

/// Decides `json_plain` for every element.
fn all_json_plain(v: &Vec<String>) -> (r: bool)
    ensures
        r == (forall|j: int| 0 <= j < v@.len() ==> json_plain(#[trigger] v@[j]@)),
{
    let mut i: usize = 0;
    while i < v.len()
        invariant
            i <= v@.len(),
            forall|j: int| 0 <= j < i ==> json_plain(#[trigger] v@[j]@),
        decreases v@.len() - i,
    {
        if !is_json_plain(v[i].as_str()) {
            return false;
        }
        i += 1;
    }
    true
}

/// Appends `"s"`.
fn push_json_string(out: &mut String, s: &str)
    requires
        json_plain(s@),
    ensures
        final(out)@ == old(out)@ + json_str_lit(s@),
{
    proof {
        reveal_strlit("\"");
    }
    out.append("\"");
    out.append(s);
    out.append("\"");
    proof {
        assert("\""@ =~= seq!['"']);
        assert(out@ =~= old(out)@ + json_str_lit(s@));
    }
}

/// Appends `["a","b",...]`.
fn push_str_array(out: &mut String, v: &Vec<String>)
    requires
        forall|i: int| 0 <= i < v@.len() ==> json_plain(#[trigger] v@[i]@),
    ensures
        final(out)@ == old(out)@ + json_str_array(v.deep_view()),
{
    proof {
        reveal_strlit("[");
        reveal_strlit("]");
        reveal_strlit(",");
        assert("["@ =~= seq!['[']);
    }
    out.append("[");
    let mut i: usize = 0;
    while i < v.len()
        invariant
            i <= v@.len(),
            forall|k: int| 0 <= k < v@.len() ==> json_plain(#[trigger] v@[k]@),
            out@ == old(out)@ + seq!['['] + arr_inner(v.deep_view().take(i as int)),
        decreases v@.len() - i,
    {
        if i > 0 {
            out.append(",");
            proof {
                reveal_strlit(",");
                assert(","@ =~= seq![',']);
            }
        }
        push_json_string(out, v[i].as_str());
        proof {
            let dv = v.deep_view();
            let taken = dv.take(i as int + 1);
            assert(taken.drop_last() =~= dv.take(i as int));
            assert(taken.last() == v@[i as int]@);
            assert(out@ =~= old(out)@ + seq!['['] + arr_inner(taken));
        }
        i += 1;
    }
    out.append("]");
    proof {
        reveal_strlit("]");
        assert("]"@ =~= seq![']']);
        assert(v.deep_view().take(v.deep_view().len() as int) =~= v.deep_view());
        assert(out@ =~= old(out)@ + json_str_array(v.deep_view()));
    }
}

/// Appends `{"type":N}`.
fn push_type_obj(out: &mut String, t: MessageType)
    ensures
        final(out)@ == old(out)@ + type_obj(t.code_spec() as int),
{
    proof {
        reveal_strlit("{\"type\":");
        reveal_strlit("}");
    }
    out.append("{\"type\":");
    let code = t.code();
    proof {
        assert(code <= 20);
    }
    push_decimal(out, code as usize);
    out.append("}");
    proof {
        assert("{\"type\":"@ =~= seq!['{'] + type_key());
        assert("}"@ =~= seq!['}']);
        assert(out@ =~= old(out)@ + type_obj(t.code_spec() as int));
    }
}

/// Appends `,"type":N}`.
fn push_type_suffix(out: &mut String, t: MessageType)
    ensures
        final(out)@ == old(out)@ + type_suffix(t.code_spec() as int),
{
    proof {
        reveal_strlit(",\"type\":");
        reveal_strlit("}");
    }
    out.append(",\"type\":");
    let code = t.code();
    proof {
        assert(code <= 20);
    }
    push_decimal(out, code as usize);
    out.append("}");
    proof {
        assert(",\"type\":"@ =~= seq![','] + type_key());
        assert("}"@ =~= seq!['}']);
        assert(out@ =~= old(out)@ + type_suffix(t.code_spec() as int));
    }
}

/// Encodes one response as its wire document, exactly
/// [`response_json`]; one such document is written per response.
pub fn encode_response(resp: &WireResponse) -> (out: String)
    requires
        response_wf(*resp),
    ensures
        out@ == response_json(*resp),
{
    let mut out = String::new();
    match resp {
        WireResponse::CreateSuccess => {
            push_type_obj(&mut out, MessageType::RespModelCreateSuccess);
        },
        WireResponse::CreateFailure => {
            push_type_obj(&mut out, MessageType::RespModelCreateFailure);
        },
        WireResponse::AvailableModels(v) => {
            proof {
                reveal_strlit("{\"available_mdls\":");
            }
            out.append("{\"available_mdls\":");
            proof {
                assert("{\"available_mdls\":"@ =~= seq!['{', '"'] + available_key() + seq![
                    '"',
                    ':',
                ]);
            }
            push_str_array(&mut out, v);
            push_type_suffix(&mut out, MessageType::RespAvailableModels);
            proof {
                assert(out@ =~= response_json(*resp));
            }
        },
        WireResponse::LoadedModels(v) => {
            proof {
                reveal_strlit("{\"loaded_mdls\":");
            }
            out.append("{\"loaded_mdls\":");
            proof {
                assert("{\"loaded_mdls\":"@ =~= seq!['{', '"'] + loaded_key() + seq!['"', ':']);
            }
            push_str_array(&mut out, v);
            push_type_suffix(&mut out, MessageType::RespLoadedModels);
            proof {
                assert(out@ =~= response_json(*resp));
            }
        },
        WireResponse::ModelInfoSuccess(s) => {
            proof {
                reveal_strlit("{\"mdl_info\":");
            }
            out.append("{\"mdl_info\":");
            proof {
                assert("{\"mdl_info\":"@ =~= seq!['{', '"'] + info_key() + seq!['"', ':']);
            }
            push_json_string(&mut out, s.as_str());
            push_type_suffix(&mut out, MessageType::RespModelInfoSuccess);
            proof {
                assert(out@ =~= response_json(*resp));
            }
        },
        WireResponse::ModelInfoFailure => {
            push_type_obj(&mut out, MessageType::RespModelInfoFailure);
        },
        WireResponse::SaveCfgStatus(b) => {
            proof {
                reveal_strlit("{\"status\":");
            }
            out.append("{\"status\":");
            proof {
                assert("{\"status\":"@ =~= seq!['{', '"'] + status_key() + seq!['"', ':']);
            }
            push_decimal(&mut out, if *b { 1 } else { 0 });
            push_type_suffix(&mut out, MessageType::RespModelSaveCfg);
            proof {
                assert(out@ =~= response_json(*resp));
            }
        },
        WireResponse::LoadStatus(b) => {
            proof {
                reveal_strlit("{\"status\":");
            }
            out.append("{\"status\":");
            proof {
                assert("{\"status\":"@ =~= seq!['{', '"'] + status_key() + seq!['"', ':']);
            }
            push_decimal(&mut out, if *b { 1 } else { 0 });
            push_type_suffix(&mut out, MessageType::RespLoadModel);
            proof {
                assert(out@ =~= response_json(*resp));
            }
        },
    }
    out
}

} // verus!
