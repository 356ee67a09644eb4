//! Request dispatch: one decoded wire request against the registry.
//!
//! This is the decision core of a connection handler.  The handler's loop —
//! socket reads and writes, the lock around the registry, the worker round
//! trips — lives outside the library; it hands each decoded request to
//! [`handle_request`] under the registry lock and performs what the
//! returned [`DispatchOutcome`] says.  Success and failure are always
//! distinct, explicit responses; only a malformed document (which never
//! reaches here) is dropped.

use vstd::prelude::*;

use crate::errors::NnioError;
use crate::mdl_storage::{
    create_next, create_result, describe_spec, lemma_loaded_names_seq_elem, load_result,
    loaded_names_seq, save_result, unload_next, ModelStorage,
};
use crate::names::valid_model_name;
use crate::wire::{
    lemma_valid_name_json_plain, request_wf, response_wf, WireRequest, WireRequestV, WireResponse,
};

verus! {

/// What a connection handler must do after dispatching one request.
#[derive(Debug)]
pub enum DispatchOutcome {
    /// Encode this response and write it back.
    Respond(WireResponse),
    /// Nothing travels back: unloading is fire-and-forget on the wire.
    NoResponse,
    /// The load decision passed: construct a model from this persisted
    /// definition on a fresh worker context, then call
    /// [`ModelStorage::install_worker`] and answer with [`load_response`],
    /// all before the registry lock is released.
    LoadConstruct(String),
    /// The describe decision passed: perform the `DescribeInfo` round trip
    /// with the model's worker, judge the reply with
    /// [`crate::mdl_storage::get_model_info_complete`], and answer with
    /// [`describe_response`], all before the registry lock is released.
    DescribeRoundTrip,
    /// The save decision passed: perform the `SaveCfg` round trip with the
    /// model's worker and answer with [`save_response`], all before the
    /// registry lock is released.
    SaveRoundTrip,
}

/// Dispatches one decoded request, §4.3's table: the registry call decides,
/// and every outcome is stated exactly over the registry's view.
pub fn handle_request(st: &mut ModelStorage, req: WireRequest) -> (r: DispatchOutcome)
    requires
        old(st).wf(),
        request_wf(req@),
    ensures
        final(st).wf(),
        (match req@ {
            WireRequestV::CreateModel { name, net_cfg } => {
                &&& final(st)@ == create_next(old(st)@, name, net_cfg, false)
                &&& (create_result(old(st)@, name, false) is Ok ==> r == DispatchOutcome::Respond(
                    WireResponse::CreateSuccess,
                ))
                &&& (create_result(old(st)@, name, false) is Err ==> r == DispatchOutcome::Respond(
                    WireResponse::CreateFailure,
                ) && *final(st) == *old(st))
            },
            WireRequestV::GetAvailableModels => {
                &&& *final(st) == *old(st)
                &&& (r matches DispatchOutcome::Respond(resp) && resp matches
                    WireResponse::AvailableModels(v) && v@.len() == old(st).mdls@.len() && (forall|
                    i: int,
                |
                    0 <= i < v@.len() ==> #[trigger] v@[i]@ == old(st).mdls@[i].name@))
            },
            WireRequestV::GetLoadedModels => {
                &&& *final(st) == *old(st)
                &&& (r matches DispatchOutcome::Respond(resp) && resp matches
                    WireResponse::LoadedModels(v) && v.deep_view() == loaded_names_seq(
                    old(st).mdls@,
                ))
            },
            WireRequestV::ModelInfo { mdl_name } => {
                &&& *final(st) == *old(st)
                &&& (match describe_spec(old(st)@, mdl_name) {
                    Some(_) => r == DispatchOutcome::DescribeRoundTrip,
                    None => r == DispatchOutcome::Respond(WireResponse::ModelInfoFailure),
                })
            },
            WireRequestV::LoadModel { mdl_name } => {
                &&& *final(st) == *old(st)
                &&& (match load_result(old(st)@, mdl_name) {
                    Ok(()) => (r matches DispatchOutcome::LoadConstruct(d) && d@ == old(
                        st,
                    )@[mdl_name].definition),
                    Err(_) => r == DispatchOutcome::Respond(WireResponse::LoadStatus(false)),
                })
            },
            WireRequestV::UnloadModel { mdl_name } => {
                &&& final(st)@ == unload_next(old(st)@, mdl_name)
                &&& r == DispatchOutcome::NoResponse
            },
            WireRequestV::SaveModelCfg { mdl_name } => {
                &&& *final(st) == *old(st)
                &&& (match save_result(old(st)@, mdl_name) {
                    Ok(()) => r == DispatchOutcome::SaveRoundTrip,
                    Err(_) => r == DispatchOutcome::Respond(WireResponse::SaveCfgStatus(false)),
                })
            },
        }),
        (r matches DispatchOutcome::Respond(resp) ==> response_wf(resp)),
{
    match req {
        WireRequest::CreateModel { name, net_cfg } => {
            match st.create_model(net_cfg, name, false) {
                Ok(()) => DispatchOutcome::Respond(WireResponse::CreateSuccess),
                Err(_) => DispatchOutcome::Respond(WireResponse::CreateFailure),
            }
        },
        WireRequest::GetAvailableModels => {
            let v = st.get_availabel_models();
            proof {
                assert forall|i: int| 0 <= i < v@.len() implies crate::wire::json_plain(
                    #[trigger] v@[i]@,
                ) by {
                    assert(v@[i]@ == st.mdls@[i].name@);
                    assert(valid_model_name(st.mdls@[i].name@));
                    lemma_valid_name_json_plain(v@[i]@);
                }
            }
            DispatchOutcome::Respond(WireResponse::AvailableModels(v))
        },
        WireRequest::GetLoadedModels => {
            let v = st.get_loaded_models();
            proof {
                assert forall|i: int| 0 <= i < v@.len() implies crate::wire::json_plain(
                    #[trigger] v@[i]@,
                ) by {
                    assert(v@[i]@ == v.deep_view()[i]);
                    lemma_loaded_names_seq_elem(st.mdls@, i);
                    let w = choose|w: int|
                        0 <= w < st.mdls@.len() && #[trigger] st.mdls@[w].name@
                            == loaded_names_seq(st.mdls@)[i] && st.mdls@[w].worker is Some;
                    assert(valid_model_name(st.mdls@[w].name@));
                    lemma_valid_name_json_plain(v@[i]@);
                }
            }
            DispatchOutcome::Respond(WireResponse::LoadedModels(v))
        },
        WireRequest::ModelInfo { mdl_name } => {
            if st.is_loaded(&mdl_name) {
                DispatchOutcome::DescribeRoundTrip
            } else {
                DispatchOutcome::Respond(WireResponse::ModelInfoFailure)
            }
        },
        WireRequest::LoadModel { mdl_name } => {
            match st.load_model(&mdl_name) {
                Ok(definition) => DispatchOutcome::LoadConstruct(definition),
                Err(_) => DispatchOutcome::Respond(WireResponse::LoadStatus(false)),
            }
        },
        WireRequest::UnloadModel { mdl_name } => {
            match st.unload_model(&mdl_name) {
                Ok(()) => DispatchOutcome::NoResponse,
                Err(_) => DispatchOutcome::NoResponse,
            }
        },
        WireRequest::SaveModelCfg { mdl_name } => {
            match st.save_model_cfg(&mdl_name) {
                Ok(()) => DispatchOutcome::SaveRoundTrip,
                Err(_) => DispatchOutcome::Respond(WireResponse::SaveCfgStatus(false)),
            }
        },
    }
}

/// The wire response for a finished describe round trip: the summary the
/// worker replied, or the explicit failure discriminant when the round
/// trip yielded none (absent reply, dead conduit, or unexpected message).
pub fn describe_response(info: Option<String>) -> (r: WireResponse)
    ensures
        (match info {
            Some(s) => (r matches WireResponse::ModelInfoSuccess(i) && i == s),
            None => r == WireResponse::ModelInfoFailure,
        }),
{
    match info {
        Some(s) => WireResponse::ModelInfoSuccess(s),
        None => WireResponse::ModelInfoFailure,
    }
}

/// The wire response for a finished load: status 1 exactly when the worker
/// was installed.
pub fn load_response(result: &Result<(), NnioError>) -> (r: WireResponse)
    ensures
        (match result {
            Ok(()) => r == WireResponse::LoadStatus(true),
            Err(_) => r == WireResponse::LoadStatus(false),
        }),
{
    match result {
        Ok(()) => WireResponse::LoadStatus(true),
        Err(_) => WireResponse::LoadStatus(false),
    }
}

/// The wire response for a finished save round trip: the worker's flag, and
/// status 0 for any failure — a communication error maps to status 0 rather
/// than aborting the connection.
pub fn save_response(result: &Result<bool, NnioError>) -> (r: WireResponse)
    ensures
        (match result {
            Ok(b) => r == WireResponse::SaveCfgStatus(*b),
            Err(_) => r == WireResponse::SaveCfgStatus(false),
        }),
{
    match result {
        Ok(b) => WireResponse::SaveCfgStatus(*b),
        Err(_) => WireResponse::SaveCfgStatus(false),
    }
}

} // verus!
