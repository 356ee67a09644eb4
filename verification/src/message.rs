//! Wire message discriminants.
//!
//! Every wire document carries an integer `type` field; these are its
//! values.  Requests travel client to server, the `Resp` variants travel
//! back.

use vstd::prelude::*;

verus! {

/// The discriminant of one wire message.
#[derive(Clone, Copy, PartialEq, Eq, Structural, Debug)]
pub enum MessageType {
    GetAvailableModels,
    GetLoadedModels,
    ModelInfo,
    CreateModel,
    DeleteModel,
    LoadModel,
    UnloadModel,
    SaveModelCfg,
    SaveModelState,
    TrainModel,
    EvaluateData,
    Exit,
    RespModelCreateSuccess,
    RespModelCreateFailure,
    RespModelInfoSuccess,
    RespModelInfoFailure,
    RespAvailableModels,
    RespModelInfo,
    RespModelSaveCfg,
    RespLoadedModels,
    RespLoadModel,
}

impl MessageType {
    /// The integer carried in a wire document's `type` field.
    pub open spec fn code_spec(self) -> u64 {
        match self {
            MessageType::GetAvailableModels => 0,
            MessageType::GetLoadedModels => 1,
            MessageType::ModelInfo => 2,
            MessageType::CreateModel => 3,
            MessageType::DeleteModel => 4,
            MessageType::LoadModel => 5,
            MessageType::UnloadModel => 6,
            MessageType::SaveModelCfg => 7,
            MessageType::SaveModelState => 8,
            MessageType::TrainModel => 9,
            MessageType::EvaluateData => 10,
            MessageType::Exit => 11,
            MessageType::RespModelCreateSuccess => 12,
            MessageType::RespModelCreateFailure => 13,
            MessageType::RespModelInfoSuccess => 14,
            MessageType::RespModelInfoFailure => 15,
            MessageType::RespAvailableModels => 16,
            MessageType::RespModelInfo => 17,
            MessageType::RespModelSaveCfg => 18,
            MessageType::RespLoadedModels => 19,
            MessageType::RespLoadModel => 20,
        }
    }

    /// Is this a request discriminant, i.e. one a client may send?
    pub open spec fn is_request(self) -> bool {
        match self {
            MessageType::GetAvailableModels => true,
            MessageType::GetLoadedModels => true,
            MessageType::ModelInfo => true,
            MessageType::CreateModel => true,
            MessageType::DeleteModel => true,
            MessageType::LoadModel => true,
            MessageType::UnloadModel => true,
            MessageType::SaveModelCfg => true,
            MessageType::SaveModelState => true,
            MessageType::TrainModel => true,
            MessageType::EvaluateData => true,
            _ => false,
        }
    }

    /// The request discriminant a `type` field's value stands for, if any.
    /// Neither `Exit` (a client-side menu entry) nor the responses may be
    /// requested, so their values yield `None`.
    pub open spec fn spec_from_u64(v: u64) -> Option<MessageType> {
        if v == 0 {
            Some(MessageType::GetAvailableModels)
        } else if v == 1 {
            Some(MessageType::GetLoadedModels)
        } else if v == 2 {
            Some(MessageType::ModelInfo)
        } else if v == 3 {
            Some(MessageType::CreateModel)
        } else if v == 4 {
            Some(MessageType::DeleteModel)
        } else if v == 5 {
            Some(MessageType::LoadModel)
        } else if v == 6 {
            Some(MessageType::UnloadModel)
        } else if v == 7 {
            Some(MessageType::SaveModelCfg)
        } else if v == 8 {
            Some(MessageType::SaveModelState)
        } else if v == 9 {
            Some(MessageType::TrainModel)
        } else if v == 10 {
            Some(MessageType::EvaluateData)
        } else {
            None
        }
    }

    /// See [`MessageType::code_spec`].
    pub fn code(&self) -> (r: u64)
        ensures
            r == self.code_spec(),
    {
        match self {
            MessageType::GetAvailableModels => 0,
            MessageType::GetLoadedModels => 1,
            MessageType::ModelInfo => 2,
            MessageType::CreateModel => 3,
            MessageType::DeleteModel => 4,
            MessageType::LoadModel => 5,
            MessageType::UnloadModel => 6,
            MessageType::SaveModelCfg => 7,
            MessageType::SaveModelState => 8,
            MessageType::TrainModel => 9,
            MessageType::EvaluateData => 10,
            MessageType::Exit => 11,
            MessageType::RespModelCreateSuccess => 12,
            MessageType::RespModelCreateFailure => 13,
            MessageType::RespModelInfoSuccess => 14,
            MessageType::RespModelInfoFailure => 15,
            MessageType::RespAvailableModels => 16,
            MessageType::RespModelInfo => 17,
            MessageType::RespModelSaveCfg => 18,
            MessageType::RespLoadedModels => 19,
            MessageType::RespLoadModel => 20,
        }
    }

    /// See [`MessageType::spec_from_u64`].
    pub fn from_u64(v: u64) -> (r: Option<MessageType>)
        ensures
            r == MessageType::spec_from_u64(v),
    {
        if v == 0 {
            Some(MessageType::GetAvailableModels)
        } else if v == 1 {
            Some(MessageType::GetLoadedModels)
        } else if v == 2 {
            Some(MessageType::ModelInfo)
        } else if v == 3 {
            Some(MessageType::CreateModel)
        } else if v == 4 {
            Some(MessageType::DeleteModel)
        } else if v == 5 {
            Some(MessageType::LoadModel)
        } else if v == 6 {
            Some(MessageType::UnloadModel)
        } else if v == 7 {
            Some(MessageType::SaveModelCfg)
        } else if v == 8 {
            Some(MessageType::SaveModelState)
        } else if v == 9 {
            Some(MessageType::TrainModel)
        } else if v == 10 {
            Some(MessageType::EvaluateData)
        } else {
            None
        }
    }
}

/// Decoding a request discriminant's own code yields that discriminant
/// back, and only requests decode at all.
pub proof fn lemma_request_code_round_trip(m: MessageType)
    ensures
        m.is_request() <==> MessageType::spec_from_u64(m.code_spec()) == Some(m),
{
}

} // verus!
