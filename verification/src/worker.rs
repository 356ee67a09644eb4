//! The worker side of the model lifecycle.
//!
//! A worker is a dedicated execution context that owns one loaded model and
//! is reachable only through a pair of bounded FIFO conduits.  The logic the
//! worker applies to each inbound message is `worker_step`; the surrounding
//! loop, the conduits and the external model runtime live outside the
//! library.  For every request other than `Stop` the step yields exactly one
//! response, either directly (`Reply`) or after the one persistence action it
//! asks its host context to perform (`PersistConfig` / `PersistState`,
//! answered with `RespSave`).

use vstd::prelude::*;
use vstd::string::StringExecFns;

use crate::decimal::{dec_rep, push_decimal};

verus! {

broadcast use vstd::string::group_string_axioms;

/// One message of the internal host/worker protocol.
///
/// `Train` .. `Info` travel host to worker; the rest travel worker to host.
/// Training and evaluation payloads belong to the external model runtime,
/// which this core only routes to; they carry no data here.
#[derive(Debug, Clone)]
pub enum ModelMessage {
    /// Request: train on the current batch (delegated to the runtime).
    Train,
    /// Request: evaluate data (delegated to the runtime).
    Eval,
    /// Request: persist the structural definition.
    SaveCfg,
    /// Request: persist a state snapshot under the given version.
    SaveState(String),
    /// Request: change the training batch size (delegated to the runtime).
    SetBatchSize(usize),
    /// Request: describe the loaded model.
    Info,
    /// Response: readiness announcement carrying the model's name.
    ModelName(String),
    /// Response to `Train`.
    TrainResult,
    /// Response to `Eval`.
    EvalResult,
    /// Response to `Info`: the structural summary.
    RespInfo(String),
    /// Response to a persistence request: did the runtime succeed?
    RespSave(bool),
    /// Request: exit the worker loop; the one request with no response.
    Stop,
}

/// What the worker reads of its loaded model: the name it runs under and
/// the sizes of the model's layers.  The numerical state itself belongs to
/// the external runtime and never crosses into the registry.
#[derive(Debug, Clone)]
pub struct WorkerModel {
    pub name: String,
    pub layer_sizes: Vec<usize>,
}

/// What the worker's execution context must do after one step.
#[derive(Debug)]
pub enum WorkerAction {
    /// Send this message back to the host; then wait for the next message.
    Reply(ModelMessage),
    /// Persist the structural definition through the runtime, then reply
    /// `RespSave` with the runtime's success flag.
    PersistConfig,
    /// Persist a state snapshot under this version, then reply `RespSave`.
    PersistState(String),
    /// Exit the loop without responding.
    Quit,
    /// An inbound message that is no request: wait for the next message.
    Ignore,
}

/// The structural summary of a model: its layer sizes in order, rendered in
/// decimal and joined by dashes.
pub open spec fn layer_info(sizes: Seq<usize>) -> Seq<char>
    decreases sizes.len(),
{
    if sizes.len() == 0 {
        Seq::empty()
    } else if sizes.len() == 1 {
        dec_rep(sizes[0] as int)
    } else {
        layer_info(sizes.drop_last()) + seq!['-'] + dec_rep(sizes.last() as int)
    }
}

/// A summary of at least one layer is never the empty string.
pub proof fn lemma_layer_info_nonempty(sizes: Seq<usize>)
    requires
        sizes.len() > 0,
    ensures
        layer_info(sizes).len() > 0,
    decreases sizes.len(),
{
    if sizes.len() == 1 {
        crate::decimal::lemma_dec_rep_nonempty(sizes[0] as int);
    } else {
        lemma_layer_info_nonempty(sizes.drop_last());
    }
}

impl WorkerModel {
    /// The structural summary, e.g. `"2-10-1"` for three layers.
    pub fn info(&self) -> (r: String)
        ensures
            r@ == layer_info(self.layer_sizes@),
    {
        proof {
            reveal_strlit("-");
        }
        let mut out = String::new();
        let mut i: usize = 0;
        while i < self.layer_sizes.len()
            invariant
                i <= self.layer_sizes@.len(),
                out@ == layer_info(self.layer_sizes@.take(i as int)),
            decreases self.layer_sizes@.len() - i,
        {
            if i > 0 {
                out.append("-");
                proof {
                    reveal_strlit("-");
                    assert("-"@ =~= seq!['-']);
                }
            }
            push_decimal(&mut out, self.layer_sizes[i]);
            proof {
                let taken = self.layer_sizes@.take(i as int + 1);
                assert(taken.drop_last() =~= self.layer_sizes@.take(i as int));
                assert(taken.last() == self.layer_sizes@[i as int]);
                assert(out@ =~= layer_info(taken));
            }
            i += 1;
        }
        proof {
            assert(self.layer_sizes@.take(self.layer_sizes@.len() as int) =~= self.layer_sizes@);
        }
        out
    }
}

/// One step of the worker loop: the action for one inbound message.
///
/// Every request other than `Stop` is routed to exactly one response:
/// directly for `Train`, `Eval`, `SetBatchSize` and `Info`, and through the
/// host context's one persistence action for `SaveCfg` and `SaveState`.
/// `SetBatchSize` takes effect in the external runtime and is acknowledged
/// with `RespSave(true)`; the protocol defines no dedicated acknowledgement.
/// Messages that are themselves responses are ignored, as a worker never
/// receives them in a well-formed exchange.
pub fn worker_step(m: &WorkerModel, msg: &ModelMessage) -> (r: WorkerAction)
    ensures
        (match msg {
            ModelMessage::Train => r == WorkerAction::Reply(ModelMessage::TrainResult),
            ModelMessage::Eval => r == WorkerAction::Reply(ModelMessage::EvalResult),
            ModelMessage::SaveCfg => r == WorkerAction::PersistConfig,
            ModelMessage::SaveState(v) => (r matches WorkerAction::PersistState(p) && p@ == v@),
            ModelMessage::SetBatchSize(_) => r == WorkerAction::Reply(
                ModelMessage::RespSave(true),
            ),
            ModelMessage::Info => (r matches WorkerAction::Reply(ModelMessage::RespInfo(s))
                && s@ == layer_info(m.layer_sizes@)),
            ModelMessage::Stop => r == WorkerAction::Quit,
            _ => r == WorkerAction::Ignore,
        }),
{
    match msg {
        ModelMessage::Train => WorkerAction::Reply(ModelMessage::TrainResult),
        ModelMessage::Eval => WorkerAction::Reply(ModelMessage::EvalResult),
        ModelMessage::SaveCfg => WorkerAction::PersistConfig,
        ModelMessage::SaveState(v) => WorkerAction::PersistState(v.clone()),
        ModelMessage::SetBatchSize(_) => WorkerAction::Reply(ModelMessage::RespSave(true)),
        ModelMessage::Info => WorkerAction::Reply(ModelMessage::RespInfo(m.info())),
        ModelMessage::Stop => WorkerAction::Quit,
        ModelMessage::ModelName(_) => WorkerAction::Ignore,
        ModelMessage::TrainResult => WorkerAction::Ignore,
        ModelMessage::EvalResult => WorkerAction::Ignore,
        ModelMessage::RespInfo(_) => WorkerAction::Ignore,
        ModelMessage::RespSave(_) => WorkerAction::Ignore,
    }
}

} // verus!
