//! The engine: it registers a configuration, schedules its actions, and
//! runs them one after the other. Whatever has to be asked of the chain is
//! handed out as a request; the answer is handed back as an event.
use vstd::prelude::*;
use vstd::string::*;
use crate::abi::{decoded_output, undecodable_output_message};
use crate::actions::{Action, ActionData};
use crate::config::Config;
use crate::data::FileDataResolver;
use crate::data_indexer::DataIndexer;
use crate::errors::{fails_with, DeployerError, ErrorView};
use crate::execution::arguments::reference_views;
use crate::execution::call::{planned_call, CallModel, CallPlan};
use crate::execution::deploy::{
    create2_deployer_address, create2_transaction, deployment_reverted_message,
    planned_deployment, DeploymentExecutor, DeploymentPlan, DeploymentStep, PlanModel,
    RequestModel, TransactionRequest,
};
use crate::execution::read::{no_contract_message, ReadExecutor};
use crate::execution::write::{
    first_write_step, write_reverted_message, write_step_after_return, WriteExecutor, WriteStep,
    WriteStepModel,
};
use crate::indexer::{
    declared_value, index_outputs, length_mismatch_message, param_models, record_all,
    tuple_expected_message, AbiParam, Indexed, IndexedValue, ParamModel,
};
use crate::scheduler::{
    arranged, cycle_message, is_schedule, released_in_turn, schedulable, topological_sort,
};
use crate::types::{copy_bytes, value_models, TypedValue, ValueModel};
use crate::variables::Variable;

verus! {

/// How far the engine has come.
#[derive(Debug, PartialEq, Eq)]
pub enum EnginePhase {
    /// No configuration is registered.
    Fresh,
    /// A configuration is registered and not yet run.
    Configured,
    /// The actions are being run.
    Executing,
    /// Every action has run.
    Succeeded,
    /// An action has failed, and with it the run.
    Failed,
}

/// What the action that is being run waits for.
#[derive(Debug, PartialEq, Eq)]
pub enum Pending {
    /// Nothing.
    Idle,
    /// The code at the planned address of a deployment.
    DeployCode(DeploymentPlan),
    /// The receipt of a deployment.
    DeployReceipt(DeploymentPlan),
    /// The code at the address of a read.
    ReadCode(CallPlan),
    /// What the call of a read returns.
    ReadReturn(CallPlan),
    /// What the call of a write's condition returns.
    WriteCondition(CallPlan),
    /// The receipt of a write.
    WriteReceipt,
}

/// The mathematical value of a `Pending`.
pub enum PendingModel {
    Idle,
    DeployCode(PlanModel),
    DeployReceipt(PlanModel),
    ReadCode(CallModel),
    ReadReturn(CallModel),
    WriteCondition(CallModel),
    WriteReceipt,
}

impl View for Pending {
    type V = PendingModel;

    open spec fn view(&self) -> PendingModel {
        match self {
            Pending::Idle => PendingModel::Idle,
            Pending::DeployCode(plan) => PendingModel::DeployCode(plan@),
            Pending::DeployReceipt(plan) => PendingModel::DeployReceipt(plan@),
            Pending::ReadCode(plan) => PendingModel::ReadCode(plan@),
            Pending::ReadReturn(plan) => PendingModel::ReadReturn(plan@),
            Pending::WriteCondition(plan) => PendingModel::WriteCondition(plan@),
            Pending::WriteReceipt => PendingModel::WriteReceipt,
        }
    }
}

/// What the engine asks of its caller.
#[derive(Debug, PartialEq, Eq)]
pub enum EngineRequest {
    /// The code at the address is wanted.
    GetCode(Vec<u8>),
    /// The call is to be made, and what it returns is wanted.
    Call(TransactionRequest),
    /// The transaction is to be sent, and its receipt is wanted.
    Send(TransactionRequest),
    /// The run has ended well.
    Done,
    /// The run has ended with the failure.
    Failed(DeployerError),
}

/// The mathematical value of an `EngineRequest`.
pub enum RequestView {
    GetCode(Seq<u8>),
    Call(RequestModel),
    Send(RequestModel),
    Done,
    Failed(ErrorView),
}

impl View for EngineRequest {
    type V = RequestView;

    open spec fn view(&self) -> RequestView {
        match self {
            EngineRequest::GetCode(address) => RequestView::GetCode(address@),
            EngineRequest::Call(request) => RequestView::Call(request@),
            EngineRequest::Send(request) => RequestView::Send(request@),
            EngineRequest::Done => RequestView::Done,
            EngineRequest::Failed(e) => RequestView::Failed(e@),
        }
    }
}

/// What the caller hands back to the engine.
#[derive(Debug, PartialEq, Eq)]
pub enum EngineEvent {
    /// The code at the address asked for.
    Code(Vec<u8>),
    /// What the call returned.
    Returned(Vec<u8>),
    /// The receipt of the transaction.
    Receipt { status: bool, transaction_hash: Vec<u8> },
    /// The chain could not be asked: the reason.
    Failure(String),
}

/// How the start of an action ends.
pub enum Start {
    /// The action waits for the answer to a request.
    Ask(PendingModel, RequestView),
    /// The action is a write whose condition does not hold.
    Skip,
    /// The action has failed.
    Fail(ErrorView),
}

/// The call that a planned call stands for: to its address, with its
/// calldata, without value.
pub open spec fn call_request(call: CallModel) -> RequestModel {
    RequestModel { to: call.to, input: call.input, value: None }
}

/// The start of an action: a deployment and a read are planned and ask for
/// the code at their address; a write asks for what its first step says.
#[verifier::opaque]
pub open spec fn started(action: &Action, resolver: &DataIndexer) -> Start {
    match &action.action_data {
        ActionData::Deploy(data) => match planned_deployment(data, resolver) {
            Ok(plan) => Start::Ask(PendingModel::DeployCode(plan), RequestView::GetCode(plan.address)),
            Err(e) => Start::Fail(e),
        },
        ActionData::Read(data) => match planned_call(
            data.address@,
            data.abi_item@,
            reference_views(data.args@),
            resolver,
        ) {
            Ok(call) => Start::Ask(PendingModel::ReadCode(call), RequestView::GetCode(call.to)),
            Err(e) => Start::Fail(e),
        },
        ActionData::Write(data) => match first_write_step(data, resolver) {
            Ok(WriteStepModel::Skip) => Start::Skip,
            Ok(WriteStepModel::Evaluate(call)) => Start::Ask(
                PendingModel::WriteCondition(call),
                RequestView::Call(call_request(call)),
            ),
            Ok(WriteStepModel::Submit(request)) => Start::Ask(
                PendingModel::WriteReceipt,
                RequestView::Send(request),
            ),
            Err(e) => Start::Fail(e),
        },
    }
}

/// Where the run stands after a step: which action is at work, what it
/// waits for, and what is asked of the caller.
pub struct Progress {
    pub position: nat,
    pub pending: PendingModel,
    pub request: RequestView,
}

/// The run from the action at `position` on, as long as nothing has to be
/// asked: skipped writes are passed over; the first action that asks or
/// fails ends the step; after the last action the run is done.
pub open spec fn advanced(queue: Seq<Action>, position: nat, resolver: &DataIndexer) -> Progress
    decreases queue.len() - position,
{
    if position >= queue.len() {
        Progress { position, pending: PendingModel::Idle, request: RequestView::Done }
    } else {
        match started(&queue[position as int], resolver) {
            Start::Skip => advanced(queue, position + 1, resolver),
            Start::Ask(pending, request) => Progress { position, pending, request },
            Start::Fail(e) => Progress {
                position,
                pending: PendingModel::Idle,
                request: RequestView::Failed(e),
            },
        }
    }
}

/// The phase that follows a request: the run goes on while something is
/// asked, and ends with `Done` or `Failed`.
pub open spec fn phase_after(request: RequestView) -> EnginePhase {
    match request {
        RequestView::Done => EnginePhase::Succeeded,
        RequestView::Failed(_) => EnginePhase::Failed,
        _ => EnginePhase::Executing,
    }
}

/// The entries that the first `k` variables of a configuration add to the
/// index, each read as a value of its type; the failure of the first that
/// is no value of its type.
pub open spec fn seeded(variables: Seq<(String, Variable)>, k: nat) -> Result<
    Seq<IndexedValue>,
    ErrorView,
>
    decreases k,
{
    if k == 0 || k > variables.len() {
        Ok(Seq::empty())
    } else {
        match seeded(variables, (k - 1) as nat) {
            Err(e) => Err(e),
            Ok(before) => {
                let variable = variables[k - 1];
                match declared_value(variable.1.ty@, variable.1.value@) {
                    Ok(value) => Ok(
                        before.push(
                            IndexedValue { path: variable.0@, ty: variable.1.ty@, value },
                        ),
                    ),
                    Err(e) => Err(e),
                }
            },
        }
    }
}

/// The parameter under which a deployed address is recorded: without a
/// name, so that the address stands at the identifier of the action.
pub open spec fn deployed_address_param() -> ParamModel {
    ParamModel { name: Seq::empty(), ty: "address"@, components: Seq::empty() }
}

/// The index entry of a deployed address: at the identifier of the action.
pub open spec fn deployed_entry(id: Seq<char>, address: Seq<u8>) -> IndexedValue {
    IndexedValue { path: id, ty: "address"@, value: ValueModel::Address(address) }
}

/// What recording a deployed address gives: it is recorded as the one
/// output of its action, under the parameter without a name.
pub open spec fn deployment_outcome(id: Seq<char>, address: Seq<u8>) -> Outcome {
    record_outcome(id, seq![deployed_address_param()], seq![ValueModel::Address(address)])
}

/// A deployed address, of 20 bytes, is recorded at exactly the identifier
/// of its action, with the type `address`.
pub proof fn lemma_deployed_address_entry(id: Seq<char>, address: Seq<u8>)
    requires
        address.len() == 20,
    ensures
        index_outputs(
            id,
            seq![deployed_address_param()],
            seq![ValueModel::Address(address)],
            1,
        ) == Some(seq![deployed_entry(id, address)]),
        deployment_outcome(id, address) == Outcome::Recorded(seq![deployed_entry(id, address)]),
{
    let params = seq![deployed_address_param()];
    let values = seq![ValueModel::Address(address)];
    assert(index_outputs(id, params, values, 0) == Some(Seq::<IndexedValue>::empty()));
    assert(Seq::<IndexedValue>::empty() + seq![deployed_entry(id, address)] =~= seq![
        deployed_entry(id, address),
    ]);
}

/// The text of the error for a run without a registered configuration.
pub open spec fn not_configured_message() -> Seq<char> {
    "Config must be registered before executing actions"@
}

/// The text of the error for a second configuration.
pub open spec fn already_configured_message() -> Seq<char> {
    "a configuration is already registered"@
}

/// The text of the error for an event that nothing waits for.
pub open spec fn unexpected_event_message() -> Seq<char> {
    "unexpected event"@
}

/// The engine of a run.
#[derive(Debug)]
pub struct Executor {
    pub phase: EnginePhase,
    pub indexer: DataIndexer,
    /// The actions of the registered configuration, until they are scheduled.
    pub actions: Vec<Action>,
    /// The scheduled actions.
    pub queue: Vec<Action>,
    /// The position in `queue` of the action at work.
    pub position: usize,
    pub pending: Pending,
    /// The failure that ended the run, once it has failed.
    pub failure: Option<DeployerError>,
}

/// How the start of an action ends, as the engine holds it.
#[derive(Debug, PartialEq, Eq)]
pub enum Started {
    Ask(Pending, EngineRequest),
    Skip,
    Fail(DeployerError),
}

impl View for Started {
    type V = Start;

    open spec fn view(&self) -> Start {
        match self {
            Started::Ask(pending, request) => Start::Ask(pending@, request@),
            Started::Skip => Start::Skip,
            Started::Fail(e) => Start::Fail(e@),
        }
    }
}

/// How the judgement of an event ends.
pub enum Outcome {
    /// The action is done; the entries are recorded, and the next action
    /// starts.
    Recorded(Seq<IndexedValue>),
    /// The action goes on, and waits for the answer to another request.
    Ask(PendingModel, RequestView),
    /// The action has failed.
    Fail(ErrorView),
}

/// The mathematical value of an `EngineEvent`.
pub enum EventView {
    Code(Seq<u8>),
    Returned(Seq<u8>),
    Receipt { status: bool, transaction_hash: Seq<u8> },
    Failure(Seq<char>),
}

impl View for EngineEvent {
    type V = EventView;

    open spec fn view(&self) -> EventView {
        match self {
            EngineEvent::Code(code) => EventView::Code(code@),
            EngineEvent::Returned(data) => EventView::Returned(data@),
            EngineEvent::Receipt { status, transaction_hash } => EventView::Receipt {
                status: *status,
                transaction_hash: transaction_hash@,
            },
            EngineEvent::Failure(reason) => EventView::Failure(reason@),
        }
    }
}

/// What recording the outputs of a read gives.
pub open spec fn read_outcome(id: Seq<char>, call: CallModel, returned: Seq<u8>) -> Outcome {
    match decoded_output(call.signature, returned) {
        None => Outcome::Fail(ErrorView::Execution(undecodable_output_message())),
        Some(values) => if call.function.outputs.len() != values.len() {
            Outcome::Fail(ErrorView::Execution(length_mismatch_message()))
        } else {
            match index_outputs(id, call.function.outputs, values, values.len()) {
                Some(entries) => Outcome::Recorded(entries),
                None => Outcome::Fail(ErrorView::Execution(tuple_expected_message())),
            }
        },
    }
}

/// What follows the return of the call of a write's condition.
pub open spec fn condition_outcome(
    action: &Action,
    call: CallModel,
    returned: Seq<u8>,
    resolver: &DataIndexer,
) -> Outcome {
    match &action.action_data {
        ActionData::Write(data) => match write_step_after_return(
            data,
            call.signature,
            returned,
            resolver,
        ) {
            Ok(WriteStepModel::Skip) => Outcome::Recorded(Seq::empty()),
            Ok(WriteStepModel::Submit(request)) => Outcome::Ask(
                PendingModel::WriteReceipt,
                RequestView::Send(request),
            ),
            Ok(WriteStepModel::Evaluate(_)) => Outcome::Fail(
                ErrorView::Execution(unexpected_event_message()),
            ),
            Err(e) => Outcome::Fail(e),
        },
        _ => Outcome::Fail(ErrorView::Execution(unexpected_event_message())),
    }
}

/// The judgement of an event by the action that waits for it.
///
/// A deployment whose address holds code is done without a transaction; one
/// whose address holds none sends its transaction, and is done with a
/// successful receipt; either way its address is recorded as its one
/// output. A read of an address without code fails; otherwise
/// its call is made, and what it returns is decoded and recorded. A write is
/// done with a successful receipt. A failure to ask the chain fails the
/// action: with `TransactionFailed` where a receipt was awaited, else with
/// `Execution`. An event that the action does not wait for fails it.
pub open spec fn judged(
    pending: PendingModel,
    action: &Action,
    event: EventView,
    resolver: &DataIndexer,
) -> Outcome {
    match (pending, event) {
        (PendingModel::DeployCode(plan), EventView::Code(code)) => if code.len() > 0 {
            deployment_outcome(action.id@, plan.address)
        } else {
            Outcome::Ask(
                PendingModel::DeployReceipt(plan),
                RequestView::Send(
                    create2_transaction(create2_deployer_address(), plan.salt, plan.initcode),
                ),
            )
        },
        (PendingModel::DeployReceipt(plan), EventView::Receipt { status, transaction_hash }) => if status {
            deployment_outcome(action.id@, plan.address)
        } else {
            Outcome::Fail(ErrorView::DeploymentFailed(deployment_reverted_message()))
        },
        (PendingModel::ReadCode(call), EventView::Code(code)) => if code.len() == 0 {
            Outcome::Fail(ErrorView::Execution(no_contract_message(call.to)))
        } else {
            Outcome::Ask(PendingModel::ReadReturn(call), RequestView::Call(call_request(call)))
        },
        (PendingModel::ReadReturn(call), EventView::Returned(returned)) => read_outcome(
            action.id@,
            call,
            returned,
        ),
        (PendingModel::WriteCondition(call), EventView::Returned(returned)) => condition_outcome(
            action,
            call,
            returned,
            resolver,
        ),
        (PendingModel::WriteReceipt, EventView::Receipt { status, transaction_hash }) => if status {
            Outcome::Recorded(Seq::empty())
        } else {
            Outcome::Fail(ErrorView::TransactionFailed(write_reverted_message()))
        },
        (PendingModel::DeployReceipt(_), EventView::Failure(reason)) => Outcome::Fail(
            ErrorView::TransactionFailed(reason),
        ),
        (PendingModel::WriteReceipt, EventView::Failure(reason)) => Outcome::Fail(
            ErrorView::TransactionFailed(reason),
        ),
        (PendingModel::Idle, _) => Outcome::Fail(ErrorView::Execution(unexpected_event_message())),
        (_, EventView::Failure(reason)) => Outcome::Fail(ErrorView::Execution(reason)),
        _ => Outcome::Fail(ErrorView::Execution(unexpected_event_message())),
    }
}

/// A deployment lands at the address that its configuration declares: the
/// code is asked for at that address, and whichever way the deployment gets
/// done, with or without a transaction, that address is recorded at the
/// identifier of the action.
pub proof fn lemma_deployment_records_declared_address(
    action: &Action,
    resolver: &DataIndexer,
    first: EventView,
    second: EventView,
)
    requires
        action.action_data is Deploy,
        planned_deployment(&action.action_data->Deploy_0, resolver) is Ok,
    ensures
        ({
            let data = action.action_data->Deploy_0;
            let plan = planned_deployment(&data, resolver)->Ok_0;
            let declared = crate::execution::arguments::expected_address(
                crate::variables::resolved(data.address@, "address"@, resolver),
            );
            let waiting = PendingModel::DeployCode(plan);
            let sent = PendingModel::DeployReceipt(plan);
            let recorded = Outcome::Recorded(seq![deployed_entry(action.id@, plan.address)]);
            &&& declared == Ok::<Seq<u8>, ErrorView>(plan.address)
            &&& started(action, resolver) == Start::Ask(waiting, RequestView::GetCode(plan.address))
            &&& judged(waiting, action, first, resolver) is Recorded ==> judged(
                waiting,
                action,
                first,
                resolver,
            ) == recorded
            &&& judged(waiting, action, first, resolver) matches Outcome::Ask(next, _) ==> next
                == sent
            &&& judged(sent, action, second, resolver) is Recorded ==> judged(
                sent,
                action,
                second,
                resolver,
            ) == recorded
        }),
{
    reveal(started);
    crate::execution::deploy::lemma_planned_address_is_declared(
        &action.action_data->Deploy_0,
        resolver,
    );
    let plan = planned_deployment(&action.action_data->Deploy_0, resolver)->Ok_0;
    lemma_deployed_address_entry(action.id@, plan.address);
}

/// Starts an action.
pub fn begin(action: &Action, resolver: &DataIndexer) -> (start: Started)
    ensures
        start@ == started(action, resolver),
        start matches Started::Ask(_, request) ==> phase_after(request@) is Executing,
{
    reveal(started);
    match &action.action_data {
        ActionData::Deploy(data) => match DeploymentExecutor::new().deploy(data, resolver) {
            Ok(plan) => {
                let address = copy_bytes(&plan.address);
                Started::Ask(Pending::DeployCode(plan), EngineRequest::GetCode(address))
            },
            Err(e) => Started::Fail(e),
        },
        ActionData::Read(data) => match ReadExecutor::new().read(data, resolver) {
            Ok(plan) => {
                let address = copy_bytes(&plan.to);
                Started::Ask(Pending::ReadCode(plan), EngineRequest::GetCode(address))
            },
            Err(e) => Started::Fail(e),
        },
        ActionData::Write(data) => match WriteExecutor::new().write(data, resolver) {
            Ok(WriteStep::Skip) => Started::Skip,
            Ok(WriteStep::Evaluate(plan)) => {
                let request = TransactionRequest {
                    to: copy_bytes(&plan.to),
                    input: copy_bytes(&plan.input),
                    value: None,
                };
                Started::Ask(Pending::WriteCondition(plan), EngineRequest::Call(request))
            },
            Ok(WriteStep::Submit(request)) => Started::Ask(
                Pending::WriteReceipt,
                EngineRequest::Send(request),
            ),
            Err(e) => Started::Fail(e),
        },
    }
}

/// The data directory of an engine that is given none.
pub open spec fn default_data_dir() -> Seq<char> {
    "configs/data"@
}

impl Executor {
    /// An engine over the data directory `configs/data`, without files:
    /// fresh, and with an empty index.
    pub fn new() -> (executor: Executor)
        ensures
            executor.phase is Fresh,
            executor.pending is Idle,
            executor.failure is None,
            executor.position == 0,
            executor.actions@.len() == 0,
            executor.queue@.len() == 0,
            executor.indexer.data_resolver.data_dir@ == default_data_dir(),
            executor.indexer.data_resolver.files@.len() == 0,
            executor.indexer.data_refs@.len() == 0,
            executor.indexer.local_variables@.len() == 0,
            executor.indexer.base_indexer.outputs() == Map::<Seq<char>, Indexed>::empty(),
            executor.indexer.base_indexer.declared() == Map::<Seq<char>, Indexed>::empty(),
    {
        Executor::with_data_dir(FileDataResolver::new("configs/data"))
    }

    /// An engine over the files of a data directory: fresh, and with an
    /// empty index.
    pub fn with_data_dir(data_resolver: FileDataResolver) -> (executor: Executor)
        ensures
            executor.phase is Fresh,
            executor.pending is Idle,
            executor.failure is None,
            executor.position == 0,
            executor.actions@.len() == 0,
            executor.queue@.len() == 0,
            executor.indexer.data_resolver == data_resolver,
            executor.indexer.data_refs@.len() == 0,
            executor.indexer.local_variables@.len() == 0,
            executor.indexer.base_indexer.outputs() == Map::<Seq<char>, Indexed>::empty(),
            executor.indexer.base_indexer.declared() == Map::<Seq<char>, Indexed>::empty(),
    {
        Executor {
            phase: EnginePhase::Fresh,
            indexer: DataIndexer::new(Vec::new(), Vec::new(), data_resolver),
            actions: Vec::new(),
            queue: Vec::new(),
            position: 0,
            pending: Pending::Idle,
            failure: None,
        }
    }

    /// Ends the run with a failure.
    fn fail(&mut self, e: DeployerError) -> (request: EngineRequest)
        ensures
            follows(*old(self), *final(self), request@, Outcome::Fail(e@)),
    {
        self.phase = EnginePhase::Failed;
        self.pending = Pending::Idle;
        self.failure = Some(e.duplicate());
        EngineRequest::Failed(e)
    }

    /// Runs on from the action at the present position until something has
    /// to be asked, an action fails, or no action is left.
    fn advance(&mut self) -> (request: EngineRequest)
        requires
            old(self).position <= old(self).queue@.len(),
        ensures
            final(self).indexer == old(self).indexer,
            final(self).queue == old(self).queue,
            final(self).actions == old(self).actions,
            ({
                let progress = advanced(
                    old(self).queue@,
                    old(self).position as nat,
                    &old(self).indexer,
                );
                &&& final(self).position == progress.position
                &&& final(self).pending@ == progress.pending
                &&& request@ == progress.request
                &&& final(self).phase == phase_after(progress.request)
                &&& failure_after(old(self).failure, final(self).failure, progress.request)
            }),
    {
        let ghost target = advanced(old(self).queue@, old(self).position as nat, &old(self).indexer);
        while self.position < self.queue.len()
            invariant
                self.position <= self.queue@.len(),
                self.indexer == old(self).indexer,
                self.queue == old(self).queue,
                self.actions == old(self).actions,
                self.failure == old(self).failure,
                advanced(self.queue@, self.position as nat, &self.indexer) == target,
                target == advanced(old(self).queue@, old(self).position as nat, &old(self).indexer),
            decreases self.queue@.len() - self.position,
        {
            let ghost here = started(&self.queue@[self.position as int], &self.indexer);
            match begin(&self.queue[self.position], &self.indexer) {
                Started::Skip => {
                    self.position = self.position + 1;
                },
                Started::Ask(pending, request) => {
                    assert(here == Start::Ask(pending@, request@));
                    assert(target == Progress {
                        position: self.position as nat,
                        pending: pending@,
                        request: request@,
                    });
                    self.pending = pending;
                    self.phase = EnginePhase::Executing;
                    return request;
                },
                Started::Fail(e) => {
                    assert(here == Start::Fail(e@));
                    assert(target == Progress {
                        position: self.position as nat,
                        pending: PendingModel::Idle,
                        request: RequestView::Failed(e@),
                    });
                    return self.fail(e);
                },
            }
        }
        self.pending = Pending::Idle;
        self.phase = EnginePhase::Succeeded;
        EngineRequest::Done
    }
}

/// The failure that the engine holds after a request: the failure of a
/// failed run, and what it held before after any other request.
pub open spec fn failure_after(
    before: Option<DeployerError>,
    after: Option<DeployerError>,
    request: RequestView,
) -> bool {
    match request {
        RequestView::Failed(e) => match after {
            Some(held) => held@ == e,
            None => false,
        },
        _ => after == before,
    }
}

/// What recording outputs under an identifier gives.
pub open spec fn record_outcome(
    id: Seq<char>,
    params: Seq<ParamModel>,
    values: Seq<ValueModel>,
) -> Outcome {
    if params.len() != values.len() {
        Outcome::Fail(ErrorView::Execution(length_mismatch_message()))
    } else {
        match index_outputs(id, params, values, values.len()) {
            Some(entries) => Outcome::Recorded(entries),
            None => Outcome::Fail(ErrorView::Execution(tuple_expected_message())),
        }
    }
}

/// The engine `after` and its request follow from the engine `before` by
/// the outcome.
///
/// After a recorded outcome the index holds the entries beside what it
/// held, and the run has gone on from the next action. After a request the
/// action at work waits for its answer. After a failure the run is over.
/// Nothing else changes.
pub open spec fn follows(before: Executor, after: Executor, request: RequestView, outcome: Outcome) -> bool {
    &&& after.queue == before.queue
    &&& after.actions == before.actions
    &&& after.indexer.data_refs == before.indexer.data_refs
    &&& after.indexer.local_variables == before.indexer.local_variables
    &&& after.indexer.data_resolver == before.indexer.data_resolver
    &&& after.indexer.base_indexer.declared() == before.indexer.base_indexer.declared()
    &&& match outcome {
        Outcome::Recorded(entries) => {
            let progress = advanced(before.queue@, (before.position + 1) as nat, &after.indexer);
            &&& after.indexer.base_indexer.outputs() == record_all(
                before.indexer.base_indexer.outputs(),
                entries,
            )
            &&& after.position == progress.position
            &&& after.pending@ == progress.pending
            &&& request == progress.request
            &&& after.phase == phase_after(progress.request)
            &&& failure_after(before.failure, after.failure, progress.request)
        },
        Outcome::Ask(pending, asked) => {
            &&& after.indexer == before.indexer
            &&& after.position == before.position
            &&& after.pending@ == pending
            &&& request == asked
            &&& after.phase is Executing
            &&& after.failure == before.failure
        },
        Outcome::Fail(e) => {
            &&& after.indexer == before.indexer
            &&& after.position == before.position
            &&& after.pending is Idle
            &&& request == RequestView::Failed(e)
            &&& after.phase is Failed
            &&& failure_after(before.failure, after.failure, request)
        },
    }
}

impl Executor {
    /// Goes on with the next action.
    fn go_on(&mut self) -> (request: EngineRequest)
        requires
            old(self).position < old(self).queue@.len(),
        ensures
            follows(*old(self), *final(self), request@, Outcome::Recorded(Seq::empty())),
    {
        let count = self.queue.len();
        self.position = self.position + 1;
        self.advance()
    }

    /// Lets the action at work wait for the answer to a request.
    fn ask(&mut self, pending: Pending, request: EngineRequest) -> (asked: EngineRequest)
        requires
            phase_after(request@) is Executing,
        ensures
            asked == request,
            follows(*old(self), *final(self), asked@, Outcome::Ask(pending@, request@)),
    {
        self.pending = pending;
        self.phase = EnginePhase::Executing;
        request
    }

    /// Records the outputs of the action at work, and goes on with the next
    /// action.
    fn record(&mut self, id: String, params: Vec<AbiParam>, values: Vec<TypedValue>) -> (request:
        EngineRequest)
        requires
            old(self).position < old(self).queue@.len(),
        ensures
            follows(
                *old(self),
                *final(self),
                request@,
                record_outcome(id@, param_models(params@), value_models(values@)),
            ),
    {
        let count = self.queue.len();
        match self.indexer.save_output_data(id, params, values) {
            Ok(_) => {
                self.position = self.position + 1;
                self.advance()
            },
            Err(e) => self.fail(e),
        }
    }

    /// Records the address of the deployment at work under the identifier
    /// of its action, and goes on with the next action.
    fn record_deployment(&mut self, address: Vec<u8>) -> (request: EngineRequest)
        requires
            old(self).position < old(self).queue@.len(),
        ensures
            follows(
                *old(self),
                *final(self),
                request@,
                deployment_outcome(old(self).queue@[old(self).position as int].id@, address@),
            ),
    {
        let id = self.queue[self.position].id.clone();
        let param = AbiParam {
            name: String::new(),
            ty: String::from_str("address"),
            components: Vec::new(),
        };
        let mut params: Vec<AbiParam> = Vec::new();
        params.push(param);
        let mut values: Vec<TypedValue> = Vec::new();
        values.push(TypedValue::Address(address));
        proof {
            param.lemma_components();
            assert(param@.components =~= Seq::<ParamModel>::empty());
            assert(param_models(params@) =~= seq![deployed_address_param()]);
            assert(value_models(values@) =~= seq![ValueModel::Address(address@)]);
        }
        self.record(id, params, values)
    }
}

proof fn lemma_seeded_stays_failed(variables: Seq<(String, Variable)>, k: nat, later: nat)
    requires
        k <= later <= variables.len(),
        seeded(variables, k) is Err,
    ensures
        seeded(variables, later) == seeded(variables, k),
    decreases later - k,
{
    if later > k {
        lemma_seeded_stays_failed(variables, k, (later - 1) as nat);
    }
}

impl Executor {
    /// Registers the configuration of the run: the index is made anew over
    /// the data references and the variables of the configuration, and every
    /// variable is read at once as a value of its type.
    ///
    /// Fails with `TypeConversion` where a variable is no value of its
    /// type, and with `Execution` where a configuration is registered
    /// already; the engine then stays as fresh as it was.
    pub fn register_config(&mut self, config: Config) -> (result: Result<(), DeployerError>)
        ensures
            final(self).indexer.data_resolver == old(self).indexer.data_resolver,
            final(self).failure == old(self).failure,
            final(self).queue == old(self).queue,
            final(self).position == old(self).position,
            !(old(self).phase is Fresh) ==> *final(self) == *old(self) && fails_with(
                result,
                ErrorView::Execution(already_configured_message()),
            ),
            old(self).phase is Fresh ==> match seeded(
                config.variables@,
                config.variables@.len(),
            ) {
                Ok(entries) => {
                    &&& result is Ok
                    &&& final(self).phase is Configured
                    &&& final(self).actions == config.actions
                    &&& final(self).indexer.local_variables == config.variables
                    &&& final(self).indexer.data_refs == config.data
                    &&& final(self).indexer.base_indexer.declared() == record_all(
                        Map::empty(),
                        entries,
                    )
                    &&& final(self).indexer.base_indexer.outputs() == Map::<
                        Seq<char>,
                        Indexed,
                    >::empty()
                },
                Err(e) => fails_with(result, e) && final(self).phase is Fresh,
            },
    {
        match self.phase {
            EnginePhase::Fresh => {},
            _ => {
                return Err(
                    DeployerError::Execution(
                        String::from_str("a configuration is already registered"),
                    ),
                );
            },
        }
        let mut previous = DataIndexer::new(Vec::new(), Vec::new(), FileDataResolver::new(""));
        core::mem::swap(&mut self.indexer, &mut previous);
        let mut data_indexer = DataIndexer::new(
            config.data,
            config.variables,
            previous.data_resolver,
        );
        let ghost variables = data_indexer.local_variables@;
        let mut i: usize = 0;
        while i < data_indexer.local_variables.len()
            invariant
                i <= variables.len(),
                data_indexer.local_variables@ == variables,
                data_indexer.local_variables == config.variables,
                data_indexer.data_refs == config.data,
                data_indexer.data_resolver == old(self).indexer.data_resolver,
                data_indexer.base_indexer.outputs() == Map::<Seq<char>, Indexed>::empty(),
                seeded(variables, i as nat) is Ok,
                data_indexer.base_indexer.declared() == record_all(
                    Map::empty(),
                    seeded(variables, i as nat)->Ok_0,
                ),
                self.phase is Fresh,
                old(self).phase is Fresh,
                self.failure == old(self).failure,
                self.position == old(self).position,
                self.actions == old(self).actions,
                self.queue == old(self).queue,
            decreases variables.len() - i,
        {
            let ghost before = seeded(variables, i as nat)->Ok_0;
            let variable = &data_indexer.local_variables[i];
            let ghost name = variable.0@;
            let ghost ty = variable.1.ty@;
            match data_indexer.base_indexer.save_variable(
                variable.0.as_str(),
                variable.1.ty.as_str(),
                variable.1.value.as_str(),
            ) {
                Ok(_) => {
                    proof {
                        let value = declared_value(ty, variables[i as int].1.value@)->Ok_0;
                        let entry = IndexedValue { path: name, ty, value };
                        crate::indexer::lemma_record_all_joined(Map::empty(), before, seq![entry]);
                        assert(before + seq![entry] =~= before.push(entry));
                    }
                },
                Err(e) => {
                    proof {
                        lemma_seeded_stays_failed(variables, (i + 1) as nat, variables.len());
                    }
                    self.indexer = DataIndexer::new(
                        Vec::new(),
                        Vec::new(),
                        data_indexer.data_resolver,
                    );
                    return Err(e);
                },
            }
            i += 1;
        }
        self.indexer = data_indexer;
        self.actions = config.actions;
        self.phase = EnginePhase::Configured;
        Ok(())
    }

    /// Starts the run: the actions are scheduled first in, first out, and
    /// run one after the other until something has to be asked of the chain.
    ///
    /// The result is what is asked, `Done` where every action has run, or
    /// `Failed`: with `Config` where no configuration is registered and
    /// where the actions cannot be scheduled, else with the failure of the
    /// action that failed.
    pub fn execute_actions(&mut self) -> (request: EngineRequest)
        ensures
            final(self).indexer == old(self).indexer,
            !(old(self).phase is Configured) ==> *final(self) == *old(self) && request@
                == RequestView::Failed(ErrorView::Config(not_configured_message())),
            old(self).phase is Configured && !schedulable(old(self).actions@) ==> ({
                &&& final(self).phase is Failed
                &&& request@ == RequestView::Failed(ErrorView::Config(cycle_message()))
                &&& failure_after(old(self).failure, final(self).failure, request@)
            }),
            old(self).phase is Configured && schedulable(old(self).actions@) ==> ({
                let progress = advanced(final(self).queue@, 0, &final(self).indexer);
                &&& exists|order: Seq<int>|
                    is_schedule(old(self).actions@, order) && released_in_turn(
                        old(self).actions@,
                        order,
                    ) && final(self).queue@ == arranged(old(self).actions@, order)
                &&& final(self).position == progress.position
                &&& final(self).pending@ == progress.pending
                &&& request@ == progress.request
                &&& final(self).phase == phase_after(progress.request)
                &&& failure_after(old(self).failure, final(self).failure, progress.request)
            }),
    {
        match self.phase {
            EnginePhase::Configured => {},
            _ => {
                return EngineRequest::Failed(
                    DeployerError::Config(
                        String::from_str("Config must be registered before executing actions"),
                    ),
                );
            },
        }
        let mut actions: Vec<Action> = Vec::new();
        core::mem::swap(&mut self.actions, &mut actions);
        match topological_sort(actions) {
            Ok(sorted) => {
                self.queue = sorted;
                self.position = 0;
                self.advance()
            },
            Err(e) => self.fail(e),
        }
    }

    /// Goes on with the run, given the answer to what was asked last.
    ///
    /// The action at work judges the answer: it asks again, fails, or is
    /// done; where it is done, its outputs are recorded and the next actions
    /// run until something has to be asked again. A failure ends the run;
    /// what was committed on the chain before stays committed. Outside a
    /// run the event is refused, and nothing changes.
    pub fn resume(&mut self, event: EngineEvent) -> (request: EngineRequest)
        ensures
            !(old(self).phase is Executing && old(self).position < old(self).queue@.len())
                ==> *final(self) == *old(self) && request@ == RequestView::Failed(
                ErrorView::Execution(unexpected_event_message()),
            ),
            old(self).phase is Executing && old(self).position < old(self).queue@.len()
                ==> follows(
                *old(self),
                *final(self),
                request@,
                judged(
                    old(self).pending@,
                    &old(self).queue@[old(self).position as int],
                    event@,
                    &old(self).indexer,
                ),
            ),
    {
        let executing = match self.phase {
            EnginePhase::Executing => true,
            _ => false,
        };
        if !executing || self.position >= self.queue.len() {
            return EngineRequest::Failed(
                DeployerError::Execution(String::from_str("unexpected event")),
            );
        }
        let mut pending = Pending::Idle;
        core::mem::swap(&mut self.pending, &mut pending);
        match (pending, event) {
            (Pending::DeployCode(plan), EngineEvent::Code(code)) => {
                match DeploymentExecutor::new().on_code(&plan, &code) {
                    DeploymentStep::AlreadyDeployed { address, transaction_hash } => {
                        self.record_deployment(address)
                    },
                    DeploymentStep::Submit(transaction) => self.ask(
                        Pending::DeployReceipt(plan),
                        EngineRequest::Send(transaction),
                    ),
                }
            },
            (Pending::DeployReceipt(plan), EngineEvent::Receipt { status, transaction_hash }) => {
                match DeploymentExecutor::new().on_receipt(&plan, status, transaction_hash) {
                    Ok(deployed) => self.record_deployment(deployed.0),
                    Err(e) => self.fail(e),
                }
            },
            (Pending::ReadCode(plan), EngineEvent::Code(code)) => {
                match ReadExecutor::new().on_code(&plan, &code) {
                    Ok(call) => self.ask(Pending::ReadReturn(plan), EngineRequest::Call(call)),
                    Err(e) => self.fail(e),
                }
            },
            (Pending::ReadReturn(plan), EngineEvent::Returned(returned)) => {
                match ReadExecutor::new().on_return(&plan, &returned) {
                    Ok(values) => {
                        let id = self.queue[self.position].id.clone();
                        self.record(id, plan.function.outputs, values)
                    },
                    Err(e) => self.fail(e),
                }
            },
            (Pending::WriteCondition(plan), EngineEvent::Returned(returned)) => {
                self.on_condition_return(plan, returned)
            },
            (Pending::WriteReceipt, EngineEvent::Receipt { status, transaction_hash }) => {
                match WriteExecutor::new().on_receipt(status) {
                    Ok(_) => self.go_on(),
                    Err(e) => self.fail(e),
                }
            },
            (Pending::DeployReceipt(_), EngineEvent::Failure(reason)) => self.fail(
                DeployerError::TransactionFailed(reason),
            ),
            (Pending::WriteReceipt, EngineEvent::Failure(reason)) => self.fail(
                DeployerError::TransactionFailed(reason),
            ),
            (Pending::Idle, _) => self.fail(
                DeployerError::Execution(String::from_str("unexpected event")),
            ),
            (_, EngineEvent::Failure(reason)) => self.fail(DeployerError::Execution(reason)),
            _ => self.fail(DeployerError::Execution(String::from_str("unexpected event"))),
        }
    }

    /// Goes on with a write whose condition's call has returned.
    fn on_condition_return(&mut self, plan: CallPlan, returned: Vec<u8>) -> (request: EngineRequest)
        requires
            old(self).position < old(self).queue@.len(),
        ensures
            follows(
                *old(self),
                *final(self),
                request@,
                condition_outcome(
                    &old(self).queue@[old(self).position as int],
                    plan@,
                    returned@,
                    &old(self).indexer,
                ),
            ),
    {
        let step = match &self.queue[self.position].action_data {
            ActionData::Write(data) => WriteExecutor::new().on_condition_return(
                data,
                &plan,
                &returned,
                &self.indexer,
            ),
            _ => Err(DeployerError::Execution(String::from_str("unexpected event"))),
        };
        match step {
            Ok(WriteStep::Skip) => self.go_on(),
            Ok(WriteStep::Submit(transaction)) => self.ask(
                Pending::WriteReceipt,
                EngineRequest::Send(transaction),
            ),
            Ok(WriteStep::Evaluate(_)) => self.fail(
                DeployerError::Execution(String::from_str("unexpected event")),
            ),
            Err(e) => self.fail(e),
        }
    }
}

} // verus!
