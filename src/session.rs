//! The acquisition flow as a state machine: balance check, availability
//! check, order, wait for the first delivered message, release. Each call
//! into the provider is an action handed out; its outcome comes back as an
//! event.
use vstd::prelude::*;
use crate::delivery::DeliveryQueue;
use crate::provider::{
    GetNumberResponse,
    RentedNumber,
    RunError,
    availability_from,
    availability_of,
    check_balance_error,
    marks_invalid_key,
    normalized_phone,
    rented_from,
    strings_view,
};

verus! {

/// Where the flow stands.
#[derive(Clone, Copy, Debug, PartialEq, Eq, Structural)]
pub enum Phase {
    /// Nothing asked yet.
    Start,
    /// The balance query is out.
    AwaitBalance,
    /// The availability query is out.
    AwaitAvailability,
    /// The order is out.
    AwaitOrder,
    /// A number is rented and the poller runs; no message delivered yet.
    Polling,
    /// The first message is delivered and the release is out.
    Releasing,
    /// The number is released; the run is over.
    Done,
    /// The run ended on an error before any number was released.
    Aborted,
}

/// The outcome of an action, reported back to the flow.
pub enum Event {
    /// Start the run.
    Begin,
    /// The balance query answered, with this error field.
    Balance { error: Option<String> },
    /// The availability query answered with these decoded entries.
    Availability { entries: Vec<(String, i32)> },
    /// The order answered with this response.
    Ordered { response: GetNumberResponse },
    /// The poller forwarded one cycle's texts, in the provider's order.
    Cycle { texts: Vec<String> },
    /// A balance, availability or order call failed in transport or decoding.
    CallFailed,
    /// The release call returned (its outcome does not change the run).
    Released,
}

/// What to do next.
#[derive(Debug, PartialEq, Eq)]
pub enum Action {
    /// Query the account balance.
    QueryBalance,
    /// Query stock and price for the configured country and service.
    QueryAvailability,
    /// Report stock and price, then order a number.
    Order { stock: i32, price: i32 },
    /// Report the rented number, then start the poller on `handle`.
    StartPolling { phone: String, handle: String },
    /// Keep waiting for the poller's next cycle.
    AwaitCycle,
    /// Show `message`, stop the poller and release `handle`.
    Release { handle: String, message: String },
    /// End the process with this status.
    Exit { status: i32 },
    /// End the run with this error.
    Abort { error: RunError },
    /// The event was not expected here; nothing to do.
    Idle,
}

/// The mathematical value of an [`Action`].
pub enum ActionModel {
    QueryBalance,
    QueryAvailability,
    Order { stock: i32, price: i32 },
    StartPolling { phone: Seq<char>, handle: Seq<char> },
    AwaitCycle,
    Release { handle: Seq<char>, message: Seq<char> },
    Exit { status: i32 },
    Abort { error: RunError },
    Idle,
}

impl View for Action {
    type V = ActionModel;

    open spec fn view(&self) -> ActionModel {
        match self {
            Action::QueryBalance => ActionModel::QueryBalance,
            Action::QueryAvailability => ActionModel::QueryAvailability,
            Action::Order { stock, price } => ActionModel::Order { stock: *stock, price: *price },
            Action::StartPolling { phone, handle } => ActionModel::StartPolling {
                phone: phone@,
                handle: handle@,
            },
            Action::AwaitCycle => ActionModel::AwaitCycle,
            Action::Release { handle, message } => ActionModel::Release {
                handle: handle@,
                message: message@,
            },
            Action::Exit { status } => ActionModel::Exit { status: *status },
            Action::Abort { error } => ActionModel::Abort { error: *error },
            Action::Idle => ActionModel::Idle,
        }
    }
}

/// The mathematical value of a [`Session`].
pub struct SessionModel {
    pub phase: Phase,
    pub require_stock: bool,
    /// Phone and handle of the rented number, once ordered.
    pub rented: Option<(Seq<char>, Seq<char>)>,
    /// Texts forwarded by the poller and not yet delivered.
    pub queue: Seq<Seq<char>>,
}

/// The state of one run.
pub struct Session {
    phase: Phase,
    require_stock: bool,
    rented: Option<RentedNumber>,
    queue: DeliveryQueue,
}

impl View for Session {
    type V = SessionModel;

    closed spec fn view(&self) -> SessionModel {
        SessionModel {
            phase: self.phase,
            require_stock: self.require_stock,
            rented: match self.rented {
                Some(r) => Some(r@),
                None => None,
            },
            queue: self.queue@,
        }
    }
}

/// A run that has not started; with `require_stock` it aborts instead of
/// ordering when no number is in stock.
pub open spec fn initial(require_stock: bool) -> SessionModel {
    SessionModel { phase: Phase::Start, require_stock, rented: None, queue: Seq::empty() }
}

/// The abort that a failed setup call leads to.
pub open spec fn transport_abort(s: SessionModel) -> (SessionModel, ActionModel) {
    (
        SessionModel { phase: Phase::Aborted, ..s },
        ActionModel::Abort { error: RunError::Transport },
    )
}

/// One transition: the next state and the action, given the current state
/// and the event. Events that do not belong to the current phase change
/// nothing and ask for nothing.
pub open spec fn step_model(s: SessionModel, e: Event) -> (SessionModel, ActionModel) {
    let idle = (s, ActionModel::Idle);
    match s.phase {
        Phase::Start => match e {
            Event::Begin => (
                SessionModel { phase: Phase::AwaitBalance, ..s },
                ActionModel::QueryBalance,
            ),
            _ => idle,
        },
        Phase::AwaitBalance => match e {
            Event::Balance { error } => if marks_invalid_key(error) {
                (SessionModel { phase: Phase::Aborted, ..s }, ActionModel::Exit { status: 1 })
            } else {
                (
                    SessionModel { phase: Phase::AwaitAvailability, ..s },
                    ActionModel::QueryAvailability,
                )
            },
            Event::CallFailed => transport_abort(s),
            _ => idle,
        },
        Phase::AwaitAvailability => match e {
            Event::Availability { entries } => match availability_of(entries@) {
                Some((stock, price)) => if s.require_stock && stock <= 0 {
                    (
                        SessionModel { phase: Phase::Aborted, ..s },
                        ActionModel::Abort { error: RunError::OutOfStock },
                    )
                } else {
                    (
                        SessionModel { phase: Phase::AwaitOrder, ..s },
                        ActionModel::Order { stock, price },
                    )
                },
                None => transport_abort(s),
            },
            Event::CallFailed => transport_abort(s),
            _ => idle,
        },
        Phase::AwaitOrder => match e {
            Event::Ordered { response } => {
                let phone = normalized_phone(response.tel@);
                let handle = response.id_num@;
                (
                    SessionModel { phase: Phase::Polling, rented: Some((phone, handle)), ..s },
                    ActionModel::StartPolling { phone, handle },
                )
            },
            Event::CallFailed => transport_abort(s),
            _ => idle,
        },
        Phase::Polling => match e {
            Event::Cycle { texts } => {
                let q = s.queue + strings_view(texts@);
                if q.len() > 0 {
                    (
                        SessionModel { phase: Phase::Releasing, queue: q.drop_first(), ..s },
                        ActionModel::Release { handle: s.rented->Some_0.1, message: q[0] },
                    )
                } else {
                    (SessionModel { queue: q, ..s }, ActionModel::AwaitCycle)
                }
            },
            _ => idle,
        },
        Phase::Releasing => match e {
            Event::Released => (
                SessionModel { phase: Phase::Done, ..s },
                ActionModel::Exit { status: 0 },
            ),
            _ => idle,
        },
        Phase::Done | Phase::Aborted => idle,
    }
}

impl Session {
    /// The queue is well formed, and a number is held whenever the run
    /// polls or releases.
    pub closed spec fn wf(&self) -> bool {
        &&& self.queue.wf()
        &&& (self.phase == Phase::Polling || self.phase == Phase::Releasing) ==> self.rented is Some
    }

    /// A run that has not started.
    pub fn new(require_stock: bool) -> (r: Session)
        ensures
            r.wf(),
            r@ == initial(require_stock),
    {
        Session { phase: Phase::Start, require_stock, rented: None, queue: DeliveryQueue::new() }
    }

    /// Where the run stands.
    pub fn phase(&self) -> (r: Phase)
        ensures
            r == self@.phase,
    {
        self.phase
    }

    /// Takes in the outcome of the last action and says what to do next.
    pub fn step(&mut self, event: Event) -> (r: Action)
        requires
            old(self).wf(),
        ensures
            final(self).wf(),
            (final(self)@, r@) == step_model(old(self)@, event),
    {
        match self.phase {
            Phase::Start => match event {
                Event::Begin => {
                    self.phase = Phase::AwaitBalance;
                    Action::QueryBalance
                },
                _ => Action::Idle,
            },
            Phase::AwaitBalance => match event {
                Event::Balance { error } => match check_balance_error(&error) {
                    Err(_) => {
                        self.phase = Phase::Aborted;
                        Action::Exit { status: 1 }
                    },
                    Ok(()) => {
                        self.phase = Phase::AwaitAvailability;
                        Action::QueryAvailability
                    },
                },
                Event::CallFailed => {
                    self.phase = Phase::Aborted;
                    Action::Abort { error: RunError::Transport }
                },
                _ => Action::Idle,
            },
            Phase::AwaitAvailability => match event {
                Event::Availability { entries } => match availability_from(&entries) {
                    Ok((stock, price)) => {
                        if self.require_stock && stock <= 0 {
                            self.phase = Phase::Aborted;
                            Action::Abort { error: RunError::OutOfStock }
                        } else {
                            self.phase = Phase::AwaitOrder;
                            Action::Order { stock, price }
                        }
                    },
                    Err(error) => {
                        self.phase = Phase::Aborted;
                        Action::Abort { error }
                    },
                },
                Event::CallFailed => {
                    self.phase = Phase::Aborted;
                    Action::Abort { error: RunError::Transport }
                },
                _ => Action::Idle,
            },
            Phase::AwaitOrder => match event {
                Event::Ordered { response } => {
                    let rented = rented_from(&response);
                    let phone = rented.phone.clone();
                    let handle = rented.handle.clone();
                    self.rented = Some(rented);
                    self.phase = Phase::Polling;
                    Action::StartPolling { phone, handle }
                },
                Event::CallFailed => {
                    self.phase = Phase::Aborted;
                    Action::Abort { error: RunError::Transport }
                },
                _ => Action::Idle,
            },
            Phase::Polling => match event {
                Event::Cycle { texts } => {
                    self.queue.push_cycle(texts);
                    match self.queue.pop() {
                        Some(message) => {
                            self.phase = Phase::Releasing;
                            let handle = match &self.rented {
                                Some(r) => r.handle.clone(),
                                None => String::new(),
                            };
                            Action::Release { handle, message }
                        },
                        None => Action::AwaitCycle,
                    }
                },
                _ => Action::Idle,
            },
            Phase::Releasing => match event {
                Event::Released => {
                    self.phase = Phase::Done;
                    Action::Exit { status: 0 }
                },
                _ => Action::Idle,
            },
            Phase::Done | Phase::Aborted => Action::Idle,
        }
    }
}

} // verus!
