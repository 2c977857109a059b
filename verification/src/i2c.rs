//! I2C transaction assembly from captured bus events, and the grouping of
//! transactions into register accesses.

use crate::bytes::copy_range;
use std::collections::VecDeque;
use vstd::prelude::*;

verus! {

/// Kind of a captured bus event.
#[derive(Debug, Clone, Copy, PartialEq, Eq, Structural)]
pub enum I2cEventType {
    Start,
    Address,
    Data,
    Stop,
}

/// One captured bus event.
#[derive(Debug, Clone, Copy, PartialEq, Eq)]
pub struct I2cEvent {
    /// Microseconds since the start of the capture.
    pub timestamp: u64,
    pub event_type: I2cEventType,
    /// Seven-bit device address, on an address event.
    pub address: Option<u8>,
    /// Data byte, on a data event.
    pub data: Option<u8>,
    /// Direction bit of an address event.
    pub read: bool,
    /// The byte was acknowledged.
    pub ack: bool,
}

/// I2C transaction.
#[derive(Debug, Clone, PartialEq, Eq)]
pub struct I2cTransaction {
    pub start_time: u64,
    pub end_time: u64,
    pub address: u8,
    pub is_read: bool,
    pub data: Vec<u8>,
    pub success: bool,
}

/// What an [`I2cTransaction`] holds.
pub ghost struct I2cTransactionView {
    pub start_time: u64,
    pub end_time: u64,
    pub address: u8,
    pub is_read: bool,
    pub data: Seq<u8>,
    pub success: bool,
}

impl View for I2cTransaction {
    type V = I2cTransactionView;

    open spec fn view(&self) -> I2cTransactionView {
        I2cTransactionView {
            start_time: self.start_time,
            end_time: self.end_time,
            address: self.address,
            is_read: self.is_read,
            data: self.data@,
            success: self.success,
        }
    }
}

/// I2C transaction assembly state.
#[derive(Debug, Clone, PartialEq, Eq)]
enum I2cState {
    /// Waiting for START condition.
    Idle,
    /// Got START, waiting for address.
    WaitingForAddress { start_time: u64 },
    /// Got address, collecting data.
    CollectingData { start_time: u64, address: u8, is_read: bool, data: Vec<u8>, all_acks: bool },
}

/// What an assembler remembers between events.
pub ghost enum I2cStateView {
    Idle,
    WaitingForAddress { start_time: u64 },
    CollectingData { start_time: u64, address: u8, is_read: bool, data: Seq<u8>, all_acks: bool },
}

impl View for I2cState {
    type V = I2cStateView;

    closed spec fn view(&self) -> I2cStateView {
        match self {
            I2cState::Idle => I2cStateView::Idle,
            I2cState::WaitingForAddress { start_time } => I2cStateView::WaitingForAddress {
                start_time: *start_time,
            },
            I2cState::CollectingData { start_time, address, is_read, data, all_acks } => {
                I2cStateView::CollectingData {
                    start_time: *start_time,
                    address: *address,
                    is_read: *is_read,
                    data: data@,
                    all_acks: *all_acks,
                }
            },
        }
    }
}

/// The state after one bus event, and the transaction that the event closed.
///
/// A transaction runs from a START to the next STOP or repeated START. It
/// succeeds when the address and every data byte were acknowledged. A
/// repeated START closes the running transaction only if it carried data.
pub open spec fn step_event(state: I2cStateView, event: I2cEvent) -> (
    I2cStateView,
    Option<I2cTransactionView>,
) {
    match state {
        I2cStateView::Idle => {
            if event.event_type == I2cEventType::Start {
                (I2cStateView::WaitingForAddress { start_time: event.timestamp }, None)
            } else {
                (I2cStateView::Idle, None)
            }
        },
        I2cStateView::WaitingForAddress { start_time } => match event.event_type {
            I2cEventType::Address => match event.address {
                Some(address) => (
                    I2cStateView::CollectingData {
                        start_time,
                        address,
                        is_read: event.read,
                        data: Seq::<u8>::empty(),
                        all_acks: event.ack,
                    },
                    None,
                ),
                None => (I2cStateView::Idle, None),
            },
            I2cEventType::Stop => (I2cStateView::Idle, None),
            _ => (state, None),
        },
        I2cStateView::CollectingData { start_time, address, is_read, data, all_acks } => {
            let closed = I2cTransactionView {
                start_time,
                end_time: event.timestamp,
                address,
                is_read,
                data,
                success: all_acks,
            };
            match event.event_type {
                I2cEventType::Data => match event.data {
                    Some(byte) => (
                        I2cStateView::CollectingData {
                            start_time,
                            address,
                            is_read,
                            data: data.push(byte),
                            all_acks: all_acks && event.ack,
                        },
                        None,
                    ),
                    None => (state, None),
                },
                I2cEventType::Stop => (I2cStateView::Idle, Some(closed)),
                I2cEventType::Start => (
                    I2cStateView::WaitingForAddress { start_time: event.timestamp },
                    if data.len() > 0 {
                        Some(closed)
                    } else {
                        None
                    },
                ),
                I2cEventType::Address => (state, None),
            }
        },
    }
}

/// The transaction that the end of the capture cuts short: one that already
/// carries data. It ends where it started and counts as failed.
pub open spec fn unfinished_transaction(state: I2cStateView) -> Option<I2cTransactionView> {
    match state {
        I2cStateView::CollectingData { start_time, address, is_read, data, all_acks } => {
            if data.len() > 0 {
                Some(
                    I2cTransactionView {
                        start_time,
                        end_time: start_time,
                        address,
                        is_read,
                        data,
                        success: false,
                    },
                )
            } else {
                None
            }
        },
        _ => None,
    }
}

/// Views of the transactions in a queue, oldest first.
pub open spec fn transaction_views(ts: Seq<I2cTransaction>) -> Seq<I2cTransactionView> {
    ts.map_values(|t: I2cTransaction| t@)
}

/// A queue with one more transaction at its end, if there is one to add.
pub open spec fn with_transaction(
    queue: Seq<I2cTransactionView>,
    t: Option<I2cTransactionView>,
) -> Seq<I2cTransactionView> {
    match t {
        Some(t) => queue.push(t),
        None => queue,
    }
}

/// What an [`I2cAssembler`] holds.
pub ghost struct I2cAssemblerView {
    pub state: I2cStateView,
    /// Transactions completed and not yet taken, oldest first.
    pub transactions: Seq<I2cTransactionView>,
}

/// I2C transaction assembler.
pub struct I2cAssembler {
    state: I2cState,
    transactions: VecDeque<I2cTransaction>,
}

impl View for I2cAssembler {
    type V = I2cAssemblerView;

    closed spec fn view(&self) -> I2cAssemblerView {
        I2cAssemblerView {
            state: self.state@,
            transactions: transaction_views(self.transactions@),
        }
    }
}

impl I2cAssembler {
    /// Creates an assembler that waits for a START, with an empty queue.
    pub fn new() -> (assembler: Self)
        ensures
            assembler@ == (I2cAssemblerView {
                state: I2cStateView::Idle,
                transactions: Seq::<I2cTransactionView>::empty(),
            }),
    {
        let assembler = Self { state: I2cState::Idle, transactions: VecDeque::new() };
        proof {
            assert(transaction_views(assembler.transactions@) == Seq::<
                I2cTransactionView,
            >::empty());
        }
        assembler
    }

    /// The assembler waits for a START.
    pub fn is_idle(&self) -> (idle: bool)
        ensures
            idle == (self@.state is Idle),
    {
        match &self.state {
            I2cState::Idle => true,
            _ => false,
        }
    }

    fn enqueue(&mut self, t: Option<I2cTransaction>)
        ensures
            final(self).state == old(self).state,
            transaction_views(final(self).transactions@) == with_transaction(
                transaction_views(old(self).transactions@),
                match t {
                    Some(t) => Some(t@),
                    None => None,
                },
            ),
    {
        if let Some(t) = t {
            self.transactions.push_back(t);
            proof {
                assert(transaction_views(self.transactions@) == transaction_views(
                    old(self).transactions@,
                ).push(t@));
            }
        }
    }

    /// Processes an I2C event.
    pub fn process(&mut self, event: &I2cEvent)
        ensures
            final(self)@.state == step_event(old(self)@.state, *event).0,
            final(self)@.transactions == with_transaction(
                old(self)@.transactions,
                step_event(old(self)@.state, *event).1,
            ),
    {
        let mut state = I2cState::Idle;
        core::mem::swap(&mut self.state, &mut state);
        let mut closed: Option<I2cTransaction> = None;
        match state {
            I2cState::Idle => {
                if let I2cEventType::Start = event.event_type {
                    self.state = I2cState::WaitingForAddress { start_time: event.timestamp };
                }
            },
            I2cState::WaitingForAddress { start_time } => match event.event_type {
                I2cEventType::Address => {
                    if let Some(address) = event.address {
                        self.state = I2cState::CollectingData {
                            start_time,
                            address,
                            is_read: event.read,
                            data: Vec::new(),
                            all_acks: event.ack,
                        };
                    }
                },
                I2cEventType::Stop => {},
                _ => {
                    self.state = I2cState::WaitingForAddress { start_time };
                },
            },
            I2cState::CollectingData { start_time, address, is_read, data, all_acks } => {
                match event.event_type {
                    I2cEventType::Data => {
                        let mut data = data;
                        let mut all_acks = all_acks;
                        if let Some(byte) = event.data {
                            data.push(byte);
                            all_acks = all_acks && event.ack;
                        }
                        self.state = I2cState::CollectingData {
                            start_time,
                            address,
                            is_read,
                            data,
                            all_acks,
                        };
                    },
                    I2cEventType::Stop => {
                        closed = Some(
                            I2cTransaction {
                                start_time,
                                end_time: event.timestamp,
                                address,
                                is_read,
                                data,
                                success: all_acks,
                            },
                        );
                    },
                    I2cEventType::Start => {
                        if data.len() > 0 {
                            closed = Some(
                                I2cTransaction {
                                    start_time,
                                    end_time: event.timestamp,
                                    address,
                                    is_read,
                                    data,
                                    success: all_acks,
                                },
                            );
                        }
                        self.state = I2cState::WaitingForAddress { start_time: event.timestamp };
                    },
                    I2cEventType::Address => {
                        self.state = I2cState::CollectingData {
                            start_time,
                            address,
                            is_read,
                            data,
                            all_acks,
                        };
                    },
                }
            },
        }
        self.enqueue(closed);
    }

    /// Takes the oldest completed transaction out of the queue.
    pub fn next_transaction(&mut self) -> (t: Option<I2cTransaction>)
        ensures
            final(self)@.state == old(self)@.state,
            old(self)@.transactions.len() == 0 ==> t is None && final(self)@.transactions
                == old(self)@.transactions,
            old(self)@.transactions.len() > 0 ==> t is Some && t->0@ == old(
                self,
            )@.transactions[0] && final(self)@.transactions == old(self)@.transactions.drop_first(),
    {
        let t = self.transactions.pop_front();
        proof {
            if old(self).transactions@.len() > 0 {
                assert(transaction_views(self.transactions@) == transaction_views(
                    old(self).transactions@,
                ).drop_first());
            }
        }
        t
    }

    /// Flushes any pending transaction: one that already carries data joins
    /// the queue as failed, and the assembler waits for a START again.
    pub fn flush(&mut self)
        ensures
            final(self)@.state is Idle,
            final(self)@.transactions == with_transaction(
                old(self)@.transactions,
                unfinished_transaction(old(self)@.state),
            ),
    {
        let mut state = I2cState::Idle;
        core::mem::swap(&mut self.state, &mut state);
        let mut cut: Option<I2cTransaction> = None;
        if let I2cState::CollectingData { start_time, address, is_read, data, all_acks } = state {
            if data.len() > 0 {
                cut = Some(
                    I2cTransaction {
                        start_time,
                        end_time: start_time,
                        address,
                        is_read,
                        data,
                        success: false,
                    },
                );
            }
        }
        self.enqueue(cut);
    }
}

/// Logical operation on a device: one transaction, or a register write
/// followed by a read.
#[derive(Debug, Clone, PartialEq, Eq)]
pub struct I2cOperation {
    pub start_time: u64,
    pub end_time: u64,
    pub address: u8,
    pub register: Option<u8>,
    pub write_data: Option<Vec<u8>>,
    pub read_data: Option<Vec<u8>>,
}

/// What an [`I2cOperation`] holds.
pub ghost struct I2cOperationView {
    pub start_time: u64,
    pub end_time: u64,
    pub address: u8,
    pub register: Option<u8>,
    pub write_data: Option<Seq<u8>>,
    pub read_data: Option<Seq<u8>>,
}

/// View of bytes that may be absent.
pub open spec fn bytes_option_view(data: Option<Vec<u8>>) -> Option<Seq<u8>> {
    match data {
        Some(d) => Some(d@),
        None => None,
    }
}

impl View for I2cOperation {
    type V = I2cOperationView;

    open spec fn view(&self) -> I2cOperationView {
        I2cOperationView {
            start_time: self.start_time,
            end_time: self.end_time,
            address: self.address,
            register: self.register,
            write_data: bytes_option_view(self.write_data),
            read_data: bytes_option_view(self.read_data),
        }
    }
}

/// Views of a list of operations.
pub open spec fn operation_views(ops: Seq<I2cOperation>) -> Seq<I2cOperationView> {
    ops.map_values(|op: I2cOperation| op@)
}

/// The transaction at `i` is a write that carries at least a register
/// number, and the next transaction reads from the same device.
pub open spec fn is_register_read(ts: Seq<I2cTransactionView>, i: int) -> bool {
    &&& 0 <= i
    &&& i + 1 < ts.len()
    &&& !ts[i].is_read
    &&& ts[i].data.len() >= 1
    &&& ts[i + 1].is_read
    &&& ts[i + 1].address == ts[i].address
}

/// A register write and the read that follows it, as one operation: the
/// register is the first byte written, the rest of the write is the written
/// data (absent when there is none), and the read gives the read data.
pub open spec fn fused_operation(w: I2cTransactionView, r: I2cTransactionView) -> I2cOperationView {
    I2cOperationView {
        start_time: w.start_time,
        end_time: r.end_time,
        address: w.address,
        register: Some(w.data[0]),
        write_data: if w.data.len() > 1 {
            Some(w.data.subrange(1, w.data.len() as int))
        } else {
            None
        },
        read_data: Some(r.data),
    }
}

/// A transaction on its own, as one operation: the register is its first
/// byte, if it has one; a write with data gives the written data (register
/// byte included), a read gives the read data.
pub open spec fn single_operation(t: I2cTransactionView) -> I2cOperationView {
    I2cOperationView {
        start_time: t.start_time,
        end_time: t.end_time,
        address: t.address,
        register: if t.data.len() > 0 {
            Some(t.data[0])
        } else {
            None
        },
        write_data: if !t.is_read && t.data.len() > 0 {
            Some(t.data)
        } else {
            None
        },
        read_data: if t.is_read {
            Some(t.data)
        } else {
            None
        },
    }
}

/// The operations that the transactions from index `i` on make up, taken
/// greedily from the left.
pub open spec fn group_from(ts: Seq<I2cTransactionView>, i: int) -> Seq<I2cOperationView>
    decreases ts.len() - i,
{
    if i < 0 || i >= ts.len() {
        Seq::<I2cOperationView>::empty()
    } else if is_register_read(ts, i) {
        seq![fused_operation(ts[i], ts[i + 1])] + group_from(ts, i + 2)
    } else {
        seq![single_operation(ts[i])] + group_from(ts, i + 1)
    }
}

/// The operations that a list of transactions makes up.
pub open spec fn group_spec(ts: Seq<I2cTransactionView>) -> Seq<I2cOperationView> {
    group_from(ts, 0)
}

/// Groups I2C transactions into logical operations.
pub fn group_transactions(transactions: &[I2cTransaction]) -> (operations: Vec<I2cOperation>)
    ensures
        operation_views(operations@) == group_spec(transaction_views(transactions@)),
{
    let ghost ts = transaction_views(transactions@);
    let mut operations: Vec<I2cOperation> = Vec::new();
    let mut i: usize = 0;
    proof {
        assert(operation_views(operations@) == Seq::<I2cOperationView>::empty());
        assert(Seq::<I2cOperationView>::empty() + group_from(ts, 0) == group_from(ts, 0));
    }
    while i < transactions.len()
        invariant
            i <= transactions.len(),
            ts == transaction_views(transactions@),
            group_spec(ts) == operation_views(operations@) + group_from(ts, i as int),
        decreases transactions.len() - i,
    {
        let t1 = &transactions[i];
        let ghost before = operation_views(operations@);
        proof {
            assert(ts[i as int] == t1@);
        }
        let mut fused = false;
        if !t1.is_read && t1.data.len() >= 1 && i + 1 < transactions.len() {
            let t2 = &transactions[i + 1];
            proof {
                assert(ts[i + 1] == t2@);
            }
            if t2.is_read && t2.address == t1.address {
                let write_data = if t1.data.len() > 1 {
                    Some(copy_range(t1.data.as_slice(), 1, t1.data.len()))
                } else {
                    None
                };
                let op = I2cOperation {
                    start_time: t1.start_time,
                    end_time: t2.end_time,
                    address: t1.address,
                    register: Some(t1.data[0]),
                    write_data,
                    read_data: Some(copy_range(t2.data.as_slice(), 0, t2.data.len())),
                };
                proof {
                    assert(t2.data@.subrange(0, t2.data@.len() as int) == t2.data@);
                    assert(op@ == fused_operation(ts[i as int], ts[i + 1]));
                }
                operations.push(op);
                proof {
                    assert(operation_views(operations@) == before.push(op@));
                    assert(before.push(op@) + group_from(ts, i + 2) == before + (seq![op@]
                        + group_from(ts, i + 2)));
                }
                i = i + 2;
                fused = true;
            }
        }
        if !fused {
            proof {
                assert(!is_register_read(ts, i as int));
                assert(t1.data@.subrange(0, t1.data@.len() as int) == t1.data@);
            }
            let op = I2cOperation {
                start_time: t1.start_time,
                end_time: t1.end_time,
                address: t1.address,
                register: if t1.data.len() > 0 {
                    Some(t1.data[0])
                } else {
                    None
                },
                write_data: if !t1.is_read && t1.data.len() > 0 {
                    Some(copy_range(t1.data.as_slice(), 0, t1.data.len()))
                } else {
                    None
                },
                read_data: if t1.is_read {
                    Some(copy_range(t1.data.as_slice(), 0, t1.data.len()))
                } else {
                    None
                },
            };
            proof {
                assert(op@ == single_operation(ts[i as int]));
            }
            operations.push(op);
            proof {
                assert(operation_views(operations@) == before.push(op@));
                assert(before.push(op@) + group_from(ts, i + 1) == before + (seq![op@]
                    + group_from(ts, i + 1)));
            }
            i = i + 1;
        }
    }
    proof {
        assert(operation_views(operations@) + Seq::<I2cOperationView>::empty()
            == operation_views(operations@));
    }
    operations
}

} // verus!
