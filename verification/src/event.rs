//! The event record and its layout on the ring buffer.
use crate::bytes::{
    byte_range_values, le_bytes, le_bytes_are_digits, le_bytes_len, le_value_of_le_bytes, read_le,
    write_le,
};
use vstd::arithmetic::div_mod::{lemma_hoist_over_denominator, lemma_mod_multiples_vanish};
use vstd::arithmetic::power::{lemma_pow_adds, lemma_pow_positive, pow};
use vstd::prelude::*;

verus! {

/// The number of bytes of a record on the ring buffer.
pub const EVENT_SIZE: usize = 32;

/// One hit of a probe: a traced call entered or left.
///
/// The record crosses the boundary between kernel and user space, so its layout
/// is fixed: see `SyscallEvent::wire`.
#[derive(Clone, Copy, Debug)]
pub struct SyscallEvent {
    /// Monotonic nanosecond timestamp.
    pub timestamp_ns: u64,
    /// PID of the process that made the call.
    pub pid: u32,
    /// TID of the thread that made the call.
    pub tid: u32,
    /// Syscall number (x86_64), or the id of a traced library function.
    pub syscall_nr: u32,
    /// `KIND_ENTER` or `KIND_EXIT`.
    pub kind: u8,
    /// Fills the record up to a multiple of 8 bytes; no part of the output.
    pub _pad: [u8; 3],
    /// Return value on exit, 0 on enter.
    pub ret: i64,
}

/// The value of `ret` as an unsigned 64-bit integer, in two's complement.
pub open spec fn twos_complement(ret: i64) -> nat {
    if ret >= 0 {
        ret as nat
    } else {
        (ret + 0x1_0000_0000_0000_0000) as nat
    }
}

impl SyscallEvent {
    pub const KIND_ENTER: u8 = 0;

    pub const KIND_EXIT: u8 = 1;

    /// The record on the ring buffer: the fields in order of declaration, the
    /// integers in little-endian byte order.
    pub open spec fn wire(self) -> Seq<u8> {
        le_bytes(self.timestamp_ns as nat, 8) + le_bytes(self.pid as nat, 4) + le_bytes(
            self.tid as nat,
            4,
        ) + le_bytes(self.syscall_nr as nat, 4) + seq![self.kind] + self._pad@ + le_bytes(
            twos_complement(self.ret),
            8,
        )
    }

    /// An enter event. `ret` is always zero for enter events.
    #[must_use]
    pub fn new_enter(timestamp_ns: u64, pid: u32, tid: u32, syscall_nr: u32) -> (event: Self)
        ensures
            event.timestamp_ns == timestamp_ns,
            event.pid == pid,
            event.tid == tid,
            event.syscall_nr == syscall_nr,
            event.kind == Self::KIND_ENTER,
            event._pad@ == seq![0u8, 0u8, 0u8],
            event.ret == 0,
    {
        Self {
            timestamp_ns,
            pid,
            tid,
            syscall_nr,
            kind: Self::KIND_ENTER,
            _pad: [0, 0, 0],
            ret: 0,
        }
    }

    /// An exit event with the return value of the call.
    #[must_use]
    pub fn new_exit(timestamp_ns: u64, pid: u32, tid: u32, syscall_nr: u32, ret: i64) -> (event:
        Self)
        ensures
            event.timestamp_ns == timestamp_ns,
            event.pid == pid,
            event.tid == tid,
            event.syscall_nr == syscall_nr,
            event.kind == Self::KIND_EXIT,
            event._pad@ == seq![0u8, 0u8, 0u8],
            event.ret == ret,
    {
        Self {
            timestamp_ns,
            pid,
            tid,
            syscall_nr,
            kind: Self::KIND_EXIT,
            _pad: [0, 0, 0],
            ret,
        }
    }

    /// The record as it stands on the ring buffer.
    pub fn to_bytes(&self) -> (record: [u8; EVENT_SIZE])
        ensures
            record@ == self.wire(),
    {
        let mut record: [u8; EVENT_SIZE] = [0; EVENT_SIZE];
        write_le(&mut record, 0, 8, self.timestamp_ns);
        write_le(&mut record, 8, 4, self.pid as u64);
        write_le(&mut record, 12, 4, self.tid as u64);
        write_le(&mut record, 16, 4, self.syscall_nr as u64);
        record[20] = self.kind;
        record[21] = self._pad[0];
        record[22] = self._pad[1];
        record[23] = self._pad[2];
        write_le(&mut record, 24, 8, ret_to_bits(self.ret));
        proof {
            self.wire_fields();
            assert(record@ =~= self.wire());
        }
        record
    }

    /// Reads a record of the ring buffer.
    pub fn from_bytes(record: &[u8]) -> (result: Result<Self, SizeMismatch>)
        ensures
            reads_as(record@, result),
    {
        if record.len() != EVENT_SIZE {
            return Err(SizeMismatch { got: record.len(), expected: EVENT_SIZE });
        }
        proof {
            byte_range_values();
        }
        let event = Self {
            timestamp_ns: read_le(record, 0, 8),
            pid: read_le(record, 8, 4) as u32,
            tid: read_le(record, 12, 4) as u32,
            syscall_nr: read_le(record, 16, 4) as u32,
            kind: record[20],
            _pad: [record[21], record[22], record[23]],
            ret: ret_from_bits(read_le(record, 24, 8)),
        };
        proof {
            event.wire_fields();
            assert(event.wire() =~= record@);
        }
        Ok(event)
    }

    /// A record has `EVENT_SIZE` bytes, and each field stands at its own offset.
    pub proof fn wire_fields(self)
        ensures
            self.wire().len() == EVENT_SIZE,
            self.wire().subrange(0, 8) == le_bytes(self.timestamp_ns as nat, 8),
            self.wire().subrange(8, 12) == le_bytes(self.pid as nat, 4),
            self.wire().subrange(12, 16) == le_bytes(self.tid as nat, 4),
            self.wire().subrange(16, 20) == le_bytes(self.syscall_nr as nat, 4),
            self.wire()[20] == self.kind,
            self.wire().subrange(21, 24) == self._pad@,
            self.wire().subrange(24, 32) == le_bytes(twos_complement(self.ret), 8),
    {
        le_bytes_len(self.timestamp_ns as nat, 8);
        le_bytes_len(self.pid as nat, 4);
        le_bytes_len(self.tid as nat, 4);
        le_bytes_len(self.syscall_nr as nat, 4);
        le_bytes_len(twos_complement(self.ret), 8);
        assert(self.wire().subrange(0, 8) =~= le_bytes(self.timestamp_ns as nat, 8));
        assert(self.wire().subrange(8, 12) =~= le_bytes(self.pid as nat, 4));
        assert(self.wire().subrange(12, 16) =~= le_bytes(self.tid as nat, 4));
        assert(self.wire().subrange(16, 20) =~= le_bytes(self.syscall_nr as nat, 4));
        assert(self.wire().subrange(21, 24) =~= self._pad@);
        assert(self.wire().subrange(24, 32) =~= le_bytes(twos_complement(self.ret), 8));
    }
}

/// The bits of a return value.
fn ret_to_bits(ret: i64) -> (bits: u64)
    ensures
        bits == twos_complement(ret),
{
    assert(ret < 0 ==> (ret as u64) == ret + 0x1_0000_0000_0000_0000) by (bit_vector);
    ret as u64
}

/// The return value with these bits.
fn ret_from_bits(bits: u64) -> (ret: i64)
    ensures
        twos_complement(ret) == bits,
{
    assert(bits >= 0x8000_0000_0000_0000 ==> (bits as i64) == bits - 0x1_0000_0000_0000_0000)
        by (bit_vector);
    bits as i64
}

/// A record whose length is not that of an event.
#[derive(Clone, Copy, Debug, PartialEq, Eq, Structural)]
pub struct SizeMismatch {
    /// The length of the record.
    pub got: usize,
    /// `EVENT_SIZE`.
    pub expected: usize,
}

/// What reading `record` gives: the event whose record it is, or, if its length
/// is not `EVENT_SIZE`, that length.
pub open spec fn reads_as(record: Seq<u8>, result: Result<SyscallEvent, SizeMismatch>) -> bool {
    match result {
        Ok(event) => record.len() == EVENT_SIZE && event.wire() == record,
        Err(mismatch) => {
            &&& record.len() != EVENT_SIZE
            &&& mismatch.got == record.len()
            &&& mismatch.expected == EVENT_SIZE
        },
    }
}

/// Every byte of a record is the one that a little-endian machine keeps there: each
/// integer field, from its offset on, holds its digits to the base 256, the least
/// significant one first, a negative number in two's complement.
pub proof fn wire_bytes(event: SyscallEvent, i: nat)
    requires
        i < 8,
    ensures
        event.wire().len() == 32,
        event.wire()[i as int] == (event.timestamp_ns as int / pow(256, i)) % 256,
        i < 4 ==> event.wire()[8int + i] == (event.pid as int / pow(256, i)) % 256,
        i < 4 ==> event.wire()[12int + i] == (event.tid as int / pow(256, i)) % 256,
        i < 4 ==> event.wire()[16int + i] == (event.syscall_nr as int / pow(256, i)) % 256,
        event.wire()[20] == event.kind,
        i < 3 ==> event.wire()[21int + i] == event._pad[i as int],
        event.wire()[24int + i] == (event.ret as int / pow(256, i)) % 256,
{
    event.wire_fields();
    let wire = event.wire();
    le_bytes_are_digits(event.timestamp_ns as nat, 8, i);
    le_bytes_are_digits(twos_complement(event.ret), 8, i);
    assert(wire.subrange(0, 8)[i as int] == wire[i as int]);
    assert(wire.subrange(24, 32)[i as int] == wire[24int + i]);
    if i < 4 {
        le_bytes_are_digits(event.pid as nat, 4, i);
        le_bytes_are_digits(event.tid as nat, 4, i);
        le_bytes_are_digits(event.syscall_nr as nat, 4, i);
        assert(wire.subrange(8, 12)[i as int] == wire[8int + i]);
        assert(wire.subrange(12, 16)[i as int] == wire[12int + i]);
        assert(wire.subrange(16, 20)[i as int] == wire[16int + i]);
    }
    if i < 3 {
        assert(wire.subrange(21, 24)[i as int] == wire[21int + i]);
    }
    digits_in_twos_complement(event.ret, i);
}

proof fn digits_in_twos_complement(ret: i64, i: nat)
    requires
        i < 8,
    ensures
        (twos_complement(ret) as int / pow(256, i)) % 256 == (ret as int / pow(256, i)) % 256,
{
    let place = pow(256, i);
    let above = pow(256, (7 - i) as nat);
    lemma_pow_positive(256, i);
    lemma_pow_adds(256, i, (8 - i) as nat);
    assert(pow(256, 8) == 0x1_0000_0000_0000_0000) by {
        reveal_with_fuel(pow, 9);
    }
    assert(pow(256, (8 - i) as nat) == 256 * above) by {
        reveal(pow);
    }
    lemma_hoist_over_denominator(ret as int, 256 * above, place as nat);
    lemma_mod_multiples_vanish(above, ret as int / place, 256);
    assert((256 * above) * place == place * (256 * above)) by (nonlinear_arith);
}

/// A record of any other length is refused, with its length and that of an event.
pub proof fn other_lengths_are_refused(
    record: Seq<u8>,
    result: Result<SyscallEvent, SizeMismatch>,
)
    requires
        record.len() != 32,
        record.len() <= usize::MAX,
    ensures
        reads_as(record, result) <==> result == Err::<SyscallEvent, SizeMismatch>(
            SizeMismatch { got: record.len() as usize, expected: 32 },
        ),
{
}

/// Two events with the same record are the same event.
pub proof fn wire_is_injective(first: SyscallEvent, second: SyscallEvent)
    requires
        first.wire() == second.wire(),
    ensures
        first == second,
{
    first.wire_fields();
    second.wire_fields();
    byte_range_values();
    le_value_of_le_bytes(first.timestamp_ns as nat, 8);
    le_value_of_le_bytes(second.timestamp_ns as nat, 8);
    le_value_of_le_bytes(first.pid as nat, 4);
    le_value_of_le_bytes(second.pid as nat, 4);
    le_value_of_le_bytes(first.tid as nat, 4);
    le_value_of_le_bytes(second.tid as nat, 4);
    le_value_of_le_bytes(first.syscall_nr as nat, 4);
    le_value_of_le_bytes(second.syscall_nr as nat, 4);
    le_value_of_le_bytes(twos_complement(first.ret), 8);
    le_value_of_le_bytes(twos_complement(second.ret), 8);
    assert forall|i: int| 0 <= i < 3 implies first._pad[i] == second._pad[i] by {
        assert(first._pad@[i] == second._pad@[i]);
    }
    assert(first._pad =~= second._pad);
}

/// What the kernel side wrote is what the user side reads: reading the record
/// of an event gives that event, and nothing else.
pub proof fn reading_gives_back_the_event(
    event: SyscallEvent,
    result: Result<SyscallEvent, SizeMismatch>,
)
    ensures
        reads_as(event.wire(), result) <==> result == Ok::<SyscallEvent, SizeMismatch>(event),
{
    event.wire_fields();
    if reads_as(event.wire(), result) {
        wire_is_injective(result->Ok_0, event);
    }
}

} // verus!
