//! The bus that the driver writes to, and the record of what was written.

use embedded_hal::i2c::ErrorKind;
use embedded_hal::i2c::I2c;
use vstd::prelude::*;

use crate::error::DriverError;

verus! {

/// `embedded_hal::i2c::ErrorKind`, the kind of a bus error, carried through
/// as it came: nothing is read from it.
#[verifier::external_type_specification]
#[verifier::external_body]
pub struct ExErrorKind(ErrorKind);

/// Calls `embedded_hal::i2c::I2c::write` on `bus` and, where it fails, takes
/// the kind of the error with `embedded_hal::i2c::Error::kind`. Nothing is
/// claimed of the outcome: the bus decides it.
#[verifier::external_body]
pub(crate) fn bus_write<T: I2c>(bus: &mut T, address: u8, bytes: &[u8]) -> (r: Result<
    (),
    ErrorKind,
>) {
    match bus.write(address, bytes) {
        Ok(()) => Ok(()),
        Err(e) => Err(embedded_hal::i2c::Error::kind(&e)),
    }
}

/// One register write that the driver handed to its bus, with its outcome.
pub struct Transfer {
    /// The bus address that the write went to.
    pub address: u8,
    /// The chip register that was addressed.
    pub register: u8,
    /// The byte that was written to it.
    pub value: u8,
    /// `None` if the bus accepted the write, else the kind of error it reported.
    pub failure: Option<ErrorKind>,
}

/// A register write that is still to be made: the register, then the value.
pub type Frame = (u8, u8);

/// What an operation returns for one write with the given outcome.
pub open spec fn outcome(failure: Option<ErrorKind>) -> Result<(), DriverError<ErrorKind>> {
    match failure {
        None => Ok(()),
        Some(e) => Err(DriverError::I2C(e)),
    }
}

/// `done` is what came of carrying out `plan` in order, stopping at the first
/// write that the bus refused, and `result` is what the operation returns:
/// the refusal if there was one, else `end`.
pub open spec fn carried_out(
    plan: Seq<Frame>,
    done: Seq<Transfer>,
    end: Result<(), DriverError<ErrorKind>>,
    result: Result<(), DriverError<ErrorKind>>,
) -> bool {
    &&& done.len() <= plan.len()
    &&& forall|i: int|
        0 <= i < done.len() ==> (#[trigger] done[i]).register == plan[i].0 && done[i].value
            == plan[i].1
    &&& forall|i: int| 0 <= i < done.len() - 1 ==> (#[trigger] done[i]).failure is None
    &&& if done.len() > 0 && done.last().failure is Some {
        result == outcome(done.last().failure)
    } else {
        done.len() == plan.len() && result == end
    }
}

/// The log grew from `before` to `after` by carrying out `plan`, and `result`
/// is what the operation returns.
pub open spec fn performed(
    before: Seq<Transfer>,
    after: Seq<Transfer>,
    plan: Seq<Frame>,
    end: Result<(), DriverError<ErrorKind>>,
    result: Result<(), DriverError<ErrorKind>>,
) -> bool {
    &&& before.len() <= after.len()
    &&& after.take(before.len() as int) == before
    &&& carried_out(plan, after.skip(before.len() as int), end, result)
}

/// The log grew from `before` to `now` by the first `count` writes of `plan`,
/// each of them accepted.
pub open spec fn accepted_so_far(
    before: Seq<Transfer>,
    now: Seq<Transfer>,
    plan: Seq<Frame>,
    count: int,
) -> bool {
    &&& 0 <= count <= plan.len()
    &&& now.len() == before.len() + count
    &&& now.take(before.len() as int) == before
    &&& forall|i: int|
        0 <= i < count ==> {
            let t = #[trigger] now[before.len() + i];
            t.register == plan[i].0 && t.value == plan[i].1 && t.failure is None
        }
}

/// The value that the bus last accepted for `register`, or `default` if it
/// accepted none.
pub open spec fn last_accepted(log: Seq<Transfer>, register: u8, default: u8) -> u8
    decreases log.len(),
{
    if log.len() == 0 {
        default
    } else if log.last().register == register && log.last().failure is None {
        log.last().value
    } else {
        last_accepted(log.drop_last(), register, default)
    }
}

/// One more write changes the last accepted value of a register only if it
/// is to that register and the bus accepts it.
pub proof fn lemma_last_accepted_push(log: Seq<Transfer>, t: Transfer, register: u8, default: u8)
    ensures
        last_accepted(log.push(t), register, default) == if t.register == register
            && t.failure is None {
            t.value
        } else {
            last_accepted(log, register, default)
        },
{
    assert(log.push(t).drop_last() =~= log);
}

/// The log grew from `before` to `after` by one write of `value` to
/// `register`, and `result` is what that write came to.
pub open spec fn wrote_one(
    before: Seq<Transfer>,
    after: Seq<Transfer>,
    register: u8,
    value: u8,
    result: Result<(), DriverError<ErrorKind>>,
) -> bool {
    &&& after.len() == before.len() + 1
    &&& after.drop_last() == before
    &&& after.last().register == register
    &&& after.last().value == value
    &&& result == outcome(after.last().failure)
}

/// A register kept in the driver and written only when it changes: with
/// `target` equal to what is `cached` nothing is written, else `target` is
/// written to `register` and kept if the bus accepted it.
pub open spec fn cached_write(
    cached: u8,
    target: u8,
    register: u8,
    before: Seq<Transfer>,
    after: Seq<Transfer>,
    now_cached: u8,
    result: Result<(), DriverError<ErrorKind>>,
) -> bool {
    if target == cached {
        after == before && now_cached == cached && result == Ok::<(), DriverError<ErrorKind>>(())
    } else {
        wrote_one(before, after, register, target, result) && now_cached == (if result is Ok {
            target
        } else {
            cached
        })
    }
}

/// Nothing written yet: the plan's first zero writes are done.
pub proof fn lemma_nothing_yet(log: Seq<Transfer>, plan: Seq<Frame>)
    ensures
        accepted_so_far(log, log, plan, 0),
{
    assert(log.take(log.len() as int) =~= log);
}

/// One more write of the plan: accepted, it is one more step; refused, the
/// plan has been carried out as far as it will be.
pub proof fn lemma_one_more(
    before: Seq<Transfer>,
    now: Seq<Transfer>,
    after: Seq<Transfer>,
    plan: Seq<Frame>,
    count: int,
    end: Result<(), DriverError<ErrorKind>>,
    result: Result<(), DriverError<ErrorKind>>,
)
    requires
        accepted_so_far(before, now, plan, count),
        count < plan.len(),
        wrote_one(now, after, plan[count].0, plan[count].1, result),
    ensures
        result is Ok ==> accepted_so_far(before, after, plan, count + 1),
        result is Err ==> performed(before, after, plan, end, result),
{
    let t = after.last();
    assert(after =~= now.push(t));
    assert(after.take(before.len() as int) =~= before) by {
        assert(now.take(before.len() as int) == before);
    }
    let done = after.skip(before.len() as int);
    assert(done.len() == count + 1);
    assert forall|i: int| 0 <= i < done.len() implies (#[trigger] done[i]).register == plan[i].0
        && done[i].value == plan[i].1 && (i < done.len() - 1 ==> done[i].failure is None) by {
        assert(done[i] == after[before.len() + i]);
        if i < count {
            assert(after[before.len() + i] == now[before.len() + i]);
        }
    }
    assert(done.last() == t);
    if t.failure is None {
        assert forall|i: int| 0 <= i < count + 1 implies {
            let w = #[trigger] after[before.len() + i];
            w.register == plan[i].0 && w.value == plan[i].1 && w.failure is None
        } by {
            if i < count {
                assert(after[before.len() + i] == now[before.len() + i]);
            }
        }
    }
}

/// With every write of the plan accepted, the plan has been carried out and
/// the operation ends as it was meant to.
pub proof fn lemma_all_done(
    before: Seq<Transfer>,
    now: Seq<Transfer>,
    plan: Seq<Frame>,
    end: Result<(), DriverError<ErrorKind>>,
)
    requires
        accepted_so_far(before, now, plan, plan.len() as int),
    ensures
        performed(before, now, plan, end, end),
{
    let done = now.skip(before.len() as int);
    assert forall|i: int| 0 <= i < done.len() implies (#[trigger] done[i]).register == plan[i].0
        && done[i].value == plan[i].1 && done[i].failure is None by {
        assert(done[i] == now[before.len() + i]);
    }
}

/// An operation that returns `Ok` made every write of its plan, in order,
/// and the bus accepted each: the log grew by the plan's length.
pub proof fn lemma_ok_means_all(
    before: Seq<Transfer>,
    after: Seq<Transfer>,
    plan: Seq<Frame>,
    end: Result<(), DriverError<ErrorKind>>,
    result: Result<(), DriverError<ErrorKind>>,
)
    requires
        performed(before, after, plan, end, result),
        result is Ok,
    ensures
        accepted_so_far(before, after, plan, plan.len() as int),
        after.len() == before.len() + plan.len(),
{
    let done = after.skip(before.len() as int);
    assert forall|i: int| 0 <= i < plan.len() implies {
        let w = #[trigger] after[before.len() + i];
        w.register == plan[i].0 && w.value == plan[i].1 && w.failure is None
    } by {
        assert(done[i] == after[before.len() + i]);
        if i < done.len() - 1 {
            assert(done[i].failure is None);
        } else {
            assert(done[i] == done.last());
        }
    }
}

/// An operation that returns a bus error made at least one write, and the
/// last one made is the one that the bus refused.
pub proof fn lemma_refused_is_last(
    before: Seq<Transfer>,
    after: Seq<Transfer>,
    plan: Seq<Frame>,
    end: Result<(), DriverError<ErrorKind>>,
    result: Result<(), DriverError<ErrorKind>>,
)
    requires
        performed(before, after, plan, end, result),
        result is Err,
        result != end,
    ensures
        after.len() > before.len(),
        result == outcome(after.last().failure),
        after.last().failure is Some,
{
    let done = after.skip(before.len() as int);
    assert(done.last() == after.last());
}

} // verus!
