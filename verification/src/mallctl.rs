//! Writes at keys of jemalloc's `mallctl` namespace, each handing back a
//! record of the key and the value it handed to jemalloc.
use crate::profiling::{prof_active_key, prof_dump_key, profile_output_path};
use jemalloc_ctl::{Access, AsName};
use vstd::prelude::*;

verus! {

/// The error of jemalloc's `mallctl` family of functions.
#[verifier::external_type_specification]
#[verifier::external_body]
pub struct ExMallctlError(jemalloc_ctl::Error);

/// A record that `value` was handed to jemalloc at `key`. Only the writes of
/// this module make one, so holding one shows that the write was made.
pub struct MallctlWrite<T> {
    key: Ghost<Seq<u8>>,
    value: Ghost<T>,
    outcome: Ghost<Result<(), jemalloc_ctl::Error>>,
}

impl<T> MallctlWrite<T> {
    /// The key that was written at, with its NUL.
    pub closed spec fn key(&self) -> Seq<u8> {
        self.key@
    }

    /// The value that was handed to jemalloc.
    pub closed spec fn value(&self) -> T {
        self.value@
    }

    /// What jemalloc answered to the write.
    pub closed spec fn outcome(&self) -> Result<(), jemalloc_ctl::Error> {
        self.outcome@
    }
}

/// The writes made through it, in order. Every write of this module is made
/// through a log and appends its record to it.
pub struct MallctlLog<T> {
    writes: Ghost<Seq<MallctlWrite<T>>>,
}

impl<T> View for MallctlLog<T> {
    type V = Seq<MallctlWrite<T>>;

    closed spec fn view(&self) -> Seq<MallctlWrite<T>> {
        self.writes@
    }
}

impl<T> MallctlLog<T> {
    /// A log of no write.
    pub fn new() -> (r: Self)
        ensures
            r@ == Seq::<MallctlWrite<T>>::empty(),
    {
        MallctlLog { writes: Ghost(Seq::empty()) }
    }
}

/// `Access::<bool>::write` of jemalloc-ctl on the name `name`: writes
/// `value` at that key, and records the key and the value it handed over.
/// Per its source it panics unless `name` is non-empty and ends in a NUL,
/// which `requires` rules out; the library writes only at the key
/// `prof.active`. Whether the write succeeds depends on the running
/// allocator (a profiler that was not enabled refuses it), so nothing is
/// said of its outcome.
#[verifier::external_body]
pub(crate) fn mallctl_write_bool(log: &mut MallctlLog<bool>, name: &[u8], value: bool) -> (r: (
    Result<(), jemalloc_ctl::Error>,
    MallctlWrite<bool>,
))
    requires
        name@ == prof_active_key(),
        name@.len() > 0,
        name@.last() == 0,
    ensures
        r.1.key() == name@,
        r.1.value() == value,
        r.1.outcome() == r.0,
        final(log)@ == old(log)@.push(r.1),
{
    let outcome = name.name().write(value);
    let record = MallctlWrite { key: Ghost(name@), value: Ghost(value), outcome: Ghost(outcome) };
    log.writes = Ghost(log.writes@.push(record));
    (outcome, record)
}

/// `Access::<&'static [u8]>::write` of jemalloc-ctl on the name `name`:
/// writes the null-terminated `value` at that key, and records the key, the
/// bytes it handed over and jemalloc's answer, in the record it returns and
/// at the end of `log`. Per its source it panics unless `name` ends in
/// a NUL and names a key whose value is a string (such as the key that dumps
/// the profile), and unless `value` is non-empty and ends in a NUL;
/// `requires` rules these out. Whether the write succeeds depends on the
/// running allocator, so nothing is said of its outcome.
#[verifier::external_body]
pub(crate) fn mallctl_write_str(
    log: &mut MallctlLog<Seq<u8>>,
    name: &[u8],
    value: &'static [u8],
) -> (r: (
    Result<(), jemalloc_ctl::Error>,
    MallctlWrite<Seq<u8>>,
))
    requires
        name@ == prof_dump_key(),
        value@ == profile_output_path(),
        value@.len() > 0,
        value@.last() == 0,
    ensures
        r.1.key() == name@,
        r.1.value() == value@,
        r.1.outcome() == r.0,
        final(log)@ == old(log)@.push(r.1),
{
    let outcome = name.name().write(value);
    let record = MallctlWrite { key: Ghost(name@), value: Ghost(value@), outcome: Ghost(outcome) };
    log.writes = Ghost(log.writes@.push(record));
    (outcome, record)
}

} // verus!
