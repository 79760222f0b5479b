//! Switching jemalloc's heap profiler on and off, and dumping its profile.
use crate::mallctl::{mallctl_write_bool, mallctl_write_str, MallctlLog, MallctlWrite};
use vstd::prelude::*;

verus! {

/// The null-terminated bytes of the text `text`, which holds no NUL.
pub open spec fn c_string(text: Seq<char>) -> Seq<u8> {
    Seq::new(text.len(), |i: int| text[i] as u8).push(0u8)
}

/// The key that switches the heap profiler on and off.
pub open spec fn prof_active_key() -> Seq<u8> {
    c_string(seq!['p', 'r', 'o', 'f', '.', 'a', 'c', 't', 'i', 'v', 'e'])
}

/// The key that dumps the heap profile to a file.
pub open spec fn prof_dump_key() -> Seq<u8> {
    c_string(seq!['p', 'r', 'o', 'f', '.', 'd', 'u', 'm', 'p'])
}

/// The file that the heap profile is dumped to.
pub open spec fn profile_output_path() -> Seq<u8> {
    c_string(seq!['p', 'r', 'o', 'f', 'i', 'l', 'e', '.', 'o', 'u', 't'])
}

/// The key that switches the heap profiler on and off, as jemalloc reads it.
pub fn prof_active_name() -> (r: &'static [u8])
    ensures
        r@ == prof_active_key(),
{
    let s: &'static str = "prof.active\0";
    proof {
        reveal_strlit("prof.active\0");
        assert(s@ =~= seq!['p', 'r', 'o', 'f', '.', 'a', 'c', 't', 'i', 'v', 'e', '\0']);
        assert(vstd::string::is_ascii(s));
        vstd::string::is_ascii_spec_bytes(s);
    }
    let r = s.as_bytes();
    assert(r@ =~= prof_active_key());
    r
}

/// The key that dumps the heap profile, as jemalloc reads it.
pub fn prof_dump_name() -> (r: &'static [u8])
    ensures
        r@ == prof_dump_key(),
{
    let s: &'static str = "prof.dump\0";
    proof {
        reveal_strlit("prof.dump\0");
        assert(s@ =~= seq!['p', 'r', 'o', 'f', '.', 'd', 'u', 'm', 'p', '\0']);
        assert(vstd::string::is_ascii(s));
        vstd::string::is_ascii_spec_bytes(s);
    }
    let r = s.as_bytes();
    assert(r@ =~= prof_dump_key());
    r
}

/// The file that the heap profile is dumped to, as jemalloc reads it.
pub fn profile_output() -> (r: &'static [u8])
    ensures
        r@ == profile_output_path(),
{
    let s: &'static str = "profile.out\0";
    proof {
        reveal_strlit("profile.out\0");
        assert(s@ =~= seq!['p', 'r', 'o', 'f', 'i', 'l', 'e', '.', 'o', 'u', 't', '\0']);
        assert(vstd::string::is_ascii(s));
        vstd::string::is_ascii_spec_bytes(s);
    }
    let r = s.as_bytes();
    assert(r@ =~= profile_output_path());
    r
}

/// Why switching or dumping the heap profiler failed.
#[derive(Clone, Copy, Debug)]
pub enum ProfilingError {
    /// Switching the profiler on or off failed.
    SetActive(jemalloc_ctl::Error),
    /// Dumping the profile failed.
    Dump(jemalloc_ctl::Error),
}

/// What switching the profiler answers, given what jemalloc answered to the
/// write at `prof.active`: success, or that error as a failed switch.
pub fn set_active_outcome(written: Result<(), jemalloc_ctl::Error>) -> (r: Result<
    (),
    ProfilingError,
>)
    ensures
        r == (match written {
            Ok(()) => Ok(()),
            Err(e) => Err(ProfilingError::SetActive(e)),
        }),
{
    match written {
        Ok(()) => Ok(()),
        Err(e) => Err(ProfilingError::SetActive(e)),
    }
}

/// What dumping the profile answers, given what jemalloc answered to the
/// write at `prof.dump`: success, or that error as a failed dump.
pub fn dump_outcome(written: Result<(), jemalloc_ctl::Error>) -> (r: Result<(), ProfilingError>)
    ensures
        r == (match written {
            Ok(()) => Ok(()),
            Err(e) => Err(ProfilingError::Dump(e)),
        }),
{
    match written {
        Ok(()) => Ok(()),
        Err(e) => Err(ProfilingError::Dump(e)),
    }
}

/// Switches jemalloc's heap profiler on (`true`) or off (`false`), by
/// writing `active` at the key `prof.active`; also hands back the record of
/// that write and the log of the writes the call made, which is that one.
pub fn set_prof_active(active: bool) -> (r: (
    Result<(), ProfilingError>,
    MallctlWrite<bool>,
    MallctlLog<bool>,
))
    ensures
        r.1.key() == prof_active_key(),
        r.1.value() == active,
        r.0 matches Err(e) ==> e is SetActive,
        r.2@ == seq![r.1],
        r.0 == (match r.1.outcome() {
            Ok(()) => Ok(()),
            Err(e) => Err(ProfilingError::SetActive(e)),
        }),
{
    let name = prof_active_name();
    let mut log = MallctlLog::new();
    let (written, record) = mallctl_write_bool(&mut log, name, active);
    (set_active_outcome(written), record, log)
}

/// Dumps jemalloc's heap profile to the file `profile.out`, by writing that
/// file name at the key `prof.dump`; also hands back the record of that write
/// and the log of the writes the call made, which is that one.
pub fn dump_profile() -> (r: (Result<(), ProfilingError>, MallctlWrite<Seq<u8>>, MallctlLog<Seq<u8>>))
    ensures
        r.1.key() == prof_dump_key(),
        r.1.value() == profile_output_path(),
        r.0 matches Err(e) ==> e is Dump,
        r.2@ == seq![r.1],
        r.0 == (match r.1.outcome() {
            Ok(()) => Ok(()),
            Err(e) => Err(ProfilingError::Dump(e)),
        }),
{
    let name = prof_dump_name();
    let mut log = MallctlLog::new();
    let (written, record) = mallctl_write_str(&mut log, name, profile_output());
    (dump_outcome(written), record, log)
}

} // verus!
