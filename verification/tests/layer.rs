use mini_alloy_reth::layer::RethDbLayer;
use mini_alloy_reth::profiling::{
    dump_outcome, dump_profile, set_active_outcome, prof_active_name, prof_dump_name, profile_output, set_prof_active,
    ProfilingError,
};
use std::path::PathBuf;

#[test]
fn layer_keeps_its_data_directory() {
    let runtime = tokio::runtime::Runtime::new().unwrap();
    let path = PathBuf::from("/root/.local/share/reth/mainnet");
    let layer = RethDbLayer::new(path.clone(), runtime.handle().clone());
    assert_eq!(layer.db_path(), &path);
    let _ = layer.handle();
}

#[test]
fn profiler_keys_are_null_terminated() {
    assert_eq!(prof_active_name(), b"prof.active\0");
    assert_eq!(prof_dump_name(), b"prof.dump\0");
    assert_eq!(profile_output(), b"profile.out\0");
}

#[test]
fn switching_the_profiler_fails_only_as_a_switch() {
    match set_prof_active(true).0 {
        Ok(()) => {}
        Err(e) => assert!(matches!(e, ProfilingError::SetActive(_))),
    }
    match set_prof_active(false).0 {
        Ok(()) => {}
        Err(e) => assert!(matches!(e, ProfilingError::SetActive(_))),
    }
}

#[test]
fn dumping_the_profile_fails_only_as_a_dump() {
    match dump_profile().0 {
        Ok(()) => {}
        Err(e) => assert!(matches!(e, ProfilingError::Dump(_))),
    }
}

#[test]
fn profiler_outcomes_follow_what_jemalloc_answered() {
    assert!(matches!(set_active_outcome(Ok(())), Ok(())));
    assert!(matches!(dump_outcome(Ok(())), Ok(())));
    if let Err(ProfilingError::SetActive(e)) = set_prof_active(true).0 {
        assert!(matches!(set_active_outcome(Err(e)), Err(ProfilingError::SetActive(_))));
        assert!(matches!(dump_outcome(Err(e)), Err(ProfilingError::Dump(_))));
    }
}
