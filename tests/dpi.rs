use hidpi::dpi::{
    are_dpi_awareness_contexts_equal, awareness_context_to_str,
    awareness_to_str, defining_symbol, get_awareness_from_dpi_awareness_context,
    get_dpi_by_awareness, get_maybe_dpi_by_awareness, get_process_dpi_awareness, get_process_tier,
    get_thread_dpi_awareness, get_thread_dpi_awareness_context, is_process_dpi_aware, make_l_param,
    probe_ladder, process_awareness_value, rank, set_process_dpi_aware, set_process_dpi_awareness,
    DpiAwareness, DpiError, ProcessAwareness, Tier, TierProbe,
};

#[test]
fn l_param_packs_two_words() {
    assert_eq!(make_l_param(1, 0), 1);
    assert_eq!(make_l_param(1, 2), 0x0002_0001);
    assert_eq!(make_l_param(0xffff, 0xffff), 0xffff_ffff);
}

#[test]
fn process_aware_reads_the_reported_bool() {
    assert_eq!(is_process_dpi_aware(Some(1)), Some(true));
    assert_eq!(is_process_dpi_aware(Some(0)), Some(false));
    assert_eq!(is_process_dpi_aware(Some(-1)), Some(true));
    assert_eq!(is_process_dpi_aware(None), None);
    assert_eq!(set_process_dpi_aware(Some(1)), Some(true));
    assert_eq!(set_process_dpi_aware(Some(0)), Some(false));
    assert_eq!(set_process_dpi_aware(None), None);
}

#[test]
fn process_awareness_values_map_both_ways() {
    assert_eq!(ProcessAwareness::from_value(0), ProcessAwareness::Unaware);
    assert_eq!(ProcessAwareness::from_value(1), ProcessAwareness::System);
    assert_eq!(ProcessAwareness::from_value(2), ProcessAwareness::PerMonitor);
    assert_eq!(ProcessAwareness::from_value(5), ProcessAwareness::Unknown(5));
    assert_eq!(ProcessAwareness::from_value(5).value(), 5);
    assert_eq!(ProcessAwareness::Unknown(9).awareness(), DpiAwareness::Other);
    assert_eq!(ProcessAwareness::System.value(), 1);
    assert_eq!(ProcessAwareness::PerMonitor.awareness(), DpiAwareness::PerMonitor);
    assert_eq!(ProcessAwareness::from_awareness(DpiAwareness::Unaware), Some(ProcessAwareness::Unaware));
    assert_eq!(ProcessAwareness::from_awareness(DpiAwareness::Other), None);
    assert_eq!(process_awareness_value(DpiAwareness::Unaware), Some(0));
    assert_eq!(process_awareness_value(DpiAwareness::System), Some(1));
    assert_eq!(process_awareness_value(DpiAwareness::PerMonitor), Some(2));
    assert_eq!(process_awareness_value(DpiAwareness::Other), None);
}

#[test]
fn get_process_awareness_outcomes() {
    assert_eq!(get_process_dpi_awareness(None), Ok(None));
    assert_eq!(get_process_dpi_awareness(Some((0, 2))), Ok(Some(DpiAwareness::PerMonitor)));
    assert_eq!(get_process_dpi_awareness(Some((0, 9))), Ok(Some(DpiAwareness::Other)));
    assert_eq!(get_process_dpi_awareness(Some((-2147024809, 0))), Err(DpiError::Failed(-2147024809)));
}

#[test]
fn set_process_awareness_outcomes() {
    assert_eq!(
        set_process_dpi_awareness(DpiAwareness::Other, Some(0)),
        Err(DpiError::Unsupported(DpiAwareness::Other))
    );
    assert_eq!(set_process_dpi_awareness(DpiAwareness::System, None), Ok(false));
    assert_eq!(set_process_dpi_awareness(DpiAwareness::PerMonitor, Some(0)), Ok(true));
    assert_eq!(
        set_process_dpi_awareness(DpiAwareness::Unaware, Some(-2147024891)),
        Err(DpiError::Failed(-2147024891))
    );
}

#[test]
fn thread_queries_fall_back_to_unaware() {
    assert_eq!(get_thread_dpi_awareness_context(None), -1);
    assert_eq!(get_thread_dpi_awareness_context(Some(-4)), -4);
    assert_eq!(get_awareness_from_dpi_awareness_context(None), 0);
    assert_eq!(get_awareness_from_dpi_awareness_context(Some(2)), 2);
    assert_eq!(get_thread_dpi_awareness(None), 0);
    assert_eq!(get_thread_dpi_awareness(Some(1)), 1);
}

#[test]
fn context_equality_is_false_when_unknown() {
    assert!(are_dpi_awareness_contexts_equal(Some(1)));
    assert!(!are_dpi_awareness_contexts_equal(Some(0)));
    assert!(!are_dpi_awareness_contexts_equal(None));
}

#[test]
fn dpi_follows_awareness() {
    assert_eq!(get_maybe_dpi_by_awareness(1, 120, 144), Some(120));
    assert_eq!(get_maybe_dpi_by_awareness(2, 120, 144), Some(144));
    assert_eq!(get_maybe_dpi_by_awareness(0, 120, 144), None);
    assert_eq!(get_maybe_dpi_by_awareness(-1, 120, 144), None);
}

#[test]
fn dpi_is_written_only_when_awareness_gives_one() {
    let mut ret = 7u32;
    assert_eq!(get_dpi_by_awareness(1, 120, 144, &mut ret), 1);
    assert_eq!(ret, 120);
    assert_eq!(get_dpi_by_awareness(2, 120, 144, &mut ret), 1);
    assert_eq!(ret, 144);
    assert_eq!(get_dpi_by_awareness(0, 96, 96, &mut ret), 0);
    assert_eq!(ret, 144);
}

#[test]
fn awareness_names() {
    assert_eq!(awareness_to_str(-1), "DPI_AWARENESS_INVALID");
    assert_eq!(awareness_to_str(0), "DPI_AWARENESS_UNAWARE");
    assert_eq!(awareness_to_str(1), "DPI_AWARENESS_SYSTEM_AWARE");
    assert_eq!(awareness_to_str(2), "DPI_AWARENESS_PER_MONITOR_AWARE");
    assert_eq!(awareness_to_str(7), "DPI_AWARENESS_UNAWARE");
}

#[test]
fn awareness_context_names() {
    assert_eq!(awareness_context_to_str(1, None), "DPI_AWARENESS_CONTEXT_SYSTEM_AWARE");
    assert_eq!(awareness_context_to_str(2, Some(1)), "DPI_AWARENESS_CONTEXT_PER_MONITOR_AWARE_V2");
    assert_eq!(awareness_context_to_str(2, Some(0)), "DPI_AWARENESS_CONTEXT_PER_MONITOR_AWARE");
    assert_eq!(awareness_context_to_str(2, None), "DPI_AWARENESS_CONTEXT_PER_MONITOR_AWARE");
    assert_eq!(awareness_context_to_str(0, Some(1)), "DPI_AWARENESS_CONTEXT_UNAWARE");
}

fn probe(mixed_mode: bool, per_monitor_v2: bool, per_monitor: bool, system_aware: bool) -> TierProbe {
    TierProbe { mixed_mode, per_monitor_v2, per_monitor, system_aware }
}

#[test]
fn ladder_reports_next_tier_when_top_is_absent() {
    assert_eq!(get_process_tier(probe(false, true, true, true)), Tier::PerMonitorV2);
    assert_eq!(get_process_tier(probe(false, false, true, false)), Tier::PerMonitor);
    assert_eq!(get_process_tier(probe(true, false, false, false)), Tier::MixedMode);
}

#[test]
fn ladder_falls_back_to_baseline() {
    assert_eq!(get_process_tier(probe(false, false, false, false)), Tier::Legacy);
    assert_eq!(get_process_tier(probe(false, false, false, true)), Tier::SystemAware);
    assert_eq!(probe_ladder(&vec![]), Tier::Legacy);
    assert_eq!(probe_ladder(&vec![(Tier::PerMonitor, false), (Tier::SystemAware, true)]), Tier::SystemAware);
}

#[test]
fn tiers_are_ranked_and_defined() {
    assert!(rank(Tier::Legacy) < rank(Tier::SystemAware));
    assert!(rank(Tier::PerMonitorV2) < rank(Tier::MixedMode));
    assert_eq!(defining_symbol(Tier::Legacy), None);
    assert_eq!(defining_symbol(Tier::PerMonitor), Some("SetProcessDpiAwareness"));
    assert_eq!(defining_symbol(Tier::MixedMode), Some("SetThreadDpiHostingBehavior"));
}
