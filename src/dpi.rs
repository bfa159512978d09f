//! DPI awareness: the capability ladder of the system's DPI entry points and
//! the interpretation of what those entry points report.
use vstd::prelude::*;

use crate::binding::{lemma_resolve_idempotent, run_result, BindingView};
use crate::registry::RegistryView;

verus! {

/// `S_OK`, the success status of the shell scaling entry points.
pub const S_OK: i32 = 0;

/// `PROCESS_DPI_UNAWARE`.
pub const PROCESS_DPI_UNAWARE: u32 = 0;

/// `PROCESS_SYSTEM_DPI_AWARE`.
pub const PROCESS_SYSTEM_DPI_AWARE: u32 = 1;

/// `PROCESS_PER_MONITOR_DPI_AWARE`.
pub const PROCESS_PER_MONITOR_DPI_AWARE: u32 = 2;

/// `DPI_AWARENESS_INVALID`.
pub const DPI_AWARENESS_INVALID: i32 = -1;

/// `DPI_AWARENESS_UNAWARE`.
pub const DPI_AWARENESS_UNAWARE: i32 = 0;

/// `DPI_AWARENESS_SYSTEM_AWARE`.
pub const DPI_AWARENESS_SYSTEM_AWARE: i32 = 1;

/// `DPI_AWARENESS_PER_MONITOR_AWARE`.
pub const DPI_AWARENESS_PER_MONITOR_AWARE: i32 = 2;

/// `TRUE` as the system's boolean entry points return it.
pub const TRUE: i32 = 1;

/// `FALSE`.
pub const FALSE: i32 = 0;

/// A process's DPI awareness.
#[derive(Debug, Clone, Copy, PartialEq, Eq, Structural)]
pub enum DpiAwareness {
    Unaware,
    System,
    PerMonitor,
    Other,
}

/// `l` in the low word and `h` in the high word.
pub fn make_l_param(l: u16, h: u16) -> (r: u32)
    ensures
        r == l as u32 + h as u32 * 0x10000,
{
    let lo = l as u32;
    let hi = h as u32;
    let r = lo | (hi << 16u32);
    assert(r == lo + hi * 0x10000) by (bit_vector)
        requires
            lo < 0x10000,
            hi < 0x10000,
            r == lo | (hi << 16u32),
    ;
    r
}

/// A boolean as the system's entry points report it: any non-zero value is true.
pub open spec fn reported_bool(b: i32) -> bool {
    b != 0
}

/// The answer of a boolean query, from what its entry point returned, or
/// `None` when the entry point is unavailable.
pub open spec fn bool_outcome(reported: Option<i32>) -> Option<bool> {
    match reported {
        Some(b) => Some(reported_bool(b)),
        None => None,
    }
}

/// Whether the process is DPI aware, from what `IsProcessDPIAware`
/// returned, or `None` when that entry point is unavailable.
pub fn is_process_dpi_aware(reported: Option<i32>) -> (r: Option<bool>)
    ensures
        r == bool_outcome(reported),
{
    match reported {
        Some(b) => Some(b != 0),
        None => None,
    }
}

/// Whether making the process DPI aware succeeded, from what
/// `SetProcessDPIAware` returned, or `None` when that entry point is
/// unavailable.
pub fn set_process_dpi_aware(reported: Option<i32>) -> (r: Option<bool>)
    ensures
        r == bool_outcome(reported),
{
    match reported {
        Some(b) => Some(b != 0),
        None => None,
    }
}

/// A `PROCESS_DPI_AWARENESS` value as the system reports it; a value without
/// a name of its own is kept as it is.
#[derive(Debug, Clone, Copy, PartialEq, Eq, Structural)]
pub enum ProcessAwareness {
    Unaware,
    System,
    PerMonitor,
    Unknown(u32),
}

/// The process awareness that a `PROCESS_DPI_AWARENESS` value stands for.
pub open spec fn process_awareness_of(v: u32) -> ProcessAwareness {
    if v == PROCESS_DPI_UNAWARE {
        ProcessAwareness::Unaware
    } else if v == PROCESS_SYSTEM_DPI_AWARE {
        ProcessAwareness::System
    } else if v == PROCESS_PER_MONITOR_DPI_AWARE {
        ProcessAwareness::PerMonitor
    } else {
        ProcessAwareness::Unknown(v)
    }
}

/// The `PROCESS_DPI_AWARENESS` value of a process awareness.
pub open spec fn value_of(p: ProcessAwareness) -> u32 {
    match p {
        ProcessAwareness::Unaware => PROCESS_DPI_UNAWARE,
        ProcessAwareness::System => PROCESS_SYSTEM_DPI_AWARE,
        ProcessAwareness::PerMonitor => PROCESS_PER_MONITOR_DPI_AWARE,
        ProcessAwareness::Unknown(v) => v,
    }
}

/// The awareness a process awareness stands for; unknown values are `Other`.
pub open spec fn dpi_awareness_of(p: ProcessAwareness) -> DpiAwareness {
    match p {
        ProcessAwareness::Unaware => DpiAwareness::Unaware,
        ProcessAwareness::System => DpiAwareness::System,
        ProcessAwareness::PerMonitor => DpiAwareness::PerMonitor,
        ProcessAwareness::Unknown(_) => DpiAwareness::Other,
    }
}

/// Whether a process awareness is one that a value can read back as: an
/// unknown one holds none of the named values.
pub open spec fn process_awareness_wf(p: ProcessAwareness) -> bool {
    match p {
        ProcessAwareness::Unknown(v) => v > PROCESS_PER_MONITOR_DPI_AWARE,
        _ => true,
    }
}

impl ProcessAwareness {
    /// The process awareness that `v` stands for.
    pub fn from_value(v: u32) -> (r: ProcessAwareness)
        ensures
            r == process_awareness_of(v),
            v > PROCESS_PER_MONITOR_DPI_AWARE ==> r == ProcessAwareness::Unknown(v),
            process_awareness_wf(r),
    {
        if v == PROCESS_DPI_UNAWARE {
            ProcessAwareness::Unaware
        } else if v == PROCESS_SYSTEM_DPI_AWARE {
            ProcessAwareness::System
        } else if v == PROCESS_PER_MONITOR_DPI_AWARE {
            ProcessAwareness::PerMonitor
        } else {
            ProcessAwareness::Unknown(v)
        }
    }

    /// The `PROCESS_DPI_AWARENESS` value that stands for this awareness.
    pub fn value(self) -> (r: u32)
        ensures
            r == value_of(self),
    {
        match self {
            ProcessAwareness::Unaware => PROCESS_DPI_UNAWARE,
            ProcessAwareness::System => PROCESS_SYSTEM_DPI_AWARE,
            ProcessAwareness::PerMonitor => PROCESS_PER_MONITOR_DPI_AWARE,
            ProcessAwareness::Unknown(v) => v,
        }
    }

    /// The awareness this stands for.
    pub fn awareness(self) -> (r: DpiAwareness)
        ensures
            r == dpi_awareness_of(self),
    {
        match self {
            ProcessAwareness::Unaware => DpiAwareness::Unaware,
            ProcessAwareness::System => DpiAwareness::System,
            ProcessAwareness::PerMonitor => DpiAwareness::PerMonitor,
            ProcessAwareness::Unknown(_) => DpiAwareness::Other,
        }
    }

    /// The process awareness that requests `awareness`; `None` for `Other`,
    /// which no value requests.
    pub fn from_awareness(awareness: DpiAwareness) -> (r: Option<ProcessAwareness>)
        ensures
            match awareness {
                DpiAwareness::Other => r is None,
                _ => r matches Some(p) && !(p is Unknown) && dpi_awareness_of(p) == awareness,
            },
    {
        match awareness {
            DpiAwareness::Unaware => Some(ProcessAwareness::Unaware),
            DpiAwareness::System => Some(ProcessAwareness::System),
            DpiAwareness::PerMonitor => Some(ProcessAwareness::PerMonitor),
            DpiAwareness::Other => None,
        }
    }
}

/// Reading a value and writing it back gives the value again, and a well
/// formed process awareness survives the trip through its value.
pub proof fn lemma_process_awareness_round_trip(v: u32, p: ProcessAwareness)
    requires
        process_awareness_wf(p),
    ensures
        value_of(process_awareness_of(v)) == v,
        process_awareness_of(value_of(p)) == p,
{
}

/// The `PROCESS_DPI_AWARENESS` value that requests `awareness`; `None` for
/// `Other`, which no value requests.
pub fn process_awareness_value(awareness: DpiAwareness) -> (r: Option<u32>)
    ensures
        match awareness {
            DpiAwareness::Other => r is None,
            _ => r matches Some(v) && !(process_awareness_of(v) is Unknown) && dpi_awareness_of(
                process_awareness_of(v),
            ) == awareness,
        },
{
    match ProcessAwareness::from_awareness(awareness) {
        Some(p) => Some(p.value()),
        None => None,
    }
}

/// Why a DPI query or request failed.
#[derive(Debug, Clone, Copy, PartialEq, Eq, Structural)]
pub enum DpiError {
    /// The awareness cannot be requested of the system.
    Unsupported(DpiAwareness),
    /// The system refused with this status.
    Failed(i32),
}

/// The answer of `get_process_dpi_awareness` for what was reported.
pub open spec fn process_awareness_outcome(reported: Option<(i32, u32)>) -> Result<
    Option<DpiAwareness>,
    DpiError,
> {
    match reported {
        None => Ok(None),
        Some((status, v)) => if status == S_OK {
            Ok(Some(dpi_awareness_of(process_awareness_of(v))))
        } else {
            Err(DpiError::Failed(status))
        },
    }
}

/// The process's awareness, from what `GetProcessDpiAwareness` reported
/// (its status and the value it wrote), or `None` when that entry point is
/// unavailable: `Ok(None)` then, the awareness on success, and the status as
/// an error otherwise.
pub fn get_process_dpi_awareness(reported: Option<(i32, u32)>) -> (r: Result<
    Option<DpiAwareness>,
    DpiError,
>)
    ensures
        r == process_awareness_outcome(reported),
{
    match reported {
        None => Ok(None),
        Some((status, v)) => if status == S_OK {
            Ok(Some(ProcessAwareness::from_value(v).awareness()))
        } else {
            Err(DpiError::Failed(status))
        },
    }
}

/// A query reports a value exactly when its binding hands out an entry
/// point, and a binding settles on its first resolution. So over a run of
/// resolutions of one binding, whatever the environment does in between,
/// every answer of `is_process_dpi_aware` (from `flags`) and of
/// `get_process_dpi_awareness` (from `reports`) is available exactly when
/// the first one was.
pub proof fn lemma_query_availability_cached<C, H>(
    b: BindingView<C>,
    reg: RegistryView<H>,
    envs: Seq<(Option<H>, Option<C>)>,
    flags: Seq<Option<i32>>,
    reports: Seq<Option<(i32, u32)>>,
)
    requires
        envs.len() > 0,
        flags.len() == envs.len(),
        reports.len() == envs.len(),
        forall|i: int|
            0 <= i < envs.len() ==> (flags[i] is Some <==> #[trigger] run_result(b, reg, envs, i) is Some),
        forall|i: int|
            0 <= i < envs.len() ==> (reports[i] is Some <==> #[trigger] run_result(b, reg, envs, i) is Some),
    ensures
        forall|i: int|
            0 <= i < envs.len() ==> (#[trigger] bool_outcome(flags[i]) is Some <==> bool_outcome(flags[0]) is Some),
        forall|i: int|
            0 <= i < envs.len() ==> (#[trigger] process_awareness_outcome(reports[i]) == Ok::<
                Option<DpiAwareness>,
                DpiError,
            >(None) <==> process_awareness_outcome(reports[0]) == Ok::<Option<DpiAwareness>, DpiError>(None)),
{
    lemma_resolve_idempotent(b, reg, envs);
    assert(run_result(b, reg, envs, 0) == run_result(b, reg, envs, 0));
    assert forall|i: int| 0 <= i < envs.len() implies (#[trigger] bool_outcome(flags[i]) is Some
        <==> bool_outcome(flags[0]) is Some) by {
        assert(run_result(b, reg, envs, i) == run_result(b, reg, envs, 0));
    }
    assert forall|i: int| 0 <= i < envs.len() implies (#[trigger] process_awareness_outcome(reports[i])
        == Ok::<Option<DpiAwareness>, DpiError>(None) <==> process_awareness_outcome(reports[0]) == Ok::<
        Option<DpiAwareness>,
        DpiError,
    >(None)) by {
        assert(run_result(b, reg, envs, i) == run_result(b, reg, envs, 0));
    }
}

/// The outcome of requesting `awareness` of the process, from the status
/// that `SetProcessDpiAwareness` returned, or `None` when the entry point is
/// unavailable (or was not called because `awareness` cannot be requested,
/// see `process_awareness_value`). `Other` is refused whatever was reported;
/// otherwise an unavailable entry point gives `Ok(false)`, success
/// `Ok(true)`, and any other status is the error.
pub fn set_process_dpi_awareness(awareness: DpiAwareness, reported: Option<i32>) -> (r: Result<
    bool,
    DpiError,
>)
    ensures
        r == match awareness {
            DpiAwareness::Other => Err(DpiError::Unsupported(awareness)),
            _ => match reported {
                None => Ok(false),
                Some(status) => if status == S_OK {
                    Ok(true)
                } else {
                    Err(DpiError::Failed(status))
                },
            },
        },
{
    if process_awareness_value(awareness).is_none() {
        return Err(DpiError::Unsupported(awareness));
    }
    match reported {
        None => Ok(false),
        Some(status) => if status == S_OK {
            Ok(true)
        } else {
            Err(DpiError::Failed(status))
        },
    }
}

/// `DPI_AWARENESS_CONTEXT_UNAWARE`, as a pseudo-handle value.
pub const DPI_AWARENESS_CONTEXT_UNAWARE: isize = -1;

/// `DPI_AWARENESS_CONTEXT_SYSTEM_AWARE`.
pub const DPI_AWARENESS_CONTEXT_SYSTEM_AWARE: isize = -2;

/// `DPI_AWARENESS_CONTEXT_PER_MONITOR_AWARE`.
pub const DPI_AWARENESS_CONTEXT_PER_MONITOR_AWARE: isize = -3;

/// `DPI_AWARENESS_CONTEXT_PER_MONITOR_AWARE_V2`.
pub const DPI_AWARENESS_CONTEXT_PER_MONITOR_AWARE_V2: isize = -4;

/// The thread's awareness context, from what `GetThreadDpiAwarenessContext`
/// returned; unaware when that entry point is unavailable.
pub fn get_thread_dpi_awareness_context(reported: Option<isize>) -> (r: isize)
    ensures
        r == match reported {
            Some(c) => c,
            None => DPI_AWARENESS_CONTEXT_UNAWARE,
        },
{
    match reported {
        Some(c) => c,
        None => DPI_AWARENESS_CONTEXT_UNAWARE,
    }
}

/// The awareness of a context, from what `GetAwarenessFromDpiAwarenessContext`
/// returned; unaware when that entry point is unavailable.
pub fn get_awareness_from_dpi_awareness_context(reported: Option<i32>) -> (r: i32)
    ensures
        r == match reported {
            Some(a) => a,
            None => DPI_AWARENESS_UNAWARE,
        },
{
    match reported {
        Some(a) => a,
        None => DPI_AWARENESS_UNAWARE,
    }
}

/// The awareness of the thread's context, from what the context and
/// awareness entry points reported together (`None` when either is
/// unavailable); unaware in that case.
pub fn get_thread_dpi_awareness(reported: Option<i32>) -> (r: i32)
    ensures
        r == match reported {
            Some(a) => a,
            None => DPI_AWARENESS_UNAWARE,
        },
{
    get_awareness_from_dpi_awareness_context(reported)
}

/// Whether two contexts are known to be equal, from what
/// `AreDpiAwarenessContextsEqual` returned. When it is unavailable the
/// contexts are not known to be equal, and the answer is `false`.
pub fn are_dpi_awareness_contexts_equal(reported: Option<i32>) -> (r: bool)
    ensures
        r == match reported {
            Some(b) => reported_bool(b),
            None => false,
        },
{
    match reported {
        Some(b) => b != 0,
        None => false,
    }
}

/// The DPI to lay a window out at under the thread's `awareness`: the
/// system DPI for a system-aware thread, the window's own for a
/// per-monitor-aware one, and none for an unaware thread.
pub fn get_maybe_dpi_by_awareness(awareness: i32, system_dpi: u32, window_dpi: u32) -> (r: Option<u32>)
    ensures
        r == if awareness == DPI_AWARENESS_SYSTEM_AWARE {
            Some(system_dpi)
        } else if awareness == DPI_AWARENESS_PER_MONITOR_AWARE {
            Some(window_dpi)
        } else {
            None::<u32>
        },
{
    if awareness == DPI_AWARENESS_SYSTEM_AWARE {
        Some(system_dpi)
    } else if awareness == DPI_AWARENESS_PER_MONITOR_AWARE {
        Some(window_dpi)
    } else {
        None
    }
}

/// Writes the DPI that `get_maybe_dpi_by_awareness` gives to `ret` and
/// returns `TRUE`; returns `FALSE` and leaves `ret` as it was when it gives
/// none.
pub fn get_dpi_by_awareness(awareness: i32, system_dpi: u32, window_dpi: u32, ret: &mut u32) -> (r: i32)
    ensures
        awareness == DPI_AWARENESS_SYSTEM_AWARE ==> *final(ret) == system_dpi && r == TRUE,
        awareness == DPI_AWARENESS_PER_MONITOR_AWARE ==> *final(ret) == window_dpi && r == TRUE,
        awareness != DPI_AWARENESS_SYSTEM_AWARE && awareness != DPI_AWARENESS_PER_MONITOR_AWARE
            ==> *final(ret) == *old(ret) && r == FALSE,
{
    match get_maybe_dpi_by_awareness(awareness, system_dpi, window_dpi) {
        Some(dpi) => {
            *ret = dpi;
            TRUE
        },
        None => FALSE,
    }
}

/// The name of a `DPI_AWARENESS` value; values without a name of their own
/// read as unaware.
pub fn awareness_to_str(awareness: i32) -> (r: &'static str)
    ensures
        r@ == if awareness == DPI_AWARENESS_INVALID {
            "DPI_AWARENESS_INVALID"@
        } else if awareness == DPI_AWARENESS_SYSTEM_AWARE {
            "DPI_AWARENESS_SYSTEM_AWARE"@
        } else if awareness == DPI_AWARENESS_PER_MONITOR_AWARE {
            "DPI_AWARENESS_PER_MONITOR_AWARE"@
        } else {
            "DPI_AWARENESS_UNAWARE"@
        },
{
    if awareness == DPI_AWARENESS_INVALID {
        "DPI_AWARENESS_INVALID"
    } else if awareness == DPI_AWARENESS_SYSTEM_AWARE {
        "DPI_AWARENESS_SYSTEM_AWARE"
    } else if awareness == DPI_AWARENESS_PER_MONITOR_AWARE {
        "DPI_AWARENESS_PER_MONITOR_AWARE"
    } else {
        "DPI_AWARENESS_UNAWARE"
    }
}

/// The name of an awareness context, from its awareness and from what
/// comparing it with the per-monitor v2 context reported (`None` when the
/// comparison is unavailable). A per-monitor context is v2 only when the
/// comparison says so: one that cannot be compared is not known to be v2
/// and reads as plain per-monitor aware. A context that is neither system
/// nor per-monitor aware reads as unaware.
pub fn awareness_context_to_str(awareness: i32, equal_to_v2: Option<i32>) -> (r: &'static str)
    ensures
        r@ == if awareness == DPI_AWARENESS_SYSTEM_AWARE {
            "DPI_AWARENESS_CONTEXT_SYSTEM_AWARE"@
        } else if awareness == DPI_AWARENESS_PER_MONITOR_AWARE {
            match equal_to_v2 {
                Some(e) => if e == TRUE {
                    "DPI_AWARENESS_CONTEXT_PER_MONITOR_AWARE_V2"@
                } else {
                    "DPI_AWARENESS_CONTEXT_PER_MONITOR_AWARE"@
                },
                None => "DPI_AWARENESS_CONTEXT_PER_MONITOR_AWARE"@,
            }
        } else {
            "DPI_AWARENESS_CONTEXT_UNAWARE"@
        },
{
    if awareness == DPI_AWARENESS_SYSTEM_AWARE {
        "DPI_AWARENESS_CONTEXT_SYSTEM_AWARE"
    } else if awareness == DPI_AWARENESS_PER_MONITOR_AWARE {
        match equal_to_v2 {
            Some(e) => if e == TRUE {
                "DPI_AWARENESS_CONTEXT_PER_MONITOR_AWARE_V2"
            } else {
                "DPI_AWARENESS_CONTEXT_PER_MONITOR_AWARE"
            },
            None => "DPI_AWARENESS_CONTEXT_PER_MONITOR_AWARE",
        }
    } else {
        "DPI_AWARENESS_CONTEXT_UNAWARE"
    }
}

/// The tiers of DPI support the system may offer, from the baseline up.
#[derive(Debug, Clone, Copy, PartialEq, Eq, Structural)]
pub enum Tier {
    /// No DPI entry point at all: every process is unaware.
    Legacy,
    /// A process can declare itself system aware.
    SystemAware,
    /// A process can be per-monitor aware.
    PerMonitor,
    /// A thread can run under a per-monitor v2 awareness context.
    PerMonitorV2,
    /// A thread can host windows of mixed awareness.
    MixedMode,
}

/// The position of a tier in the order of capability.
pub open spec fn tier_rank(t: Tier) -> int {
    match t {
        Tier::Legacy => 0,
        Tier::SystemAware => 1,
        Tier::PerMonitor => 2,
        Tier::PerMonitorV2 => 3,
        Tier::MixedMode => 4,
    }
}

/// The position of a tier in the order of capability.
pub fn rank(t: Tier) -> (r: u8)
    ensures
        r == tier_rank(t),
{
    match t {
        Tier::Legacy => 0,
        Tier::SystemAware => 1,
        Tier::PerMonitor => 2,
        Tier::PerMonitorV2 => 3,
        Tier::MixedMode => 4,
    }
}

/// The tier of the first rung, in the ladder's order, whose defining binding
/// resolved; the baseline when none did. Each rung is a tier and whether its
/// defining binding resolved.
pub open spec fn first_available(rungs: Seq<(Tier, bool)>) -> Tier
    decreases rungs.len(),
{
    if rungs.len() == 0 {
        Tier::Legacy
    } else if rungs[0].1 {
        rungs[0].0
    } else {
        first_available(rungs.drop_first())
    }
}

/// Whether a ladder runs from the most capable tier down.
pub open spec fn descending(rungs: Seq<(Tier, bool)>) -> bool {
    forall|a: int, b: int|
        0 <= a < b < rungs.len() ==> tier_rank(#[trigger] rungs[a].0) > tier_rank(#[trigger] rungs[b].0)
}

/// Probes a ladder from its first rung down and reports the tier of the
/// first rung whose binding resolved, or the baseline.
pub fn probe_ladder(rungs: &Vec<(Tier, bool)>) -> (r: Tier)
    ensures
        r == first_available(rungs@),
{
    let mut i: usize = 0;
    assert(rungs@.subrange(0, rungs@.len() as int) =~= rungs@);
    while i < rungs.len()
        invariant
            0 <= i <= rungs@.len(),
            first_available(rungs@) == first_available(rungs@.subrange(i as int, rungs@.len() as int)),
        decreases rungs@.len() - i,
    {
        let ghost rest = rungs@.subrange(i as int, rungs@.len() as int);
        assert(rest.drop_first() =~= rungs@.subrange(i + 1, rungs@.len() as int));
        if rungs[i].1 {
            return rungs[i].0;
        }
        i = i + 1;
    }
    assert(rungs@.subrange(i as int, rungs@.len() as int).len() == 0);
    Tier::Legacy
}

/// Which defining bindings of the DPI ladder resolved.
#[derive(Debug, Clone, Copy, PartialEq, Eq, Structural)]
pub struct TierProbe {
    /// `SetThreadDpiHostingBehavior`.
    pub mixed_mode: bool,
    /// `SetThreadDpiAwarenessContext`.
    pub per_monitor_v2: bool,
    /// `SetProcessDpiAwareness`.
    pub per_monitor: bool,
    /// `SetProcessDPIAware`.
    pub system_aware: bool,
}

/// The DPI ladder, most capable first, with what a probe found of each rung.
pub open spec fn dpi_rungs(p: TierProbe) -> Seq<(Tier, bool)> {
    seq![
        (Tier::MixedMode, p.mixed_mode),
        (Tier::PerMonitorV2, p.per_monitor_v2),
        (Tier::PerMonitor, p.per_monitor),
        (Tier::SystemAware, p.system_aware),
    ]
}

/// The entry point whose presence defines a tier; the baseline has none.
pub fn defining_symbol(t: Tier) -> (r: Option<&'static str>)
    ensures
        match t {
            Tier::Legacy => r is None,
            Tier::SystemAware => r matches Some(s) && s@ == "SetProcessDPIAware"@,
            Tier::PerMonitor => r matches Some(s) && s@ == "SetProcessDpiAwareness"@,
            Tier::PerMonitorV2 => r matches Some(s) && s@ == "SetThreadDpiAwarenessContext"@,
            Tier::MixedMode => r matches Some(s) && s@ == "SetThreadDpiHostingBehavior"@,
        },
{
    match t {
        Tier::Legacy => None,
        Tier::SystemAware => Some("SetProcessDPIAware"),
        Tier::PerMonitor => Some("SetProcessDpiAwareness"),
        Tier::PerMonitorV2 => Some("SetThreadDpiAwarenessContext"),
        Tier::MixedMode => Some("SetThreadDpiHostingBehavior"),
    }
}

/// The DPI tier the system offers, from a snapshot of which defining
/// bindings resolved: the most capable tier whose binding is present, else
/// the legacy baseline. Never an error.
pub fn get_process_tier(probe: TierProbe) -> (r: Tier)
    ensures
        r == first_available(dpi_rungs(probe)),
        r == if probe.mixed_mode {
            Tier::MixedMode
        } else if probe.per_monitor_v2 {
            Tier::PerMonitorV2
        } else if probe.per_monitor {
            Tier::PerMonitor
        } else if probe.system_aware {
            Tier::SystemAware
        } else {
            Tier::Legacy
        },
{
    let rungs = vec![
        (Tier::MixedMode, probe.mixed_mode),
        (Tier::PerMonitorV2, probe.per_monitor_v2),
        (Tier::PerMonitor, probe.per_monitor),
        (Tier::SystemAware, probe.system_aware),
    ];
    assert(rungs@ =~= dpi_rungs(probe));
    let r = probe_ladder(&rungs);
    proof {
        reveal_with_fuel(first_available, 5);
        let s = dpi_rungs(probe);
        assert(s.drop_first() =~= seq![s[1], s[2], s[3]]);
        assert(s.drop_first().drop_first() =~= seq![s[2], s[3]]);
        assert(s.drop_first().drop_first().drop_first() =~= seq![s[3]]);
        assert(s.drop_first().drop_first().drop_first().drop_first() =~= Seq::<(Tier, bool)>::empty());
    }
    r
}

/// A ladder reports the first tier whose binding resolved, whatever the
/// rungs after it hold.
pub proof fn lemma_ladder_first_present(rungs: Seq<(Tier, bool)>, i: int)
    requires
        0 <= i < rungs.len(),
        rungs[i].1,
        forall|j: int| 0 <= j < i ==> !(#[trigger] rungs[j]).1,
    ensures
        first_available(rungs) == rungs[i].0,
    decreases i,
{
    if i > 0 {
        let rest = rungs.drop_first();
        assert forall|j: int| 0 <= j < i - 1 implies !(#[trigger] rest[j]).1 by {
            assert(rest[j] == rungs[j + 1]);
        }
        assert(!rungs[0].1);
        lemma_ladder_first_present(rest, i - 1);
    }
}

/// A ladder none of whose bindings resolved reports the baseline.
pub proof fn lemma_ladder_baseline(rungs: Seq<(Tier, bool)>)
    requires
        forall|j: int| 0 <= j < rungs.len() ==> !(#[trigger] rungs[j]).1,
    ensures
        first_available(rungs) == Tier::Legacy,
    decreases rungs.len(),
{
    if rungs.len() > 0 {
        let rest = rungs.drop_first();
        assert forall|j: int| 0 <= j < rest.len() implies !(#[trigger] rest[j]).1 by {
            assert(rest[j] == rungs[j + 1]);
        }
        assert(!rungs[0].1);
        lemma_ladder_baseline(rest);
    }
}

/// When the most capable tier's binding is absent and the next one's is
/// present, a descending ladder reports the next tier, and not the most
/// capable one.
pub proof fn lemma_ladder_skips_absent_tier(rungs: Seq<(Tier, bool)>)
    requires
        rungs.len() >= 2,
        descending(rungs),
        !rungs[0].1,
        rungs[1].1,
    ensures
        first_available(rungs) == rungs[1].0,
        first_available(rungs) != rungs[0].0,
{
    lemma_ladder_first_present(rungs, 1);
    assert(tier_rank(rungs[0].0) > tier_rank(rungs[1].0));
}

} // verus!
