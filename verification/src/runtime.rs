//! What happens around a proof: the order of preparation, proof and teardown, and the lines that
//! report memory along the way.

use vstd::prelude::*;
use vstd::string::*;
use crate::input::Rejection;
use crate::megabytes::{whole, whole_text};
use crate::status::STATUS_RUNTIME_ERROR;
use crate::text::joined;

verus! {

/// The system that the library runs on.
#[derive(Clone, Copy, Debug, PartialEq, Eq, Structural)]
pub enum Platform {
    /// macOS or iOS.
    Apple,
    /// Any other.
    Other,
}

/// Points at which memory is looked at.
#[derive(Clone, Copy, Debug, PartialEq, Eq, Structural)]
pub enum Moment {
    BeforeProof,
    AfterBlockOn,
    AfterRuntimeDrop,
    AfterPressureRelief,
    AfterSettle,
}

impl Moment {
    /// The name of the moment in memory lines.
    pub open spec fn memory_text(self) -> Seq<char> {
        match self {
            Moment::BeforeProof => "before proof"@,
            Moment::AfterBlockOn => "after block_on (before rt drop)"@,
            Moment::AfterRuntimeDrop => "after rt drop"@,
            Moment::AfterPressureRelief => "after malloc_zone_pressure_relief"@,
            Moment::AfterSettle => "after 1s settle"@,
        }
    }

    /// The name of the moment in checkpoint lines.
    pub open spec fn checkpoint_text(self) -> Seq<char> {
        match self {
            Moment::BeforeProof => "ffi:before_proof"@,
            Moment::AfterBlockOn => "ffi:after_block_on"@,
            Moment::AfterRuntimeDrop => "ffi:after_rt_drop"@,
            Moment::AfterPressureRelief => "ffi:after_pressure_relief"@,
            Moment::AfterSettle => "ffi:after_1s_settle"@,
        }
    }

    /// The label of a memory line.
    pub fn memory_label(self) -> (label: &'static str)
        ensures
            label@ == self.memory_text(),
    {
        match self {
            Moment::BeforeProof => "before proof",
            Moment::AfterBlockOn => "after block_on (before rt drop)",
            Moment::AfterRuntimeDrop => "after rt drop",
            Moment::AfterPressureRelief => "after malloc_zone_pressure_relief",
            Moment::AfterSettle => "after 1s settle",
        }
    }

    /// The label of a checkpoint line.
    pub fn checkpoint_label(self) -> (label: &'static str)
        ensures
            label@ == self.checkpoint_text(),
    {
        match self {
            Moment::BeforeProof => "ffi:before_proof",
            Moment::AfterBlockOn => "ffi:after_block_on",
            Moment::AfterRuntimeDrop => "ffi:after_rt_drop",
            Moment::AfterPressureRelief => "ffi:after_pressure_relief",
            Moment::AfterSettle => "ffi:after_1s_settle",
        }
    }
}

/// One step around a proof.
#[derive(Clone, Copy, Debug, PartialEq, Eq, Structural)]
pub enum RuntimeStep {
    /// Send what the tracing layer prints to the host.
    InstallTracing,
    /// Report panics and failed allocations.
    InstallOomHook,
    /// Remove what earlier runs left in the directory for temporary files.
    CleanTempFiles,
    /// Ask the allocator to hand freed memory back to the system.
    ReleaseAllocator,
    /// Report the memory that the process can still get.
    LogMemory(Moment),
    /// Report the prover's memory maps.
    LogMmap(Moment),
    /// Report the address space.
    LogVm(Moment),
    /// Select the prover's memory mode.
    SetMemoryMode,
    /// Create the asynchronous runtime.
    BuildRuntime,
    /// Run the proof.
    BlockOn,
    /// Drop the runtime.
    DropRuntime,
    /// Wait for the system to reclaim pages.
    Settle,
}

/// The steps before the runtime exists, the last of which creates it.
pub open spec fn preparation() -> Seq<RuntimeStep> {
    seq![
        RuntimeStep::InstallTracing,
        RuntimeStep::InstallOomHook,
        RuntimeStep::CleanTempFiles,
        RuntimeStep::ReleaseAllocator,
        RuntimeStep::LogMemory(Moment::BeforeProof),
        RuntimeStep::LogMmap(Moment::BeforeProof),
        RuntimeStep::LogVm(Moment::BeforeProof),
        RuntimeStep::SetMemoryMode,
        RuntimeStep::BuildRuntime,
    ]
}

/// The proof and the steps behind it.
pub open spec fn proof_and_teardown() -> Seq<RuntimeStep> {
    seq![
        RuntimeStep::BlockOn,
        RuntimeStep::LogMmap(Moment::AfterBlockOn),
        RuntimeStep::LogVm(Moment::AfterBlockOn),
        RuntimeStep::LogMemory(Moment::AfterBlockOn),
        RuntimeStep::DropRuntime,
        RuntimeStep::LogMemory(Moment::AfterRuntimeDrop),
        RuntimeStep::LogVm(Moment::AfterRuntimeDrop),
        RuntimeStep::ReleaseAllocator,
        RuntimeStep::LogMemory(Moment::AfterPressureRelief),
        RuntimeStep::LogVm(Moment::AfterPressureRelief),
        RuntimeStep::Settle,
        RuntimeStep::LogMemory(Moment::AfterSettle),
        RuntimeStep::LogMmap(Moment::AfterSettle),
        RuntimeStep::LogVm(Moment::AfterSettle),
    ]
}

/// All steps of a run, given whether the runtime could be created.
pub open spec fn schedule(built: bool) -> Seq<RuntimeStep> {
    if built {
        preparation() + proof_and_teardown()
    } else {
        preparation()
    }
}

/// The steps up to the creation of the runtime.
pub fn prepare_prover_runtime() -> (steps: Vec<RuntimeStep>)
    ensures
        steps@ == preparation(),
        steps@ == seq![
            RuntimeStep::InstallTracing,
            RuntimeStep::InstallOomHook,
            RuntimeStep::CleanTempFiles,
            RuntimeStep::ReleaseAllocator,
            RuntimeStep::LogMemory(Moment::BeforeProof),
            RuntimeStep::LogMmap(Moment::BeforeProof),
            RuntimeStep::LogVm(Moment::BeforeProof),
            RuntimeStep::SetMemoryMode,
            RuntimeStep::BuildRuntime,
        ],
{
    let steps: Vec<RuntimeStep> = vec![
        RuntimeStep::InstallTracing,
        RuntimeStep::InstallOomHook,
        RuntimeStep::CleanTempFiles,
        RuntimeStep::ReleaseAllocator,
        RuntimeStep::LogMemory(Moment::BeforeProof),
        RuntimeStep::LogMmap(Moment::BeforeProof),
        RuntimeStep::LogVm(Moment::BeforeProof),
        RuntimeStep::SetMemoryMode,
        RuntimeStep::BuildRuntime,
    ];
    assert(steps@ =~= preparation());
    steps
}

/// What the creation of the runtime comes to for the host: its error as status and log line.
pub fn build_runtime(built: Result<(), String>) -> (r: Result<(), Rejection>)
    ensures
        r is Ok <==> built is Ok,
        r matches Err(x) ==> x.status == STATUS_RUNTIME_ERROR && x.log@
            == "Failed to create tokio runtime: "@ + built->Err_0@,
{
    match built {
        Ok(()) => Ok(()),
        Err(e) => Err(
            Rejection {
                status: STATUS_RUNTIME_ERROR,
                log: joined("Failed to create tokio runtime: ", e.as_str()),
            },
        ),
    }
}

/// The steps that follow the creation of the runtime; none if it failed.
pub fn with_prover_runtime(built: Result<(), String>) -> (r: Result<Vec<RuntimeStep>, Rejection>)
    ensures
        r is Ok <==> built is Ok,
        r matches Ok(steps) ==> preparation() + steps@ == schedule(true),
        r matches Ok(steps) ==> steps@ == seq![
            RuntimeStep::BlockOn,
            RuntimeStep::LogMmap(Moment::AfterBlockOn),
            RuntimeStep::LogVm(Moment::AfterBlockOn),
            RuntimeStep::LogMemory(Moment::AfterBlockOn),
            RuntimeStep::DropRuntime,
            RuntimeStep::LogMemory(Moment::AfterRuntimeDrop),
            RuntimeStep::LogVm(Moment::AfterRuntimeDrop),
            RuntimeStep::ReleaseAllocator,
            RuntimeStep::LogMemory(Moment::AfterPressureRelief),
            RuntimeStep::LogVm(Moment::AfterPressureRelief),
            RuntimeStep::Settle,
            RuntimeStep::LogMemory(Moment::AfterSettle),
            RuntimeStep::LogMmap(Moment::AfterSettle),
            RuntimeStep::LogVm(Moment::AfterSettle),
        ],
        r matches Err(x) ==> x.status == STATUS_RUNTIME_ERROR && x.log@
            == "Failed to create tokio runtime: "@ + built->Err_0@,
{
    match build_runtime(built) {
        Err(x) => Err(x),
        Ok(()) => {
            let steps: Vec<RuntimeStep> = vec![
                RuntimeStep::BlockOn,
                RuntimeStep::LogMmap(Moment::AfterBlockOn),
                RuntimeStep::LogVm(Moment::AfterBlockOn),
                RuntimeStep::LogMemory(Moment::AfterBlockOn),
                RuntimeStep::DropRuntime,
                RuntimeStep::LogMemory(Moment::AfterRuntimeDrop),
                RuntimeStep::LogVm(Moment::AfterRuntimeDrop),
                RuntimeStep::ReleaseAllocator,
                RuntimeStep::LogMemory(Moment::AfterPressureRelief),
                RuntimeStep::LogVm(Moment::AfterPressureRelief),
                RuntimeStep::Settle,
                RuntimeStep::LogMemory(Moment::AfterSettle),
                RuntimeStep::LogMmap(Moment::AfterSettle),
                RuntimeStep::LogVm(Moment::AfterSettle),
            ];
            assert(steps@ =~= proof_and_teardown());
            Ok(steps)
        },
    }
}

/// Seconds that [`RuntimeStep::Settle`] waits.
pub const SETTLE_SECONDS: u64 = 1;

/// The request to the system allocator behind [`RuntimeStep::ReleaseAllocator`].
#[derive(Clone, Copy, Debug, PartialEq, Eq, Structural)]
pub struct PressureRelief {
    /// All zones, not one.
    pub all_zones: bool,
    /// Bytes to release; zero means as much as possible.
    pub goal: usize,
}

/// What to ask of the system allocator so that it releases as much retained free memory as
/// possible; only Apple's can be asked.
pub fn release_allocator_memory(platform: Platform) -> (request: Option<PressureRelief>)
    ensures
        request == match platform {
            Platform::Apple => Some(PressureRelief { all_zones: true, goal: 0 }),
            Platform::Other => None::<PressureRelief>,
        },
{
    match platform {
        Platform::Apple => Some(PressureRelief { all_zones: true, goal: 0 }),
        Platform::Other => None,
    }
}

/// The line on the memory that the process can still get; `available` is in bytes.
pub open spec fn memory_line(label: Seq<char>, available: u64) -> Seq<char> {
    "MEMORY ["@ + label + "] available="@ + whole_text(available as nat) + " MB"@
}

/// The log line on available memory; only Apple's systems tell the number.
pub fn log_memory_state(platform: Platform, label: &str, available: u64) -> (line: Option<String>)
    ensures
        line is Some <==> platform is Apple,
        line matches Some(l) ==> l@ == memory_line(label@, available),
        line matches Some(l) ==> l@ == "MEMORY ["@ + label@ + "] available="@ + whole_text(
            available as nat,
        ) + " MB"@,
{
    match platform {
        Platform::Apple => {
            let mut line = joined("MEMORY [", label);
            line.append("] available=");
            line.append(whole(available).as_str());
            line.append(" MB");
            Some(line)
        },
        Platform::Other => None,
    }
}

/// The log line on the prover's memory maps; there is one if the prover is built in.
pub fn log_mmap_state(stwo_proving: bool, label: &str) -> (line: Option<String>)
    ensures
        line is Some <==> stwo_proving,
        line matches Some(l) ==> l@ == "MMAP_CHECKPOINT ["@ + label@ + "]"@,
{
    if stwo_proving {
        let mut line = joined("MMAP_CHECKPOINT [", label);
        line.append("]");
        Some(line)
    } else {
        None
    }
}

/// The log line on the address space; there is one if the prover is built in.
pub fn log_vm_state(stwo_proving: bool, label: &str) -> (line: Option<String>)
    ensures
        line is Some <==> stwo_proving,
        line matches Some(l) ==> l@ == "VM_CHECKPOINT ["@ + label@ + "]"@,
{
    if stwo_proving {
        let mut line = joined("VM_CHECKPOINT [", label);
        line.append("]");
        Some(line)
    } else {
        None
    }
}

/// `a` happens, and every `b` comes after it.
pub open spec fn happens_before(steps: Seq<RuntimeStep>, a: RuntimeStep, b: RuntimeStep) -> bool {
    exists|i: int|
        {
            &&& 0 <= i < steps.len()
            &&& #[trigger] steps[i] == a
            &&& forall|j: int| 0 <= j < steps.len() && #[trigger] steps[j] == b ==> i < j
        }
}

/// Leftovers are removed, freed memory is released and the memory mode is selected before the
/// runtime is created, whether or not its creation succeeds.
pub proof fn runtime_is_created_last_in_preparation(built: bool)
    ensures
        happens_before(schedule(built), RuntimeStep::CleanTempFiles, RuntimeStep::BuildRuntime),
        happens_before(schedule(built), RuntimeStep::ReleaseAllocator, RuntimeStep::BuildRuntime),
        happens_before(schedule(built), RuntimeStep::SetMemoryMode, RuntimeStep::BuildRuntime),
        schedule(built).contains(RuntimeStep::BuildRuntime),
{
    let steps = schedule(built);
    assert(steps[2] == RuntimeStep::CleanTempFiles);
    assert(steps[3] == RuntimeStep::ReleaseAllocator);
    assert(steps[7] == RuntimeStep::SetMemoryMode);
    assert(steps[8] == RuntimeStep::BuildRuntime);
}

/// The proof runs exactly once, after the runtime was created, and not at all if that failed.
pub proof fn proof_runs_once(built: bool, i: int, j: int)
    requires
        0 <= i < schedule(built).len(),
        0 <= j < schedule(built).len(),
        schedule(built)[i] == RuntimeStep::BlockOn,
        schedule(built)[j] == RuntimeStep::BlockOn,
    ensures
        built,
        i == j,
        happens_before(schedule(built), RuntimeStep::BuildRuntime, RuntimeStep::BlockOn),
{
    assert(schedule(built)[8] == RuntimeStep::BuildRuntime);
}

/// After a proof the runtime is dropped before memory is released again, and memory is released
/// before the system gets time to reclaim it.
pub proof fn teardown_is_in_order()
    ensures
        schedule(true).contains(RuntimeStep::BlockOn),
        happens_before(
            proof_and_teardown(),
            RuntimeStep::DropRuntime,
            RuntimeStep::ReleaseAllocator,
        ),
        happens_before(proof_and_teardown(), RuntimeStep::ReleaseAllocator, RuntimeStep::Settle),
        proof_and_teardown().contains(RuntimeStep::Settle),
{
    let steps = proof_and_teardown();
    assert(schedule(true)[9] == RuntimeStep::BlockOn);
    assert(steps[4] == RuntimeStep::DropRuntime);
    assert(steps[7] == RuntimeStep::ReleaseAllocator);
    assert(steps[10] == RuntimeStep::Settle);
}

/// The moment of a report.
pub open spec fn reported_moment(step: RuntimeStep) -> Option<Moment> {
    match step {
        RuntimeStep::LogMemory(moment) => Some(moment),
        RuntimeStep::LogMmap(moment) => Some(moment),
        RuntimeStep::LogVm(moment) => Some(moment),
        _ => None,
    }
}

/// A report names the moment at which it is made: before the proof, after it and before the runtime
/// is dropped, after that, after memory was released, or after the pause.
pub proof fn reports_name_their_moment(i: int, moment: Moment)
    requires
        0 <= i < schedule(true).len(),
        reported_moment(schedule(true)[i]) == Some(moment),
    ensures
        ({
            let steps = schedule(true);
            let before = steps.take(i);
            &&& before.contains(RuntimeStep::BlockOn) <==> !(moment is BeforeProof)
            &&& before.contains(RuntimeStep::DropRuntime) <==> !(moment is BeforeProof)
                && !(moment is AfterBlockOn)
            &&& steps.skip(i).contains(RuntimeStep::ReleaseAllocator) <==> moment is BeforeProof
                || moment is AfterBlockOn || moment is AfterRuntimeDrop
            &&& before.contains(RuntimeStep::Settle) <==> moment is AfterSettle
        }),
{
    let steps = schedule(true);
    let before = steps.take(i);
    let after = steps.skip(i);
    assert(steps[9] is BlockOn && steps[13] is DropRuntime && steps[16] is ReleaseAllocator
        && steps[19] is Settle);
    assert(i > 9 ==> before[9] is BlockOn);
    assert(i > 13 ==> before[13] is DropRuntime);
    assert(i > 19 ==> before[19] is Settle);
    assert(i <= 16 ==> after[16 - i] is ReleaseAllocator);
    assert(forall|k: int| 0 <= k < before.len() ==> before[k] == steps[k]);
    assert(forall|k: int| 0 <= k < after.len() ==> after[k] == steps[k + i]);
}

/// Memory and address space are reported at every moment, the prover's maps before the proof, after
/// it and at the end.
pub proof fn all_moments_are_reported(moment: Moment)
    ensures
        schedule(true).contains(RuntimeStep::LogMemory(moment)),
        schedule(true).contains(RuntimeStep::LogVm(moment)),
        schedule(true).contains(RuntimeStep::LogMmap(moment)) <==> moment is BeforeProof || moment
            is AfterBlockOn || moment is AfterSettle,
        schedule(true).len() == 23,
{
    let steps = schedule(true);
    assert(steps[4] == RuntimeStep::LogMemory(Moment::BeforeProof));
    assert(steps[5] == RuntimeStep::LogMmap(Moment::BeforeProof));
    assert(steps[6] == RuntimeStep::LogVm(Moment::BeforeProof));
    assert(steps[10] == RuntimeStep::LogMmap(Moment::AfterBlockOn));
    assert(steps[11] == RuntimeStep::LogVm(Moment::AfterBlockOn));
    assert(steps[12] == RuntimeStep::LogMemory(Moment::AfterBlockOn));
    assert(steps[14] == RuntimeStep::LogMemory(Moment::AfterRuntimeDrop));
    assert(steps[15] == RuntimeStep::LogVm(Moment::AfterRuntimeDrop));
    assert(steps[17] == RuntimeStep::LogMemory(Moment::AfterPressureRelief));
    assert(steps[18] == RuntimeStep::LogVm(Moment::AfterPressureRelief));
    assert(steps[20] == RuntimeStep::LogMemory(Moment::AfterSettle));
    assert(steps[21] == RuntimeStep::LogMmap(Moment::AfterSettle));
    assert(steps[22] == RuntimeStep::LogVm(Moment::AfterSettle));
}

/// Moments have names of their own, in memory lines and in checkpoint lines.
pub proof fn moments_have_their_names(moment: Moment)
    ensures
        moment.memory_text() == match moment {
            Moment::BeforeProof => "before proof"@,
            Moment::AfterBlockOn => "after block_on (before rt drop)"@,
            Moment::AfterRuntimeDrop => "after rt drop"@,
            Moment::AfterPressureRelief => "after malloc_zone_pressure_relief"@,
            Moment::AfterSettle => "after 1s settle"@,
        },
        moment.checkpoint_text() == match moment {
            Moment::BeforeProof => "ffi:before_proof"@,
            Moment::AfterBlockOn => "ffi:after_block_on"@,
            Moment::AfterRuntimeDrop => "ffi:after_rt_drop"@,
            Moment::AfterPressureRelief => "ffi:after_pressure_relief"@,
            Moment::AfterSettle => "ffi:after_1s_settle"@,
        },
{
}

} // verus!
