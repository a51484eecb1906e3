//! What is traced: the probes, their event ids, and where they attach.
use vstd::prelude::*;

verus! {

/// Syscall numbers on x86_64.
pub const OPENAT: u32 = 257;

pub const READ: u32 = 0;

pub const MMAP: u32 = 9;

pub const CLOSE: u32 = 3;

/// The event ids of library functions start here; syscall numbers lie below.
pub const FIRST_UPROBE_ID: u32 = 1000;

pub const CU_INIT: u32 = 1000;

pub const CU_MODULE_LOAD_DATA: u32 = 1001;

pub const CU_MEM_ALLOC: u32 = 1002;

pub const CU_LAUNCH_KERNEL: u32 = 1003;

/// The event ids of the traced syscalls.
pub open spec fn syscall_ids() -> Seq<u32> {
    seq![OPENAT, READ, MMAP, CLOSE]
}

/// The event ids of the traced library functions.
pub open spec fn uprobe_ids() -> Seq<u32> {
    seq![CU_INIT, CU_MODULE_LOAD_DATA, CU_MEM_ALLOC, CU_LAUNCH_KERNEL]
}

/// An event id tells what was traced: the ids differ from one another, and those
/// of library functions are the ones from `FIRST_UPROBE_ID` on.
pub proof fn event_ids_are_unambiguous()
    ensures
        (syscall_ids() + uprobe_ids()).no_duplicates(),
        forall|i: int| 0 <= i < syscall_ids().len() ==> #[trigger] syscall_ids()[i] < FIRST_UPROBE_ID,
        forall|i: int| 0 <= i < uprobe_ids().len() ==> #[trigger] uprobe_ids()[i] >= FIRST_UPROBE_ID,
{
}

/// A program of the kernel side and the tracepoint that it belongs to.
#[derive(Debug)]
pub struct TracePointTarget {
    pub program: String,
    pub category: String,
    pub name: String,
}

/// A program of the kernel side and the library function that it belongs to.
#[derive(Debug)]
pub struct UProbeTarget {
    pub program: String,
    pub symbol: String,
    pub library: String,
}

/// The names of the traced syscalls.
pub open spec fn syscall_names() -> Seq<Seq<char>> {
    seq!["openat"@, "read"@, "mmap"@, "close"@]
}

/// The traced library functions: the name of the probe and the symbol.
pub open spec fn uprobe_names() -> Seq<(Seq<char>, Seq<char>)> {
    seq![
        ("cu_init"@, "cuInit"@),
        ("cu_module_load_data"@, "cuModuleLoadData"@),
        ("cu_mem_alloc"@, "cuMemAlloc_v2"@),
        ("cu_launch_kernel"@, "cuLaunchKernel"@),
    ]
}

/// Whether `target` is the tracepoint `side` + `syscall`, with the program
/// `probe_` + `side` + `syscall`.
pub open spec fn traces_syscall(
    target: TracePointTarget,
    side: Seq<char>,
    syscall: Seq<char>,
) -> bool {
    &&& target.category@ == "syscalls"@
    &&& target.name@ == side + syscall
    &&& target.program@ == "probe_"@ + side + syscall
}

/// Whether `target` is the libcuda function `names.1`, with the program `probe_` +
/// `names.0` + `suffix`.
pub open spec fn traces_function(
    target: UProbeTarget,
    names: (Seq<char>, Seq<char>),
    suffix: Seq<char>,
) -> bool {
    &&& target.library@ == "libcuda"@
    &&& target.symbol@ == names.1
    &&& target.program@ == "probe_"@ + names.0 + suffix
}

fn syscall_target(side: &str, syscall: &str) -> (target: TracePointTarget)
    ensures
        traces_syscall(target, side@, syscall@),
{
    TracePointTarget {
        program: String::from_str("probe_").concat(side).concat(syscall),
        category: String::from_str("syscalls"),
        name: String::from_str(side).concat(syscall),
    }
}

fn function_target(name: &str, symbol: &str, suffix: &str) -> (target: UProbeTarget)
    ensures
        traces_function(target, (name@, symbol@), suffix@),
{
    UProbeTarget {
        program: String::from_str("probe_").concat(name).concat(suffix),
        symbol: String::from_str(symbol),
        library: String::from_str("libcuda"),
    }
}

/// The tracepoints to attach to: the entry and the exit of every traced syscall,
/// in this order.
pub fn traced_tracepoints() -> (targets: Vec<TracePointTarget>)
    ensures
        targets@.len() == 2 * syscall_names().len(),
        forall|i: int|
            0 <= i < syscall_names().len() ==> {
                &&& traces_syscall(targets@[2 * i], "sys_enter_"@, #[trigger] syscall_names()[i])
                &&& traces_syscall(targets@[2 * i + 1], "sys_exit_"@, syscall_names()[i])
            },
{
    let targets = vec![
        syscall_target("sys_enter_", "openat"),
        syscall_target("sys_exit_", "openat"),
        syscall_target("sys_enter_", "read"),
        syscall_target("sys_exit_", "read"),
        syscall_target("sys_enter_", "mmap"),
        syscall_target("sys_exit_", "mmap"),
        syscall_target("sys_enter_", "close"),
        syscall_target("sys_exit_", "close"),
    ];
    targets
}

/// The library functions to attach to: the entry and the return of each, in this
/// order.
pub fn traced_uprobes() -> (targets: Vec<UProbeTarget>)
    ensures
        targets@.len() == 2 * uprobe_names().len(),
        forall|i: int|
            0 <= i < uprobe_names().len() ==> {
                &&& traces_function(targets@[2 * i], #[trigger] uprobe_names()[i], ""@)
                &&& traces_function(targets@[2 * i + 1], uprobe_names()[i], "_ret"@)
            },
{
    let targets = vec![
        function_target("cu_init", "cuInit", ""),
        function_target("cu_init", "cuInit", "_ret"),
        function_target("cu_module_load_data", "cuModuleLoadData", ""),
        function_target("cu_module_load_data", "cuModuleLoadData", "_ret"),
        function_target("cu_mem_alloc", "cuMemAlloc_v2", ""),
        function_target("cu_mem_alloc", "cuMemAlloc_v2", "_ret"),
        function_target("cu_launch_kernel", "cuLaunchKernel", ""),
        function_target("cu_launch_kernel", "cuLaunchKernel", "_ret"),
    ];
    targets
}

} // verus!
