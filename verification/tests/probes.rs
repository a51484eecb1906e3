use vllm_coldstart_probe::probes::{
    traced_tracepoints, traced_uprobes, CLOSE, CU_INIT, CU_LAUNCH_KERNEL, CU_MEM_ALLOC,
    CU_MODULE_LOAD_DATA, FIRST_UPROBE_ID, MMAP, OPENAT, READ,
};

#[test]
fn every_syscall_is_traced_at_entry_and_exit() {
    let targets: Vec<(String, String, String)> = traced_tracepoints()
        .into_iter()
        .map(|target| (target.program, target.category, target.name))
        .collect();
    let mut expected = Vec::new();
    for syscall in ["openat", "read", "mmap", "close"] {
        for side in ["sys_enter_", "sys_exit_"] {
            expected.push((
                format!("probe_{side}{syscall}"),
                "syscalls".to_string(),
                format!("{side}{syscall}"),
            ));
        }
    }
    assert_eq!(targets, expected);
}

#[test]
fn every_library_function_is_traced_at_entry_and_return() {
    let targets: Vec<(String, String, String)> = traced_uprobes()
        .into_iter()
        .map(|target| (target.program, target.symbol, target.library))
        .collect();
    let expected: Vec<(String, String, String)> = [
        ("probe_cu_init", "cuInit"),
        ("probe_cu_init_ret", "cuInit"),
        ("probe_cu_module_load_data", "cuModuleLoadData"),
        ("probe_cu_module_load_data_ret", "cuModuleLoadData"),
        ("probe_cu_mem_alloc", "cuMemAlloc_v2"),
        ("probe_cu_mem_alloc_ret", "cuMemAlloc_v2"),
        ("probe_cu_launch_kernel", "cuLaunchKernel"),
        ("probe_cu_launch_kernel_ret", "cuLaunchKernel"),
    ]
    .iter()
    .map(|(program, symbol)| (program.to_string(), symbol.to_string(), "libcuda".to_string()))
    .collect();
    assert_eq!(targets, expected);
}

#[test]
fn event_ids() {
    assert_eq!((OPENAT, READ, MMAP, CLOSE), (257, 0, 9, 3));
    assert_eq!(
        (CU_INIT, CU_MODULE_LOAD_DATA, CU_MEM_ALLOC, CU_LAUNCH_KERNEL),
        (1000, 1001, 1002, 1003)
    );
    for id in [OPENAT, READ, MMAP, CLOSE] {
        assert!(id < FIRST_UPROBE_ID);
    }
    for id in [CU_INIT, CU_MODULE_LOAD_DATA, CU_MEM_ALLOC, CU_LAUNCH_KERNEL] {
        assert!(id >= FIRST_UPROBE_ID);
    }
}
