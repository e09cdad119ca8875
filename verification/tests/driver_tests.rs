use salt_front::driver::{DriverTarget, SaltDriver, ToolchainPaths};

fn test_driver() -> SaltDriver {
    SaltDriver::new("/tmp/salt-build".to_string(), DriverTarget::for_host_os("linux"))
}

#[test]
fn test_pipeline_has_4_steps() {
    let driver = test_driver();
    let steps = driver.build_pipeline("echo_test");

    assert_eq!(steps.len(), 4,
        "Pipeline must have exactly 4 steps: mlir-opt, mlir-translate, llc, link");
    assert_eq!(steps[0].name, "mlir-opt");
    assert_eq!(steps[1].name, "mlir-translate");
    assert_eq!(steps[2].name, "llc");
    assert_eq!(steps[3].name, "link");
}

#[test]
fn test_llc_step_reserves_x19_in_keuos_mode() {
    let driver = test_driver();
    let steps = driver.build_pipeline("echo_test");
    let llc = &steps[2];

    assert!(!llc.has_flag("-reserved-reg=aarch64:x19"),
        "llc step must NOT reserve x19 by default (requires custom LLVM)");

    let sov_driver = SaltDriver::new("/tmp/salt-build".to_string(), DriverTarget::for_host_os("linux"));
    let mut sov = sov_driver;
    sov.keuos_mode = true;
    let sov_steps = sov.build_pipeline("echo_test");
    let sov_llc = &sov_steps[2];
    assert!(sov_llc.has_flag("-reserved-reg=aarch64:x19"),
        "llc step MUST reserve x19 in keuos mode");
}

#[test]
fn test_llc_step_enables_lse() {
    let driver = test_driver();
    let steps = driver.build_pipeline("echo_test");
    let llc = &steps[2];

    assert!(llc.has_flag("+lse"),
        "llc step MUST enable LSE atomics for M4 CAS/LDADD");
}

#[test]
fn test_link_step_uses_nostdlib() {
    let driver = test_driver();
    let steps = driver.build_pipeline("echo_test");
    let link = &steps[3];

    assert!(link.has_flag("-nostdlib"),
        "Link step MUST use -nostdlib to eliminate C runtime tax");
}

#[test]
fn test_link_step_includes_runtime() {
    let driver = test_driver();
    let steps = driver.build_pipeline("echo_test");
    let link = &steps[3];

    assert!(link.has_flag("keuos_rt.o"),
        "Link step MUST include keuos_rt.o runtime object");
}

#[test]
fn test_toolchain_paths_default() {
    let paths = ToolchainPaths::default();

    assert!(paths.mlir_opt.contains("/opt/homebrew/opt/llvm@18/bin/"),
        "Default mlir-opt path must be in /opt/homebrew/opt/llvm@18/bin/");
    assert!(paths.llc.contains("llc"),
        "Default llc path must contain 'llc'");
    assert!(paths.clang.contains("clang"),
        "Default clang path must contain 'clang'");
}

#[test]
fn test_object_pipeline_has_3_steps() {
    let driver = test_driver();
    let steps = driver.build_object_pipeline("kernel_main");

    assert_eq!(steps.len(), 3,
        "Object pipeline must have exactly 3 steps: mlir-opt, mlir-translate, llc (no link)");
    assert_eq!(steps[0].name, "mlir-opt");
    assert_eq!(steps[1].name, "mlir-translate");
    assert_eq!(steps[2].name, "llc");
}

#[test]
fn test_object_pipeline_stops_before_link() {
    let driver = test_driver();
    let steps = driver.build_object_pipeline("kernel_main");

    for step in &steps {
        assert_ne!(step.name, "link",
            "Object pipeline must NOT contain a link step — we produce .o, not binaries");
    }
}

#[test]
fn test_object_output_is_dot_o() {
    let driver = test_driver();
    let steps = driver.build_object_pipeline("kernel_main");
    let last = steps.last().unwrap();

    assert!(last.output.ends_with(".o"),
        "Object pipeline output must end with .o, got: {:?}", last.output);
}

#[test]
fn test_object_pipeline_shares_flags_with_binary() {
    let driver = test_driver();
    let obj_steps = driver.build_object_pipeline("test");
    let bin_steps = driver.build_pipeline("test");

    for i in 0..3 {
        assert_eq!(obj_steps[i].name, bin_steps[i].name,
            "Step {} name must match between object and binary pipelines", i);
        assert_eq!(obj_steps[i].args, bin_steps[i].args,
            "Step {} args must match between object and binary pipelines", i);
    }
}

#[test]
fn test_debug_driver_mlir_opt_has_debuginfo_flag() {
    let driver = test_driver().with_debug_info(true);
    let steps = driver.build_object_pipeline("test_debug");
    let mlir_opt = &steps[0];

    assert!(mlir_opt.has_flag("--mlir-print-debuginfo"),
        "mlir-opt step MUST pass --mlir-print-debuginfo when debug_info is enabled");
}

#[test]
fn test_no_debug_driver_mlir_opt_has_no_debuginfo_flag() {
    let driver = test_driver();
    let steps = driver.build_object_pipeline("test_release");
    let mlir_opt = &steps[0];

    assert!(!mlir_opt.has_flag("--mlir-print-debuginfo"),
        "mlir-opt step must NOT pass --mlir-print-debuginfo by default");
}

#[test]
fn test_keuos_target_produces_elf_triple() {
    assert_eq!(DriverTarget::KeuOSArm64.triple(), "aarch64-unknown-none-elf",
        "KeuOSArm64 must use bare-metal ELF triple for kernel loader");
}

#[test]
fn test_keuos_x86_target_produces_elf_triple() {
    assert_eq!(DriverTarget::KeuOSX86_64.triple(), "x86_64-unknown-none-elf",
        "KeuOSX86_64 must use bare-metal ELF triple for kernel loader");
}

#[test]
fn test_keuos_target_in_pipeline() {
    let driver = SaltDriver::new("/tmp/salt-build".to_string(), DriverTarget::for_host_os("linux"))
        .with_target(DriverTarget::KeuOSArm64);
    let steps = driver.build_object_pipeline("kernel_main");
    let llc = &steps[2];

    assert!(llc.has_flag("aarch64-unknown-none-elf"),
        "llc step must pass bare-metal ELF triple when targeting KeuOS");
    assert!(!llc.has_flag("apple"),
        "KeuOS target must NOT reference Apple/macOS");
}

#[test]
fn test_target_from_str() {
    assert_eq!(DriverTarget::from_str("keuos"), Some(DriverTarget::KeuOSArm64));
    assert_eq!(DriverTarget::from_str("keuos-arm64"), Some(DriverTarget::KeuOSArm64));
    assert_eq!(DriverTarget::from_str("keuos-x86_64"), Some(DriverTarget::KeuOSX86_64));
    assert_eq!(DriverTarget::from_str("macos"), Some(DriverTarget::DarwinArm64));
    assert_eq!(DriverTarget::from_str("bogus"), None);
}

#[test]
fn test_darwin_target_produces_macho_triple() {
    assert!(DriverTarget::DarwinArm64.triple().contains("apple"),
        "DarwinArm64 must use Apple triple for Mach-O output");
}

#[test]
fn test_keuos_x86_binary_pipeline_has_4_steps() {
    let driver = SaltDriver::new("/tmp/salt-build".to_string(), DriverTarget::for_host_os("linux"))
        .with_target(DriverTarget::KeuOSX86_64);
    let steps = driver.build_keuos_binary_pipeline("hello_user");

    assert_eq!(steps.len(), 4,
        "KeuOS binary pipeline must have 4 steps: mlir-opt → mlir-translate → llc → lld");
    assert_eq!(steps[0].name, "mlir-opt");
    assert_eq!(steps[1].name, "mlir-translate");
    assert_eq!(steps[2].name, "llc");
    assert_eq!(steps[3].name, "lld-link");
}

#[test]
fn test_keuos_x86_link_uses_lld() {
    let driver = SaltDriver::new("/tmp/salt-build".to_string(), DriverTarget::for_host_os("linux"))
        .with_target(DriverTarget::KeuOSX86_64);
    let steps = driver.build_keuos_binary_pipeline("hello_user");
    let link_step = &steps[3];

    assert!(link_step.tool.contains("ld.lld"),
        "KeuOS link step must use ld.lld, not clang");
}

#[test]
fn test_keuos_x86_link_has_nostdlib_and_entry() {
    let driver = SaltDriver::new("/tmp/salt-build".to_string(), DriverTarget::for_host_os("linux"))
        .with_target(DriverTarget::KeuOSX86_64);
    let steps = driver.build_keuos_binary_pipeline("hello_user");
    let link_step = &steps[3];

    assert!(link_step.has_flag("-nostdlib"),
        "KeuOS link must be freestanding (-nostdlib)");
    assert!(link_step.has_flag("-e"),
        "KeuOS link must specify entry point (-e)");
    assert!(link_step.has_flag("--image-base"),
        "KeuOS link must set user-space image base");
}

#[test]
fn test_keuos_x86_link_produces_elf_executable() {
    let driver = SaltDriver::new("/tmp/salt-build".to_string(), DriverTarget::for_host_os("linux"))
        .with_target(DriverTarget::KeuOSX86_64);
    let steps = driver.build_keuos_binary_pipeline("hello_user");
    let link_step = &steps[3];

    let output = link_step.output.as_str();
    assert!(!output.ends_with(".o"),
        "KeuOS binary output must not be .o (it's a linked executable)");
    assert!(output.ends_with("hello_user"),
        "KeuOS binary output should be the bare name");
}

#[test]
fn test_keuos_x86_llc_uses_x86_triple() {
    let driver = SaltDriver::new("/tmp/salt-build".to_string(), DriverTarget::for_host_os("linux"))
        .with_target(DriverTarget::KeuOSX86_64);
    let steps = driver.build_keuos_binary_pipeline("hello_user");
    let llc = &steps[2];

    assert!(llc.has_flag("x86_64-unknown-none-elf"),
        "KeuOS x86_64 pipeline must use bare-metal x86_64 ELF triple");
}

#[test]
fn test_pipeline_paths_join_build_dir() {
    let driver = SaltDriver::new("/tmp/salt-build/".to_string(), DriverTarget::LinuxArm64);
    let steps = driver.build_pipeline("app");
    assert_eq!(steps[0].input, "/tmp/salt-build/app.mlir");
    assert_eq!(steps[0].output, "/tmp/salt-build/app_opt.mlir");
    assert_eq!(steps[1].output, "/tmp/salt-build/app.ll");
    assert_eq!(steps[2].output, "/tmp/salt-build/app.o");
    assert_eq!(steps[3].output, "/tmp/salt-build/app");
    assert_eq!(steps[3].args, vec!["-nostdlib", "-static", "-O3", "/tmp/salt-build/keuos_rt.o"]);
}

#[test]
fn test_x86_llc_has_no_cpu_flags() {
    let driver = SaltDriver::new("b".to_string(), DriverTarget::KeuOSX86_64);
    let steps = driver.build_pipeline("k");
    assert_eq!(steps[2].args, vec!["-O3", "-mtriple=x86_64-unknown-none-elf", "--frame-pointer=none", "-filetype=obj"]);
    assert_eq!(steps[0].input, "b/k.mlir");
}

#[test]
fn test_for_host_os() {
    assert_eq!(DriverTarget::for_host_os("macos"), DriverTarget::DarwinArm64);
    assert_eq!(DriverTarget::for_host_os("linux"), DriverTarget::LinuxArm64);
}

#[test]
fn step_command_lines() {
    let driver = test_driver();
    let steps = driver.build_pipeline("app");
    let opt = steps[0].command_args();
    let n = opt.len();
    assert_eq!(opt[n - 3], "/tmp/salt-build/app.mlir");
    assert_eq!(opt[n - 2], "-o");
    assert_eq!(opt[n - 1], "/tmp/salt-build/app_opt.mlir");
    assert_eq!(steps[3].full_pipeline_args(), steps[3].command_args());
    let mut other = driver.build_pipeline("app").pop().unwrap();
    other.name = "strip".to_string();
    assert_eq!(other.full_pipeline_args(), other.args);
    assert_eq!(other.flags(), other.args);
}

#[test]
fn mlir_source_path_in_build_dir() {
    let driver = test_driver();
    assert_eq!(driver.mlir_source_path("demo"), "/tmp/salt-build/demo.mlir");
    let steps = driver.build_pipeline("demo");
    assert_eq!(steps[0].input, driver.mlir_source_path("demo"));
    for i in 0..3 {
        assert_eq!(steps[i].output, steps[i + 1].input);
    }
}
