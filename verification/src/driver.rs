//! The toolchain driver: the steps that turn emitted MLIR into a native
//! object or binary (`mlir-opt`, `mlir-translate`, `llc`, then a linker).
//! Paths are kept as strings; running the steps is left to the caller.
use vstd::prelude::*;
use crate::text::{concat2, contains_seq, occurs_at, contains_str, starts_with_seq, ends_with_seq,
    starts_with_str, ends_with_str, str_eq};

verus! {

/// Joins a relative path onto a base directory the way `Path::join` does on
/// Unix: an absolute `name` replaces the base, otherwise a `'/'` separates
/// them unless the base is empty or already ends with one.
pub open spec fn path_join(base: Seq<char>, name: Seq<char>) -> Seq<char> {
    if starts_with_seq(name, seq!['/']) || base.len() == 0 {
        name
    } else if ends_with_seq(base, seq!['/']) {
        base + name
    } else {
        base + seq!['/'] + name
    }
}

/// Joins `name` onto `base`.
pub fn join_path(base: &str, name: &str) -> (r: String)
    ensures
        r@ == path_join(base@, name@),
{
    let slash = "/";
    proof {
        reveal_strlit("/");
        assert(slash@ =~= seq!['/']);
    }
    if starts_with_str(name, slash) || base.unicode_len() == 0 {
        String::from_str(name)
    } else if ends_with_str(base, slash) {
        concat2(base, name)
    } else {
        let mut r = String::from_str(base);
        r.append(slash);
        r.append(name);
        r
    }
}

/// Paths to the LLVM toolchain binaries.
pub struct ToolchainPaths {
    pub mlir_opt: String,
    pub mlir_translate: String,
    pub llc: String,
    pub clang: String,
    pub lld: String,
}

/// The directory of the default toolchain (LLVM 18 from Homebrew).
pub open spec fn default_toolchain_dir() -> Seq<char> {
    "/opt/homebrew/opt/llvm@18/bin"@
}

impl ToolchainPaths {
    /// The default toolchain's binaries.
    pub open spec fn is_default(&self) -> bool {
        &&& self.mlir_opt@ == path_join(default_toolchain_dir(), "mlir-opt"@)
        &&& self.mlir_translate@ == path_join(default_toolchain_dir(), "mlir-translate"@)
        &&& self.llc@ == path_join(default_toolchain_dir(), "llc"@)
        &&& self.clang@ == path_join(default_toolchain_dir(), "clang"@)
        &&& self.lld@ == path_join(default_toolchain_dir(), "ld.lld"@)
    }

    /// A copy of these paths.
    pub fn copy(&self) -> (r: ToolchainPaths)
        ensures
            r.mlir_opt@ == self.mlir_opt@,
            r.mlir_translate@ == self.mlir_translate@,
            r.llc@ == self.llc@,
            r.clang@ == self.clang@,
            r.lld@ == self.lld@,
    {
        ToolchainPaths {
            mlir_opt: self.mlir_opt.clone(),
            mlir_translate: self.mlir_translate.clone(),
            llc: self.llc.clone(),
            clang: self.clang.clone(),
            lld: self.lld.clone(),
        }
    }
}

impl Default for ToolchainPaths {
    fn default() -> (r: Self)
        ensures
            r.is_default(),
    {
        let base = "/opt/homebrew/opt/llvm@18/bin";
        ToolchainPaths {
            mlir_opt: join_path(base, "mlir-opt"),
            mlir_translate: join_path(base, "mlir-translate"),
            llc: join_path(base, "llc"),
            clang: join_path(base, "clang"),
            lld: join_path(base, "ld.lld"),
        }
    }
}

/// A single step of the pipeline: a tool, its flags, and the file it reads
/// and the file it writes.
pub struct PipelineStep {
    pub name: String,
    pub tool: String,
    pub args: Vec<String>,
    pub input: String,
    pub output: String,
}

/// The model of a pipeline step.
pub struct StepModel {
    pub name: Seq<char>,
    pub tool: Seq<char>,
    pub args: Seq<Seq<char>>,
    pub input: Seq<char>,
    pub output: Seq<char>,
}

/// The model of a list of strings.
pub open spec fn strings_view(v: Seq<String>) -> Seq<Seq<char>> {
    Seq::new(v.len(), |i: int| v[i]@)
}

impl PipelineStep {
    pub open spec fn model(&self) -> StepModel {
        StepModel {
            name: self.name@,
            tool: self.tool@,
            args: strings_view(self.args@),
            input: self.input@,
            output: self.output@,
        }
    }

    /// Whether one of this step's arguments contains `flag`.
    pub fn has_flag(&self, flag: &str) -> (r: bool)
        ensures
            r == exists|i: int| 0 <= i < self.args@.len() && contains_seq(#[trigger] self.args@[i]@, flag@),
    {
        let mut i: usize = 0;
        while i < self.args.len()
            invariant
                0 <= i <= self.args.len(),
                forall|j: int| 0 <= j < i ==> !contains_seq(#[trigger] self.args@[j]@, flag@),
            decreases self.args.len() - i,
        {
            if contains_str(self.args[i].as_str(), flag) {
                return true;
            }
            i += 1;
        }
        false
    }
}

/// The models of a list of steps.
pub open spec fn steps_view(v: Seq<PipelineStep>) -> Seq<StepModel> {
    Seq::new(v.len(), |i: int| v[i].model())
}

/// Target platform of the produced binary.
#[derive(Debug, Clone, Copy, PartialEq, Eq, Structural)]
pub enum DriverTarget {
    DarwinArm64,
    LinuxArm64,
    /// Bare-metal ARM64 ELF for the KeuOS kernel and its user space.
    KeuOSArm64,
    /// Bare-metal x86_64 ELF for the KeuOS kernel and its user space.
    KeuOSX86_64,
}

/// The LLVM target triple of a target.
pub open spec fn spec_triple(t: DriverTarget) -> Seq<char> {
    match t {
        DriverTarget::DarwinArm64 => "arm64-apple-macosx14.0.0"@,
        DriverTarget::LinuxArm64 => "aarch64-unknown-linux-gnu"@,
        DriverTarget::KeuOSArm64 => "aarch64-unknown-none-elf"@,
        DriverTarget::KeuOSX86_64 => "x86_64-unknown-none-elf"@,
    }
}

/// The target named on the command line.
pub open spec fn spec_target_from_str(s: Seq<char>) -> Option<DriverTarget> {
    if s == "darwin-arm64"@ || s == "macos"@ {
        Some(DriverTarget::DarwinArm64)
    } else if s == "linux-arm64"@ {
        Some(DriverTarget::LinuxArm64)
    } else if s == "keuos"@ || s == "keuos-arm64"@ {
        Some(DriverTarget::KeuOSArm64)
    } else if s == "keuos-x86"@ || s == "keuos-x86_64"@ {
        Some(DriverTarget::KeuOSX86_64)
    } else {
        None
    }
}

impl DriverTarget {
    /// The LLVM target triple for this target.
    pub fn triple(&self) -> (r: &'static str)
        ensures
            r@ == spec_triple(*self),
    {
        match self {
            DriverTarget::DarwinArm64 => "arm64-apple-macosx14.0.0",
            DriverTarget::LinuxArm64 => "aarch64-unknown-linux-gnu",
            DriverTarget::KeuOSArm64 => "aarch64-unknown-none-elf",
            DriverTarget::KeuOSX86_64 => "x86_64-unknown-none-elf",
        }
    }

    /// Parses a target name given on the command line.
    pub fn from_str(s: &str) -> (r: Option<DriverTarget>)
        ensures
            r == spec_target_from_str(s@),
    {
        if str_eq(s, "darwin-arm64") || str_eq(s, "macos") {
            Some(DriverTarget::DarwinArm64)
        } else if str_eq(s, "linux-arm64") {
            Some(DriverTarget::LinuxArm64)
        } else if str_eq(s, "keuos") || str_eq(s, "keuos-arm64") {
            Some(DriverTarget::KeuOSArm64)
        } else if str_eq(s, "keuos-x86") || str_eq(s, "keuos-x86_64") {
            Some(DriverTarget::KeuOSX86_64)
        } else {
            None
        }
    }

    /// The native target of a host: Apple silicon on macOS, ARM64 Linux
    /// everywhere else.
    pub fn for_host_os(os: &str) -> (r: DriverTarget)
        ensures
            r == (if os@ == "macos"@ { DriverTarget::DarwinArm64 } else { DriverTarget::LinuxArm64 }),
    {
        if str_eq(os, "macos") {
            DriverTarget::DarwinArm64
        } else {
            DriverTarget::LinuxArm64
        }
    }
}

/// The driver: its target, build directory, toolchain and options.
pub struct SaltDriver {
    pub target: DriverTarget,
    pub build_dir: String,
    pub toolchain: ToolchainPaths,
    pub runtime_obj: String,
    pub debug_info: bool,
    /// When set, `llc` reserves `x19` (for KeuOS kernel builds); this needs a
    /// custom LLVM build.
    pub keuos_mode: bool,
}

/// The flags of the `mlir-opt` lowering step.
pub open spec fn opt_args(debug_info: bool) -> Seq<Seq<char>> {
    let base = seq![
        "--convert-linalg-to-loops"@,
        "--cse"@,
        "--lower-affine"@,
        "--convert-vector-to-scf"@,
        "--convert-scf-to-cf"@,
        "--convert-cf-to-llvm"@,
        "--convert-vector-to-llvm"@,
        "--convert-math-to-llvm"@,
        "--convert-arith-to-llvm"@,
        "--finalize-memref-to-llvm"@,
        "--convert-func-to-llvm"@,
        "--reconcile-unrealized-casts"@,
    ];
    if debug_info { base.push("--mlir-print-debuginfo"@) } else { base }
}

/// The flags of the `llc` step: optimisation, triple, CPU features of the
/// target, then object output, with `x19` reserved in KeuOS mode.
pub open spec fn llc_args(target: DriverTarget, keuos_mode: bool) -> Seq<Seq<char>> {
    let head = seq!["-O3"@, "-mtriple="@ + spec_triple(target)];
    let cpu = match target {
        DriverTarget::DarwinArm64 | DriverTarget::LinuxArm64 => seq!["-mcpu=apple-m4"@, "-mattr=+lse"@],
        DriverTarget::KeuOSArm64 => seq!["-mcpu=cortex-a76"@, "-mattr=+lse"@],
        DriverTarget::KeuOSX86_64 => Seq::empty(),
    };
    let tail = seq!["--frame-pointer=none"@, "-filetype=obj"@];
    let all = head + cpu + tail;
    if keuos_mode { all.push("-reserved-reg=aarch64:x19"@) } else { all }
}

impl SaltDriver {
    /// The four steps of the full pipeline for `out`.
    pub open spec fn spec_pipeline(&self, out: Seq<char>) -> Seq<StepModel> {
        let dir = self.build_dir@;
        let mlir_file = path_join(dir, out + ".mlir"@);
        let opt_file = path_join(dir, out + "_opt.mlir"@);
        let ll_file = path_join(dir, out + ".ll"@);
        let obj_file = path_join(dir, out + ".o"@);
        let bin_file = path_join(dir, out);
        seq![
            StepModel {
                name: "mlir-opt"@,
                tool: self.toolchain.mlir_opt@,
                args: opt_args(self.debug_info),
                input: mlir_file,
                output: opt_file,
            },
            StepModel {
                name: "mlir-translate"@,
                tool: self.toolchain.mlir_translate@,
                args: seq!["--mlir-to-llvmir"@],
                input: opt_file,
                output: ll_file,
            },
            StepModel {
                name: "llc"@,
                tool: self.toolchain.llc@,
                args: llc_args(self.target, self.keuos_mode),
                input: ll_file,
                output: obj_file,
            },
            StepModel {
                name: "link"@,
                tool: self.toolchain.clang@,
                args: seq!["-nostdlib"@, "-static"@, "-O3"@, self.runtime_obj@],
                input: obj_file,
                output: bin_file,
            },
        ]
    }

    /// The freestanding link step of a KeuOS binary for `out`.
    pub open spec fn spec_lld_step(&self, out: Seq<char>) -> StepModel {
        StepModel {
            name: "lld-link"@,
            tool: self.toolchain.lld@,
            args: seq!["-nostdlib"@, "-static"@, "-e"@, "main"@, "--image-base=0x400000"@],
            input: path_join(self.build_dir@, out + ".o"@),
            output: path_join(self.build_dir@, out),
        }
    }

    /// A driver building into `build_dir` for `target`, with the default
    /// toolchain, the runtime object `keuos_rt.o` of the build directory, and
    /// no debug info.
    pub fn new(build_dir: String, target: DriverTarget) -> (r: Self)
        ensures
            r.target == target,
            r.build_dir@ == build_dir@,
            r.toolchain.is_default(),
            r.runtime_obj@ == path_join(build_dir@, "keuos_rt.o"@),
            !r.debug_info,
            !r.keuos_mode,
    {
        let runtime_obj = join_path(build_dir.as_str(), "keuos_rt.o");
        SaltDriver {
            target,
            build_dir,
            toolchain: ToolchainPaths::default(),
            runtime_obj,
            debug_info: false,
            keuos_mode: false,
        }
    }

    /// This driver retargeted.
    pub fn with_target(self, target: DriverTarget) -> (r: Self)
        ensures
            r == (SaltDriver { target, ..self }),
    {
        let mut s = self;
        s.target = target;
        s
    }

    /// This driver with another toolchain.
    pub fn with_toolchain(self, toolchain: ToolchainPaths) -> (r: Self)
        ensures
            r == (SaltDriver { toolchain, ..self }),
    {
        let mut s = self;
        s.toolchain = toolchain;
        s
    }

    /// This driver linking another runtime object.
    pub fn with_runtime(self, runtime_obj: String) -> (r: Self)
        ensures
            r == (SaltDriver { runtime_obj, ..self }),
    {
        let mut s = self;
        s.runtime_obj = runtime_obj;
        s
    }

    /// This driver with debug info switched on or off.
    pub fn with_debug_info(self, debug: bool) -> (r: Self)
        ensures
            r == (SaltDriver { debug_info: debug, ..self }),
    {
        let mut s = self;
        s.debug_info = debug;
        s
    }

    fn push_arg(v: &mut Vec<String>, arg: &str)
        ensures
            strings_view(final(v)@) == strings_view(old(v)@).push(arg@),
    {
        v.push(String::from_str(arg));
        assert(strings_view(v@) =~= strings_view(old(v)@).push(arg@));
    }

    /// The steps of the full pipeline, without running them:
    /// `mlir-opt`, `mlir-translate`, `llc`, then `link`.
    pub fn build_pipeline(&self, output_name: &str) -> (r: Vec<PipelineStep>)
        ensures
            steps_view(r@) == self.spec_pipeline(output_name@),
    {
        let dir = self.build_dir.as_str();
        let mlir_name = concat2(output_name, ".mlir");
        let opt_name = concat2(output_name, "_opt.mlir");
        let ll_name = concat2(output_name, ".ll");
        let obj_name = concat2(output_name, ".o");
        let mlir_file = join_path(dir, mlir_name.as_str());
        let opt_file = join_path(dir, opt_name.as_str());
        let ll_file = join_path(dir, ll_name.as_str());
        let obj_file = join_path(dir, obj_name.as_str());
        let bin_file = join_path(dir, output_name);

        let mut opt_args_v: Vec<String> = Vec::new();
        Self::push_arg(&mut opt_args_v, "--convert-linalg-to-loops");
        Self::push_arg(&mut opt_args_v, "--cse");
        Self::push_arg(&mut opt_args_v, "--lower-affine");
        Self::push_arg(&mut opt_args_v, "--convert-vector-to-scf");
        Self::push_arg(&mut opt_args_v, "--convert-scf-to-cf");
        Self::push_arg(&mut opt_args_v, "--convert-cf-to-llvm");
        Self::push_arg(&mut opt_args_v, "--convert-vector-to-llvm");
        Self::push_arg(&mut opt_args_v, "--convert-math-to-llvm");
        Self::push_arg(&mut opt_args_v, "--convert-arith-to-llvm");
        Self::push_arg(&mut opt_args_v, "--finalize-memref-to-llvm");
        Self::push_arg(&mut opt_args_v, "--convert-func-to-llvm");
        Self::push_arg(&mut opt_args_v, "--reconcile-unrealized-casts");
        if self.debug_info {
            Self::push_arg(&mut opt_args_v, "--mlir-print-debuginfo");
        }
        proof {
            assert(strings_view(opt_args_v@) =~= opt_args(self.debug_info));
        }

        let mut llc_args_v: Vec<String> = Vec::new();
        Self::push_arg(&mut llc_args_v, "-O3");
        let triple_arg = concat2("-mtriple=", self.target.triple());
        Self::push_arg(&mut llc_args_v, triple_arg.as_str());
        match self.target {
            DriverTarget::DarwinArm64 | DriverTarget::LinuxArm64 => {
                Self::push_arg(&mut llc_args_v, "-mcpu=apple-m4");
                Self::push_arg(&mut llc_args_v, "-mattr=+lse");
            },
            DriverTarget::KeuOSArm64 => {
                Self::push_arg(&mut llc_args_v, "-mcpu=cortex-a76");
                Self::push_arg(&mut llc_args_v, "-mattr=+lse");
            },
            DriverTarget::KeuOSX86_64 => {},
        }
        Self::push_arg(&mut llc_args_v, "--frame-pointer=none");
        Self::push_arg(&mut llc_args_v, "-filetype=obj");
        if self.keuos_mode {
            Self::push_arg(&mut llc_args_v, "-reserved-reg=aarch64:x19");
        }
        proof {
            assert(strings_view(llc_args_v@) =~= llc_args(self.target, self.keuos_mode));
        }

        let mut link_args: Vec<String> = Vec::new();
        Self::push_arg(&mut link_args, "-nostdlib");
        Self::push_arg(&mut link_args, "-static");
        Self::push_arg(&mut link_args, "-O3");
        Self::push_arg(&mut link_args, self.runtime_obj.as_str());

        let mut translate_args: Vec<String> = Vec::new();
        Self::push_arg(&mut translate_args, "--mlir-to-llvmir");

        let s1 = PipelineStep {
            name: String::from_str("mlir-opt"),
            tool: self.toolchain.mlir_opt.clone(),
            args: opt_args_v,
            input: mlir_file,
            output: opt_file.clone(),
        };
        let s2 = PipelineStep {
            name: String::from_str("mlir-translate"),
            tool: self.toolchain.mlir_translate.clone(),
            args: translate_args,
            input: opt_file,
            output: ll_file.clone(),
        };
        let s3 = PipelineStep {
            name: String::from_str("llc"),
            tool: self.toolchain.llc.clone(),
            args: llc_args_v,
            input: ll_file,
            output: obj_file.clone(),
        };
        let s4 = PipelineStep {
            name: String::from_str("link"),
            tool: self.toolchain.clang.clone(),
            args: link_args,
            input: obj_file,
            output: bin_file,
        };
        let mut steps: Vec<PipelineStep> = Vec::new();
        steps.push(s1);
        steps.push(s2);
        steps.push(s3);
        steps.push(s4);
        proof {
            assert(strings_view(steps@[1].args@) =~= seq!["--mlir-to-llvmir"@]);
            assert(strings_view(steps@[3].args@) =~= seq![
                "-nostdlib"@,
                "-static"@,
                "-O3"@,
                self.runtime_obj@,
            ]);
            assert(steps_view(steps@) =~= self.spec_pipeline(output_name@));
        }
        steps
    }

    /// The first three steps of the pipeline: everything up to the object
    /// file, without linking.
    pub fn build_object_pipeline(&self, output_name: &str) -> (r: Vec<PipelineStep>)
        ensures
            steps_view(r@) == self.spec_pipeline(output_name@).take(3),
    {
        let mut full = self.build_pipeline(output_name);
        let ghost before = full@;
        assert(steps_view(before).len() == 4);
        let _ = full.pop();
        proof {
            assert(full@ =~= before.subrange(0, 3));
            assert(steps_view(full@) =~= self.spec_pipeline(output_name@).take(3));
        }
        full
    }

    /// The KeuOS binary pipeline: the object pipeline followed by a
    /// freestanding `ld.lld` link at a fixed user-space base address.
    pub fn build_keuos_binary_pipeline(&self, output_name: &str) -> (r: Vec<PipelineStep>)
        ensures
            steps_view(r@) == self.spec_pipeline(output_name@).take(3).push(
                self.spec_lld_step(output_name@),
            ),
    {
        let mut steps = self.build_object_pipeline(output_name);
        assert(steps_view(steps@).len() == 3);
        let obj_name = concat2(output_name, ".o");
        let obj_file = join_path(self.build_dir.as_str(), obj_name.as_str());
        let elf_file = join_path(self.build_dir.as_str(), output_name);
        let mut args: Vec<String> = Vec::new();
        Self::push_arg(&mut args, "-nostdlib");
        Self::push_arg(&mut args, "-static");
        Self::push_arg(&mut args, "-e");
        Self::push_arg(&mut args, "main");
        Self::push_arg(&mut args, "--image-base=0x400000");
        let step = PipelineStep {
            name: String::from_str("lld-link"),
            tool: self.toolchain.lld.clone(),
            args,
            input: obj_file,
            output: elf_file,
        };
        steps.push(step);
        proof {
            assert(strings_view(steps@[3].args@) =~= seq![
                "-nostdlib"@,
                "-static"@,
                "-e"@,
                "main"@,
                "--image-base=0x400000"@,
            ]);
            assert(steps_view(steps@) =~= self.spec_pipeline(output_name@).take(3).push(
                self.spec_lld_step(output_name@),
            ));
        }
        steps
    }
}

/// The full command line of a step after its tool: its flags, the input
/// file, `-o` and the output file.
pub open spec fn spec_step_argv(step: StepModel) -> Seq<Seq<char>> {
    step.args + seq![step.input, "-o"@, step.output]
}

/// Whether the full pipeline hands a step its input and output files:
/// the four steps it builds do; any other step gets only its flags.
pub open spec fn passes_files(name: Seq<char>) -> bool {
    name == "mlir-opt"@ || name == "mlir-translate"@ || name == "llc"@ || name == "link"@
}

impl PipelineStep {
    /// A copy of this step's flags.
    pub fn flags(&self) -> (r: Vec<String>)
        ensures
            strings_view(r@) == strings_view(self.args@),
    {
        let mut out: Vec<String> = Vec::new();
        let mut i: usize = 0;
        while i < self.args.len()
            invariant
                0 <= i <= self.args@.len(),
                out@.len() == i,
                forall|j: int| 0 <= j < i ==> (#[trigger] out@[j])@ == self.args@[j]@,
            decreases self.args@.len() - i,
        {
            out.push(self.args[i].clone());
            i += 1;
        }
        proof {
            assert(strings_view(out@) =~= strings_view(self.args@));
        }
        out
    }

    /// The command line of this step after its tool: flags, input, `-o`,
    /// output.
    pub fn command_args(&self) -> (r: Vec<String>)
        ensures
            strings_view(r@) == spec_step_argv(self.model()),
    {
        let mut out = self.flags();
        out.push(self.input.clone());
        out.push(String::from_str("-o"));
        out.push(self.output.clone());
        proof {
            assert(strings_view(out@) =~= spec_step_argv(self.model()));
        }
        out
    }

    /// The command line the full pipeline runs this step with: the files
    /// are passed to the steps it builds, and only the flags otherwise.
    pub fn full_pipeline_args(&self) -> (r: Vec<String>)
        ensures
            passes_files(self.name@) ==> strings_view(r@) == spec_step_argv(self.model()),
            !passes_files(self.name@) ==> strings_view(r@) == strings_view(self.args@),
    {
        let n = self.name.as_str();
        if str_eq(n, "mlir-opt") || str_eq(n, "mlir-translate") || str_eq(n, "llc") || str_eq(n, "link") {
            self.command_args()
        } else {
            self.flags()
        }
    }
}

impl SaltDriver {
    /// Where the MLIR source of `output_name` is written before the
    /// pipeline runs.
    pub fn mlir_source_path(&self, output_name: &str) -> (r: String)
        ensures
            r@ == path_join(self.build_dir@, output_name@ + ".mlir"@),
    {
        let file = concat2(output_name, ".mlir");
        join_path(self.build_dir.as_str(), file.as_str())
    }
}

/// The steps of the full pipeline form a chain: the first reads the MLIR
/// source, each later step reads what the one before wrote, and the last
/// writes the binary named after the output.
pub proof fn law_pipeline_chains(d: SaltDriver, out: Seq<char>)
    ensures
        d.spec_pipeline(out).len() == 4,
        d.spec_pipeline(out)[0].input == path_join(d.build_dir@, out + ".mlir"@),
        forall|i: int| 0 <= i < 3 ==> #[trigger] d.spec_pipeline(out)[i].output == d.spec_pipeline(out)[i + 1].input,
        d.spec_pipeline(out)[3].output == path_join(d.build_dir@, out),
{
    let p = d.spec_pipeline(out);
    assert(p[0].output == p[1].input);
    assert(p[1].output == p[2].input);
    assert(p[2].output == p[3].input);
}

/// The KeuOS pipeline is the object pipeline with the freestanding link
/// appended; that link reads the object file the pipeline produced.
pub proof fn law_keuos_links_the_object(d: SaltDriver, out: Seq<char>)
    ensures
        d.spec_pipeline(out).take(3)[2].output == d.spec_lld_step(out).input,
{
}

/// The object pipeline is the binary pipeline without its link step: the
/// same three steps, with the same tools, flags and files; none of them
/// links; the last writes the object file `out.o` of the build directory;
/// and the lowering step prints debug info exactly when the driver asks
/// for it.
pub proof fn law_object_pipeline_shares_flags(d: SaltDriver, out: Seq<char>)
    ensures
        d.spec_pipeline(out).take(3).len() == 3,
        forall|i: int| 0 <= i < 3 ==> #[trigger] d.spec_pipeline(out).take(3)[i] == d.spec_pipeline(out)[i],
        forall|i: int| 0 <= i < 3 ==> #[trigger] d.spec_pipeline(out).take(3)[i].name != "link"@,
        d.spec_pipeline(out).take(3)[2].output == path_join(d.build_dir@, out + ".o"@),
        d.spec_pipeline(out).take(3)[0].args.contains("--mlir-print-debuginfo"@) == d.debug_info,
        (exists|i: int| 0 <= i < d.spec_pipeline(out).take(3)[0].args.len() && contains_seq(
            #[trigger] d.spec_pipeline(out).take(3)[0].args[i],
            "--mlir-print-debuginfo"@,
        )) == d.debug_info,
{
    let p = d.spec_pipeline(out);
    let flag = "--mlir-print-debuginfo"@;
    reveal_strlit("link");
    reveal_strlit("mlir-opt");
    reveal_strlit("mlir-translate");
    reveal_strlit("llc");
    reveal_strlit("--mlir-print-debuginfo");
    reveal_strlit("--convert-linalg-to-loops");
    reveal_strlit("--cse");
    reveal_strlit("--lower-affine");
    reveal_strlit("--convert-vector-to-scf");
    reveal_strlit("--convert-scf-to-cf");
    reveal_strlit("--convert-cf-to-llvm");
    reveal_strlit("--convert-vector-to-llvm");
    reveal_strlit("--convert-math-to-llvm");
    reveal_strlit("--convert-arith-to-llvm");
    reveal_strlit("--finalize-memref-to-llvm");
    reveal_strlit("--convert-func-to-llvm");
    reveal_strlit("--reconcile-unrealized-casts");
    assert("link"@.len() != "mlir-opt"@.len());
    assert("link"@[1] != "llc"@[1]);
    assert("link"@.len() != "mlir-translate"@.len());
    let base = opt_args(false);
    assert forall|i: int| 0 <= i < base.len() implies #[trigger] base[i] != flag by {
        assert(base[i].len() != flag.len() || base[i][2] != flag[2]);
    }
    if d.debug_info {
        assert(p[0].args[p[0].args.len() - 1] == flag);
    } else {
        assert(p[0].args == base);
    }
    assert(opt_args(true) == base.push(flag));
    if !d.debug_info {
        assert(!base.contains(flag));
    } else {
        assert(p[0].args.contains(flag));
    }
    lemma_flag_absent("--convert-linalg-to-loops"@);
    lemma_flag_absent("--cse"@);
    lemma_flag_absent("--lower-affine"@);
    lemma_flag_absent("--convert-vector-to-scf"@);
    lemma_flag_absent("--convert-scf-to-cf"@);
    lemma_flag_absent("--convert-cf-to-llvm"@);
    lemma_flag_absent("--convert-vector-to-llvm"@);
    lemma_flag_absent("--convert-math-to-llvm"@);
    lemma_flag_absent("--convert-arith-to-llvm"@);
    lemma_flag_absent("--finalize-memref-to-llvm"@);
    lemma_flag_absent("--convert-func-to-llvm"@);
    lemma_flag_absent("--reconcile-unrealized-casts"@);
    assert forall|i: int| 0 <= i < base.len() implies !contains_seq(#[trigger] base[i], flag) by {
        assert(base[i] == opt_args(false)[i]);
    }
    assert(flag.subrange(0, flag.len() as int) =~= flag);
    assert(occurs_at(flag, flag, 0));
    let obj = d.spec_pipeline(out).take(3);
    assert(obj[0] == p[0]);
    if d.debug_info {
        let n = p[0].args.len() - 1;
        assert(contains_seq(obj[0].args[n], flag));
    } else {
        assert forall|i: int| 0 <= i < obj[0].args.len() implies !contains_seq(#[trigger] obj[0].args[i], flag) by {
            assert(obj[0].args[i] == base[i]);
        }
    }
}

/// A mlir-opt flag that does not mention debug info: too short, or with no
/// `--` but at its start and no `m` after that one.
proof fn lemma_flag_absent(s: Seq<char>)
    requires
        s.len() < 22 || (s[2] != 'm' && forall|k: int| 1 <= k && k + 22 <= s.len() ==> !(#[trigger] s[k] == '-' && s[k + 1]
            == '-')),
    ensures
        !contains_seq(s, "--mlir-print-debuginfo"@),
{
    let flag = "--mlir-print-debuginfo"@;
    reveal_strlit("--mlir-print-debuginfo");
    if contains_seq(s, flag) {
        let k = choose|k: int| occurs_at(s, flag, k);
        let w = s.subrange(k, k + 22);
        assert(w == flag);
        assert(w[0] == s[k] && w[1] == s[k + 1] && w[2] == s[k + 2]);
        assert(flag[0] == '-' && flag[1] == '-' && flag[2] == 'm');
    }
}

/// Whether a target triple names a 64-bit Arm machine.
pub open spec fn is_arm64_triple(triple: Seq<char>) -> bool {
    starts_with_seq(triple, "aarch64"@) || starts_with_seq(triple, "arm64"@)
}

/// The code-generation step names the target's triple, and on every 64-bit
/// Arm target it names a CPU and turns on LSE atomics; on any other target
/// it leaves LSE off.
pub proof fn law_llc_targets_the_machine(d: SaltDriver, out: Seq<char>)
    ensures
        d.spec_pipeline(out)[2].args.contains("-mtriple="@ + spec_triple(d.target)),
        is_arm64_triple(spec_triple(d.target)) ==> d.spec_pipeline(out)[2].args.contains("-mattr=+lse"@),
        is_arm64_triple(spec_triple(d.target)) ==> exists|i: int| 0 <= i < d.spec_pipeline(out)[2].args.len()
            && starts_with_seq(#[trigger] d.spec_pipeline(out)[2].args[i], "-mcpu="@),
        !is_arm64_triple(spec_triple(d.target)) ==> !d.spec_pipeline(out)[2].args.contains("-mattr=+lse"@),
{
    let a = d.spec_pipeline(out)[2].args;
    reveal_strlit("arm64-apple-macosx14.0.0");
    reveal_strlit("aarch64-unknown-linux-gnu");
    reveal_strlit("aarch64-unknown-none-elf");
    reveal_strlit("x86_64-unknown-none-elf");
    reveal_strlit("aarch64");
    reveal_strlit("arm64");
    reveal_strlit("-mtriple=");
    reveal_strlit("-mcpu=");
    reveal_strlit("-mcpu=apple-m4");
    reveal_strlit("-mcpu=cortex-a76");
    reveal_strlit("-mattr=+lse");
    reveal_strlit("-O3");
    reveal_strlit("--frame-pointer=none");
    reveal_strlit("-filetype=obj");
    reveal_strlit("-reserved-reg=aarch64:x19");
    assert(a[1] == "-mtriple="@ + spec_triple(d.target));
    match d.target {
        DriverTarget::DarwinArm64 => {
            assert(spec_triple(d.target).subrange(0, 5) =~= "arm64"@);
            assert(is_arm64_triple(spec_triple(d.target)));
            assert(a[2] == "-mcpu=apple-m4"@);
            assert(a[3] == "-mattr=+lse"@);
            assert("-mcpu=apple-m4"@.subrange(0, 6) =~= "-mcpu="@);
            assert(starts_with_seq(a[2], "-mcpu="@));
        },
        DriverTarget::LinuxArm64 => {
            assert(spec_triple(d.target).subrange(0, 7) =~= "aarch64"@);
            assert(is_arm64_triple(spec_triple(d.target)));
            assert(a[2] == "-mcpu=apple-m4"@);
            assert(a[3] == "-mattr=+lse"@);
            assert("-mcpu=apple-m4"@.subrange(0, 6) =~= "-mcpu="@);
            assert(starts_with_seq(a[2], "-mcpu="@));
        },
        DriverTarget::KeuOSArm64 => {
            assert(spec_triple(d.target).subrange(0, 7) =~= "aarch64"@);
            assert(is_arm64_triple(spec_triple(d.target)));
            assert(a[2] == "-mcpu=cortex-a76"@);
            assert(a[3] == "-mattr=+lse"@);
            assert("-mcpu=cortex-a76"@.subrange(0, 6) =~= "-mcpu="@);
            assert(starts_with_seq(a[2], "-mcpu="@));
        },
        DriverTarget::KeuOSX86_64 => {
            assert(spec_triple(d.target)[0] == 'x');
            assert(!starts_with_seq(spec_triple(d.target), "aarch64"@)) by {
                assert(spec_triple(d.target).subrange(0, 7)[0] != "aarch64"@[0]);
            }
            assert(!starts_with_seq(spec_triple(d.target), "arm64"@)) by {
                assert(spec_triple(d.target).subrange(0, 5)[0] != "arm64"@[0]);
            }
            assert forall|i: int| 0 <= i < a.len() implies a[i] != "-mattr=+lse"@ by {
                assert(a[i].len() != "-mattr=+lse"@.len());
            }
        },
    }
}

} // verus!
