//! Compute backends, inference providers and the metadata that ties a kernel to a device.

use vstd::prelude::*;

use crate::paths::join;
use crate::paths::joined;
use crate::text::same_text;

verus! {

/// Compute API compiled into a build.
#[derive(Debug, Clone, Copy, PartialEq, Eq, Structural)]
pub enum ComputeBackendKind {
    Cuda,
    Rocm,
}

/// ONNX Runtime execution provider selected for model sessions.
#[derive(Debug, Clone, Copy, PartialEq, Eq, Structural)]
pub enum InferenceProvider {
    Cuda,
    TensorRt,
    Rocm,
    MiGraphX,
}

impl InferenceProvider {
    /// The compute API that a provider runs on.
    pub open spec fn backend(self) -> ComputeBackendKind {
        match self {
            InferenceProvider::Cuda | InferenceProvider::TensorRt => ComputeBackendKind::Cuda,
            InferenceProvider::Rocm | InferenceProvider::MiGraphX => ComputeBackendKind::Rocm,
        }
    }

    /// The compute API that this provider runs on.
    pub fn compute_backend(self) -> (r: ComputeBackendKind)
        ensures
            r == self.backend(),
    {
        match self {
            InferenceProvider::Cuda | InferenceProvider::TensorRt => ComputeBackendKind::Cuda,
            InferenceProvider::Rocm | InferenceProvider::MiGraphX => ComputeBackendKind::Rocm,
        }
    }

    /// The provider's name for people.
    pub fn display_name(self) -> (r: &'static str)
        ensures
            r@ == match self {
                InferenceProvider::Cuda => "Native CUDA"@,
                InferenceProvider::TensorRt => "TensorRT"@,
                InferenceProvider::Rocm => "ROCm"@,
                InferenceProvider::MiGraphX => "MIGraphX"@,
            },
    {
        match self {
            InferenceProvider::Cuda => "Native CUDA",
            InferenceProvider::TensorRt => "TensorRT",
            InferenceProvider::Rocm => "ROCm",
            InferenceProvider::MiGraphX => "MIGraphX",
        }
    }
}

/// What a build was made with: a CUDA or a ROCm base, each with its optional provider.
#[derive(Debug, Clone, Copy, PartialEq, Eq, Structural)]
pub struct BuildFeatures {
    pub cuda: bool,
    pub tensorrt: bool,
    pub rocm: bool,
    pub migraphx: bool,
}

/// Backends and providers present in one build.
#[derive(Debug, Clone, PartialEq, Eq)]
pub struct CompiledCapabilities {
    pub compute_backend: ComputeBackendKind,
    pub inference_providers: Vec<InferenceProvider>,
}

/// The providers that a build holds, the base provider first.
pub open spec fn providers_of(features: BuildFeatures) -> Seq<InferenceProvider> {
    if features.cuda {
        if features.tensorrt {
            seq![InferenceProvider::Cuda, InferenceProvider::TensorRt]
        } else {
            seq![InferenceProvider::Cuda]
        }
    } else if features.rocm {
        if features.migraphx {
            seq![InferenceProvider::Rocm, InferenceProvider::MiGraphX]
        } else {
            seq![InferenceProvider::Rocm]
        }
    } else {
        Seq::empty()
    }
}

/// The compute API of a build; a build without a base counts as CUDA without providers.
pub open spec fn backend_of(features: BuildFeatures) -> ComputeBackendKind {
    if !features.cuda && features.rocm {
        ComputeBackendKind::Rocm
    } else {
        ComputeBackendKind::Cuda
    }
}

impl CompiledCapabilities {
    /// The capabilities of a build with the given features.
    pub fn for_features(features: BuildFeatures) -> (r: Self)
        ensures
            r.compute_backend == backend_of(features),
            r.inference_providers@ == providers_of(features),
    {
        let mut inference_providers: Vec<InferenceProvider> = Vec::new();
        if features.cuda {
            inference_providers.push(InferenceProvider::Cuda);
            if features.tensorrt {
                inference_providers.push(InferenceProvider::TensorRt);
            }
        } else if features.rocm {
            inference_providers.push(InferenceProvider::Rocm);
            if features.migraphx {
                inference_providers.push(InferenceProvider::MiGraphX);
            }
        }
        proof {
            assert(inference_providers@ =~= providers_of(features));
        }
        let compute_backend = if !features.cuda && features.rocm {
            ComputeBackendKind::Rocm
        } else {
            ComputeBackendKind::Cuda
        };
        CompiledCapabilities { compute_backend, inference_providers }
    }

    /// The capabilities of this build, which targets CUDA with TensorRT.
    pub fn current() -> (r: Self)
        ensures
            r.compute_backend == ComputeBackendKind::Cuda,
            r.inference_providers@ == seq![InferenceProvider::Cuda, InferenceProvider::TensorRt],
    {
        CompiledCapabilities::for_features(
            BuildFeatures { cuda: true, tensorrt: true, rocm: false, migraphx: false },
        )
    }

    /// Whether `provider` is part of the build.
    pub fn supports(&self, provider: InferenceProvider) -> (r: bool)
        ensures
            r == self.inference_providers@.contains(provider),
    {
        let mut i: usize = 0;
        while i < self.inference_providers.len()
            invariant
                i <= self.inference_providers.len(),
                forall|j: int| 0 <= j < i ==> self.inference_providers@[j] != provider,
            decreases self.inference_providers.len() - i,
        {
            if self.inference_providers[i] == provider {
                assert(self.inference_providers@[i as int] == provider);
                return true;
            }
            i = i + 1;
        }
        false
    }

    /// Succeeds where `provider` is part of the build; the error names both otherwise.
    pub fn require(self, provider: InferenceProvider) -> (r: Result<(), ProviderUnavailableError>)
        ensures
            match r {
                Ok(()) => self.inference_providers@.contains(provider),
                Err(e) => !self.inference_providers@.contains(provider) && e.requested == provider
                    && e.compiled == self,
            },
    {
        if self.supports(provider) {
            Ok(())
        } else {
            Err(ProviderUnavailableError { requested: provider, compiled: self })
        }
    }
}

/// The providers that sessions try, in their order: the one that was asked for, and behind
/// TensorRT the one that it falls back to.
pub open spec fn provider_chain(
    backend: ComputeBackendKind,
    provider: InferenceProvider,
) -> Seq<InferenceProvider> {
    match backend {
        ComputeBackendKind::Rocm => Seq::empty(),
        ComputeBackendKind::Cuda => if provider == InferenceProvider::TensorRt {
            seq![InferenceProvider::TensorRt, InferenceProvider::Cuda]
        } else {
            seq![InferenceProvider::Cuda]
        },
    }
}

/// The providers that sessions try, where the build holds the one that was asked for.
pub fn execution_providers(compiled: CompiledCapabilities, provider: InferenceProvider) -> (r:
    Result<Vec<InferenceProvider>, ProviderUnavailableError>)
    ensures
        match r {
            Ok(providers) => {
                &&& compiled.inference_providers@.contains(provider)
                &&& providers@ == provider_chain(compiled.compute_backend, provider)
            },
            Err(e) => {
                &&& !compiled.inference_providers@.contains(provider)
                &&& e.requested == provider
                &&& e.compiled == compiled
            },
        },
{
    let backend: ComputeBackendKind = compiled.compute_backend;
    if let Err(e) = compiled.require(provider) {
        return Err(e);
    }
    let mut providers: Vec<InferenceProvider> = Vec::new();
    if backend == ComputeBackendKind::Cuda {
        if provider == InferenceProvider::TensorRt {
            providers.push(InferenceProvider::TensorRt);
        }
        providers.push(InferenceProvider::Cuda);
    }
    proof {
        assert(providers@ =~= provider_chain(backend, provider));
    }
    Ok(providers)
}

/// Where engines that TensorRT has built are kept.
pub fn engine_cache_path(cache_root: &str) -> (r: String)
    ensures
        r@ == joined(cache_root@, "trt-cache-fp32-parity"@),
{
    join(cache_root, "trt-cache-fp32-parity")
}

/// A provider that the build does not hold.
#[derive(Debug, Clone, PartialEq, Eq)]
pub struct ProviderUnavailableError {
    pub requested: InferenceProvider,
    pub compiled: CompiledCapabilities,
}

/// Every provider of a build runs on the build's compute API.
pub proof fn providers_run_on_the_backend(features: BuildFeatures, i: int)
    requires
        0 <= i < providers_of(features).len(),
    ensures
        providers_of(features)[i].backend() == backend_of(features),
{
}

/// Number of lanes executing as one hardware subgroup; never zero.
#[derive(Debug, Clone, Copy, PartialEq, Eq, Structural)]
pub struct SubgroupWidth(u16);

impl SubgroupWidth {
    /// The number of lanes.
    pub closed spec fn lanes(self) -> u16 {
        self.0
    }

    /// The width of `width` lanes; `None` for zero.
    pub fn new(width: u16) -> (r: Option<Self>)
        ensures
            r is Some <==> width != 0,
            r is Some ==> r->0.lanes() == width,
    {
        if width == 0 {
            None
        } else {
            Some(SubgroupWidth(width))
        }
    }

    /// Thirty-two lanes.
    pub fn wave32() -> (r: Self)
        ensures
            r.lanes() == 32,
    {
        SubgroupWidth(32)
    }

    /// Sixty-four lanes.
    pub fn wave64() -> (r: Self)
        ensures
            r.lanes() == 64,
    {
        SubgroupWidth(64)
    }

    /// The number of lanes.
    pub fn get(self) -> (r: u16)
        ensures
            r == self.lanes(),
    {
        self.0
    }
}

/// Two widths with the same number of lanes are the same width.
pub proof fn subgroup_width_is_its_lanes(a: SubgroupWidth, b: SubgroupWidth)
    requires
        a.lanes() == b.lanes(),
    ensures
        a == b,
{
}

/// The subgroup width that a kernel asks for.
#[derive(Debug, Clone, Copy, PartialEq, Eq, Structural)]
pub enum SubgroupRequirement {
    Agnostic,
    Exact(SubgroupWidth),
}

/// The architecture of a device.
#[derive(Debug, PartialEq, Eq)]
pub enum DeviceArchitecture {
    NvidiaSm(u16),
    AmdGfx(String),
}

impl Clone for DeviceArchitecture {
    fn clone(&self) -> (r: Self)
        ensures
            r == *self,
    {
        match self {
            DeviceArchitecture::NvidiaSm(sm) => DeviceArchitecture::NvidiaSm(*sm),
            DeviceArchitecture::AmdGfx(name) => DeviceArchitecture::AmdGfx(name.clone()),
        }
    }
}

/// The architecture that a kernel was compiled for.
#[derive(Debug, PartialEq, Eq)]
pub enum KernelTarget {
    NvidiaFatbin { minimum_sm: u16 },
    AmdGfx(String),
}

impl Clone for KernelTarget {
    fn clone(&self) -> (r: Self)
        ensures
            r == *self,
    {
        match self {
            KernelTarget::NvidiaFatbin { minimum_sm } => KernelTarget::NvidiaFatbin {
                minimum_sm: *minimum_sm,
            },
            KernelTarget::AmdGfx(name) => KernelTarget::AmdGfx(name.clone()),
        }
    }
}

/// The toolchain that compiled a kernel.
#[derive(Debug, Clone, Copy, PartialEq, Eq, Structural)]
pub enum Toolchain {
    Cuda { major: u16, minor: u16 },
    Rocm { major: u16, minor: u16 },
}

/// What a device can do.
#[derive(Debug, PartialEq, Eq)]
pub struct DeviceCapabilities {
    pub backend: ComputeBackendKind,
    pub architecture: DeviceArchitecture,
    pub native_subgroup_width: SubgroupWidth,
    pub supported_subgroup_widths: Vec<SubgroupWidth>,
    pub max_workgroup_size: u32,
    pub max_workgroup_dimensions: [u32; 3],
    pub shared_memory_per_workgroup: u64,
    pub total_memory_bytes: u64,
}

/// The attributes that a driver reports of a device.
#[derive(Debug, Clone, Copy, PartialEq, Eq)]
pub struct DeviceAttributes {
    pub major: i32,
    pub minor: i32,
    pub warp_size: i32,
    pub max_threads: i32,
    pub max_block: (i32, i32, i32),
    pub shared_memory: i32,
    pub total_memory: u64,
}

impl DeviceAttributes {
    /// The attributes are in the ranges that a device can have.
    pub open spec fn valid(self) -> bool {
        &&& 0 <= self.major <= u16::MAX
        &&& 0 <= self.minor <= u16::MAX
        &&& 0 < self.warp_size <= u16::MAX
        &&& 0 <= self.max_threads
        &&& 0 <= self.max_block.0
        &&& 0 <= self.max_block.1
        &&& 0 <= self.max_block.2
        &&& 0 <= self.shared_memory
    }
}

/// What a device can do, by the attributes that its driver reports. None where one is out of
/// range.
pub fn device_capabilities(attributes: DeviceAttributes) -> (r: Option<DeviceCapabilities>)
    requires
        attributes.major * 10 + attributes.minor <= u16::MAX,
    ensures
        match r {
            None => !attributes.valid(),
            Some(device) => {
                &&& attributes.valid()
                &&& device.backend == ComputeBackendKind::Cuda
                &&& device.architecture matches DeviceArchitecture::NvidiaSm(version) && version
                    == attributes.major * 10 + attributes.minor
                &&& device.native_subgroup_width.lanes() == attributes.warp_size
                &&& device.supported_subgroup_widths@ == seq![device.native_subgroup_width]
                &&& device.max_workgroup_size == attributes.max_threads
                &&& device.max_workgroup_dimensions@ == seq![
                    attributes.max_block.0 as u32,
                    attributes.max_block.1 as u32,
                    attributes.max_block.2 as u32,
                ]
                &&& device.shared_memory_per_workgroup == attributes.shared_memory
                &&& device.total_memory_bytes == attributes.total_memory
            },
        },
{
    let a = attributes;
    if a.major < 0 || a.major > 65535 || a.minor < 0 || a.minor > 65535 {
        return None;
    }
    if a.warp_size < 0 || a.warp_size > 65535 {
        return None;
    }
    let subgroup = match SubgroupWidth::new(a.warp_size as u16) {
        Some(subgroup) => subgroup,
        None => return None,
    };
    if a.max_threads < 0 || a.max_block.0 < 0 || a.max_block.1 < 0 || a.max_block.2 < 0
        || a.shared_memory < 0 {
        return None;
    }
    let version: u16 = (a.major * 10 + a.minor) as u16;
    let dimensions: [u32; 3] = [a.max_block.0 as u32, a.max_block.1 as u32, a.max_block.2 as u32];
    let widths: Vec<SubgroupWidth> = vec![subgroup];
    proof {
        assert(widths@ =~= seq![subgroup]);
        assert(dimensions@ =~= seq![
            attributes.max_block.0 as u32,
            attributes.max_block.1 as u32,
            attributes.max_block.2 as u32,
        ]);
    }
    Some(
        DeviceCapabilities {
            backend: ComputeBackendKind::Cuda,
            architecture: DeviceArchitecture::NvidiaSm(version),
            native_subgroup_width: subgroup,
            supported_subgroup_widths: widths,
            max_workgroup_size: a.max_threads as u32,
            max_workgroup_dimensions: dimensions,
            shared_memory_per_workgroup: a.shared_memory as u64,
            total_memory_bytes: a.total_memory,
        },
    )
}

/// The shape of one kernel launch.
#[derive(Debug, Clone, Copy, PartialEq, Eq)]
pub struct LaunchGeometry {
    pub workgroup: [u32; 3],
    pub dynamic_shared_memory_bytes: u64,
}

impl LaunchGeometry {
    /// A launch of the given workgroup and shared memory.
    pub fn new(workgroup: [u32; 3], dynamic_shared_memory_bytes: u64) -> (r: Self)
        ensures
            r.workgroup == workgroup,
            r.dynamic_shared_memory_bytes == dynamic_shared_memory_bytes,
    {
        LaunchGeometry { workgroup, dynamic_shared_memory_bytes }
    }

    /// The number of threads in a workgroup.
    pub open spec fn threads(self) -> int {
        self.workgroup@[0] as int * self.workgroup@[1] as int * self.workgroup@[2] as int
    }

    /// Every dimension is at least one and at most the device's.
    pub open spec fn dimensions_fit(self, maximum: Seq<u32>) -> bool {
        forall|i: int|
            0 <= i < 3 ==> 0 < #[trigger] self.workgroup@[i] && self.workgroup@[i] <= maximum[i]
    }
}

/// Immutable metadata of one compiled kernel.
#[derive(Debug, PartialEq, Eq)]
pub struct KernelArtifactDescriptor {
    pub name: &'static str,
    pub backend: ComputeBackendKind,
    pub toolchain: Toolchain,
    pub target: KernelTarget,
    pub subgroup: SubgroupRequirement,
}

/// Why a kernel cannot run on a device.
#[allow(inconsistent_fields)]
#[derive(Debug, PartialEq, Eq)]
pub enum CompatibilityError {
    BackendMismatch { required: ComputeBackendKind, actual: ComputeBackendKind },
    ArchitectureMismatch { required: KernelTarget, actual: DeviceArchitecture },
    SubgroupMismatch { required: SubgroupWidth, supported: Vec<SubgroupWidth> },
    WorkgroupTooLarge {
        requested: [u32; 3],
        maximum_threads: u32,
        maximum_dimensions: [u32; 3],
    },
    SharedMemoryTooLarge { requested: u64, maximum: u64 },
}

/// Code for `target` runs on `architecture`.
pub open spec fn target_runs_on(target: KernelTarget, architecture: DeviceArchitecture) -> bool {
    match (target, architecture) {
        (KernelTarget::NvidiaFatbin { minimum_sm }, DeviceArchitecture::NvidiaSm(actual)) => actual
            >= minimum_sm,
        (KernelTarget::AmdGfx(required), DeviceArchitecture::AmdGfx(actual)) => required@
            == actual@,
        _ => false,
    }
}

impl KernelArtifactDescriptor {
    /// The device offers the subgroup width that the kernel asks for.
    pub open spec fn subgroup_fits(self, device: DeviceCapabilities) -> bool {
        match self.subgroup {
            SubgroupRequirement::Agnostic => true,
            SubgroupRequirement::Exact(width) => device.supported_subgroup_widths@.contains(width),
        }
    }

    /// The launch stays within the device's workgroup limits.
    pub open spec fn workgroup_fits(device: DeviceCapabilities, launch: LaunchGeometry) -> bool {
        launch.dimensions_fit(device.max_workgroup_dimensions@) && launch.threads()
            <= device.max_workgroup_size
    }

    /// Validates immutable artifact and launch metadata before a module is loaded: backend,
    /// architecture, subgroup width, workgroup and shared memory, in this order.
    pub fn validate_for(
        &self,
        device: &DeviceCapabilities,
        launch: LaunchGeometry,
    ) -> (r: Result<(), CompatibilityError>)
        ensures
            match r {
                Ok(()) => {
                    &&& self.backend == device.backend
                    &&& target_runs_on(self.target, device.architecture)
                    &&& self.subgroup_fits(*device)
                    &&& Self::workgroup_fits(*device, launch)
                    &&& launch.dynamic_shared_memory_bytes <= device.shared_memory_per_workgroup
                },
                Err(CompatibilityError::BackendMismatch { required, actual }) => {
                    &&& self.backend != device.backend
                    &&& required == self.backend
                    &&& actual == device.backend
                },
                Err(CompatibilityError::ArchitectureMismatch { required, actual }) => {
                    &&& self.backend == device.backend
                    &&& !target_runs_on(self.target, device.architecture)
                    &&& required == self.target
                    &&& actual == device.architecture
                },
                Err(CompatibilityError::SubgroupMismatch { required, supported }) => {
                    &&& self.backend == device.backend
                    &&& target_runs_on(self.target, device.architecture)
                    &&& !self.subgroup_fits(*device)
                    &&& self.subgroup == SubgroupRequirement::Exact(required)
                    &&& supported@ == device.supported_subgroup_widths@
                },
                Err(
                    CompatibilityError::WorkgroupTooLarge {
                        requested,
                        maximum_threads,
                        maximum_dimensions,
                    },
                ) => {
                    &&& self.backend == device.backend
                    &&& target_runs_on(self.target, device.architecture)
                    &&& self.subgroup_fits(*device)
                    &&& !Self::workgroup_fits(*device, launch)
                    &&& requested == launch.workgroup
                    &&& maximum_threads == device.max_workgroup_size
                    &&& maximum_dimensions == device.max_workgroup_dimensions
                },
                Err(CompatibilityError::SharedMemoryTooLarge { requested, maximum }) => {
                    &&& self.backend == device.backend
                    &&& target_runs_on(self.target, device.architecture)
                    &&& self.subgroup_fits(*device)
                    &&& Self::workgroup_fits(*device, launch)
                    &&& launch.dynamic_shared_memory_bytes > device.shared_memory_per_workgroup
                    &&& requested == launch.dynamic_shared_memory_bytes
                    &&& maximum == device.shared_memory_per_workgroup
                },
            },
    {
        if self.backend != device.backend {
            return Err(
                CompatibilityError::BackendMismatch {
                    required: self.backend,
                    actual: device.backend,
                },
            );
        }
        let target_matches = match (&self.target, &device.architecture) {
            (
                KernelTarget::NvidiaFatbin { minimum_sm },
                DeviceArchitecture::NvidiaSm(actual),
            ) => *actual >= *minimum_sm,
            (KernelTarget::AmdGfx(required), DeviceArchitecture::AmdGfx(actual)) => same_text(
                required.as_str(),
                actual.as_str(),
            ),
            _ => false,
        };
        if !target_matches {
            return Err(
                CompatibilityError::ArchitectureMismatch {
                    required: self.target.clone(),
                    actual: device.architecture.clone(),
                },
            );
        }
        if let SubgroupRequirement::Exact(required) = self.subgroup {
            if !holds_width(&device.supported_subgroup_widths, required) {
                return Err(
                    CompatibilityError::SubgroupMismatch {
                        required,
                        supported: copy_widths(&device.supported_subgroup_widths),
                    },
                );
            }
        }
        let x: u32 = launch.workgroup[0];
        let y: u32 = launch.workgroup[1];
        let z: u32 = launch.workgroup[2];
        let dimensions_fit = x > 0 && x <= device.max_workgroup_dimensions[0] && y > 0 && y
            <= device.max_workgroup_dimensions[1] && z > 0 && z
            <= device.max_workgroup_dimensions[2];
        proof {
            assert(dimensions_fit == launch.dimensions_fit(device.max_workgroup_dimensions@)) by {
                assert(launch.workgroup@[0] == x && launch.workgroup@[1] == y
                    && launch.workgroup@[2] == z);
                if dimensions_fit {
                    assert forall|i: int| 0 <= i < 3 implies 0 < #[trigger] launch.workgroup@[i]
                        && launch.workgroup@[i] <= device.max_workgroup_dimensions@[i] by {
                        assert(i == 0 || i == 1 || i == 2);
                    }
                }
            }
            threads_fit(x, y, z);
        }
        let threads: u128 = x as u128 * y as u128 * z as u128;
        if !dimensions_fit || threads > device.max_workgroup_size as u128 {
            return Err(
                CompatibilityError::WorkgroupTooLarge {
                    requested: launch.workgroup,
                    maximum_threads: device.max_workgroup_size,
                    maximum_dimensions: device.max_workgroup_dimensions,
                },
            );
        }
        if launch.dynamic_shared_memory_bytes > device.shared_memory_per_workgroup {
            return Err(
                CompatibilityError::SharedMemoryTooLarge {
                    requested: launch.dynamic_shared_memory_bytes,
                    maximum: device.shared_memory_per_workgroup,
                },
            );
        }
        Ok(())
    }
}

/// The product of three dimensions is no number of more than 128 bits.
proof fn threads_fit(x: u32, y: u32, z: u32)
    ensures
        0 <= x as int * y as int <= u64::MAX,
        0 <= x as int * y as int * z as int <= u128::MAX,
{
    let plane = x as int * y as int;
    assert(0 <= plane <= 0xffff_ffff * 0xffff_ffff) by (nonlinear_arith)
        requires
            0 <= x <= 0xffff_ffff,
            0 <= y <= 0xffff_ffff,
            plane == x as int * y as int,
    ;
    assert(0 <= plane * z as int <= 0xffff_ffff_ffff_ffff * 0xffff_ffff) by (nonlinear_arith)
        requires
            0 <= plane <= 0xffff_ffff_ffff_ffff,
            0 <= z <= 0xffff_ffff,
    ;
}

fn holds_width(widths: &Vec<SubgroupWidth>, width: SubgroupWidth) -> (r: bool)
    ensures
        r == widths@.contains(width),
{
    let mut i: usize = 0;
    while i < widths.len()
        invariant
            i <= widths.len(),
            forall|j: int| 0 <= j < i ==> widths@[j] != width,
        decreases widths.len() - i,
    {
        if widths[i] == width {
            assert(widths@[i as int] == width);
            return true;
        }
        i = i + 1;
    }
    false
}

fn copy_widths(widths: &Vec<SubgroupWidth>) -> (r: Vec<SubgroupWidth>)
    ensures
        r@ == widths@,
{
    let mut r: Vec<SubgroupWidth> = Vec::new();
    let mut i: usize = 0;
    while i < widths.len()
        invariant
            i <= widths.len(),
            r@ == widths@.take(i as int),
        decreases widths.len() - i,
    {
        r.push(widths[i]);
        i = i + 1;
    }
    proof {
        assert(widths@.take(widths.len() as int) == widths@);
    }
    r
}

/// On CUDA, the provider that was asked for is tried first and CUDA itself is what is left.
pub proof fn chosen_provider_comes_first(provider: InferenceProvider)
    requires
        provider.backend() is Cuda,
    ensures
        ({
            let chain = provider_chain(ComputeBackendKind::Cuda, provider);
            &&& 1 <= chain.len() <= 2
            &&& chain[0] == provider
            &&& chain.last() is Cuda
        }),
        provider is Cuda || provider is TensorRt,
{
}

/// A kernel for NVIDIA devices runs on every device from the one it was built for on and on no
/// older one; a kernel for AMD devices runs on the one it was built for. Neither runs on the other
/// maker's.
pub proof fn kernels_run_on_their_devices(minimum: u16, actual: u16, gfx: String, device: String)
    ensures
        target_runs_on(
            KernelTarget::NvidiaFatbin { minimum_sm: minimum },
            DeviceArchitecture::NvidiaSm(actual),
        ) <==> minimum <= actual,
        target_runs_on(KernelTarget::AmdGfx(gfx), DeviceArchitecture::AmdGfx(device)) <==> gfx@
            == device@,
        !target_runs_on(
            KernelTarget::NvidiaFatbin { minimum_sm: minimum },
            DeviceArchitecture::AmdGfx(device),
        ),
        !target_runs_on(KernelTarget::AmdGfx(gfx), DeviceArchitecture::NvidiaSm(actual)),
{
}

} // verus!
