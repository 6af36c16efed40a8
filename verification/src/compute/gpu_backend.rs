//! GPU acceleration: which backend a machine's capabilities select, and
//! when a state is large enough to be worth moving to the GPU.
//!
//! Probing the machine (environment variables, library files) is the
//! caller's part; the capabilities are built here from its answers.

use vstd::prelude::*;

verus! {

/// GPU backend type
#[derive(Debug, Clone, Copy, PartialEq, Eq, Structural)]
pub enum GpuBackend {
    /// No GPU acceleration
    NoGpu,
    Cuda,
    OpenCL,
    ComputeShader,
}

/// Display text of a backend.
pub open spec fn gpu_backend_text(b: GpuBackend) -> Seq<char> {
    match b {
        GpuBackend::NoGpu => "无GPU加速"@,
        GpuBackend::Cuda => "CUDA"@,
        GpuBackend::OpenCL => "OpenCL"@,
        GpuBackend::ComputeShader => "计算着色器"@,
    }
}

impl GpuBackend {
    /// Human-readable name of the backend
    pub fn to_string(&self) -> (r: String)
        ensures
            r@ == gpu_backend_text(*self),
    {
        match self {
            GpuBackend::NoGpu => String::from_str("无GPU加速"),
            GpuBackend::Cuda => String::from_str("CUDA"),
            GpuBackend::OpenCL => String::from_str("OpenCL"),
            GpuBackend::ComputeShader => String::from_str("计算着色器"),
        }
    }
}

/// 4.0, the memory in GB assumed for a device.
pub const ASSUMED_MEMORY_GB: u64 = 0x4010000000000000u64;

/// GPU capability information; the memory is the binary64 encoding of
/// gigabytes.
#[derive(Debug, Clone, Copy, PartialEq, Eq, Structural)]
pub struct GpuCapability {
    pub has_cuda: bool,
    pub has_opencl: bool,
    pub has_compute_shader: bool,
    pub device_count: usize,
    pub memory_gb: u64,
}

impl GpuCapability {
    /// The capabilities found by the probes: one device when CUDA or OpenCL
    /// is present, none otherwise, with 4 GB assumed
    pub fn from_probes(has_cuda: bool, has_opencl: bool, has_compute_shader: bool) -> (r: Self)
        ensures
            r == (GpuCapability {
                has_cuda,
                has_opencl,
                has_compute_shader,
                device_count: if has_cuda || has_opencl { 1 } else { 0 },
                memory_gb: ASSUMED_MEMORY_GB,
            }),
    {
        GpuCapability {
            has_cuda,
            has_opencl,
            has_compute_shader,
            device_count: if has_cuda || has_opencl { 1 } else { 0 },
            memory_gb: ASSUMED_MEMORY_GB,
        }
    }

    /// Whether any GPU backend is present
    pub fn is_available(&self) -> (r: bool)
        ensures
            r == (self.has_cuda || self.has_opencl || self.has_compute_shader),
    {
        self.has_cuda || self.has_opencl || self.has_compute_shader
    }

    /// The preferred backend present: CUDA, then OpenCL, then compute shaders
    pub fn best_backend(&self) -> (r: GpuBackend)
        ensures
            r == (if self.has_cuda {
                GpuBackend::Cuda
            } else if self.has_opencl {
                GpuBackend::OpenCL
            } else if self.has_compute_shader {
                GpuBackend::ComputeShader
            } else {
                GpuBackend::NoGpu
            }),
    {
        if self.has_cuda {
            GpuBackend::Cuda
        } else if self.has_opencl {
            GpuBackend::OpenCL
        } else if self.has_compute_shader {
            GpuBackend::ComputeShader
        } else {
            GpuBackend::NoGpu
        }
    }
}

/// Whether a state of `state_size` amplitudes is worth moving to the GPU:
/// from 4096 amplitudes (12 qubits) on
pub fn should_use_gpu(state_size: usize) -> (r: bool)
    ensures
        r == (state_size >= 4096),
{
    state_size >= 4096
}

} // verus!
