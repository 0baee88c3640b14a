use vstd::prelude::*;

verus! {

/// One vendor device reading: utilization percentage, the temperature at the
/// time of the read, and the running-maximum temperature. The running maximum
/// is the only cross-call state and is carried forward by the caller.
#[derive(Clone, Copy, Debug, PartialEq, Eq, Structural)]
pub struct DeviceParameters {
    pub usage_percentage: u32,
    pub current_temperature: u32,
    pub max_temperature: u32,
}

/// A hardware query failure. Unlike telemetry fetch failures, these are
/// surfaced to the caller: "no metrics available" must stay distinguishable
/// from "zero usage".
#[derive(Clone, Copy, Debug, PartialEq, Eq, Structural)]
pub enum HardwareQueryError {
    /// The vendor management library could not be initialized.
    InitFailed,
    /// No device was found at the queried index.
    DeviceUnavailable,
    /// The utilization-rates query failed.
    UtilizationUnavailable,
    /// The temperature query failed.
    TemperatureUnavailable,
}

/// The operating system the process runs on, detected by the caller.
#[derive(Clone, Copy, Debug, PartialEq, Eq, Structural)]
pub enum OperatingSystem {
    Windows,
    Linux,
    MacOS,
}

#[verifier::external_type_specification]
#[verifier::external_body]
pub struct ExNvml(nvml_wrapper::Nvml);

#[verifier::external_type_specification]
#[verifier::external_body]
pub struct ExDevice<'a>(nvml_wrapper::Device<'a>);

#[verifier::external_type_specification]
#[verifier::external_body]
pub struct ExNvmlError(nvml_wrapper::error::NvmlError);

/// Relies on nvml_wrapper::Nvml::init: loads and initializes the vendor
/// management library; whether it succeeds depends on the machine, so nothing
/// more is promised of the outcome.
#[verifier::external_body]
fn nvml_init() -> Option<nvml_wrapper::Nvml> {
    nvml_wrapper::Nvml::init().ok()
}

/// Relies on nvml_wrapper::Nvml::device_by_index: hands out a device handle
/// for the given index, or the vendor error; which depends on the machine.
#[verifier::external_body]
fn nvml_device_by_index(
    nvml: &nvml_wrapper::Nvml,
    index: u32,
) -> Result<nvml_wrapper::Device<'_>, nvml_wrapper::error::NvmlError> {
    nvml.device_by_index(index)
}

/// Relies on nvml_wrapper::Device::utilization_rates: returns the device's
/// utilization sample, whose `gpu` field is a percentage; the value depends on
/// the machine's momentary load.
#[verifier::external_body]
fn nvml_gpu_utilization(
    device: &nvml_wrapper::Device<'_>,
) -> Result<u32, nvml_wrapper::error::NvmlError> {
    device.utilization_rates().map(|u| u.gpu)
}

/// Relies on nvml_wrapper::Device::temperature with the GPU-die sensor: the
/// current temperature in degrees Celsius; the value depends on the machine.
#[verifier::external_body]
fn nvml_gpu_temperature(
    device: &nvml_wrapper::Device<'_>,
) -> Result<u32, nvml_wrapper::error::NvmlError> {
    device.temperature(nvml_wrapper::enum_wrappers::device::TemperatureSensor::Gpu)
}

/// The running maximum after merging one fresh temperature into an optional
/// previous reading.
pub open spec fn spec_merged_max(previous: Option<DeviceParameters>, current: u32) -> u32 {
    match previous {
        Option::None => current,
        Option::Some(p) => if p.max_temperature >= current {
            p.max_temperature
        } else {
            current
        },
    }
}

/// Merges a fresh reading with the previous one: the running maximum
/// temperature is the larger of the previous maximum and the fresh
/// temperature; usage and current temperature are taken from the fresh read.
pub fn merge_device_parameters(
    previous: Option<DeviceParameters>,
    usage_percentage: u32,
    current_temperature: u32,
) -> (r: DeviceParameters)
    ensures
        r.usage_percentage == usage_percentage,
        r.current_temperature == current_temperature,
        r.max_temperature == spec_merged_max(previous, current_temperature),
{
    let max_temperature = match previous {
        Option::None => current_temperature,
        Option::Some(p) => if p.max_temperature >= current_temperature {
            p.max_temperature
        } else {
            current_temperature
        },
    };
    DeviceParameters { usage_percentage, current_temperature, max_temperature }
}

/// The running maximum after a whole sequence of reads, each fed the previous
/// reading's maximum, starting from an optional prior maximum.
pub open spec fn spec_running_max(previous: Option<u32>, temps: Seq<u32>) -> Option<u32>
    decreases temps.len(),
{
    if temps.len() == 0 {
        previous
    } else {
        let merged = match previous {
            Option::None => temps[0],
            Option::Some(p) => if p >= temps[0] {
                p
            } else {
                temps[0]
            },
        };
        spec_running_max(Option::Some(merged), temps.skip(1))
    }
}

/// Law: for any sequence of current temperatures, including decreasing ones,
/// the running maximum that a caller threads through successive reads never
/// decreases below where it started.
pub proof fn lemma_running_max_monotonic(start: u32, temps: Seq<u32>)
    ensures
        spec_running_max(Option::Some(start), temps) matches Option::Some(m) && m >= start,
    decreases temps.len(),
{
    if temps.len() > 0 {
        let merged: u32 = if start >= temps[0] {
            start
        } else {
            temps[0]
        };
        lemma_running_max_monotonic(merged, temps.skip(1));
    }
}

/// Law: the running maximum is monotonic non-decreasing across a sequence of
/// reads: after any longer prefix of the same reads it is at least what it was
/// after any shorter prefix.
pub proof fn lemma_running_max_prefix_monotonic(start: u32, temps: Seq<u32>, i: int, j: int)
    requires
        0 <= i <= j <= temps.len(),
    ensures
        spec_running_max(Option::Some(start), temps.take(i)) matches Option::Some(mi)
            && spec_running_max(Option::Some(start), temps.take(j)) matches Option::Some(mj)
            && mi <= mj,
    decreases j - i,
{
    lemma_running_max_monotonic(start, temps.take(i));
    lemma_running_max_monotonic(start, temps.take(j));
    if i < j {
        lemma_running_max_append_one(start, temps, i);
        let mi = spec_running_max(Option::Some(start), temps.take(i))->Some_0;
        let one = seq![temps[i]];
        let merged: u32 = if mi >= temps[i] {
            mi
        } else {
            temps[i]
        };
        assert(one.skip(1) =~= Seq::<u32>::empty());
        assert(spec_running_max(Option::Some(merged), one.skip(1)) == Option::Some(merged));
        assert(spec_running_max(Option::Some(start), temps.take(i + 1)) == Option::Some(merged));
        lemma_running_max_prefix_monotonic(start, temps, i + 1, j);
    }
}

/// Extending a prefix of reads by one read merges that read's temperature
/// into the running maximum.
proof fn lemma_running_max_append_one(start: u32, temps: Seq<u32>, i: int)
    requires
        0 <= i < temps.len(),
    ensures
        spec_running_max(Option::Some(start), temps.take(i)) matches Option::Some(mi)
            && spec_running_max(Option::Some(start), temps.take(i + 1))
            == spec_running_max(Option::Some(mi), seq![temps[i]]),
    decreases i,
{
    lemma_running_max_monotonic(start, temps.take(i));
    if i == 0 {
        assert(temps.take(0) =~= Seq::<u32>::empty());
        assert(temps.take(1) =~= seq![temps[0]]);
    } else {
        let merged: u32 = if start >= temps[0] {
            start
        } else {
            temps[0]
        };
        assert(temps.take(i).skip(1) =~= temps.skip(1).take(i - 1));
        assert(temps.take(i + 1).skip(1) =~= temps.skip(1).take(i));
        assert(temps.skip(1)[i - 1] == temps[i]);
        lemma_running_max_append_one(merged, temps.skip(1), i - 1);
    }
}

/// The capability every hardware backend exposes: a platform probe and a
/// stateless read that merges the caller's previous reading into the running
/// maximum. Callers select backends through this interface alone.
pub trait GpuParametersReader {
    /// Whether this backend can run on the given platform.
    fn get_is_reader_implemented(&self, os: OperatingSystem) -> bool;

    /// Reads current device parameters. On success the running maximum is
    /// the previous maximum merged with the fresh temperature.
    fn get_device_parameters(
        &self,
        old_device_parameters: Option<DeviceParameters>,
    ) -> (r: Result<DeviceParameters, HardwareQueryError>)
        ensures
            r matches Ok(p) ==> p.max_temperature == spec_merged_max(
                old_device_parameters,
                p.current_temperature,
            ),
            r matches Ok(p) ==> (old_device_parameters matches Some(prev) ==> p.max_temperature
                >= prev.max_temperature),
            r matches Ok(p) ==> p.max_temperature >= p.current_temperature,
    ;
}

/// Reader backend for NVIDIA devices, one variant of the pluggable
/// hardware-metrics capability.
#[derive(Clone, Copy)]
pub struct NvidiaGpuReader {}

impl NvidiaGpuReader {
    pub fn new() -> (r: Self) {
        NvidiaGpuReader {  }
    }

    /// Relies on nvml_wrapper::Nvml::init through `nvml_init`: a handle when
    /// the vendor library is present and initializes, None otherwise.
    pub fn init_nvml(&self) -> Option<nvml_wrapper::Nvml> {
        nvml_init()
    }
}

impl GpuParametersReader for NvidiaGpuReader {
    /// Never available on macOS; on Windows and Linux, exactly when the
    /// vendor management library initializes.
    fn get_is_reader_implemented(&self, os: OperatingSystem) -> (r: bool)
        ensures
            os == OperatingSystem::MacOS ==> r == false,
    {
        match os {
            OperatingSystem::MacOS => false,
            OperatingSystem::Windows => self.init_nvml().is_some(),
            OperatingSystem::Linux => self.init_nvml().is_some(),
        }
    }

    /// Reads the first enumerated device only; every failure is surfaced as
    /// the step that failed, never defaulted.
    fn get_device_parameters(
        &self,
        old_device_parameters: Option<DeviceParameters>,
    ) -> (r: Result<DeviceParameters, HardwareQueryError>)
    {
        let nvml = match self.init_nvml() {
            Option::Some(nvml) => nvml,
            Option::None => {
                return Err(HardwareQueryError::InitFailed);
            },
        };
        let main_device = match nvml_device_by_index(&nvml, 0) {
            Ok(d) => d,
            Err(_) => {
                return Err(HardwareQueryError::DeviceUnavailable);
            },
        };
        let usage_percentage = match nvml_gpu_utilization(&main_device) {
            Ok(u) => u,
            Err(_) => {
                return Err(HardwareQueryError::UtilizationUnavailable);
            },
        };
        let current_temperature = match nvml_gpu_temperature(&main_device) {
            Ok(t) => t,
            Err(_) => {
                return Err(HardwareQueryError::TemperatureUnavailable);
            },
        };
        Ok(merge_device_parameters(old_device_parameters, usage_percentage, current_temperature))
    }
}

} // verus!
