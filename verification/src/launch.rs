use vstd::prelude::*;

use crate::digits::{dec_u64_string, push_dec_u64, spec_dec};
use crate::status::{GpuMinerStatusMonitor, StatusBroadcast};

verus! {

/// Base per-device thread count that the usage percentage scales.
pub const DEFAULT_GPU_THREADS: u32 = 8196;

/// Where the worker gets its chain state from. The descriptor must be
/// present before a launch spec can be built.
pub enum GpuNodeSource {
    BaseNode { grpc_address: String },
}

/// The compute engine the worker is asked to use.
#[derive(Clone, Copy, Debug, PartialEq, Eq, Structural)]
pub enum EngineType {
    OpenCL,
    Cuda,
    Metal,
}

/// The network the worker mines on: a closed set, each with its own short
/// environment code.
#[derive(Clone, Copy, Debug, PartialEq, Eq, Structural)]
pub enum MinerNetwork {
    MainNet,
    StageNet,
    NextNet,
    Esmeralda,
    Igor,
    LocalNet,
}

/// One configured device; the launch spec derives one grid-size entry per
/// device, in list order.
#[derive(Clone, Debug)]
pub struct GpuDevice {
    pub device_index: u32,
    pub name: String,
}

/// A launch-spec failure: fatal to the spawn attempt, surfaced immediately,
/// never retried automatically.
#[derive(Clone, Copy, Debug, PartialEq, Eq, Structural)]
pub enum ConfigurationError {
    /// The node-source descriptor is absent.
    NodeSourceMissing,
}

/// The fully resolved invocation of the worker process, handed to the
/// caller's process runtime.
pub struct ProcessStartupSpec {
    pub file_path: String,
    pub envs: Vec<(String, String)>,
    pub args: Vec<String>,
    pub data_dir: String,
    pub pid_file_name: String,
    pub name: String,
}

pub open spec fn spec_engine_name(engine: EngineType) -> Seq<char> {
    match engine {
        EngineType::OpenCL => "OpenCL"@,
        EngineType::Cuda => "CUDA"@,
        EngineType::Metal => "Metal"@,
    }
}

/// The engine name as it is passed on the worker's command line.
pub fn engine_name(engine: EngineType) -> (s: String)
    ensures
        s@ == spec_engine_name(engine),
{
    match engine {
        EngineType::OpenCL => "OpenCL".to_owned(),
        EngineType::Cuda => "CUDA".to_owned(),
        EngineType::Metal => "Metal".to_owned(),
    }
}

pub open spec fn spec_network_code(network: MinerNetwork) -> Seq<char> {
    match network {
        MinerNetwork::MainNet => "mainnet"@,
        MinerNetwork::StageNet => "stagenet"@,
        MinerNetwork::NextNet => "nextnet"@,
        MinerNetwork::Esmeralda => "esme"@,
        MinerNetwork::Igor => "igor"@,
        MinerNetwork::LocalNet => "localnet"@,
    }
}

/// The short environment code of a network: a closed one-to-one mapping.
pub fn network_code(network: MinerNetwork) -> (s: String)
    ensures
        s@ == spec_network_code(network),
{
    match network {
        MinerNetwork::MainNet => "mainnet".to_owned(),
        MinerNetwork::StageNet => "stagenet".to_owned(),
        MinerNetwork::NextNet => "nextnet".to_owned(),
        MinerNetwork::Esmeralda => "esme".to_owned(),
        MinerNetwork::Igor => "igor".to_owned(),
        MinerNetwork::LocalNet => "localnet".to_owned(),
    }
}

/// The per-device thread count: the base thread count scaled by the usage
/// percentage, with saturating multiplication, then divided by one hundred.
pub open spec fn spec_grid_value(usage_percentage: u32) -> u32 {
    let m = DEFAULT_GPU_THREADS * usage_percentage;
    let sat: u32 = if m > u32::MAX {
        u32::MAX
    } else {
        m as u32
    };
    sat / 100
}

/// The grid-size argument for `n` devices: one value per device, joined with
/// commas, empty when there is no device.
pub open spec fn spec_grid_size(n: nat, usage_percentage: u32) -> Seq<char>
    decreases n,
{
    if n == 0 {
        Seq::empty()
    } else if n == 1 {
        spec_dec(spec_grid_value(usage_percentage) as nat)
    } else {
        spec_grid_size((n - 1) as nat, usage_percentage) + ","@ + spec_dec(
            spec_grid_value(usage_percentage) as nat,
        )
    }
}

/// Builds the grid-size string: exactly `n_devices` comma-separated decimal
/// values, each the saturating product of the base thread count and the
/// usage percentage, divided by one hundred.
pub fn grid_size_string(n_devices: usize, usage_percentage: u32) -> (s: String)
    ensures
        s@ == spec_grid_size(n_devices as nat, usage_percentage),
{
    let v: u32 = match DEFAULT_GPU_THREADS.checked_mul(usage_percentage) {
        Option::Some(x) => x,
        Option::None => u32::MAX,
    } / 100;
    proof {
        assert(v == spec_grid_value(usage_percentage));
        reveal_strlit(",");
    }
    let mut out = String::new();
    let mut k: usize = 0;
    while k < n_devices
        invariant
            k <= n_devices,
            v == spec_grid_value(usage_percentage),
            out@ == spec_grid_size(k as nat, usage_percentage),
            ","@ =~= seq![','],
        decreases n_devices - k,
    {
        if k > 0 {
            out.append(",");
        }
        push_dec_u64(v as u64, &mut out);
        k += 1;
        proof {
            assert(out@ =~= spec_grid_size(k as nat, usage_percentage));
        }
    }
    out
}

/// Concatenation of two path pieces, as strings.
fn concat_str(a: &str, b: &str) -> (s: String)
    ensures
        s@ == a@ + b@,
{
    let mut out = a.to_owned();
    out.append(b);
    out
}

/// Adapter that owns the launch configuration for one worker and the
/// writing side of the latest-telemetry slot.
pub struct GpuMinerAdapter {
    /// The receiving address, already rendered in base58.
    pub tari_address_base58: String,
    pub node_source: Option<GpuNodeSource>,
    pub coinbase_extra: String,
    pub gpu_devices: Vec<GpuDevice>,
    pub gpu_usage_percentage: u32,
    pub gpu_raw_status_broadcast: StatusBroadcast,
    pub current_selected_engine: EngineType,
    pub http_api_port: u16,
}

/// The ordered argument list of a launch spec built from the given pieces.
pub open spec fn spec_spawn_args(
    address: Seq<char>,
    node_url: Seq<char>,
    config_dir: Seq<char>,
    port: u16,
    grid: Seq<char>,
    log_dir: Seq<char>,
    engine: EngineType,
    coinbase: Seq<char>,
) -> Seq<Seq<char>> {
    seq![
        "--tari-address"@,
        address,
        "--tari-node-url"@,
        node_url,
        "--config"@,
        config_dir + "/gpuminer/config.json"@,
        "--http-server-port"@,
        spec_dec(port as nat),
        "--grid-size"@,
        grid,
        "--log-config-file"@,
        config_dir + "/gpuminer/log4rs_config.yml"@,
        "--gpu-status-file"@,
        config_dir + "/gpuminer/engine_statuses"@,
        "--log-dir"@,
        log_dir,
        "--template-timeout-secs"@,
        "5"@,
        "--engine"@,
        spec_engine_name(engine),
        "--coinbase-extra"@,
        coinbase,
    ]
}

impl GpuMinerAdapter {
    /// A fresh adapter for the given devices, publishing on the given slot
    /// and answering telemetry on the given local port. Address, node source,
    /// usage and engine start at their defaults and are set by the caller
    /// before a spawn.
    pub fn new(
        gpu_devices: Vec<GpuDevice>,
        gpu_raw_status_broadcast: StatusBroadcast,
        http_api_port: u16,
    ) -> (r: GpuMinerAdapter)
        ensures
            r.tari_address_base58@ == Seq::<char>::empty(),
            r.node_source is None,
            r.coinbase_extra@ == "tari-universe"@,
            r.gpu_devices == gpu_devices,
            r.gpu_usage_percentage == 0,
            r.current_selected_engine == EngineType::OpenCL,
            r.http_api_port == http_api_port,
            r.gpu_raw_status_broadcast == gpu_raw_status_broadcast,
    {
        GpuMinerAdapter {
            tari_address_base58: String::new(),
            node_source: Option::None,
            coinbase_extra: "tari-universe".to_owned(),
            gpu_devices,
            gpu_usage_percentage: 0,
            gpu_raw_status_broadcast,
            current_selected_engine: EngineType::OpenCL,
            http_api_port,
        }
    }

    pub fn name(&self) -> (s: &str)
        ensures
            s@ == "glytex"@,
    {
        "glytex"
    }

    pub fn pid_file_name(&self) -> (s: &str)
        ensures
            s@ == "glytex_pid"@,
    {
        "glytex_pid"
    }

    /// Builds the launch spec and a status monitor bound to the same port
    /// and the same latest-telemetry slot. Fails, before any other work,
    /// exactly when the node source is absent; this function touches no
    /// filesystem — directory creation is the caller's step and happens only
    /// after success. The caller supplies the network it runs on.
    pub fn spawn_inner(
        &self,
        data_dir: &str,
        config_dir: &str,
        log_dir: &str,
        binary_version_path: &str,
        network: MinerNetwork,
    ) -> (r: Result<(ProcessStartupSpec, GpuMinerStatusMonitor), ConfigurationError>)
        ensures
            r is Err <==> self.node_source is None,
            r matches Err(e) ==> e == ConfigurationError::NodeSourceMissing,
            r matches Ok(p) ==> ({
                &&& p.0.args@.map_values(|a: String| a@) == spec_spawn_args(
                    self.tari_address_base58@,
                    self.node_source->Some_0->BaseNode_grpc_address@,
                    config_dir@,
                    self.http_api_port,
                    spec_grid_size(self.gpu_devices@.len(), self.gpu_usage_percentage),
                    log_dir@,
                    self.current_selected_engine,
                    self.coinbase_extra@,
                )
                &&& p.0.envs@.len() == 1
                &&& p.0.envs@[0].0@ == "TARI_NETWORK"@
                &&& p.0.envs@[0].1@ == spec_network_code(network)
                &&& p.0.file_path@ == binary_version_path@
                &&& p.0.data_dir@ == data_dir@
                &&& p.0.pid_file_name@ == "glytex_pid"@
                &&& p.0.name@ == "glytex"@
                &&& p.1.http_api_port == self.http_api_port
                &&& p.1.gpu_raw_status_broadcast.published_log@ == Seq::<
                    Option<crate::status::GpuMinerStatus>,
                >::empty()
            }),
    {
        let tari_node_address = match &self.node_source {
            Option::Some(GpuNodeSource::BaseNode { grpc_address }) => grpc_address,
            Option::None => {
                return Result::Err(ConfigurationError::NodeSourceMissing);
            },
        };

        let grid_size = grid_size_string(self.gpu_devices.len(), self.gpu_usage_percentage);

        let mut args: Vec<String> = Vec::new();
        args.push("--tari-address".to_owned());
        args.push(self.tari_address_base58.clone());
        args.push("--tari-node-url".to_owned());
        args.push(tari_node_address.clone());
        args.push("--config".to_owned());
        args.push(concat_str(config_dir, "/gpuminer/config.json"));
        args.push("--http-server-port".to_owned());
        args.push(dec_u64_string(self.http_api_port as u64));
        args.push("--grid-size".to_owned());
        args.push(grid_size);
        args.push("--log-config-file".to_owned());
        args.push(concat_str(config_dir, "/gpuminer/log4rs_config.yml"));
        args.push("--gpu-status-file".to_owned());
        args.push(concat_str(config_dir, "/gpuminer/engine_statuses"));
        args.push("--log-dir".to_owned());
        args.push(log_dir.to_owned());
        args.push("--template-timeout-secs".to_owned());
        args.push("5".to_owned());
        args.push("--engine".to_owned());
        args.push(engine_name(self.current_selected_engine));
        args.push("--coinbase-extra".to_owned());
        args.push(self.coinbase_extra.clone());

        let mut envs: Vec<(String, String)> = Vec::new();
        envs.push(("TARI_NETWORK".to_owned(), network_code(network)));

        proof {
            assert(args@.map_values(|a: String| a@) =~= spec_spawn_args(
                self.tari_address_base58@,
                self.node_source->Some_0->BaseNode_grpc_address@,
                config_dir@,
                self.http_api_port,
                spec_grid_size(self.gpu_devices@.len(), self.gpu_usage_percentage),
                log_dir@,
                self.current_selected_engine,
                self.coinbase_extra@,
            ));
        }

        Result::Ok(
            (
                ProcessStartupSpec {
                    file_path: binary_version_path.to_owned(),
                    envs,
                    args,
                    data_dir: data_dir.to_owned(),
                    pid_file_name: "glytex_pid".to_owned(),
                    name: "glytex".to_owned(),
                },
                GpuMinerStatusMonitor {
                    http_api_port: self.http_api_port,
                    gpu_raw_status_broadcast: self.gpu_raw_status_broadcast.clone_handle(),
                },
            ),
        )
    }
}

} // verus!
