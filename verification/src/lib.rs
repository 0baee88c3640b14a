pub mod digits;
pub mod hardware;
pub mod launch;
pub mod status;
pub mod telemetry;
