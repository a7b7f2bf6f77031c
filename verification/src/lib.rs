//! Sensor-fusion engine for a hardware telemetry threat monitor.
//!
//! The crate models each telemetry source (microphone spectrum, CPU/thermal
//! behaviour, process/USB activity, mail-derived URLs) as a monitor with a
//! bounded history and a 0-100 score, and fuses the current scores into a
//! combined score.  All magnitudes and temperatures are fixed-point integers:
//! spectrum values are scaled by 1_000_000, temperatures are centi-degrees,
//! CPU utilisation is centi-percent.  The I/O edges (audio capture, shell
//! telemetry, IMAP, desktop notifications) live outside this crate and hand
//! plain values in.

pub mod email;
pub mod fusion;
pub mod history;
pub mod kernel;
pub mod lifecycle;
pub mod mic;
pub mod notification;
pub mod random;
pub mod spectral;
pub mod text;
pub mod thermal;

pub use email::EmailMonitor;
pub use fusion::FusedSnapshot;
pub use fusion::FusionEngine;
pub use history::History;
pub use kernel::KernelMonitor;
pub use lifecycle::Lifecycle;
pub use mic::MicMonitor;
pub use notification::NotificationManager;
pub use spectral::SpectralAnalyzer;
pub use thermal::ThermalMonitor;
