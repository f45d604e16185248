//! The collectors, one module for each source of readings.

pub mod amd_radeontop;
pub mod hddtemp;
pub mod lm_sensors;
pub mod nvidia;
pub mod nzxt_aio;
pub mod proc_meminfo;
pub mod proc_netdev;
pub mod proc_stat;
