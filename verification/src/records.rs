//! The records that credential stores, configuration managers, audit logs
//! and transports exchange with the rest of the system.

use crate::types::{Timestamp, TransportType};
use std::collections::HashMap;
use vstd::prelude::*;

verus! {

/// Storage statistics.
#[derive(Debug, Clone)]
pub struct StorageStats {
    pub total_credentials: u64,
    pub storage_used: u64,
    pub storage_available: u64,
    pub last_cleanup: Timestamp,
}

/// PIN complexity requirements.
#[derive(Debug, Clone)]
pub struct PinComplexity {
    pub min_length: u32,
    pub max_length: u32,
    pub require_digits: bool,
    pub require_special_chars: bool,
}

/// Security policies configuration.
#[derive(Debug, Clone)]
pub struct SecurityPolicies {
    pub require_pin: bool,
    pub require_user_verification: bool,
    pub max_pin_attempts: u32,
    pub pin_complexity: PinComplexity,
}

/// Application configuration.
#[derive(Debug, Clone)]
pub struct AppConfig {
    pub auto_discovery: bool,
    pub default_timeout: u64,
    pub log_level: String,
    pub ui_theme: String,
    pub security_policies: SecurityPolicies,
}

/// Types of security events.
#[derive(Debug, Clone)]
pub enum EventType {
    DeviceConnected,
    DeviceDisconnected,
    CredentialCreated,
    AuthenticationSucceeded,
    AuthenticationFailed,
    PinChanged,
    DeviceReset,
    ConfigurationChanged,
    SecurityViolation,
}

/// Security event for audit logging.
#[derive(Debug, Clone)]
pub struct SecurityEvent {
    pub timestamp: Timestamp,
    pub event_type: EventType,
    pub device_id: Option<String>,
    pub user_id: Option<String>,
    pub details: HashMap<String, String>,
}

/// Log levels, from the least to the most severe.
#[derive(Debug, Clone, PartialEq, Eq, PartialOrd, Ord)]
pub enum LogLevel {
    Trace,
    Debug,
    Info,
    Warn,
    Error,
}

/// Log entry structure.
#[derive(Debug, Clone)]
pub struct LogEntry {
    pub id: String,
    pub timestamp: Timestamp,
    pub level: LogLevel,
    pub message: String,
    pub metadata: HashMap<String, String>,
}

/// Log filtering criteria.
#[derive(Debug, Clone)]
pub struct LogFilter {
    pub start_time: Option<Timestamp>,
    pub end_time: Option<Timestamp>,
    pub level: Option<LogLevel>,
    pub device_id: Option<String>,
    pub event_type: Option<EventType>,
}

/// Transport properties.
#[derive(Debug, Clone)]
pub struct TransportProperties {
    pub max_packet_size: usize,
    pub supports_fragmentation: bool,
    pub connection_type: TransportType,
    pub latency_ms: Option<u64>,
}

/// The greatest message that a device takes, unless the device says
/// otherwise: the CTAP2 default.
pub const DEFAULT_MAX_MESSAGE_SIZE: usize = 7609;

/// The bound on one operation of a device, in seconds, unless the device
/// says otherwise.
pub const DEFAULT_OPERATION_TIMEOUT_SECS: u64 = 30;

} // verus!
