pub mod ahrs_message;
pub mod traffic_report;
