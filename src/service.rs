
pub mod geyser_processor;
pub mod geyser_subscriber;
pub mod liquidation_service;
