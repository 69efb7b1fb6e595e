pub mod table;
pub mod vpn_client;
pub mod vpn_service;
pub mod vpn_worker;
