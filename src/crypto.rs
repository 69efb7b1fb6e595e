pub mod encryption;
pub mod key_exchange;

pub use encryption::EncryptionManager;
