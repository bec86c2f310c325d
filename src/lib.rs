//! Core of a handheld TOTP token: PIN entry state machine, HMAC-SHA1 TOTP
//! generation and PIN-keyed AES-CTR decryption of the stored secrets.

pub mod device;
pub mod mode;
pub mod secrets;
pub mod totp;
