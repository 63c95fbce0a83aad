//! The agent's secret key: a random 32-byte key, kept as hex text in the
//! agent's configuration and created when the configuration has none.
use vstd::prelude::*;
use crate::models::{AppConfig, AppConfigView};
use crate::signing::hex_encode;
use rand::TryRng;

verus! {

/// Fills 32 bytes from the operating system's random source
/// (`rand::rngs::SysRng` through `TryRng::try_fill_bytes`), or gives `None`
/// when that source reports an error. The bytes are random: only their number
/// is stated.
#[verifier::external_body]
fn random_key_bytes() -> (k: Option<Vec<u8>>)
    ensures
        k matches Some(b) ==> b@.len() == 32,
{
    let mut key = [0u8; 32];
    match rand::rngs::SysRng.try_fill_bytes(&mut key) {
        Ok(()) => Some(key.to_vec()),
        Err(_) => None,
    }
}

/// Whether `key` is the hex text of 32 bytes.
pub open spec fn is_key_text(key: Seq<char>) -> bool {
    exists|b: Seq<u8>| b.len() == 32 && key == crate::signing::hex_lower(b)
}

/// A fresh secret key: the hex text of 32 random bytes, or `None` when the
/// operating system's random source fails.
pub fn new_secret_key() -> (key: Option<String>)
    ensures
        key matches Some(k) ==> is_key_text(k@),
{
    match random_key_bytes() {
        Some(bytes) => {
            let key = hex_encode(bytes.as_slice());
            assert(bytes@.len() == 32 && key@ == crate::signing::hex_lower(bytes@));
            Some(key)
        },
        None => None,
    }
}

/// Why a secret key could not be made.
#[derive(Clone, Copy, Debug, PartialEq, Eq, Structural)]
pub enum KeyError {
    /// The operating system's random source failed.
    RandomSourceFailed,
}

/// Gives `config` a secret key when it has none, and says whether it did (the
/// configuration must then be saved). A configuration with a key is left as it
/// is. When a key is needed and none can be made, the configuration is left
/// as it is and the error is returned.
pub fn ensure_secret_key(config: &mut AppConfig) -> (r: Result<bool, KeyError>)
    ensures
        old(config)@.secret_key.len() != 0 ==> r == Ok::<bool, KeyError>(false) && final(config)@ == old(config)@,
        old(config)@.secret_key.len() == 0 ==> match r {
            Ok(generated) => generated
                && final(config)@ == (AppConfigView { secret_key: final(config)@.secret_key, ..old(config)@ })
                && is_key_text(final(config)@.secret_key),
            Err(e) => e == KeyError::RandomSourceFailed && final(config)@ == old(config)@,
        },
{
    if config.secret_key().is_empty() {
        match new_secret_key() {
            Some(key) => {
                config.set_secret_key(key);
                Ok(true)
            },
            None => Err(KeyError::RandomSourceFailed),
        }
    } else {
        Ok(false)
    }
}

/// The configuration used when none could be read: no approved device, no
/// known device, and a fresh secret key; `None` when no key can be made.
pub fn generate_default_config() -> (c: Option<AppConfig>)
    ensures
        c matches Some(cfg) ==> cfg@.approved_uuids.len() == 0 && cfg@.devices.len() == 0
            && is_key_text(cfg@.secret_key),
{
    match new_secret_key() {
        Some(key) => Some(AppConfig::new(Vec::new(), key)),
        None => None,
    }
}

} // verus!
