use vstd::prelude::*;
use crate::clock::unix_now_secs;

verus! {

/// The idle window used when the stored settings cannot be read.
pub const DEFAULT_DELAY_MS: u64 = 200;

/// User settings of the expansion engine.
#[derive(Debug, Clone)]
pub struct SnippetSettings {
    pub id: String,
    pub keyboard_trigger_key: String,
    pub time_delay_ms: u64,
    pub created_at: u64,
    pub updated_at: u64,
}

impl SnippetSettings {
    /// Settings with the given id, trigger key and idle window, created and
    /// updated now; the two timestamps passed in are not used.
    pub fn new(
        id: String,
        keyboard_trigger_key: String,
        time_delay_ms: u64,
        created_at: u64,
        updated_at: u64,
    ) -> (r: Self)
        ensures
            r.id == id,
            r.keyboard_trigger_key == keyboard_trigger_key,
            r.time_delay_ms == time_delay_ms,
            r.created_at == r.updated_at,
    {
        let timestamp = unix_now_secs();
        SnippetSettings {
            id,
            keyboard_trigger_key,
            time_delay_ms,
            created_at: timestamp,
            updated_at: timestamp,
        }
    }

    /// Sets the trigger key and idle window and stamps the update time; the
    /// id and creation time stay, and the other values passed in are not used.
    pub fn update(
        &mut self,
        id: String,
        keyboard_trigger_key: String,
        time_delay_ms: u64,
        created_at: u64,
        updated_at: u64,
    )
        ensures
            final(self).id == old(self).id,
            final(self).keyboard_trigger_key == keyboard_trigger_key,
            final(self).time_delay_ms == time_delay_ms,
            final(self).created_at == old(self).created_at,
    {
        self.keyboard_trigger_key = keyboard_trigger_key;
        self.time_delay_ms = time_delay_ms;
        self.updated_at = unix_now_secs();
    }
}

/// The idle window to use: the stored one if it could be read, else the
/// default.
pub fn delay_or_default(stored: Option<u64>) -> (r: u64)
    ensures
        r == match stored {
            Some(d) => d,
            None => DEFAULT_DELAY_MS,
        },
{
    match stored {
        Some(d) => d,
        None => DEFAULT_DELAY_MS,
    }
}

} // verus!
