//! The sync word: the bit pattern that delimits packets.
use vstd::prelude::*;

use crate::config::{CommonConfig, CommonFields};
use crate::{CC1101Error, ConfigError};

verus! {

/// A sync word is sixteen bits wide, or thirty-two bits wide with the same
/// pattern in both halves.
pub open spec fn valid_sync_word(sync_word: u32) -> bool {
    sync_word <= 0xFFFF || sync_word % 0x1_0000 == sync_word / 0x1_0000
}

impl CommonConfig {
    /// Convert a sync word to a configuration value.
    pub fn sync_word_to_config(sync_word: u32) -> (r: Result<u32, CC1101Error>)
        ensures
            valid_sync_word(sync_word) ==> r == Ok::<u32, CC1101Error>(sync_word),
            !valid_sync_word(sync_word) ==> r == Err::<u32, CC1101Error>(
                CC1101Error::Config(ConfigError::InvalidSyncWord),
            ),
    {
        if sync_word > 0xFFFF {
            let lsb = sync_word & 0x0000FFFF;
            let msb = sync_word >> 16;
            assert(sync_word & 0x0000FFFF == sync_word % 0x1_0000) by (bit_vector);
            assert(sync_word >> 16 == sync_word / 0x1_0000) by (bit_vector);

            if lsb != msb {
                return Err(CC1101Error::Config(ConfigError::InvalidSyncWord));
            }
        }
        Ok(sync_word)
    }

    /// Set the sync word
    ///
    /// Any sync word between 0x0000 and 0xFFFF is allowed. Above 0xFFFF, the high and low 16-bits must be the same (e.g `0x0f0f0f0f`).
    ///
    /// In RX, the device searches for the specified sync word to begin reception.
    ///
    /// In TX, the sync word is prepended to each packet.
    pub fn set_sync_word(&mut self, sync_word: u32) -> (r: Result<(), CC1101Error>)
        ensures
            old(self)@.well_formed() ==> final(self)@.well_formed(),
            valid_sync_word(sync_word) ==> r == Ok::<(), CC1101Error>(()) && final(self)@
                == (CommonFields { sync_word, ..old(self)@ }),
            !valid_sync_word(sync_word) ==> r == Err::<(), CC1101Error>(
                CC1101Error::Config(ConfigError::InvalidSyncWord),
            ) && *final(self) == *old(self),
    {
        match CommonConfig::sync_word_to_config(sync_word) {
            Ok(word) => {
                self.sync_word = word;
                Ok(())
            },
            Err(e) => Err(e),
        }
    }

    /// Get the configured sync word
    pub fn get_sync_word(&self) -> (r: u32)
        ensures
            r == self@.sync_word,
    {
        self.sync_word
    }
}

/// Every sync word of sixteen bits is valid.
pub proof fn lemma_sync_word_of_sixteen_bits(sync_word: u32)
    requires
        sync_word <= 0xFFFF,
    ensures
        valid_sync_word(sync_word),
{
}

/// A pattern of sixteen bits, repeated, is a valid sync word; a sync word of
/// more than sixteen bits that is valid is such a repetition.
pub proof fn lemma_sync_word_of_two_halves(sync_word: u32)
    requires
        sync_word > 0xFFFF,
    ensures
        valid_sync_word(sync_word) <==> exists|half: u16| sync_word == #[trigger] (half
            * 0x1_0001),
{
    if valid_sync_word(sync_word) {
        let half = (sync_word % 0x1_0000) as u16;
        assert(sync_word == half * 0x1_0001);
    }
}

} // verus!
