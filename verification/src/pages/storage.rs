//! The storage page: swap, ZRAM, TRIM and disks, the swappiness the slider
//! starts from, and the outcome of the last change.

use vstd::prelude::*;
use crate::backend::storage::{DiskInfo, SwapInfo, ZramInfo};
use crate::number::{decimal, decimal_chars, parse_u32, parse_unsigned};
use crate::pages::status::{done_status, done_text, error_status, error_text};
use crate::text::{chars_of, concat_chars, text_of};

verus! {

pub struct StoragePage {
    pub swap: SwapInfo,
    pub zram: ZramInfo,
    pub disks: Vec<DiskInfo>,
    pub trim_enabled: bool,
    pub status_msg: String,
    pub status_is_error: bool,
}

/// The swappiness the slider shows for the swappiness text: the number it
/// writes, or 60 when it writes none that fits a `u32`.
pub open spec fn slider_swappiness(text: Seq<char>) -> nat {
    match parse_unsigned(text, u32::MAX as nat) {
        Some(n) => n,
        None => 60,
    }
}

/// The TRIM label: active or not.
pub open spec fn trim_label_text(enabled: bool) -> Seq<char> {
    if enabled {
        "● Активен"@
    } else {
        "● Неактивен"@
    }
}

pub fn trim_label(enabled: bool) -> (s: String)
    ensures
        s@ == trim_label_text(enabled),
{
    if enabled {
        "● Активен".to_owned()
    } else {
        "● Неактивен".to_owned()
    }
}

/// A disk is shown as `SSD` when it does not rotate, else as `HDD`.
pub fn disk_kind(is_ssd: bool) -> (s: String)
    ensures
        s@ == (if is_ssd {
            "SSD"@
        } else {
            "HDD"@
        }),
{
    if is_ssd {
        "SSD".to_owned()
    } else {
        "HDD".to_owned()
    }
}

impl StoragePage {
    /// The page with what was read of swap, ZRAM, disks and TRIM, and no status.
    pub fn new(swap: SwapInfo, zram: ZramInfo, disks: Vec<DiskInfo>, trim_enabled: bool) -> (page: StoragePage)
        ensures
            page.swap == swap,
            page.zram == zram,
            page.disks == disks,
            page.trim_enabled == trim_enabled,
            page.status_msg@ == Seq::<char>::empty(),
            !page.status_is_error,
    {
        StoragePage { swap, zram, disks, trim_enabled, status_msg: String::new(), status_is_error: false }
    }

    /// Takes what was read anew; the status stays.
    pub fn refresh(&mut self, swap: SwapInfo, zram: ZramInfo, disks: Vec<DiskInfo>, trim_enabled: bool)
        ensures
            final(self).swap == swap,
            final(self).zram == zram,
            final(self).disks == disks,
            final(self).trim_enabled == trim_enabled,
            final(self).status_msg == old(self).status_msg,
            final(self).status_is_error == old(self).status_is_error,
    {
        self.swap = swap;
        self.zram = zram;
        self.disks = disks;
        self.trim_enabled = trim_enabled;
    }

    /// The swappiness the slider starts from.
    pub fn slider_value(&self) -> (v: u32)
        ensures
            v as nat == slider_swappiness(self.swap.swappiness@),
    {
        match parse_u32(&chars_of(self.swap.swappiness.as_str())) {
            Some(v) => v,
            None => 60,
        }
    }

    /// Records how setting the swappiness to `value` ended: a success shows
    /// the new swappiness and reports it, a failure its error.
    pub fn record_swappiness(&mut self, value: u32, result: Result<(), String>)
        ensures
            final(self).zram == old(self).zram,
            final(self).disks == old(self).disks,
            final(self).trim_enabled == old(self).trim_enabled,
            final(self).swap.total == old(self).swap.total,
            final(self).swap.used == old(self).swap.used,
            final(self).swap.free == old(self).swap.free,
            match result {
                Ok(_) => {
                    &&& final(self).swap.swappiness@ == decimal(value as nat)
                    &&& !final(self).status_is_error
                    &&& final(self).status_msg@ == done_text("Swappiness = "@ + decimal(value as nat))
                },
                Err(e) => {
                    &&& final(self).swap.swappiness == old(self).swap.swappiness
                    &&& final(self).status_is_error
                    &&& final(self).status_msg@ == error_text(e@)
                },
            },
    {
        match result {
            Ok(_) => {
                let digits = decimal_chars(value as u64);
                self.swap.swappiness = text_of(&digits);
                self.status_msg = done_status(&concat_chars(&chars_of("Swappiness = "), &digits));
                self.status_is_error = false;
            },
            Err(e) => {
                self.status_msg = error_status(e.as_str());
                self.status_is_error = true;
            },
        }
    }

    /// Records how enabling TRIM ended: a success marks it on and reports it,
    /// a failure its error.
    pub fn record_trim(&mut self, result: Result<(), String>)
        ensures
            final(self).swap == old(self).swap,
            final(self).zram == old(self).zram,
            final(self).disks == old(self).disks,
            match result {
                Ok(_) => {
                    &&& final(self).trim_enabled
                    &&& !final(self).status_is_error
                    &&& final(self).status_msg@ == done_text("TRIM включен"@)
                },
                Err(e) => {
                    &&& final(self).trim_enabled == old(self).trim_enabled
                    &&& final(self).status_is_error
                    &&& final(self).status_msg@ == error_text(e@)
                },
            },
    {
        match result {
            Ok(_) => {
                self.trim_enabled = true;
                self.status_msg = done_status(&chars_of("TRIM включен"));
                self.status_is_error = false;
            },
            Err(e) => {
                self.status_msg = error_status(e.as_str());
                self.status_is_error = true;
            },
        }
    }
}

/// After the swappiness is set, the slider starts from the value set.
pub proof fn law_applied_swappiness_shown(value: u32)
    ensures
        slider_swappiness(decimal(value as nat)) == value,
{
    crate::number::law_parse_decimal_roundtrip(value as nat, u32::MAX as nat);
}

} // verus!
