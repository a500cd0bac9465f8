//! The battery provider: charge in percent, an icon for it, and the status.
use crate::number::{IntErrorKind, parse_unsigned, parse_unsigned_spec};
use crate::text::{chars_of, range_eq_lower, ascii_lowered, string_of_range, trim_bounds, trimmed};
use vstd::prelude::*;

verus! {

/// What the battery provider is started with.
pub struct BatteryArgs {
    /// Nanoseconds between reports.
    pub duration: u64,
    /// The battery's name under `/sys/class/power_supply`.
    pub battery: String,
    /// Icons for the charge from empty to full.
    pub charge_icons: Vec<String>,
    /// Icons for the charge from empty to full while charging.
    pub charging_charge_icons: Vec<String>,
}

/// The battery provider's state: the last charge readings and status text.
pub struct Battery {
    pub args: BatteryArgs,
    pub full: u64,
    pub now: u64,
    pub status: String,
}

/// One report of the battery provider.
pub struct BatteryFormat {
    pub charge: u8,
    pub icon: String,
    pub status: String,
}

/// The charge in percent: `now * 100 / full`, at most 100, and 0 when `full` is 0.
pub open spec fn charge_spec(now: nat, full: nat) -> nat {
    if full == 0 {
        0
    } else if now * 100 / full > 100 {
        100
    } else {
        now * 100 / full
    }
}

/// Whether a status text reads `charging` once trimmed, in any case.
pub open spec fn is_charging(status: Seq<char>) -> bool {
    ascii_lowered(trimmed(status)) == seq!['c', 'h', 'a', 'r', 'g', 'i', 'n', 'g']
}

/// The icon for a charge: of `count` icons from empty to full, number
/// `(count - 1) * charge / 100`.
pub open spec fn icon_index(count: nat, charge: nat) -> nat {
    ((count - 1) * charge / 100) as nat
}

impl Battery {
    /// The provider before its first reading: full, with no status.
    pub fn init(args: BatteryArgs) -> (b: Battery)
        ensures
            b.args == args,
            b.full == 100,
            b.now == 100,
            b.status@ == Seq::<char>::empty(),
    {
        Battery { args, status: String::new(), full: 100, now: 100 }
    }

    /// Nanoseconds between reports.
    pub fn duration(&self) -> (d: Option<u64>)
        ensures
            d == Some(self.args.duration),
    {
        Some(self.args.duration)
    }

    /// Takes in the texts of `charge_now`, `charge_full` and `status`: the numbers
    /// are read after trimming, in that order, each stored as soon as it is read.
    pub fn update_from(&mut self, now_text: &str, full_text: &str, status_text: String) -> (r: Result<(), IntErrorKind>)
        ensures
            final(self).args == old(self).args,
            match parse_unsigned_spec(trimmed(now_text@), 10, u64::MAX as nat) {
                Err(e) => r == Err::<(), IntErrorKind>(e) && final(self).now == old(self).now
                    && final(self).full == old(self).full && final(self).status == old(self).status,
                Ok(n) => final(self).now == n && match parse_unsigned_spec(trimmed(full_text@), 10, u64::MAX as nat) {
                    Err(e) => r == Err::<(), IntErrorKind>(e) && final(self).full == old(self).full
                        && final(self).status == old(self).status,
                    Ok(f) => r == Ok::<(), IntErrorKind>(()) && final(self).full == f && final(self).status == status_text,
                },
            },
    {
        let v = chars_of(now_text);
        let (a, b) = trim_bounds(&v, 0, v.len());
        assert(v@.subrange(0, v.len() as int) =~= now_text@);
        let now = match parse_unsigned(&v, a, b, 10, u64::MAX) {
            Ok(n) => n,
            Err(e) => {
                return Err(e);
            },
        };
        self.now = now;
        let w = chars_of(full_text);
        let (c, d) = trim_bounds(&w, 0, w.len());
        assert(w@.subrange(0, w.len() as int) =~= full_text@);
        let full = match parse_unsigned(&w, c, d, 10, u64::MAX) {
            Ok(n) => n,
            Err(e) => {
                return Err(e);
            },
        };
        self.full = full;
        self.status = status_text;
        Ok(())
    }

    /// The report: the charge, the icon for it (from the charging icons while the
    /// status reads `charging`), and the trimmed status.
    pub fn format(&self) -> (f: BatteryFormat)
        requires
            self.now * 100 <= u64::MAX,
            is_charging(self.status@) ==> self.args.charging_charge_icons.len() > 0 && (
            self.args.charging_charge_icons.len() - 1) * 100 <= usize::MAX,
            !is_charging(self.status@) ==> self.args.charge_icons.len() > 0 && (self.args.charge_icons.len() - 1)
                * 100 <= usize::MAX,
        ensures
            f.charge == charge_spec(self.now as nat, self.full as nat),
            f.status@ == trimmed(self.status@),
            f.icon == (if is_charging(self.status@) {
                self.args.charging_charge_icons@[icon_index(self.args.charging_charge_icons.len() as nat, f.charge as nat) as int]
            } else {
                self.args.charge_icons@[icon_index(self.args.charge_icons.len() as nat, f.charge as nat) as int]
            }),
    {
        let scaled = self.now * 100;
        let charge: u64 = match scaled.checked_div(self.full) {
            Some(c) => if c > 100 {
                100
            } else {
                c
            },
            None => 0,
        };
        let charge = charge as u8;
        let v = chars_of(self.status.as_str());
        let (a, b) = trim_bounds(&v, 0, v.len());
        assert(v@.subrange(0, v.len() as int) =~= self.status@);
        let status = string_of_range(&v, a, b);
        let charging = range_eq_lower(&v, a, b, &['c', 'h', 'a', 'r', 'g', 'i', 'n', 'g']);
        let icons = if charging {
            &self.args.charging_charge_icons
        } else {
            &self.args.charge_icons
        };
        assert((icons.len() - 1) * (charge as nat) <= (icons.len() - 1) * 100) by (nonlinear_arith)
            requires
                charge <= 100,
                icons.len() >= 1,
        ;
        let idx = ((icons.len() - 1) * (charge as usize)) / 100;
        assert(idx < icons.len()) by (nonlinear_arith)
            requires
                idx == ((icons.len() - 1) * (charge as nat)) / 100,
                charge <= 100,
                icons.len() >= 1,
        ;
        let icon = icons[idx].clone();
        BatteryFormat { charge, icon, status }
    }
}

} // verus!
