//! The brightness provider: the backlight's level against its maximum.
use crate::number::{IntErrorKind, parse_unsigned, parse_unsigned_spec};
use crate::text::{chars_of, trim_bounds, trimmed};
use vstd::prelude::*;

verus! {

/// What the brightness provider is started with.
pub struct BrightnessArgs {
    /// Nanoseconds between readings.
    pub duration: u64,
    /// The display's name under `/sys/class/backlight`.
    pub display: String,
    /// The lowest level in percent that the provider may set.
    pub min_percent: u8,
}

/// The brightness provider's state: the last readings of the level and the maximum.
pub struct Brightness {
    pub args: BrightnessArgs,
    pub max: u64,
    pub now: u64,
}

/// One report of the brightness provider.
pub struct BrightnessFormat {
    pub brighness: u8,
}

/// The reported figure: `max * 100 / now`, taken modulo 256 as a byte.
pub open spec fn reported_spec(max: nat, now: nat) -> nat {
    (max * 100 / now) % 256
}

impl Brightness {
    /// The provider before its first reading: level and maximum both 100.
    pub fn init(args: BrightnessArgs) -> (b: Brightness)
        ensures
            b.args == args,
            b.max == 100,
            b.now == 100,
    {
        Brightness { args, max: 100, now: 100 }
    }

    /// The provider reports when it is told to, not on a timer of its own.
    pub fn duration(&self) -> (d: Option<u64>)
        ensures
            d is None,
    {
        None
    }

    /// Takes in the texts of `brightness` and `max_brightness`: each number is
    /// read after trimming, in that order, and stored as soon as it is read.
    pub fn update_tick(&mut self, now_text: &str, max_text: &str) -> (r: Result<(), IntErrorKind>)
        ensures
            final(self).args == old(self).args,
            match parse_unsigned_spec(trimmed(now_text@), 10, u64::MAX as nat) {
                Err(e) => r == Err::<(), IntErrorKind>(e) && final(self).now == old(self).now
                    && final(self).max == old(self).max,
                Ok(n) => final(self).now == n && match parse_unsigned_spec(trimmed(max_text@), 10, u64::MAX as nat) {
                    Err(e) => r == Err::<(), IntErrorKind>(e) && final(self).max == old(self).max,
                    Ok(m) => r == Ok::<(), IntErrorKind>(()) && final(self).max == m,
                },
            },
    {
        let v = chars_of(now_text);
        let (a, b) = trim_bounds(&v, 0, v.len());
        assert(v@.subrange(0, v.len() as int) =~= now_text@);
        let now = match parse_unsigned(&v, a, b, 10, u64::MAX) {
            Ok(n) => n,
            Err(e) => {
                return Err(e);
            },
        };
        self.now = now;
        let w = chars_of(max_text);
        let (c, d) = trim_bounds(&w, 0, w.len());
        assert(w@.subrange(0, w.len() as int) =~= max_text@);
        let max = match parse_unsigned(&w, c, d, 10, u64::MAX) {
            Ok(n) => n,
            Err(e) => {
                return Err(e);
            },
        };
        self.max = max;
        Ok(())
    }

    /// Takes in a request to change the level by `amount` times the maximum,
    /// up when `up` holds and down otherwise.
    pub fn add_brightness(&mut self, up: bool, amount: u64)
        requires
            amount * old(self).max <= u64::MAX,
            up ==> old(self).now + amount * old(self).max <= u64::MAX,
            !up ==> amount * old(self).max <= old(self).now,
        ensures
            final(self).args == old(self).args,
            final(self).max == old(self).max,
            up ==> final(self).now == old(self).now + amount * old(self).max,
            !up ==> final(self).now == old(self).now - amount * old(self).max,
    {
        let step = amount * self.max;
        if up {
            self.now = self.now + step;
        } else {
            self.now = self.now - step;
        }
    }

    /// The report: `max * 100 / now` as a byte.
    pub fn format(&self) -> (f: BrightnessFormat)
        requires
            self.now != 0,
            self.max * 100 <= u64::MAX,
        ensures
            f.brighness == reported_spec(self.max as nat, self.now as nat),
    {
        let q = self.max * 100 / self.now;
        BrightnessFormat { brighness: (q % 256) as u8 }
    }
}

} // verus!
