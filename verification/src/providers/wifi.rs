//! The wifi provider: signal strength in percent and a symbol for it.
use crate::text::push_char;
use vstd::prelude::*;

verus! {

/// What the wifi provider is started with.
pub struct WifiArgs {
    /// Nanoseconds between reports.
    pub duration: u64,
    /// Symbols for the signal strength, weakest first.
    pub strength_symbols: Vec<char>,
    /// Symbol shown without a connection.
    pub disconnected_symbol: char,
    /// The signal (dBm) shown as 0%.
    pub min_dbm: i8,
    /// The signal (dBm) shown as 100%.
    pub max_dbm: i8,
    /// The wireless interface to watch (the first one when none is named).
    pub interface: Option<String>,
}

/// A connection to a network.
pub struct Connection {
    pub ssid: String,
    pub signal: i8,
}

/// The wifi provider's state: the connection last seen.
pub struct Wifi {
    pub config: WifiArgs,
    pub connection: Option<Connection>,
}

/// One report of the wifi provider.
pub struct WifiFormat {
    pub ssid: String,
    pub percentage: u8,
    pub dbm: i8,
    pub symbol: String,
}

/// The signal in percent of the range from `min_dbm` to `max_dbm`, clamped to it.
pub open spec fn percentage_spec(signal: i8, min_dbm: i8, max_dbm: i8) -> int {
    let db: int = if signal < min_dbm {
        min_dbm as int
    } else if signal > max_dbm {
        max_dbm as int
    } else {
        signal as int
    };
    (db * 100 - min_dbm * 100) / (max_dbm - min_dbm)
}

/// The signal in percent lies between 0 and 100, whatever the signal, when the
/// lower bound in dBm is below the upper one.
pub proof fn law_percentage_in_range(signal: i8, min_dbm: i8, max_dbm: i8)
    requires
        min_dbm < max_dbm,
    ensures
        0 <= percentage_spec(signal, min_dbm, max_dbm) <= 100,
{
    let db: int = if signal < min_dbm {
        min_dbm as int
    } else if signal > max_dbm {
        max_dbm as int
    } else {
        signal as int
    };
    let lo = min_dbm as int;
    let hi = max_dbm as int;
    assert(0 <= (db * 100 - lo * 100) / (hi - lo) <= 100) by (nonlinear_arith)
        requires
            lo <= db <= hi,
            lo < hi,
    ;
}

/// The symbol number for a percentage with `count` symbols: the percentage
/// divided by `100 / (count - 1)`.
pub open spec fn symbol_index_spec(percentage: int, count: nat) -> int {
    percentage / (100int / (count - 1) as int)
}

impl Wifi {
    /// Nanoseconds between reports.
    pub fn duration(&self) -> (d: Option<u64>)
        ensures
            d == Some(self.config.duration),
    {
        Some(self.config.duration)
    }

    /// The report: without a connection an empty name, 0%, -100 dBm and the
    /// disconnected symbol; with one its name, the signal in percent, in dBm, and
    /// the symbol for the percentage. Symbols are followed by a space.
    pub fn format(&self) -> (f: WifiFormat)
        requires
            -128 < self.config.min_dbm < self.config.max_dbm,
            2 <= self.config.strength_symbols.len() <= 101,
            self.connection matches Some(c) ==> symbol_index_spec(
                percentage_spec(c.signal, self.config.min_dbm, self.config.max_dbm),
                self.config.strength_symbols.len() as nat,
            ) < self.config.strength_symbols.len(),
        ensures
            match self.connection {
                Some(c) => {
                    let p = percentage_spec(c.signal, self.config.min_dbm, self.config.max_dbm);
                    &&& f.ssid == c.ssid
                    &&& f.percentage == p
                    &&& f.dbm == c.signal
                    &&& f.symbol@ == seq![self.config.strength_symbols@[symbol_index_spec(p, self.config.strength_symbols.len() as nat)], ' ']
                },
                None => f.ssid@ == Seq::<char>::empty() && f.percentage == 0 && f.dbm == -100
                    && f.symbol@ == seq![self.config.disconnected_symbol, ' '],
            },
    {
        let min: i16 = (-self.config.min_dbm) as i16;
        let max: i16 = (-self.config.max_dbm) as i16;
        let diff = min - max;
        match &self.connection {
            Some(connection) => {
                let lo = -min;
                let hi = -max;
                let s = connection.signal as i16;
                let db = if s < lo {
                    lo
                } else if s > hi {
                    hi
                } else {
                    s
                };
                let percentage = (db * 100 + min * 100) / diff;
                assert(percentage == percentage_spec(connection.signal, self.config.min_dbm, self.config.max_dbm));
                assert(0 <= percentage <= 100) by (nonlinear_arith)
                    requires
                        percentage as int == (db * 100 + min * 100) as int / diff as int,
                        lo <= db <= hi,
                        lo == -min,
                        hi == -max,
                        diff == min - max,
                        diff > 0,
                ;
                let count = self.config.strength_symbols.len();
                let fraction = 100 / ((count - 1) as i16);
                let ghost fr = 100int / (count - 1) as int;
                assert(fraction == fr);
                assert(fr >= 1) by (nonlinear_arith)
                    requires
                        fr == 100int / (count - 1) as int,
                        1 <= count - 1 <= 100,
                ;
                let index = (percentage / fraction) as usize;
                let symbol = self.config.strength_symbols[index];
                let mut text = String::new();
                push_char(&mut text, symbol);
                push_char(&mut text, ' ');
                WifiFormat { ssid: connection.ssid.clone(), percentage: percentage as u8, dbm: connection.signal, symbol: text }
            },
            None => {
                let mut text = String::new();
                push_char(&mut text, self.config.disconnected_symbol);
                push_char(&mut text, ' ');
                WifiFormat { ssid: String::new(), percentage: 0, dbm: -100, symbol: text }
            },
        }
    }
}

} // verus!
