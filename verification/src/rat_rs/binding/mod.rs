//! Values that the C capture library exchanges: devices and timestamps.

pub mod packets;

use vstd::prelude::*;
use vstd::string::*;

use crate::text::{decimal, push_decimal_padded, zero_pad};

verus! {

/// The most devices a lookup reports.
pub const MAX_INTERFACES: usize = 23;

/// A capture timestamp: seconds and microseconds.
#[derive(Debug, Clone, Copy)]
pub struct TimeVal {
    tv_sec: i64,
    tv_usec: i64,
}

/// A network device: its zero-terminated name and its MTU.
#[derive(Debug, Clone, Copy)]
pub struct RatDevice {
    pub name: [u8; 16],
    pub mtu: u32,
}

/// Seconds in a minute, an hour and a day.
pub const SECONDS_PER_MINUTE: u64 = 60;
pub const SECONDS_PER_HOUR: u64 = 3600;
pub const SECONDS_PER_DAY: u64 = 86400;

/// The time of day of a timestamp: `HH:MM:SS.uuuuuu`, the seconds counted
/// from the start of the day the timestamp falls on (seconds and
/// microseconds read as unsigned 64-bit numbers).
pub open spec fn clock_text(sec: i64, usec: i64) -> Seq<char> {
    let total = (sec as u64) as nat;
    let today = total % 86400;
    zero_pad(decimal(today / 3600), 2) + seq![':'] + zero_pad(decimal((today % 3600) / 60), 2) + seq![':']
        + zero_pad(decimal(today % 60), 2) + seq!['.'] + zero_pad(decimal((usec as u64) as nat), 6)
}

impl TimeVal {
    /// The timestamp `tv_sec` seconds and `tv_usec` microseconds.
    pub fn new(tv_sec: i64, tv_usec: i64) -> (r: Self)
        ensures
            r.sec() == tv_sec,
            r.usec() == tv_usec,
    {
        TimeVal { tv_sec, tv_usec }
    }

    /// The seconds.
    pub closed spec fn sec(self) -> i64 {
        self.tv_sec
    }

    /// The microseconds.
    pub closed spec fn usec(self) -> i64 {
        self.tv_usec
    }

    /// The hours, minutes and seconds of the day and the microseconds.
    pub fn clock(&self) -> (r: (u64, u64, u64, u64))
        ensures
            r.0 == ((self.sec() as u64) % SECONDS_PER_DAY) / SECONDS_PER_HOUR,
            r.1 == (((self.sec() as u64) % SECONDS_PER_DAY) % SECONDS_PER_HOUR) / SECONDS_PER_MINUTE,
            r.2 == ((self.sec() as u64) % SECONDS_PER_DAY) % SECONDS_PER_MINUTE,
            r.3 == self.usec() as u64,
            r.0 < 24 && r.1 < 60 && r.2 < 60,
    {
        let total_secs = self.tv_sec as u64;
        let micros = self.tv_usec as u64;
        let seconds_today = total_secs % SECONDS_PER_DAY;
        let hours = seconds_today / SECONDS_PER_HOUR;
        let minutes = (seconds_today % SECONDS_PER_HOUR) / SECONDS_PER_MINUTE;
        let seconds = seconds_today % SECONDS_PER_MINUTE;
        (hours, minutes, seconds, micros)
    }

    /// The time of day, as [`clock_text`] describes.
    pub fn to_string(&self) -> (r: String)
        ensures
            r@ == clock_text(self.sec(), self.usec()),
    {
        let (hours, minutes, seconds, micros) = self.clock();
        let mut s = String::new();
        proof {
            reveal_strlit(":");
            reveal_strlit(".");
        }
        push_decimal_padded(&mut s, hours, 2);
        s.append(":");
        push_decimal_padded(&mut s, minutes, 2);
        s.append(":");
        push_decimal_padded(&mut s, seconds, 2);
        s.append(".");
        push_decimal_padded(&mut s, micros, 6);
        proof {
            assert(s@ =~= clock_text(self.sec(), self.usec()));
        }
        s
    }
}

/// The bytes of a zero-terminated name: those before its first zero byte,
/// or all of them when it has none.
pub open spec fn c_name(name: Seq<u8>) -> Seq<u8>
    decreases name.len(),
{
    if name.len() == 0 {
        Seq::empty()
    } else if name[0] == 0 {
        Seq::empty()
    } else {
        seq![name[0]] + c_name(name.drop_first())
    }
}

/// Device `d` is called `name`.
pub open spec fn device_named(d: RatDevice, name: Seq<u8>) -> bool {
    c_name(d.name@) == name
}

impl RatDevice {
    /// Whether the device is called `name`.
    pub fn is_named(&self, name: &str) -> (r: bool)
        ensures
            r == device_named(*self, name.spec_bytes()),
    {
        let want = name.as_bytes();
        let ghost n = self.name@;
        let mut i: usize = 0;
        proof {
            assert(n.skip(0) =~= n);
            assert(n.take(0) + c_name(n) =~= c_name(n));
        }
        while i < 16 && self.name[i] != 0
            invariant
                0 <= i <= 16,
                n == self.name@,
                n.len() == 16,
                want@ == name.spec_bytes(),
                forall|k: int| 0 <= k < i ==> n[k] != 0,
                c_name(n) == n.take(i as int) + c_name(n.skip(i as int)),
            decreases 16 - i,
        {
            proof {
                assert(n.skip(i as int).drop_first() =~= n.skip(i + 1));
                assert(n.take(i + 1) =~= n.take(i as int) + seq![n[i as int]]);
            }
            i = i + 1;
        }
        proof {
            if i < 16 {
                assert(n.skip(i as int)[0] == 0);
            } else {
                assert(n.skip(16).len() == 0);
            }
            assert(c_name(n) =~= n.take(i as int));
        }
        if want.len() != i {
            return false;
        }
        let mut k: usize = 0;
        while k < i
            invariant
                0 <= k <= i <= 16,
                n == self.name@,
                want@.len() == i,
                want@ == name.spec_bytes(),
                c_name(n) == n.take(i as int),
                forall|x: int| 0 <= x < k ==> n[x] == want@[x],
            decreases i - k,
        {
            if self.name[k] != want[k] {
                proof {
                    assert(c_name(n)[k as int] != want@[k as int]);
                }
                return false;
            }
            k = k + 1;
        }
        proof {
            assert(c_name(n) =~= want@);
        }
        true
    }
}

/// The position of the first of the first `found` devices that is called
/// `name`, if one is.
pub fn find_device(devices: &[RatDevice], found: usize, name: &str) -> (r: Option<usize>)
    ensures
        match r {
            Some(i) => {
                &&& i < found
                &&& i < devices@.len()
                &&& device_named(devices@[i as int], name.spec_bytes())
                &&& forall|j: int| 0 <= j < i ==> !device_named(#[trigger] devices@[j], name.spec_bytes())
            },
            None => forall|j: int|
                0 <= j < found && j < devices@.len() ==> !device_named(#[trigger] devices@[j], name.spec_bytes()),
        },
{
    let mut i: usize = 0;
    while i < found && i < devices.len()
        invariant
            0 <= i <= devices@.len(),
            i <= found,
            forall|j: int| 0 <= j < i ==> !device_named(#[trigger] devices@[j], name.spec_bytes()),
        decreases devices@.len() - i,
    {
        if devices[i].is_named(name) {
            return Some(i);
        }
        i = i + 1;
    }
    None
}

} // verus!
