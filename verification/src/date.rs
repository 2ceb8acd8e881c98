//! Points in time, as far as a feed shows them.

use vstd::prelude::*;

verus! {

/// The first second of the year 0, counted from the start of 1970.
pub const FIRST_SECOND: i64 = -62_167_219_200;

/// The last second of the year 9999, counted from the start of 1970.
pub const LAST_SECOND: i64 = 253_402_300_799;

/// The number of seconds in a day.
pub const DAY: i32 = 86_400;

/// The date and time at `seconds` seconds after the start of 1970, as a
/// clock shows it that is `offset` seconds ahead of universal time, in the
/// form of RFC 2822, such as `Tue, 1 Jul 2003 10:52:37 +0200`.
pub uninterp spec fn rfc2822_text(seconds: int, offset: int) -> Seq<char>;

/// `DateTime::from_timestamp`, `FixedOffset::east_opt` and
/// `DateTime::with_timezone`, then `DateTime::to_rfc2822`. The last panics
/// on a year that is negative or has more than four digits, the second
/// refuses an offset of a day or more.
#[verifier::external_body]
fn format_rfc2822(seconds: i64, offset: i32) -> (r: String)
    requires
        FIRST_SECOND <= seconds <= LAST_SECOND,
        FIRST_SECOND <= seconds + offset <= LAST_SECOND,
        -DAY < offset < DAY,
    ensures
        r@ == rfc2822_text(seconds as int, offset as int),
{
    let zone = chrono::FixedOffset::east_opt(offset).unwrap();
    chrono::DateTime::from_timestamp(seconds, 0).unwrap().with_timezone(&zone).to_rfc2822()
}

/// A second between the years 0 and 9999, with the offset from universal
/// time of the clock that it was read off.
#[derive(Clone, Copy, Debug, PartialEq, Eq)]
pub struct Date {
    seconds: i64,
    offset: i32,
}

/// Whether the second `seconds` after the start of 1970 can be shown by a
/// clock that is `offset` seconds ahead of universal time: it lies between
/// the years 0 and 9999 both by that clock and in universal time, and the
/// offset is under a day.
pub open spec fn showable(seconds: int, offset: int) -> bool {
    &&& FIRST_SECOND <= seconds <= LAST_SECOND
    &&& FIRST_SECOND <= seconds + offset <= LAST_SECOND
    &&& -DAY < offset < DAY
}

impl Date {
    #[verifier::type_invariant]
    spec fn in_range(&self) -> bool {
        showable(self.seconds as int, self.offset as int)
    }

    /// The number of seconds from the start of 1970.
    pub closed spec fn timestamp(&self) -> int {
        self.seconds as int
    }

    /// The number of seconds that the clock is ahead of universal time.
    pub closed spec fn offset(&self) -> int {
        self.offset as int
    }

    /// The date in the form of RFC 2822.
    pub open spec fn rfc2822(&self) -> Seq<char> {
        rfc2822_text(self.timestamp(), self.offset())
    }

    /// The second that lies `seconds` after the start of 1970, in
    /// universal time; `None` outside the years 0 to 9999.
    pub fn from_timestamp(seconds: i64) -> (r: Option<Date>)
        ensures
            match r {
                Some(date) => date.timestamp() == seconds && date.offset() == 0 && showable(
                    seconds as int,
                    0,
                ),
                None => !showable(seconds as int, 0),
            },
    {
        Date::with_offset(seconds, 0)
    }

    /// The second that lies `seconds` after the start of 1970, read off a
    /// clock that is `offset` seconds ahead of universal time; `None` where
    /// no such clock can show it.
    pub fn with_offset(seconds: i64, offset: i32) -> (r: Option<Date>)
        ensures
            match r {
                Some(date) => date.timestamp() == seconds && date.offset() == offset && showable(
                    seconds as int,
                    offset as int,
                ),
                None => !showable(seconds as int, offset as int),
            },
    {
        if FIRST_SECOND <= seconds && seconds <= LAST_SECOND && -DAY < offset && offset < DAY
            && FIRST_SECOND <= seconds + offset as i64 && seconds + offset as i64 <= LAST_SECOND {
            Some(Date { seconds, offset })
        } else {
            None
        }
    }

    /// The start of 1970, in universal time.
    pub fn epoch() -> (r: Date)
        ensures
            r.timestamp() == 0,
            r.offset() == 0,
    {
        Date { seconds: 0, offset: 0 }
    }

    /// The same second in universal time.
    pub fn to_utc(&self) -> (r: Date)
        ensures
            r.timestamp() == self.timestamp(),
            r.offset() == 0,
    {
        proof {
            use_type_invariant(self);
        }
        Date { seconds: self.seconds, offset: 0 }
    }

    /// The number of seconds from the start of 1970.
    pub fn seconds(&self) -> (r: i64)
        ensures
            r == self.timestamp(),
            FIRST_SECOND <= r <= LAST_SECOND,
    {
        proof {
            use_type_invariant(self);
        }
        self.seconds
    }

    /// The number of seconds that the clock is ahead of universal time.
    pub fn offset_seconds(&self) -> (r: i32)
        ensures
            r == self.offset(),
            -DAY < r < DAY,
    {
        proof {
            use_type_invariant(self);
        }
        self.offset
    }

    /// The date in the form of RFC 2822.
    pub fn to_rfc2822(&self) -> (r: String)
        ensures
            r@ == self.rfc2822(),
    {
        proof {
            use_type_invariant(self);
        }
        format_rfc2822(self.seconds, self.offset)
    }
}

} // verus!
