//! The offset value type: a signed number of seconds east of UTC, never a
//! whole day or more in magnitude.
use vstd::prelude::*;

verus! {

/// Largest magnitude, in seconds, that an offset can hold (23:59:59).
pub const MAX_SECONDS: i32 = 86_399;

/// Largest magnitude, in minutes, accepted by the minute constructors (23:59).
pub const MAX_MINUTES: i16 = 1_439;

/// Largest magnitude, in hours, accepted by the hour constructors.
pub const MAX_HOURS: i8 = 23;

/// `a / b` rounded toward zero, as Rust's integer division does.
pub open spec fn div_trunc(a: int, b: int) -> int
    recommends
        b > 0,
{
    if a >= 0 {
        a / b
    } else {
        -((-a) / b)
    }
}

/// The component that a constructor was given out of range.
#[derive(Debug, Clone, Copy, PartialEq, Eq, Structural, Hash)]
pub enum Component {
    Hours,
    Minutes,
    Seconds,
}

/// A constructor argument fell outside its bounds; the error carries which
/// component it was, the bounds, and the value given.
#[derive(Debug, Clone, Copy, PartialEq, Eq, Structural, Hash)]
pub struct ComponentRangeError {
    pub component: Component,
    pub minimum: i64,
    pub maximum: i64,
    pub value: i64,
}

/// The error that a constructor returns for `value` outside `[minimum, maximum]`.
pub open spec fn range_error(
    component: Component,
    minimum: int,
    maximum: int,
    value: int,
) -> ComponentRangeError {
    ComponentRangeError {
        component,
        minimum: minimum as i64,
        maximum: maximum as i64,
        value: value as i64,
    }
}

/// What a constructor returns: an offset of `seconds` when `value` lies in
/// `[minimum, maximum]`, else the range error for `value`.
pub open spec fn constructed(
    r: Result<UtcOffset, ComponentRangeError>,
    component: Component,
    minimum: int,
    maximum: int,
    value: int,
    seconds: int,
) -> bool {
    match r {
        Ok(o) => minimum <= value <= maximum && o@ == seconds,
        Err(e) => !(minimum <= value <= maximum) && e == range_error(
            component,
            minimum,
            maximum,
            value,
        ),
    }
}

fn out_of_range(component: Component, minimum: i64, maximum: i64, value: i64) -> (e:
    ComponentRangeError)
    ensures
        e == range_error(component, minimum as int, maximum as int, value as int),
{
    ComponentRangeError { component, minimum, maximum, value }
}

/// An offset from UTC, in whole seconds; positive is east, negative is west.
///
/// The magnitude is at most 23:59:59. Offsets order by their signed number
/// of seconds.
#[derive(Debug, Clone, Copy, PartialEq, Eq, Structural, Hash, PartialOrd, Ord)]
pub struct UtcOffset {
    seconds: i32,
}

impl View for UtcOffset {
    type V = int;

    /// The signed number of seconds east of UTC.
    closed spec fn view(&self) -> int {
        self.seconds as int
    }
}

impl UtcOffset {
    #[verifier::type_invariant]
    spec fn inv(&self) -> bool {
        -MAX_SECONDS <= self.seconds <= MAX_SECONDS
    }

    /// The offset holds no more than 23:59:59 either way.
    pub open spec fn wf(&self) -> bool {
        -86_399 <= self@ <= 86_399
    }

    /// UTC itself: an offset of zero.
    pub fn utc() -> (r: Self)
        ensures
            r@ == 0,
    {
        UtcOffset { seconds: 0 }
    }

    /// An offset of `hours` hours east of UTC, for `hours` in `0..=23`.
    pub fn east_hours(hours: u8) -> (r: Result<Self, ComponentRangeError>)
        ensures
            constructed(r, Component::Hours, 0, 23, hours as int, hours * 3600),
    {
        if hours > MAX_HOURS as u8 {
            return Err(out_of_range(Component::Hours, 0, MAX_HOURS as i64, hours as i64));
        }
        Ok(UtcOffset { seconds: hours as i32 * 3_600 })
    }

    /// An offset of `hours` hours west of UTC, for `hours` in `0..=23`.
    pub fn west_hours(hours: u8) -> (r: Result<Self, ComponentRangeError>)
        ensures
            constructed(r, Component::Hours, 0, 23, hours as int, -(hours * 3600)),
    {
        if hours > MAX_HOURS as u8 {
            return Err(out_of_range(Component::Hours, 0, MAX_HOURS as i64, hours as i64));
        }
        Ok(UtcOffset { seconds: hours as i32 * -3_600 })
    }

    /// An offset of `hours` hours, east when positive, for `hours` in `-23..=23`.
    pub fn hours(hours: i8) -> (r: Result<Self, ComponentRangeError>)
        ensures
            constructed(r, Component::Hours, -23, 23, hours as int, hours * 3600),
    {
        if hours < -MAX_HOURS || hours > MAX_HOURS {
            return Err(
                out_of_range(Component::Hours, -MAX_HOURS as i64, MAX_HOURS as i64, hours as i64),
            );
        }
        Ok(UtcOffset { seconds: hours as i32 * 3_600 })
    }

    /// An offset of `minutes` minutes east of UTC, for `minutes` in `0..=1439`.
    pub fn east_minutes(minutes: u16) -> (r: Result<Self, ComponentRangeError>)
        ensures
            constructed(r, Component::Minutes, 0, 1439, minutes as int, minutes * 60),
    {
        if minutes > MAX_MINUTES as u16 {
            return Err(
                out_of_range(Component::Minutes, 0, MAX_MINUTES as i64, minutes as i64),
            );
        }
        Ok(UtcOffset { seconds: minutes as i32 * 60 })
    }

    /// An offset of `minutes` minutes west of UTC, for `minutes` in `0..=1439`.
    pub fn west_minutes(minutes: u16) -> (r: Result<Self, ComponentRangeError>)
        ensures
            constructed(r, Component::Minutes, 0, 1439, minutes as int, -(minutes * 60)),
    {
        if minutes > MAX_MINUTES as u16 {
            return Err(
                out_of_range(Component::Minutes, 0, MAX_MINUTES as i64, minutes as i64),
            );
        }
        Ok(UtcOffset { seconds: minutes as i32 * -60 })
    }

    /// An offset of `minutes` minutes, east when positive, for `minutes` in
    /// `-1439..=1439`.
    pub fn minutes(minutes: i16) -> (r: Result<Self, ComponentRangeError>)
        ensures
            constructed(r, Component::Minutes, -1439, 1439, minutes as int, minutes * 60),
    {
        if minutes < -MAX_MINUTES || minutes > MAX_MINUTES {
            return Err(
                out_of_range(
                    Component::Minutes,
                    -MAX_MINUTES as i64,
                    MAX_MINUTES as i64,
                    minutes as i64,
                ),
            );
        }
        Ok(UtcOffset { seconds: minutes as i32 * 60 })
    }

    /// An offset of `seconds` seconds east of UTC, for `seconds` in `0..=86399`.
    pub fn east_seconds(seconds: u32) -> (r: Result<Self, ComponentRangeError>)
        ensures
            constructed(r, Component::Seconds, 0, 86399, seconds as int, seconds as int),
    {
        if seconds > MAX_SECONDS as u32 {
            return Err(
                out_of_range(Component::Seconds, 0, MAX_SECONDS as i64, seconds as i64),
            );
        }
        Ok(UtcOffset { seconds: seconds as i32 })
    }

    /// An offset of `seconds` seconds west of UTC, for `seconds` in `0..=86399`.
    pub fn west_seconds(seconds: u32) -> (r: Result<Self, ComponentRangeError>)
        ensures
            constructed(r, Component::Seconds, 0, 86399, seconds as int, -seconds),
    {
        if seconds > MAX_SECONDS as u32 {
            return Err(
                out_of_range(Component::Seconds, 0, MAX_SECONDS as i64, seconds as i64),
            );
        }
        Ok(UtcOffset { seconds: -(seconds as i32) })
    }

    /// An offset of `seconds` seconds, east when positive, for `seconds` in
    /// `-86399..=86399`.
    pub fn seconds(seconds: i32) -> (r: Result<Self, ComponentRangeError>)
        ensures
            constructed(r, Component::Seconds, -86399, 86399, seconds as int, seconds as int),
    {
        if seconds < -MAX_SECONDS || seconds > MAX_SECONDS {
            return Err(
                out_of_range(
                    Component::Seconds,
                    -MAX_SECONDS as i64,
                    MAX_SECONDS as i64,
                    seconds as i64,
                ),
            );
        }
        Ok(UtcOffset { seconds })
    }

    /// An offset of `seconds` seconds with no check at run time: the caller
    /// owes the bound, for values it has already shown to be in range (such as
    /// literals).
    pub fn seconds_unchecked(seconds: i32) -> (r: Self)
        requires
            -86399 <= seconds <= 86399,
        ensures
            r@ == seconds,
    {
        UtcOffset { seconds }
    }

    /// The number of seconds east of UTC (negative for west).
    pub fn as_seconds(self) -> (r: i32)
        ensures
            r == self@,
            self.wf(),
    {
        proof {
            use_type_invariant(&self);
        }
        self.seconds
    }

    /// The number of whole minutes east of UTC, rounded toward zero.
    pub fn as_minutes(self) -> (r: i16)
        ensures
            r == div_trunc(self@, 60),
            self.wf(),
    {
        proof {
            use_type_invariant(&self);
        }
        if self.seconds >= 0 {
            (self.seconds / 60) as i16
        } else {
            -((-self.seconds / 60) as i16)
        }
    }

    /// The number of whole hours east of UTC, rounded toward zero.
    pub fn as_hours(self) -> (r: i8)
        ensures
            r == div_trunc(self@, 3600),
            self.wf(),
    {
        proof {
            use_type_invariant(&self);
        }
        if self.seconds >= 0 {
            (self.seconds / 3_600) as i8
        } else {
            -((-self.seconds / 3_600) as i8)
        }
    }

    /// The offset as a signed duration of the same number of seconds.
    pub fn as_duration(self) -> (r: Duration)
        ensures
            r@ == self@,
    {
        proof {
            use_type_invariant(&self);
        }
        Duration::seconds(self.seconds as i64)
    }
}

/// The number of seconds of an optional offset.
pub open spec fn option_view(o: Option<UtcOffset>) -> Option<int> {
    match o {
        Some(o) => Some(o@),
        None => None,
    }
}

/// An hour count in range makes an offset that reads back as the same number
/// of hours, and as sixty times as many minutes.
pub proof fn lemma_hours_read_back(hours: i8, r: Result<UtcOffset, ComponentRangeError>)
    requires
        -23 <= hours <= 23,
        constructed(r, Component::Hours, -23, 23, hours as int, hours * 3600),
    ensures
        r is Ok,
        div_trunc(r->Ok_0@, 3600) == hours,
        div_trunc(r->Ok_0@, 60) == hours * 60,
{
}

/// A minute count in range makes an offset of sixty times as many seconds.
pub proof fn lemma_minutes_read_back(minutes: i16, r: Result<UtcOffset, ComponentRangeError>)
    requires
        -1439 <= minutes <= 1439,
        constructed(r, Component::Minutes, -1439, 1439, minutes as int, minutes * 60),
    ensures
        r is Ok,
        r->Ok_0@ == minutes * 60,
{
}

/// A signed span of whole seconds, for arithmetic with offsets.
#[derive(Debug, Clone, Copy, PartialEq, Eq, Structural, Hash, PartialOrd, Ord)]
pub struct Duration {
    seconds: i64,
}

impl View for Duration {
    type V = int;

    /// The signed number of seconds.
    closed spec fn view(&self) -> int {
        self.seconds as int
    }
}

impl Duration {
    /// A span of `seconds` seconds.
    pub fn seconds(seconds: i64) -> (r: Self)
        ensures
            r@ == seconds,
    {
        Duration { seconds }
    }

    /// A span of `hours` hours.
    pub fn hours(hours: i64) -> (r: Self)
        requires
            i64::MIN <= hours * 3600 <= i64::MAX,
        ensures
            r@ == hours * 3600,
    {
        Duration { seconds: hours * 3_600 }
    }

    /// The number of whole seconds in the span.
    pub fn whole_seconds(self) -> (r: i64)
        ensures
            r == self@,
    {
        self.seconds
    }
}

} // verus!
