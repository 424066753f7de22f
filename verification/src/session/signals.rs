//! Node-wide settings that every session reads: padding, background modes,
//! outbound batching and the lifetime of connections.

use crate::time::Duration;
use vstd::prelude::*;

verus! {

/// The shortest lifetime that connections can be given, in seconds.
pub const MIN_SESSION_MAX_AGE_SECS: u64 = 60;

/// The largest factor by which keepalives are stretched in the background.
pub const MAX_MOBILE_BACKGROUND_KEEPALIVE_MULTIPLIER: u32 = 120;

/// The factor by which keepalives are stretched while in the background with the
/// interface alive.
pub const MOBILE_ACTIVE_TIER_MULTIPLIER: u32 = 2;

/// Stands for a battery threshold that is not configured.
pub const MOBILE_LOW_BATTERY_THRESHOLD_DISABLED: u8 = 255;

/// The longest window in which outbound frames are held back, in milliseconds.
pub const MAX_MOBILE_OUTBOUND_BATCH_WINDOW_MS: u32 = 1000;

/// The settings of a node.
#[derive(Clone, Copy, Debug, PartialEq, Eq, Structural)]
pub struct Signals {
    padding_enabled: bool,
    background_tier: u8,
    keepalive_multiplier: u32,
    low_battery_threshold_pct: u8,
    outbound_batch_window_ms: u32,
    session_min_age_secs: u64,
    session_max_age_secs: u64,
}

/// What the settings of a node are.
pub struct SignalValues {
    pub padding_enabled: bool,
    pub background_tier: u8,
    pub keepalive_multiplier: u32,
    pub low_battery_threshold_pct: u8,
    pub outbound_batch_window_ms: u32,
    pub session_min_age_secs: u64,
    pub session_max_age_secs: u64,
}

impl View for Signals {
    type V = SignalValues;

    closed spec fn view(&self) -> SignalValues {
        SignalValues {
            padding_enabled: self.padding_enabled,
            background_tier: self.background_tier,
            keepalive_multiplier: self.keepalive_multiplier,
            low_battery_threshold_pct: self.low_battery_threshold_pct,
            outbound_batch_window_ms: self.outbound_batch_window_ms,
            session_min_age_secs: self.session_min_age_secs,
            session_max_age_secs: self.session_max_age_secs,
        }
    }
}

impl SignalValues {
    /// Whether the settings are ones that the setters can leave behind.
    pub open spec fn sound(self) -> bool {
        &&& self.background_tier <= 2
        &&& 1 <= self.keepalive_multiplier <= MAX_MOBILE_BACKGROUND_KEEPALIVE_MULTIPLIER
        &&& self.outbound_batch_window_ms <= MAX_MOBILE_OUTBOUND_BATCH_WINDOW_MS
    }
}

impl Signals {
    #[verifier::type_invariant]
    spec fn in_bounds(self) -> bool {
        self@.sound()
    }

    /// The settings of a node that nothing was configured for.
    pub fn new() -> (s: Signals)
        ensures
            s@ == (SignalValues {
                padding_enabled: false,
                background_tier: 0,
                keepalive_multiplier: 1,
                low_battery_threshold_pct: MOBILE_LOW_BATTERY_THRESHOLD_DISABLED,
                outbound_batch_window_ms: 0,
                session_min_age_secs: 0,
                session_max_age_secs: 0,
            }),
    {
        Signals {
            padding_enabled: false,
            background_tier: 0,
            keepalive_multiplier: 1,
            low_battery_threshold_pct: MOBILE_LOW_BATTERY_THRESHOLD_DISABLED,
            outbound_batch_window_ms: 0,
            session_min_age_secs: 0,
            session_max_age_secs: 0,
        }
    }
}

impl Default for Signals {
    fn default() -> (s: Signals)
        ensures
            s@ == (SignalValues {
                padding_enabled: false,
                background_tier: 0,
                keepalive_multiplier: 1,
                low_battery_threshold_pct: MOBILE_LOW_BATTERY_THRESHOLD_DISABLED,
                outbound_batch_window_ms: 0,
                session_min_age_secs: 0,
                session_max_age_secs: 0,
            }),
    {
        Signals::new()
    }
}

/// Switches padding of outbound writes on or off.
pub fn set_padding_enabled(signals: &mut Signals, on: bool)
    ensures
        final(signals)@ == (SignalValues { padding_enabled: on, ..old(signals)@ }),
{
    proof {
        use_type_invariant(&*signals);
    }
    signals.padding_enabled = on;
}

/// Whether outbound writes are padded.
pub fn padding_enabled(signals: &Signals) -> (on: bool)
    ensures
        on == signals@.padding_enabled,
{
    signals.padding_enabled
}

/// The tier that is kept for a requested one: an unknown one counts as the one
/// that saves most power.
pub open spec fn kept_tier(tier: u8) -> u8 {
    if tier > 2 {
        2
    } else {
        tier
    }
}

/// Sets the background tier: foreground, active or low power.
pub fn set_mobile_background_tier(signals: &mut Signals, tier: u8)
    ensures
        final(signals)@ == (SignalValues { background_tier: kept_tier(tier), ..old(signals)@ }),
{
    proof {
        use_type_invariant(&*signals);
    }
    signals.background_tier = if tier > 2 {
        2
    } else {
        tier
    };
}

/// Switches between foreground and low power.
pub fn set_mobile_background_mode(signals: &mut Signals, enabled: bool)
    ensures
        final(signals)@ == (SignalValues {
            background_tier: if enabled {
                2
            } else {
                0
            },
            ..old(signals)@
        }),
{
    set_mobile_background_tier(
        signals,
        if enabled {
            2
        } else {
            0
        },
    );
}

/// The factor that is kept for a requested one.
pub open spec fn kept_multiplier(multiplier: u32) -> u32 {
    if multiplier < 1 {
        1
    } else if multiplier > MAX_MOBILE_BACKGROUND_KEEPALIVE_MULTIPLIER {
        MAX_MOBILE_BACKGROUND_KEEPALIVE_MULTIPLIER
    } else {
        multiplier
    }
}

/// Sets the factor by which keepalives are stretched at low power.
pub fn set_mobile_background_keepalive_multiplier(signals: &mut Signals, multiplier: u32)
    ensures
        final(signals)@ == (SignalValues {
            keepalive_multiplier: kept_multiplier(multiplier),
            ..old(signals)@
        }),
{
    proof {
        use_type_invariant(&*signals);
    }
    signals.keepalive_multiplier = if multiplier < 1 {
        1
    } else if multiplier > MAX_MOBILE_BACKGROUND_KEEPALIVE_MULTIPLIER {
        MAX_MOBILE_BACKGROUND_KEEPALIVE_MULTIPLIER
    } else {
        multiplier
    };
}

/// The background tier.
pub fn current_mobile_background_tier(signals: &Signals) -> (tier: u8)
    ensures
        tier == signals@.background_tier,
        tier <= 2,
{
    proof {
        use_type_invariant(signals);
    }
    signals.background_tier
}

/// The factor that applies to keepalives under given settings. Without a
/// configured factor nothing is stretched.
pub open spec fn keepalive_factor(v: SignalValues) -> u32 {
    if v.keepalive_multiplier <= 1 || v.background_tier == 0 {
        1
    } else if v.background_tier == 1 {
        MOBILE_ACTIVE_TIER_MULTIPLIER
    } else {
        v.keepalive_multiplier
    }
}

/// The factor that applies to keepalives now.
pub fn current_mobile_background_keepalive_factor(signals: &Signals) -> (factor: u32)
    ensures
        factor == keepalive_factor(signals@),
        1 <= factor <= MAX_MOBILE_BACKGROUND_KEEPALIVE_MULTIPLIER,
{
    proof {
        use_type_invariant(signals);
    }
    if signals.keepalive_multiplier <= 1 {
        return 1;
    }
    match signals.background_tier {
        0 => 1,
        1 => MOBILE_ACTIVE_TIER_MULTIPLIER,
        _ => signals.keepalive_multiplier,
    }
}

/// Whether maintenance that can wait is left out: only at low power.
pub fn should_suppress_background_maintenance(signals: &Signals) -> (b: bool)
    ensures
        b == (signals@.background_tier == 2),
{
    signals.background_tier == 2
}

/// The configured factor for low power.
pub fn current_mobile_background_keepalive_multiplier(signals: &Signals) -> (multiplier: u32)
    ensures
        multiplier == signals@.keepalive_multiplier,
        1 <= multiplier <= MAX_MOBILE_BACKGROUND_KEEPALIVE_MULTIPLIER,
{
    proof {
        use_type_invariant(signals);
    }
    signals.keepalive_multiplier
}

/// Sets the battery level from which on down power is saved, or none.
pub fn set_mobile_low_battery_threshold_pct(signals: &mut Signals, threshold: Option<u8>)
    ensures
        final(signals)@ == (SignalValues {
            low_battery_threshold_pct: match threshold {
                Some(t) => t,
                None => MOBILE_LOW_BATTERY_THRESHOLD_DISABLED,
            },
            ..old(signals)@
        }),
{
    proof {
        use_type_invariant(&*signals);
    }
    signals.low_battery_threshold_pct = match threshold {
        Some(t) => t,
        None => MOBILE_LOW_BATTERY_THRESHOLD_DISABLED,
    };
}

/// Sets the window in which outbound frames are held back, in milliseconds.
pub fn set_mobile_outbound_batch_window_ms(signals: &mut Signals, ms: u32)
    ensures
        final(signals)@ == (SignalValues {
            outbound_batch_window_ms: if ms > MAX_MOBILE_OUTBOUND_BATCH_WINDOW_MS {
                MAX_MOBILE_OUTBOUND_BATCH_WINDOW_MS
            } else {
                ms
            },
            ..old(signals)@
        }),
{
    proof {
        use_type_invariant(&*signals);
    }
    signals.outbound_batch_window_ms = if ms > MAX_MOBILE_OUTBOUND_BATCH_WINDOW_MS {
        MAX_MOBILE_OUTBOUND_BATCH_WINDOW_MS
    } else {
        ms
    };
}

/// Whether outbound frames are held back at a battery level: a window and a
/// threshold are configured, and the level is at the threshold or below. The
/// level zero stands for mains power.
pub open spec fn batches_at(v: SignalValues, battery_pct: u8) -> bool {
    &&& v.outbound_batch_window_ms != 0
    &&& v.low_battery_threshold_pct != MOBILE_LOW_BATTERY_THRESHOLD_DISABLED
    &&& 0 < battery_pct <= v.low_battery_threshold_pct
}

/// The window in which outbound frames are held back at a battery level.
pub fn current_outbound_batch_window(signals: &Signals, battery_pct: u8) -> (r: Option<Duration>)
    ensures
        r is Some == batches_at(signals@, battery_pct),
        r matches Some(d) ==> d@ == signals@.outbound_batch_window_ms * crate::time::NANOS_PER_MILLI,
{
    if signals.outbound_batch_window_ms == 0 || signals.low_battery_threshold_pct
        == MOBILE_LOW_BATTERY_THRESHOLD_DISABLED || battery_pct == 0 || battery_pct
        > signals.low_battery_threshold_pct {
        return None;
    }
    Some(Duration::from_millis(signals.outbound_batch_window_ms as u64))
}

/// The lifetime that is kept for a requested one: none, or at least the shortest.
pub open spec fn kept_age(secs: u64) -> u64 {
    if secs == 0 {
        0
    } else if secs < MIN_SESSION_MAX_AGE_SECS {
        MIN_SESSION_MAX_AGE_SECS
    } else {
        secs
    }
}

fn keep_age(secs: u64) -> (r: u64)
    ensures
        r == kept_age(secs),
{
    if secs == 0 {
        0
    } else if secs < MIN_SESSION_MAX_AGE_SECS {
        MIN_SESSION_MAX_AGE_SECS
    } else {
        secs
    }
}

/// Sets one lifetime for connections, in seconds; zero means without end.
pub fn set_session_max_age_secs(signals: &mut Signals, secs: u64)
    ensures
        final(signals)@ == (SignalValues {
            session_min_age_secs: 0,
            session_max_age_secs: kept_age(secs),
            ..old(signals)@
        }),
{
    proof {
        use_type_invariant(&*signals);
    }
    signals.session_max_age_secs = keep_age(secs);
    signals.session_min_age_secs = 0;
}

/// The lower end that is kept for a requested range of lifetimes: not above the
/// upper end.
pub open spec fn kept_min_age(min_secs: u64, max_secs: u64) -> u64 {
    if kept_age(min_secs) > kept_age(max_secs) {
        kept_age(max_secs)
    } else {
        kept_age(min_secs)
    }
}

/// Sets the range from which the lifetime of a connection is drawn, in seconds. An
/// upper end of zero means lifetimes without end, whatever the lower end.
pub fn set_session_rotation_range(signals: &mut Signals, min_secs: u64, max_secs: u64)
    ensures
        final(signals)@ == (SignalValues {
            session_min_age_secs: kept_min_age(min_secs, max_secs),
            session_max_age_secs: kept_age(max_secs),
            ..old(signals)@
        }),
{
    proof {
        use_type_invariant(&*signals);
    }
    let max_stored: u64 = keep_age(max_secs);
    let wanted: u64 = keep_age(min_secs);
    signals.session_max_age_secs = max_stored;
    signals.session_min_age_secs = if wanted > max_stored {
        max_stored
    } else {
        wanted
    };
}

/// The upper end of the lifetimes, in seconds; zero means without end.
pub fn current_session_max_age_secs(signals: &Signals) -> (secs: u64)
    ensures
        secs == signals@.session_max_age_secs,
{
    signals.session_max_age_secs
}

/// Sets the range of lifetimes as it is, for trials that cannot wait a minute.
pub fn set_session_rotation_range_unchecked_for_tests(
    signals: &mut Signals,
    min_secs: u64,
    max_secs: u64,
)
    ensures
        final(signals)@ == (SignalValues {
            session_min_age_secs: min_secs,
            session_max_age_secs: max_secs,
            ..old(signals)@
        }),
{
    proof {
        use_type_invariant(&*signals);
    }
    signals.session_max_age_secs = max_secs;
    signals.session_min_age_secs = min_secs;
}

/// The range of lifetimes under given settings: two zeros where there is no longest
/// lifetime.
pub open spec fn rotation_range(v: SignalValues) -> (u64, u64) {
    if v.session_max_age_secs == 0 {
        (0, 0)
    } else if v.session_min_age_secs > v.session_max_age_secs {
        (v.session_max_age_secs, v.session_max_age_secs)
    } else {
        (v.session_min_age_secs, v.session_max_age_secs)
    }
}

/// The range of lifetimes now, in seconds.
pub fn current_session_rotation_range(signals: &Signals) -> (r: (u64, u64))
    ensures
        r == rotation_range(signals@),
{
    if signals.session_max_age_secs == 0 {
        (0, 0)
    } else if signals.session_min_age_secs > signals.session_max_age_secs {
        (signals.session_max_age_secs, signals.session_max_age_secs)
    } else {
        (signals.session_min_age_secs, signals.session_max_age_secs)
    }
}

/// Whatever range is set, the lower end that is read back is not above the upper
/// end, neither end is below the shortest lifetime unless it is zero, and a range
/// without upper end is read back as two zeros.
pub proof fn rotation_range_is_ordered(v: SignalValues, min_secs: u64, max_secs: u64)
    ensures
        ({
            let (lo, hi) = rotation_range(
                SignalValues {
                    session_min_age_secs: kept_min_age(min_secs, max_secs),
                    session_max_age_secs: kept_age(max_secs),
                    ..v
                },
            );
            &&& lo <= hi
            &&& hi == 0 || hi >= MIN_SESSION_MAX_AGE_SECS
            &&& lo == 0 || lo >= MIN_SESSION_MAX_AGE_SECS
            &&& min_secs == 0 ==> lo == 0
            &&& max_secs == 0 ==> lo == 0 && hi == 0
        }),
{
}

/// Even ends that were set unchecked are read back in order.
pub proof fn unchecked_range_is_read_in_order(v: SignalValues)
    ensures
        rotation_range(v).1 > 0 ==> rotation_range(v).0 <= rotation_range(v).1,
        rotation_range(v).1 == v.session_max_age_secs,
{
}

/// The deeper the tier, the more keepalives are stretched, and in the foreground
/// they never are.
pub proof fn deeper_tier_stretches_more(v: SignalValues, tier: u8)
    requires
        v.keepalive_multiplier >= MOBILE_ACTIVE_TIER_MULTIPLIER,
        tier <= v.background_tier,
    ensures
        keepalive_factor(SignalValues { background_tier: tier, ..v }) <= keepalive_factor(v),
        keepalive_factor(SignalValues { background_tier: 0, ..v }) == 1,
{
}

/// A node starts with everything switched off: no padding, in the foreground, nothing
/// stretched, no threshold, no batching, and connections without an end.
pub proof fn a_node_starts_with_nothing_configured(
    s: Signals,
    battery: u8,
    padding: bool,
    tier: u8,
    factor: u32,
    window: Option<Duration>,
    range: (u64, u64),
)
    requires
        call_ensures(Signals::new, (), s),
        call_ensures(padding_enabled, (&s,), padding),
        call_ensures(current_mobile_background_tier, (&s,), tier),
        call_ensures(current_mobile_background_keepalive_factor, (&s,), factor),
        call_ensures(current_outbound_batch_window, (&s, battery), window),
        call_ensures(current_session_rotation_range, (&s,), range),
    ensures
        !padding,
        tier == 0,
        factor == 1,
        window is None,
        range == (0u64, 0u64),
{
}

/// What is set is what is read, and nothing else changes with it.
pub proof fn padding_is_as_it_was_set(s: &mut Signals, on: bool, read: bool)
    requires
        call_ensures(set_padding_enabled, (s, on), ()),
        call_ensures(padding_enabled, (&*final(s),), read),
    ensures
        read == on,
        final(s)@.background_tier == old(s)@.background_tier,
        final(s)@.keepalive_multiplier == old(s)@.keepalive_multiplier,
        final(s)@.low_battery_threshold_pct == old(s)@.low_battery_threshold_pct,
        final(s)@.outbound_batch_window_ms == old(s)@.outbound_batch_window_ms,
        final(s)@.session_min_age_secs == old(s)@.session_min_age_secs,
        final(s)@.session_max_age_secs == old(s)@.session_max_age_secs,
{
}

/// How far keepalives are stretched in each tier, for each factor that is asked for: not
/// in the foreground, twofold while active, by the factor at low power, which is brought
/// between one and a hundred and twenty. Without a factor above one nothing is stretched.
/// An unknown tier is low power, at which alone maintenance is left out.
pub proof fn tiers_stretch_keepalives(
    s: &mut Signals,
    multiplier: u32,
    t: &mut Signals,
    tier: u8,
    factor: u32,
    suppressed: bool,
    read: u8,
    kept: u32,
)
    requires
        call_ensures(set_mobile_background_keepalive_multiplier, (s, multiplier), ()),
        *old(t) == *final(s),
        call_ensures(set_mobile_background_tier, (t, tier), ()),
        call_ensures(current_mobile_background_keepalive_factor, (&*final(t),), factor),
        call_ensures(should_suppress_background_maintenance, (&*final(t),), suppressed),
        call_ensures(current_mobile_background_tier, (&*final(t),), read),
        call_ensures(current_mobile_background_keepalive_multiplier, (&*final(t),), kept),
    ensures
        tier < 2 ==> read == tier,
        tier >= 2 ==> read == 2,
        suppressed <==> tier >= 2,
        tier == 0 || multiplier <= 1 ==> factor == 1,
        tier == 1 && multiplier > 1 ==> factor == 2,
        tier >= 2 && 1 < multiplier <= 120 ==> factor == multiplier,
        tier >= 2 && multiplier > 120 ==> factor == 120,
        multiplier == 0 ==> kept == 1,
        1 <= multiplier <= 120 ==> kept == multiplier,
        multiplier > 120 ==> kept == 120,
        final(t)@.padding_enabled == old(s)@.padding_enabled,
        final(t)@.outbound_batch_window_ms == old(s)@.outbound_batch_window_ms,
        final(t)@.session_max_age_secs == old(s)@.session_max_age_secs,
{
}

/// The switch between foreground and background is one between the foreground and low
/// power.
pub proof fn the_background_switch_saves_most_power(
    s: &mut Signals,
    enabled: bool,
    read: u8,
    suppressed: bool,
)
    requires
        call_ensures(set_mobile_background_mode, (s, enabled), ()),
        call_ensures(current_mobile_background_tier, (&*final(s),), read),
        call_ensures(should_suppress_background_maintenance, (&*final(s),), suppressed),
    ensures
        enabled ==> read == 2,
        !enabled ==> read == 0,
        suppressed == enabled,
        final(s)@.keepalive_multiplier == old(s)@.keepalive_multiplier,
{
}

/// When frames are held back and for how long: for the window that was set, a second at
/// most, at the battery level that was set or below; never on mains power, without a
/// window or without a level.
pub proof fn batching_follows_the_battery(
    s: &mut Signals,
    threshold: Option<u8>,
    t: &mut Signals,
    ms: u32,
    battery: u8,
    window: Option<Duration>,
)
    requires
        call_ensures(set_mobile_low_battery_threshold_pct, (s, threshold), ()),
        *old(t) == *final(s),
        call_ensures(set_mobile_outbound_batch_window_ms, (t, ms), ()),
        call_ensures(current_outbound_batch_window, (&*final(t), battery), window),
        threshold != Some(255u8),
    ensures
        window is Some <==> ms > 0 && battery > 0 && threshold is Some && battery <= threshold->0,
        window is Some && ms <= 1000 ==> window->0@ == ms * 1_000_000,
        window is Some && ms > 1000 ==> window->0@ == 1000 * 1_000_000,
        final(t)@.background_tier == old(s)@.background_tier,
        final(t)@.keepalive_multiplier == old(s)@.keepalive_multiplier,
{
}

/// The range of lifetimes that is read after one was set: no lifetime below a minute, the
/// lower end not above the upper, and none at all where the upper end is zero.
pub proof fn lifetimes_are_a_minute_or_more(
    s: &mut Signals,
    min: u64,
    max: u64,
    r: (u64, u64),
    longest: u64,
)
    requires
        call_ensures(set_session_rotation_range, (s, min, max), ()),
        call_ensures(current_session_rotation_range, (&*final(s),), r),
        call_ensures(current_session_max_age_secs, (&*final(s),), longest),
    ensures
        longest == r.1,
        max == 0 ==> r == (0u64, 0u64),
        0 < max < 60 ==> r.1 == 60,
        max >= 60 ==> r.1 == max,
        min == 0 ==> r.0 == 0,
        max > 0 && 0 < min < 60 ==> r.0 == 60,
        max > 0 && 60 <= min && min <= r.1 ==> r.0 == min,
        max > 0 && min > r.1 ==> r.0 == r.1,
{
}

/// A single lifetime is one without a lower end, of a minute at least.
pub proof fn one_lifetime_has_no_lower_end(s: &mut Signals, secs: u64, r: (u64, u64))
    requires
        call_ensures(set_session_max_age_secs, (s, secs), ()),
        call_ensures(current_session_rotation_range, (&*final(s),), r),
    ensures
        r.0 == 0,
        secs == 0 ==> r.1 == 0,
        0 < secs < 60 ==> r.1 == 60,
        secs >= 60 ==> r.1 == secs,
{
}

/// A range that is set unchecked is read as it is when its ends are in order.
pub proof fn unchecked_ranges_are_read_as_they_are(
    s: &mut Signals,
    min: u64,
    max: u64,
    r: (u64, u64),
)
    requires
        call_ensures(set_session_rotation_range_unchecked_for_tests, (s, min, max), ()),
        call_ensures(current_session_rotation_range, (&*final(s),), r),
    ensures
        0 < max && min <= max ==> r == (min, max),
        0 < max && min > max ==> r == (max, max),
        max == 0 ==> r == (0u64, 0u64),
{
}

} // verus!
