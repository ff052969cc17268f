//! Wavelength channels and the lane that each one takes within a link.
//!
//! A link is drawn as a cone between two boundary rays, each turned away from
//! the link's axis by the boundary half-angle. Every channel has its own lane
//! in that cone, turned away from the axis by a fraction of the half-angle
//! that depends on the channel alone. All quantities here are exact ratios of
//! integers.
use vstd::prelude::*;

verus! {

/// The number of wavelength channels of a link in the standard grid.
pub const MAX_WAVELENGTHS: u32 = 80;

/// A ratio of two integers, with a positive denominator.
#[derive(Clone, Copy, Debug, PartialEq, Eq)]
pub struct Ratio {
    pub num: i64,
    pub den: i64,
}

/// The channel that a service with the given wavelength index is drawn on:
/// the index itself where it is one of the `capacity` channels, the last
/// channel otherwise.
pub open spec fn effective_channel(capacity: int, wavelength: int) -> int {
    if 0 <= wavelength < capacity {
        wavelength
    } else {
        capacity - 1
    }
}

/// Numerator of the spread factor `(channel - (capacity - 1) / 2) / ((capacity - 1) / 2)`,
/// over the denominator `spread_den`.
pub open spec fn spread_num(capacity: int, channel: int) -> int {
    2 * channel - (capacity - 1)
}

/// Denominator of the spread factor.
pub open spec fn spread_den(capacity: int) -> int {
    capacity - 1
}

/// Numerator of a lane's angular offset, in units of the boundary half-angle:
/// the spread factor times 95/100.
pub open spec fn angle_num(capacity: int, channel: int) -> int {
    19 * spread_num(capacity, channel)
}

/// Denominator of a lane's angular offset.
pub open spec fn angle_den(capacity: int) -> int {
    20 * spread_den(capacity)
}

/// Numerator of a channel's hue in degrees, `(channel + 1/2) / capacity * 180 + 30`,
/// over the denominator `capacity`.
pub open spec fn hue_num(capacity: int, channel: int) -> int {
    (2 * channel + 1) * 90 + 30 * capacity
}

/// A grid of wavelength channels, numbered from 0. It has at least two
/// channels, so that the outermost lanes lie on either side of the axis.
pub struct ChannelGrid {
    capacity: u32,
}

impl ChannelGrid {
    #[verifier::type_invariant]
    spec fn well_formed(self) -> bool {
        self.capacity >= 2
    }

    /// The number of channels.
    pub closed spec fn capacity_spec(self) -> int {
        self.capacity as int
    }

    /// A grid of `capacity` channels, where `capacity` is at least 2.
    pub fn new(capacity: u32) -> (grid: Option<ChannelGrid>)
        ensures
            capacity >= 2 ==> grid is Some && grid->0.capacity_spec() == capacity,
            capacity < 2 ==> grid is None,
    {
        if capacity >= 2 {
            Some(ChannelGrid { capacity })
        } else {
            None
        }
    }

    /// The standard grid of `MAX_WAVELENGTHS` channels.
    pub fn standard() -> (grid: ChannelGrid)
        ensures
            grid.capacity_spec() == MAX_WAVELENGTHS,
    {
        ChannelGrid { capacity: MAX_WAVELENGTHS }
    }

    /// The number of channels.
    pub fn capacity(&self) -> (capacity: u32)
        ensures
            capacity == self.capacity_spec(),
            capacity >= 2,
    {
        proof {
            use_type_invariant(self);
        }
        self.capacity
    }

    /// The channel that a service with the given wavelength index is drawn
    /// on, and whether the index was out of range.
    pub fn effective_channel(&self, wavelength: i32) -> (r: (u32, bool))
        ensures
            r.0 == effective_channel(self.capacity_spec(), wavelength as int),
            r.0 < self.capacity_spec(),
            r.1 == !(0 <= wavelength < self.capacity_spec()),
    {
        proof {
            use_type_invariant(self);
        }
        if wavelength >= 0 && (wavelength as u32) < self.capacity {
            (wavelength as u32, false)
        } else {
            (self.capacity - 1, true)
        }
    }

    /// The spread factor of a channel: -1 for channel 0, 1 for the last
    /// channel, and evenly spaced between.
    pub fn spread_factor(&self, channel: u32) -> (f: Ratio)
        ensures
            f.num == spread_num(self.capacity_spec(), channel as int),
            f.den == spread_den(self.capacity_spec()),
            f.den > 0,
            channel < self.capacity_spec() ==> -f.den <= f.num <= f.den,
    {
        proof {
            use_type_invariant(self);
        }
        let span: i64 = (self.capacity - 1) as i64;
        Ratio { num: 2 * (channel as i64) - span, den: span }
    }

    /// The angular offset of a channel's lane from the axis of its link, as a
    /// fraction of the boundary half-angle: 95/100 of the spread factor. A
    /// lane of the grid stays strictly inside the cone.
    pub fn spread_angle(&self, channel: u32) -> (a: Ratio)
        ensures
            a.num == angle_num(self.capacity_spec(), channel as int),
            a.den == angle_den(self.capacity_spec()),
            a.den > 0,
            channel < self.capacity_spec() ==> -a.den < a.num < a.den,
    {
        let f = self.spread_factor(channel);
        Ratio { num: 19 * f.num, den: 20 * f.den }
    }

    /// The hue of a channel in degrees.
    pub fn hue(&self, channel: u32) -> (h: Ratio)
        ensures
            h.num == hue_num(self.capacity_spec(), channel as int),
            h.den == self.capacity_spec(),
            h.den > 0,
            channel < self.capacity_spec() ==> 30 * h.den < h.num < 210 * h.den,
    {
        proof {
            use_type_invariant(self);
        }
        let capacity: i64 = self.capacity as i64;
        Ratio { num: (2 * (channel as i64) + 1) * 90 + 30 * capacity, den: capacity }
    }
}

/// Wavelength symmetry. Channel `i` and channel `capacity - 1 - i` have
/// opposite spread factors, and so opposite angular offsets. The spread
/// factor is zero for the channel in the middle and for no other, and a grid
/// with an odd number of channels has that channel: `(capacity - 1) / 2`.
pub proof fn lemma_wavelength_symmetry(capacity: int, channel: int)
    requires
        capacity >= 2,
        0 <= channel < capacity,
    ensures
        0 <= capacity - 1 - channel < capacity,
        spread_num(capacity, capacity - 1 - channel) == -spread_num(capacity, channel),
        angle_num(capacity, capacity - 1 - channel) == -angle_num(capacity, channel),
        spread_num(capacity, channel) == 0 <==> 2 * channel == capacity - 1,
        spread_num(capacity, channel) == 0 ==> angle_num(capacity, channel) == 0,
        capacity % 2 == 1 ==> spread_num(capacity, (capacity - 1) / 2) == 0 && angle_num(
            capacity,
            (capacity - 1) / 2,
        ) == 0,
{
}

/// No-overlap bound. Whatever wavelength index a service carries, the lane
/// of its effective channel is turned from the axis by at most 95/100 of the
/// boundary half-angle, which is less than the half-angle: no lane crosses a
/// boundary ray.
pub proof fn lemma_no_overlap_bound(capacity: int, wavelength: int)
    requires
        capacity >= 2,
    ensures
        0 <= effective_channel(capacity, wavelength) < capacity,
        -spread_den(capacity) <= spread_num(capacity, effective_channel(capacity, wavelength))
            <= spread_den(capacity),
        -19 * angle_den(capacity) <= 20 * angle_num(
            capacity,
            effective_channel(capacity, wavelength),
        ) <= 19 * angle_den(capacity),
        19 * angle_den(capacity) < 20 * angle_den(capacity),
        -angle_den(capacity) < angle_num(capacity, effective_channel(capacity, wavelength))
            < angle_den(capacity),
{
}

} // verus!
