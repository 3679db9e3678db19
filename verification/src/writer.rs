//! The device-facing side: which enumerated raw-HID handles qualify as
//! display devices, and the exact packet to send for one effective volume.
//! The blocking write and read themselves happen outside this library; the
//! response that comes back is judged by [`crate::codec::check_response`].

use vstd::prelude::*;
use crate::codec::{
    MAX_LEVEL, VOLUME_SCALE, encode_set_volume, encoded_packet, level_from_volume,
    level_rounds_to, lemma_level_unique,
};

verus! {

/// The usage page a display device's raw-HID interface must expose.
pub const USAGE_PAGE: u16 = 0xFF60;

/// The usage a display device's raw-HID interface must expose.
pub const USAGE: u16 = 0x61;

/// Filter for specific devices among the enumerated raw-HID handles.
#[derive(Clone, Copy, PartialEq, Eq, Structural, Debug)]
pub enum Filter {
    /// Do not filter beyond the usage-page and usage restriction.
    Any,
    /// Filter by vendor id.
    Vendor(u16),
    /// Filter by vendor id and product id.
    Product(u16, u16),
}

/// Whether a device with these interface properties is addressed: it must
/// expose the fixed usage page and usage, and satisfy the filter's vendor
/// and product restriction.
pub open spec fn filter_matches(
    f: Filter,
    usage_page: u16,
    usage: u16,
    vendor_id: u16,
    product_id: u16,
) -> bool {
    &&& usage_page == USAGE_PAGE
    &&& usage == USAGE
    &&& match f {
        Filter::Any => true,
        Filter::Vendor(v) => vendor_id == v,
        Filter::Product(v, p) => vendor_id == v && product_id == p,
    }
}

impl Filter {
    /// Decides whether one enumerated device, by the properties its info
    /// record reports, is addressed under this filter.
    pub fn filter(self, usage_page: u16, usage: u16, vendor_id: u16, product_id: u16) -> (r:
        bool)
        ensures
            r == filter_matches(self, usage_page, usage, vendor_id, product_id),
    {
        usage_page == USAGE_PAGE && usage == USAGE && match self {
            Filter::Any => true,
            Filter::Vendor(vendor) => vendor_id == vendor,
            Filter::Product(vendor, product) => vendor_id == vendor && product_id == product,
        }
    }
}

/// Builds the exact packet announcing one effective volume: the linear
/// fraction is compressed to its display level and framed as a set-volume
/// command. The level a correct scaling yields is always in range, so this
/// never fails.
pub fn build_volume_packet(volume: u32, muted: bool) -> (r: Vec<u8>)
    requires
        volume <= VOLUME_SCALE,
    ensures
        forall|l: u8|
            level_rounds_to(volume as int, l as int) ==> r@ == encoded_packet(l, muted),
        exists|l: u8| level_rounds_to(volume as int, l as int) && r@ == encoded_packet(l, muted),
{
    let level = level_from_volume(volume);
    match encode_set_volume(level, muted) {
        Ok(buf) => {
            proof {
                assert forall|l: u8| level_rounds_to(volume as int, l as int) implies buf@
                    == encoded_packet(l, muted) by {
                    lemma_level_unique(volume as int, l as int, level as int);
                }
            }
            buf
        },
        Err(_) => {
            // Unreachable: the scaling only yields levels in range.
            proof {
                assert(level <= MAX_LEVEL);
                assert(false);
            }
            Vec::new()
        },
    }
}

} // verus!
