//! Asset scanner for opaque binary regions.
//!
//! Walks byte offsets applying cheap signature checks and each
//! codec's fast validator to discover asset extents without full
//! decoding.  On a hit the cursor jumps past the asset; on a miss it
//! crawls one byte forward, since embedded assets carry no directory
//! of their own.

use vstd::prelude::*;

use crate::bytes::{be32, le32, read_be32, read_le32};
use crate::formats::tim::{spec_validate_tim, Tim};
use crate::formats::tmd::{spec_parse_tmd, Tmd};

verus! {

/// Discovered asset in a container region.
#[derive(Debug, Clone, Copy, PartialEq, Eq, Structural)]
pub struct DiscoveredAsset {
    /// Offset in the region where the asset starts.
    pub offset: usize,
    /// Size of the asset in bytes.
    pub size: usize,
    /// Kind of asset discovered.
    pub asset_type: AssetType,
}

/// Kind of discovered asset.
#[derive(Debug, Clone, Copy, PartialEq, Eq, Structural)]
pub enum AssetType {
    /// Texture, with display dimensions.
    Tim {
        /// Display width in pixels.
        width: u16,
        /// Display height in pixels.
        height: u16,
    },
    /// Model, with its object count.
    Tmd {
        /// Number of objects.
        object_count: u32,
    },
    /// Audio sample.
    Vag,
}

/// Every texture occupies at least its two block headers, and at
/// most the header plus two maximal blocks.
pub proof fn lemma_tim_size_lower(d: Seq<u8>)
    ensures
        spec_validate_tim(d) matches Ok(t) ==> 20 <= t.2 <= 0x4000_0000,
{
}

/// The textures found in `d` from offset `o` on: at each offset whose
/// first word is the texture magic and where the fast validator
/// succeeds with a size of at least `min`, an asset is recorded and
/// the cursor jumps past it; otherwise the cursor crawls one byte.
pub open spec fn spec_scan_tim(d: Seq<u8>, o: int, min: int) -> Seq<DiscoveredAsset>
    decreases d.len() + 12 - o when o >= 0
{
    if o < 0 || o + 12 > d.len() {
        Seq::empty()
    } else if le32(d, o) == 0x10 {
        match spec_validate_tim(d.skip(o)) {
            Result::Ok((w, h, size)) => if size >= min && size >= 1 {
                seq![
                    DiscoveredAsset {
                        offset: o as usize,
                        size: size as usize,
                        asset_type: AssetType::Tim { width: w, height: h },
                    },
                ] + spec_scan_tim(
                    d,
                    if o + size > d.len() {
                        d.len() as int
                    } else {
                        o + size
                    },
                    min,
                )
            } else {
                spec_scan_tim(d, o + 1, min)
            },
            Result::Err(_) => spec_scan_tim(d, o + 1, min),
        }
    } else {
        spec_scan_tim(d, o + 1, min)
    }
}

/// The models found in `d` from offset `o` on: at each offset whose
/// first word is the model magic and that parses as a model, an asset
/// of the estimated size `12 + 1024 * objects` is recorded (models
/// carry no explicit size) and the cursor jumps past it.
pub open spec fn spec_scan_tmd(d: Seq<u8>, o: int, min: int) -> Seq<DiscoveredAsset>
    decreases d.len() + 12 - o when o >= 0
{
    if o < 0 || o + 12 > d.len() {
        Seq::empty()
    } else if le32(d, o) == 0x41 {
        match spec_parse_tmd(d.skip(o)) {
            Result::Ok((flags, objs)) => {
                let est = 12 + le32(d.skip(o), 8) * 1024;
                if est >= min && est >= 1 {
                    seq![
                        DiscoveredAsset {
                            offset: o as usize,
                            size: est as usize,
                            asset_type: AssetType::Tmd { object_count: le32(d.skip(o), 8) },
                        },
                    ] + spec_scan_tmd(
                        d,
                        if o + est > d.len() {
                            d.len() as int
                        } else {
                            o + est
                        },
                        min,
                    )
                } else {
                    spec_scan_tmd(d, o + 1, min)
                }
            },
            Result::Err(_) => spec_scan_tmd(d, o + 1, min),
        }
    } else {
        spec_scan_tmd(d, o + 1, min)
    }
}

/// The audio samples found in `d` from offset `o` on: at each offset
/// holding the sample magic, the declared data size plus the 48-byte
/// header gives the asset size; it is recorded when it is at least
/// `min` and fits in the region.
pub open spec fn spec_scan_vag(d: Seq<u8>, o: int, min: int) -> Seq<DiscoveredAsset>
    decreases d.len() + 48 - o when o >= 0
{
    if o < 0 || o + 48 > d.len() {
        Seq::empty()
    } else if le32(d, o) == 0x70474156 {
        let size = be32(d, o + 12) + 48;
        if size >= min && o + size <= d.len() {
            seq![
                DiscoveredAsset {
                    offset: o as usize,
                    size: size as usize,
                    asset_type: AssetType::Vag,
                },
            ] + spec_scan_vag(d, o + size, min)
        } else {
            spec_scan_vag(d, o + 1, min)
        }
    } else {
        spec_scan_vag(d, o + 1, min)
    }
}

/// Asset scanner over a binary region.
pub struct AssetScanner<'a> {
    data: &'a [u8],
    min_size: usize,
}

impl<'a> AssetScanner<'a> {
    /// The region being scanned.
    pub closed spec fn spec_data(&self) -> Seq<u8> {
        self.data@
    }

    /// The minimum asset size recorded.
    pub closed spec fn spec_min_size(&self) -> int {
        self.min_size as int
    }

    /// Create a scanner over `data` with the default 64-byte minimum
    /// asset size.
    pub fn new(data: &'a [u8]) -> (r: Self)
        ensures
            r.spec_data() == data@,
            r.spec_min_size() == 64,
    {
        Self { data, min_size: 64 }
    }

    /// Replace the minimum asset size filter.
    pub fn with_min_size(self, min_size: usize) -> (r: Self)
        ensures
            r.spec_data() == self.spec_data(),
            r.spec_min_size() == min_size,
    {
        Self { data: self.data, min_size }
    }

    /// Scan for all embedded assets, in offset order.
    ///
    /// Only the texture signature participates: it is the one
    /// structurally self-validating format among the three, and the
    /// result never holds overlapping ranges.
    pub fn scan(&self) -> (r: Vec<DiscoveredAsset>)
        ensures
            r@ == spec_scan_tim(self.spec_data(), 0, self.spec_min_size()),
            forall|i: int, j: int|
                0 <= i < j < r@.len() ==> #[trigger] r@[i].offset + r@[i].size
                    <= #[trigger] r@[j].offset,
    {
        let r = self.scan_tim();
        let region_len = self.data.len();
        proof {
            assert(self.spec_data().len() == region_len);
            lemma_scan_tim_no_overlap(self.spec_data(), 0, self.spec_min_size());
        }
        r
    }

    /// Scan for textures.
    pub fn scan_tim(&self) -> (r: Vec<DiscoveredAsset>)
        ensures
            r@ == spec_scan_tim(self.spec_data(), 0, self.spec_min_size()),
    {
        let d = self.data;
        let n = d.len();
        let mut assets: Vec<DiscoveredAsset> = Vec::new();
        let mut offset: usize = 0;
        loop
            invariant
                0 <= offset,
                n == d@.len(),
                d@ == self.spec_data(),
                spec_scan_tim(d@, 0, self.spec_min_size()) == assets@ + spec_scan_tim(
                    d@,
                    offset as int,
                    self.spec_min_size(),
                ),
                self.spec_min_size() == self.min_size,
            ensures
                spec_scan_tim(d@, 0, self.spec_min_size()) == assets@,
            decreases d@.len() + 12 - offset,
        {
            if n < 12 || offset > n - 12 {
                assert(spec_scan_tim(d@, offset as int, self.spec_min_size())
                    =~= Seq::<DiscoveredAsset>::empty());
                assert(assets@ + Seq::<DiscoveredAsset>::empty() =~= assets@);
                break ;
            }
            let magic = read_le32(d, offset);
            if magic == 0x10 {
                let tail = &d[offset..n];
                assert(tail@ =~= d@.skip(offset as int));
                match Tim::validate(tail) {
                    Ok((w, h, size)) => {
                        proof {
                            lemma_tim_size_lower(d@.skip(offset as int));
                        }
                        if size >= self.min_size {
                            let ghost a0 = assets@;
                            let a = DiscoveredAsset {
                                offset,
                                size,
                                asset_type: AssetType::Tim { width: w, height: h },
                            };
                            assets.push(a);
                            proof {
                                let o2 = if offset as int + size as int > n as int {
                                    n as int
                                } else {
                                    offset as int + size as int
                                };
                                let next = spec_scan_tim(d@, o2, self.spec_min_size());
                                assert(a0 + (seq![a] + next) =~= assets@ + next);
                            }
                            if size > n - offset {
                                // The asset runs to the region's end.
                                offset = n;
                            } else {
                                offset = offset + size;
                            }
                        } else {
                            offset = offset + 1;
                        }
                    },
                    Err(_) => {
                        offset = offset + 1;
                    },
                }
            } else {
                offset = offset + 1;
            }
        }
        assets
    }

    /// Scan for models.
    ///
    /// A model's size is estimated from its object count, since the
    /// format has no explicit size field.
    pub fn scan_tmd(&self) -> (r: Vec<DiscoveredAsset>)
        ensures
            r@ == spec_scan_tmd(self.spec_data(), 0, self.spec_min_size()),
    {
        let d = self.data;
        let n = d.len();
        let mut assets: Vec<DiscoveredAsset> = Vec::new();
        let mut offset: usize = 0;
        loop
            invariant
                0 <= offset,
                n == d@.len(),
                d@ == self.spec_data(),
                spec_scan_tmd(d@, 0, self.spec_min_size()) == assets@ + spec_scan_tmd(
                    d@,
                    offset as int,
                    self.spec_min_size(),
                ),
                self.spec_min_size() == self.min_size,
            ensures
                spec_scan_tmd(d@, 0, self.spec_min_size()) == assets@,
            decreases d@.len() + 12 - offset,
        {
            if n < 12 || offset > n - 12 {
                assert(spec_scan_tmd(d@, offset as int, self.spec_min_size())
                    =~= Seq::<DiscoveredAsset>::empty());
                assert(assets@ + Seq::<DiscoveredAsset>::empty() =~= assets@);
                break ;
            }
            let magic = read_le32(d, offset);
            if magic == 0x41 {
                let tail = &d[offset..n];
                assert(tail@ =~= d@.skip(offset as int));
                match Tmd::parse(tail) {
                    Ok(tmd) => {
                        let object_count = read_le32(tail, 8);
                        assert(object_count == le32(d@.skip(offset as int), 8));
                        let est64 = 12u64 + object_count as u64 * 1024;
                        if est64 >= self.min_size as u64 {
                            let ghost a0 = assets@;
                            let ghost est_int = 12 + le32(d@.skip(offset as int), 8) * 1024;
                            let a = DiscoveredAsset {
                                offset,
                                size: est64 as usize,
                                asset_type: AssetType::Tmd { object_count },
                            };
                            assets.push(a);
                            proof {
                                let o2 = if offset as int + est_int > n as int {
                                    n as int
                                } else {
                                    offset as int + est_int
                                };
                                let next = spec_scan_tmd(d@, o2, self.spec_min_size());
                                assert(a0 + (seq![a] + next) =~= assets@ + next);
                            }
                            if est64 > (n - offset) as u64 {
                                // The estimate runs past the region's
                                // end; the scan stops there.
                                offset = n;
                            } else {
                                offset = offset + est64 as usize;
                            }
                        } else {
                            offset = offset + 1;
                        }
                    },
                    Err(_) => {
                        offset = offset + 1;
                    },
                }
            } else {
                offset = offset + 1;
            }
        }
        assets
    }

    /// Scan for audio samples by their header magic and declared
    /// size.
    pub fn scan_vag(&self) -> (r: Vec<DiscoveredAsset>)
        ensures
            r@ == spec_scan_vag(self.spec_data(), 0, self.spec_min_size()),
    {
        let d = self.data;
        let n = d.len();
        let mut assets: Vec<DiscoveredAsset> = Vec::new();
        let mut offset: usize = 0;
        loop
            invariant
                0 <= offset,
                n == d@.len(),
                d@ == self.spec_data(),
                spec_scan_vag(d@, 0, self.spec_min_size()) == assets@ + spec_scan_vag(
                    d@,
                    offset as int,
                    self.spec_min_size(),
                ),
                self.spec_min_size() == self.min_size,
            ensures
                spec_scan_vag(d@, 0, self.spec_min_size()) == assets@,
            decreases d@.len() + 48 - offset,
        {
            if n < 48 || offset > n - 48 {
                assert(spec_scan_vag(d@, offset as int, self.spec_min_size())
                    =~= Seq::<DiscoveredAsset>::empty());
                assert(assets@ + Seq::<DiscoveredAsset>::empty() =~= assets@);
                break ;
            }
            let magic = read_le32(d, offset);
            if magic == 0x70474156 {
                let size64 = read_be32(d, offset + 12) as u64 + 48;
                if size64 >= self.min_size as u64 && size64 <= (n - offset) as u64 {
                    let size = size64 as usize;
                    let ghost a0 = assets@;
                    let a = DiscoveredAsset { offset, size, asset_type: AssetType::Vag };
                    assets.push(a);
                    proof {
                        let next = spec_scan_vag(
                            d@,
                            offset as int + size as int,
                            self.spec_min_size(),
                        );
                        assert(a0 + (seq![a] + next) =~= assets@ + next);
                    }
                    offset = offset + size;
                } else {
                    offset = offset + 1;
                }
            } else {
                offset = offset + 1;
            }
        }
        assets
    }

    /// Slice out a discovered asset's bytes.
    pub fn extract(&self, asset: &DiscoveredAsset) -> (r: Option<&'a [u8]>)
        ensures
            r is Some <==> asset.offset + asset.size <= self.spec_data().len(),
            r matches Some(s) ==> s@ == self.spec_data().subrange(
                asset.offset as int,
                asset.offset + asset.size,
            ),
    {
        if asset.size <= self.data.len() && asset.offset <= self.data.len() - asset.size {
            Some(&self.data[asset.offset..asset.offset + asset.size])
        } else {
            None
        }
    }
}

/// The scanner never returns overlapping ranges: every recorded asset
/// starts at or after the cursor, and each one ends at or before the
/// next begins, because the cursor jumps past each hit.
pub proof fn lemma_scan_tim_no_overlap(d: Seq<u8>, o: int, min: int)
    requires
        o >= 0,
        d.len() <= usize::MAX,
    ensures
        forall|i: int|
            0 <= i < spec_scan_tim(d, o, min).len() ==> #[trigger] spec_scan_tim(
                d,
                o,
                min,
            )[i].offset >= o,
        forall|i: int, j: int|
            0 <= i < j < spec_scan_tim(d, o, min).len() ==> #[trigger] spec_scan_tim(
                d,
                o,
                min,
            )[i].offset + spec_scan_tim(d, o, min)[i].size <= #[trigger] spec_scan_tim(
                d,
                o,
                min,
            )[j].offset,
    decreases d.len() + 12 - o,
{
    let s = spec_scan_tim(d, o, min);
    if o + 12 > d.len() {
    } else if le32(d, o) == 0x10 {
        match spec_validate_tim(d.skip(o)) {
            Result::Ok((w, h, size)) => {
                if size >= min && size >= 1 {
                    lemma_tim_size_lower(d.skip(o));
                    let o2 = if o + size > d.len() {
                        d.len() as int
                    } else {
                        o + size
                    };
                    lemma_scan_tim_no_overlap(d, o2, min);
                    let tail = spec_scan_tim(d, o2, min);
                    assert forall|i: int| 0 <= i < s.len() implies #[trigger] s[i].offset
                        >= o by {
                        if i > 0 {
                            assert(s[i] == tail[i - 1]);
                        }
                    }
                    assert forall|i: int, j: int| 0 <= i < j < s.len() implies #[trigger] s[i].offset
                        + s[i].size <= #[trigger] s[j].offset by {
                        assert(s[j] == tail[j - 1]);
                        if i > 0 {
                            assert(s[i] == tail[i - 1]);
                        } else {
                            assert(s[0].offset + s[0].size == o + size);
                            assert(tail[j - 1].offset >= o2);
                            assert(o2 + 12 <= d.len());
                        }
                    }
                } else {
                    lemma_scan_tim_no_overlap(d, o + 1, min);
                }
            },
            Result::Err(_) => {
                lemma_scan_tim_no_overlap(d, o + 1, min);
            },
        }
    } else {
        lemma_scan_tim_no_overlap(d, o + 1, min);
    }
}

} // verus!
