//! HDR output: what a panel says of itself in its EDID, the metadata that switches it there, and
//! what is known of each output.
//!
//! Chromaticities are held in 640000ths, which tell both what an EDID holds and the standard
//! primaries exactly. Luminances are held as the codes that an EDID gives.
use vstd::prelude::*;

use crate::outputs::Real32;
use crate::table::Table;

verus! {

/// Reference white for SDR content on an HDR output, 203 cd/m², as the bits of a single.
pub const DEFAULT_SDR_WHITE_NITS: u32 = 0x434b_0000;

/// A CIE 1931 xy chromaticity, in 640000ths.
#[derive(Debug, Clone, Copy, PartialEq, Eq, Structural)]
pub struct Chromaticity {
    pub x: u32,
    pub y: u32,
}

/// What a display says it can show: its primaries, and the codes of its luminance range. Where
/// there is no code, the range that the signal was defined against stands for it.
#[derive(Debug, Clone, Copy, PartialEq, Eq)]
pub struct Mastering {
    pub red: Chromaticity,
    pub green: Chromaticity,
    pub blue: Chromaticity,
    pub white: Chromaticity,
    /// Peak luminance.
    pub max_luminance: Option<u8>,
    /// Black level, as a fraction of the peak.
    pub min_luminance: Option<u8>,
    /// Sustained full-frame luminance.
    pub max_frame_average: Option<u8>,
}

/// BT.2020 primaries at D65, with the whole luminance range: a panel without an opinion.
pub open spec fn bt2020() -> Mastering {
    Mastering {
        red: Chromaticity { x: 453_120, y: 186_880 },
        green: Chromaticity { x: 108_800, y: 510_080 },
        blue: Chromaticity { x: 83_840, y: 29_440 },
        white: Chromaticity { x: 200_128, y: 210_560 },
        max_luminance: None,
        min_luminance: None,
        max_frame_average: None,
    }
}

/// The 8 bytes every EDID starts with.
pub open spec fn edid_magic() -> Seq<u8> {
    seq![0x00u8, 0xff, 0xff, 0xff, 0xff, 0xff, 0xff, 0x00]
}

/// One EDID block.
pub const BLOCK: usize = 128;

/// The tag of an extension block that carries the HDR data block.
pub const CTA_TAG: u8 = 0x02;

/// The type of a data block whose payload starts with a tag of its own.
pub const CTA_EXTENDED_TAG: u8 = 7;

/// The tag of the HDR data block.
pub const CTA_HDR_STATIC_METADATA: u8 = 0x06;

/// The payload of the HDR data block of a CTA block, from a data block on; none where there is
/// none, or where one runs off the end before it.
pub open spec fn hdr_payload(block: Seq<u8>, index: int, end: int) -> Option<Seq<u8>>
    decreases
            (if end > index {
                end - index
            } else {
                0
            }),
{
    if index >= end || index < 0 {
        None
    } else {
        let header = block[index];
        let length = header as int % 32;
        if index + 1 + length > block.len() {
            None
        } else {
            let payload = block.subrange(index + 1, index + 1 + length);
            if header as int / 32 == CTA_EXTENDED_TAG && length > 0 && payload[0]
                == CTA_HDR_STATIC_METADATA {
                Some(payload.skip(1))
            } else {
                hdr_payload(block, index + 1 + length, end)
            }
        }
    }
}

/// Where the data blocks of a CTA block end.
pub open spec fn collection_end(block: Seq<u8>) -> int {
    if block[2] < 128 {
        block[2] as int
    } else {
        128
    }
}

/// The block at an index of an EDID.
pub open spec fn edid_block(edid: Seq<u8>, index: int) -> Seq<u8> {
    edid.subrange(index * 128, (index + 1) * 128)
}

/// What an extension block says of HDR.
pub open spec fn block_hdr(edid: Seq<u8>, index: int) -> Option<Seq<u8>> {
    let block = edid_block(edid, index);
    if block[0] == CTA_TAG {
        hdr_payload(block, 4, collection_end(block))
    } else {
        None
    }
}

/// What the first extension block that says something of HDR, among those from `index` up to
/// `blocks`, says.
pub open spec fn first_hdr(edid: Seq<u8>, index: int, blocks: int) -> Option<Seq<u8>>
    decreases blocks - index,
{
    if index >= blocks {
        None
    } else if block_hdr(edid, index) is Some {
        block_hdr(edid, index)
    } else {
        first_hdr(edid, index + 1, blocks)
    }
}

/// A coordinate of an EDID: ten bits, the low two packed into a byte at `shift`.
pub open spec fn coordinate(high: u8, packed: u8, shift: int) -> u32 {
    ((high * 4 + (packed as int / shift) % 4) * 625) as u32
}

/// The primaries and the white point that an EDID gives.
pub open spec fn edid_colors(edid: Seq<u8>) -> Mastering {
    let rg = edid[0x19];
    let bw = edid[0x1a];
    Mastering {
        red: Chromaticity {
            x: coordinate(edid[0x1b], rg, 64),
            y: coordinate(edid[0x1c], rg, 16),
        },
        green: Chromaticity {
            x: coordinate(edid[0x1d], rg, 4),
            y: coordinate(edid[0x1e], rg, 1),
        },
        blue: Chromaticity {
            x: coordinate(edid[0x1f], bw, 64),
            y: coordinate(edid[0x20], bw, 16),
        },
        white: Chromaticity {
            x: coordinate(edid[0x21], bw, 4),
            y: coordinate(edid[0x22], bw, 1),
        },
        ..bt2020()
    }
}

/// The code at an index of the payload, which may stop short of it.
pub open spec fn code_at(hdr: Seq<u8>, index: int) -> Option<u8> {
    if index < hdr.len() {
        Some(hdr[index])
    } else {
        None
    }
}

/// Whether the payload says that the panel takes a PQ signal: the third bit of its first byte.
pub open spec fn takes_pq(hdr: Seq<u8>) -> bool {
    hdr.len() > 0 && (hdr[0] as int / 4) % 2 == 1
}

/// The HDR capability that an EDID gives; none where it is no EDID or does not tell of PQ.
pub open spec fn edid_mastering(edid: Seq<u8>) -> Option<Mastering> {
    if edid.len() < 128 || edid.take(8) != edid_magic() {
        None
    } else {
        match first_hdr(edid, 1, edid.len() as int / 128) {
            Some(hdr) => if takes_pq(hdr) {
                Some(
                    Mastering {
                        max_luminance: code_at(hdr, 2),
                        max_frame_average: code_at(hdr, 3),
                        min_luminance: code_at(hdr, 4),
                        ..edid_colors(edid)
                    },
                )
            } else {
                None
            },
            None => None,
        }
    }
}

fn starts_as_edid(edid: &[u8]) -> (r: bool)
    requires
        edid@.len() >= 8,
    ensures
        r == (edid@.take(8) == edid_magic()),
{
    let r = edid[0] == 0x00 && edid[1] == 0xff && edid[2] == 0xff && edid[3] == 0xff && edid[4]
        == 0xff && edid[5] == 0xff && edid[6] == 0xff && edid[7] == 0x00;
    proof {
        let magic = edid_magic();
        if r {
            assert(edid@.take(8) =~= magic);
        } else if edid@.take(8) == magic {
            assert(forall|i: int| 0 <= i < 8 ==> edid@.take(8)[i] == edid@[i]);
            assert(edid@.take(8)[0] == magic[0] && edid@.take(8)[1] == magic[1] && edid@.take(8)[2]
                == magic[2] && edid@.take(8)[3] == magic[3] && edid@.take(8)[4] == magic[4]
                && edid@.take(8)[5] == magic[5] && edid@.take(8)[6] == magic[6]
                && edid@.take(8)[7] == magic[7]);
        }
    }
    r
}

/// Where the payload of a CTA block's HDR data block is, the block starting at `base`.
fn cta_hdr_static_metadata(edid: &[u8], base: usize) -> (range: Option<(usize, usize)>)
    requires
        base + 128 <= edid@.len(),
    ensures
        ({
            let block = edid@.subrange(base as int, base + 128);
            match range {
                Some((from, to)) => from <= to <= edid@.len() && hdr_payload(
                    block,
                    4,
                    collection_end(block),
                ) == Some(edid@.subrange(from as int, to as int)),
                None => hdr_payload(block, 4, collection_end(block)) is None,
            }
        }),
{
    let ghost block = edid@.subrange(base as int, base + 128);
    let total: usize = edid.len();
    assert(base + 128 <= total);
    assert(block[2] == edid@[base + 2]);
    let end: usize = if edid[base + 2] < 128 {
        edid[base + 2] as usize
    } else {
        BLOCK
    };
    let mut index: usize = 4;
    while index < end
        invariant
            base + 128 <= edid@.len() <= usize::MAX,
            block == edid@.subrange(base as int, base + 128),
            end == collection_end(block),
            4 <= index <= 128,
            end <= 128,
            hdr_payload(block, 4, end as int) == hdr_payload(block, index as int, end as int),
        decreases 256 - index,
    {
        let header: u8 = edid[base + index];
        assert(header == block[index as int]);
        let length: usize = (header % 32) as usize;
        if index + 1 + length > BLOCK {
            return None;
        }
        let ghost payload = block.subrange(index + 1, index + 1 + length);
        if header / 32 == CTA_EXTENDED_TAG && length > 0 && edid[base + index + 1]
            == CTA_HDR_STATIC_METADATA {
            assert(payload[0] == edid@[base + index + 1]);
            assert(payload.skip(1) =~= edid@.subrange(
                base + index + 2,
                base + index + 1 + length,
            ));
            return Some((base + index + 2, base + index + 1 + length));
        }
        assert(length > 0 ==> payload[0] == edid@[base + index + 1]);
        index = index + 1 + length;
    }
    None
}

fn ten_bits(high: u8, packed: u8, shift: u8) -> (n: u32)
    requires
        shift == 1 || shift == 4 || shift == 16 || shift == 64,
    ensures
        n == coordinate(high, packed, shift as int),
{
    (high as u32 * 4 + ((packed / shift) % 4) as u32) * 625
}

/// The primaries and the white point from the base block.
fn edid_chromaticity(edid: &[u8]) -> (colors: Mastering)
    requires
        edid@.len() >= 128,
    ensures
        colors == edid_colors(edid@),
{
    let rg: u8 = edid[0x19];
    let bw: u8 = edid[0x1a];
    Mastering {
        red: Chromaticity { x: ten_bits(edid[0x1b], rg, 64), y: ten_bits(edid[0x1c], rg, 16) },
        green: Chromaticity { x: ten_bits(edid[0x1d], rg, 4), y: ten_bits(edid[0x1e], rg, 1) },
        blue: Chromaticity { x: ten_bits(edid[0x1f], bw, 64), y: ten_bits(edid[0x20], bw, 16) },
        white: Chromaticity { x: ten_bits(edid[0x21], bw, 4), y: ten_bits(edid[0x22], bw, 1) },
        max_luminance: None,
        min_luminance: None,
        max_frame_average: None,
    }
}

/// The panel's HDR capability, from its EDID, or none if it does not do PQ. The connector may
/// have the properties regardless, so they alone do not prove it.
pub fn edid_hdr_static_metadata(edid: &[u8]) -> (mastering: Option<Mastering>)
    ensures
        mastering == edid_mastering(edid@),
{
    if edid.len() < BLOCK || !starts_as_edid(edid) {
        return None;
    }
    let blocks: usize = edid.len() / BLOCK;
    let mut found: Option<(usize, usize)> = None;
    let mut index: usize = 1;
    while index < blocks && found.is_none()
        invariant
            128 <= edid@.len() <= usize::MAX,
            blocks == edid@.len() as int / 128,
            1 <= index <= blocks,
            match found {
                Some((from, to)) => from <= to <= edid@.len() && first_hdr(edid@, 1, blocks as int)
                    == Some(edid@.subrange(from as int, to as int)),
                None => first_hdr(edid@, 1, blocks as int) == first_hdr(
                    edid@,
                    index as int,
                    blocks as int,
                ),
            },
        decreases blocks - index,
    {
        assert(index * 128 + 128 <= blocks * 128 <= edid@.len());
        let base: usize = index * BLOCK;
        assert(edid_block(edid@, index as int) == edid@.subrange(base as int, base + 128));
        assert(edid_block(edid@, index as int)[0] == edid@[base as int]);
        if edid[base] == CTA_TAG {
            found = cta_hdr_static_metadata(edid, base);
        }
        index += 1;
    }
    let (from, to) = match found {
        Some(range) => range,
        None => {
            return None;
        },
    };
    let ghost hdr = edid@.subrange(from as int, to as int);
    if to - from == 0 || (edid[from] / 4) % 2 == 0 {
        return None;
    }
    let mut mastering = edid_chromaticity(edid);
    if to - from > 2 {
        mastering.max_luminance = Some(edid[from + 2]);
    }
    if to - from > 3 {
        mastering.max_frame_average = Some(edid[from + 3]);
    }
    if to - from > 4 {
        mastering.min_luminance = Some(edid[from + 4]);
    }
    Some(mastering)
}

/// The code for PQ in the metadata.
pub const EOTF_SMPTE_ST2084: u8 = 2;

/// The only kind of static metadata.
pub const STATIC_METADATA_TYPE1: u8 = 1;

/// A chromaticity as the kernel wants it: 0.00002 per step.
#[derive(Debug, Clone, Copy, PartialEq, Eq, Structural)]
pub struct DrmChromaticity {
    pub x: u16,
    pub y: u16,
}

/// The metadata itself.
#[derive(Debug, Clone, Copy, PartialEq, Eq)]
pub struct HdrMetadataInfoframe {
    pub eotf: u8,
    pub metadata_type: u8,
    /// Red, green, blue.
    pub display_primaries: [DrmChromaticity; 3],
    pub white_point: DrmChromaticity,
    /// cd/m².
    pub max_display_mastering_luminance: u16,
    /// 0.0001 cd/m².
    pub min_display_mastering_luminance: u16,
    /// Maximum content light level, cd/m².
    pub max_cll: u16,
    /// Maximum frame-average light level, cd/m².
    pub max_fall: u16,
}

/// The blob that a connector is given.
#[derive(Debug, Clone, Copy, PartialEq, Eq)]
pub struct HdrOutputMetadata {
    pub metadata_type: u32,
    pub hdmi_metadata_type1: HdrMetadataInfoframe,
}

/// A luminance range in the kernel's units.
#[derive(Debug, Clone, Copy, PartialEq, Eq)]
pub struct LightLevels {
    /// cd/m².
    pub max: u16,
    /// 0.0001 cd/m².
    pub min: u16,
    /// cd/m².
    pub frame_average: u16,
}

/// A coordinate in the kernel's units, to the nearest step.
pub open spec fn drm_step(n: u32) -> int {
    (n * 5 + 32) / 64
}

impl Chromaticity {
    /// Whether the coordinates are such: no more than one.
    pub open spec fn valid(self) -> bool {
        self.x <= 640_000 && self.y <= 640_000
    }

    /// In the kernel's units.
    pub fn to_drm(self) -> (drm: DrmChromaticity)
        requires
            self.valid(),
        ensures
            drm.x == drm_step(self.x),
            drm.y == drm_step(self.y),
    {
        DrmChromaticity {
            x: ((self.x as u64 * 5 + 32) / 64) as u16,
            y: ((self.y as u64 * 5 + 32) / 64) as u16,
        }
    }
}

impl Mastering {
    /// BT.2020 primaries at D65, with the whole luminance range: a panel without an opinion.
    pub fn bt2020() -> (mastering: Self)
        ensures
            mastering == bt2020(),
            mastering.valid(),
    {
        Mastering {
            red: Chromaticity { x: 453_120, y: 186_880 },
            green: Chromaticity { x: 108_800, y: 510_080 },
            blue: Chromaticity { x: 83_840, y: 29_440 },
            white: Chromaticity { x: 200_128, y: 210_560 },
            max_luminance: None,
            min_luminance: None,
            max_frame_average: None,
        }
    }

    /// Whether the chromaticities are such.
    pub open spec fn valid(self) -> bool {
        self.red.valid() && self.green.valid() && self.blue.valid() && self.white.valid()
    }
}

/// Whether a chromaticity tells another in the kernel's units.
pub open spec fn tells(drm: DrmChromaticity, c: Chromaticity) -> bool {
    drm.x == drm_step(c.x) && drm.y == drm_step(c.y)
}

impl HdrOutputMetadata {
    /// The blob that puts a panel into PQ mode, describing what it can show.
    pub fn st2084(mastering: &Mastering, levels: LightLevels) -> (blob: Self)
        requires
            mastering.valid(),
        ensures
            blob.metadata_type == STATIC_METADATA_TYPE1,
            blob.hdmi_metadata_type1.eotf == EOTF_SMPTE_ST2084,
            blob.hdmi_metadata_type1.metadata_type == STATIC_METADATA_TYPE1,
            tells(blob.hdmi_metadata_type1.display_primaries@[0], mastering.red),
            tells(blob.hdmi_metadata_type1.display_primaries@[1], mastering.green),
            tells(blob.hdmi_metadata_type1.display_primaries@[2], mastering.blue),
            tells(blob.hdmi_metadata_type1.white_point, mastering.white),
            blob.hdmi_metadata_type1.max_display_mastering_luminance == levels.max,
            blob.hdmi_metadata_type1.min_display_mastering_luminance == levels.min,
            blob.hdmi_metadata_type1.max_cll == levels.max,
            blob.hdmi_metadata_type1.max_fall == levels.frame_average,
    {
        HdrOutputMetadata {
            metadata_type: STATIC_METADATA_TYPE1 as u32,
            hdmi_metadata_type1: HdrMetadataInfoframe {
                eotf: EOTF_SMPTE_ST2084,
                metadata_type: STATIC_METADATA_TYPE1,
                display_primaries: [
                    mastering.red.to_drm(),
                    mastering.green.to_drm(),
                    mastering.blue.to_drm(),
                ],
                white_point: mastering.white.to_drm(),
                max_display_mastering_luminance: levels.max,
                min_display_mastering_luminance: levels.min,
                max_cll: levels.max,
                max_fall: levels.frame_average,
            },
        }
    }
}

/// What an EDID gives can be told to the kernel.
pub proof fn an_edid_gives_chromaticities(edid: Seq<u8>)
    ensures
        edid_mastering(edid) matches Some(mastering) ==> mastering.valid(),
{
}

/// What is known about each output's HDR, by the output's name.
pub struct HdrState {
    supported: Table<String, bool>,
    active: Table<String, bool>,
    mastering: Table<String, Mastering>,
    sdr_white: Table<String, Real32>,
    linear: Table<String, bool>,
}

/// The same, as values.
#[verifier::ext_equal]
pub ghost struct Hdr {
    pub supported: Map<Seq<char>, bool>,
    pub active: Map<Seq<char>, bool>,
    pub mastering: Map<Seq<char>, Mastering>,
    pub sdr_white: Map<Seq<char>, Real32>,
    pub linear: Map<Seq<char>, bool>,
}

impl View for HdrState {
    type V = Hdr;

    closed spec fn view(&self) -> Hdr {
        Hdr {
            supported: self.supported@,
            active: self.active@,
            mastering: self.mastering@,
            sdr_white: self.sdr_white@,
            linear: self.linear@,
        }
    }
}

/// What a table says of a name, or what stands for it.
pub open spec fn held<V>(table: Map<Seq<char>, V>, name: Seq<char>, otherwise: V) -> V {
    if table.dom().contains(name) {
        table[name]
    } else {
        otherwise
    }
}

/// What is known once an output has gone away.
pub open spec fn unplugged(h: Hdr, name: Seq<char>) -> Hdr {
    Hdr {
        supported: h.supported.remove(name),
        active: h.active.remove(name),
        mastering: h.mastering.remove(name),
        sdr_white: h.sdr_white.remove(name),
        linear: h.linear.remove(name),
    }
}

/// A monitor on a connector inherits nothing from the one before it, and the others keep what is
/// known of them.
pub proof fn a_new_monitor_inherits_nothing(h: Hdr, name: Seq<char>, other: Seq<char>)
    ensures
        ({
            let after = unplugged(h, name);
            &&& !held(after.supported, name, false)
            &&& !held(after.active, name, false)
            &&& !after.mastering.dom().contains(name)
            &&& forall|nits: Real32| held(after.sdr_white, name, nits) == nits
            &&& held(after.linear, name, true)
            &&& other != name ==> {
                &&& held(after.supported, other, false) == held(h.supported, other, false)
                &&& held(after.active, other, false) == held(h.active, other, false)
                &&& after.mastering.dom().contains(other) == h.mastering.dom().contains(other)
                &&& after.mastering.dom().contains(other) ==> after.mastering[other]
                    == h.mastering[other]
                &&& forall|nits: Real32|
                    held(after.sdr_white, other, nits) == held(h.sdr_white, other, nits)
                &&& held(after.linear, other, true) == held(h.linear, other, true)
            }
        }),
{
}

impl HdrState {
    /// Nothing is known.
    pub fn new() -> (state: Self)
        ensures
            state@ == (Hdr {
                supported: Map::empty(),
                active: Map::empty(),
                mastering: Map::empty(),
                sdr_white: Map::empty(),
                linear: Map::empty(),
            }),
    {
        HdrState {
            supported: Table::new(),
            active: Table::new(),
            mastering: Table::new(),
            sdr_white: Table::new(),
            linear: Table::new(),
        }
    }

    /// Whether an output can be driven in HDR at all; not until it is said to.
    pub fn supported(&self, output: &String) -> (r: bool)
        ensures
            r == held(self@.supported, output@, false),
    {
        match self.supported.get(output) {
            Some(supported) => *supported,
            None => false,
        }
    }

    /// Whether an output is driven in HDR right now.
    pub fn active(&self, output: &String) -> (r: bool)
        ensures
            r == held(self@.active, output@, false),
    {
        match self.active.get(output) {
            Some(active) => *active,
            None => false,
        }
    }

    /// The panel's colorimetry, once its EDID has been read.
    pub fn mastering(&self, output: &String) -> (mastering: Option<Mastering>)
        ensures
            match mastering {
                Some(m) => self@.mastering.contains_pair(output@, m),
                None => !self@.mastering.dom().contains(output@),
            },
    {
        match self.mastering.get(output) {
            Some(mastering) => Some(*mastering),
            None => None,
        }
    }

    /// Reference white for SDR content on an output.
    pub fn sdr_white(&self, output: &String) -> (nits: Real32)
        ensures
            nits == held(self@.sdr_white, output@, Real32 { bits: DEFAULT_SDR_WHITE_NITS }),
    {
        match self.sdr_white.get(output) {
            Some(nits) => *nits,
            None => Real32 { bits: DEFAULT_SDR_WHITE_NITS },
        }
    }

    /// Whether an output composites in linear light: on unless configured off.
    pub fn linear_blending(&self, output: &String) -> (r: bool)
        ensures
            r == held(self@.linear, output@, true),
    {
        match self.linear.get(output) {
            Some(linear) => *linear,
            None => true,
        }
    }

    pub fn set_supported(&mut self, output: String, supported: bool)
        ensures
            final(self)@ == (Hdr {
                supported: old(self)@.supported.insert(output@, supported),
                ..old(self)@
            }),
    {
        self.supported.insert(output, supported);
    }

    pub fn set_active(&mut self, output: String, active: bool)
        ensures
            final(self)@ == (Hdr { active: old(self)@.active.insert(output@, active), ..old(self)@ }),
    {
        self.active.insert(output, active);
    }

    pub fn set_mastering(&mut self, output: String, mastering: Mastering)
        ensures
            final(self)@ == (Hdr {
                mastering: old(self)@.mastering.insert(output@, mastering),
                ..old(self)@
            }),
    {
        self.mastering.insert(output, mastering);
    }

    pub fn set_sdr_white(&mut self, output: String, nits: Real32)
        ensures
            final(self)@ == (Hdr {
                sdr_white: old(self)@.sdr_white.insert(output@, nits),
                ..old(self)@
            }),
    {
        self.sdr_white.insert(output, nits);
    }

    pub fn set_linear_blending(&mut self, output: String, linear: bool)
        ensures
            final(self)@ == (Hdr { linear: old(self)@.linear.insert(output@, linear), ..old(self)@ }),
    {
        self.linear.insert(output, linear);
    }

    /// Drops an output that has gone away, so that a different monitor on the same connector does
    /// not inherit what was known of the old one.
    pub fn forget(&mut self, output: &String)
        ensures
            final(self)@ == unplugged(old(self)@, output@),
    {
        self.supported.remove(output);
        self.active.remove(output);
        self.mastering.remove(output);
        self.sdr_white.remove(output);
        self.linear.remove(output);
    }
}

/// The chromaticities are told in the base block of an EDID, ten bits to a coordinate: the high
/// eight in a byte of their own from offset 27 on, in the order red, green, blue, white and x
/// before y; the low two in offset 25 for red and green and in 26 for the others, the first in the
/// highest bits. A coordinate of one is 640000 parts.
pub proof fn the_chromaticities_are_in_the_base_block(edid: Seq<u8>)
    requires
        edid.len() >= 128,
    ensures
        edid_mastering(edid) matches Some(m) ==> {
            &&& m.red.x == 625 * (4 * edid[27] + edid[25] as int / 64)
            &&& m.red.y == 625 * (4 * edid[28] + edid[25] as int / 16 % 4)
            &&& m.green.x == 625 * (4 * edid[29] + edid[25] as int / 4 % 4)
            &&& m.green.y == 625 * (4 * edid[30] + edid[25] as int % 4)
            &&& m.blue.x == 625 * (4 * edid[31] + edid[26] as int / 64)
            &&& m.blue.y == 625 * (4 * edid[32] + edid[26] as int / 16 % 4)
            &&& m.white.x == 625 * (4 * edid[33] + edid[26] as int / 4 % 4)
            &&& m.white.y == 625 * (4 * edid[34] + edid[26] as int % 4)
        },
{
}

/// What no EDID starts with is not read, nor is one without an extension block.
pub proof fn only_an_edid_is_read(edid: Seq<u8>)
    ensures
        edid.len() < 256 ==> edid_mastering(edid) is None,
        edid.len() >= 8 && (edid[0] != 0 || edid[7] != 0 || edid[1] != 0xff) ==> edid_mastering(
            edid,
        ) is None,
{
    if edid.len() >= 8 && edid.take(8) == edid_magic() {
        assert(edid.take(8)[0] == edid[0] && edid.take(8)[7] == edid[7] && edid.take(8)[1]
            == edid[1]);
    }
}

/// An HDR data block that stands first in the first extension block of an EDID is read: the panel
/// takes HDR where the bit for PQ is set, with the brightest, the average and the darkest luminance
/// that follow, as far as they are there.
pub proof fn an_hdr_block_is_read(edid: Seq<u8>, length: int)
    requires
        edid.len() >= 256,
        edid.take(8) == edid_magic(),
        edid[128] == 2,
        edid[130] > 4,
        edid[132] == 7 * 32 + length,
        2 <= length < 32,
        edid[133] == 6,
    ensures
        edid_mastering(edid) is Some <==> edid[134] as int / 4 % 2 == 1,
        edid_mastering(edid) matches Some(m) ==> {
            &&& m.max_luminance == if length > 3 {
                Some(edid[136])
            } else {
                None
            }
            &&& m.max_frame_average == if length > 4 {
                Some(edid[137])
            } else {
                None
            }
            &&& m.min_luminance == if length > 5 {
                Some(edid[138])
            } else {
                None
            }
        },
{
    let block = edid_block(edid, 1);
    assert(block == edid.subrange(128, 256));
    assert(block[0] == edid[128] && block[2] == edid[130] && block[4] == edid[132]);
    assert(block.len() == 128);
    let payload = block.subrange(5, 5 + length);
    assert(payload[0] == edid[133]);
    let hdr = payload.skip(1);
    assert(hdr.len() == length - 1);
    assert(hdr[0] == edid[134]);
    assert(hdr_payload(block, 4, collection_end(block)) == Some(hdr));
    assert(block_hdr(edid, 1) == Some(hdr));
    assert(edid.len() as int / 128 >= 2);
    assert(first_hdr(edid, 1, edid.len() as int / 128) == Some(hdr));
    if length > 3 {
        assert(hdr[2] == edid[136]);
    }
    if length > 4 {
        assert(hdr[3] == edid[137]);
    }
    if length > 5 {
        assert(hdr[4] == edid[138]);
    }
}

/// A coordinate told to the kernel is the nearest of its steps, of which there are 50000 to one.
pub proof fn a_coordinate_is_told_to_the_nearest_step(c: Chromaticity, drm: DrmChromaticity)
    requires
        c.valid(),
        call_ensures(Chromaticity::to_drm, (c,), drm),
    ensures
        -640_000 <= 2 * (drm.x * 640_000 - c.x * 50_000) <= 640_000,
        -640_000 <= 2 * (drm.y * 640_000 - c.y * 50_000) <= 640_000,
{
}

/// What a panel is told is what it can show: the primaries in the order red, green, blue, each to
/// the nearest step, and the light levels, each in its place.
pub proof fn a_panel_is_told_what_it_can_show(
    mastering: &Mastering,
    levels: LightLevels,
    blob: HdrOutputMetadata,
)
    requires
        mastering.valid(),
        call_ensures(HdrOutputMetadata::st2084, (mastering, levels), blob),
    ensures
        ({
            let told = blob.hdmi_metadata_type1;
            let red = told.display_primaries@[0];
            let green = told.display_primaries@[1];
            let blue = told.display_primaries@[2];
            &&& -64 <= 128 * red.x - 10 * mastering.red.x <= 64
            &&& -64 <= 128 * red.y - 10 * mastering.red.y <= 64
            &&& -64 <= 128 * green.x - 10 * mastering.green.x <= 64
            &&& -64 <= 128 * green.y - 10 * mastering.green.y <= 64
            &&& -64 <= 128 * blue.x - 10 * mastering.blue.x <= 64
            &&& -64 <= 128 * blue.y - 10 * mastering.blue.y <= 64
            &&& -64 <= 128 * told.white_point.x - 10 * mastering.white.x <= 64
            &&& -64 <= 128 * told.white_point.y - 10 * mastering.white.y <= 64
            &&& told.max_display_mastering_luminance == levels.max && told.max_cll == levels.max
            &&& told.min_display_mastering_luminance == levels.min
            &&& told.max_fall == levels.frame_average
        }),
{
}

} // verus!
