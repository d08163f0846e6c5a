//! One controller: what it reports about itself, and the fixture that is made
//! of those reports.

use crate::address::{
    ipv4_octets, is_ipv4_text, is_mac_text, mac_error, mac_octets, try_string_to_ipv4,
    try_string_to_mac, RawIpAddress, RawMacAddress,
};
use crate::error::WledControllerError;
use crate::numeral::{decimal_text, push_decimal_text};
use crate::wled_color::{capability_of, WledColor, WledColorType};
use vstd::prelude::*;
use vstd::string::StringExecFns;

verus! {

/// What this crate reads of a controller's report on itself.  A field that the
/// controller left out is `None`.
#[derive(Debug)]
pub struct InfoReport {
    /// The name that the user gave the controller.
    pub name: Option<String>,
    /// The hardware address, as twelve hexadecimal digits.
    pub mac: Option<String>,
    /// The IPv4 address, in dotted-decimal form.
    pub ip: Option<String>,
    /// One capability code for each segment, in the order of the segments.
    pub seglc: Option<Vec<u8>>,
}

/// What this crate reads of a controller's stored configuration.
#[derive(Debug)]
pub struct ConfigReport {
    /// The host name under which the controller answers to mDNS.
    pub mdns: Option<String>,
    /// The number of pixels that the controller drives in all.
    pub led_total: Option<u16>,
}

/// What this crate reads of one segment in a controller's live state.
#[derive(Debug)]
pub struct SegmentReport {
    /// The number by which the controller knows the segment.
    pub id: Option<i16>,
    /// The first pixel of the segment.
    pub start: Option<u16>,
    /// The pixel at which the segment stops.
    pub stop: Option<u16>,
    /// The name that the user gave the segment.
    pub name: Option<String>,
}

/// What this crate reads of a controller's live state.
#[derive(Debug)]
pub struct StateReport {
    /// The segments, in the order in which the controller lists them.
    pub seg: Option<Vec<SegmentReport>>,
}

/// A segment as the controller defines it: a named range of pixels and the
/// colour model of its lights.  It is a view into the fixture's range and holds
/// no pixels of its own.
#[derive(Debug)]
pub struct CanonSegmentInfo {
    /// The first pixel of the segment.
    pub start: u16,
    /// The pixel at which the segment stops.
    pub stop: u16,
    /// The name of the segment.
    pub name: String,
    /// The colour model of the segment's lights.
    pub capabilities: WledColorType,
}

/// One controller, fully characterised.
#[derive(Debug)]
pub struct PhysicalWled {
    /// The segments that the controller defines, in its order.
    pub segments: Vec<CanonSegmentInfo>,
    /// The name that the user gave the controller.
    pub friendly_name: String,
    /// The host name under which the controller is reached; ends in `.local`.
    pub local_url: String,
    /// The IPv4 address of the controller.
    pub local_ip: RawIpAddress,
    /// The hardware address, by which the controller is told from all others.
    pub mac_address: RawMacAddress,
    /// The number of pixels that the controller drives.
    pub total_pixel_count: u16,
    /// One colour sample for each pixel, waiting to be sent.
    pub buffer: Vec<WledColor>,
}

/// The name under which a controller goes: the one it reports, or, where it
/// reports none, a name made of its hardware address.
pub open spec fn friendly_name_text(info: InfoReport) -> Seq<char>
    recommends
        info.mac is Some,
{
    match info.name {
        Some(name) => name@,
        None => "Unnamed fixture with hardware id: "@ + info.mac->0@,
    }
}

/// Why no fixture can be made of the two reports, if none can.  The fields are
/// looked at in a fixed order and the first that is missing or malformed
/// decides: hardware address, network address, host name, pixel count.
pub open spec fn identity_error(info: InfoReport, cfg: ConfigReport) -> Option<
    WledControllerError,
> {
    if info.mac is None {
        Some(WledControllerError::MissingKey("mac"))
    } else if !is_mac_text(info.mac->0@) {
        Some(mac_error(info.mac->0))
    } else if info.ip is None {
        Some(WledControllerError::MissingKey("ip"))
    } else if !is_ipv4_text(info.ip->0@) {
        Some(WledControllerError::BadIp(info.ip->0))
    } else if cfg.mdns is None {
        Some(WledControllerError::MissingKey("mdns"))
    } else if cfg.led_total is None {
        Some(WledControllerError::MissingKey("led.total"))
    } else {
        None
    }
}

impl PhysicalWled {
    /// The buffer holds one sample for each pixel.
    pub open spec fn wf(self) -> bool {
        self.buffer@.len() == self.total_pixel_count
    }

    /// The fixture is the one that the two reports describe, freshly made: all
    /// its pixels are off and it has no segments yet.
    pub open spec fn identifies(self, info: InfoReport, cfg: ConfigReport) -> bool
        recommends
            identity_error(info, cfg) is None,
    {
        &&& self.mac_address@ == mac_octets(info.mac->0@)
        &&& self.local_ip@ == ipv4_octets(info.ip->0@)
        &&& self.friendly_name@ == friendly_name_text(info)
        &&& self.local_url@ == cfg.mdns->0@ + ".local"@
        &&& self.total_pixel_count == cfg.led_total->0
        &&& self.buffer@ == Seq::new(
            cfg.led_total->0 as nat,
            |i: int| WledColor::dark(WledColorType::RGB),
        )
        &&& self.segments@.len() == 0
    }

    /// Makes the fixture that a controller's report on itself and its
    /// configuration describe.
    ///
    /// Succeeds exactly if both addresses are reported and well formed and the
    /// host name and the pixel count are reported.  The buffer of the new
    /// fixture has one dark sample for each pixel, and its segment table is
    /// empty.
    pub fn try_from_reports(info: &InfoReport, cfg: &ConfigReport) -> (r: Result<
        PhysicalWled,
        WledControllerError,
    >)
        ensures
            match r {
                Ok(wled) => {
                    &&& identity_error(*info, *cfg) is None
                    &&& wled.identifies(*info, *cfg)
                    &&& wled.wf()
                },
                Err(e) => identity_error(*info, *cfg) == Some(e),
            },
    {
        let mac_text: &String = match &info.mac {
            Some(text) => text,
            None => {
                return Err(WledControllerError::MissingKey("mac"));
            },
        };
        let friendly_name: String = match &info.name {
            Some(name) => name.clone(),
            None => {
                let mut made = String::from_str("Unnamed fixture with hardware id: ");
                made.append(mac_text.as_str());
                made
            },
        };
        let mac_address = match try_string_to_mac(mac_text.clone()) {
            Ok(mac) => mac,
            Err(e) => {
                return Err(e);
            },
        };
        let ip_text: &String = match &info.ip {
            Some(text) => text,
            None => {
                return Err(WledControllerError::MissingKey("ip"));
            },
        };
        let local_ip = match try_string_to_ipv4(ip_text.clone()) {
            Ok(ip) => ip,
            Err(e) => {
                return Err(e);
            },
        };
        let mut local_url: String = match &cfg.mdns {
            Some(host) => host.clone(),
            None => {
                return Err(WledControllerError::MissingKey("mdns"));
            },
        };
        local_url.append(".local");
        let total_pixel_count: u16 = match cfg.led_total {
            Some(total) => total,
            None => {
                return Err(WledControllerError::MissingKey("led.total"));
            },
        };
        let mut buffer: Vec<WledColor> = Vec::with_capacity(total_pixel_count as usize);
        let mut filled: u16 = 0;
        while filled < total_pixel_count
            invariant
                filled <= total_pixel_count,
                buffer@ == Seq::new(filled as nat, |i: int| WledColor::dark(WledColorType::RGB)),
            decreases total_pixel_count - filled,
        {
            buffer.push(WledColor::default());
            filled = filled + 1;
        }
        Ok(
            PhysicalWled {
                segments: Vec::new(),
                friendly_name,
                local_url,
                local_ip,
                mac_address,
                total_pixel_count,
                buffer,
            },
        )
    }
}

/// The name under which a segment goes: the one that the controller reports,
/// or, where it reports none, the word `Segment` and the segment's number.
pub open spec fn segment_name_text(seg: SegmentReport) -> Seq<char>
    recommends
        seg.name is Some || seg.id is Some,
{
    match seg.name {
        Some(name) => name@,
        None => "Segment"@ + decimal_text(seg.id->0 as int),
    }
}

/// The capability code that stands at the place of the `i`-th segment, if the
/// list is long enough to have one there.
pub open spec fn capability_at(codes: Seq<u8>, i: int) -> Option<u8> {
    if 0 <= i < codes.len() {
        Some(codes[i])
    } else {
        None
    }
}

/// Why one reported segment, with the capability code at its place, gives no
/// segment, if it gives none.  A segment is read in a fixed order, and the
/// first of these decides: no start, no stop, no capability code, a code that
/// names no light, and last neither a name nor a number to make a name of.
pub open spec fn segment_error(seg: SegmentReport, code: Option<u8>) -> Option<
    WledControllerError,
> {
    if seg.start is None {
        Some(WledControllerError::MissingKey("seg.start"))
    } else if seg.stop is None {
        Some(WledControllerError::MissingKey("seg.stop"))
    } else if code is None {
        Some(WledControllerError::MissingKey("seglc"))
    } else if capability_of(code->0) is Err {
        Some(capability_of(code->0)->Err_0)
    } else if seg.name is None && seg.id is None {
        Some(WledControllerError::MissingKey("seg.id"))
    } else {
        None
    }
}

/// The error of the first reported segment that gives no segment, if there is
/// such a segment.  Segment and capability code are paired by their places in
/// the two lists.
pub open spec fn first_segment_error(segs: Seq<SegmentReport>, codes: Seq<u8>) -> Option<
    WledControllerError,
>
    decreases segs.len(),
{
    if segs.len() == 0 {
        None
    } else {
        match first_segment_error(segs.drop_last(), codes) {
            Some(e) => Some(e),
            None => segment_error(segs.last(), capability_at(codes, segs.len() - 1)),
        }
    }
}

/// Why the two reports give no segment table, if they give none: the list of
/// capability codes is missing, the list of segments is missing, or one of the
/// segments gives no segment.
pub open spec fn discovery_error(info: InfoReport, state: StateReport) -> Option<
    WledControllerError,
> {
    if info.seglc is None {
        Some(WledControllerError::MissingKey("seglc"))
    } else if state.seg is None {
        Some(WledControllerError::MissingKey("seg"))
    } else {
        first_segment_error(state.seg->0@, info.seglc->0@)
    }
}

impl CanonSegmentInfo {
    /// The segment is the one that the report and the capability code describe.
    pub open spec fn describes(self, seg: SegmentReport, code: u8) -> bool {
        &&& seg.start == Some(self.start)
        &&& seg.stop == Some(self.stop)
        &&& self.name@ == segment_name_text(seg)
        &&& capability_of(code) == Ok::<WledColorType, WledControllerError>(self.capabilities)
    }

    /// The segment lies inside a range of `total` pixels, and does not end
    /// before it starts.
    pub open spec fn within(self, total: u16) -> bool {
        self.start <= self.stop < total
    }

    /// Tells whether the segment lies inside a range of `total` pixels.
    pub fn is_within(&self, total: u16) -> (r: bool)
        ensures
            r == self.within(total),
    {
        self.start <= self.stop && self.stop < total
    }

    /// Makes the segment that one report and the capability code at its place
    /// describe.
    ///
    /// The report is read in this order: start, stop, capability code, name.
    /// Where more than one thing is wrong, the first in that order is the
    /// error.  The bounds are taken as they are reported.
    pub fn try_from_report(seg: &SegmentReport, code: Option<u8>) -> (r: Result<
        CanonSegmentInfo,
        WledControllerError,
    >)
        ensures
            match r {
                Ok(made) => segment_error(*seg, code) is None && made.describes(*seg, code->0),
                Err(e) => segment_error(*seg, code) == Some(e),
            },
    {
        let start: u16 = match seg.start {
            Some(start) => start,
            None => {
                return Err(WledControllerError::MissingKey("seg.start"));
            },
        };
        let stop: u16 = match seg.stop {
            Some(stop) => stop,
            None => {
                return Err(WledControllerError::MissingKey("seg.stop"));
            },
        };
        let code: u8 = match code {
            Some(code) => code,
            None => {
                return Err(WledControllerError::MissingKey("seglc"));
            },
        };
        let capabilities = match WledColorType::try_new_from_json_type(code) {
            Ok(capabilities) => capabilities,
            Err(e) => {
                return Err(e);
            },
        };
        let name: String = match &seg.name {
            Some(given) => given.clone(),
            None => {
                let id: i16 = match seg.id {
                    Some(id) => id,
                    None => {
                        return Err(WledControllerError::MissingKey("seg.id"));
                    },
                };
                let mut made = String::from_str("Segment");
                push_decimal_text(&mut made, id);
                made
            },
        };
        Ok(CanonSegmentInfo { start, stop, name, capabilities })
    }
}

/// The table holds one segment for each report, in the order of the reports,
/// and each is the segment that its report and the capability code at its place
/// describe.
pub open spec fn is_segment_table(
    table: Seq<CanonSegmentInfo>,
    segs: Seq<SegmentReport>,
    codes: Seq<u8>,
) -> bool {
    &&& table.len() == segs.len()
    &&& segs.len() <= codes.len()
    &&& forall|i: int| 0 <= i < segs.len() ==> (#[trigger] table[i]).describes(segs[i], codes[i])
}

/// Makes the segment table that a controller's report on itself and its live
/// state describe.
///
/// The two lists are paired by place: the first capability code belongs to
/// the first segment, and so on.  Either every segment is made, or none: a
/// single segment that cannot be made, or a list of codes that is shorter than
/// the list of segments, fails the whole.  Codes that stand after the place of
/// the last segment are passed over.  The segments are read in their order,
/// and the first that cannot be made gives the error.
pub fn discover_segments(info: &InfoReport, state: &StateReport) -> (r: Result<
    Vec<CanonSegmentInfo>,
    WledControllerError,
>)
    ensures
        match r {
            Ok(table) => {
                &&& discovery_error(*info, *state) is None
                &&& is_segment_table(table@, state.seg->0@, info.seglc->0@)
            },
            Err(e) => discovery_error(*info, *state) == Some(e),
        },
{
    let codes: &Vec<u8> = match &info.seglc {
        Some(codes) => codes,
        None => {
            return Err(WledControllerError::MissingKey("seglc"));
        },
    };
    let segs: &Vec<SegmentReport> = match &state.seg {
        Some(segs) => segs,
        None => {
            return Err(WledControllerError::MissingKey("seg"));
        },
    };
    let mut table: Vec<CanonSegmentInfo> = Vec::with_capacity(segs.len());
    let mut i: usize = 0;
    while i < segs.len()
        invariant
            info.seglc == Some(*codes),
            state.seg == Some(*segs),
            i <= segs.len(),
            table@.len() == i,
            i <= codes@.len(),
            first_segment_error(segs@.take(i as int), codes@) is None,
            forall|j: int| 0 <= j < i ==> (#[trigger] table@[j]).describes(segs@[j], codes@[j]),
        decreases segs.len() - i,
    {
        let code: Option<u8> = if i < codes.len() {
            Some(codes[i])
        } else {
            None
        };
        proof {
            assert(segs@.take(i as int + 1).drop_last() =~= segs@.take(i as int));
            assert(segs@.take(i as int + 1).last() == segs@[i as int]);
            assert(code == capability_at(codes@, i as int));
        }
        match CanonSegmentInfo::try_from_report(&segs[i], code) {
            Ok(made) => {
                table.push(made);
            },
            Err(e) => {
                proof {
                    lemma_first_segment_error_stays(segs@, codes@, i as int + 1);
                }
                return Err(e);
            },
        }
        i = i + 1;
    }
    proof {
        assert(segs@.take(segs@.len() as int) =~= segs@);
    }
    Ok(table)
}

/// Once the first `n` reports hold one that gives no segment, the error of the
/// whole list is the error of those `n`.
pub proof fn lemma_first_segment_error_stays(segs: Seq<SegmentReport>, codes: Seq<u8>, n: int)
    requires
        0 <= n <= segs.len(),
        first_segment_error(segs.take(n), codes) is Some,
    ensures
        first_segment_error(segs, codes) == first_segment_error(segs.take(n), codes),
    decreases segs.len() - n,
{
    if n == segs.len() {
        assert(segs.take(n) =~= segs);
    } else {
        assert(segs.drop_last().take(n) =~= segs.take(n));
        lemma_first_segment_error_stays(segs.drop_last(), codes, n);
    }
}

impl PhysicalWled {
    /// The two fixtures agree in everything but their segment tables.
    pub open spec fn same_but_segments(self, other: PhysicalWled) -> bool {
        &&& self.friendly_name == other.friendly_name
        &&& self.local_url == other.local_url
        &&& self.local_ip == other.local_ip
        &&& self.mac_address == other.mac_address
        &&& self.total_pixel_count == other.total_pixel_count
        &&& self.buffer == other.buffer
    }

    /// Every segment lies inside the fixture's range of pixels and does not
    /// end before it starts.  Bounds are taken as the controller reports them,
    /// so this holds only of a controller that reports them so.
    pub open spec fn segments_fit(self) -> bool {
        forall|i: int|
            0 <= i < self.segments@.len() ==> (#[trigger] self.segments@[i]).within(
                self.total_pixel_count,
            )
    }

    /// Tells whether every segment lies inside the fixture's range of pixels.
    pub fn check_segments_fit(&self) -> (r: bool)
        ensures
            r == self.segments_fit(),
    {
        let mut i: usize = 0;
        while i < self.segments.len()
            invariant
                i <= self.segments@.len(),
                forall|j: int|
                    0 <= j < i ==> (#[trigger] self.segments@[j]).within(self.total_pixel_count),
            decreases self.segments.len() - i,
        {
            if !self.segments[i].is_within(self.total_pixel_count) {
                return false;
            }
            i = i + 1;
        }
        true
    }

    /// Replaces the segment table by the one that a controller's report on
    /// itself and its live state describe.
    ///
    /// The table is replaced as a whole or not at all: where the reports give
    /// no table, the fixture is left exactly as it was.  Nothing but the table
    /// ever changes; the buffer keeps its length and its samples.
    pub fn get_self_segment_bounds(&mut self, info: &InfoReport, state: &StateReport) -> (r:
        Result<(), WledControllerError>)
        ensures
            match r {
                Ok(()) => {
                    &&& discovery_error(*info, *state) is None
                    &&& is_segment_table(final(self).segments@, state.seg->0@, info.seglc->0@)
                    &&& final(self).same_but_segments(*old(self))
                },
                Err(e) => discovery_error(*info, *state) == Some(e) && *final(self) == *old(self),
            },
            old(self).wf() ==> final(self).wf(),
    {
        match discover_segments(info, state) {
            Ok(table) => {
                self.segments = table;
                Ok(())
            },
            Err(e) => Err(e),
        }
    }
}

/// Why the `i`-th reported segment gives no segment, if it gives none.
pub open spec fn segment_error_at(segs: Seq<SegmentReport>, codes: Seq<u8>, i: int) -> Option<
    WledControllerError,
> {
    segment_error(segs[i], capability_at(codes, i))
}

/// The error of a list of reports is that of the first report in it that gives
/// no segment; there is no error exactly if every report gives a segment.
pub proof fn lemma_first_segment_error_is_first(segs: Seq<SegmentReport>, codes: Seq<u8>)
    ensures
        match first_segment_error(segs, codes) {
            None => forall|i: int|
                0 <= i < segs.len() ==> #[trigger] segment_error_at(segs, codes, i) is None,
            Some(e) => exists|i: int|
                {
                    &&& 0 <= i < segs.len()
                    &&& #[trigger] segment_error_at(segs, codes, i) == Some(e)
                    &&& forall|j: int|
                        0 <= j < i ==> #[trigger] segment_error_at(segs, codes, j) is None
                },
        },
    decreases segs.len(),
{
    if segs.len() > 0 {
        let shorter = segs.drop_last();
        lemma_first_segment_error_is_first(shorter, codes);
        assert forall|i: int| 0 <= i < shorter.len() implies #[trigger] segment_error_at(
            segs,
            codes,
            i,
        ) == segment_error_at(shorter, codes, i) by {
            assert(shorter[i] == segs[i]);
        }
        match first_segment_error(shorter, codes) {
            Some(e) => {
                let i = choose|i: int|
                    {
                        &&& 0 <= i < shorter.len()
                        &&& #[trigger] segment_error_at(shorter, codes, i) == Some(e)
                        &&& forall|j: int|
                            0 <= j < i ==> #[trigger] segment_error_at(shorter, codes, j) is None
                    };
                assert(segment_error_at(segs, codes, i) == Some(e));
                assert forall|j: int| 0 <= j < i implies #[trigger] segment_error_at(
                    segs,
                    codes,
                    j,
                ) is None by {
                    assert(segment_error_at(shorter, codes, j) is None);
                }
            },
            None => {
                let last = segs.len() - 1;
                assert(segment_error_at(segs, codes, last) == first_segment_error(segs, codes));
                assert forall|j: int| 0 <= j < last implies #[trigger] segment_error_at(
                    segs,
                    codes,
                    j,
                ) is None by {
                    assert(segment_error_at(shorter, codes, j) is None);
                }
            },
        }
    }
}

/// A list of capability codes that is shorter than the list of segments gives
/// no segment table.
pub proof fn lemma_short_code_list_fails(info: InfoReport, state: StateReport)
    requires
        info.seglc is Some,
        state.seg is Some,
        info.seglc->0@.len() < state.seg->0@.len(),
    ensures
        discovery_error(info, state) is Some,
{
    let segs = state.seg->0@;
    let codes = info.seglc->0@;
    lemma_first_segment_error_is_first(segs, codes);
    assert(segment_error_at(segs, codes, codes.len() as int) is Some);
}

/// Where a report gives no segment and every report before it gives one, the
/// error of the whole list is the error of that report.
pub proof fn lemma_first_faulty_segment_decides(
    segs: Seq<SegmentReport>,
    codes: Seq<u8>,
    i: int,
)
    requires
        0 <= i < segs.len(),
        segment_error_at(segs, codes, i) is Some,
        forall|j: int| 0 <= j < i ==> #[trigger] segment_error_at(segs, codes, j) is None,
    ensures
        first_segment_error(segs, codes) == segment_error_at(segs, codes, i),
{
    lemma_first_segment_error_is_first(segs, codes);
    let e = first_segment_error(segs, codes)->0;
    let k = choose|k: int|
        {
            &&& 0 <= k < segs.len()
            &&& #[trigger] segment_error_at(segs, codes, k) == Some(e)
            &&& forall|j: int| 0 <= j < k ==> #[trigger] segment_error_at(segs, codes, j) is None
        };
    assert(first_segment_error(segs, codes) is Some) by {
        if first_segment_error(segs, codes) is None {
            assert(segment_error_at(segs, codes, i) is None);
        }
    }
    if k < i {
        assert(segment_error_at(segs, codes, k) is None);
    }
    if i < k {
        assert(segment_error_at(segs, codes, i) is None);
    }
}

/// A missing start or stop is the error whatever else the same report lacks:
/// where the first report that gives no segment has no start, the discovery
/// fails for the start; where it has a start and no stop, for the stop.
pub proof fn lemma_missing_bound_is_named(info: InfoReport, state: StateReport, i: int)
    requires
        info.seglc is Some,
        state.seg is Some,
        0 <= i < state.seg->0@.len(),
        forall|j: int|
            0 <= j < i ==> #[trigger] segment_error_at(state.seg->0@, info.seglc->0@, j) is None,
        state.seg->0@[i].start is None || state.seg->0@[i].stop is None,
    ensures
        state.seg->0@[i].start is None ==> discovery_error(info, state) == Some(
            WledControllerError::MissingKey("seg.start"),
        ),
        state.seg->0@[i].start is Some ==> discovery_error(info, state) == Some(
            WledControllerError::MissingKey("seg.stop"),
        ),
{
    lemma_first_faulty_segment_decides(state.seg->0@, info.seglc->0@, i);
}

/// A list of capability codes that is shorter than the list of segments fails
/// the discovery for the list of codes, whether or not the segment that is left
/// without a code has a name or a number: where every segment has its start and
/// stop, every code names a light, and every segment that has a code has a name
/// or a number, the error names the list of codes.
pub proof fn lemma_short_code_list_is_named(info: InfoReport, state: StateReport)
    requires
        info.seglc is Some,
        state.seg is Some,
        info.seglc->0@.len() < state.seg->0@.len(),
        forall|i: int|
            0 <= i < state.seg->0@.len() ==> (#[trigger] state.seg->0@[i]).start is Some
                && state.seg->0@[i].stop is Some,
        forall|i: int| 0 <= i < info.seglc->0@.len() ==> (#[trigger] info.seglc->0@[i]) % 4 != 0,
        forall|i: int|
            0 <= i < info.seglc->0@.len() ==> (#[trigger] state.seg->0@[i]).name is Some
                || state.seg->0@[i].id is Some,
    ensures
        discovery_error(info, state) == Some(WledControllerError::MissingKey("seglc")),
{
    let segs = state.seg->0@;
    let codes = info.seglc->0@;
    let n = codes.len() as int;
    assert forall|j: int| 0 <= j < n implies #[trigger] segment_error_at(segs, codes, j) is None by {
        assert(segs[j].start is Some);
        assert(codes[j] % 4 != 0);
        assert(segs[j].name is Some || segs[j].id is Some);
    }
    assert(segs[n].start is Some && segs[n].stop is Some);
    lemma_first_faulty_segment_decides(segs, codes, n);
}

} // verus!
