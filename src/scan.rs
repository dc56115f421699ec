//! Parsing of the scan tool's output into access-point readings.
use vstd::prelude::*;

use crate::models::{aps_view, AccessPoint, ApModel};
use crate::text::{
    after, before_char, before_char_end, chars_of, clamp, decimal_range, decimal_rounded,
    first_word, first_word_range, lemma_capped_clamp, lines_of, parse_u32_range, parse_u32_spec,
    split_acc, starts_at, starts_with, string_from_range, strip_all, strip_all_range, to_upper,
    trim, trim_range, upper_of, contains_at, contains_seq, push_str, string_of,
};

verus! {

/// Channels of the frequencies that have a fixed entry.
pub open spec fn table_channel(f: u32) -> Option<u32> {
    match f {
        2412 => Some(1u32),
        2417 => Some(2u32),
        2422 => Some(3u32),
        2427 => Some(4u32),
        2432 => Some(5u32),
        2437 => Some(6u32),
        2442 => Some(7u32),
        2447 => Some(8u32),
        2452 => Some(9u32),
        2457 => Some(10u32),
        2462 => Some(11u32),
        2467 => Some(12u32),
        2472 => Some(13u32),
        2484 => Some(14u32),
        5180 => Some(36u32),
        5200 => Some(40u32),
        5220 => Some(44u32),
        5240 => Some(48u32),
        5260 => Some(52u32),
        5280 => Some(56u32),
        5300 => Some(60u32),
        5320 => Some(64u32),
        5500 => Some(100u32),
        5520 => Some(104u32),
        5540 => Some(108u32),
        5560 => Some(112u32),
        5580 => Some(116u32),
        5600 => Some(120u32),
        5620 => Some(124u32),
        5640 => Some(128u32),
        5660 => Some(132u32),
        5680 => Some(136u32),
        5700 => Some(140u32),
        5720 => Some(144u32),
        5745 => Some(149u32),
        5765 => Some(153u32),
        5785 => Some(157u32),
        5805 => Some(161u32),
        5825 => Some(165u32),
        5955 => Some(1u32),
        5975 => Some(5u32),
        5995 => Some(9u32),
        6015 => Some(13u32),
        _ => None,
    }
}

/// `(f - base) / 5`, or 0 below `base`.
pub open spec fn steps_above(f: int, base: int) -> int {
    if f >= base {
        (f - base) / 5
    } else {
        0
    }
}

/// The channel of a centre frequency: the table entry, else the band's
/// linear formula.
pub open spec fn channel_of(f: u32) -> int {
    match table_channel(f) {
        Some(c) => c as int,
        None => if f < 3000 {
            steps_above(f as int, 2407)
        } else if f < 5900 {
            steps_above(f as int, 5000)
        } else {
            steps_above(f as int, 5950)
        },
    }
}

/// Convert a frequency in MHz to its channel number.
pub fn freq_to_channel(freq_mhz: u32) -> (r: u32)
    ensures
        r == channel_of(freq_mhz),
{
    match freq_mhz {
        2412 => 1,
        2417 => 2,
        2422 => 3,
        2427 => 4,
        2432 => 5,
        2437 => 6,
        2442 => 7,
        2447 => 8,
        2452 => 9,
        2457 => 10,
        2462 => 11,
        2467 => 12,
        2472 => 13,
        2484 => 14,
        5180 => 36,
        5200 => 40,
        5220 => 44,
        5240 => 48,
        5260 => 52,
        5280 => 56,
        5300 => 60,
        5320 => 64,
        5500 => 100,
        5520 => 104,
        5540 => 108,
        5560 => 112,
        5580 => 116,
        5600 => 120,
        5620 => 124,
        5640 => 128,
        5660 => 132,
        5680 => 136,
        5700 => 140,
        5720 => 144,
        5745 => 149,
        5765 => 153,
        5785 => 157,
        5805 => 161,
        5825 => 165,
        5955 => 1,
        5975 => 5,
        5995 => 9,
        6015 => 13,
        _ => {
            if freq_mhz < 3000 {
                freq_mhz.saturating_sub(2407) / 5
            } else if freq_mhz < 5900 {
                freq_mhz.saturating_sub(5000) / 5
            } else {
                freq_mhz.saturating_sub(5950) / 5
            }
        },
    }
}

/// The fields gathered so far for one `BSS` block.
#[derive(Debug)]
pub struct AccessPointBuilder {
    pub bssid: String,
    pub ssid: Option<String>,
    pub signal_dbm: Option<i32>,
    pub channel: Option<u32>,
    pub frequency_mhz: Option<u32>,
}

pub ghost struct BuilderModel {
    pub bssid: Seq<char>,
    pub ssid: Option<Seq<char>>,
    pub signal_dbm: Option<int>,
    pub channel: Option<u32>,
    pub frequency_mhz: Option<u32>,
}

impl View for AccessPointBuilder {
    type V = BuilderModel;

    open spec fn view(&self) -> BuilderModel {
        BuilderModel {
            bssid: self.bssid@,
            ssid: match self.ssid {
                Some(s) => Some(s@),
                None => None,
            },
            signal_dbm: match self.signal_dbm {
                Some(x) => Some(x as int),
                None => None,
            },
            channel: self.channel,
            frequency_mhz: self.frequency_mhz,
        }
    }
}

pub open spec fn new_builder(bssid: Seq<char>) -> BuilderModel {
    BuilderModel { bssid, ssid: None, signal_dbm: None, channel: None, frequency_mhz: None }
}

/// A block becomes a reading only when both its signal and its frequency
/// were seen; a missing channel is derived from the frequency.
pub open spec fn build_spec(b: BuilderModel) -> Option<ApModel> {
    match (b.signal_dbm, b.frequency_mhz) {
        (Some(s), Some(f)) => Some(
            ApModel {
                bssid: b.bssid,
                ssid: match b.ssid {
                    Some(t) => t,
                    None => Seq::empty(),
                },
                signal_dbm: s,
                channel: match b.channel {
                    Some(c) => c as int,
                    None => channel_of(f),
                },
                frequency_mhz: f as int,
            },
        ),
        _ => None,
    }
}

impl AccessPointBuilder {
    pub fn new(bssid: String) -> (r: AccessPointBuilder)
        ensures
            r@ == new_builder(bssid@),
    {
        AccessPointBuilder {
            bssid,
            ssid: None,
            signal_dbm: None,
            channel: None,
            frequency_mhz: None,
        }
    }

    pub fn build(self) -> (r: Option<AccessPoint>)
        ensures
            match r {
                Some(ap) => build_spec(self@) == Some(ap@),
                None => build_spec(self@) is None,
            },
    {
        let signal_dbm = match self.signal_dbm {
            Some(s) => s,
            None => return None,
        };
        let frequency_mhz = match self.frequency_mhz {
            Some(f) => f,
            None => return None,
        };
        let channel = match self.channel {
            Some(c) => c,
            None => freq_to_channel(frequency_mhz),
        };
        let ssid = match self.ssid {
            Some(s) => s,
            None => String::new(),
        };
        Some(AccessPoint { bssid: self.bssid, ssid, signal_dbm, channel, frequency_mhz })
    }
}

/// The BSSID named on a block's first line: the text after the marker, up to
/// any parenthesised note, trimmed and upper-cased.
pub open spec fn header_bssid(t: Seq<char>) -> Seq<char> {
    upper_of(trim(before_char(strip_all(t, "BSS "@), '(')))
}

/// What one field line (already trimmed) does to the block being read.
pub open spec fn apply_field(b: BuilderModel, t: Seq<char>) -> BuilderModel {
    if starts_with(t, "signal: "@) {
        match first_word(after(t, "signal: "@)) {
            Some(w) => match decimal_rounded(w) {
                Some(x) => BuilderModel {
                    signal_dbm: Some(clamp(x, i32::MIN as int, i32::MAX as int)),
                    ..b
                },
                None => b,
            },
            None => b,
        }
    } else if starts_with(t, "SSID: "@) {
        BuilderModel { ssid: Some(after(t, "SSID: "@)), ..b }
    } else if starts_with(t, "freq: "@) {
        match decimal_rounded(after(t, "freq: "@)) {
            Some(x) => BuilderModel {
                frequency_mhz: Some(clamp(x, 0, u32::MAX as int) as u32),
                ..b
            },
            None => b,
        }
    } else if starts_with(t, "DS Parameter set: channel "@) {
        match parse_u32_spec(after(t, "DS Parameter set: channel "@)) {
            Some(c) => BuilderModel { channel: Some(c as u32), ..b },
            None => b,
        }
    } else if starts_with(t, "* primary channel: "@) {
        match parse_u32_spec(after(t, "* primary channel: "@)) {
            Some(c) => BuilderModel { channel: Some(c as u32), ..b },
            None => b,
        }
    } else {
        b
    }
}

/// Readings finished so far, and the block being read.
pub ghost struct ScanModel {
    pub aps: Seq<ApModel>,
    pub cur: Option<BuilderModel>,
}

/// `aps` with the block `cur` appended when it makes a reading.
pub open spec fn finish(aps: Seq<ApModel>, cur: Option<BuilderModel>) -> Seq<ApModel> {
    match cur {
        Some(b) => match build_spec(b) {
            Some(ap) => aps.push(ap),
            None => aps,
        },
        None => aps,
    }
}

/// One line of scan output: a `BSS` line closes the open block and opens a
/// new one; any other line feeds the open block, if there is one.
pub open spec fn scan_step(st: ScanModel, line: Seq<char>) -> ScanModel {
    let t = trim(line);
    if starts_with(t, "BSS "@) {
        ScanModel { aps: finish(st.aps, st.cur), cur: Some(new_builder(header_bssid(t))) }
    } else {
        match st.cur {
            Some(b) => ScanModel { aps: st.aps, cur: Some(apply_field(b, t)) },
            None => st,
        }
    }
}

pub open spec fn scan_fold(lines: Seq<Seq<char>>) -> ScanModel
    decreases lines.len(),
{
    if lines.len() == 0 {
        ScanModel { aps: Seq::empty(), cur: None }
    } else {
        scan_step(scan_fold(lines.drop_last()), lines.last())
    }
}

/// The readings that the scan output `s` describes, in order.
pub open spec fn parse_scan_spec(s: Seq<char>) -> Seq<ApModel> {
    let st = scan_fold(lines_of(s));
    finish(st.aps, st.cur)
}

pub open spec fn builder_model(b: Option<AccessPointBuilder>) -> Option<BuilderModel> {
    match b {
        Some(x) => Some(x@),
        None => None,
    }
}

pub open spec fn scan_state(aps: Seq<AccessPoint>, cur: Option<AccessPointBuilder>) -> ScanModel {
    ScanModel { aps: aps_view(aps), cur: builder_model(cur) }
}

proof fn lemma_skip_sub(v: Seq<char>, a: int, b: int, n: int)
    requires
        0 <= a <= b <= v.len(),
        0 <= n <= b - a,
    ensures
        v.subrange(a, b).skip(n) == v.subrange(a + n, b),
{
    assert(v.subrange(a, b).skip(n) =~= v.subrange(a + n, b));
}

fn close_block(aps: &mut Vec<AccessPoint>, cur: Option<AccessPointBuilder>)
    ensures
        aps_view(final(aps)@) == finish(aps_view(old(aps)@), builder_model(cur)),
{
    if let Some(b) = cur {
        if let Some(ap) = b.build() {
            aps.push(ap);
            proof {
                assert(aps_view(final(aps)@) =~= aps_view(old(aps)@).push(ap@));
            }
        }
    }
}

/// Applies one trimmed field line `v[a..b]` to `b0`.
fn read_field(v: &Vec<char>, a: usize, b: usize, b0: AccessPointBuilder) -> (r:
    AccessPointBuilder)
    requires
        a <= b <= v.len(),
    ensures
        r@ == apply_field(b0@, v@.subrange(a as int, b as int)),
{
    let ghost t = v@.subrange(a as int, b as int);
    let mut bl = b0;
    let signal = chars_of("signal: ");
    let ssid = chars_of("SSID: ");
    let freq = chars_of("freq: ");
    let ds = chars_of("DS Parameter set: channel ");
    let primary = chars_of("* primary channel: ");
    if starts_at(v, a, b, &signal) {
        proof {
            lemma_skip_sub(v@, a as int, b as int, signal@.len() as int);
        }
        if let Some((c, d)) = first_word_range(v, a + signal.len(), b) {
            if let Some(x) = decimal_range(v, c, d) {
                proof {
                    lemma_capped_clamp(
                        x as int,
                        decimal_rounded(v@.subrange(c as int, d as int))->0,
                        i32::MIN as int,
                        i32::MAX as int,
                    );
                }
                let s = if x < i32::MIN as i64 {
                    i32::MIN
                } else if x > i32::MAX as i64 {
                    i32::MAX
                } else {
                    x as i32
                };
                bl.signal_dbm = Some(s);
            }
        }
    } else if starts_at(v, a, b, &ssid) {
        proof {
            lemma_skip_sub(v@, a as int, b as int, ssid@.len() as int);
        }
        bl.ssid = Some(string_from_range(v, a + ssid.len(), b));
    } else if starts_at(v, a, b, &freq) {
        proof {
            lemma_skip_sub(v@, a as int, b as int, freq@.len() as int);
        }
        if let Some(x) = decimal_range(v, a + freq.len(), b) {
            proof {
                lemma_capped_clamp(
                    x as int,
                    decimal_rounded(v@.subrange(a + freq@.len(), b as int))->0,
                    0,
                    u32::MAX as int,
                );
            }
            let f = if x < 0 {
                0u32
            } else if x > u32::MAX as i64 {
                u32::MAX
            } else {
                x as u32
            };
            bl.frequency_mhz = Some(f);
        }
    } else if starts_at(v, a, b, &ds) {
        proof {
            lemma_skip_sub(v@, a as int, b as int, ds@.len() as int);
        }
        if let Some(c) = parse_u32_range(v, a + ds.len(), b) {
            bl.channel = Some(c);
        }
    } else if starts_at(v, a, b, &primary) {
        proof {
            lemma_skip_sub(v@, a as int, b as int, primary@.len() as int);
        }
        if let Some(c) = parse_u32_range(v, a + primary.len(), b) {
            bl.channel = Some(c);
        }
    }
    bl
}

/// Feeds the line `v[lo..hi]` to the parser state.
fn scan_line(
    v: &Vec<char>,
    lo: usize,
    hi: usize,
    aps: &mut Vec<AccessPoint>,
    cur: &mut Option<AccessPointBuilder>,
)
    requires
        lo <= hi <= v.len(),
    ensures
        scan_state(final(aps)@, *final(cur)) == scan_step(
            scan_state(old(aps)@, *old(cur)),
            v@.subrange(lo as int, hi as int),
        ),
{
    let (a, b) = trim_range(v, lo, hi);
    let bss = chars_of("BSS ");
    if starts_at(v, a, b, &bss) {
        let s = strip_all_range(v, a, b, &bss);
        let e = before_char_end(v, s, b, '(');
        let (c, d) = trim_range(v, s, e);
        let text = string_from_range(v, c, d);
        let bssid = to_upper(text.as_str());
        let prev = cur.take();
        close_block(aps, prev);
        *cur = Some(AccessPointBuilder::new(bssid));
    } else {
        let prev = cur.take();
        match prev {
            Some(b0) => {
                *cur = Some(read_field(v, a, b, b0));
            },
            None => {},
        }
    }
}

/// Parse the output of the scan command into access-point readings.
pub fn parse_scan_output(output: &str) -> (r: Vec<AccessPoint>)
    ensures
        aps_view(r@) == parse_scan_spec(output@),
{
    let v = chars_of(output);
    let mut aps: Vec<AccessPoint> = Vec::new();
    let mut cur: Option<AccessPointBuilder> = None;
    let mut start: usize = 0;
    let mut i: usize = 0;
    let ghost mut done: Seq<Seq<char>> = Seq::empty();
    assert(aps_view(aps@) =~= Seq::<ApModel>::empty());
    assert(v@.take(0) =~= Seq::<char>::empty());
    assert(v@.subrange(0, 0) =~= Seq::<char>::empty());
    while i < v.len()
        invariant
            start <= i <= v.len(),
            split_acc(v@.take(i as int)) == (done, v@.subrange(start as int, i as int)),
            scan_state(aps@, cur) == scan_fold(done),
        decreases v.len() - i,
    {
        assert(v@.take(i + 1).drop_last() =~= v@.take(i as int));
        assert(v@.take(i + 1).last() == v@[i as int]);
        if v[i] == '\n' {
            scan_line(&v, start, i, &mut aps, &mut cur);
            proof {
                let line = v@.subrange(start as int, i as int);
                assert(done.push(line).drop_last() =~= done);
                done = done.push(line);
                assert(v@.subrange(i + 1, i + 1) =~= Seq::<char>::empty());
            }
            start = i + 1;
        } else {
            assert(v@.subrange(start as int, i as int).push(v@[i as int]) =~= v@.subrange(
                start as int,
                i + 1,
            ));
        }
        i = i + 1;
    }
    scan_line(&v, start, v.len(), &mut aps, &mut cur);
    proof {
        let line = v@.subrange(start as int, v.len() as int);
        assert(v@.take(v.len() as int) =~= v@);
        assert(done.push(line).drop_last() =~= done);
    }
    close_block(&mut aps, cur);
    aps
}


/// The blocks of a scan output, one per `BSS` line, with their fields as read.
pub open spec fn blocks_fold(lines: Seq<Seq<char>>) -> Seq<BuilderModel>
    decreases lines.len(),
{
    if lines.len() == 0 {
        Seq::empty()
    } else {
        let bs = blocks_fold(lines.drop_last());
        let t = trim(lines.last());
        if starts_with(t, "BSS "@) {
            bs.push(new_builder(header_bssid(t)))
        } else if bs.len() > 0 {
            bs.update(bs.len() - 1, apply_field(bs.last(), t))
        } else {
            bs
        }
    }
}

pub open spec fn scan_blocks(s: Seq<char>) -> Seq<BuilderModel> {
    blocks_fold(lines_of(s))
}

/// The number of lines that open a block.
pub open spec fn header_count(lines: Seq<Seq<char>>) -> nat
    decreases lines.len(),
{
    if lines.len() == 0 {
        0
    } else {
        header_count(lines.drop_last()) + if starts_with(trim(lines.last()), "BSS "@) {
            1nat
        } else {
            0nat
        }
    }
}

/// The readings that the blocks `bs` make, in order.
pub open spec fn built(bs: Seq<BuilderModel>) -> Seq<ApModel>
    decreases bs.len(),
{
    if bs.len() == 0 {
        Seq::empty()
    } else {
        finish(built(bs.drop_last()), Some(bs.last()))
    }
}

pub open spec fn all_but_last(bs: Seq<BuilderModel>) -> Seq<BuilderModel> {
    if bs.len() == 0 {
        bs
    } else {
        bs.drop_last()
    }
}

proof fn lemma_fold_blocks(lines: Seq<Seq<char>>)
    ensures
        blocks_fold(lines).len() == header_count(lines),
        scan_fold(lines).cur == if blocks_fold(lines).len() == 0 {
            None::<BuilderModel>
        } else {
            Some(blocks_fold(lines).last())
        },
        scan_fold(lines).aps == built(all_but_last(blocks_fold(lines))),
    decreases lines.len(),
{
    if lines.len() > 0 {
        let pre = lines.drop_last();
        lemma_fold_blocks(pre);
        let bs = blocks_fold(pre);
        let t = trim(lines.last());
        if starts_with(t, "BSS "@) {
            let nb = bs.push(new_builder(header_bssid(t)));
            assert(nb.drop_last() =~= bs);
            if bs.len() > 0 {
                assert(bs.drop_last() == bs.drop_last());
            } else {
                assert(bs =~= Seq::<BuilderModel>::empty());
            }
        } else if bs.len() > 0 {
            let nb = bs.update(bs.len() - 1, apply_field(bs.last(), t));
            assert(nb.drop_last() =~= bs.drop_last());
        }
    }
}

proof fn lemma_built_all(bs: Seq<BuilderModel>)
    requires
        forall|i: int| 0 <= i < bs.len() ==> (#[trigger] build_spec(bs[i])) is Some,
    ensures
        built(bs).len() == bs.len(),
        forall|i: int| 0 <= i < bs.len() ==> #[trigger] built(bs)[i] == build_spec(bs[i])->0,
    decreases bs.len(),
{
    if bs.len() > 0 {
        let pre = bs.drop_last();
        assert forall|i: int| 0 <= i < pre.len() implies (#[trigger] build_spec(pre[i])) is Some by {
            assert(pre[i] == bs[i]);
        }
        lemma_built_all(pre);
        assert(build_spec(bs[bs.len() - 1]) is Some);
        assert forall|i: int| 0 <= i < bs.len() implies #[trigger] built(bs)[i] == build_spec(
            bs[i],
        )->0 by {
            if i < bs.len() - 1 {
                assert(built(pre)[i] == build_spec(pre[i])->0);
                assert(pre[i] == bs[i]);
            }
        }
    }
}

/// When every block of a scan output carries both a signal and a frequency,
/// parsing yields exactly one reading per `BSS` block, in input order; each
/// reading's channel is the block's own channel field if it had one, else the
/// one derived from its frequency.
pub proof fn lemma_one_reading_per_block(s: Seq<char>)
    requires
        forall|i: int|
            0 <= i < scan_blocks(s).len() ==> (#[trigger] scan_blocks(s)[i]).signal_dbm is Some
                && scan_blocks(s)[i].frequency_mhz is Some,
    ensures
        parse_scan_spec(s).len() == scan_blocks(s).len(),
        scan_blocks(s).len() == header_count(lines_of(s)),
        forall|i: int|
            0 <= i < parse_scan_spec(s).len() ==> {
                let b = scan_blocks(s)[i];
                let ap = #[trigger] parse_scan_spec(s)[i];
                &&& ap.bssid == b.bssid
                &&& ap.signal_dbm == b.signal_dbm->0
                &&& ap.frequency_mhz == b.frequency_mhz->0 as int
                &&& ap.channel == match b.channel {
                    Some(c) => c as int,
                    None => channel_of(b.frequency_mhz->0),
                }
            },
{
    let bs = scan_blocks(s);
    lemma_fold_blocks(lines_of(s));
    assert forall|i: int| 0 <= i < bs.len() implies (#[trigger] build_spec(bs[i])) is Some by {
        assert(bs[i].signal_dbm is Some && bs[i].frequency_mhz is Some);
    }
    lemma_built_all(bs);
    if bs.len() > 0 {
        assert(bs.drop_last().push(bs.last()) =~= bs);
        assert(parse_scan_spec(s) == built(bs));
    }
}


/// The message shown for a failed scan command, from what it wrote to its
/// error stream: permission denied, device busy, or the stream itself.
pub open spec fn failure_message(stderr: Seq<char>) -> Seq<char> {
    if contains_seq(stderr, "Operation not permitted"@) {
        "Permission denied. Run with sudo or set CAP_NET_ADMIN capability."@
    } else if contains_seq(stderr, "Device or resource busy"@) {
        "Device busy. Another scan may be in progress."@
    } else {
        "Scan failed: "@ + stderr
    }
}

/// Classifies a failed scan command by its error stream.
pub fn scan_failure_message(stderr: &str) -> (r: String)
    ensures
        r@ == failure_message(stderr@),
{
    let v = chars_of(stderr);
    assert(v@.subrange(0, v@.len() as int) =~= v@);
    if contains_at(&v, 0, v.len(), &chars_of("Operation not permitted")) {
        "Permission denied. Run with sudo or set CAP_NET_ADMIN capability.".to_owned()
    } else if contains_at(&v, 0, v.len(), &chars_of("Device or resource busy")) {
        "Device busy. Another scan may be in progress.".to_owned()
    } else {
        let mut out: Vec<char> = Vec::new();
        push_str(&mut out, "Scan failed: ");
        push_str(&mut out, stderr);
        string_of(out.as_slice())
    }
}

} // verus!
