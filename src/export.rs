//! CSV renderings of a session and of a comparison.
use vstd::prelude::*;

use crate::models::{aps_view, band_of, bssid_signals, sightings, ApModel, Band, ScanResult, Session};
use crate::stats::{round_div, seq_max, seq_min, seq_sum};
use crate::text::{
    chars_of, contains_char, contains_char_vec, dec_text, push_chars, push_dec, push_signed,
    push_str, push_string, signed_text, string_of,
};
use crate::time::{format_instant, utc_text_or_empty};

verus! {

/// `s` with every `"` doubled.
pub open spec fn double_quotes(s: Seq<char>) -> Seq<char>
    decreases s.len(),
{
    if s.len() == 0 {
        Seq::empty()
    } else {
        double_quotes(s.drop_last()) + if s.last() == '"' {
            seq!['"', '"']
        } else {
            seq![s.last()]
        }
    }
}

/// A CSV field: quoted, with doubled inner quotes, when it holds a comma, a
/// quote or a newline; as it is otherwise.
pub open spec fn csv_field(s: Seq<char>) -> Seq<char> {
    if contains_char(s, ',') || contains_char(s, '"') || contains_char(s, '\n') {
        seq!['"'] + double_quotes(s) + seq!['"']
    } else {
        s
    }
}

fn push_csv_field(v: &mut Vec<char>, s: &str)
    ensures
        final(v)@ == old(v)@ + csv_field(s@),
{
    let cs = chars_of(s);
    if contains_char_vec(&cs, ',') || contains_char_vec(&cs, '"') || contains_char_vec(&cs, '\n') {
        v.push('"');
        let ghost start = v@;
        let mut i: usize = 0;
        assert(cs@.take(0) =~= Seq::<char>::empty());
        assert(start + double_quotes(Seq::<char>::empty()) =~= start);
        while i < cs.len()
            invariant
                i <= cs.len(),
                v@ == start + double_quotes(cs@.take(i as int)),
            decreases cs.len() - i,
        {
            assert(cs@.take(i + 1).drop_last() =~= cs@.take(i as int));
            let c = cs[i];
            if c == '"' {
                v.push('"');
                v.push('"');
            } else {
                v.push(c);
            }
            assert(v@ =~= start + double_quotes(cs@.take(i + 1)));
            i = i + 1;
        }
        assert(cs@.take(cs.len() as int) =~= cs@);
        v.push('"');
        assert(final(v)@ =~= old(v)@ + csv_field(s@));
    } else {
        push_chars(v, &cs);
    }
}

/// Escape one CSV field.
pub fn escape_csv(s: &str) -> (r: String)
    ensures
        r@ == csv_field(s@),
{
    let mut v: Vec<char> = Vec::new();
    push_csv_field(&mut v, s);
    assert(v@ =~= csv_field(s@));
    string_of(v.as_slice())
}

pub open spec fn band_short(b: Band) -> Seq<char> {
    match b {
        Band::TwoPointFourGHz => "2G"@,
        Band::FiveGHz => "5G"@,
        Band::SixGHz => "6G"@,
    }
}

/// The time pattern of the per-scan export.
pub open spec fn export_time_pattern() -> Seq<char> {
    "%Y-%m-%d %H:%M:%S"@
}

/// One line of the per-scan export.
pub open spec fn reading_line(ts: Seq<char>, a: ApModel) -> Seq<char> {
    ts + ","@ + csv_field(a.bssid) + ","@ + csv_field(a.ssid) + ","@ + signed_text(a.signal_dbm) + ","@
        + dec_text(a.channel as nat) + ","@ + dec_text(a.frequency_mhz as nat) + ","@ + band_short(
        band_of(a.frequency_mhz),
    ) + "\n"@
}

pub open spec fn scan_lines(ts: Seq<char>, aps: Seq<ApModel>) -> Seq<char>
    decreases aps.len(),
{
    if aps.len() == 0 {
        Seq::empty()
    } else {
        scan_lines(ts, aps.drop_last()) + reading_line(ts, aps.last())
    }
}

pub open spec fn session_lines(scans: Seq<ScanResult>) -> Seq<char>
    decreases scans.len(),
{
    if scans.len() == 0 {
        Seq::empty()
    } else {
        session_lines(scans.drop_last()) + scan_lines(
            utc_text_or_empty(scans.last().timestamp, export_time_pattern()),
            aps_view(scans.last().access_points@),
        )
    }
}

pub open spec fn session_csv_spec(s: Session) -> Seq<char> {
    "timestamp,bssid,ssid,signal_dbm,channel,frequency_mhz,band\n"@ + session_lines(s.scans@)
}

fn push_reading_line(v: &mut Vec<char>, ts: &String, ap: &crate::models::AccessPoint)
    ensures
        final(v)@ == old(v)@ + reading_line(ts@, ap@),
{
    push_string(v, ts);
    push_str(v, ",");
    push_csv_field(v, ap.bssid.as_str());
    push_str(v, ",");
    push_csv_field(v, ap.ssid.as_str());
    push_str(v, ",");
    push_signed(v, ap.signal_dbm as i64);
    push_str(v, ",");
    push_dec(v, ap.channel as u64);
    push_str(v, ",");
    push_dec(v, ap.frequency_mhz as u64);
    push_str(v, ",");
    push_str(v, ap.band().short_name());
    push_str(v, "\n");
    assert(final(v)@ =~= old(v)@ + reading_line(ts@, ap@));
}

/// The per-scan CSV export of a session: a header, then one line per reading.
pub fn session_csv(session: &Session) -> (r: String)
    ensures
        r@ == session_csv_spec(*session),
{
    let mut v: Vec<char> = Vec::new();
    push_str(&mut v, "timestamp,bssid,ssid,signal_dbm,channel,frequency_mhz,band\n");
    let ghost head = v@;
    let mut i: usize = 0;
    assert(session_lines(session.scans@.take(0)) =~= Seq::<char>::empty());
    assert(head + Seq::<char>::empty() =~= head);
    while i < session.scans.len()
        invariant
            i <= session.scans.len(),
            head == "timestamp,bssid,ssid,signal_dbm,channel,frequency_mhz,band\n"@,
            v@ == head + session_lines(session.scans@.take(i as int)),
        decreases session.scans.len() - i,
    {
        let scan = &session.scans[i];
        let ts = format_instant(scan.timestamp, "%Y-%m-%d %H:%M:%S");
        let ghost aps = aps_view(scan.access_points@);
        let ghost pre = v@;
        let mut j: usize = 0;
        assert(aps.take(0) =~= Seq::<ApModel>::empty());
        assert(pre + scan_lines(ts@, aps.take(0)) =~= pre);
        while j < scan.access_points.len()
            invariant
                j <= scan.access_points.len(),
                aps == aps_view(scan.access_points@),
                v@ == pre + scan_lines(ts@, aps.take(j as int)),
            decreases scan.access_points.len() - j,
        {
            assert(aps.take(j + 1).drop_last() =~= aps.take(j as int));
            assert(aps.take(j + 1).last() == scan.access_points@[j as int]@);
            push_reading_line(&mut v, &ts, &scan.access_points[j]);
            assert(v@ =~= pre + scan_lines(ts@, aps.take(j + 1)));
            j = j + 1;
        }
        assert(aps.take(scan.access_points.len() as int) =~= aps);
        assert(session.scans@.take(i + 1).drop_last() =~= session.scans@.take(i as int));
        assert(v@ =~= head + session_lines(session.scans@.take(i + 1)));
        i = i + 1;
    }
    assert(session.scans@.take(session.scans.len() as int) =~= session.scans@);
    string_of(v.as_slice())
}

/// One line of the comparison export for one session and one BSSID.
pub open spec fn comparison_line(s: Session, bssid: Seq<char>) -> Seq<char> {
    let sig = bssid_signals(sightings(s.scans@), bssid);
    let head = csv_field(s.adapter@.chipset) + ","@ + csv_field(s.adapter@.interface) + ","@ + match s.adapter@.label {
        Some(l) => csv_field(l),
        None => Seq::empty(),
    };
    if sig.len() == 0 {
        head + ",N/A,N/A,N/A,0\n"@
    } else {
        head + ","@ + signed_text(round_div(seq_sum(sig), sig.len() as int)) + ","@ + signed_text(
            seq_min(sig),
        ) + ","@ + signed_text(seq_max(sig)) + ","@ + dec_text(sig.len()) + "\n"@
    }
}

pub open spec fn comparison_lines(sessions: Seq<Session>, bssid: Seq<char>) -> Seq<char>
    decreases sessions.len(),
{
    if sessions.len() == 0 {
        Seq::empty()
    } else {
        comparison_lines(sessions.drop_last(), bssid) + comparison_line(sessions.last(), bssid)
    }
}

pub open spec fn comparison_csv_spec(sessions: Seq<Session>, bssid: Seq<char>) -> Seq<char> {
    "adapter,interface,label,avg_signal,min_signal,max_signal,scan_count\n"@ + comparison_lines(
        sessions,
        bssid,
    )
}

fn push_comparison_head(v: &mut Vec<char>, s: &Session)
    ensures
        final(v)@ == old(v)@ + csv_field(s.adapter@.chipset) + ","@ + csv_field(s.adapter@.interface) + ","@
            + match s.adapter@.label {
            Some(l) => csv_field(l),
            None => Seq::empty(),
        },
{
    push_csv_field(v, s.adapter.chipset.as_str());
    push_str(v, ",");
    push_csv_field(v, s.adapter.interface.as_str());
    push_str(v, ",");
    match &s.adapter.label {
        Some(l) => push_csv_field(v, l.as_str()),
        None => {},
    }
    assert(final(v)@ =~= old(v)@ + csv_field(s.adapter@.chipset) + ","@ + csv_field(s.adapter@.interface)
        + ","@ + match s.adapter@.label {
        Some(l) => csv_field(l),
        None => Seq::empty(),
    });
}

#[verifier::rlimit(30)]
fn push_comparison_line(v: &mut Vec<char>, s: &Session, bssid: &str)
    ensures
        final(v)@ == old(v)@ + comparison_line(*s, bssid@),
{
    push_comparison_head(v, s);
    let ghost mid = v@;
    match s.ap_stats(bssid) {
        Some(st) => {
            push_str(v, ",");
            push_signed(v, st.avg as i64);
            push_str(v, ",");
            push_signed(v, st.min as i64);
            push_str(v, ",");
            push_signed(v, st.max as i64);
            push_str(v, ",");
            push_dec(v, st.count as u64);
            push_str(v, "\n");
            assert(v@ =~= mid + ","@ + signed_text(st.avg as int) + ","@ + signed_text(st.min as int)
                + ","@ + signed_text(st.max as int) + ","@ + dec_text(st.count as nat) + "\n"@);
        },
        None => {
            push_str(v, ",N/A,N/A,N/A,0\n");
        },
    }
    assert(final(v)@ =~= old(v)@ + comparison_line(*s, bssid@));
}

/// The comparison CSV export: a header, then per session the statistics of
/// `ap_bssid` (or `N/A` when the session never saw it).
pub fn comparison_csv(sessions: &Vec<Session>, ap_bssid: &str) -> (r: String)
    ensures
        r@ == comparison_csv_spec(sessions@, ap_bssid@),
{
    let mut v: Vec<char> = Vec::new();
    push_str(&mut v, "adapter,interface,label,avg_signal,min_signal,max_signal,scan_count\n");
    let ghost head = v@;
    let mut i: usize = 0;
    assert(comparison_lines(sessions@.take(0), ap_bssid@) =~= Seq::<char>::empty());
    assert(head + Seq::<char>::empty() =~= head);
    while i < sessions.len()
        invariant
            i <= sessions.len(),
            head == "adapter,interface,label,avg_signal,min_signal,max_signal,scan_count\n"@,
            v@ == head + comparison_lines(sessions@.take(i as int), ap_bssid@),
        decreases sessions.len() - i,
    {
        let s = &sessions[i];
        let ghost pre = v@;
        push_comparison_line(&mut v, s, ap_bssid);
        assert(v@ =~= pre + comparison_line(sessions@[i as int], ap_bssid@));
        assert(sessions@.take(i + 1).drop_last() =~= sessions@.take(i as int));
        assert(v@ =~= head + comparison_lines(sessions@.take(i + 1), ap_bssid@));
        i = i + 1;
    }
    assert(sessions@.take(sessions.len() as int) =~= sessions@);
    string_of(v.as_slice())
}

} // verus!
