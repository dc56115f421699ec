//! Adapter enumeration: the interfaces listed by the device tool, and the
//! driver and chipset labels read from the system's device descriptions.
use vstd::prelude::*;

use crate::models::{Adapter, AdapterModel};
use crate::text::{
    before_char, before_char_end, chars_of, contains_at, contains_seq, line_ranges, lines_of,
    push_str, starts_at, starts_with, string_from_range, string_of, strip_all,
    strip_all_range, trim, trim_range,
};

verus! {

pub ghost struct IwModel {
    pub interfaces: Seq<Seq<char>>,
    pub current: Option<Seq<char>>,
}

/// One line of the device listing: an `Interface` line names the pending
/// interface; a later `type` line commits it.
pub open spec fn iw_step(st: IwModel, line: Seq<char>) -> IwModel {
    let t = trim(line);
    if starts_with(t, "Interface "@) {
        IwModel { interfaces: st.interfaces, current: Some(strip_all(t, "Interface "@)) }
    } else if starts_with(t, "type "@) && st.current is Some {
        IwModel { interfaces: st.interfaces.push(st.current->0), current: None }
    } else {
        st
    }
}

pub open spec fn iw_fold(lines: Seq<Seq<char>>) -> IwModel
    decreases lines.len(),
{
    if lines.len() == 0 {
        IwModel { interfaces: Seq::empty(), current: None }
    } else {
        iw_step(iw_fold(lines.drop_last()), lines.last())
    }
}

/// The interfaces named in a device listing, in order.
pub open spec fn listed_interfaces(s: Seq<char>) -> Seq<Seq<char>> {
    iw_fold(lines_of(s)).interfaces
}

/// An adapter whose driver and chipset could not be looked up.
pub open spec fn unidentified(interface: Seq<char>) -> AdapterModel {
    AdapterModel {
        interface,
        driver: "unknown"@,
        chipset: "Unknown Adapter"@,
        label: None,
    }
}

pub open spec fn adapters_view(v: Seq<Adapter>) -> Seq<AdapterModel> {
    v.map_values(|a: Adapter| a@)
}

/// Parse the output of the device listing into adapters. Driver and chipset
/// carry their defaults until `adapter_info` supplies them.
pub fn parse_iw_dev(output: &str) -> (r: Result<Vec<Adapter>, String>)
    ensures
        r matches Ok(v) && adapters_view(v@) == listed_interfaces(output@).map_values(
            |i: Seq<char>| unidentified(i),
        ),
{
    let v = chars_of(output);
    let ranges = line_ranges(&v);
    let iface = chars_of("Interface ");
    let ty = chars_of("type ");
    let mut adapters: Vec<Adapter> = Vec::new();
    let mut current: Option<String> = None;
    let mut k: usize = 0;
    let ghost lines = lines_of(v@);
    assert(lines.take(0) =~= Seq::<Seq<char>>::empty());
    assert(adapters_view(adapters@) =~= Seq::<AdapterModel>::empty());
    while k < ranges.len()
        invariant
            k <= ranges@.len() == lines.len(),
            lines == lines_of(v@),
            forall|i: int| 0 <= i < ranges@.len() ==> crate::text::line_at(v@, ranges@[i], #[trigger] lines[i]),
            iface@ == "Interface "@,
            ty@ == "type "@,
            adapters_view(adapters@) == iw_fold(lines.take(k as int)).interfaces.map_values(
                |i: Seq<char>| unidentified(i),
            ),
            match current {
                Some(c) => iw_fold(lines.take(k as int)).current == Some(c@),
                None => iw_fold(lines.take(k as int)).current is None,
            },
        decreases ranges.len() - k,
    {
        let (lo, hi) = ranges[k];
        assert(crate::text::line_at(v@, ranges@[k as int], lines[k as int]));
        assert(lines.take(k + 1).drop_last() =~= lines.take(k as int));
        assert(lines.take(k + 1).last() == lines[k as int]);
        let ghost before = iw_fold(lines.take(k as int));
        let (a, b) = trim_range(&v, lo, hi);
        if starts_at(&v, a, b, &iface) {
            let s = strip_all_range(&v, a, b, &iface);
            current = Some(string_from_range(&v, s, b));
        } else if starts_at(&v, a, b, &ty) && current.is_some() {
            let ghost cur0 = current;
            let name = current.take().unwrap();
            assert(cur0 == Some(name));
            assert(name@ == before.current->0);
            let ghost old_ads = adapters@;
            adapters.push(
                Adapter {
                    interface: name,
                    driver: "unknown".to_owned(),
                    chipset: "Unknown Adapter".to_owned(),
                    label: None,
                },
            );
            assert(adapters@[adapters@.len() - 1]@ == unidentified(name@));
            assert(adapters_view(adapters@) =~= adapters_view(old_ads).push(unidentified(name@)));
            assert(before.interfaces.push(before.current->0).map_values(
                |i: Seq<char>| unidentified(i),
            ) =~= before.interfaces.map_values(|i: Seq<char>| unidentified(i)).push(
                unidentified(name@),
            ));
            assert(adapters_view(adapters@) =~= before.interfaces.push(
                before.current->0,
            ).map_values(|i: Seq<char>| unidentified(i)));
        }
        k = k + 1;
    }
    assert(lines.take(lines.len() as int) =~= lines);
    Ok(adapters)
}

/// The chipset label derived from a driver name.
pub open spec fn chipset_for_driver_spec(d: Seq<char>) -> Seq<char> {
    if d == "iwlwifi"@ {
        "Intel WiFi"@
    } else if d == "ath9k"@ || d == "ath10k_pci"@ || d == "ath11k"@ {
        "Atheros WiFi"@
    } else if d == "rtl8xxxu"@ || d == "rtw88_pci"@ || d == "rtw89_pci"@ {
        "Realtek WiFi"@
    } else if d == "brcmfmac"@ {
        "Broadcom WiFi"@
    } else if d == "mt76x2u"@ || d == "mt7921e"@ {
        "MediaTek WiFi"@
    } else {
        d + " adapter"@
    }
}

fn text_is(d: &Vec<char>, s: &str) -> (r: bool)
    ensures
        r == (d@ == s@),
{
    let t = chars_of(s);
    if d.len() != t.len() {
        return false;
    }
    let r = starts_at(d, 0, d.len(), &t);
    assert(d@.subrange(0, d.len() as int) =~= d@);
    assert(r ==> d@.take(t.len() as int) =~= d@);
    r
}

/// The chipset label derived from a driver name.
pub fn chipset_for_driver(driver: &str) -> (r: String)
    ensures
        r@ == chipset_for_driver_spec(driver@),
{
    let d = chars_of(driver);
    if text_is(&d, "iwlwifi") {
        "Intel WiFi".to_owned()
    } else if text_is(&d, "ath9k") || text_is(&d, "ath10k_pci") || text_is(&d, "ath11k") {
        "Atheros WiFi".to_owned()
    } else if text_is(&d, "rtl8xxxu") || text_is(&d, "rtw88_pci") || text_is(&d, "rtw89_pci") {
        "Realtek WiFi".to_owned()
    } else if text_is(&d, "brcmfmac") {
        "Broadcom WiFi".to_owned()
    } else if text_is(&d, "mt76x2u") || text_is(&d, "mt7921e") {
        "MediaTek WiFi".to_owned()
    } else {
        let mut v: Vec<char> = Vec::new();
        push_str(&mut v, driver);
        push_str(&mut v, " adapter");
        string_of(v.as_slice())
    }
}

/// The first of `lines` that starts with `p` (`prefix`) or holds `p`.
pub open spec fn first_line(lines: Seq<Seq<char>>, p: Seq<char>, prefix: bool) -> Option<Seq<char>>
    decreases lines.len(),
{
    if lines.len() == 0 {
        None
    } else {
        match first_line(lines.drop_last(), p, prefix) {
            Some(l) => Some(l),
            None => if (prefix && starts_with(lines.last(), p)) || (!prefix && contains_seq(
                lines.last(),
                p,
            )) {
                Some(lines.last())
            } else {
                None
            },
        }
    }
}

/// The bounds of the first line of `v` that starts with or holds `p`.
fn find_line(v: &Vec<char>, p: &Vec<char>, prefix: bool) -> (r: Option<(usize, usize)>)
    ensures
        match r {
            Some(x) => crate::text::line_at(v@, x, first_line(lines_of(v@), p@, prefix)->0)
                && first_line(lines_of(v@), p@, prefix) is Some,
            None => first_line(lines_of(v@), p@, prefix) is None,
        },
{
    let ranges = line_ranges(v);
    let ghost lines = lines_of(v@);
    let mut k: usize = 0;
    assert(lines.take(0) =~= Seq::<Seq<char>>::empty());
    while k < ranges.len()
        invariant
            k <= ranges@.len() == lines.len(),
            lines == lines_of(v@),
            forall|i: int| 0 <= i < ranges@.len() ==> crate::text::line_at(v@, ranges@[i], #[trigger] lines[i]),
            first_line(lines.take(k as int), p@, prefix) is None,
        decreases ranges.len() - k,
    {
        let (lo, hi) = ranges[k];
        assert(crate::text::line_at(v@, ranges@[k as int], lines[k as int]));
        assert(lines.take(k + 1).drop_last() =~= lines.take(k as int));
        assert(lines.take(k + 1).last() == lines[k as int]);
        let hit = if prefix {
            starts_at(v, lo, hi, p)
        } else {
            contains_at(v, lo, hi, p)
        };
        if hit {
            proof {
                lemma_first_line_prefix(lines, k as int + 1, p@, prefix);
            }
            return Some((lo, hi));
        }
        k = k + 1;
    }
    assert(lines.take(lines.len() as int) =~= lines);
    None
}

/// Once some prefix of `lines` has a match, so do all longer prefixes, with the same line.
proof fn lemma_first_line_prefix(lines: Seq<Seq<char>>, k: int, p: Seq<char>, prefix: bool)
    requires
        0 <= k <= lines.len(),
        first_line(lines.take(k), p, prefix) is Some,
    ensures
        first_line(lines, p, prefix) == first_line(lines.take(k), p, prefix),
    decreases lines.len() - k,
{
    if k < lines.len() {
        assert(lines.take(k + 1).drop_last() =~= lines.take(k));
        lemma_first_line_prefix(lines, k + 1, p, prefix);
    } else {
        assert(lines.take(k) =~= lines);
    }
}

/// The driver named on the `DRIVER=` line of a device description, or
/// `"unknown"` when the description is missing or has no such line.
pub open spec fn uevent_driver(contents: Option<Seq<char>>) -> Seq<char> {
    match contents {
        Some(c) => match first_line(lines_of(c), "DRIVER="@, true) {
            Some(l) => strip_all(l, "DRIVER="@),
            None => "unknown"@,
        },
        None => "unknown"@,
    }
}

pub fn driver_from_uevent(contents: Option<&str>) -> (r: String)
    ensures
        r@ == uevent_driver(match contents {
            Some(c) => Some(c@),
            None => None,
        }),
{
    match contents {
        Some(c) => {
            let v = chars_of(c);
            let p = chars_of("DRIVER=");
            match find_line(&v, &p, true) {
                Some((lo, hi)) => {
                    let s = strip_all_range(&v, lo, hi, &p);
                    string_from_range(&v, s, hi)
                },
                None => "unknown".to_owned(),
            }
        },
        None => "unknown".to_owned(),
    }
}

/// The text between the first and the second `=` of a line, if it has one.
pub open spec fn second_field(l: Seq<char>) -> Option<Seq<char>> {
    let b = before_char(l, '=');
    if b.len() == l.len() {
        None
    } else {
        Some(before_char(l.skip(b.len() + 1int), '='))
    }
}

/// The model name in the device manager's report: from the
/// `ID_MODEL_FROM_DATABASE=` line, else from the `ID_MODEL=` line.
pub open spec fn udev_model(s: Seq<char>) -> Option<Seq<char>> {
    match first_line(lines_of(s), "ID_MODEL_FROM_DATABASE="@, false) {
        Some(l) => second_field(l),
        None => match first_line(lines_of(s), "ID_MODEL="@, false) {
            Some(l) => second_field(l),
            None => None,
        },
    }
}

fn second_field_of(v: &Vec<char>, lo: usize, hi: usize) -> (r: Option<String>)
    requires
        lo <= hi <= v.len(),
    ensures
        match r {
            Some(x) => second_field(v@.subrange(lo as int, hi as int)) == Some(x@),
            None => second_field(v@.subrange(lo as int, hi as int)) is None,
        },
{
    let ghost l = v@.subrange(lo as int, hi as int);
    let e = before_char_end(v, lo, hi, '=');
    if e == hi {
        return None;
    }
    assert(l.skip(e - lo + 1) =~= v@.subrange(e + 1, hi as int));
    let f = before_char_end(v, e + 1, hi, '=');
    Some(string_from_range(v, e + 1, f))
}

pub fn chipset_from_udevadm(stdout: &str) -> (r: Option<String>)
    ensures
        match r {
            Some(x) => udev_model(stdout@) == Some(x@),
            None => udev_model(stdout@) is None,
        },
{
    let v = chars_of(stdout);
    let p1 = chars_of("ID_MODEL_FROM_DATABASE=");
    match find_line(&v, &p1, false) {
        Some((lo, hi)) => second_field_of(&v, lo, hi),
        None => {
            let p2 = chars_of("ID_MODEL=");
            match find_line(&v, &p2, false) {
                Some((lo, hi)) => second_field_of(&v, lo, hi),
                None => None,
            }
        },
    }
}

/// Driver and chipset of an adapter from what the system reported: the
/// device description (if it could be read) and the device manager's report
/// (if the command ran). The chipset falls back to a label derived from the
/// driver.
pub fn adapter_info(uevent: Option<&str>, udevadm: Option<&str>) -> (r: (String, String))
    ensures
        r.0@ == uevent_driver(match uevent {
            Some(c) => Some(c@),
            None => None,
        }),
        r.1@ == match udevadm {
            Some(u) => match udev_model(u@) {
                Some(m) => m,
                None => chipset_for_driver_spec(r.0@),
            },
            None => chipset_for_driver_spec(r.0@),
        },
{
    let driver = driver_from_uevent(uevent);
    let model = match udevadm {
        Some(u) => chipset_from_udevadm(u),
        None => None,
    };
    let chipset = match model {
        Some(m) => m,
        None => chipset_for_driver(driver.as_str()),
    };
    (driver, chipset)
}

} // verus!
