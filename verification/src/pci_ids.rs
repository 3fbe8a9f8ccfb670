//! Lookup of a device name in a PCI ID database (the `pci.ids` format).
//!
//! A vendor entry is a line that starts with the vendor id followed by two
//! spaces and the vendor's name; a device entry is a line that starts with a
//! tab, the device id, two spaces and the device's name.

use vstd::prelude::*;
use vstd::string::*;
use crate::text::{
    is_prefix_of, is_white_space, lemma_line_split_prefix, lemma_lines_concat, lemma_single_line,
    lemma_trim_after_spaces, line_split, lines, range_starts_with, starts_with, str_chars,
    strip_cr, trim, trim_range,
};

verus! {

/// What the search has seen after some lines of the database.
pub struct PciScan {
    /// The name on the latest vendor line of the searched vendor.
    pub vendor: Option<Seq<char>>,
    /// `"<vendor name> <device name>"`, once a device line was matched.
    pub found: Option<Seq<char>>,
}

/// Two spaces, the separator between an id and its name.
pub open spec fn name_separator() -> Seq<char> {
    seq![' ', ' ']
}

/// The beginning of a device line for `device_id`.
pub open spec fn device_prefix(device_id: Seq<char>) -> Seq<char> {
    seq!['\t'] + device_id
}

/// The search state before any line.
pub open spec fn scan_start() -> PciScan {
    PciScan { vendor: None, found: None }
}

/// One line of the database applied to the search state.
pub open spec fn scan_line(
    st: PciScan,
    line: Seq<char>,
    vendor_id: Seq<char>,
    device_id: Seq<char>,
) -> PciScan {
    if st.found is Some {
        st
    } else if starts_with(line, vendor_id) {
        let rest = line.skip(vendor_id.len() as int);
        if starts_with(rest, name_separator()) {
            PciScan { vendor: Some(trim(rest)), found: None }
        } else {
            st
        }
    } else if st.vendor is Some {
        let pat = device_prefix(device_id);
        let rest = line.skip(pat.len() as int);
        if starts_with(line, pat) && starts_with(rest, name_separator()) {
            PciScan { vendor: st.vendor, found: Some(st.vendor.unwrap() + seq![' '] + trim(rest)) }
        } else {
            st
        }
    } else {
        st
    }
}

/// The search state after the given lines, in order.
pub open spec fn scan_lines(
    lines: Seq<Seq<char>>,
    vendor_id: Seq<char>,
    device_id: Seq<char>,
) -> PciScan
    decreases lines.len(),
{
    if lines.len() == 0 {
        scan_start()
    } else {
        scan_line(scan_lines(lines.drop_last(), vendor_id, device_id), lines.last(), vendor_id, device_id)
    }
}

/// The name that a lookup of `device_id` under `vendor_id` gives in `data`:
/// the name of the latest vendor line before the first matching device line,
/// a space, and the device's name.
pub open spec fn pci_ids_lookup(data: Seq<char>, vendor_id: Seq<char>, device_id: Seq<char>) -> Option<Seq<char>> {
    scan_lines(lines(data), vendor_id, device_id).found
}

/// Once a device line matched, later lines change nothing.
pub proof fn lemma_scan_found_stable(lines: Seq<Seq<char>>, k: int, vendor_id: Seq<char>, device_id: Seq<char>)
    requires
        0 <= k <= lines.len(),
        scan_lines(lines.take(k), vendor_id, device_id).found is Some,
    ensures
        scan_lines(lines, vendor_id, device_id).found == scan_lines(lines.take(k), vendor_id, device_id).found,
    decreases lines.len(),
{
    if k == lines.len() {
        assert(lines.take(k) =~= lines);
    } else {
        assert(lines.drop_last().take(k) =~= lines.take(k));
        lemma_scan_found_stable(lines.drop_last(), k, vendor_id, device_id);
    }
}

/// A line that opens the entry of `vendor_id`.
pub open spec fn is_vendor_line(line: Seq<char>, vendor_id: Seq<char>) -> bool {
    starts_with(line, vendor_id) && starts_with(line.skip(vendor_id.len() as int), name_separator())
}

/// No white space at either end of `s`.
pub open spec fn no_outer_white_space(s: Seq<char>) -> bool {
    s.len() > 0 ==> !is_white_space(s[0]) && !is_white_space(s.last())
}

/// The two database lines that list a device under its vendor.
pub open spec fn pci_entry(
    vendor_id: Seq<char>,
    vendor_name: Seq<char>,
    device_id: Seq<char>,
    device_name: Seq<char>,
) -> Seq<char> {
    vendor_id + name_separator() + vendor_name + seq!['\n'] + device_prefix(device_id)
        + name_separator() + device_name + seq!['\n']
}

/// Lines without a vendor line leave the search where it started.
proof fn lemma_scan_without_vendor_line(ls: Seq<Seq<char>>, vendor_id: Seq<char>, device_id: Seq<char>)
    requires
        forall|i: int| 0 <= i < ls.len() ==> !is_vendor_line(#[trigger] ls[i], vendor_id),
    ensures
        scan_lines(ls, vendor_id, device_id) == scan_start(),
    decreases ls.len(),
{
    if ls.len() > 0 {
        assert forall|i: int| 0 <= i < ls.drop_last().len() implies !is_vendor_line(
            #[trigger] ls.drop_last()[i],
            vendor_id,
        ) by {
            assert(ls.drop_last()[i] == ls[i]);
        }
        lemma_scan_without_vendor_line(ls.drop_last(), vendor_id, device_id);
        assert(!is_vendor_line(ls[ls.len() - 1], vendor_id));
    }
}

/// After lines that leave the search where it started, the search goes on as from the start.
proof fn lemma_scan_after_start(a: Seq<Seq<char>>, b: Seq<Seq<char>>, vendor_id: Seq<char>, device_id: Seq<char>)
    requires
        scan_lines(a, vendor_id, device_id) == scan_start(),
    ensures
        scan_lines(a + b, vendor_id, device_id) == scan_lines(b, vendor_id, device_id),
    decreases b.len(),
{
    if b.len() == 0 {
        assert(a + b =~= a);
    } else {
        lemma_scan_after_start(a, b.drop_last(), vendor_id, device_id);
        assert((a + b).drop_last() =~= a + b.drop_last());
        assert((a + b).last() == b.last());
    }
}

/// A text that is empty or ends with a line feed has no pending line.
proof fn lemma_ended_text(s: Seq<char>)
    requires
        s.len() == 0 || s.last() == '\n',
    ensures
        line_split(s).1.len() == 0,
{
}

/// Without a vendor line for `vendor_id`, a lookup finds nothing: device
/// lines count only under an entry of the vendor.
pub proof fn lemma_lookup_needs_vendor_line(data: Seq<char>, vendor_id: Seq<char>, device_id: Seq<char>)
    requires
        forall|i: int| 0 <= i < lines(data).len() ==> !is_vendor_line(#[trigger] lines(data)[i], vendor_id),
    ensures
        pci_ids_lookup(data, vendor_id, device_id) is None,
{
    lemma_scan_without_vendor_line(lines(data), vendor_id, device_id);
}

/// Lines before the vendor's first line are ignored: text that holds no
/// vendor line for `vendor_id`, and that ends with a line feed, put in front
/// of a database does not change what a lookup gives.
pub proof fn lemma_lookup_ignores_lines_before_vendor(
    before: Seq<char>,
    data: Seq<char>,
    vendor_id: Seq<char>,
    device_id: Seq<char>,
)
    requires
        before.len() == 0 || before.last() == '\n',
        forall|i: int| 0 <= i < lines(before).len() ==> !is_vendor_line(#[trigger] lines(before)[i], vendor_id),
    ensures
        pci_ids_lookup(before + data, vendor_id, device_id) == pci_ids_lookup(data, vendor_id, device_id),
{
    lemma_ended_text(before);
    lemma_lines_concat(before, data);
    lemma_scan_without_vendor_line(lines(before), vendor_id, device_id);
    lemma_scan_after_start(lines(before), lines(data), vendor_id, device_id);
}

/// The first match decides: text added after a text that has a match, and
/// that ends with a line feed, does not change what a lookup gives.
pub proof fn lemma_lookup_first_match_wins(
    s1: Seq<char>,
    s2: Seq<char>,
    vendor_id: Seq<char>,
    device_id: Seq<char>,
)
    requires
        s1.len() == 0 || s1.last() == '\n',
        pci_ids_lookup(s1, vendor_id, device_id) is Some,
    ensures
        pci_ids_lookup(s1 + s2, vendor_id, device_id) == pci_ids_lookup(s1, vendor_id, device_id),
{
    lemma_ended_text(s1);
    lemma_lines_concat(s1, s2);
    let all = lines(s1 + s2);
    assert(all.take(lines(s1).len() as int) =~= lines(s1));
    lemma_scan_found_stable(all, lines(s1).len() as int, vendor_id, device_id);
}

/// A lookup finds a device that is listed under its vendor: after lines that
/// hold no vendor line for `vendor_id`, the line `"<vendor_id>  <vendor name>"`
/// and then the line `"\t<device_id>  <device name>"` make the lookup give
/// `"<vendor name> <device name>"`, whatever text follows.
pub proof fn lemma_lookup_finds_listed_device(
    before: Seq<char>,
    vendor_id: Seq<char>,
    vendor_name: Seq<char>,
    device_id: Seq<char>,
    device_name: Seq<char>,
    after: Seq<char>,
)
    requires
        before.len() == 0 || before.last() == '\n',
        forall|i: int| 0 <= i < lines(before).len() ==> !is_vendor_line(#[trigger] lines(before)[i], vendor_id),
        vendor_id.len() > 0,
        vendor_id[0] != '\t',
        !vendor_id.contains('\n'),
        !vendor_name.contains('\n'),
        !device_id.contains('\n'),
        !device_name.contains('\n'),
        no_outer_white_space(vendor_name),
        no_outer_white_space(device_name),
    ensures
        pci_ids_lookup(
            before + pci_entry(vendor_id, vendor_name, device_id, device_name) + after,
            vendor_id,
            device_id,
        ) == Some(vendor_name + seq![' '] + device_name),
{
    let sep = name_separator();
    let l1 = vendor_id + sep + vendor_name;
    let l2 = device_prefix(device_id) + sep + device_name;
    let e1 = l1.push('\n');
    let e2 = l2.push('\n');
    let entry = pci_entry(vendor_id, vendor_name, device_id, device_name);
    assert(entry =~= e1 + e2);
    assert(!l1.contains('\n')) by {
        if l1.contains('\n') {
            let k = choose|k: int| 0 <= k < l1.len() && l1[k] == '\n';
            if k < vendor_id.len() {
                assert(vendor_id[k] == '\n');
            } else if k < vendor_id.len() + 2 {
                assert(l1[k] == ' ');
            } else {
                assert(vendor_name[k - vendor_id.len() - 2] == '\n');
            }
        }
    }
    assert(!l2.contains('\n')) by {
        if l2.contains('\n') {
            let k = choose|k: int| 0 <= k < l2.len() && l2[k] == '\n';
            if k == 0 {
                assert(l2[0] == '\t');
            } else if k < device_id.len() + 1 {
                assert(device_id[k - 1] == '\n');
            } else if k < device_id.len() + 3 {
                assert(l2[k] == ' ');
            } else {
                assert(device_name[k - device_id.len() - 3] == '\n');
            }
        }
    }
    lemma_single_line(l1);
    lemma_single_line(l2);
    assert(strip_cr(l1) == l1) by {
        if vendor_name.len() > 0 {
            assert(l1.last() == vendor_name.last());
            assert(is_white_space('\r'));
        } else {
            assert(l1.last() == ' ');
        }
    }
    assert(strip_cr(l2) == l2) by {
        if device_name.len() > 0 {
            assert(l2.last() == device_name.last());
            assert(is_white_space('\r'));
        } else {
            assert(l2.last() == ' ');
        }
    }
    // The lines of the whole text.
    lemma_ended_text(before);
    lemma_ended_text(e1);
    lemma_ended_text(e2);
    lemma_lines_concat(e1, e2);
    lemma_ended_text(e1 + e2);
    lemma_lines_concat(e1 + e2, after);
    lemma_lines_concat(before, e1 + e2 + after);
    let text = before + entry + after;
    assert(text =~= before + (e1 + e2 + after));
    let lb = lines(before);
    let la = lines(after);
    assert(lines(text) =~= lb + (seq![l1, l2] + la));
    // Scanning: the lines before leave the search at its start.
    lemma_scan_without_vendor_line(lb, vendor_id, device_id);
    lemma_scan_after_start(lb, seq![l1, l2] + la, vendor_id, device_id);
    // The vendor line.
    assert(l1.take(vendor_id.len() as int) =~= vendor_id);
    assert(l1.skip(vendor_id.len() as int) =~= sep + vendor_name);
    assert((sep + vendor_name).take(2) =~= sep);
    lemma_trim_after_spaces(vendor_name);
    let st1 = scan_line(scan_start(), l1, vendor_id, device_id);
    assert(st1 == PciScan { vendor: Some(vendor_name), found: None });
    // The device line.
    assert(!starts_with(l2, vendor_id)) by {
        assert(l2[0] == '\t');
        if starts_with(l2, vendor_id) {
            assert(l2.take(vendor_id.len() as int)[0] == vendor_id[0]);
        }
    }
    let pat = device_prefix(device_id);
    assert(l2.take(pat.len() as int) =~= pat);
    assert(l2.skip(pat.len() as int) =~= sep + device_name);
    assert((sep + device_name).take(2) =~= sep);
    lemma_trim_after_spaces(device_name);
    let st2 = scan_line(st1, l2, vendor_id, device_id);
    assert(st2.found == Some(vendor_name + seq![' '] + device_name));
    let ls = seq![l1, l2] + la;
    assert(ls.take(2) =~= seq![l1, l2]);
    assert(seq![l1, l2].drop_last() =~= seq![l1]);
    assert(seq![l1].drop_last() =~= Seq::<Seq<char>>::empty());
    assert(scan_lines(Seq::<Seq<char>>::empty(), vendor_id, device_id) == scan_start());
    assert(seq![l1].last() == l1);
    assert(scan_lines(seq![l1], vendor_id, device_id) == st1);
    assert(seq![l1, l2].last() == l2);
    assert(scan_lines(seq![l1, l2], vendor_id, device_id) == st2);
    assert(scan_lines(ls.take(2), vendor_id, device_id) == st2);
    lemma_scan_found_stable(ls, 2, vendor_id, device_id);
}

/// The text of a range of `data`, if there is one.
pub open spec fn range_text(data: Seq<char>, r: Option<(usize, usize)>) -> Option<Seq<char>> {
    match r {
        Some((a, b)) => Some(data.subrange(a as int, b as int)),
        None => None,
    }
}

/// A range, if there is one, lies within the first `n` positions.
pub open spec fn range_ok(r: Option<(usize, usize)>, n: int) -> bool {
    match r {
        Some((a, b)) => a <= b <= n,
        None => true,
    }
}

/// One line, `data[ls..le]`, applied to a search state that has found nothing yet.
/// Returns the new vendor name's range and, if the line matched, the device name's range.
fn scan_line_exec(
    data: &Vec<char>,
    ls: usize,
    le: usize,
    vendor: &Vec<char>,
    dpat: &Vec<char>,
    sep: &Vec<char>,
    vendor_name: Option<(usize, usize)>,
    Ghost(device_id): Ghost<Seq<char>>,
) -> (r: (Option<(usize, usize)>, Option<(usize, usize)>))
    requires
        ls <= le <= data@.len(),
        dpat@ == device_prefix(device_id),
        sep@ == name_separator(),
        range_ok(vendor_name, data@.len() as int),
    ensures
        range_ok(r.0, data@.len() as int),
        range_ok(r.1, data@.len() as int),
        ({
            let st = PciScan { vendor: range_text(data@, vendor_name), found: None };
            let st2 = scan_line(st, data@.subrange(ls as int, le as int), vendor@, device_id);
            &&& st2.vendor == range_text(data@, r.0)
            &&& match r.1 {
                Some((a, b)) => st.vendor is Some && st2.found == Some(
                    st.vendor.unwrap() + seq![' '] + data@.subrange(a as int, b as int),
                ),
                None => st2.found is None,
            }
        }),
{
    let ghost line = data@.subrange(ls as int, le as int);
    if range_starts_with(data, ls, le, vendor) {
        let rs = ls + vendor.len();
        assert(line.skip(vendor@.len() as int) =~= data@.subrange(rs as int, le as int));
        if range_starts_with(data, rs, le, sep) {
            let t = trim_range(data, rs, le);
            (Some(t), None)
        } else {
            (vendor_name, None)
        }
    } else if vendor_name.is_some() {
        if range_starts_with(data, ls, le, dpat) {
            let rs = ls + dpat.len();
            assert(line.skip(dpat@.len() as int) =~= data@.subrange(rs as int, le as int));
            if range_starts_with(data, rs, le, sep) {
                let t = trim_range(data, rs, le);
                (vendor_name, Some(t))
            } else {
                (vendor_name, None)
            }
        } else {
            (vendor_name, None)
        }
    } else {
        (vendor_name, None)
    }
}

/// Looks up the name of a PCI device in the text of a PCI ID database.
///
/// Returns `"<vendor name> <device name>"`, taken from the latest line
/// `"<vendor_id>  <vendor name>"` before the first line
/// `"\t<device_id>  <device name>"` that follows such a vendor line, or `None`
/// if there is no such device line. Names are trimmed of white space.
pub fn parse_pci_ids(pci_data: &str, vendor_id: &str, device_id: &str) -> (r: Option<String>)
    ensures
        match r {
            Some(s) => pci_ids_lookup(pci_data@, vendor_id@, device_id@) == Some(s@),
            None => pci_ids_lookup(pci_data@, vendor_id@, device_id@) is None,
        },
{
    let data = str_chars(pci_data);
    let vendor = str_chars(vendor_id);
    let device = str_chars(device_id);
    let mut dpat: Vec<char> = Vec::new();
    dpat.push('\t');
    let mut j: usize = 0;
    while j < device.len()
        invariant
            j <= device@.len(),
            dpat@ == seq!['\t'] + device@.take(j as int),
        decreases device@.len() - j,
    {
        assert(device@.take(j + 1) =~= device@.take(j as int).push(device@[j as int]));
        dpat.push(device[j]);
        j = j + 1;
    }
    assert(device@.take(device@.len() as int) =~= device@);
    let mut sep: Vec<char> = Vec::new();
    sep.push(' ');
    sep.push(' ');
    assert(sep@ =~= name_separator());

    let ghost v = vendor_id@;
    let ghost d = device_id@;
    let n = data.len();
    let mut vendor_name: Option<(usize, usize)> = None;
    let mut line_start: usize = 0;
    let mut i: usize = 0;
    let ghost mut done: Seq<Seq<char>> = seq![];
    let mut found: Option<(usize, usize)> = None;
    assert(data@.take(0) =~= seq![]);
    assert(data@.subrange(0, 0) =~= seq![]);
    while i < n
        invariant_except_break
            found is None,
        invariant
            line_start <= i <= n,
            n == data@.len(),
            data@ == pci_data@,
            vendor@ == v,
            dpat@ == device_prefix(d),
            sep@ == name_separator(),
            range_ok(vendor_name, n as int),
            range_ok(found, n as int),
            line_split(data@.take(i as int)) == (done, data@.subrange(line_start as int, i as int)),
            scan_lines(done, v, d).vendor == range_text(data@, vendor_name),
            found is None ==> scan_lines(done, v, d).found is None,
            found matches Some((a, b)) ==> vendor_name is Some && scan_lines(done, v, d).found == Some(
                range_text(data@, vendor_name).unwrap() + seq![' '] + data@.subrange(a as int, b as int),
            ),
        ensures
            line_split(data@.take(i as int)) == (done, data@.subrange(line_start as int, i as int)),
            found is None ==> i == n,
        decreases n - i,
    {
        let ghost prev = data@.take(i as int);
        assert(data@.take(i + 1).drop_last() =~= prev);
        if data[i] == '\n' {
            let ghost cur = data@.subrange(line_start as int, i as int);
            let end = if i > line_start && data[i - 1] == '\r' {
                i - 1
            } else {
                i
            };
            assert(strip_cr(cur) =~= data@.subrange(line_start as int, end as int));
            let (vn, fd) = scan_line_exec(&data, line_start, end, &vendor, &dpat, &sep, vendor_name, Ghost(d));
            proof {
                let old_done = done;
                done = done.push(strip_cr(cur));
                assert(done.drop_last() =~= old_done);
                assert(done.last() == data@.subrange(line_start as int, end as int));
            }
            vendor_name = vn;
            line_start = i + 1;
            i = i + 1;
            assert(data@.subrange(line_start as int, i as int) =~= seq![]);
            if fd.is_some() {
                found = fd;
                break;
            }
        } else {
            assert(data@.subrange(line_start as int, i + 1) =~= data@.subrange(line_start as int, i as int).push(data@[i as int]));
            i = i + 1;
        }
    }
    let ghost all = lines(data@);
    assert(data@.take(n as int) =~= data@);
    match found {
        Some((a, b)) => {
            proof {
                lemma_line_split_prefix(data@, i as int);
                assert(all.take(done.len() as int) == done);
                lemma_scan_found_stable(all, done.len() as int, v, d);
            }
            let (va, vb) = vendor_name.unwrap();
            let mut name = String::from_str(pci_data.substring_char(va, vb));
            proof {
                reveal_strlit(" ");
            }
            name.append(" ");
            name.append(pci_data.substring_char(a, b));
            Some(name)
        }
        None => {
            if line_start < n {
                let (vn, fd) = scan_line_exec(&data, line_start, n, &vendor, &dpat, &sep, vendor_name, Ghost(d));
                assert(all =~= done.push(data@.subrange(line_start as int, n as int)));
                assert(all.drop_last() =~= done);
                match fd {
                    Some((a, b)) => {
                        let (va, vb) = vendor_name.unwrap();
                        let mut name = String::from_str(pci_data.substring_char(va, vb));
                        proof {
                            reveal_strlit(" ");
                        }
                        name.append(" ");
                        name.append(pci_data.substring_char(a, b));
                        Some(name)
                    }
                    None => None,
                }
            } else {
                assert(data@.subrange(line_start as int, n as int).len() == 0);
                None
            }
        }
    }
}

} // verus!
