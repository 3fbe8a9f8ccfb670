//! What the GPU enumeration computes from the text of the kernel's sysfs
//! files and of the PCI ID database: the file paths, the ids written in the
//! files, the vendor number and the device's name.

use vstd::prelude::*;
use vstd::string::*;
use crate::pci_ids::{parse_pci_ids, pci_ids_lookup};
use crate::text::{decimal, push_decimal, str_chars};

verus! {

/// `s` with every leading `"0x"` removed (what `trim_start_matches("0x")` gives).
pub open spec fn strip_hex_prefixes(s: Seq<char>) -> Seq<char>
    decreases s.len(),
{
    if s.len() >= 2 && s[0] == '0' && s[1] == 'x' {
        strip_hex_prefixes(s.skip(2))
    } else {
        s
    }
}

/// `s` with every trailing line feed removed (what `trim_end_matches('\n')` gives).
pub open spec fn strip_line_feeds(s: Seq<char>) -> Seq<char>
    decreases s.len(),
{
    if s.len() > 0 && s.last() == '\n' {
        strip_line_feeds(s.drop_last())
    } else {
        s
    }
}

/// The id held by a sysfs id file such as `device/vendor` (`"0x10de\n"` holds `"10de"`).
pub open spec fn sysfs_id(contents: Seq<char>) -> Seq<char> {
    strip_line_feeds(strip_hex_prefixes(contents))
}

/// The id written in the text of a sysfs id file: the text without its
/// leading `"0x"`s and its trailing line feeds.
pub fn sysfs_id_of(contents: &str) -> (r: &str)
    ensures
        r@ == sysfs_id(contents@),
{
    let chars = str_chars(contents);
    let n = chars.len();
    let mut a: usize = 0;
    assert(chars@.skip(0) =~= chars@);
    while n - a >= 2 && chars[a] == '0' && chars[a + 1] == 'x'
        invariant
            a <= n,
            n == chars@.len(),
            chars@ == contents@,
            strip_hex_prefixes(chars@.skip(a as int)) == strip_hex_prefixes(chars@),
        decreases n - a,
    {
        assert(chars@.skip(a as int).skip(2) =~= chars@.skip(a + 2));
        a = a + 2;
    }
    assert(strip_hex_prefixes(chars@.skip(a as int)) == chars@.skip(a as int));
    let mut b: usize = n;
    while b > a && chars[b - 1] == '\n'
        invariant
            a <= b <= n,
            n == chars@.len(),
            strip_line_feeds(chars@.subrange(a as int, b as int)) == strip_line_feeds(
                chars@.skip(a as int),
            ),
        decreases b - a,
    {
        assert(chars@.subrange(a as int, b as int).drop_last() =~= chars@.subrange(
            a as int,
            b - 1,
        ));
        b = b - 1;
    }
    assert(chars@.skip(a as int) =~= chars@.subrange(a as int, n as int));
    contents.substring_char(a, b)
}

/// Reading back an id file: the text `"0x<id>\n"` holds `<id>`, for an id that
/// neither begins with `"0x"` nor ends with a line feed.
pub proof fn lemma_sysfs_id_read_back(id: Seq<char>)
    requires
        !(id.len() >= 2 && id[0] == '0' && id[1] == 'x'),
        !(id.len() > 0 && id.last() == '\n'),
    ensures
        sysfs_id(seq!['0', 'x'] + id + seq!['\n']) == id,
{
    let s = seq!['0', 'x'] + id + seq!['\n'];
    assert(s.skip(2) =~= id + seq!['\n']);
    let t = id + seq!['\n'];
    if id.len() >= 2 {
        assert(t[0] == id[0] && t[1] == id[1]);
    } else if id.len() == 1 {
        assert(t[1] == '\n');
    }
    assert(strip_hex_prefixes(t) == t);
    assert(t.drop_last() =~= id);
    assert(strip_line_feeds(id) == id);
}

/// Why a text is not a hexadecimal `u32`: the kinds of error that
/// `u32::from_str_radix` reports.
#[derive(Debug, Clone, Copy, PartialEq, Eq)]
pub enum HexParseError {
    /// The text is empty.
    Empty,
    /// A character is not a hexadecimal digit (or a sign stands alone).
    InvalidDigit,
    /// The number does not fit in a `u32`.
    PosOverflow,
}

impl HexParseError {
    /// The error's message (the text that `ParseIntError` shows for the same kind).
    pub fn message(&self) -> (r: &'static str)
        ensures
            r@ == match *self {
                HexParseError::Empty => "cannot parse integer from empty string"@,
                HexParseError::InvalidDigit => "invalid digit found in string"@,
                HexParseError::PosOverflow => "number too large to fit in target type"@,
            },
    {
        match self {
            HexParseError::Empty => "cannot parse integer from empty string",
            HexParseError::InvalidDigit => "invalid digit found in string",
            HexParseError::PosOverflow => "number too large to fit in target type",
        }
    }
}

/// The value of a hexadecimal digit (either case).
pub open spec fn hex_digit_value(c: char) -> Option<nat> {
    if '0' <= c && c <= '9' {
        Some((c as nat - '0' as nat) as nat)
    } else if 'a' <= c && c <= 'f' {
        Some((c as nat - 'a' as nat + 10) as nat)
    } else if 'A' <= c && c <= 'F' {
        Some((c as nat - 'A' as nat + 10) as nat)
    } else {
        None
    }
}

/// Reading the digits from the left: the value so far, or the first error met.
pub open spec fn hex_digits_value(ds: Seq<char>) -> Result<nat, HexParseError>
    decreases ds.len(),
{
    if ds.len() == 0 {
        Ok(0)
    } else {
        match hex_digits_value(ds.drop_last()) {
            Err(e) => Err(e),
            Ok(acc) => match hex_digit_value(ds.last()) {
                None => Err(HexParseError::InvalidDigit),
                Some(v) => if acc * 16 + v > u32::MAX {
                    Err(HexParseError::PosOverflow)
                } else {
                    Ok(acc * 16 + v)
                },
            },
        }
    }
}

/// What `u32::from_str_radix(s, 16)` gives: an optional `+`, then hexadecimal digits.
pub open spec fn parse_hex_u32_spec(s: Seq<char>) -> Result<nat, HexParseError> {
    if s.len() == 0 {
        Err(HexParseError::Empty)
    } else if (s[0] == '+' || s[0] == '-') && s.len() == 1 {
        Err(HexParseError::InvalidDigit)
    } else if s[0] == '+' {
        hex_digits_value(s.drop_first())
    } else {
        hex_digits_value(s)
    }
}

/// The hexadecimal digit `d` (for `d < 16`), in lower or upper case.
pub open spec fn hex_digit_of(d: nat, upper: bool) -> char {
    if upper {
        seq!['0', '1', '2', '3', '4', '5', '6', '7', '8', '9', 'A', 'B', 'C', 'D', 'E', 'F'][d as int]
    } else {
        seq!['0', '1', '2', '3', '4', '5', '6', '7', '8', '9', 'a', 'b', 'c', 'd', 'e', 'f'][d as int]
    }
}

/// The hexadecimal notation of `n`, without leading zeros, in lower or upper case.
pub open spec fn hex_notation(n: nat, upper: bool) -> Seq<char>
    decreases n,
{
    if n < 16 {
        seq![hex_digit_of(n, upper)]
    } else {
        hex_notation(n / 16, upper).push(hex_digit_of(n % 16, upper))
    }
}

/// Each hexadecimal digit, in either case, has its value: `'0'..'9'` are
/// 0 to 9, `'a'..'f'` and `'A'..'F'` are 10 to 15.
pub proof fn lemma_hex_digit_values(d: nat, upper: bool)
    requires
        d < 16,
    ensures
        hex_digit_value(hex_digit_of(d, upper)) == Some(d),
{
    if upper {
        if d == 0 { assert(hex_digit_of(d, upper) == '0'); }
        else if d == 1 { assert(hex_digit_of(d, upper) == '1'); }
        else if d == 2 { assert(hex_digit_of(d, upper) == '2'); }
        else if d == 3 { assert(hex_digit_of(d, upper) == '3'); }
        else if d == 4 { assert(hex_digit_of(d, upper) == '4'); }
        else if d == 5 { assert(hex_digit_of(d, upper) == '5'); }
        else if d == 6 { assert(hex_digit_of(d, upper) == '6'); }
        else if d == 7 { assert(hex_digit_of(d, upper) == '7'); }
        else if d == 8 { assert(hex_digit_of(d, upper) == '8'); }
        else if d == 9 { assert(hex_digit_of(d, upper) == '9'); }
        else if d == 10 { assert(hex_digit_of(d, upper) == 'A'); }
        else if d == 11 { assert(hex_digit_of(d, upper) == 'B'); }
        else if d == 12 { assert(hex_digit_of(d, upper) == 'C'); }
        else if d == 13 { assert(hex_digit_of(d, upper) == 'D'); }
        else if d == 14 { assert(hex_digit_of(d, upper) == 'E'); }
        else { assert(hex_digit_of(d, upper) == 'F'); }
    } else {
        if d == 0 { assert(hex_digit_of(d, upper) == '0'); }
        else if d == 1 { assert(hex_digit_of(d, upper) == '1'); }
        else if d == 2 { assert(hex_digit_of(d, upper) == '2'); }
        else if d == 3 { assert(hex_digit_of(d, upper) == '3'); }
        else if d == 4 { assert(hex_digit_of(d, upper) == '4'); }
        else if d == 5 { assert(hex_digit_of(d, upper) == '5'); }
        else if d == 6 { assert(hex_digit_of(d, upper) == '6'); }
        else if d == 7 { assert(hex_digit_of(d, upper) == '7'); }
        else if d == 8 { assert(hex_digit_of(d, upper) == '8'); }
        else if d == 9 { assert(hex_digit_of(d, upper) == '9'); }
        else if d == 10 { assert(hex_digit_of(d, upper) == 'a'); }
        else if d == 11 { assert(hex_digit_of(d, upper) == 'b'); }
        else if d == 12 { assert(hex_digit_of(d, upper) == 'c'); }
        else if d == 13 { assert(hex_digit_of(d, upper) == 'd'); }
        else if d == 14 { assert(hex_digit_of(d, upper) == 'e'); }
        else { assert(hex_digit_of(d, upper) == 'f'); }
    }
}

proof fn lemma_hex_notation_digits(n: nat, upper: bool)
    requires
        n <= u32::MAX,
    ensures
        hex_notation(n, upper).len() > 0,
        hex_digit_value(hex_notation(n, upper)[0]) is Some,
        hex_digits_value(hex_notation(n, upper)) == Ok::<nat, HexParseError>(n),
    decreases n,
{
    let s = hex_notation(n, upper);
    lemma_hex_digit_values(n % 16, upper);
    if n < 16 {
        assert(s.drop_last() =~= Seq::<char>::empty());
        assert(n % 16 == n);
        assert(s.last() == hex_digit_of(n, upper));
        assert(hex_digits_value(Seq::<char>::empty()) == Ok::<nat, HexParseError>(0));
        assert(hex_digits_value(s) == Ok::<nat, HexParseError>(n));
    } else {
        lemma_hex_notation_digits(n / 16, upper);
        let t = hex_notation(n / 16, upper);
        assert(s.drop_last() =~= t);
        assert(s.last() == hex_digit_of(n % 16, upper));
        assert(s[0] == t[0]);
        assert((n / 16) * 16 + n % 16 == n);
        assert(hex_digits_value(s) == Ok::<nat, HexParseError>(n));
    }
}

/// Hexadecimal parsing reads back the notation of every `u32`, in lower
/// or upper case.
pub proof fn lemma_parse_hex_round_trip(n: u32, upper: bool)
    ensures
        parse_hex_u32_spec(hex_notation(n as nat, upper)) == Ok::<nat, HexParseError>(n as nat),
{
    lemma_hex_notation_digits(n as nat, upper);
    let s = hex_notation(n as nat, upper);
    assert(hex_digit_value('+') is None);
    assert(hex_digit_value('-') is None);
    assert(s[0] != '+' && s[0] != '-');
}

/// The vendor number of a sysfs `vendor` file that holds `"0x<hex>\n"` is
/// the number written there (such as `"0x1af4\n"` for 0x1af4).
pub proof fn lemma_vendor_file_round_trip(n: u32)
    ensures
        parse_hex_u32_spec(sysfs_id(seq!['0', 'x'] + hex_notation(n as nat, false) + seq!['\n']))
            == Ok::<nat, HexParseError>(n as nat),
{
    let h = hex_notation(n as nat, false);
    lemma_hex_notation_digits(n as nat, false);
    if h.len() >= 2 {
        assert(hex_digit_value(h[1]) is Some) by {
            lemma_hex_second_digit(n as nat, false);
        }
        assert(h[1] != 'x');
    }
    assert(h.last() != '\n') by {
        lemma_hex_last_digit(n as nat, false);
    }
    lemma_sysfs_id_read_back(h);
    lemma_parse_hex_round_trip(n, false);
}

proof fn lemma_hex_last_digit(n: nat, upper: bool)
    ensures
        hex_notation(n, upper).len() > 0,
        hex_digit_value(hex_notation(n, upper).last()) is Some,
    decreases n,
{
    lemma_hex_digit_values(n % 16, upper);
    if n < 16 {
        assert(n % 16 == n);
    } else {
        lemma_hex_last_digit(n / 16, upper);
    }
}

proof fn lemma_hex_second_digit(n: nat, upper: bool)
    requires
        hex_notation(n, upper).len() >= 2,
    ensures
        hex_digit_value(hex_notation(n, upper)[1]) is Some,
    decreases n,
{
    lemma_hex_digit_values(n % 16, upper);
    if n >= 16 {
        let t = hex_notation(n / 16, upper);
        if t.len() >= 2 {
            lemma_hex_second_digit(n / 16, upper);
            assert(hex_notation(n, upper)[1] == t[1]);
        } else {
            lemma_hex_last_digit(n / 16, upper);
            assert(hex_notation(n, upper)[1] == hex_digit_of(n % 16, upper));
        }
    }
}

fn hex_digit(c: char) -> (r: Option<u32>)
    ensures
        match r {
            Some(v) => hex_digit_value(c) == Some(v as nat) && v < 16,
            None => hex_digit_value(c) is None,
        },
{
    if '0' <= c && c <= '9' {
        Some((c as u32) - ('0' as u32))
    } else if 'a' <= c && c <= 'f' {
        Some((c as u32) - ('a' as u32) + 10)
    } else if 'A' <= c && c <= 'F' {
        Some((c as u32) - ('A' as u32) + 10)
    } else {
        None
    }
}

/// Parses a hexadecimal `u32` as `u32::from_str_radix(s, 16)` does: an
/// optional `+` and then one or more digits `0-9`, `a-f`, `A-F`.
pub fn parse_hex_u32(s: &str) -> (r: Result<u32, HexParseError>)
    ensures
        match r {
            Ok(v) => parse_hex_u32_spec(s@) == Ok::<nat, HexParseError>(v as nat),
            Err(e) => parse_hex_u32_spec(s@) == Err::<nat, HexParseError>(e),
        },
{
    let chars = str_chars(s);
    let n = chars.len();
    if n == 0 {
        return Err(HexParseError::Empty);
    }
    if (chars[0] == '+' || chars[0] == '-') && n == 1 {
        return Err(HexParseError::InvalidDigit);
    }
    let start: usize = if chars[0] == '+' {
        1
    } else {
        0
    };
    let ghost ds = chars@.skip(start as int);
    assert(start == 1 ==> ds =~= chars@.drop_first());
    assert(start == 0 ==> ds =~= chars@);
    assert(parse_hex_u32_spec(s@) == hex_digits_value(ds));
    let mut acc: u32 = 0;
    let mut i: usize = start;
    assert(ds.take(0) =~= Seq::<char>::empty());
    while i < n
        invariant
            start <= i <= n,
            n == chars@.len(),
            ds == chars@.skip(start as int),
            parse_hex_u32_spec(s@) == hex_digits_value(ds),
            hex_digits_value(ds.take(i - start)) == Ok::<nat, HexParseError>(acc as nat),
        decreases n - i,
    {
        assert(ds.take(i - start + 1).drop_last() =~= ds.take(i - start));
        assert(ds.take(i - start + 1).last() == chars@[i as int]);
        match hex_digit(chars[i]) {
            None => {
                assert(hex_digits_value(ds.take(i - start + 1)) == Err::<nat, HexParseError>(
                    HexParseError::InvalidDigit,
                ));
                proof {
                    lemma_hex_error_stays(ds, i - start + 1);
                }
                return Err(HexParseError::InvalidDigit);
            },
            Some(v) => {
                let t: u64 = (acc as u64) * 16 + (v as u64);
                if t > 0xFFFF_FFFF {
                    assert(hex_digits_value(ds.take(i - start + 1)) == Err::<nat, HexParseError>(
                        HexParseError::PosOverflow,
                    ));
                    proof {
                        lemma_hex_error_stays(ds, i - start + 1);
                    }
                    return Err(HexParseError::PosOverflow);
                }
                acc = t as u32;
            },
        }
        i = i + 1;
    }
    assert(ds.take(n - start) =~= ds);
    Ok(acc)
}

/// An error in the first digits is the error of the whole text.
proof fn lemma_hex_error_stays(ds: Seq<char>, k: int)
    requires
        0 <= k <= ds.len(),
        hex_digits_value(ds.take(k)) is Err,
    ensures
        hex_digits_value(ds) == hex_digits_value(ds.take(k)),
    decreases ds.len(),
{
    if k == ds.len() {
        assert(ds.take(k) =~= ds);
    } else {
        assert(ds.drop_last().take(k) =~= ds.take(k));
        lemma_hex_error_stays(ds.drop_last(), k);
    }
}

/// The sysfs directory path of a DRM card, for a file in its `device` directory.
pub open spec fn drm_card_device_path(minor: u32, file: Seq<char>) -> Seq<char> {
    "/sys/class/drm/card"@ + decimal(minor as nat) + "/device/"@ + file
}

fn card_device_path(minor: u32, file: &str) -> (r: String)
    ensures
        r@ == drm_card_device_path(minor, file@),
{
    let mut p = String::from_str("/sys/class/drm/card");
    push_decimal(&mut p, minor as u64);
    p.append("/device/");
    p.append(file);
    p
}

/// The path of the file that holds the PCI vendor id of the DRM card with the given minor number.
pub fn sysfs_vendor_path(minor: u32) -> (r: String)
    ensures
        r@ == drm_card_device_path(minor, "vendor"@),
{
    card_device_path(minor, "vendor")
}

/// The path of the file that holds the PCI device id of the DRM card with the given minor number.
pub fn sysfs_device_path(minor: u32) -> (r: String)
    ensures
        r@ == drm_card_device_path(minor, "device"@),
{
    card_device_path(minor, "device")
}

/// The PCI vendor number written in the text of a sysfs `vendor` file
/// (such as `"0x10de\n"`).
pub fn gpu_vendor_id(vendor_file: &str) -> (r: Result<u32, HexParseError>)
    ensures
        match r {
            Ok(v) => parse_hex_u32_spec(sysfs_id(vendor_file@)) == Ok::<nat, HexParseError>(v as nat),
            Err(e) => parse_hex_u32_spec(sysfs_id(vendor_file@)) == Err::<nat, HexParseError>(e),
        },
{
    parse_hex_u32(sysfs_id_of(vendor_file))
}

/// The name of a GPU: its entry in the PCI ID database under the ids of the
/// sysfs `vendor` and `device` files, or the empty text when there is none.
pub fn gpu_device_name(pci_ids: &str, vendor_file: &str, device_file: &str) -> (r: String)
    ensures
        r@ == match pci_ids_lookup(pci_ids@, sysfs_id(vendor_file@), sysfs_id(device_file@)) {
            Some(name) => name,
            None => Seq::<char>::empty(),
        },
{
    match parse_pci_ids(pci_ids, sysfs_id_of(vendor_file), sysfs_id_of(device_file)) {
        Some(name) => name,
        None => String::new(),
    }
}

} // verus!
