use vstd::prelude::*;
use vstd::string::StringExecFns;
use vstd::utf8::encode_utf8;

verus! {

/// A character with the Unicode White_Space property, which is what
/// `char::is_whitespace` tests.
pub open spec fn is_white_space(c: char) -> bool {
    let u = c as u32;
    ||| 0x09 <= u <= 0x0D
    ||| u == 0x20
    ||| u == 0x85
    ||| u == 0xA0
    ||| u == 0x1680
    ||| 0x2000 <= u <= 0x200A
    ||| u == 0x2028
    ||| u == 0x2029
    ||| u == 0x202F
    ||| u == 0x205F
    ||| u == 0x3000
}

/// The string with its leading white space removed.
pub open spec fn trim_start(s: Seq<char>) -> Seq<char>
    decreases s.len(),
{
    if s.len() > 0 && is_white_space(s[0]) {
        trim_start(s.drop_first())
    } else {
        s
    }
}

/// The string with its trailing white space removed.
pub open spec fn trim_end(s: Seq<char>) -> Seq<char>
    decreases s.len(),
{
    if s.len() > 0 && is_white_space(s.last()) {
        trim_end(s.drop_last())
    } else {
        s
    }
}

/// What `str::trim` leaves of a string: leading and trailing white space
/// removed.
pub open spec fn trimmed(s: Seq<char>) -> Seq<char> {
    trim_end(trim_start(s))
}

/// `str::trim`. Claimed: it removes the leading and trailing characters that
/// have the White_Space property (`char::is_whitespace`), and nothing else.
#[verifier::external_body]
fn trim_whitespace(s: &str) -> (t: &str)
    ensures
        t@ == trimmed(s@),
{
    s.trim()
}

pub open spec fn is_ascii_digit(b: u8) -> bool {
    48 <= b <= 57
}

pub open spec fn all_ascii_digits(d: Seq<u8>) -> bool {
    forall|i: int| 0 <= i < d.len() ==> is_ascii_digit(#[trigger] d[i])
}

/// The number that a string of ASCII decimal digits spells.
pub open spec fn decimal_value(d: Seq<u8>) -> int
    decreases d.len(),
{
    if d.len() == 0 {
        0
    } else {
        decimal_value(d.drop_last()) * 10 + (d.last() - 48)
    }
}

/// The bytes after an optional leading `+`.
pub open spec fn digits_part(b: Seq<u8>) -> Seq<u8> {
    if b.len() > 0 && b[0] == 43 {
        b.drop_first()
    } else {
        b
    }
}

/// `u8::from_str` on these bytes: an optional leading `+`, then one or more
/// ASCII digits whose value is at most 255.
pub open spec fn parse_u8(b: Seq<u8>) -> Option<u8> {
    let d = digits_part(b);
    if d.len() > 0 && all_ascii_digits(d) && decimal_value(d) <= 255 {
        Some(decimal_value(d) as u8)
    } else {
        None
    }
}

proof fn lemma_decimal_nonneg(d: Seq<u8>)
    requires
        all_ascii_digits(d),
    ensures
        decimal_value(d) >= 0,
    decreases d.len(),
{
    if d.len() > 0 {
        lemma_decimal_nonneg(d.drop_last());
        assert(is_ascii_digit(d[d.len() - 1]));
    }
}

proof fn lemma_decimal_prefix(d: Seq<u8>, k: int, m: int)
    requires
        0 <= k <= m <= d.len(),
        all_ascii_digits(d),
    ensures
        0 <= decimal_value(d.take(k)) <= decimal_value(d.take(m)),
    decreases m,
{
    if k < m {
        lemma_decimal_prefix(d, k, m - 1);
        assert(d.take(m).drop_last() == d.take(m - 1));
        assert(is_ascii_digit(d[m - 1]));
    } else {
        assert(all_ascii_digits(d.take(k)));
        lemma_decimal_nonneg(d.take(k));
    }
}

/// Decimal `u8` the way `u8::from_str` reads it from bytes.
pub fn parse_u8_bytes(b: &[u8]) -> (n: Option<u8>)
    ensures
        n == parse_u8(b@),
{
    let len = b.len();
    if len == 0 {
        return None;
    }
    let start: usize = if b[0] == 43 { 1 } else { 0 };
    let ghost d = digits_part(b@);
    assert(d == b@.skip(start as int));
    if start == len {
        return None;
    }
    let mut acc: u32 = 0;
    let mut i: usize = start;
    while i < len
        invariant
            start <= i <= len,
            len == b@.len(),
            d == b@.skip(start as int),
            d == digits_part(b@),
            all_ascii_digits(d.take(i - start)),
            acc == decimal_value(d.take(i - start)),
            acc <= 255,
        decreases len - i,
    {
        let c = b[i];
        assert(d[i - start] == c);
        if c < 48 || c > 57 {
            assert(!is_ascii_digit(d[i - start]));
            assert(!all_ascii_digits(d));
            return None;
        }
        let ghost k = i - start;
        assert(d.take(k + 1).drop_last() == d.take(k));
        assert(all_ascii_digits(d.take(k + 1)));
        assert(d.take(k + 1).last() == c);
        assert(decimal_value(d.take(k + 1)) == acc * 10 + (c - 48));
        acc = acc * 10 + (c - 48) as u32;
        if acc > 255 {
            proof {
                if all_ascii_digits(d) {
                    assert(d.take(d.len() as int) == d);
                    assert forall|j: int| 0 <= j < k + 1 implies is_ascii_digit(#[trigger] d[j]) by {
                        assert(d.take(k + 1)[j] == d[j]);
                    }
                    lemma_decimal_prefix(d, k + 1, d.len() as int);
                }
            }
            return None;
        }
        i = i + 1;
    }
    assert(d.take(d.len() as int) == d);
    Some(acc as u8)
}

/// A sysfs attribute read as a number: whitespace trimmed, then `u8::from_str`.
pub open spec fn sysfs_number(text: Seq<char>) -> Option<u8> {
    parse_u8(encode_utf8(trimmed(text)))
}

pub fn parse_sysfs_u8(text: &str) -> (n: Option<u8>)
    ensures
        n == sysfs_number(text@),
{
    let t = trim_whitespace(text);
    parse_u8_bytes(t.as_bytes())
}

/// The three sysfs attributes of a USB device directory that the serial
/// lookup reads; `None` where the file could not be read.
pub struct SysfsDevice {
    pub busnum: Option<String>,
    pub devnum: Option<String>,
    pub serial: Option<String>,
}

/// Is this the device at `bus`/`address`?
pub open spec fn sysfs_matches(e: SysfsDevice, bus: u8, address: u8) -> bool {
    &&& e.busnum matches Some(b) && sysfs_number(b@) == Some(bus)
    &&& e.devnum matches Some(d) && sysfs_number(d@) == Some(address)
}

/// The serial the kernel cached for the device at `bus`/`address`: the
/// first matching directory decides, unless its serial is blank, in which
/// case the search goes on; a matching directory without a serial file
/// ends it with nothing.
pub open spec fn cached_serial(es: Seq<SysfsDevice>, bus: u8, address: u8) -> Option<Seq<char>>
    decreases es.len(),
{
    if es.len() == 0 {
        None
    } else if !sysfs_matches(es[0], bus, address) {
        cached_serial(es.drop_first(), bus, address)
    } else {
        match es[0].serial {
            None => None,
            Some(s) => if trimmed(s@).len() > 0 {
                Some(trimmed(s@))
            } else {
                cached_serial(es.drop_first(), bus, address)
            },
        }
    }
}

/// Find the serial the kernel cached at enumeration, matching on bus and
/// device number. Preferred over a live read: it cannot stall.
pub fn sysfs_serial(entries: &Vec<SysfsDevice>, bus: u8, address: u8) -> (serial: Option<String>)
    ensures
        serial matches Some(s) ==> cached_serial(entries@, bus, address) == Some(s@),
        serial is None ==> cached_serial(entries@, bus, address) is None,
{
    let n = entries.len();
    let mut i: usize = 0;
    assert(entries@.skip(0) == entries@);
    while i < n
        invariant
            n == entries@.len(),
            i <= n,
            cached_serial(entries@, bus, address) == cached_serial(entries@.skip(i as int), bus, address),
        decreases n - i,
    {
        let e = &entries[i];
        assert(entries@.skip(i as int).drop_first() == entries@.skip(i as int + 1));
        assert(entries@.skip(i as int)[0] == entries@[i as int]);
        let matched = match (&e.busnum, &e.devnum) {
            (Some(b), Some(d)) => parse_sysfs_u8(b.as_str()) == Some(bus) && parse_sysfs_u8(d.as_str()) == Some(address),
            _ => false,
        };
        if matched {
            match &e.serial {
                None => {
                    return None;
                },
                Some(s) => {
                    let t = trim_whitespace(s.as_str());
                    if !t.is_empty() {
                        return Some(t.to_owned());
                    }
                },
            }
        }
        i = i + 1;
    }
    None
}

/// The decimal digits of a number.
pub open spec fn decimal_chars(n: nat) -> Seq<char>
    decreases n,
{
    if n < 10 {
        seq![(n + 48) as char]
    } else {
        decimal_chars(n / 10) + seq![((n % 10) + 48) as char]
    }
}

fn digit_str(d: u8) -> (s: &'static str)
    requires
        d < 10,
    ensures
        s@ == seq![(d + 48) as char],
{
    proof {
        reveal_strlit("0");
        reveal_strlit("1");
        reveal_strlit("2");
        reveal_strlit("3");
        reveal_strlit("4");
        reveal_strlit("5");
        reveal_strlit("6");
        reveal_strlit("7");
        reveal_strlit("8");
        reveal_strlit("9");
    }
    match d {
        0 => "0",
        1 => "1",
        2 => "2",
        3 => "3",
        4 => "4",
        5 => "5",
        6 => "6",
        7 => "7",
        8 => "8",
        _ => "9",
    }
}

/// Append the decimal digits of `n`.
fn push_decimal(out: &mut String, n: u8)
    ensures
        final(out)@ == old(out)@ + decimal_chars(n as nat),
{
    reveal_with_fuel(decimal_chars, 3);
    if n >= 100 {
        out.append(digit_str(n / 100));
        out.append(digit_str((n / 10) % 10));
        out.append(digit_str(n % 10));
        assert(decimal_chars(n as nat) =~= seq![((n / 100) + 48) as char] + seq![(((n / 10) % 10) + 48) as char] + seq![((n % 10) + 48) as char]);
    } else if n >= 10 {
        out.append(digit_str(n / 10));
        out.append(digit_str(n % 10));
    } else {
        out.append(digit_str(n));
    }
}

/// The positional identity of a device whose serial cannot be read.
pub fn positional_serial(bus: u8, address: u8) -> (id: String)
    ensures
        id@ == "bus"@ + decimal_chars(bus as nat) + "-addr"@ + decimal_chars(address as nat),
{
    let mut id = String::from_str("bus");
    push_decimal(&mut id, bus);
    id.append("-addr");
    push_decimal(&mut id, address);
    id
}

/// The identity a device is opened under: the serial the kernel cached,
/// else the serial read live from the device (attempted only when the
/// kernel had none), else its position on the bus.
pub fn device_identity(cached: Option<String>, live: Option<String>, bus: u8, address: u8) -> (id: String)
    ensures
        cached matches Some(c) ==> id@ == c@,
        cached is None ==> (live matches Some(l) ==> id@ == l@),
        cached is None && live is None ==> id@ == "bus"@ + decimal_chars(bus as nat) + "-addr"@
            + decimal_chars(address as nat),
{
    match cached {
        Some(c) => c,
        None => match live {
            Some(l) => l,
            None => positional_serial(bus, address),
        },
    }
}

/// The bytes of an ASCII character sequence.
pub open spec fn ascii_bytes(cs: Seq<char>) -> Seq<u8> {
    cs.map_values(|c: char| c as u8)
}

/// The decimal form of a number is a non-empty string of ASCII digits, with
/// no leading zero unless it is zero, that spells the number.
pub proof fn law_decimal_chars(n: nat)
    ensures
        decimal_chars(n).len() > 0,
        all_ascii_digits(ascii_bytes(decimal_chars(n))),
        decimal_value(ascii_bytes(decimal_chars(n))) == n,
        ascii_bytes(decimal_chars(n)).len() > 1 ==> ascii_bytes(decimal_chars(n))[0] != 48,
    decreases n,
{
    let b = ascii_bytes(decimal_chars(n));
    if n < 10 {
        assert(b[0] == (n + 48) as u8);
        assert(b.len() == 1);
        assert(b.last() == b[0]);
        assert(b.drop_last() =~= Seq::<u8>::empty());
        assert(decimal_value(Seq::<u8>::empty()) == 0);
        assert(decimal_value(b) == decimal_value(b.drop_last()) * 10 + (b.last() - 48));
    } else {
        let q = n / 10;
        let d = n % 10;
        vstd::arithmetic::div_mod::lemma_fundamental_div_mod(n as int, 10);
        law_decimal_chars(q);
        let bq = ascii_bytes(decimal_chars(q));
        assert(b.drop_last() =~= bq);
        assert(b.last() == (d + 48) as u8);
        assert(d < 10);
        assert(b.last() == d + 48);
        assert forall|i: int| 0 <= i < b.len() implies is_ascii_digit(#[trigger] b[i]) by {
            if i < bq.len() {
                assert(b[i] == bq[i]);
            }
        }
        assert(b[0] == bq[0]);
        assert(b.len() == bq.len() + 1);
        assert(decimal_value(b) == decimal_value(bq) * 10 + (b.last() - 48));
        assert(n == q * 10 + d);
        if q < 10 {
            assert(bq[0] == (q + 48) as u8);
        } else {
            law_decimal_chars(q / 10);
            assert(decimal_chars(q).len() == decimal_chars(q / 10).len() + 1);
        }
    }
}

/// Reading back the decimal form of a byte gives the byte: `parse_u8`
/// accepts what `decimal_chars` writes.
pub proof fn law_parse_reads_decimal(v: u8)
    ensures
        parse_u8(ascii_bytes(decimal_chars(v as nat))) == Some(v),
{
    law_decimal_chars(v as nat);
    let b = ascii_bytes(decimal_chars(v as nat));
    assert(is_ascii_digit(b[0]));
    assert(digits_part(b) == b);
}

/// Where the kernel's cache yields a serial, it is the trimmed, non-empty
/// serial of a directory that matches the bus and address, and every
/// matching directory before it has a serial that trims to nothing. When no
/// directory matches, there is none.
#[verifier::spinoff_prover]
#[verifier::rlimit(40)]
pub proof fn law_cached_serial(es: Seq<SysfsDevice>, bus: u8, address: u8)
    ensures
        cached_serial(es, bus, address) matches Some(x) ==> x.len() > 0 && exists|i: int| {
            &&& 0 <= i < es.len()
            &&& sysfs_matches(es[i], bus, address)
            &&& es[i].serial matches Some(sr) && trimmed(sr@) == x
            &&& forall|j: int| 0 <= j < i && sysfs_matches(#[trigger] es[j], bus, address)
                ==> (es[j].serial matches Some(sj) && trimmed(sj@).len() == 0)
        },
        (forall|i: int| 0 <= i < es.len() ==> !sysfs_matches(#[trigger] es[i], bus, address))
            ==> cached_serial(es, bus, address) is None,
    decreases es.len(),
{
    if es.len() > 0 {
        let rest = es.drop_first();
        law_cached_serial(rest, bus, address);
        assert forall|i: int| 0 <= i < rest.len() implies #[trigger] rest[i] == es[i + 1] by {}
        let skip_first = !sysfs_matches(es[0], bus, address) || (es[0].serial matches Some(s0)
            && trimmed(s0@).len() == 0);
        if cached_serial(es, bus, address) is Some && skip_first {
            let x = cached_serial(rest, bus, address).unwrap();
            let i = choose|i: int| {
                &&& 0 <= i < rest.len()
                &&& sysfs_matches(rest[i], bus, address)
                &&& rest[i].serial matches Some(sr) && trimmed(sr@) == x
                &&& forall|j: int| 0 <= j < i && sysfs_matches(#[trigger] rest[j], bus, address)
                    ==> (rest[j].serial matches Some(sj) && trimmed(sj@).len() == 0)
            };
            assert(es[i + 1] == rest[i]);
            assert forall|j: int| 0 <= j < i + 1 && sysfs_matches(#[trigger] es[j], bus, address)
                implies (es[j].serial matches Some(sj) && trimmed(sj@).len() == 0) by {
                if j > 0 {
                    assert(es[j] == rest[j - 1]);
                }
            }
        }
        if forall|i: int| 0 <= i < es.len() ==> !sysfs_matches(#[trigger] es[i], bus, address) {
            assert(!sysfs_matches(es[0], bus, address));
            assert forall|i: int| 0 <= i < rest.len() implies !sysfs_matches(#[trigger] rest[i], bus, address) by {
                assert(rest[i] == es[i + 1]);
            }
        }
    }
}

/// What `parse_u8` refuses: nothing, a lone sign, any byte other than a
/// digit (a `+` only in front), and values above 255; what it accepts
/// spells the number in ASCII digits.
pub proof fn law_parse_u8_refuses(b: Seq<u8>)
    ensures
        b.len() == 0 ==> parse_u8(b) is None,
        b =~= seq![43u8] ==> parse_u8(b) is None,
        (exists|i: int| 0 <= i < b.len() && !is_ascii_digit(b[i]) && !(i == 0 && b[i] == 43))
            ==> parse_u8(b) is None,
        parse_u8(b) matches Some(v) ==> {
            let d = if b[0] == 43 { b.drop_first() } else { b };
            &&& d.len() > 0
            &&& forall|i: int| 0 <= i < d.len() ==> 48 <= #[trigger] d[i] <= 57
            &&& decimal_value(d) == v
        },
{
    if parse_u8(b) is Some {
        lemma_decimal_nonneg(digits_part(b));
    }
    if exists|i: int| 0 <= i < b.len() && !is_ascii_digit(b[i]) && !(i == 0 && b[i] == 43) {
        let i = choose|i: int| 0 <= i < b.len() && !is_ascii_digit(b[i]) && !(i == 0 && b[i] == 43);
        let d = digits_part(b);
        if b.len() > 0 && b[0] == 43 {
            assert(i > 0);
            assert(d[i - 1] == b[i]);
        } else {
            assert(d[i] == b[i]);
        }
    }
}

} // verus!
