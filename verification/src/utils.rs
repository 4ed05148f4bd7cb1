//! Small formatting and identifier helpers: Bluetooth UUID expansion and
//! hexadecimal rendering of MAC addresses.

use vstd::prelude::*;

verus! {

/// The Bluetooth base UUID `00000000-0000-1000-8000-00805f9b34fb`.
pub const BLUETOOTH_BASE_UUID: u128 = 0x00000000_0000_1000_8000_00805f9b34fb;

/// The 128-bit value of the UUID that a 16-bit Bluetooth UUID abbreviates:
/// the short value occupies bits 96..112 of the base UUID.
pub open spec fn spec_uuid16_to_uuid(short: u16) -> u128 {
    (BLUETOOTH_BASE_UUID + short as int * 0x1_0000_0000_0000_0000_0000_0000) as u128
}

/// Expands a 16-bit Bluetooth service UUID to its full 128-bit form.
pub fn uuid16_to_uuid(uuid: u16) -> (r: u128)
    ensures
        r == spec_uuid16_to_uuid(uuid),
        r as int == BLUETOOTH_BASE_UUID + uuid as int * 0x1_0000_0000_0000_0000_0000_0000,
{
    let wide: u128 = uuid as u128;
    let r = BLUETOOTH_BASE_UUID | (wide << 96u128);
    assert(wide < 0x10000 ==> (0x0000000000001000800000805f9b34fbu128 | (wide << 96u128)) as int
        == 0x0000000000001000800000805f9b34fbu128 as int + wide as int * 0x1_0000_0000_0000_0000_0000_0000int)
        by (bit_vector);
    r
}

/// The lower-case hexadecimal digit of a nibble.
pub open spec fn hex_digit(n: int) -> char {
    seq!['0', '1', '2', '3', '4', '5', '6', '7', '8', '9', 'a', 'b', 'c', 'd', 'e', 'f'][n]
}

/// The two lower-case hexadecimal digits of a byte, as `{:02x}` writes them.
pub open spec fn hex_byte(b: u8) -> Seq<char> {
    seq![hex_digit(b as int / 16), hex_digit(b as int % 16)]
}

/// The hexadecimal renderings of `bytes`, joined by `sep`.
pub open spec fn hex_join(bytes: Seq<u8>, sep: Seq<char>) -> Seq<char>
    decreases bytes.len(),
{
    if bytes.len() == 0 {
        Seq::empty()
    } else if bytes.len() == 1 {
        hex_byte(bytes[0])
    } else {
        hex_join(bytes.drop_last(), sep) + sep + hex_byte(bytes.last())
    }
}

/// Appends the two hexadecimal digits of `b` to `s`.
fn push_hex_byte(s: &mut String, b: u8)
    ensures
        final(s)@ == old(s)@ + hex_byte(b),
{
    let digits = "0123456789abcdef";
    proof {
        reveal_strlit("0123456789abcdef");
        assert(digits@ =~= seq!['0', '1', '2', '3', '4', '5', '6', '7', '8', '9', 'a', 'b', 'c', 'd', 'e', 'f']);
    }
    let hi: usize = (b / 16) as usize;
    let lo: usize = (b % 16) as usize;
    let h = digits.substring_ascii(hi, hi + 1);
    let l = digits.substring_ascii(lo, lo + 1);
    s.append(h);
    s.append(l);
    assert(final(s)@ =~= old(s)@ + hex_byte(b)) by {
        assert(h@ =~= seq![hex_digit(b as int / 16)]);
        assert(l@ =~= seq![hex_digit(b as int % 16)]);
    }
}

/// Renders `bytes` in lower-case hexadecimal, two digits per byte, with `sep` between bytes.
fn hex_string(bytes: &[u8], sep: &str) -> (r: String)
    ensures
        r@ == hex_join(bytes@, sep@),
{
    let mut r = String::new();
    let n = bytes.len();
    for i in 0..n
        invariant
            n == bytes@.len(),
            r@ == hex_join(bytes@.take(i as int), sep@),
    {
        assert(bytes@.take(i + 1).drop_last() =~= bytes@.take(i as int));
        if i != 0 {
            r.append(sep);
        }
        push_hex_byte(&mut r, bytes[i]);
        proof {
            if i == 0 {
                assert(r@ =~= hex_join(bytes@.take(1), sep@));
            }
        }
    }
    assert(bytes@.take(n as int) =~= bytes@);
    r
}

/// Renders a MAC address as colon-separated lower-case hexadecimal, e.g. `aa:bb:cc:dd:ee:ff`.
pub fn mac6_to_colon_string(mac: &[u8; 6]) -> (r: String)
    ensures
        r@ == hex_join(mac@, seq![':']),
{
    let sep = ":";
    proof {
        reveal_strlit(":");
        assert(sep@ =~= seq![':']);
    }
    let bytes = mac.as_slice();
    assert(bytes@ =~= mac@);
    hex_string(bytes, sep)
}

/// Renders a MAC address as plain lower-case hexadecimal, e.g. `aabbccddeeff`.
pub fn mac6_to_string(mac: &[u8; 6]) -> (r: String)
    ensures
        r@ == hex_join(mac@, Seq::empty()),
{
    let sep = "";
    proof {
        reveal_strlit("");
        assert(sep@ =~= Seq::<char>::empty());
    }
    let bytes = mac.as_slice();
    assert(bytes@ =~= mac@);
    hex_string(bytes, sep)
}

} // verus!

verus! {

/// A MAC address read as a 48-bit big-endian integer.
pub open spec fn spec_mac_key(mac: Seq<u8>) -> u64 {
    (mac[0] as int * 0x100_0000_0000 + mac[1] as int * 0x1_0000_0000 + mac[2] as int * 0x100_0000
        + mac[3] as int * 0x1_0000 + mac[4] as int * 0x100 + mac[5] as int) as u64
}

/// The 48-bit integer that identifies a MAC address in lookup tables.
pub fn mac_key(mac: &[u8; 6]) -> (r: u64)
    ensures
        r == spec_mac_key(mac@),
        r < 0x1_0000_0000_0000,
{
    (mac[0] as u64) * 0x100_0000_0000 + (mac[1] as u64) * 0x1_0000_0000 + (mac[2] as u64) * 0x100_0000
        + (mac[3] as u64) * 0x1_0000 + (mac[4] as u64) * 0x100 + (mac[5] as u64)
}

/// Different MAC addresses have different keys.
pub proof fn lemma_mac_key_injective(a: [u8; 6], b: [u8; 6])
    requires
        spec_mac_key(a@) == spec_mac_key(b@),
    ensures
        a == b,
{
    let (a0, a1, a2, a3, a4, a5) = (a[0], a[1], a[2], a[3], a[4], a[5]);
    let (b0, b1, b2, b3, b4, b5) = (b[0], b[1], b[2], b[3], b[4], b[5]);
    assert(a@[0] == a0 && a@[1] == a1 && a@[2] == a2 && a@[3] == a3 && a@[4] == a4 && a@[5] == a5);
    assert(b@[0] == b0 && b@[1] == b1 && b@[2] == b2 && b@[3] == b3 && b@[4] == b4 && b@[5] == b5);
    assert(a0 == b0 && a1 == b1 && a2 == b2 && a3 == b3 && a4 == b4 && a5 == b5) by (bit_vector)
        requires
            a0 as int * 0x100_0000_0000 + a1 as int * 0x1_0000_0000 + a2 as int * 0x100_0000
                + a3 as int * 0x1_0000 + a4 as int * 0x100 + a5 as int
            == b0 as int * 0x100_0000_0000 + b1 as int * 0x1_0000_0000 + b2 as int * 0x100_0000
                + b3 as int * 0x1_0000 + b4 as int * 0x100 + b5 as int;
    assert(a@ =~= b@);
}

/// A MAC address key fits in 48 bits.
pub proof fn lemma_mac_key_bound(mac: [u8; 6])
    ensures
        spec_mac_key(mac@) < 0x1_0000_0000_0000,
{
}

/// The value of a lower-case hexadecimal digit, as `u8::from_str_radix(_, 16)` reads
/// it; -1 for any other character.
pub open spec fn hex_value(c: char) -> int {
    if '0' as int <= c as int <= '9' as int {
        c as int - '0' as int
    } else if 'a' as int <= c as int <= 'f' as int {
        c as int - 'a' as int + 10
    } else {
        -1
    }
}

/// Reading a digit back gives the nibble it renders; no digit is a colon.
proof fn lemma_hex_digit_value(d: int)
    requires
        0 <= d < 16,
    ensures
        hex_value(hex_digit(d)) == d,
        hex_digit(d) != ':',
{
    let digits = seq!['0', '1', '2', '3', '4', '5', '6', '7', '8', '9', 'a', 'b', 'c', 'd', 'e', 'f'];
    assert(hex_digit(d) == digits[d]);
    if d == 0 { assert(digits[0] == '0'); }
    else if d == 1 { assert(digits[1] == '1'); }
    else if d == 2 { assert(digits[2] == '2'); }
    else if d == 3 { assert(digits[3] == '3'); }
    else if d == 4 { assert(digits[4] == '4'); }
    else if d == 5 { assert(digits[5] == '5'); }
    else if d == 6 { assert(digits[6] == '6'); }
    else if d == 7 { assert(digits[7] == '7'); }
    else if d == 8 { assert(digits[8] == '8'); }
    else if d == 9 { assert(digits[9] == '9'); }
    else if d == 10 { assert(digits[10] == 'a'); }
    else if d == 11 { assert(digits[11] == 'b'); }
    else if d == 12 { assert(digits[12] == 'c'); }
    else if d == 13 { assert(digits[13] == 'd'); }
    else if d == 14 { assert(digits[14] == 'e'); }
    else { assert(digits[15] == 'f'); }
}

/// Where each digit and colon stands in a colon-separated rendering.
proof fn lemma_colon_layout(m: Seq<u8>)
    requires
        m.len() >= 1,
    ensures
        hex_join(m, seq![':']).len() == 3 * m.len() - 1,
        forall|i: int|
            0 <= i < m.len() ==> hex_join(m, seq![':'])[3 * i] == hex_digit(#[trigger] m[i] as int / 16)
                && hex_join(m, seq![':'])[3 * i + 1] == hex_digit(m[i] as int % 16),
        forall|i: int| 0 <= i < m.len() - 1 ==> #[trigger] hex_join(m, seq![':'])[3 * i + 2] == ':',
    decreases m.len(),
{
    if m.len() > 1 {
        let p = m.drop_last();
        lemma_colon_layout(p);
        let s = hex_join(m, seq![':']);
        let ps = hex_join(p, seq![':']);
        assert(s == ps + seq![':'] + hex_byte(m.last()));
        assert forall|i: int| 0 <= i < m.len() implies s[3 * i] == hex_digit(#[trigger] m[i] as int / 16)
            && s[3 * i + 1] == hex_digit(m[i] as int % 16) by {
            if i < m.len() - 1 {
                assert(p[i] == m[i]);
            }
        }
        assert forall|i: int| 0 <= i < m.len() - 1 implies #[trigger] s[3 * i + 2] == ':' by {
            if i < m.len() - 2 {
                assert(s[3 * i + 2] == ps[3 * i + 2]);
            }
        }
    }
}

/// Where each digit stands in a rendering without separators.
proof fn lemma_plain_layout(m: Seq<u8>)
    ensures
        hex_join(m, Seq::empty()).len() == 2 * m.len(),
        forall|i: int|
            0 <= i < m.len() ==> hex_join(m, Seq::empty())[2 * i] == hex_digit(#[trigger] m[i] as int / 16)
                && hex_join(m, Seq::empty())[2 * i + 1] == hex_digit(m[i] as int % 16),
    decreases m.len(),
{
    if m.len() > 1 {
        let p = m.drop_last();
        lemma_plain_layout(p);
        let s = hex_join(m, Seq::empty());
        let ps = hex_join(p, Seq::empty());
        assert(s == ps + Seq::<char>::empty() + hex_byte(m.last()));
        assert forall|i: int| 0 <= i < m.len() implies s[2 * i] == hex_digit(#[trigger] m[i] as int / 16)
            && s[2 * i + 1] == hex_digit(m[i] as int % 16) by {
            if i < m.len() - 1 {
                assert(p[i] == m[i]);
            }
        }
    }
}

/// The colon-separated rendering of a MAC is 17 characters: six two-digit fields
/// separated by colons, each field reading back as its byte.
pub proof fn lemma_colon_mac_round_trip(mac: [u8; 6])
    ensures
        hex_join(mac@, seq![':']).len() == 17,
        forall|i: int|
            0 <= i < 6 ==> hex_value(hex_join(mac@, seq![':'])[3 * i]) * 16 + hex_value(
                hex_join(mac@, seq![':'])[3 * i + 1],
            ) == #[trigger] mac@[i],
        forall|i: int| 0 <= i < 5 ==> #[trigger] hex_join(mac@, seq![':'])[3 * i + 2] == ':',
{
    lemma_colon_layout(mac@);
    assert forall|i: int|
        0 <= i < 6 implies hex_value(hex_join(mac@, seq![':'])[3 * i]) * 16 + hex_value(
            hex_join(mac@, seq![':'])[3 * i + 1],
        ) == #[trigger] mac@[i] by {
        lemma_hex_digit_value(mac@[i] as int / 16);
        lemma_hex_digit_value(mac@[i] as int % 16);
    }
}

/// Different MACs have different colon-separated renderings.
pub proof fn lemma_colon_mac_injective(a: [u8; 6], b: [u8; 6])
    requires
        hex_join(a@, seq![':']) == hex_join(b@, seq![':']),
    ensures
        a == b,
{
    lemma_colon_mac_round_trip(a);
    lemma_colon_mac_round_trip(b);
    assert forall|i: int| 0 <= i < 6 implies a@[i] == b@[i] by {
        assert(a@[i] == hex_value(hex_join(a@, seq![':'])[3 * i]) * 16 + hex_value(hex_join(a@, seq![':'])[3 * i + 1]));
        assert(b@[i] == hex_value(hex_join(b@, seq![':'])[3 * i]) * 16 + hex_value(hex_join(b@, seq![':'])[3 * i + 1]));
    }
    assert(a@ =~= b@);
}

/// The plain rendering of a MAC is 12 characters, each pair of digits reading back as
/// its byte.
pub proof fn lemma_plain_mac_round_trip(mac: [u8; 6])
    ensures
        hex_join(mac@, Seq::empty()).len() == 12,
        forall|i: int|
            0 <= i < 6 ==> hex_value(hex_join(mac@, Seq::empty())[2 * i]) * 16 + hex_value(
                hex_join(mac@, Seq::empty())[2 * i + 1],
            ) == #[trigger] mac@[i],
{
    lemma_plain_layout(mac@);
    assert forall|i: int|
        0 <= i < 6 implies hex_value(hex_join(mac@, Seq::empty())[2 * i]) * 16 + hex_value(
            hex_join(mac@, Seq::empty())[2 * i + 1],
        ) == #[trigger] mac@[i] by {
        lemma_hex_digit_value(mac@[i] as int / 16);
        lemma_hex_digit_value(mac@[i] as int % 16);
    }
}

/// Different MACs have different plain renderings.
pub proof fn lemma_plain_mac_injective(a: [u8; 6], b: [u8; 6])
    requires
        hex_join(a@, Seq::empty()) == hex_join(b@, Seq::empty()),
    ensures
        a == b,
{
    lemma_plain_mac_round_trip(a);
    lemma_plain_mac_round_trip(b);
    assert forall|i: int| 0 <= i < 6 implies a@[i] == b@[i] by {
        assert(a@[i] == hex_value(hex_join(a@, Seq::empty())[2 * i]) * 16 + hex_value(hex_join(a@, Seq::empty())[2 * i + 1]));
        assert(b@[i] == hex_value(hex_join(b@, Seq::empty())[2 * i]) * 16 + hex_value(hex_join(b@, Seq::empty())[2 * i + 1]));
    }
    assert(a@ =~= b@);
}

/// Keeps the characters that are not colons.
pub open spec fn is_not_colon() -> spec_fn(char) -> bool {
    |c: char| c != ':'
}

/// A byte's two digits contain no colon.
proof fn lemma_hex_byte_colon_free(b: u8)
    ensures
        hex_byte(b).filter(is_not_colon()) == hex_byte(b),
{
    lemma_hex_digit_value(b as int / 16);
    lemma_hex_digit_value(b as int % 16);
    reveal_with_fuel(Seq::<char>::filter, 3);
    let h = hex_byte(b);
    assert(h.drop_last().drop_last() =~= Seq::<char>::empty());
    assert(h.drop_last() =~= seq![h[0]]);
    assert(h.filter(is_not_colon()) =~= h);
}

/// The rendering of bytes without separators is their colon-separated rendering with
/// the colons removed.
pub proof fn lemma_plain_is_colon_without_colons(m: Seq<u8>)
    ensures
        hex_join(m, Seq::empty()) == hex_join(m, seq![':']).filter(is_not_colon()),
    decreases m.len(),
{
    if m.len() == 0 {
        reveal_with_fuel(Seq::<char>::filter, 1);
    } else if m.len() == 1 {
        lemma_hex_byte_colon_free(m[0]);
    } else {
        let p = m.drop_last();
        lemma_plain_is_colon_without_colons(p);
        lemma_hex_byte_colon_free(m.last());
        let pc = hex_join(p, seq![':']);
        let sep = seq![':'];
        Seq::filter_distributes_over_add(pc + sep, hex_byte(m.last()), is_not_colon());
        Seq::filter_distributes_over_add(pc, sep, is_not_colon());
        reveal_with_fuel(Seq::<char>::filter, 2);
        assert(sep.drop_last() =~= Seq::<char>::empty());
        assert(sep.filter(is_not_colon()) =~= Seq::<char>::empty());
        assert(hex_join(m, Seq::empty()) =~= hex_join(p, Seq::empty()) + Seq::<char>::empty() + hex_byte(m.last()));
        assert(hex_join(m, seq![':']) == pc + sep + hex_byte(m.last()));
        assert((pc + sep).filter(is_not_colon()) =~= pc.filter(is_not_colon()));
    }
}

} // verus!
