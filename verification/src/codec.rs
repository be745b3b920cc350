//! The order wire format: a stock snapshot carried from a trader to the
//! broker as a field-tagged text payload.
//!
//! A payload reads `{"stock_name":"NAME","current_price":PRICE}`, with the
//! price written as a decimal currency amount with three fractional digits
//! (the fixed-point scale). [`encode_order`] produces exactly this form and
//! [`parse_order`] accepts exactly this form: its contract states that it
//! returns a snapshot if and only if the payload is the encoding of one.
use vstd::prelude::*;
use vstd::arithmetic::div_mod::{
    lemma_div_is_ordered, lemma_fundamental_div_mod, lemma_mod_mod,
};
use crate::ledger::bytes_equal;
use crate::stock::MAX_PRICE_UNITS;

verus! {

/// Largest integer part a price can have: `MAX_PRICE_UNITS` is this many
/// whole currency units.
pub const MAX_PRICE_WHOLE: u64 = 10_000_000_000_000;

/// A name byte must be printable ASCII and must not be a quote or a
/// backslash, so that the name needs no escaping inside the payload.
pub open spec fn name_byte_ok(b: u8) -> bool {
    32 <= b <= 126 && b != 34 && b != 92
}

/// Every byte of the name is acceptable.
pub open spec fn name_ok(name: Seq<u8>) -> bool {
    forall|i: int| 0 <= i < name.len() ==> name_byte_ok(#[trigger] name[i])
}

/// A stock snapshot that can be carried as an order.
pub open spec fn valid_order(name: Seq<u8>, price: int) -> bool {
    name_ok(name) && 0 <= price <= MAX_PRICE_UNITS
}

/// The opening of a payload, up to and including the quote that starts the
/// name: `{"stock_name":"`.
pub open spec fn prefix_seq() -> Seq<u8> {
    seq![123u8, 34u8, 115u8, 116u8, 111u8, 99u8, 107u8, 95u8, 110u8, 97u8, 109u8, 101u8, 34u8, 58u8, 34u8]
}

/// The middle of a payload, from the quote that closes the name up to and
/// including the colon before the price: `","current_price":`.
pub open spec fn mid_seq() -> Seq<u8> {
    seq![34u8, 44u8, 34u8, 99u8, 117u8, 114u8, 114u8, 101u8, 110u8, 116u8, 95u8, 112u8, 114u8, 105u8, 99u8, 101u8, 34u8, 58u8]
}

/// The canonical decimal digits of a non-negative number: no leading
/// zeros, and a single zero digit for zero.
pub open spec fn dec_digits(v: int) -> Seq<u8>
    decreases v,
{
    if v <= 0 {
        seq![48u8]
    } else if v < 10 {
        seq![(48 + v) as u8]
    } else {
        dec_digits(v / 10).push((48 + v % 10) as u8)
    }
}

/// The number a run of decimal digit bytes denotes.
pub open spec fn digits_value(digits: Seq<u8>) -> int
    decreases digits.len(),
{
    if digits.len() == 0 {
        0
    } else {
        digits_value(digits.drop_last()) * 10 + (digits.last() - 48)
    }
}

/// The three fractional digits of a price: thousandths of a currency unit.
pub open spec fn frac_digits(f: int) -> Seq<u8> {
    seq![(48 + f / 100) as u8, (48 + f % 100 / 10) as u8, (48 + f % 10) as u8]
}

/// The decimal text of a price: whole units, a point, three fractional
/// digits.
pub open spec fn price_text(price: int) -> Seq<u8> {
    dec_digits(price / 1000) + seq![46u8] + frac_digits(price % 1000)
}

/// The payload that encodes a stock snapshot.
pub open spec fn encode_order_spec(name: Seq<u8>, price: int) -> Seq<u8> {
    prefix_seq() + name + mid_seq() + price_text(price) + seq![125u8]
}

/// The payload is the encoding of the given snapshot.
pub open spec fn is_encoding_of(payload: Seq<u8>, name: Seq<u8>, price: int) -> bool {
    valid_order(name, price) && payload == encode_order_spec(name, price)
}

/// Decides whether a byte may appear in a stock name.
pub fn is_name_byte_ok(b: u8) -> (ok: bool)
    ensures
        ok == name_byte_ok(b),
{
    32 <= b && b <= 126 && b != 34 && b != 92
}

/// Decides whether a byte is a decimal digit.
fn is_digit_byte(b: u8) -> (digit: bool)
    ensures
        digit == (48 <= b <= 57),
{
    48 <= b && b <= 57
}

/// Appends the canonical decimal digits of `v`.
fn push_decimal(out: &mut Vec<u8>, v: u64)
    ensures
        final(out)@ == old(out)@ + dec_digits(v as int),
    decreases v,
{
    if v < 10 {
        out.push(48 + (v as u8));
        assert(out@ =~= old(out)@ + dec_digits(v as int));
    } else {
        push_decimal(out, v / 10);
        out.push(48 + ((v % 10) as u8));
        assert(out@ =~= old(out)@ + dec_digits(v as int));
    }
}

/// Encodes a stock snapshot as an order payload.
pub fn encode_order(name: &Vec<u8>, price: u64) -> (payload: Vec<u8>)
    requires
        name_ok(name@),
        price <= MAX_PRICE_UNITS,
    ensures
        payload@ == encode_order_spec(name@, price as int),
{
    let mut out: Vec<u8> = Vec::new();
    out.push(123);
    out.push(34);
    out.push(115);
    out.push(116);
    out.push(111);
    out.push(99);
    out.push(107);
    out.push(95);
    out.push(110);
    out.push(97);
    out.push(109);
    out.push(101);
    out.push(34);
    out.push(58);
    out.push(34);
    assert(out@ =~= prefix_seq());
    let n = name.len();
    let mut i: usize = 0;
    assert(out@ =~= prefix_seq() + name@.subrange(0, 0));
    while i < n
        invariant
            n == name@.len(),
            i <= n,
            out@ == prefix_seq() + name@.subrange(0, i as int),
        decreases n - i,
    {
        out.push(name[i]);
        assert(out@ =~= prefix_seq() + name@.subrange(0, i + 1));
        i = i + 1;
    }
    assert(name@.subrange(0, n as int) =~= name@);
    out.push(34);
    out.push(44);
    out.push(34);
    out.push(99);
    out.push(117);
    out.push(114);
    out.push(114);
    out.push(101);
    out.push(110);
    out.push(116);
    out.push(95);
    out.push(112);
    out.push(114);
    out.push(105);
    out.push(99);
    out.push(101);
    out.push(34);
    out.push(58);
    assert(out@ =~= prefix_seq() + name@ + mid_seq());
    push_decimal(&mut out, price / 1000);
    out.push(46);
    let f = price % 1000;
    out.push(48 + ((f / 100) as u8));
    out.push(48 + ((f % 100 / 10) as u8));
    out.push(48 + ((f % 10) as u8));
    out.push(125);
    assert(out@ =~= encode_order_spec(name@, price as int));
    out
}

/// The digits of a canonical decimal rendering are decimal digit bytes.
proof fn lemma_dec_digits_are_digits(v: int)
    ensures
        dec_digits(v).len() >= 1,
        forall|i: int| 0 <= i < dec_digits(v).len() ==> 48 <= #[trigger] dec_digits(v)[i] <= 57,
    decreases v,
{
    if v >= 10 {
        lemma_dec_digits_are_digits(v / 10);
    }
}

/// Reading the canonical digits of `v` back gives `v`.
proof fn lemma_dec_digits_value(v: int)
    requires
        v >= 0,
    ensures
        digits_value(dec_digits(v)) == v,
    decreases v,
{
    if v < 10 {
        assert(dec_digits(v).drop_last() =~= Seq::<u8>::empty());
        assert(digits_value(Seq::<u8>::empty()) == 0);
        assert(dec_digits(v).last() == 48 + v);
    } else {
        lemma_dec_digits_value(v / 10);
        assert(dec_digits(v).drop_last() =~= dec_digits(v / 10));
        assert(dec_digits(v).last() == 48 + v % 10);
        lemma_fundamental_div_mod(v, 10);
    }
}

/// The value of a run of digit-or-larger bytes is non-negative, and no
/// prefix of the run denotes more than the whole run.
proof fn lemma_digits_value_take(digits: Seq<u8>, k: int)
    requires
        forall|i: int| 0 <= i < digits.len() ==> #[trigger] digits[i] >= 48,
        0 <= k <= digits.len(),
    ensures
        0 <= digits_value(digits.take(k)) <= digits_value(digits),
    decreases digits.len(),
{
    if digits.len() == 0 {
        assert(digits.take(k) =~= digits);
    } else {
        lemma_digits_value_take(digits.drop_last(), if k < digits.len() { k } else { k - 1 });
        if k < digits.len() {
            assert(digits.take(k) =~= digits.drop_last().take(k));
        } else {
            assert(digits.take(k) =~= digits);
            assert(digits.drop_last().take(k - 1) =~= digits.drop_last());
        }
    }
}

/// Where each piece of an encoded payload lies: the name region, the quote
/// that closes it, the digit region, the point, the three fractional
/// digits and the closing brace, with the payload's exact length.
proof fn lemma_encode_layout(name: Seq<u8>, price: int)
    requires
        valid_order(name, price),
    ensures
        ({
            let e = encode_order_spec(name, price);
            let nl = name.len() as int;
            let dd = dec_digits(price / 1000);
            &&& e.len() == 38 + nl + dd.len()
            &&& forall|k: int| 0 <= k < 15 ==> #[trigger] e[k] == prefix_seq()[k]
            &&& forall|k: int| 15 <= k < 15 + nl ==> #[trigger] e[k] == name[k - 15]
            &&& e[15 + nl] == 34
            &&& forall|k: int|
                15 + nl <= k < 33 + nl ==> #[trigger] e[k] == mid_seq()[k - 15 - nl]
            &&& forall|k: int|
                33 + nl <= k < 33 + nl + dd.len() ==> #[trigger] e[k] == dd[k - 33 - nl]
            &&& e[33 + nl + dd.len()] == 46
            &&& e[34 + nl + dd.len()] == 48 + (price % 1000) / 100
            &&& e[35 + nl + dd.len()] == 48 + (price % 1000) % 100 / 10
            &&& e[36 + nl + dd.len()] == 48 + (price % 1000) % 10
            &&& e[37 + nl + dd.len()] == 125
        }),
{
    let e = encode_order_spec(name, price);
    let dd = dec_digits(price / 1000);
    lemma_dec_digits_are_digits(price / 1000);
    assert(price % 1000 < 1000) by {
        vstd::arithmetic::div_mod::lemma_mod_bound(price, 1000);
    }
    assert(e =~= prefix_seq() + name + mid_seq() + price_text(price) + seq![125u8]);
}

/// A scan for the quote that closes the name, having seen none in
/// `[15, i)`, cannot have passed the end of the name region of an encoded
/// payload: position `i` is at a name byte or at the closing quote itself.
proof fn lemma_name_scan_position(payload: Seq<u8>, n: Seq<u8>, p: int, i: int)
    requires
        is_encoding_of(payload, n, p),
        15 <= i,
        forall|j: int| 15 <= j < i ==> #[trigger] payload[j] != 34,
    ensures
        i <= 15 + n.len(),
        payload.len() == 38 + n.len() + dec_digits(p / 1000).len(),
        dec_digits(p / 1000).len() >= 1,
        i < 15 + n.len() ==> i < payload.len() && name_byte_ok(payload[i]) && payload[i] != 34,
        i == 15 + n.len() ==> i < payload.len() && payload[i] == 34,
{
    lemma_encode_layout(n, p);
    lemma_dec_digits_are_digits(p / 1000);
    if i > 15 + n.len() {
        assert(payload[15 + n.len() as int] == 34);
    }
}

/// A scan for the decimal point, having seen only digits in
/// `[33 + n.len(), pos)`, cannot have passed the digit region of an encoded
/// payload: position `pos` is at a digit or at the point itself.
proof fn lemma_digit_scan_position(payload: Seq<u8>, n: Seq<u8>, p: int, pos: int)
    requires
        is_encoding_of(payload, n, p),
        33 + n.len() <= pos,
        forall|j: int| 33 + n.len() <= j < pos ==> 48 <= #[trigger] payload[j] <= 57,
    ensures
        pos <= 33 + n.len() + dec_digits(p / 1000).len(),
        pos < 33 + n.len() + dec_digits(p / 1000).len() ==> pos < payload.len() && 48 <= payload[
            pos
        ] <= 57,
        pos == 33 + n.len() + dec_digits(p / 1000).len() ==> pos < payload.len() && payload[pos]
            == 46,
{
    lemma_encode_layout(n, p);
    lemma_dec_digits_are_digits(p / 1000);
    let dot: int = 33 + n.len() as int + dec_digits(p / 1000).len() as int;
    if pos > dot {
        assert(payload[dot] == 46);
    }
}

/// The quote position a clean scan finds is exactly the end of the name
/// region, so the scanned bytes are exactly the encoded name.
proof fn lemma_scanned_name(payload: Seq<u8>, n: Seq<u8>, p: int, q: int)
    requires
        is_encoding_of(payload, n, p),
        15 <= q < payload.len(),
        payload[q] == 34,
        forall|j: int| 15 <= j < q ==> #[trigger] payload[j] != 34,
    ensures
        q == 15 + n.len(),
        payload.subrange(15, q) == n,
        payload.len() == 38 + n.len() + dec_digits(p / 1000).len(),
        dec_digits(p / 1000).len() >= 1,
{
    lemma_name_scan_position(payload, n, p, q);
    lemma_encode_layout(n, p);
    assert(payload.subrange(15, q) =~= n);
}

/// The price a clean scan reads off an encoded payload, whole digits up to
/// the decimal point and three fractional digits after it, is the encoded
/// price.
proof fn lemma_scanned_price(payload: Seq<u8>, n: Seq<u8>, p: int, pos: int, v: int, f: int)
    requires
        is_encoding_of(payload, n, p),
        pos == 33 + n.len() + dec_digits(p / 1000).len(),
        v == digits_value(payload.subrange(33 + n.len() as int, pos)),
        f == (payload[pos + 1] - 48) * 100 + (payload[pos + 2] - 48) * 10 + (payload[pos + 3]
            - 48),
    ensures
        v == p / 1000,
        f == p % 1000,
        v * 1000 + f == p,
{
    lemma_encode_layout(n, p);
    lemma_dec_digits_are_digits(p / 1000);
    let dd = dec_digits(p / 1000);
    assert(payload.subrange(33 + n.len() as int, pos) =~= dd);
    lemma_dec_digits_value(p / 1000);
    let f0 = p % 1000;
    assert(payload[pos + 1] == 48 + f0 / 100);
    assert(payload[pos + 2] == 48 + f0 % 100 / 10);
    assert(payload[pos + 3] == 48 + f0 % 10);
    lemma_fundamental_div_mod(f0, 100);
    lemma_fundamental_div_mod(f0 % 100, 10);
    lemma_mod_mod(f0, 10, 10);
    assert(f == f0);
    lemma_fundamental_div_mod(p, 1000);
}

/// Parses an order payload back into a stock snapshot. Returns a snapshot
/// exactly when the payload is the encoding of one: any other payload is
/// malformed and yields nothing.
#[verifier::loop_isolation(false)]
#[verifier::rlimit(60)]
pub fn parse_order(payload: &Vec<u8>) -> (parsed: Option<(Vec<u8>, u64)>)
    ensures
        match parsed {
            Some(order) => is_encoding_of(payload@, order.0@, order.1 as int),
            None => forall|n: Seq<u8>, p: int| !is_encoding_of(payload@, n, p),
        },
{
    let len = payload.len();
    if len < 39 {
        proof {
            assert forall|n: Seq<u8>, p: int| !is_encoding_of(payload@, n, p) by {
                if is_encoding_of(payload@, n, p) {
                    lemma_encode_layout(n, p);
                    lemma_dec_digits_are_digits(p / 1000);
                }
            }
        }
        return None;
    }
    let mut name_vec: Vec<u8> = Vec::new();
    let mut i: usize = 15;
    assert(name_vec@ =~= payload@.subrange(15, 15));
    while i < len && payload[i] != 34
        invariant
            15 <= i <= len,
            name_vec@ == payload@.subrange(15, i as int),
            forall|j: int| 15 <= j < i ==> payload@[j] != 34 && name_byte_ok(#[trigger] payload@[j]),
        decreases len - i,
    {
        let b = payload[i];
        if !is_name_byte_ok(b) {
            proof {
                assert forall|n: Seq<u8>, p: int| !is_encoding_of(payload@, n, p) by {
                    if is_encoding_of(payload@, n, p) {
                        lemma_name_scan_position(payload@, n, p, i as int);
                    }
                }
            }
            return None;
        }
        name_vec.push(b);
        assert(name_vec@ =~= payload@.subrange(15, i + 1));
        i = i + 1;
    }
    if i == len {
        proof {
            assert forall|n: Seq<u8>, p: int| !is_encoding_of(payload@, n, p) by {
                if is_encoding_of(payload@, n, p) {
                    lemma_name_scan_position(payload@, n, p, i as int);
                }
            }
        }
        return None;
    }
    let q = i;
    if len - q < 24 {
        proof {
            assert forall|n: Seq<u8>, p: int| !is_encoding_of(payload@, n, p) by {
                if is_encoding_of(payload@, n, p) {
                    lemma_scanned_name(payload@, n, p, q as int);
                }
            }
        }
        return None;
    }
    let q18 = q + 18;
    let mut pos: usize = q18;
    let mut v: u64 = 0;
    assert(payload@.subrange(q18 as int, q18 as int) =~= Seq::<u8>::empty());
    while pos < len && 48 <= payload[pos] && payload[pos] <= 57
        invariant
            q18 <= pos <= len,
            forall|j: int| q18 <= j < pos ==> 48 <= #[trigger] payload@[j] <= 57,
            v == digits_value(payload@.subrange(q18 as int, pos as int)),
            v <= MAX_PRICE_WHOLE,
        decreases len - pos,
    {
        let b = payload[pos];
        let v_new = v * 10 + ((b - 48) as u64);
        if v_new > MAX_PRICE_WHOLE {
            proof {
                assert forall|n: Seq<u8>, p: int| !is_encoding_of(payload@, n, p) by {
                    if is_encoding_of(payload@, n, p) {
                        lemma_scanned_name(payload@, n, p, q as int);
                        lemma_digit_scan_position(payload@, n, p, pos + 1);
                        let dd = dec_digits(p / 1000);
                        lemma_dec_digits_are_digits(p / 1000);
                        lemma_encode_layout(n, p);
                        assert(payload@.subrange(q18 as int, pos + 1) =~= dd.take(
                            pos + 1 - q18,
                        ));
                        assert(payload@.subrange(q18 as int, pos + 1).drop_last()
                            =~= payload@.subrange(q18 as int, pos as int));
                        assert(digits_value(payload@.subrange(q18 as int, pos + 1)) == v_new);
                        lemma_digits_value_take(dd, pos + 1 - q18);
                        lemma_dec_digits_value(p / 1000);
                        lemma_div_is_ordered(p, MAX_PRICE_UNITS as int, 1000);
                    }
                }
            }
            return None;
        }
        v = v_new;
        assert(payload@.subrange(q18 as int, pos + 1).drop_last() =~= payload@.subrange(
            q18 as int,
            pos as int,
        ));
        pos = pos + 1;
    }
    if len - pos != 5 {
        proof {
            assert forall|n: Seq<u8>, p: int| !is_encoding_of(payload@, n, p) by {
                if is_encoding_of(payload@, n, p) {
                    lemma_scanned_name(payload@, n, p, q as int);
                    lemma_digit_scan_position(payload@, n, p, pos as int);
                }
            }
        }
        return None;
    }
    let d1 = payload[pos + 1];
    let d2 = payload[pos + 2];
    let d3 = payload[pos + 3];
    if !is_digit_byte(d1) || !is_digit_byte(d2) || !is_digit_byte(d3) {
        proof {
            assert forall|n: Seq<u8>, p: int| !is_encoding_of(payload@, n, p) by {
                if is_encoding_of(payload@, n, p) {
                    lemma_scanned_name(payload@, n, p, q as int);
                    lemma_digit_scan_position(payload@, n, p, pos as int);
                    lemma_encode_layout(n, p);
                }
            }
        }
        return None;
    }
    let f: u64 = ((d1 - 48) as u64) * 100 + ((d2 - 48) as u64) * 10 + ((d3 - 48) as u64);
    let price: u64 = v * 1000 + f;
    if price > MAX_PRICE_UNITS {
        proof {
            assert forall|n: Seq<u8>, p: int| !is_encoding_of(payload@, n, p) by {
                if is_encoding_of(payload@, n, p) {
                    lemma_scanned_name(payload@, n, p, q as int);
                    lemma_digit_scan_position(payload@, n, p, pos as int);
                    lemma_scanned_price(payload@, n, p, pos as int, v as int, f as int);
                }
            }
        }
        return None;
    }
    assert(name_ok(name_vec@)) by {
        assert forall|j: int| 0 <= j < name_vec@.len() implies name_byte_ok(
            #[trigger] name_vec@[j],
        ) by {
            assert(name_vec@[j] == payload@[15 + j]);
        }
    }
    let encoded = encode_order(&name_vec, price);
    if bytes_equal(&encoded, payload) {
        Some((name_vec, price))
    } else {
        proof {
            assert forall|n: Seq<u8>, p: int| !is_encoding_of(payload@, n, p) by {
                if is_encoding_of(payload@, n, p) {
                    lemma_scanned_name(payload@, n, p, q as int);
                    lemma_digit_scan_position(payload@, n, p, pos as int);
                    lemma_scanned_price(payload@, n, p, pos as int, v as int, f as int);
                    assert(name_vec@ == n);
                    assert(price == p);
                    assert(encoded@ == payload@);
                }
            }
        }
        None
    }
}

} // verus!
