//! The wire layer of the message schema: base-128 varints, and fields made of
//! a key (field number and wire type) and a value.
use vstd::prelude::*;

verus! {

/// The largest field number that the schema allows.
pub const MAX_FIELD_NUMBER: u64 = 0x1fff_ffff;

/// The most bytes that one varint may take.
pub const MAX_VARINT_LEN: usize = 10;

pub open spec fn pow128(k: nat) -> nat
    decreases k,
{
    if k == 0 {
        1
    } else {
        128 * pow128((k - 1) as nat)
    }
}

/// The value of the first `n` bytes of `b` read as base-128 digits, the
/// least significant first; the top bit of each byte is not a digit bit.
pub open spec fn digits_value(b: Seq<u8>, n: nat) -> nat
    decreases n,
{
    if n == 0 {
        0
    } else {
        digits_value(b, (n - 1) as nat) + (b[n - 1] % 128) as nat * pow128((n - 1) as nat)
    }
}

/// The length of the varint at the start of `b`, looking from byte `i` on:
/// the first byte below 128 ends it, and it takes at most ten bytes.
pub open spec fn varint_len_from(b: Seq<u8>, i: nat) -> Option<nat>
    decreases 10 - i,
{
    if i >= 10 || i >= b.len() {
        None
    } else if b[i as int] < 128 {
        Some(i + 1)
    } else {
        varint_len_from(b, i + 1)
    }
}

/// The varint at the start of `b`, with the number of bytes it takes; none
/// when it is unterminated, longer than ten bytes or above `u64::MAX`.
pub open spec fn varint_at(b: Seq<u8>) -> Option<(u64, nat)> {
    match varint_len_from(b, 0) {
        Some(n) => if digits_value(b, n) <= u64::MAX {
            Some((digits_value(b, n) as u64, n))
        } else {
            None
        },
        None => None,
    }
}

/// The varint encoding of `v`: seven bits per byte, least significant first,
/// the top bit set on every byte but the last.
pub open spec fn varint_bytes(v: nat) -> Seq<u8>
    decreases v,
{
    if v < 128 {
        seq![v as u8]
    } else {
        seq![(v % 128 + 128) as u8] + varint_bytes(v / 128)
    }
}

/// A varint lies within the bytes it is read from.
pub proof fn lemma_varint_within(b: Seq<u8>, i: nat)
    ensures
        varint_len_from(b, i) matches Some(n) ==> i < n <= b.len(),
    decreases 10 - i,
{
    if i < 10 && i < b.len() && b[i as int] >= 128 {
        lemma_varint_within(b, i + 1);
    }
}

proof fn lemma_pow128_bound(i: nat)
    requires
        i <= 10,
    ensures
        1 <= pow128(i) <= 1180591620717411303424,
    decreases i,
{
    if i > 0 {
        lemma_pow128_bound((i - 1) as nat);
        if i == 10 {
            reveal_with_fuel(pow128, 11);
        } else {
            lemma_pow128_below((i - 1) as nat);
        }
    }
}

proof fn lemma_pow128_below(i: nat)
    requires
        i < 9,
    ensures
        pow128(i) <= 9223372036854775808,
    decreases i,
{
    if i > 0 {
        lemma_pow128_below((i - 1) as nat);
    }
    reveal_with_fuel(pow128, 10);
}

proof fn lemma_digits_bound(b: Seq<u8>, n: nat)
    ensures
        digits_value(b, n) < pow128(n),
    decreases n,
{
    if n > 0 {
        lemma_digits_bound(b, (n - 1) as nat);
        let p = pow128((n - 1) as nat);
        let d = (b[n - 1] % 128) as nat;
        assert(d * p <= 127 * p) by (nonlinear_arith)
            requires
                d <= 127,
        ;
    }
}

/// Reads the varint that starts at `pos`.
///
/// Returns its value and the position after it, as `varint_at` gives them.
pub fn read_varint(b: &[u8], pos: usize) -> (r: Option<(u64, usize)>)
    requires
        pos <= b@.len(),
    ensures
        match varint_at(b@.subrange(pos as int, b@.len() as int)) {
            Some((v, n)) => r matches Some((value, next)) && value == v && next == pos + n,
            None => r is None,
        },
        r matches Some((v, next)) ==> pos < next <= b@.len(),
{
    let ghost s = b@.subrange(pos as int, b@.len() as int);
    let end = b.len();
    let avail = end - pos;
    let mut i: usize = 0;
    let mut acc: u128 = 0;
    let mut mult: u128 = 1;
    while i < MAX_VARINT_LEN && i < avail
        invariant
            i <= 10,
            pos <= b@.len(),
            end == b@.len(),
            avail == b@.len() - pos,
            s == b@.subrange(pos as int, b@.len() as int),
            varint_len_from(s, 0) == varint_len_from(s, i as nat),
            acc == digits_value(s, i as nat),
            mult == pow128(i as nat),
        decreases 10 - i,
    {
        proof {
            lemma_pow128_bound(i as nat);
            lemma_digits_bound(s, i as nat);
        }
        assert(pos + i < b@.len());
        let byte = b[pos + i];
        assert(byte == s[i as int]);
        let d = (byte % 128) as u128;
        assert(d * mult <= 127 * mult) by (nonlinear_arith)
            requires
                d <= 127,
        ;
        acc = acc + d * mult;
        if byte < 128 {
            if acc > u64::MAX as u128 {
                return None;
            }
            return Some((acc as u64, pos + i + 1));
        }
        mult = mult * 128;
        i = i + 1;
    }
    None
}

/// Appends the varint encoding of `v`.
pub fn write_varint(out: &mut Vec<u8>, v: u64)
    ensures
        final(out)@ == old(out)@ + varint_bytes(v as nat),
{
    let mut x = v;
    while x >= 128
        invariant
            out@ + varint_bytes(x as nat) == old(out)@ + varint_bytes(v as nat),
        decreases x,
    {
        let ghost before = out@;
        out.push((x % 128 + 128) as u8);
        assert(before + varint_bytes(x as nat) =~= out@ + varint_bytes((x / 128) as nat));
        x = x / 128;
    }
    let ghost before = out@;
    out.push(x as u8);
    assert(before + varint_bytes(x as nat) =~= out@);
}

/// The value of one field as it stands on the wire.
#[derive(Debug)]
pub enum WireValue {
    /// Wire type 0.
    Varint(u64),
    /// Wire type 1: eight bytes, which the schema never reads.
    Fixed64,
    /// Wire type 2: a length and that many bytes.
    Bytes(Vec<u8>),
    /// Wire type 5: four bytes, which the schema never reads.
    Fixed32,
}

/// One field: its number and its value.
#[derive(Debug)]
pub struct Field {
    pub number: u64,
    pub value: WireValue,
}

pub enum WireValueView {
    Varint(u64),
    Fixed64,
    Bytes(Seq<u8>),
    Fixed32,
}

pub struct FieldView {
    pub number: u64,
    pub value: WireValueView,
}

impl View for WireValue {
    type V = WireValueView;

    open spec fn view(&self) -> WireValueView {
        match self {
            WireValue::Varint(v) => WireValueView::Varint(*v),
            WireValue::Fixed64 => WireValueView::Fixed64,
            WireValue::Bytes(b) => WireValueView::Bytes(b@),
            WireValue::Fixed32 => WireValueView::Fixed32,
        }
    }
}

impl View for Field {
    type V = FieldView;

    open spec fn view(&self) -> FieldView {
        FieldView { number: self.number, value: self.value@ }
    }
}

/// The field at the start of `b`, with the number of bytes it takes; none
/// when the bytes there are not a complete field of a known wire type, or
/// the field number is zero.
pub open spec fn field_at(b: Seq<u8>) -> Option<(FieldView, nat)> {
    match varint_at(b) {
        None => None,
        Some((key, kn)) => {
            let number = key / 8;
            let wire_type = key % 8;
            let rest = b.subrange(kn as int, b.len() as int);
            if number == 0 {
                None
            } else if wire_type == 0 {
                match varint_at(rest) {
                    Some((v, vn)) => Some(
                        (FieldView { number, value: WireValueView::Varint(v) }, kn + vn),
                    ),
                    None => None,
                }
            } else if wire_type == 1 {
                if rest.len() >= 8 {
                    Some((FieldView { number, value: WireValueView::Fixed64 }, kn + 8))
                } else {
                    None
                }
            } else if wire_type == 2 {
                match varint_at(rest) {
                    Some((len, ln)) => if ln + len <= rest.len() {
                        Some(
                            (
                                FieldView {
                                    number,
                                    value: WireValueView::Bytes(
                                        rest.subrange(ln as int, ln + len),
                                    ),
                                },
                                (kn + ln + len) as nat,
                            ),
                        )
                    } else {
                        None
                    },
                    None => None,
                }
            } else if wire_type == 5 {
                if rest.len() >= 4 {
                    Some((FieldView { number, value: WireValueView::Fixed32 }, kn + 4))
                } else {
                    None
                }
            } else {
                None
            }
        },
    }
}

/// The fields that `b` holds, in order; none when some part of it is not a
/// field.
pub open spec fn fields_of(b: Seq<u8>) -> Option<Seq<FieldView>>
    decreases b.len(),
{
    if b.len() == 0 {
        Some(Seq::empty())
    } else {
        match field_at(b) {
            Some((f, n)) => if 0 < n <= b.len() {
                match fields_of(b.subrange(n as int, b.len() as int)) {
                    Some(rest) => Some(seq![f] + rest),
                    None => None,
                }
            } else {
                None
            },
            None => None,
        }
    }
}

/// The bytes of `b` from `start` up to `end`.
pub fn copy_range(b: &[u8], start: usize, end: usize) -> (r: Vec<u8>)
    requires
        start <= end <= b@.len(),
    ensures
        r@ == b@.subrange(start as int, end as int),
{
    let mut r: Vec<u8> = Vec::new();
    let mut i = start;
    while i < end
        invariant
            start <= i <= end <= b@.len(),
            r@ == b@.subrange(start as int, i as int),
        decreases end - i,
    {
        r.push(b[i]);
        assert(r@ =~= b@.subrange(start as int, i + 1));
        i = i + 1;
    }
    r
}

/// Reads the field that starts at `pos`: the field and the position after it,
/// as `field_at` gives them.
pub fn read_field(b: &[u8], pos: usize) -> (r: Option<(Field, usize)>)
    requires
        pos <= b@.len(),
    ensures
        match field_at(b@.subrange(pos as int, b@.len() as int)) {
            Some((fv, n)) => r matches Some((f, next)) && f@ == fv && next == pos + n,
            None => r is None,
        },
        r matches Some((f, next)) ==> pos < next <= b@.len(),
{
    let ghost s = b@.subrange(pos as int, b@.len() as int);
    let (key, after_key) = match read_varint(b, pos) {
        Some(kp) => kp,
        None => return None,
    };
    let ghost kn = (after_key - pos) as nat;
    assert(b@.subrange(after_key as int, b@.len() as int) =~= s.subrange(kn as int, s.len() as int));
    let number = key / 8;
    let wire_type = key % 8;
    if number == 0 {
        return None;
    }
    if wire_type == 0 {
        match read_varint(b, after_key) {
            Some((v, after_len)) => Some((Field { number, value: WireValue::Varint(v) }, after_len)),
            None => None,
        }
    } else if wire_type == 1 {
        if b.len() - after_key >= 8 {
            Some((Field { number, value: WireValue::Fixed64 }, after_key + 8))
        } else {
            None
        }
    } else if wire_type == 2 {
        match read_varint(b, after_key) {
            Some((len, after_len)) => {
                if len <= (b.len() - after_len) as u64 {
                    let end = after_len + len as usize;
                    let payload = copy_range(b, after_len, end);
                    assert(payload@ =~= s.subrange(kn as int, s.len() as int).subrange(
                        (after_len - after_key) as int,
                        (after_len - after_key) + len,
                    ));
                    Some((Field { number, value: WireValue::Bytes(payload) }, end))
                } else {
                    None
                }
            },
            None => None,
        }
    } else if wire_type == 5 {
        if b.len() - after_key >= 4 {
            Some((Field { number, value: WireValue::Fixed32 }, after_key + 4))
        } else {
            None
        }
    } else {
        None
    }
}

/// Reads all the fields of `b`, as `fields_of` gives them.
pub fn read_fields(b: &[u8]) -> (r: Option<Vec<Field>>)
    ensures
        match fields_of(b@) {
            Some(fs) => r matches Some(v) && v@.map_values(|f: Field| f@) == fs,
            None => r is None,
        },
{
    let end = b.len();
    let mut out: Vec<Field> = Vec::new();
    let mut pos: usize = 0;
    assert(b@.subrange(0, b@.len() as int) =~= b@);
    while pos < end
        invariant
            end == b@.len(),
            pos <= end,
            fields_of(b@) == (match fields_of(b@.subrange(pos as int, end as int)) {
                Some(rest) => Some(out@.map_values(|f: Field| f@) + rest),
                None => None::<Seq<FieldView>>,
            }),
        decreases end - pos,
    {
        let ghost s = b@.subrange(pos as int, end as int);
        match read_field(b, pos) {
            Some((f, next)) => {
                let ghost n = (next - pos) as nat;
                assert(s.subrange(n as int, s.len() as int) =~= b@.subrange(
                    next as int,
                    end as int,
                ));
                let ghost before = out@.map_values(|f: Field| f@);
                out.push(f);
                assert(out@.map_values(|f: Field| f@) =~= before + seq![f@]);
                proof {
                    match fields_of(b@.subrange(next as int, end as int)) {
                        Some(rest) => {
                            assert(before + (seq![f@] + rest) =~= (before + seq![f@]) + rest);
                        },
                        None => {},
                    }
                }
                pos = next;
            },
            None => {
                return None;
            },
        }
    }
    assert(b@.subrange(pos as int, end as int) =~= Seq::<u8>::empty());
    assert(out@.map_values(|f: Field| f@) + Seq::<FieldView>::empty() =~= out@.map_values(
        |f: Field| f@,
    ));
    Some(out)
}

/// The key of a field: its number and wire type as one varint.
pub open spec fn key_bytes(number: u64, wire_type: nat) -> Seq<u8> {
    varint_bytes((number * 8 + wire_type) as nat)
}

/// A length-delimited field: key, length, payload.
pub open spec fn bytes_field(number: u64, payload: Seq<u8>) -> Seq<u8> {
    key_bytes(number, 2) + varint_bytes(payload.len()) + payload
}

/// Appends a length-delimited field.
pub fn write_bytes_field(out: &mut Vec<u8>, number: u64, payload: &[u8])
    requires
        1 <= number <= MAX_FIELD_NUMBER,
    ensures
        final(out)@ == old(out)@ + bytes_field(number, payload@),
{
    write_varint(out, number * 8 + 2);
    write_varint(out, payload.len() as u64);
    let ghost before = out@;
    let mut i: usize = 0;
    while i < payload.len()
        invariant
            i <= payload@.len(),
            out@ == before + payload@.subrange(0, i as int),
        decreases payload@.len() - i,
    {
        out.push(payload[i]);
        assert(out@ =~= before + payload@.subrange(0, i + 1));
        i = i + 1;
    }
    assert(payload@.subrange(0, payload@.len() as int) =~= payload@);
    assert(out@ =~= old(out)@ + bytes_field(number, payload@));
}

/// A varint of a value below `pow128(k)` takes at most `k` bytes.
proof fn lemma_varint_bytes_len(w: nat, k: nat)
    requires
        k >= 1,
        w < pow128(k),
    ensures
        1 <= varint_bytes(w).len() <= k,
    decreases w,
{
    if w >= 128 {
        assert(k >= 2) by {
            if k == 1 {
                reveal_with_fuel(pow128, 2);
            }
        }
        assert(w / 128 < pow128((k - 1) as nat)) by {
            assert(pow128(k) == 128 * pow128((k - 1) as nat));
        }
        lemma_varint_bytes_len(w / 128, (k - 1) as nat);
    }
}

/// Where the encoding of `w` stands in `s` from position `i`, within the first
/// ten bytes, the varint read there ends just after it and adds `w` at the
/// weight of position `i`.
proof fn lemma_varint_read_back(s: Seq<u8>, i: nat, w: nat)
    requires
        i + varint_bytes(w).len() <= 10,
        i + varint_bytes(w).len() <= s.len(),
        s.subrange(i as int, (i + varint_bytes(w).len()) as int) == varint_bytes(w),
    ensures
        varint_len_from(s, i) == Some(i + varint_bytes(w).len()),
        digits_value(s, i + varint_bytes(w).len()) == digits_value(s, i) + w * pow128(i),
    decreases w,
{
    let vb = varint_bytes(w);
    assert(s[i as int] == s.subrange(i as int, (i + vb.len()) as int)[0]);
    if w < 128 {
        assert(digits_value(s, i + 1) == digits_value(s, i) + (s[i as int] % 128) as nat * pow128(
            i,
        ));
    } else {
        let rest = varint_bytes(w / 128);
        assert(vb == seq![(w % 128 + 128) as u8] + rest);
        assert(vb.subrange(1, vb.len() as int) =~= rest);
        assert(s.subrange((i + 1) as int, (i + 1 + rest.len()) as int) =~= s.subrange(
            i as int,
            (i + vb.len()) as int,
        ).subrange(1, vb.len() as int));
        lemma_varint_read_back(s, i + 1, w / 128);
        let p = pow128(i);
        assert(pow128(i + 1) == 128 * p);
        assert(digits_value(s, i + 1) == digits_value(s, i) + (w % 128) * p);
        assert((w % 128) * p + (w / 128) * (128 * p) == w * p) by (nonlinear_arith)
            requires
                w == 128 * (w / 128) + w % 128,
        ;
    }
}

/// Where the encoding of `w` stands in `s` from position `i` but `s` ends
/// before it does, no varint is read there.
proof fn lemma_varint_cut(s: Seq<u8>, i: nat, w: nat, e: Seq<u8>)
    requires
        i + varint_bytes(w).len() <= 10,
        e == varint_bytes(w),
        i <= s.len() < i + e.len(),
        s.subrange(i as int, s.len() as int) == e.subrange(0, s.len() - i),
    ensures
        varint_len_from(s, i) is None,
    decreases w,
{
    if i < s.len() {
        let head = s.subrange(i as int, s.len() as int);
        assert forall|j: int| 0 <= j < s.len() - i implies s[i + j] == e[j] by {
            assert(head[j] == s[i + j]);
            assert(e.subrange(0, s.len() - i)[j] == e[j]);
        }
        assert(s[i as int] == e[0]);
        if w >= 128 {
            let rest = varint_bytes(w / 128);
            assert(e == seq![(w % 128 + 128) as u8] + rest);
            assert forall|j: int| 0 <= j < s.len() - (i + 1) implies s[i + 1 + j] == rest[j] by {
                assert(s[i + (j + 1)] == e[j + 1]);
            }
            assert(s.subrange((i + 1) as int, s.len() as int) =~= rest.subrange(0, s.len() - (i + 1)));
            lemma_varint_cut(s, i + 1, w / 128, rest);
        }
    }
}

/// A varint reads back as the value it encodes, whatever follows it.
pub proof fn lemma_varint_round_trip(v: u64, rest: Seq<u8>)
    ensures
        varint_bytes(v as nat).len() <= MAX_VARINT_LEN,
        varint_at(varint_bytes(v as nat) + rest) == Some((v, varint_bytes(v as nat).len())),
{
    lemma_pow128_bound(10);
    reveal_with_fuel(pow128, 11);
    lemma_varint_bytes_len(v as nat, 10);
    let s = varint_bytes(v as nat) + rest;
    assert(s.subrange(0, varint_bytes(v as nat).len() as int) =~= varint_bytes(v as nat));
    lemma_varint_read_back(s, 0, v as nat);
    assert(digits_value(s, 0) == 0);
    assert(pow128(0) == 1);
    let unit = pow128(0);
    assert((v as nat) * unit == v as nat) by (nonlinear_arith)
        requires
            unit == 1,
    ;
    assert(digits_value(s, (0 + varint_bytes(v as nat).len()) as nat) == digits_value(s, 0) + (v as nat) * pow128(0));
    assert(digits_value(s, varint_bytes(v as nat).len()) == v);
}

/// A varint cut short is no varint.
pub proof fn lemma_varint_cut_short(v: u64, k: nat)
    requires
        k < varint_bytes(v as nat).len(),
    ensures
        varint_at(varint_bytes(v as nat).take(k as int)) is None,
{
    lemma_pow128_bound(10);
    reveal_with_fuel(pow128, 11);
    lemma_varint_bytes_len(v as nat, 10);
    let e = varint_bytes(v as nat);
    let s = e.take(k as int);
    assert(s.subrange(0, s.len() as int) =~= e.subrange(0, s.len() as int));
    lemma_varint_cut(s, 0, v as nat, e);
}

} // verus!
