//! Decoding of raw sample buffers into typed sample values.
use vstd::prelude::*;

use crate::element::{spec_is_signed, spec_width, ElementType};

verus! {

/// Byte order in which the engine hands back stored samples.
#[derive(Clone, Copy, Debug, PartialEq, Eq, Structural)]
pub enum ByteOrder {
    Little,
    Big,
}

/// One decoded sample. Floating-point samples keep their IEEE 754 bit
/// pattern; text samples keep the bytes of the cell up to its terminator.
#[derive(Clone, Debug, PartialEq)]
pub enum Sample {
    Unsigned(u64),
    Signed(i64),
    Float32Bits(u32),
    Float64Bits(u64),
    Text(Vec<u8>),
}

/// The mathematical content of a sample.
pub enum SampleView {
    Unsigned(u64),
    Signed(i64),
    Float32Bits(u32),
    Float64Bits(u64),
    Text(Seq<u8>),
}

impl View for Sample {
    type V = SampleView;

    open spec fn view(&self) -> SampleView {
        match self {
            Sample::Unsigned(x) => SampleView::Unsigned(*x),
            Sample::Signed(x) => SampleView::Signed(*x),
            Sample::Float32Bits(x) => SampleView::Float32Bits(*x),
            Sample::Float64Bits(x) => SampleView::Float64Bits(*x),
            Sample::Text(v) => SampleView::Text(v@),
        }
    }
}

/// 256 raised to the power `k`.
pub open spec fn pow256(k: nat) -> nat
    decreases k,
{
    if k == 0 {
        1
    } else {
        256 * pow256((k - 1) as nat)
    }
}

/// Unsigned value of bytes given most significant first.
pub open spec fn be_value(s: Seq<u8>) -> nat
    decreases s.len(),
{
    if s.len() == 0 {
        0
    } else {
        (be_value(s.drop_last()) * 256 + s.last()) as nat
    }
}

/// Unsigned value of bytes given least significant first.
pub open spec fn le_value(s: Seq<u8>) -> nat
    decreases s.len(),
{
    if s.len() == 0 {
        0
    } else {
        (s[0] + 256 * le_value(s.drop_first())) as nat
    }
}

/// Unsigned value of the bytes of one stored sample.
pub open spec fn unsigned_value(w: Seq<u8>, order: ByteOrder) -> nat {
    match order {
        ByteOrder::Big => be_value(w),
        ByteOrder::Little => le_value(w),
    }
}

/// Two's complement value of the bytes of one stored sample.
pub open spec fn signed_value(w: Seq<u8>, order: ByteOrder) -> int {
    let u = unsigned_value(w, order);
    let p = pow256(w.len());
    if 2 * u >= p {
        u - p
    } else {
        u as int
    }
}

/// Exact integer that the bytes of one stored sample hold under type `e`.
pub open spec fn raw_int(e: ElementType, w: Seq<u8>, order: ByteOrder) -> int {
    if spec_is_signed(e) {
        signed_value(w, order)
    } else {
        unsigned_value(w, order) as int
    }
}

/// The bytes of the `k`-th sample of width `w` in `s`.
pub open spec fn window(s: Seq<u8>, k: int, w: int) -> Seq<u8> {
    s.subrange(k * w, k * w + w)
}

/// The sample that the bytes `w` of one stored sample of type `e` hold.
pub open spec fn decode_value(e: ElementType, w: Seq<u8>, order: ByteOrder) -> SampleView {
    match e {
        ElementType::Uint8 | ElementType::Uint16 | ElementType::Uint32 | ElementType::Uint64 =>
            SampleView::Unsigned(unsigned_value(w, order) as u64),
        ElementType::Int8 | ElementType::Int16 | ElementType::Int32 | ElementType::Int64 =>
            SampleView::Signed(signed_value(w, order) as i64),
        ElementType::Float32 => SampleView::Float32Bits(unsigned_value(w, order) as u32),
        ElementType::Float64 => SampleView::Float64Bits(unsigned_value(w, order) as u64),
        ElementType::Text => SampleView::Text(Seq::empty()),
    }
}

/// The integer a decoded integer sample holds (0 for other samples).
pub open spec fn sample_int(v: SampleView) -> int {
    match v {
        SampleView::Unsigned(x) => x as int,
        SampleView::Signed(x) => x as int,
        _ => 0,
    }
}

proof fn lemma_pow256_mono(a: nat, b: nat)
    requires
        a <= b,
    ensures
        pow256(a) <= pow256(b),
    decreases b - a,
{
    if a < b {
        lemma_pow256_mono(a, (b - 1) as nat);
    }
}

proof fn lemma_pow256_values()
    ensures
        pow256(1) == 0x100,
        pow256(2) == 0x1_0000,
        pow256(4) == 0x1_0000_0000,
        pow256(8) == 0x1_0000_0000_0000_0000,
{
    assert(pow256(0) == 1);
    assert(pow256(1) == 0x100);
    assert(pow256(2) == 0x1_0000);
    assert(pow256(3) == 0x100_0000);
    assert(pow256(4) == 0x1_0000_0000);
    assert(pow256(5) == 0x100_0000_0000);
    assert(pow256(6) == 0x1_0000_0000_0000);
    assert(pow256(7) == 0x100_0000_0000_0000);
    assert(pow256(8) == 0x1_0000_0000_0000_0000);
}

/// The unsigned value of `n` bytes is below 256 to the power `n`.
pub proof fn lemma_unsigned_bound(w: Seq<u8>, order: ByteOrder)
    ensures
        unsigned_value(w, order) < pow256(w.len()),
    decreases w.len(),
{
    if w.len() > 0 {
        match order {
            ByteOrder::Big => {
                let d = w.drop_last();
                lemma_unsigned_bound(d, order);
                let v = be_value(d);
                let p = pow256(d.len());
                let b = w.last() as int;
                assert(v * 256 + b < 256 * p) by (nonlinear_arith)
                    requires
                        v < p,
                        0 <= b < 256,
                ;
            },
            ByteOrder::Little => {
                let d = w.drop_first();
                lemma_unsigned_bound(d, order);
                let v = le_value(d);
                let p = pow256(d.len());
                let b = w[0] as int;
                assert(b + 256 * v < 256 * p) by (nonlinear_arith)
                    requires
                        v < p,
                        0 <= b < 256,
                ;
            },
        }
    }
}

fn pow256_exec(width: usize) -> (r: u128)
    requires
        width == 1 || width == 2 || width == 4 || width == 8,
    ensures
        r == pow256(width as nat),
{
    proof {
        lemma_pow256_values();
    }
    if width == 1 {
        0x100
    } else if width == 2 {
        0x1_0000
    } else if width == 4 {
        0x1_0000_0000
    } else {
        0x1_0000_0000_0000_0000
    }
}

/// Reads the unsigned value of the `width` bytes of `raw` from `start`.
pub fn read_unsigned(raw: &Vec<u8>, start: usize, width: usize, order: ByteOrder) -> (r: u64)
    requires
        1 <= width <= 8,
        start + width <= raw@.len(),
    ensures
        r as nat == unsigned_value(raw@.subrange(start as int, start + width), order),
{
    let ghost w = raw@.subrange(start as int, start + width);
    proof {
        lemma_pow256_values();
        lemma_pow256_mono(width as nat, 8);
    }
    let len = raw.len();
    let mut acc: u64 = 0;
    match order {
        ByteOrder::Big => {
            let mut k: usize = 0;
            while k < width
                invariant
                    k <= width <= 8,
                    start + width <= raw@.len() == len,
                    w == raw@.subrange(start as int, start + width),
                    pow256(width as nat) <= pow256(8),
                    pow256(8) == 0x1_0000_0000_0000_0000,
                    acc as nat == be_value(w.subrange(0, k as int)),
                    acc < pow256(k as nat),
                decreases width - k,
            {
                let b = raw[start + k];
                proof {
                    lemma_pow256_mono((k + 1) as nat, 8);
                    let p = pow256(k as nat);
                    let a = acc as int;
                    assert(a * 256 + b < 256 * p) by (nonlinear_arith)
                        requires
                            a < p,
                            0 <= b < 256,
                    ;
                    assert(w.subrange(0, k + 1).drop_last() =~= w.subrange(0, k as int));
                }
                acc = acc * 256 + b as u64;
                k = k + 1;
            }
            proof {
                assert(w.subrange(0, width as int) =~= w);
            }
        },
        ByteOrder::Little => {
            let mut i: usize = width;
            while i > 0
                invariant
                    i <= width <= 8,
                    start + width <= raw@.len() == len,
                    w == raw@.subrange(start as int, start + width),
                    pow256(8) == 0x1_0000_0000_0000_0000,
                    acc as nat == le_value(w.subrange(i as int, width as int)),
                    acc < pow256((width - i) as nat),
                decreases i,
            {
                i = i - 1;
                let b = raw[start + i];
                proof {
                    lemma_pow256_mono((width - i) as nat, 8);
                    let p = pow256((width - i - 1) as nat);
                    let a = acc as int;
                    assert(b + 256 * a < 256 * p) by (nonlinear_arith)
                        requires
                            a < p,
                            0 <= b < 256,
                    ;
                    assert(w.subrange(i as int, width as int).drop_first() =~= w.subrange(
                        i + 1,
                        width as int,
                    ));
                }
                acc = b as u64 + 256 * acc;
            }
            proof {
                assert(w.subrange(0, width as int) =~= w);
            }
        },
    }
    acc
}

/// Reads the two's complement value of the `width` bytes of `raw` from `start`.
pub fn read_signed(raw: &Vec<u8>, start: usize, width: usize, order: ByteOrder) -> (r: i64)
    requires
        width == 1 || width == 2 || width == 4 || width == 8,
        start + width <= raw@.len(),
    ensures
        r as int == signed_value(raw@.subrange(start as int, start + width), order),
{
    let u = read_unsigned(raw, start, width, order);
    let p = pow256_exec(width);
    proof {
        lemma_pow256_values();
        lemma_unsigned_bound(raw@.subrange(start as int, start + width), order);
    }
    if 2 * (u as u128) >= p {
        ((u as i128) - (p as i128)) as i64
    } else {
        u as i64
    }
}

/// Decodes the sample of type `elem` whose bytes start at `start`.
fn decode_one(elem: ElementType, order: ByteOrder, raw: &Vec<u8>, start: usize) -> (r: Sample)
    requires
        elem != ElementType::Text,
        start + spec_width(elem) <= raw@.len(),
    ensures
        r@ == decode_value(elem, raw@.subrange(start as int, start + spec_width(elem)), order),
{
    let width = elem.width();
    match elem {
        ElementType::Uint8 | ElementType::Uint16 | ElementType::Uint32 | ElementType::Uint64 => {
            Sample::Unsigned(read_unsigned(raw, start, width, order))
        },
        ElementType::Int8 | ElementType::Int16 | ElementType::Int32 | ElementType::Int64 => {
            Sample::Signed(read_signed(raw, start, width, order))
        },
        ElementType::Float32 => {
            let u = read_unsigned(raw, start, width, order);
            proof {
                lemma_pow256_values();
                lemma_unsigned_bound(raw@.subrange(start as int, start + width), order);
            }
            Sample::Float32Bits(u as u32)
        },
        ElementType::Float64 => Sample::Float64Bits(read_unsigned(raw, start, width, order)),
        ElementType::Text => Sample::Text(Vec::new()),
    }
}

/// Decodes a packed buffer of samples of the numeric type `elem`, one sample
/// per `width` bytes, in buffer order; trailing bytes short of a whole sample
/// are not read.
pub fn decode_samples(elem: ElementType, order: ByteOrder, raw: &Vec<u8>) -> (r: Vec<Sample>)
    requires
        elem != ElementType::Text,
    ensures
        r@.len() == raw@.len() / spec_width(elem),
        forall|k: int|
            0 <= k < r@.len() ==> #[trigger] r@[k]@ == decode_value(
                elem,
                window(raw@, k, spec_width(elem) as int),
                order,
            ),
{
    let width = elem.width();
    let len = raw.len();
    let n = len / width;
    let mut out: Vec<Sample> = Vec::new();
    let mut k: usize = 0;
    let mut start: usize = 0;
    while k < n
        invariant
            width == spec_width(elem),
            1 <= width <= 8,
            elem != ElementType::Text,
            len == raw@.len(),
            n as int == raw@.len() as int / (width as int),
            k <= n,
            start == k * width,
            out@.len() == k,
            forall|j: int|
                0 <= j < k ==> #[trigger] out@[j]@ == decode_value(
                    elem,
                    window(raw@, j, width as int),
                    order,
                ),
        decreases n - k,
    {
        proof {
            let len = raw@.len() as int;
            let ki = k as int;
            let wi = width as int;
            let ni = n as int;
            assert(ki * wi + wi <= len) by (nonlinear_arith)
                requires
                    0 <= ki < ni,
                    ni == len / wi,
                    wi >= 1,
                    len >= 0,
            ;
        }
        let s = decode_one(elem, order, raw, start);
        out.push(s);
        start = start + width;
        k = k + 1;
        proof {
            assert(start == k * width) by (nonlinear_arith)
                requires
                    start == (k - 1) * width + width,
            ;
        }
    }
    out
}

/// An integer sample holds exactly the integer its stored bytes encode; for
/// types of at most 32 bits that integer lies in [-2^31, 2^32), well inside
/// the range a double holds exactly.
pub proof fn lemma_integer_samples_exact(e: ElementType, w: Seq<u8>, order: ByteOrder)
    requires
        e != ElementType::Text,
        e != ElementType::Float32,
        e != ElementType::Float64,
        w.len() == spec_width(e),
    ensures
        sample_int(decode_value(e, w, order)) == raw_int(e, w, order),
        spec_width(e) <= 4 ==> -0x8000_0000 <= raw_int(e, w, order) < 0x1_0000_0000,
{
    lemma_pow256_values();
    lemma_unsigned_bound(w, order);
    if w.len() <= 4 {
        lemma_pow256_mono(w.len(), 4);
    }
}

/// Index of the first NUL byte of `cell` at or after `i`, or its length.
pub open spec fn first_nul_from(cell: Seq<u8>, i: int) -> int
    decreases cell.len() - i,
{
    if i < 0 || i >= cell.len() {
        cell.len() as int
    } else if cell[i] == 0 {
        i
    } else {
        first_nul_from(cell, i + 1)
    }
}

/// The text of a fixed-length cell: its bytes up to the first NUL, or all of them.
pub open spec fn cell_text_of(cell: Seq<u8>) -> Seq<u8> {
    cell.take(first_nul_from(cell, 0))
}

/// Cuts a fixed-length text cell at its first NUL byte.
pub fn cell_text(cell: &Vec<u8>) -> (r: Vec<u8>)
    ensures
        r@ == cell_text_of(cell@),
        forall|j: int| 0 <= j < r@.len() ==> #[trigger] r@[j] != 0,
{
    let mut out: Vec<u8> = Vec::new();
    let mut i: usize = 0;
    while i < cell.len() && cell[i] != 0
        invariant
            i <= cell@.len(),
            out@ == cell@.take(i as int),
            forall|j: int| 0 <= j < i ==> #[trigger] cell@[j] != 0,
            first_nul_from(cell@, 0) == first_nul_from(cell@, i as int),
        decreases cell@.len() - i,
    {
        out.push(cell[i]);
        i = i + 1;
        proof {
            assert(out@ =~= cell@.take(i as int));
        }
    }
    out
}

} // verus!
