//! A dirfile as the format engine reports it, and the typed fetch of a field.
use vstd::prelude::*;

use crate::decode::{
    cell_text, cell_text_of, decode_samples, decode_value, unsigned_value, window, ByteOrder, Sample,
    SampleView,
};
use crate::element::{spec_from_tag, spec_width, ElementType, GD_FLOAT64};

verus! {

/// One field: its name, element type tag, samples per frame, and stored data.
pub struct Field {
    pub name: String,
    pub tag: u32,
    pub spf: u32,
    /// Stored samples of a numeric field, packed, in the dirfile's byte order.
    pub raw: Vec<u8>,
    /// Stored cells of a text field, one per sample.
    pub cells: Vec<Vec<u8>>,
}

/// A dirfile: its frame count, the byte order of its stored samples, and its fields.
pub struct Dirfile {
    pub nframes: i64,
    pub order: ByteOrder,
    pub fields: Vec<Field>,
}

/// Index of the first field at or after `i` whose name is `name`.
pub open spec fn find_from(fields: Seq<Field>, name: Seq<char>, i: int) -> Option<int>
    decreases fields.len() - i,
{
    if i < 0 || i >= fields.len() {
        None
    } else if fields[i].name@ == name {
        Some(i)
    } else {
        find_from(fields, name, i + 1)
    }
}

/// A found index names a field of that name, and none before it from `i` on.
pub proof fn lemma_find_from(fields: Seq<Field>, name: Seq<char>, i: int)
    requires
        0 <= i,
    ensures
        match find_from(fields, name, i) {
            None => forall|j: int| i <= j < fields.len() ==> #[trigger] fields[j].name@ != name,
            Some(j) => {
                &&& 0 <= i <= j < fields.len()
                &&& fields[j].name@ == name
                &&& forall|l: int| i <= l < j ==> #[trigger] fields[l].name@ != name
            },
        },
    decreases fields.len() - i,
{
    if 0 <= i < fields.len() && fields[i].name@ != name {
        lemma_find_from(fields, name, i + 1);
    }
}

/// Number of samples a fetch returns for a field of type `e`: frames times
/// samples per frame, when the frame count is not negative and the sample
/// count and the buffer of stored samples fit in memory.
pub open spec fn sample_count(nframes: i64, spf: u32, e: ElementType) -> Option<nat> {
    if nframes < 0 {
        None
    } else {
        let total = nframes * spf;
        if total > usize::MAX || total * spec_width(e) > usize::MAX {
            None
        } else {
            Some(total as nat)
        }
    }
}

/// Computes the number of samples a fetch of a field of type `elem` returns;
/// `None` for a negative frame count or a geometry that does not fit in memory.
pub fn total_samples(nframes: i64, spf: u32, elem: ElementType) -> (r: Option<usize>)
    ensures
        match r {
            None => sample_count(nframes, spf, elem) is None,
            Some(t) => sample_count(nframes, spf, elem) == Some(t as nat),
        },
{
    if nframes < 0 {
        return None;
    }
    let frames = nframes as u64;
    let per = spf as u64;
    let w = elem.width() as u64;
    match frames.checked_mul(per) {
        None => None,
        Some(total) => {
            if total > usize::MAX as u64 {
                return None;
            }
            match total.checked_mul(w) {
                None => None,
                Some(bytes) => {
                    if bytes > usize::MAX as u64 {
                        None
                    } else {
                        Some(total as usize)
                    }
                },
            }
        },
    }
}

/// What a fetch of a field with this tag and geometry reads: its element type
/// and the number of samples; `None` where it reads nothing.
pub open spec fn spec_plan_fetch(tag: u32, nframes: i64, spf: u32) -> Option<(ElementType, nat)> {
    match spec_from_tag(tag) {
        None => None,
        Some(e) => match sample_count(nframes, spf, e) {
            None => None,
            Some(t) => Some((e, t)),
        },
    }
}

/// Plans the fetch of a field from its tag, the frame count and its samples
/// per frame: the element type to decode and how many samples to read.
pub fn plan_fetch(tag: u32, nframes: i64, spf: u32) -> (r: Option<(ElementType, usize)>)
    ensures
        match r {
            None => spec_plan_fetch(tag, nframes, spf) is None,
            Some((e, t)) => spec_plan_fetch(tag, nframes, spf) == Some((e, t as nat)),
        },
{
    match ElementType::from_tag(tag) {
        None => None,
        Some(e) => match total_samples(nframes, spf, e) {
            None => None,
            Some(t) => Some((e, t)),
        },
    }
}

/// A zero-initialized buffer of `n` bytes into which the stored bytes have
/// been written, as far as there are any.
pub open spec fn filled(raw: Seq<u8>, n: nat) -> Seq<u8> {
    Seq::new(n, |j: int| if j < raw.len() { raw[j] } else { 0u8 })
}

/// Builds a zero-initialized buffer of `n` bytes and writes the stored bytes into it.
fn fill_buffer(raw: &Vec<u8>, n: usize) -> (r: Vec<u8>)
    ensures
        r@ == filled(raw@, n as nat),
{
    let mut out: Vec<u8> = Vec::new();
    let mut j: usize = 0;
    while j < n
        invariant
            j <= n,
            out@ == filled(raw@, j as nat),
        decreases n - j,
    {
        if j < raw.len() {
            out.push(raw[j]);
        } else {
            out.push(0u8);
        }
        j = j + 1;
        proof {
            assert(out@ =~= filled(raw@, j as nat));
        }
    }
    out
}

/// The `k`-th stored cell, or an empty cell where none is stored.
pub open spec fn cell_at(cells: Seq<Vec<u8>>, k: int) -> Seq<u8> {
    if k < cells.len() {
        cells[k]@
    } else {
        Seq::empty()
    }
}

/// What fetching a field of type `e` returns, `total` samples long.
pub open spec fn field_samples(f: Field, e: ElementType, total: nat, order: ByteOrder) -> Seq<
    SampleView,
> {
    if e == ElementType::Text {
        Seq::new(total, |k: int| SampleView::Text(cell_text_of(cell_at(f.cells@, k))))
    } else {
        let w = spec_width(e);
        let buf = filled(f.raw@, total * w);
        Seq::new(total, |k: int| decode_value(e, window(buf, k, w as int), order))
    }
}

/// Cuts each of the first `total` stored cells at its terminator.
fn text_samples(cells: &Vec<Vec<u8>>, total: usize) -> (r: Vec<Sample>)
    ensures
        views(r@) == Seq::new(
            total as nat,
            |k: int| SampleView::Text(cell_text_of(cell_at(cells@, k))),
        ),
{
    let mut out: Vec<Sample> = Vec::new();
    let mut k: usize = 0;
    while k < total
        invariant
            k <= total,
            views(out@) == Seq::new(
                k as nat,
                |j: int| SampleView::Text(cell_text_of(cell_at(cells@, j))),
            ),
        decreases total - k,
    {
        let t = if k < cells.len() {
            cell_text(&cells[k])
        } else {
            let empty: Vec<u8> = Vec::new();
            cell_text(&empty)
        };
        proof {
            assert(t@ == cell_text_of(cell_at(cells@, k as int)));
        }
        let ghost prev = out@;
        let s = Sample::Text(t);
        let ghost sv = s;
        out.push(s);
        k = k + 1;
        proof {
            assert(views(prev).len() == prev.len());
            assert(out@ == prev.push(sv));
            assert forall|j: int| 0 <= j < k - 1 implies #[trigger] views(out@)[j] == views(prev)[j] by {
                assert(out@[j] == prev[j]);
            }
            assert(views(out@) =~= Seq::new(
                k as nat,
                |j: int| SampleView::Text(cell_text_of(cell_at(cells@, j))),
            ));
        }
    }
    out
}

/// The views of a sequence of samples.
pub open spec fn views(s: Seq<Sample>) -> Seq<SampleView> {
    s.map_values(|x: Sample| x@)
}

/// A field found under a recognized tag, whose geometry can be held, gives
/// exactly frames times samples per frame samples.
pub proof fn lemma_fetch_length(d: Dirfile, name: Seq<char>)
    requires
        find_from(d.fields@, name, 0) is Some,
        spec_from_tag(d.fields@[find_from(d.fields@, name, 0)->0].tag) is Some,
        sample_count(
            d.nframes,
            d.fields@[find_from(d.fields@, name, 0)->0].spf,
            spec_from_tag(d.fields@[find_from(d.fields@, name, 0)->0].tag)->0,
        ) is Some,
    ensures
        d.spec_get_data(name).len() == d.nframes * d.fields@[find_from(d.fields@, name, 0)->0].spf,
{
}

/// A 64-bit float field passes its stored samples through bit for bit: each
/// sample is the bit pattern its eight stored bytes hold.
pub proof fn lemma_float64_bit_identical(d: Dirfile, name: Seq<char>, k: int)
    requires
        find_from(d.fields@, name, 0) is Some,
        d.fields@[find_from(d.fields@, name, 0)->0].tag == GD_FLOAT64,
        sample_count(d.nframes, d.fields@[find_from(d.fields@, name, 0)->0].spf, ElementType::Float64) is Some,
        0 <= k < d.spec_get_data(name).len(),
        8 * k + 8 <= d.fields@[find_from(d.fields@, name, 0)->0].raw@.len(),
    ensures
        d.spec_get_data(name)[k] == SampleView::Float64Bits(
            unsigned_value(
                d.fields@[find_from(d.fields@, name, 0)->0].raw@.subrange(8 * k, 8 * k + 8),
                d.order,
            ) as u64,
        ),
{
    let f = d.fields@[find_from(d.fields@, name, 0)->0];
    let total = sample_count(d.nframes, f.spf, ElementType::Float64)->0;
    let buf = filled(f.raw@, total * 8);
    assert(window(buf, k, 8) =~= f.raw@.subrange(8 * k, 8 * k + 8));
}

/// A field whose tag is not recognized gives no samples at all.
pub proof fn lemma_unknown_tag_empty(d: Dirfile, name: Seq<char>)
    requires
        find_from(d.fields@, name, 0) is Some,
        spec_from_tag(d.fields@[find_from(d.fields@, name, 0)->0].tag) is None,
    ensures
        d.spec_get_data(name).len() == 0,
{
}

/// A name that no field has gives no samples.
pub proof fn lemma_missing_field_empty(d: Dirfile, name: Seq<char>)
    requires
        forall|i: int| 0 <= i < d.fields@.len() ==> #[trigger] d.fields@[i].name@ != name,
    ensures
        d.spec_get_data(name).len() == 0,
{
    lemma_find_from(d.fields@, name, 0);
}

/// Fetching a field twice from the same dirfile gives the same samples.
pub proof fn lemma_fetch_repeatable(d: Dirfile, name: Seq<char>, first: Seq<Sample>, second: Seq<Sample>)
    requires
        views(first) == d.spec_get_data(name),
        views(second) == d.spec_get_data(name),
    ensures
        views(first) == views(second),
{
}

impl Dirfile {
    /// What fetching the field named `name` returns: nothing for an unknown
    /// name, an unrecognized tag, or a geometry that cannot be held.
    pub open spec fn spec_get_data(&self, name: Seq<char>) -> Seq<SampleView> {
        match find_from(self.fields@, name, 0) {
            None => Seq::empty(),
            Some(i) => {
                let f = self.fields@[i];
                match spec_from_tag(f.tag) {
                    None => Seq::empty(),
                    Some(e) => match sample_count(self.nframes, f.spf, e) {
                        None => Seq::empty(),
                        Some(total) => field_samples(f, e, total, self.order),
                    },
                }
            },
        }
    }

    /// A dirfile with the given frame count, byte order and fields.
    pub fn new(nframes: i64, order: ByteOrder, fields: Vec<Field>) -> (r: Dirfile)
        ensures
            r.nframes == nframes,
            r.order == order,
            r.fields == fields,
    {
        Dirfile { nframes, order, fields }
    }

    /// Index of the first field named `name`.
    fn find_field(&self, name: &str) -> (r: Option<usize>)
        ensures
            match r {
                None => find_from(self.fields@, name@, 0) is None,
                Some(i) => find_from(self.fields@, name@, 0) == Some(i as int),
            },
            r matches Some(i) ==> i < self.fields@.len(),
    {
        proof {
            lemma_find_from(self.fields@, name@, 0);
        }
        let key = name.to_owned();
        let mut i: usize = 0;
        while i < self.fields.len()
            invariant
                i <= self.fields@.len(),
                key@ == name@,
                find_from(self.fields@, name@, 0) == find_from(self.fields@, name@, i as int),
            decreases self.fields@.len() - i,
        {
            if self.fields[i].name == key {
                return Some(i);
            }
            i = i + 1;
        }
        None
    }

    /// Fetches every sample of the field named `field` in sample order:
    /// frames times samples per frame of them. Numeric samples are decoded
    /// from a zero-initialized buffer into which the stored bytes are
    /// written; text samples are the stored cells cut at their terminator.
    /// An unknown field, an unrecognized tag, or a geometry that cannot be
    /// held gives an empty vector.
    pub fn get_data(&self, field: &str) -> (r: Vec<Sample>)
        ensures
            views(r@) == self.spec_get_data(field@),
    {
        let i = match self.find_field(field) {
            None => {
                return Vec::new();
            },
            Some(i) => i,
        };
        let f = &self.fields[i];
        let (elem, total) = match plan_fetch(f.tag, self.nframes, f.spf) {
            None => {
                return Vec::new();
            },
            Some(p) => p,
        };
        if elem == ElementType::Text {
            text_samples(&f.cells, total)
        } else {
            let w = elem.width();
            proof {
                assert(total * w <= usize::MAX);
            }
            let buf = fill_buffer(&f.raw, total * w);
            let r = decode_samples(elem, self.order, &buf);
            proof {
                let wi = w as int;
                let ti = total as int;
                assert((ti * wi) / wi == ti) by (nonlinear_arith)
                    requires
                        wi >= 1,
                ;
                assert(views(r@) =~= field_samples(*f, elem, total as nat, self.order));
            }
            r
        }
    }

    /// Number of fields.
    pub fn nfields(&self) -> (r: u32)
        requires
            self.fields@.len() <= u32::MAX,
        ensures
            r == self.fields@.len(),
    {
        self.fields.len() as u32
    }

    /// Number of frames, as the engine reports it.
    pub fn nframes(&self) -> (r: i64)
        ensures
            r == self.nframes,
    {
        self.nframes
    }

    /// Samples per frame of the field named `field`; 0 where there is none.
    pub fn spf(&self, field: &str) -> (r: u32)
        ensures
            match find_from(self.fields@, field@, 0) {
                None => r == 0,
                Some(i) => r == self.fields@[i].spf,
            },
    {
        match self.find_field(field) {
            None => 0,
            Some(i) => self.fields[i].spf,
        }
    }

    /// Element type tag of the field named `field`; 0 where there is none.
    pub fn field_type(&self, field: &str) -> (r: u32)
        ensures
            match find_from(self.fields@, field@, 0) {
                None => r == 0,
                Some(i) => r == self.fields@[i].tag,
            },
    {
        match self.find_field(field) {
            None => 0,
            Some(i) => self.fields[i].tag,
        }
    }
}

} // verus!
