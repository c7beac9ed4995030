//! C struct layout computation: alignment rounding, padding, and a builder
//! that places fields the way a C compiler does for `#[repr(C)]` structs.

use vstd::arithmetic::div_mod::{lemma_fundamental_div_mod, lemma_mod_multiples_basic};
use vstd::arithmetic::power2::{
    lemma2_to64, lemma_pow2_adds, lemma_pow2_pos, lemma_pow2_strictly_increases, pow2,
};
use vstd::bits::lemma_u64_low_bits_mask_is_mod;
use vstd::prelude::*;

verus! {

/// `n` is a power of two.
pub open spec fn is_power_of_two(n: int) -> bool {
    exists|k: nat| pow2(k) == n
}

/// `offset + alignment` fits in a `usize`, so rounding up cannot overflow.
pub open spec fn align_fits(offset: usize, alignment: usize) -> bool {
    alignment == 0 || offset + alignment <= usize::MAX
}

/// The rounding rule: `(offset + alignment - 1) & !(alignment - 1)`,
/// and `offset` itself when the alignment is zero.
pub open spec fn align_to_spec(offset: usize, alignment: usize) -> usize {
    if alignment == 0 {
        offset
    } else {
        ((offset + alignment - 1) as usize) & !((alignment - 1) as usize)
    }
}

proof fn lemma_mask_bounds(y: usize, m: usize)
    ensures
        y & !m <= y,
        y - (y & !m) <= m,
        y & !m == y - (y & m),
        (y & m) as u64 == (y as u64) & (m as u64),
{
    assert(y & !m <= y && y - (y & !m) <= m && y & !m == y - (y & m)) by (bit_vector);
    assert((y & m) as u64 == (y as u64) & (m as u64)) by (bit_vector);
}

/// For `a == 2^k` that fits in 64 bits, masking with `a - 1` is taking the
/// remainder modulo `a`, and clearing those bits leaves a multiple of `a`.
pub proof fn lemma_pow2_low_mask(y: u64, a: u64)
    requires
        is_power_of_two(a as int),
    ensures
        a > 0,
        y & ((a - 1) as u64) == y % a,
        (y - y % a) % (a as int) == 0,
{
    let k = choose|k: nat| pow2(k) == a;
    lemma_pow2_pos(k);
    if k >= 64 {
        lemma2_to64();
        if k > 64 {
            lemma_pow2_strictly_increases(64, k);
        }
        assert(false);
    }
    lemma_u64_low_bits_mask_is_mod(y, k);
    lemma_fundamental_div_mod(y as int, a as int);
    lemma_mod_multiples_basic(y as int / a as int, a as int);
}

proof fn lemma_pow2_mask_multiple(y: usize, a: usize)
    requires
        is_power_of_two(a as int),
    ensures
        (y & !((a - 1) as usize)) % a == 0,
{
    let m = (a - 1) as usize;
    lemma_pow2_low_mask(y as u64, a as u64);
    lemma_mask_bounds(y, m);
}

/// What rounding up gives, for every alignment: never below `offset`, and
/// less than one alignment above it; for a power of two, the smallest
/// multiple of the alignment that is at least `offset`.
pub proof fn lemma_align_to_bounds(offset: usize, alignment: usize)
    requires
        align_fits(offset, alignment),
    ensures
        offset <= align_to_spec(offset, alignment),
        alignment > 0 ==> align_to_spec(offset, alignment) < offset + alignment,
        is_power_of_two(alignment as int) ==> align_to_spec(offset, alignment) % alignment == 0,
{
    if alignment > 0 {
        let y = (offset + alignment - 1) as usize;
        let m = (alignment - 1) as usize;
        lemma_mask_bounds(y, m);
        if is_power_of_two(alignment as int) {
            lemma_pow2_mask_multiple(y, alignment);
        }
    } else if is_power_of_two(0) {
        lemma_pow2_pos(choose|k: nat| pow2(k) == 0);
    }
}

/// Align `offset` up to the given alignment boundary.
pub fn align_to(offset: usize, alignment: usize) -> (r: usize)
    requires
        align_fits(offset, alignment),
    ensures
        r == align_to_spec(offset, alignment),
        offset <= r,
        alignment > 0 ==> r < offset + alignment,
        is_power_of_two(alignment as int) ==> r % alignment == 0,
{
    proof {
        lemma_align_to_bounds(offset, alignment);
    }
    if alignment == 0 {
        return offset;
    }
    (offset + alignment - 1) & !(alignment - 1)
}

/// Compute padding needed between `offset` and the next aligned position.
pub fn compute_padding(offset: usize, alignment: usize) -> (r: usize)
    requires
        align_fits(offset, alignment),
    ensures
        r == align_to_spec(offset, alignment) - offset,
        alignment > 0 ==> r < alignment,
        is_power_of_two(alignment as int) ==> (offset + r) % (alignment as int) == 0,
{
    let aligned = align_to(offset, alignment);
    aligned - offset
}

/// Description of a single field in a C-compatible struct.
#[derive(Debug, Clone)]
pub struct FieldLayout {
    pub name: String,
    pub field_type: String,
    pub size: usize,
    pub alignment: usize,
    pub offset: usize,
}

/// Computed layout of a C-compatible struct.
#[derive(Debug, Clone)]
pub struct StructLayout {
    pub name: String,
    pub fields: Vec<FieldLayout>,
    pub total_size: usize,
    pub alignment: usize,
    pub padding: usize,
}

/// Where the last field ends (its offset plus its size); zero with no fields.
pub open spec fn fields_end(fields: Seq<FieldLayout>) -> int {
    if fields.len() == 0 {
        0
    } else {
        fields.last().offset + fields.last().size
    }
}

/// Every field starts where rounding the end of the previous field up to
/// the field's alignment puts it, and no position overflows a `usize`.
pub open spec fn fields_placed(fields: Seq<FieldLayout>) -> bool
    decreases fields.len(),
{
    if fields.len() == 0 {
        true
    } else {
        let prev = fields.drop_last();
        let f = fields.last();
        &&& fields_placed(prev)
        &&& align_fits(fields_end(prev) as usize, f.alignment)
        &&& f.offset == align_to_spec(fields_end(prev) as usize, f.alignment)
        &&& f.offset + f.size <= usize::MAX
    }
}

/// The largest field alignment, and at least 1.
pub open spec fn max_alignment(fields: Seq<FieldLayout>) -> int
    decreases fields.len(),
{
    if fields.len() == 0 {
        1
    } else {
        let m = max_alignment(fields.drop_last());
        if fields.last().alignment > m {
            fields.last().alignment as int
        } else {
            m
        }
    }
}

/// The sum of the field sizes.
pub open spec fn sum_sizes(fields: Seq<FieldLayout>) -> int
    decreases fields.len(),
{
    if fields.len() == 0 {
        0
    } else {
        sum_sizes(fields.drop_last()) + fields.last().size
    }
}

/// Every field's alignment is a power of two.
pub open spec fn all_power_of_two_alignments(fields: Seq<FieldLayout>) -> bool {
    forall|i: int| 0 <= i < fields.len() ==> is_power_of_two(#[trigger] fields[i].alignment as int)
}

proof fn lemma_end_bounds(fields: Seq<FieldLayout>)
    requires
        fields_placed(fields),
    ensures
        0 <= fields_end(fields) <= usize::MAX,
        sum_sizes(fields) <= fields_end(fields),
        1 <= max_alignment(fields) <= usize::MAX,
    decreases fields.len(),
{
    if fields.len() > 0 {
        let prev = fields.drop_last();
        lemma_end_bounds(prev);
        lemma_align_to_bounds(fields_end(prev) as usize, fields.last().alignment);
    }
}

proof fn lemma_prefix_placed(fields: Seq<FieldLayout>, i: int)
    requires
        fields_placed(fields),
        0 <= i <= fields.len(),
    ensures
        fields_placed(fields.take(i)),
        fields_end(fields.take(i)) <= fields_end(fields),
    decreases fields.len(),
{
    if i == fields.len() {
        assert(fields.take(i) =~= fields);
    } else {
        let prev = fields.drop_last();
        assert(fields.take(i) =~= prev.take(i));
        lemma_prefix_placed(prev, i);
        lemma_end_bounds(prev);
        lemma_align_to_bounds(fields_end(prev) as usize, fields.last().alignment);
    }
}

/// Rounding an offset that is already a multiple of a power-of-two
/// alignment leaves it unchanged; in particular rounding twice is rounding once.
pub proof fn law_align_to_fixed_point(offset: usize, alignment: usize)
    requires
        is_power_of_two(alignment as int),
        align_fits(offset, alignment),
    ensures
        offset % alignment == 0 ==> align_to_spec(offset, alignment) == offset,
        align_fits(align_to_spec(offset, alignment), alignment) ==> align_to_spec(
            align_to_spec(offset, alignment),
            alignment,
        ) == align_to_spec(offset, alignment),
{
    lemma_pow2_low_mask(0, alignment as u64);
    lemma_align_to_bounds(offset, alignment);
    let r = align_to_spec(offset, alignment);
    if offset % alignment == 0 {
        lemma_multiples_close(offset as int, r as int, alignment as int);
    }
    if align_fits(r, alignment) {
        lemma_align_to_bounds(r, alignment);
        lemma_multiples_close(r as int, align_to_spec(r, alignment) as int, alignment as int);
    }
}

proof fn lemma_multiples_close(x: int, y: int, a: int)
    requires
        a > 0,
        x % a == 0,
        y % a == 0,
        x <= y < x + a,
    ensures
        x == y,
{
    lemma_fundamental_div_mod(x, a);
    lemma_fundamental_div_mod(y, a);
    assert(x == y) by (nonlinear_arith)
        requires
            a > 0,
            x == a * (x / a),
            y == a * (y / a),
            x <= y < x + a,
    ;
}

proof fn lemma_field_within_end(fields: Seq<FieldLayout>, i: int)
    requires
        fields_placed(fields),
        0 <= i < fields.len(),
    ensures
        fields[i].offset + fields[i].size <= fields_end(fields),
    decreases fields.len(),
{
    if i < fields.len() - 1 {
        let prev = fields.drop_last();
        lemma_field_within_end(prev, i);
        lemma_end_bounds(prev);
        lemma_align_to_bounds(fields_end(prev) as usize, fields.last().alignment);
    }
}

/// Fields come in order and never overlap: a field ends at or before the
/// offset of every field added after it.
pub proof fn law_fields_do_not_overlap(fields: Seq<FieldLayout>, i: int, j: int)
    requires
        fields_placed(fields),
        0 <= i < j < fields.len(),
    ensures
        fields[i].offset + fields[i].size <= fields[j].offset,
{
    let upto = fields.take(j + 1);
    lemma_prefix_placed(fields, j + 1);
    let prev = upto.drop_last();
    assert(prev =~= fields.take(j));
    lemma_end_bounds(prev);
    lemma_align_to_bounds(fields_end(prev) as usize, fields[j].alignment);
    lemma_field_within_end(prev, i);
}

/// A field whose alignment is a power of two sits at a multiple of it.
pub proof fn law_field_offset_aligned(fields: Seq<FieldLayout>, i: int)
    requires
        fields_placed(fields),
        0 <= i < fields.len(),
        is_power_of_two(fields[i].alignment as int),
    ensures
        fields[i].offset % fields[i].alignment == 0,
{
    let upto = fields.take(i + 1);
    lemma_prefix_placed(fields, i + 1);
    let prev = upto.drop_last();
    lemma_end_bounds(prev);
    lemma_align_to_bounds(fields_end(prev) as usize, fields[i].alignment);
}

/// The struct alignment is at least 1 and at least every field's alignment;
/// when every field alignment is a power of two, so is the struct alignment,
/// and it is a multiple of each field's alignment.
pub proof fn law_max_alignment(fields: Seq<FieldLayout>)
    ensures
        max_alignment(fields) >= 1,
        forall|i: int|
            0 <= i < fields.len() ==> #[trigger] fields[i].alignment <= max_alignment(fields),
        all_power_of_two_alignments(fields) ==> is_power_of_two(max_alignment(fields)),
        all_power_of_two_alignments(fields) ==> forall|i: int|
            0 <= i < fields.len() ==> max_alignment(fields) % (#[trigger] fields[i].alignment as int)
                == 0,
    decreases fields.len(),
{
    if fields.len() > 0 {
        let prev = fields.drop_last();
        law_max_alignment(prev);
        assert forall|i: int| 0 <= i < fields.len() implies #[trigger] fields[i].alignment
            <= max_alignment(fields) by {
            if i < prev.len() {
                assert(prev[i] == fields[i]);
            }
        }
        if all_power_of_two_alignments(fields) {
            assert(all_power_of_two_alignments(prev)) by {
                assert forall|i: int| 0 <= i < prev.len() implies is_power_of_two(
                    #[trigger] prev[i].alignment as int,
                ) by {
                    assert(prev[i] == fields[i]);
                }
            }
            assert(is_power_of_two(fields.last().alignment as int)) by {
                assert(fields[fields.len() - 1] == fields.last());
            }
            assert forall|i: int| 0 <= i < fields.len() implies max_alignment(fields) % (
            #[trigger] fields[i].alignment as int) == 0 by {
                assert(is_power_of_two(fields[i].alignment as int));
                lemma_pow2_divides(fields[i].alignment as int, max_alignment(fields));
            }
        }
    } else {
        lemma_pow2_zero_is_one();
    }
}

/// The struct alignment is the least bound of the field alignments that is at
/// least 1: it is 1 for a struct without fields, it is never below a field's
/// alignment, and it is either 1 or the alignment of some field.
pub proof fn law_struct_alignment_is_least_bound(fields: Seq<FieldLayout>)
    ensures
        fields.len() == 0 ==> max_alignment(fields) == 1,
        max_alignment(fields) >= 1,
        forall|i: int|
            0 <= i < fields.len() ==> #[trigger] fields[i].alignment <= max_alignment(fields),
        max_alignment(fields) == 1 || exists|i: int|
            0 <= i < fields.len() && max_alignment(fields) == #[trigger] fields[i].alignment,
    decreases fields.len(),
{
    law_max_alignment(fields);
    if fields.len() > 0 {
        let prev = fields.drop_last();
        law_struct_alignment_is_least_bound(prev);
        let last = fields.len() - 1;
        assert(fields[last] == fields.last());
        if max_alignment(fields) != 1 {
            if fields.last().alignment > max_alignment(prev) {
                assert(max_alignment(fields) == fields[last].alignment);
            } else {
                let i = choose|i: int|
                    0 <= i < prev.len() && max_alignment(prev) == #[trigger] prev[i].alignment;
                assert(prev[i] == fields[i]);
                assert(max_alignment(fields) == fields[i].alignment);
            }
        }
    }
}

/// When every field alignment is a power of two, a struct size that is a
/// multiple of the struct alignment is a multiple of every field alignment,
/// so each field stays aligned in every element of an array of the struct.
pub proof fn law_size_multiple_keeps_fields_aligned(fields: Seq<FieldLayout>, total_size: int)
    requires
        all_power_of_two_alignments(fields),
        total_size % max_alignment(fields) == 0,
    ensures
        forall|i: int|
            0 <= i < fields.len() ==> total_size % (#[trigger] fields[i].alignment as int) == 0,
{
    law_max_alignment(fields);
    let m = max_alignment(fields);
    assert forall|i: int| 0 <= i < fields.len() implies total_size % (
    #[trigger] fields[i].alignment as int) == 0 by {
        let a = fields[i].alignment as int;
        assert(m % a == 0);
        lemma_pow2_low_mask(0, a as u64);
        lemma_mod_of_multiple(total_size, m, a);
    }
}

proof fn lemma_mod_of_multiple(t: int, m: int, a: int)
    requires
        m > 0,
        a > 0,
        t % m == 0,
        m % a == 0,
    ensures
        t % a == 0,
{
    lemma_fundamental_div_mod(t, m);
    lemma_fundamental_div_mod(m, a);
    let q1 = t / m;
    let q2 = m / a;
    assert(t == a * (q2 * q1)) by (nonlinear_arith)
        requires
            t == m * q1,
            m == a * q2,
    ;
    lemma_mod_multiples_basic(q2 * q1, a);
    assert((q2 * q1) * a == a * (q2 * q1)) by (nonlinear_arith);
}

proof fn lemma_pow2_zero_is_one()
    ensures
        is_power_of_two(1),
{
    lemma2_to64();
    assert(pow2(0) == 1);
}

/// A smaller power of two divides a larger one.
proof fn lemma_pow2_divides(a: int, b: int)
    requires
        is_power_of_two(a),
        is_power_of_two(b),
        a <= b,
    ensures
        b % a == 0,
{
    let i = choose|k: nat| pow2(k) == a;
    let j = choose|k: nat| pow2(k) == b;
    if j < i {
        lemma_pow2_strictly_increases(j, i);
    }
    let d = (j - i) as nat;
    lemma_pow2_adds(i, d);
    assert(i + d == j);
    lemma_pow2_pos(i);
    lemma_mod_multiples_basic(pow2(d) as int, a);
    assert(b == pow2(d) * a) by (nonlinear_arith)
        requires
            b == pow2(i) * pow2(d),
            a == pow2(i),
    ;
}

/// Builder for computing struct layouts with proper C alignment and padding.
pub struct StructLayoutBuilder {
    name: String,
    fields: Vec<FieldLayout>,
    current_offset: usize,
    max_align: usize,
}

impl StructLayoutBuilder {
    /// The struct's name.
    pub closed spec fn name_view(&self) -> Seq<char> {
        self.name@
    }

    /// The fields placed so far, in order.
    pub closed spec fn fields_view(&self) -> Seq<FieldLayout> {
        self.fields@
    }

    /// The running offset and largest alignment agree with the placed fields.
    pub closed spec fn wf(&self) -> bool {
        &&& fields_placed(self.fields@)
        &&& self.current_offset == fields_end(self.fields@)
        &&& self.max_align == max_alignment(self.fields@)
    }

    /// Where a next field of the given alignment would be placed.
    pub open spec fn next_offset(&self, alignment: usize) -> usize {
        align_to_spec(fields_end(self.fields_view()) as usize, alignment)
    }

    pub fn new(name: &str) -> (r: Self)
        ensures
            r.wf(),
            r.name_view() == name@,
            r.fields_view() == Seq::<FieldLayout>::empty(),
    {
        StructLayoutBuilder {
            name: String::from_str(name),
            fields: Vec::new(),
            current_offset: 0,
            max_align: 1,
        }
    }

    /// Add a field with the given type info, size, and alignment.
    /// Automatically inserts padding for alignment.
    pub fn add_field(&mut self, name: &str, field_type: &str, size: usize, alignment: usize)
        requires
            old(self).wf(),
            align_fits(fields_end(old(self).fields_view()) as usize, alignment),
            old(self).next_offset(alignment) + size <= usize::MAX,
        ensures
            final(self).wf(),
            fields_placed(final(self).fields_view()),
            final(self).name_view() == old(self).name_view(),
            final(self).fields_view().len() == old(self).fields_view().len() + 1,
            final(self).fields_view().drop_last() == old(self).fields_view(),
            final(self).fields_view().last().name@ == name@,
            final(self).fields_view().last().field_type@ == field_type@,
            final(self).fields_view().last().size == size,
            final(self).fields_view().last().alignment == alignment,
            final(self).fields_view().last().offset == old(self).next_offset(alignment),
            fields_end(old(self).fields_view()) <= final(self).fields_view().last().offset,
            alignment > 0 ==> final(self).fields_view().last().offset < fields_end(
                old(self).fields_view(),
            ) + alignment,
            is_power_of_two(alignment as int) ==> final(self).fields_view().last().offset
                % alignment == 0,
    {
        proof {
            lemma_end_bounds(self.fields@);
        }
        let _padding = compute_padding(self.current_offset, alignment);
        let offset = align_to(self.current_offset, alignment);
        let ghost prev = self.fields@;
        self.fields.push(
            FieldLayout {
                name: String::from_str(name),
                field_type: String::from_str(field_type),
                size,
                alignment,
                offset,
            },
        );
        self.current_offset = offset + size;
        if alignment > self.max_align {
            self.max_align = alignment;
        }
        proof {
            assert(self.fields@.drop_last() =~= prev);
        }
    }

    /// Finalize the layout, computing total size with trailing padding.
    pub fn build(self) -> (r: StructLayout)
        requires
            self.wf(),
            align_fits(
                fields_end(self.fields_view()) as usize,
                max_alignment(self.fields_view()) as usize,
            ),
        ensures
            r.name@ == self.name_view(),
            r.fields@ == self.fields_view(),
            r.alignment == max_alignment(self.fields_view()),
            r.total_size == align_to_spec(fields_end(self.fields_view()) as usize, r.alignment),
            r.padding == r.total_size - sum_sizes(self.fields_view()),
            fields_end(self.fields_view()) <= r.total_size,
            is_power_of_two(r.alignment as int) ==> r.total_size % r.alignment == 0,
            r.alignment >= 1,
            forall|i: int|
                0 <= i < r.fields@.len() ==> #[trigger] r.fields@[i].alignment <= r.alignment,
            r.alignment == 1 || exists|i: int|
                0 <= i < r.fields@.len() && r.alignment == #[trigger] r.fields@[i].alignment,
            r.fields@.len() == 0 ==> r.alignment == 1 && r.total_size == 0 && r.padding == 0,
    {
        proof {
            lemma_end_bounds(self.fields@);
            law_struct_alignment_is_least_bound(self.fields@);
            if self.fields@.len() == 0 {
                lemma_align_to_bounds(0, 1);
            }
        }
        let total_size = align_to(self.current_offset, self.max_align);
        let mut sum: usize = 0;
        let n = self.fields.len();
        let mut i: usize = 0;
        while i < n
            invariant
                n == self.fields@.len(),
                0 <= i <= n,
                fields_placed(self.fields@),
                sum == sum_sizes(self.fields@.take(i as int)),
                fields_end(self.fields@) <= total_size,
            decreases n - i,
        {
            proof {
                lemma_prefix_placed(self.fields@, i + 1);
                lemma_end_bounds(self.fields@.take(i + 1));
                assert(self.fields@.take(i + 1).drop_last() =~= self.fields@.take(i as int));
            }
            sum = sum + self.fields[i].size;
            i = i + 1;
        }
        proof {
            assert(self.fields@.take(n as int) =~= self.fields@);
        }
        let padding = total_size - sum;
        let ghost fs = self.fields@;
        let r = StructLayout {
            name: self.name,
            fields: self.fields,
            total_size,
            alignment: self.max_align,
            padding,
        };
        proof {
            if r.alignment != 1 {
                let i = choose|i: int|
                    0 <= i < fs.len() && max_alignment(fs) == #[trigger] fs[i].alignment;
                assert(r.fields@[i].alignment == r.alignment);
            }
        }
        r
    }
}

} // verus!
