//! Columnar row-set buffers: one text buffer per column, each holding a
//! batch of rows with a length or null indicator per row.
use vstd::prelude::*;
use crate::transfer::Indicator;
use vstd::string::StringSliceAdditionalSpecFns;
use vstd::utf8::valid_utf8;

verus! {

/// The indicator value that marks a null entry.
pub const NULL_DATA: isize = -1;

/// The indicator value that marks an entry of unknown length.
pub const NO_TOTAL: isize = -4;

/// The indicator that a raw indicator value stands for.
pub open spec fn indicator_of(raw: isize) -> Indicator {
    if raw == NULL_DATA {
        Indicator::Null
    } else if raw == NO_TOTAL {
        Indicator::NoTotal
    } else {
        Indicator::Length(raw as usize)
    }
}

/// A raw indicator value that some indicator stands for.
pub open spec fn raw_indicator_ok(raw: isize) -> bool {
    raw == NULL_DATA || raw == NO_TOTAL || raw >= 0
}

/// Why a text buffer cannot be made.
#[derive(Clone, Copy, Debug, PartialEq, Eq, Structural)]
pub enum BufferError {
    /// The buffer for column `buffer_index` would need more than the address space.
    TooLargeColumnBufferSize { buffer_index: u16, num_elements: usize, element_size: usize },
}

/// A text column buffer: `capacity` entries of up to `max_str_len` bytes,
/// each followed by a terminating zero, and an indicator per entry.
#[derive(Debug)]
pub struct TextColumn {
    max_str_len: usize,
    values: Vec<u8>,
    indicators: Vec<isize>,
}

impl TextColumn {
    /// The longest entry, in bytes.
    pub closed spec fn spec_max_len(&self) -> nat {
        self.max_str_len as nat
    }

    /// The number of entries.
    pub closed spec fn spec_capacity(&self) -> nat {
        self.indicators@.len()
    }

    /// The raw indicator of each entry.
    pub closed spec fn raw_indicators(&self) -> Seq<isize> {
        self.indicators@
    }

    /// The bytes of the entry at `row`: as long as its indicator says, at
    /// most the maximum length; `None` for a null entry.
    pub closed spec fn value_spec(&self, row: int) -> Option<Seq<u8>> {
        let raw = self.indicators@[row];
        let start = row * (self.max_str_len + 1);
        if raw == NULL_DATA {
            None
        } else {
            let len = if raw == NO_TOTAL || raw > self.max_str_len {
                self.max_str_len as int
            } else {
                raw as int
            };
            Some(self.values@.subrange(start, start + len))
        }
    }

    /// Storage for every entry, and indicators that each stand for something.
    pub closed spec fn wf(&self) -> bool {
        &&& self.max_str_len < isize::MAX
        &&& self.values@.len() <= usize::MAX
        &&& self.values@.len() == self.indicators@.len() * (self.max_str_len + 1)
        &&& forall|i: int| 0 <= i < self.indicators@.len() ==> raw_indicator_ok(#[trigger] self.indicators@[i])
    }

    /// A buffer of `batch_size` entries of up to `max_str_len` bytes, each
    /// empty; an error where its storage would not fit the address space.
    pub fn try_new(batch_size: usize, max_str_len: usize) -> (r: Result<TextColumn, BufferError>)
        ensures
            r matches Ok(c) ==> c.wf() && c.spec_capacity() == batch_size && c.spec_max_len() == max_str_len
                && forall|i: int| 0 <= i < batch_size ==> #[trigger] c.value_spec(i) == Some(Seq::<u8>::empty()),
            r is Err <==> max_str_len >= isize::MAX || (max_str_len as int + 1) * batch_size as int > isize::MAX,
            r matches Err(BufferError::TooLargeColumnBufferSize { num_elements, .. }) ==> num_elements == batch_size,
    {
        if max_str_len >= isize::MAX as usize {
            return Err(BufferError::TooLargeColumnBufferSize { buffer_index: 0, num_elements: batch_size, element_size: max_str_len });
        }
        let element_size = max_str_len + 1;
        let total = match element_size.checked_mul(batch_size) {
            Some(t) => t,
            None => {
                return Err(BufferError::TooLargeColumnBufferSize { buffer_index: 0, num_elements: batch_size, element_size });
            },
        };
        if total > isize::MAX as usize {
            return Err(BufferError::TooLargeColumnBufferSize { buffer_index: 0, num_elements: batch_size, element_size });
        }
        assert(total == batch_size * (max_str_len + 1)) by (nonlinear_arith)
            requires total == element_size * batch_size, element_size == max_str_len + 1;
        let mut values: Vec<u8> = Vec::new();
        let mut i: usize = 0;
        while i < total
            invariant
                i <= total,
                values@.len() == i,
            decreases total - i,
        {
            values.push(0u8);
            i = i + 1;
        }
        let mut indicators: Vec<isize> = Vec::new();
        let mut j: usize = 0;
        while j < batch_size
            invariant
                j <= batch_size,
                indicators@.len() == j,
                forall|k: int| 0 <= k < j ==> indicators@[k] == 0,
            decreases batch_size - j,
        {
            indicators.push(0);
            j = j + 1;
        }
        let c = TextColumn { max_str_len, values, indicators };
        assert forall|k: int| 0 <= k < batch_size implies #[trigger] c.value_spec(k) == Some(Seq::<u8>::empty()) by {
            assert(k * (max_str_len + 1) <= total) by (nonlinear_arith)
                requires 0 <= k < batch_size, total == (max_str_len + 1) * batch_size;
            assert(c.values@.subrange(k * (max_str_len + 1), k * (max_str_len + 1)) =~= Seq::<u8>::empty());
        }
        Ok(c)
    }

    /// The longest entry, in bytes.
    pub fn max_len(&self) -> (r: usize)
        ensures
            r == self.spec_max_len(),
    {
        self.max_str_len
    }

    /// The number of entries.
    pub fn row_capacity(&self) -> (r: usize)
        ensures
            r == self.spec_capacity(),
    {
        self.indicators.len()
    }

    /// The indicator of the entry at `row`.
    pub fn indicator_at(&self, row: usize) -> (r: Indicator)
        requires
            self.wf(),
            row < self.spec_capacity(),
        ensures
            r == indicator_of(self.raw_indicators()[row as int]),
    {
        let raw = self.indicators[row];
        if raw == NULL_DATA {
            Indicator::Null
        } else if raw == NO_TOTAL {
            Indicator::NoTotal
        } else {
            Indicator::Length(raw as usize)
        }
    }

    /// The bytes of the entry at `row`, `None` for a null entry.
    pub fn value_at(&self, row: usize) -> (r: Option<&[u8]>)
        requires
            self.wf(),
            row < self.spec_capacity(),
        ensures
            match (r, self.value_spec(row as int)) {
                (Some(s), Some(v)) => s@ == v,
                (None, None) => true,
                _ => false,
            },
    {
        let raw = self.indicators[row];
        if raw == NULL_DATA {
            return None;
        }
        let len: usize = if raw == NO_TOTAL || raw as usize > self.max_str_len {
            self.max_str_len
        } else {
            raw as usize
        };
        proof {
            assert(row * (self.max_str_len + 1) + len <= self.values@.len()) by (nonlinear_arith)
                requires
                    row < self.indicators@.len(),
                    len <= self.max_str_len,
                    self.values@.len() == self.indicators@.len() * (self.max_str_len + 1);
            assert(row * (self.max_str_len + 1) <= row * (self.max_str_len + 1) + len);
        }
        let start = row * (self.max_str_len + 1);
        Some(vstd::slice::slice_subrange(self.values.as_slice(), start, start + len))
    }

    /// Stores `input` as the entry at `row`, or marks it null.
    pub fn set_value(&mut self, row: usize, input: Option<&[u8]>)
        requires
            old(self).wf(),
            row < old(self).spec_capacity(),
            input matches Some(b) ==> b@.len() <= old(self).spec_max_len(),
        ensures
            final(self).wf(),
            final(self).spec_capacity() == old(self).spec_capacity(),
            final(self).spec_max_len() == old(self).spec_max_len(),
            match input {
                Some(b) => final(self).value_spec(row as int) == Some(b@),
                None => final(self).value_spec(row as int) is None,
            },
            forall|i: int| 0 <= i < final(self).spec_capacity() && i != row ==> #[trigger] final(self).value_spec(i)
                == old(self).value_spec(i),
    {
        let ghost before = *self;
        let stride = self.max_str_len + 1;
        proof {
            assert(row * stride + stride <= self.values@.len()) by (nonlinear_arith)
                requires
                    row < self.indicators@.len(),
                    stride == self.max_str_len + 1,
                    self.values@.len() == self.indicators@.len() * stride;
        }
        let start = row * stride;
        match input {
            None => {
                self.indicators.set(row, NULL_DATA);
            },
            Some(b) => {
                let mut i: usize = 0;
                while i < b.len()
                    invariant
                        self.max_str_len == before.max_str_len,
                        self.indicators@ == before.indicators@,
                        stride == self.max_str_len + 1,
                        start == row * stride,
                        start + stride <= self.values@.len(),
                        self.values@.len() <= usize::MAX,
                        b@.len() <= self.max_str_len,
                        i <= b@.len(),
                        self.values@.len() == before.values@.len(),
                        forall|k: int| 0 <= k < i ==> self.values@[start + k] == b@[k],
                        forall|k: int| 0 <= k < self.values@.len() && (k < start || k >= start + stride) ==> self.values@[k] == before.values@[k],
                    decreases b@.len() - i,
                {
                    self.values.set(start + i, b[i]);
                    i = i + 1;
                }
                assert(self.values@.subrange(start as int, start + b@.len()) =~= b@);
                self.indicators.set(row, b.len() as isize);
                assert(self.indicators@[row as int] == b@.len());
                assert(self.value_spec(row as int) == Some(b@));
            },
        }
        assert forall|i: int| 0 <= i < self.spec_capacity() && i != row implies #[trigger] self.value_spec(i)
            == before.value_spec(i) by {
            let s = i * stride;
            assert(s + stride <= start || s >= start + stride) by (nonlinear_arith)
                requires i != row, s == i * stride, start == row * stride, stride >= 1;
            assert(s + stride <= self.values@.len()) by (nonlinear_arith)
                requires 0 <= i < self.indicators@.len(), s == i * stride, self.values@.len() == self.indicators@.len() * stride;
            let raw = self.indicators@[i];
            if raw != NULL_DATA {
                let len = if raw == NO_TOTAL || raw > self.max_str_len { self.max_str_len as int } else { raw as int };
                assert(self.values@.subrange(s, s + len) =~= before.values@.subrange(s, s + len));
            }
        }
    }

    /// Marks the entries from `from` up to `to` null.
    pub fn fill_null(&mut self, from: usize, to: usize)
        requires
            old(self).wf(),
            from <= to <= old(self).spec_capacity(),
        ensures
            final(self).wf(),
            final(self).spec_capacity() == old(self).spec_capacity(),
            final(self).spec_max_len() == old(self).spec_max_len(),
            forall|i: int| from <= i < to ==> #[trigger] final(self).value_spec(i) is None,
            forall|i: int| 0 <= i < final(self).spec_capacity() && !(from <= i < to) ==> #[trigger] final(self).value_spec(i)
                == old(self).value_spec(i),
    {
        let mut i: usize = from;
        while i < to
            invariant
                self.wf(),
                from <= i <= to <= self.indicators@.len(),
                self.indicators@.len() == old(self).indicators@.len(),
                self.max_str_len == old(self).max_str_len,
                self.values@ == old(self).values@,
                forall|k: int| from <= k < i ==> self.indicators@[k] == NULL_DATA,
                forall|k: int| 0 <= k < self.indicators@.len() && !(from <= k < i) ==> self.indicators@[k] == old(self).indicators@[k],
            decreases to - i,
        {
            self.indicators.set(i, NULL_DATA);
            i = i + 1;
        }
    }
}

/// The type through which a column buffer's valid rows are read.
pub trait ColumnProjections {
    type View;
}

/// A buffer for one column of a columnar row set.
pub trait ColumnBuffer: ColumnProjections + Sized {
    /// The number of rows the buffer holds.
    spec fn column_capacity(&self) -> nat;

    /// The buffer's internal invariant.
    spec fn column_wf(&self) -> bool;

    /// Whether `v` shows the first `valid_rows` rows of the buffer.
    spec fn shows(&self, valid_rows: nat, v: <Self as ColumnProjections>::View) -> bool;

    /// The first `valid_rows` rows.
    fn view(&self, valid_rows: usize) -> (r: <Self as ColumnProjections>::View)
        requires
            self.column_wf(),
            valid_rows <= self.column_capacity(),
        ensures
            self.shows(valid_rows as nat, r),
    ;

    /// Fills the rows from `from` up to `to` with the default value.
    fn fill_default(&mut self, from: usize, to: usize)
        requires
            old(self).column_wf(),
            from <= to <= old(self).column_capacity(),
        ensures
            final(self).column_wf(),
            final(self).column_capacity() == old(self).column_capacity(),
    ;

    /// The number of rows the buffer holds.
    fn capacity(&self) -> (r: usize)
        ensures
            r == self.column_capacity(),
    ;
}

/// The rows of a text column: each entry's bytes, `None` for null.
#[derive(Debug)]
pub struct TextColumnView {
    pub rows: Vec<Option<Vec<u8>>>,
}

impl ColumnProjections for TextColumn {
    type View = TextColumnView;
}

fn slice_to_vec(b: &[u8]) -> (r: Vec<u8>)
    ensures
        r@ == b@,
{
    let mut r: Vec<u8> = Vec::new();
    let mut i: usize = 0;
    while i < b.len()
        invariant
            i <= b@.len(),
            r@ == b@.subrange(0, i as int),
        decreases b@.len() - i,
    {
        r.push(b[i]);
        assert(b@.subrange(0, i + 1) == b@.subrange(0, i as int).push(b@[i as int]));
        i = i + 1;
    }
    assert(b@.subrange(0, b@.len() as int) == b@);
    r
}

impl ColumnBuffer for TextColumn {
    open spec fn column_capacity(&self) -> nat {
        self.spec_capacity()
    }

    open spec fn column_wf(&self) -> bool {
        self.wf()
    }

    open spec fn shows(&self, valid_rows: nat, v: TextColumnView) -> bool {
        &&& v.rows@.len() == valid_rows
        &&& forall|i: int| 0 <= i < valid_rows ==> match (#[trigger] v.rows@[i], self.value_spec(i)) {
            (Some(b), Some(w)) => b@ == w,
            (None, None) => true,
            _ => false,
        }
    }

    fn view(&self, valid_rows: usize) -> (r: TextColumnView) {
        let mut rows: Vec<Option<Vec<u8>>> = Vec::new();
        let mut i: usize = 0;
        while i < valid_rows
            invariant
                self.wf(),
                i <= valid_rows <= self.spec_capacity(),
                rows@.len() == i,
                forall|j: int| 0 <= j < i ==> match (#[trigger] rows@[j], self.value_spec(j)) {
                    (Some(b), Some(w)) => b@ == w,
                    (None, None) => true,
                    _ => false,
                },
            decreases valid_rows - i,
        {
            let entry = match self.value_at(i) {
                Some(b) => Some(slice_to_vec(b)),
                None => None,
            };
            rows.push(entry);
            i = i + 1;
        }
        TextColumnView { rows }
    }

    fn fill_default(&mut self, from: usize, to: usize) {
        self.fill_null(from, to);
    }

    fn capacity(&self) -> (r: usize) {
        self.row_capacity()
    }
}

/// Whether the column indexes of `columns` are pairwise distinct.
pub open spec fn unique_indices<C>(columns: Seq<(u16, C)>) -> bool {
    forall|i: int, j: int| 0 <= i < j < columns.len() ==> #[trigger] columns[i].0 != #[trigger] columns[j].0
}

/// A columnar row set: a buffer per bound column, all holding at least
/// `row_capacity` rows, of which the first `num_rows` are valid.
pub struct ColumnarBuffer<C> {
    num_rows: usize,
    row_capacity: usize,
    columns: Vec<(u16, C)>,
}

impl<C: ColumnBuffer> ColumnarBuffer<C> {
    /// The number of valid rows.
    pub closed spec fn valid_rows(&self) -> nat {
        self.num_rows as nat
    }

    /// The number of rows each column can hold.
    pub closed spec fn spec_row_capacity(&self) -> nat {
        self.row_capacity as nat
    }

    /// The bound columns with their 1-based column indexes.
    pub closed spec fn spec_columns(&self) -> Seq<(u16, C)> {
        self.columns@
    }

    /// Valid rows within the capacity, every column able to hold it, and
    /// distinct column indexes.
    pub closed spec fn wf(&self) -> bool {
        &&& self.num_rows <= self.row_capacity
        &&& unique_indices(self.columns@)
        &&& forall|i: int| 0 <= i < self.columns@.len() ==> (#[trigger] self.columns@[i]).1.column_wf()
            && self.columns@[i].1.column_capacity() >= self.row_capacity
    }

    /// A row set over `columns`, whose indexes are distinct; its capacity is
    /// the least capacity of the columns, and no row is valid yet.
    pub fn new(columns: Vec<(u16, C)>) -> (r: Self)
        requires
            unique_indices(columns@),
            forall|i: int| 0 <= i < columns@.len() ==> (#[trigger] columns@[i]).1.column_wf(),
        ensures
            r.wf(),
            r.spec_columns() == columns@,
            r.valid_rows() == 0,
            columns@.len() == 0 ==> r.spec_row_capacity() == 0,
            forall|i: int| 0 <= i < columns@.len() ==> r.spec_row_capacity() <= (#[trigger] columns@[i]).1.column_capacity(),
            columns@.len() > 0 ==> exists|i: int| 0 <= i < columns@.len() && r.spec_row_capacity()
                == (#[trigger] columns@[i]).1.column_capacity(),
    {
        let mut capacity: usize = 0;
        let mut i: usize = 0;
        while i < columns.len()
            invariant
                i <= columns@.len(),
                forall|j: int| 0 <= j < i ==> capacity <= (#[trigger] columns@[j]).1.column_capacity(),
                i > 0 ==> exists|j: int| 0 <= j < i && capacity == (#[trigger] columns@[j]).1.column_capacity(),
                i == 0 ==> capacity == 0,
            decreases columns@.len() - i,
        {
            let c = columns[i].1.capacity();
            if i == 0 || c < capacity {
                capacity = c;
            }
            i = i + 1;
        }
        Self::new_unchecked(capacity, columns)
    }

    /// A row set of capacity `capacity` over `columns`, whose indexes are
    /// distinct and which each hold at least `capacity` rows.
    pub fn new_unchecked(capacity: usize, columns: Vec<(u16, C)>) -> (r: Self)
        requires
            unique_indices(columns@),
            forall|i: int| 0 <= i < columns@.len() ==> (#[trigger] columns@[i]).1.column_wf()
                && columns@[i].1.column_capacity() >= capacity,
        ensures
            r.wf(),
            r.spec_columns() == columns@,
            r.valid_rows() == 0,
            r.spec_row_capacity() == capacity,
    {
        ColumnarBuffer { num_rows: 0, row_capacity: capacity, columns }
    }

    /// The number of valid rows.
    pub fn num_rows(&self) -> (r: usize)
        ensures
            r == self.valid_rows(),
    {
        self.num_rows
    }

    /// The number of columns.
    pub fn num_cols(&self) -> (r: usize)
        ensures
            r == self.spec_columns().len(),
    {
        self.columns.len()
    }

    /// The number of rows each column can hold.
    pub fn row_array_size(&self) -> (r: usize)
        ensures
            r == self.spec_row_capacity(),
    {
        self.row_capacity
    }

    /// Records how many rows a fetch filled.
    pub fn set_num_rows(&mut self, num_rows: usize)
        requires
            old(self).wf(),
            num_rows <= old(self).spec_row_capacity(),
        ensures
            final(self).wf(),
            final(self).valid_rows() == num_rows,
            final(self).spec_row_capacity() == old(self).spec_row_capacity(),
            final(self).spec_columns() == old(self).spec_columns(),
    {
        self.num_rows = num_rows;
    }

    /// The valid rows of the column buffer at `buffer_index` (0-based).
    pub fn column(&self, buffer_index: usize) -> (r: <C as ColumnProjections>::View)
        requires
            self.wf(),
            buffer_index < self.spec_columns().len(),
        ensures
            self.spec_columns()[buffer_index as int].1.shows(self.valid_rows(), r),
    {
        assert(self.columns@[buffer_index as int].1.column_wf());
        self.columns[buffer_index].1.view(self.num_rows)
    }
}

/// A row set with a text buffer for every column.
pub type TextRowSet = ColumnarBuffer<TextColumn>;

/// Declares `std::str::Utf8Error`, the error of `std::str::from_utf8`,
/// which is carried through unchanged.
#[verifier::external_type_specification]
#[verifier::external_body]
pub struct ExUtf8Error(std::str::Utf8Error);

/// Relies on `std::str::from_utf8`: `Ok` exactly when the bytes are valid
/// UTF-8, and then a string of those very bytes.
#[verifier::external_body]
fn str_from_utf8(b: &[u8]) -> (r: Result<&str, std::str::Utf8Error>)
    ensures
        r is Ok <==> valid_utf8(b@),
        r matches Ok(s) ==> s.spec_bytes() == b@,
{
    std::str::from_utf8(b)
}

/// The maximum length of the buffer for a column whose reported display size
/// is `reported`, under an optional upper bound.
pub open spec fn bounded_len(reported: usize, upper: Option<usize>) -> usize {
    match upper {
        Some(u) => if reported <= u { reported } else { u },
        None => reported,
    }
}

/// Whether a text buffer of `batch` entries of up to `len` bytes fits.
pub open spec fn column_fits(batch: usize, len: usize) -> bool {
    len < isize::MAX && (len as int + 1) * batch as int <= isize::MAX
}

impl TextRowSet {
    /// Text buffers for `row_capacity` rows, column `i + 1` with room for
    /// `max_str_lengths[i]` bytes per entry; an error names the first column
    /// whose buffer would not fit.
    pub fn from_max_str_lens(row_capacity: usize, max_str_lengths: &Vec<usize>) -> (r: Result<Self, BufferError>)
        requires
            max_str_lengths@.len() < 0xFFFF,
        ensures
            r matches Ok(set) ==> {
                &&& set.wf()
                &&& set.valid_rows() == 0
                &&& set.spec_row_capacity() == row_capacity
                &&& set.spec_columns().len() == max_str_lengths@.len()
                &&& forall|i: int| 0 <= i < max_str_lengths@.len() ==> {
                    &&& (#[trigger] set.spec_columns()[i]).0 == i + 1
                    &&& set.spec_columns()[i].1.spec_max_len() == max_str_lengths@[i]
                    &&& set.spec_columns()[i].1.spec_capacity() == row_capacity
                }
            },
            r is Ok <==> forall|i: int| 0 <= i < max_str_lengths@.len() ==> column_fits(row_capacity, #[trigger] max_str_lengths@[i]),
            r matches Err(BufferError::TooLargeColumnBufferSize { buffer_index, num_elements, .. }) ==> {
                &&& buffer_index < max_str_lengths@.len()
                &&& !column_fits(row_capacity, max_str_lengths@[buffer_index as int])
                &&& forall|i: int| 0 <= i < buffer_index ==> column_fits(row_capacity, #[trigger] max_str_lengths@[i])
                &&& num_elements == row_capacity
            },
    {
        let mut columns: Vec<(u16, TextColumn)> = Vec::new();
        let mut i: usize = 0;
        while i < max_str_lengths.len()
            invariant
                i <= max_str_lengths@.len() < 0xFFFF,
                columns@.len() == i,
                forall|j: int| 0 <= j < i ==> column_fits(row_capacity, #[trigger] max_str_lengths@[j]),
                forall|j: int| 0 <= j < i ==> {
                    &&& (#[trigger] columns@[j]).0 == j + 1
                    &&& columns@[j].1.wf()
                    &&& columns@[j].1.spec_max_len() == max_str_lengths@[j]
                    &&& columns@[j].1.spec_capacity() == row_capacity
                },
            decreases max_str_lengths@.len() - i,
        {
            match TextColumn::try_new(row_capacity, max_str_lengths[i]) {
                Ok(c) => {
                    columns.push(((i + 1) as u16, c));
                },
                Err(BufferError::TooLargeColumnBufferSize { num_elements, element_size, .. }) => {
                    return Err(BufferError::TooLargeColumnBufferSize { buffer_index: i as u16, num_elements, element_size });
                },
            }
            i = i + 1;
        }
        assert(unique_indices(columns@));
        Ok(Self::new_unchecked(row_capacity, columns))
    }

    /// Text buffers for `batch_size` rows sized for a result set whose
    /// columns report the display sizes `display_sizes`, each bounded by
    /// `max_str_len` where given.
    pub fn for_cursor(batch_size: usize, display_sizes: &Vec<usize>, max_str_len: Option<usize>) -> (r: Result<Self, BufferError>)
        requires
            display_sizes@.len() < 0xFFFF,
        ensures
            r matches Ok(set) ==> {
                &&& set.wf()
                &&& set.valid_rows() == 0
                &&& set.spec_row_capacity() == batch_size
                &&& set.spec_columns().len() == display_sizes@.len()
                &&& forall|i: int| 0 <= i < display_sizes@.len() ==> {
                    &&& (#[trigger] set.spec_columns()[i]).0 == i + 1
                    &&& set.spec_columns()[i].1.spec_max_len() == bounded_len(display_sizes@[i], max_str_len)
                    &&& set.spec_columns()[i].1.spec_capacity() == batch_size
                }
            },
            r is Ok <==> forall|i: int| 0 <= i < display_sizes@.len() ==> column_fits(
                batch_size,
                bounded_len(#[trigger] display_sizes@[i], max_str_len),
            ),
    {
        let mut lens: Vec<usize> = Vec::new();
        let mut i: usize = 0;
        while i < display_sizes.len()
            invariant
                i <= display_sizes@.len(),
                lens@.len() == i,
                forall|j: int| 0 <= j < i ==> #[trigger] lens@[j] == bounded_len(display_sizes@[j], max_str_len),
            decreases display_sizes@.len() - i,
        {
            let reported = display_sizes[i];
            let len = match max_str_len {
                Some(upper) => if reported <= upper { reported } else { upper },
                None => reported,
            };
            lens.push(len);
            i = i + 1;
        }
        let r = Self::from_max_str_lens(batch_size, &lens);
        proof {
            if r is Ok {
                assert forall|i: int| 0 <= i < display_sizes@.len() implies column_fits(
                    batch_size,
                    bounded_len(#[trigger] display_sizes@[i], max_str_len),
                ) by {
                    assert(column_fits(batch_size, lens@[i]));
                }
            } else {
                let k = r->Err_0->buffer_index as int;
                assert(!column_fits(batch_size, bounded_len(display_sizes@[k], max_str_len)));
            }
        }
        r
    }

    /// The entry at column `buffer_index` (0-based) of valid row `row_index`;
    /// `None` for a null entry.
    pub fn at(&self, buffer_index: usize, row_index: usize) -> (r: Option<&[u8]>)
        requires
            self.wf(),
            buffer_index < self.spec_columns().len(),
            row_index < self.valid_rows(),
        ensures
            match (r, self.spec_columns()[buffer_index as int].1.value_spec(row_index as int)) {
                (Some(s), Some(v)) => s@ == v,
                (None, None) => true,
                _ => false,
            },
    {
        assert(self.columns@[buffer_index as int].1.column_wf());
        self.columns[buffer_index].1.value_at(row_index)
    }

    /// The entry at column `col_index` (0-based) of valid row `row_index` as
    /// text; an error where its bytes are not UTF-8.
    pub fn at_as_str(&self, col_index: usize, row_index: usize) -> (r: Result<Option<&str>, std::str::Utf8Error>)
        requires
            self.wf(),
            col_index < self.spec_columns().len(),
            row_index < self.valid_rows(),
        ensures
            match self.spec_columns()[col_index as int].1.value_spec(row_index as int) {
                None => r matches Ok(None),
                Some(v) => (r is Err <==> !valid_utf8(v)) && (r matches Ok(Some(s)) ==> s.spec_bytes() == v),
            },
    {
        match self.at(col_index, row_index) {
            None => Ok(None),
            Some(b) => match str_from_utf8(b) {
                Ok(s) => Ok(Some(s)),
                Err(e) => Err(e),
            },
        }
    }

    /// The indicator at column `buf_index` (0-based) of valid row `row_index`.
    pub fn indicator_at(&self, buf_index: usize, row_index: usize) -> (r: Indicator)
        requires
            self.wf(),
            buf_index < self.spec_columns().len(),
            row_index < self.valid_rows(),
        ensures
            r == indicator_of(self.spec_columns()[buf_index as int].1.raw_indicators()[row_index as int]),
    {
        assert(self.columns@[buf_index as int].1.column_wf());
        self.columns[buf_index].1.indicator_at(row_index)
    }

    /// The longest entry of column `buf_index` (0-based), in bytes.
    pub fn max_len(&self, buf_index: usize) -> (r: usize)
        requires
            buf_index < self.spec_columns().len(),
        ensures
            r == self.spec_columns()[buf_index as int].1.spec_max_len(),
    {
        self.columns[buf_index].1.max_len()
    }

    /// Stores `value` at column `buf_index` (0-based) of row `row_index`, as
    /// a fetch would; `None` stores a null entry.
    pub fn set_value(&mut self, buf_index: usize, row_index: usize, value: Option<&[u8]>)
        requires
            old(self).wf(),
            buf_index < old(self).spec_columns().len(),
            row_index < old(self).spec_row_capacity(),
            value matches Some(b) ==> b@.len() <= old(self).spec_columns()[buf_index as int].1.spec_max_len(),
        ensures
            final(self).wf(),
            final(self).valid_rows() == old(self).valid_rows(),
            final(self).spec_row_capacity() == old(self).spec_row_capacity(),
            final(self).spec_columns().len() == old(self).spec_columns().len(),
            match value {
                Some(b) => final(self).spec_columns()[buf_index as int].1.value_spec(row_index as int) == Some(b@),
                None => final(self).spec_columns()[buf_index as int].1.value_spec(row_index as int) is None,
            },
    {
        assert(self.columns@[buf_index as int].1.column_wf());
        let mut entry = self.columns.remove(buf_index);
        entry.1.set_value(row_index, value);
        self.columns.insert(buf_index, entry);
        assert(self.columns@ =~= old(self).columns@.update(buf_index as int, entry));
        assert forall|i: int, j: int| 0 <= i < j < self.columns@.len() implies #[trigger] self.columns@[i].0
            != #[trigger] self.columns@[j].0 by {
            assert(old(self).columns@[i].0 != old(self).columns@[j].0);
        }
        assert forall|i: int| 0 <= i < self.columns@.len() implies (#[trigger] self.columns@[i]).1.column_wf()
            && self.columns@[i].1.column_capacity() >= self.row_capacity by {
            assert(old(self).columns@[i].1.column_wf());
        }
    }
}

} // verus!
