//! The row/column cursor: owns the result rows and their sorted column
//! metadata, resolves 1-based column indexes, and keeps the piece state of
//! each column of the current row.
use vstd::prelude::*;
use crate::coerce::{
    coerce, coerce_model, ConversionError, ErrorModel, Coerced, CoercedModel, FloatSource,
    TargetKind,
};
use crate::transfer::{
    bytes_payload_of, text_payload, text_payload_of, write_model, write_piece, Delivery,
    DeliveryModel, Destination, Payload, PayloadModel, PieceState, TransferStatus, WriteError,
};
use crate::value::{field_of, get_field, DocumentValue, TypeName};

verus! {

/// The declared type of a column.
#[derive(Clone, Copy, Debug, PartialEq, Eq, Structural)]
pub enum Schema {
    /// Any kind of value.
    Any,
    /// Values of one kind.
    Scalar(TypeName),
    /// Arrays whose items are of one kind.
    Array(TypeName),
    /// Documents.
    Object,
}

/// One column of a result set: the table and field it reads, its declared
/// type, and whether it may hold null.
#[derive(Clone, Debug)]
pub struct ColumnMetadata {
    pub table_name: String,
    pub col_name: String,
    pub schema: Schema,
    pub nullable: bool,
}

impl ColumnMetadata {
    pub fn new(table_name: String, col_name: String, schema: Schema, nullable: bool) -> (r: Self)
        ensures
            r.table_name@ == table_name@,
            r.col_name@ == col_name@,
            r.schema == schema,
            r.nullable == nullable,
    {
        ColumnMetadata { table_name, col_name, schema, nullable }
    }
}

/// A result row: a document whose top-level keys are table names.
pub type Row = Vec<(String, DocumentValue)>;

/// Where the cursor stands.
#[derive(Clone, Copy, Debug, PartialEq, Eq, Structural)]
pub enum CursorState {
    /// Before the first advance.
    Unpositioned,
    /// On the row with this index.
    Positioned(usize),
    /// Past the last row.
    Exhausted,
}

/// Why a read of a column failed; the cursor stays as it was.
#[derive(Debug)]
pub enum DataError {
    /// No row is current.
    InvalidCursorState,
    /// No column has this index.
    ColumnIndexOutOfBounds(u16),
    /// The value cannot be converted for the target.
    Conversion(ConversionError),
    /// The value cannot be written to the buffer.
    Write(WriteError),
}

/// The mathematical content of a `DataError`.
pub enum DataErrorModel {
    InvalidCursorState,
    ColumnIndexOutOfBounds(u16),
    Conversion(ErrorModel),
    Write(WriteError),
}

impl View for DataError {
    type V = DataErrorModel;

    open spec fn view(&self) -> DataErrorModel {
        match self {
            DataError::InvalidCursorState => DataErrorModel::InvalidCursorState,
            DataError::ColumnIndexOutOfBounds(i) => DataErrorModel::ColumnIndexOutOfBounds(*i),
            DataError::Conversion(e) => DataErrorModel::Conversion(e@),
            DataError::Write(e) => DataErrorModel::Write(*e),
        }
    }
}

/// The value a column reads from a row: the field `col_name` of the document
/// stored under `table_name`; missing anywhere on the way, it is `None`.
pub open spec fn column_value(row: Seq<(String, DocumentValue)>, md: ColumnMetadata) -> Option<DocumentValue> {
    match field_of(row, md.table_name@) {
        Some(DocumentValue::Document(fields)) => field_of(fields@, md.col_name@),
        _ => None,
    }
}

/// The state after one advance over `n` rows.
pub open spec fn advance_state(s: CursorState, n: nat) -> CursorState {
    match s {
        CursorState::Unpositioned => if n > 0 {
            CursorState::Positioned(0)
        } else {
            CursorState::Exhausted
        },
        CursorState::Positioned(i) => if i + 1 < n {
            CursorState::Positioned((i + 1) as usize)
        } else {
            CursorState::Exhausted
        },
        CursorState::Exhausted => CursorState::Exhausted,
    }
}

/// The payload of a converted value; a value for a float target is written
/// as the bytes `float_bytes` that its encoder gave.
pub open spec fn payload_model_of(c: CoercedModel, t: TargetKind, float_bytes: Seq<u8>) -> PayloadModel {
    match c {
        CoercedModel::Null => PayloadModel::Null,
        CoercedModel::Text(s) => text_payload(s, t is WChar),
        CoercedModel::Bytes(b) => PayloadModel::Variable { bytes: b, unit: 1, terminated: false },
        CoercedModel::Fixed(b) => PayloadModel::Fixed(b),
        CoercedModel::Float(_) => PayloadModel::Fixed(float_bytes),
    }
}

/// One read of a value in piece state `st`: the delivery and the next piece
/// state, or the error. A missing or null value is null for every target;
/// `float_bytes` stands for what the float encoder gave.
pub open spec fn read_model(
    st: PieceState,
    v: Option<DocumentValue>,
    t: TargetKind,
    dest: Destination,
    float_bytes: Seq<u8>,
) -> Result<(DeliveryModel, PieceState), DataErrorModel> {
    if st is Done {
        Ok((crate::transfer::no_data(), PieceState::Done))
    } else {
        let converted = match v {
            None => Ok((CoercedModel::Null, None)),
            Some(x) => if x.is_null_like() {
                Ok((CoercedModel::Null, None))
            } else {
                coerce_model(x, t)
            },
        };
        match converted {
            Err(e) => Err(DataErrorModel::Conversion(e)),
            Ok((c, loss)) => match write_model(payload_model_of(c, t, float_bytes), st, dest, loss) {
                Ok(w) => Ok(w),
                Err(e) => Err(DataErrorModel::Write(e)),
            },
        }
    }
}

/// Whether a read of value `v` for target `t` may have written `fb` as a
/// float's bytes: any bytes where no float is written, else what `encode`
/// can give for the value.
pub open spec fn float_bytes_ok<F: Fn(FloatSource, bool) -> Vec<u8>>(
    encode: F,
    v: Option<DocumentValue>,
    t: TargetKind,
    st: PieceState,
    fb: Seq<u8>,
) -> bool {
    st is Done || match v {
        Some(x) => match coerce_model(x, t) {
            Ok((CoercedModel::Float(m), _)) => !x.is_null_like() ==> exists|src: FloatSource, b: Vec<u8>|
                src@ == m && b@ == fb && #[trigger] encode.ensures((src, t is Float), b),
            _ => true,
        },
        None => true,
    }
}

/// A missing or null column value, read twice with any targets, reports the
/// null indicator on the first read (where the caller gave a slot for it)
/// and finds no data on the second.
pub proof fn law_null_column_read_once(
    v: Option<DocumentValue>,
    t1: TargetKind,
    t2: TargetKind,
    d1: Destination,
    d2: Destination,
    fb1: Seq<u8>,
    fb2: Seq<u8>,
)
    requires
        v matches Some(x) ==> x.is_null_like(),
    ensures
        read_model(PieceState::Fresh, v, t1, d1, fb1) matches Ok((dm, s2)) && {
            &&& dm.status != TransferStatus::NoData
            &&& (d1.has_indicator ==> dm.indicator == Some(crate::transfer::Indicator::Null))
            &&& read_model(s2, v, t2, d2, fb2) == Ok::<(DeliveryModel, PieceState), DataErrorModel>(
                (crate::transfer::no_data(), PieceState::Done),
            )
        },
{
}

/// A cursor over result rows held in memory.
pub struct MongoQuery {
    resultset: Vec<Row>,
    resultset_metadata: Vec<ColumnMetadata>,
    state: CursorState,
    pieces: Vec<PieceState>,
}

impl MongoQuery {
    /// The rows.
    pub closed spec fn rows(&self) -> Seq<Row> {
        self.resultset@
    }

    /// The columns, in index order.
    pub closed spec fn columns(&self) -> Seq<ColumnMetadata> {
        self.resultset_metadata@
    }

    /// Where the cursor stands.
    pub closed spec fn position(&self) -> CursorState {
        self.state
    }

    /// The piece state of each column of the current row, by 0-based index.
    pub closed spec fn piece_states(&self) -> Seq<PieceState> {
        self.pieces@
    }

    /// One piece state per column, and a current row that exists.
    pub closed spec fn wf(&self) -> bool {
        &&& self.pieces@.len() == self.resultset_metadata@.len()
        &&& self.state matches CursorState::Positioned(i) ==> i < self.resultset@.len()
    }

    /// The column that a 1-based index names.
    pub open spec fn column_at(&self, col_index: u16) -> Option<ColumnMetadata> {
        if 1 <= col_index && col_index <= self.columns().len() {
            Some(self.columns()[col_index - 1])
        } else {
            None
        }
    }

    /// What a read of column `col_index` of the current row finds: the
    /// cursor error, or the column's value (`None` where it is missing).
    pub open spec fn lookup(&self, col_index: u16) -> Result<Option<DocumentValue>, DataErrorModel> {
        match self.position() {
            CursorState::Positioned(i) => match self.column_at(col_index) {
                Some(md) => Ok(column_value(self.rows()[i as int]@, md)),
                None => Err(DataErrorModel::ColumnIndexOutOfBounds(col_index)),
            },
            _ => Err(DataErrorModel::InvalidCursorState),
        }
    }

    fn fresh_pieces(n: usize) -> (r: Vec<PieceState>)
        ensures
            r@.len() == n,
            forall|i: int| 0 <= i < n ==> r@[i] == PieceState::Fresh,
    {
        let mut r: Vec<PieceState> = Vec::new();
        let mut i: usize = 0;
        while i < n
            invariant
                i <= n,
                r@.len() == i,
                forall|j: int| 0 <= j < i ==> r@[j] == PieceState::Fresh,
            decreases n - i,
        {
            r.push(PieceState::Fresh);
            i = i + 1;
        }
        r
    }

    /// A cursor before the first of `resultset`, whose columns are
    /// `resultset_metadata` in index order (as the schema resolver sorts
    /// them, by table and then column name).
    pub fn new(resultset: Vec<Row>, resultset_metadata: Vec<ColumnMetadata>) -> (r: Self)
        ensures
            r.wf(),
            r.rows() == resultset@,
            r.columns() == resultset_metadata@,
            r.position() == CursorState::Unpositioned,
            forall|i: int| 0 <= i < r.columns().len() ==> r.piece_states()[i] == PieceState::Fresh,
    {
        let n = resultset_metadata.len();
        MongoQuery {
            resultset,
            resultset_metadata,
            state: CursorState::Unpositioned,
            pieces: Self::fresh_pieces(n),
        }
    }

    /// Moves to the next row; true when a row is then current. Every move
    /// onto a row starts each column's reads afresh.
    pub fn next(&mut self) -> (r: bool)
        requires
            old(self).wf(),
        ensures
            final(self).wf(),
            final(self).rows() == old(self).rows(),
            final(self).columns() == old(self).columns(),
            final(self).position() == advance_state(old(self).position(), old(self).rows().len()),
            r == (final(self).position() is Positioned),
            r ==> forall|i: int| 0 <= i < final(self).columns().len() ==> final(self).piece_states()[i]
                == PieceState::Fresh,
    {
        let n = self.resultset.len();
        let next = match self.state {
            CursorState::Unpositioned => if n > 0 { CursorState::Positioned(0) } else { CursorState::Exhausted },
            CursorState::Positioned(i) => if i + 1 < n { CursorState::Positioned(i + 1) } else { CursorState::Exhausted },
            CursorState::Exhausted => CursorState::Exhausted,
        };
        self.state = next;
        if let CursorState::Positioned(_) = next {
            self.pieces = Self::fresh_pieces(self.resultset_metadata.len());
            true
        } else {
            false
        }
    }

    /// Makes `row`, the row that the server handed out next, the current
    /// row, or ends the result set where there is none; true when a row is
    /// then current. Every move onto a row starts each column's reads afresh.
    pub fn advance_to(&mut self, row: Option<Row>) -> (r: bool)
        requires
            old(self).wf(),
        ensures
            final(self).wf(),
            final(self).columns() == old(self).columns(),
            r == row is Some,
            match row {
                Some(x) => final(self).rows() == seq![x] && final(self).position() == CursorState::Positioned(0)
                    && forall|i: int| 0 <= i < final(self).columns().len() ==> final(self).piece_states()[i]
                        == PieceState::Fresh,
                None => final(self).rows() == old(self).rows() && final(self).position() == CursorState::Exhausted,
            },
    {
        match row {
            Some(x) => {
                let mut rows: Vec<Row> = Vec::new();
                rows.push(x);
                self.resultset = rows;
                self.state = CursorState::Positioned(0);
                self.pieces = Self::fresh_pieces(self.resultset_metadata.len());
                true
            },
            None => {
                self.state = CursorState::Exhausted;
                false
            },
        }
    }

    /// The columns of the result set, in index order.
    pub fn get_resultset_metadata(&self) -> (r: &Vec<ColumnMetadata>)
        ensures
            r@ == self.columns(),
    {
        &self.resultset_metadata
    }

    /// The value of column `col_index` (1-based) on the current row; `None`
    /// where the row lacks it.
    pub fn get_value(&self, col_index: u16) -> (r: Result<Option<&DocumentValue>, DataError>)
        requires
            self.wf(),
        ensures
            match (r, self.lookup(col_index)) {
                (Ok(Some(v)), Ok(Some(w))) => *v == w,
                (Ok(None), Ok(None)) => true,
                (Err(e), Err(f)) => e@ == f,
                _ => false,
            },
    {
        let i = match self.state {
            CursorState::Positioned(i) => i,
            _ => {
                return Err(DataError::InvalidCursorState);
            },
        };
        if col_index == 0 || col_index as usize > self.resultset_metadata.len() {
            return Err(DataError::ColumnIndexOutOfBounds(col_index));
        }
        let md = &self.resultset_metadata[col_index as usize - 1];
        match get_field(&self.resultset[i], md.table_name.as_str()) {
            Some(DocumentValue::Document(fields)) => Ok(get_field(fields, md.col_name.as_str())),
            _ => Ok(None),
        }
    }

    /// Reads column `col_index` (1-based) of the current row for target
    /// `target` into `dest`: the first read converts the value and hands out
    /// what fits, later reads of a variable-length value go on where the last
    /// stopped, and a read after the whole value is out finds no data.
    /// `encode` turns a float target's value into IEEE-754 bytes, four for
    /// `Float` (its second argument true) and eight for `Double`.
    pub fn get_data<F: Fn(FloatSource, bool) -> Vec<u8>>(
        &mut self,
        col_index: u16,
        target: TargetKind,
        dest: Destination,
        encode: F,
    ) -> (r: Result<Delivery, DataError>)
        requires
            old(self).wf(),
            forall|x: FloatSource, w: bool| encode.requires((x, w)),
        ensures
            final(self).wf(),
            final(self).rows() == old(self).rows(),
            final(self).columns() == old(self).columns(),
            final(self).position() == old(self).position(),
            match old(self).lookup(col_index) {
                Err(e) => r matches Err(x) && x@ == e && final(self).piece_states() == old(self).piece_states(),
                Ok(v) => exists|fb: Seq<u8>| {
                    &&& #[trigger] float_bytes_ok(encode, v, target, old(self).piece_states()[col_index - 1], fb)
                    &&& match read_model(old(self).piece_states()[col_index - 1], v, target, dest, fb) {
                        Ok((dm, s2)) => r matches Ok(d) && d@ == dm && final(self).piece_states()
                            == old(self).piece_states().update(col_index - 1, s2),
                        Err(e) => r matches Err(x) && x@ == e && final(self).piece_states()
                            == old(self).piece_states(),
                    }
                },
            },
    {
        let looked = self.get_value(col_index);
        let value = match looked {
            Err(e) => {
                return Err(e);
            },
            Ok(v) => v,
        };
        let ghost v: Option<DocumentValue> = match value {
            Some(x) => Some(*x),
            None => None,
        };
        assert(old(self).lookup(col_index) == Ok::<Option<DocumentValue>, DataErrorModel>(v));
        let k = col_index as usize - 1;
        let st = self.pieces[k];
        assert(st == old(self).piece_states()[col_index - 1]);
        if st == PieceState::Done {
            let d = Delivery { status: TransferStatus::NoData, indicator: None, data: Vec::new(), notice: None };
            proof {
                let fb: Seq<u8> = seq![];
                assert(self.pieces@ =~= self.pieces@.update(k as int, st));
                assert(float_bytes_ok(encode, v, target, old(self).piece_states()[col_index - 1], fb));
                assert(read_model(st, v, target, dest, fb) == Ok::<(DeliveryModel, PieceState), DataErrorModel>((d@, PieceState::Done)));
            }
            return Ok(d);
        }
        let conv = match value {
            None => Ok((Coerced::Null, None)),
            Some(x) => match x {
                DocumentValue::Null | DocumentValue::Undefined => Ok((Coerced::Null, None)),
                _ => coerce(x, target),
            },
        };
        let ghost converted = match v {
            None => Ok((CoercedModel::Null, None)),
            Some(x) => if x.is_null_like() {
                Ok((CoercedModel::Null, None))
            } else {
                coerce_model(x, target)
            },
        };
        assert(crate::coerce::conversion_view(conv) == converted);
        let (c, loss) = match conv {
            Err(e) => {
                proof {
                    let fb: Seq<u8> = seq![];
                    assert(float_bytes_ok(encode, v, target, old(self).piece_states()[col_index - 1], fb));
                    assert(read_model(st, v, target, dest, fb) == Err::<(DeliveryModel, PieceState), DataErrorModel>(DataErrorModel::Conversion(e@)));
                }
                return Err(DataError::Conversion(e));
            },
            Ok(p) => p,
        };
        let ghost cm = c@;
        let ghost mut fb: Seq<u8> = seq![];
        let payload = match c {
            Coerced::Null => Payload::Null,
            Coerced::Text(t) => text_payload_of(&t, target == TargetKind::WChar),
            Coerced::Bytes(b) => bytes_payload_of(b),
            Coerced::Fixed(b) => Payload::Fixed(b),
            Coerced::Float(src) => {
                let ghost g = src;
                let single = target == TargetKind::Float;
                let b = encode(src, single);
                proof {
                    fb = b@;
                    assert(encode.ensures((g, single), b));
                }
                Payload::Fixed(b)
            },
        };
        assert(payload@ == payload_model_of(cm, target, fb));
        assert(float_bytes_ok(encode, v, target, old(self).piece_states()[col_index - 1], fb));
        let written = write_piece(&payload, st, dest, loss);
        assert(converted == Ok::<(CoercedModel, Option<crate::coerce::Loss>), ErrorModel>((cm, loss)));
        match written {
            Ok((d, s2)) => {
                self.pieces.set(k, s2);
                assert(read_model(st, v, target, dest, fb) == Ok::<(DeliveryModel, PieceState), DataErrorModel>((d@, s2)));
                Ok(d)
            },
            Err(e) => {
                assert(read_model(st, v, target, dest, fb) == Err::<(DeliveryModel, PieceState), DataErrorModel>(DataErrorModel::Write(e)));
                Err(DataError::Write(e))
            },
        }
    }
}

} // verus!
