//! The output buffer writer: hands a converted value to a caller-supplied
//! buffer, variable-length values in pieces across calls, fixed-size values
//! whole, and keeps the per-column state that links the calls.
use vstd::prelude::*;
use crate::coerce::Loss;
use crate::text::{utf16_text, utf16_units, utf8_bytes};
use vstd::utf8::encode_utf8;

verus! {

/// The length or null indicator reported beside the data.
#[derive(Clone, Copy, Debug, PartialEq, Eq, Structural)]
pub enum Indicator {
    /// The value is null.
    Null,
    /// The length of the value is not known.
    NoTotal,
    /// The length of the value, in bytes or characters.
    Length(usize),
}

/// How far a column's value of the current row has been handed out.
#[derive(Clone, Copy, Debug, PartialEq, Eq, Structural)]
pub enum PieceState {
    /// Nothing has been read yet.
    Fresh,
    /// This many units of a variable-length value have been handed out.
    Delivered(usize),
    /// The whole value has been handed out.
    Done,
}

/// The outcome of one read.
#[derive(Clone, Copy, Debug, PartialEq, Eq, Structural)]
pub enum TransferStatus {
    /// The (rest of the) value was handed out.
    Success,
    /// Data was handed out, with a notice.
    SuccessWithInfo,
    /// Nothing is left of the value.
    NoData,
}

/// A notice that comes with a successful read.
#[derive(Clone, Copy, Debug, PartialEq, Eq, Structural)]
pub enum Notice {
    /// The buffer held only a piece of the value; more follows.
    Truncated,
    /// The conversion dropped part of the value.
    PrecisionLoss(Loss),
    /// The value is null and the caller gave no place for the indicator.
    NullIndicatorMissing,
}

/// Why a read wrote nothing.
#[derive(Clone, Copy, Debug, PartialEq, Eq, Structural)]
pub enum WriteError {
    /// A fixed-size value needs more room than the buffer has.
    BufferTooSmall { needed: usize, capacity: usize },
}

/// The caller's buffer: its capacity (in bytes, or in UTF-16 units for wide
/// text), `None` where there is no buffer, and whether an indicator slot exists.
#[derive(Clone, Copy, Debug, PartialEq, Eq, Structural)]
pub struct Destination {
    pub capacity: Option<usize>,
    pub has_indicator: bool,
}

/// A value ready to be written.
#[derive(Debug)]
pub enum Payload {
    /// The value is null.
    Null,
    /// Variable-length bytes in units of `unit` bytes; `terminated` values
    /// are followed by a zero unit in the buffer.
    Variable { bytes: Vec<u8>, unit: usize, terminated: bool },
    /// The encoding of a fixed-size value.
    Fixed(Vec<u8>),
}

/// The mathematical content of a `Payload`.
pub enum PayloadModel {
    Null,
    Variable { bytes: Seq<u8>, unit: nat, terminated: bool },
    Fixed(Seq<u8>),
}

impl View for Payload {
    type V = PayloadModel;

    open spec fn view(&self) -> PayloadModel {
        match self {
            Payload::Null => PayloadModel::Null,
            Payload::Variable { bytes, unit, terminated } => PayloadModel::Variable {
                bytes: bytes@,
                unit: *unit as nat,
                terminated: *terminated,
            },
            Payload::Fixed(b) => PayloadModel::Fixed(b@),
        }
    }
}

/// A variable payload is whole units of one or two bytes.
pub open spec fn payload_wf(p: PayloadModel) -> bool {
    match p {
        PayloadModel::Variable { bytes, unit, terminated } => (unit == 1 || unit == 2) && bytes.len()
            % unit == 0 && bytes.len() <= usize::MAX,
        _ => true,
    }
}

/// What one read hands to the caller.
#[derive(Debug)]
pub struct Delivery {
    pub status: TransferStatus,
    /// The indicator to store; `None` leaves the slot untouched.
    pub indicator: Option<Indicator>,
    /// The bytes to copy to the start of the buffer.
    pub data: Vec<u8>,
    pub notice: Option<Notice>,
}

/// The mathematical content of a `Delivery`.
pub struct DeliveryModel {
    pub status: TransferStatus,
    pub indicator: Option<Indicator>,
    pub data: Seq<u8>,
    pub notice: Option<Notice>,
}

impl View for Delivery {
    type V = DeliveryModel;

    open spec fn view(&self) -> DeliveryModel {
        DeliveryModel {
            status: self.status,
            indicator: self.indicator,
            data: self.data@,
            notice: self.notice,
        }
    }
}

/// The number of units of a variable payload.
pub open spec fn unit_count(bytes: Seq<u8>, unit: nat) -> nat {
    if unit == 0 {
        0
    } else {
        bytes.len() / unit
    }
}

/// How many units have been handed out in state `s`, out of `n`.
pub open spec fn offset_of(s: PieceState, n: nat) -> nat {
    match s {
        PieceState::Fresh => 0,
        PieceState::Delivered(k) => if k <= n { k as nat } else { n },
        PieceState::Done => n,
    }
}

/// Units still to be handed out of a payload in state `s`.
pub open spec fn remaining(p: PayloadModel, s: PieceState) -> nat {
    match p {
        PayloadModel::Variable { bytes, unit, .. } => {
            let n = unit_count(bytes, unit);
            (n - offset_of(s, n)) as nat
        },
        _ => 0,
    }
}

/// Whether a read in state `s` finds nothing left.
pub open spec fn is_drained(p: PayloadModel, s: PieceState) -> bool {
    match p {
        PayloadModel::Variable { .. } => s is Done || (s is Delivered && remaining(p, s) == 0),
        _ => !(s is Fresh),
    }
}

/// The read that finds nothing left.
pub open spec fn no_data() -> DeliveryModel {
    DeliveryModel { status: TransferStatus::NoData, indicator: None, data: seq![], notice: None }
}

/// The units a read can fill: all of the capacity, less one for the terminator.
pub open spec fn room(cap: nat, terminated: bool) -> nat {
    if terminated {
        (cap - 1) as nat
    } else {
        cap
    }
}

/// One read of payload `p` in state `s` into destination `d`; `loss` is
/// what the conversion dropped. The result is the delivery and the next state.
pub open spec fn write_model(p: PayloadModel, s: PieceState, d: Destination, loss: Option<Loss>) -> Result<(DeliveryModel, PieceState), WriteError> {
    if is_drained(p, s) {
        Ok((no_data(), PieceState::Done))
    } else {
        match p {
            PayloadModel::Null => if d.has_indicator {
                Ok((
                    DeliveryModel {
                        status: TransferStatus::Success,
                        indicator: Some(Indicator::Null),
                        data: seq![],
                        notice: None,
                    },
                    PieceState::Done,
                ))
            } else {
                Ok((
                    DeliveryModel {
                        status: TransferStatus::SuccessWithInfo,
                        indicator: None,
                        data: seq![],
                        notice: Some(Notice::NullIndicatorMissing),
                    },
                    PieceState::Done,
                ))
            },
            PayloadModel::Fixed(b) => match d.capacity {
                None => Ok((
                    DeliveryModel {
                        status: TransferStatus::SuccessWithInfo,
                        indicator: Some(Indicator::Length(b.len() as usize)),
                        data: seq![],
                        notice: None,
                    },
                    s,
                )),
                Some(cap) => if cap < b.len() {
                    Err(WriteError::BufferTooSmall { needed: b.len() as usize, capacity: cap })
                } else {
                    Ok((
                        DeliveryModel {
                            status: if loss is Some {
                                TransferStatus::SuccessWithInfo
                            } else {
                                TransferStatus::Success
                            },
                            indicator: Some(Indicator::Length(b.len() as usize)),
                            data: b,
                            notice: match loss {
                                Some(l) => Some(Notice::PrecisionLoss(l)),
                                None => None,
                            },
                        },
                        PieceState::Done,
                    ))
                },
            },
            PayloadModel::Variable { bytes, unit, terminated } => {
                let n = unit_count(bytes, unit);
                let k = offset_of(s, n);
                let r = remaining(p, s);
                match d.capacity {
                    None => Ok((
                        DeliveryModel {
                            status: TransferStatus::SuccessWithInfo,
                            indicator: Some(Indicator::Length(r as usize)),
                            data: seq![],
                            notice: None,
                        },
                        s,
                    )),
                    Some(cap) => if terminated && cap == 0 {
                        Ok((
                            DeliveryModel {
                                status: TransferStatus::SuccessWithInfo,
                                indicator: Some(Indicator::Length(r as usize)),
                                data: seq![],
                                notice: None,
                            },
                            s,
                        ))
                    } else {
                        let c = if r <= room(cap as nat, terminated) { r } else { room(cap as nat, terminated) };
                        let chunk = bytes.subrange((k * unit) as int, ((k + c) * unit) as int);
                        Ok((
                            DeliveryModel {
                                status: if c < r {
                                    TransferStatus::SuccessWithInfo
                                } else {
                                    TransferStatus::Success
                                },
                                indicator: Some(Indicator::Length(r as usize)),
                                data: if terminated {
                                    chunk + Seq::new(unit, |_i: int| 0u8)
                                } else {
                                    chunk
                                },
                                notice: if c < r { Some(Notice::Truncated) } else { None },
                            },
                            if k + c == n { PieceState::Done } else { PieceState::Delivered((k + c) as usize) },
                        ))
                    },
                }
            },
        }
    }
}

/// The mathematical content of a write result.
pub open spec fn write_view(r: Result<(Delivery, PieceState), WriteError>) -> Result<(DeliveryModel, PieceState), WriteError> {
    match r {
        Ok((dl, s)) => Ok((dl@, s)),
        Err(e) => Err(e),
    }
}

fn copy_range(b: &Vec<u8>, from: usize, to: usize) -> (r: Vec<u8>)
    requires
        from <= to <= b@.len(),
    ensures
        r@ == b@.subrange(from as int, to as int),
{
    let mut r: Vec<u8> = Vec::new();
    let mut i: usize = from;
    while i < to
        invariant
            from <= i <= to <= b@.len(),
            r@ == b@.subrange(from as int, i as int),
        decreases to - i,
    {
        r.push(b[i]);
        assert(b@.subrange(from as int, i + 1) == b@.subrange(from as int, i as int).push(b@[i as int]));
        i = i + 1;
    }
    r
}

/// One read of `payload` in state `state` into `dest`: what to hand to the
/// caller and the state for the next read of the same value.
pub fn write_piece(payload: &Payload, state: PieceState, dest: Destination, loss: Option<Loss>) -> (r: Result<(Delivery, PieceState), WriteError>)
    requires
        payload_wf(payload@),
    ensures
        write_view(r) == write_model(payload@, state, dest, loss),
{
    match payload {
        Payload::Null => {
            if state != PieceState::Fresh {
                return Ok((Delivery { status: TransferStatus::NoData, indicator: None, data: Vec::new(), notice: None }, PieceState::Done));
            }
            if dest.has_indicator {
                Ok((Delivery { status: TransferStatus::Success, indicator: Some(Indicator::Null), data: Vec::new(), notice: None }, PieceState::Done))
            } else {
                Ok((Delivery {
                    status: TransferStatus::SuccessWithInfo,
                    indicator: None,
                    data: Vec::new(),
                    notice: Some(Notice::NullIndicatorMissing),
                }, PieceState::Done))
            }
        },
        Payload::Fixed(b) => {
            if state != PieceState::Fresh {
                return Ok((Delivery { status: TransferStatus::NoData, indicator: None, data: Vec::new(), notice: None }, PieceState::Done));
            }
            match dest.capacity {
                None => Ok((Delivery {
                    status: TransferStatus::SuccessWithInfo,
                    indicator: Some(Indicator::Length(b.len())),
                    data: Vec::new(),
                    notice: None,
                }, state)),
                Some(cap) => {
                    if cap < b.len() {
                        return Err(WriteError::BufferTooSmall { needed: b.len(), capacity: cap });
                    }
                    let data = copy_range(b, 0, b.len());
                    assert(b@.subrange(0, b@.len() as int) == b@);
                    let notice = match loss {
                        Some(l) => Some(Notice::PrecisionLoss(l)),
                        None => None,
                    };
                    let status = if loss.is_some() { TransferStatus::SuccessWithInfo } else { TransferStatus::Success };
                    Ok((Delivery { status, indicator: Some(Indicator::Length(b.len())), data, notice }, PieceState::Done))
                },
            }
        },
        Payload::Variable { bytes, unit, terminated } => {
            let u = *unit;
            let n = bytes.len() / u;
            let k: usize = match state {
                PieceState::Fresh => 0,
                PieceState::Delivered(k) => if k <= n { k } else { n },
                PieceState::Done => n,
            };
            let r = n - k;
            let drained = match state {
                PieceState::Fresh => false,
                PieceState::Delivered(_) => r == 0,
                PieceState::Done => true,
            };
            if drained {
                return Ok((Delivery { status: TransferStatus::NoData, indicator: None, data: Vec::new(), notice: None }, PieceState::Done));
            }
            match dest.capacity {
                None => Ok((Delivery {
                    status: TransferStatus::SuccessWithInfo,
                    indicator: Some(Indicator::Length(r)),
                    data: Vec::new(),
                    notice: None,
                }, state)),
                Some(cap) => {
                    if *terminated && cap == 0 {
                        return Ok((Delivery {
                            status: TransferStatus::SuccessWithInfo,
                            indicator: Some(Indicator::Length(r)),
                            data: Vec::new(),
                            notice: None,
                        }, state));
                    }
                    let space = if *terminated { cap - 1 } else { cap };
                    let c = if r <= space { r } else { space };
                    proof {
                        assert(k * u <= (k + c) * u) by (nonlinear_arith)
                            requires c >= 0, u >= 1;
                        assert((k + c) * u <= n * u) by (nonlinear_arith)
                            requires k + c <= n, u >= 1;
                        assert(n * u <= bytes@.len()) by (nonlinear_arith)
                            requires n as int == bytes@.len() as int / (u as int), u >= 1;
                    }
                    let mut data = copy_range(bytes, k * u, (k + c) * u);
                    if *terminated {
                        let ghost chunk = data@;
                        let mut z: usize = 0;
                        while z < u
                            invariant
                                z <= u,
                                data@ == chunk + Seq::new(z as nat, |_i: int| 0u8),
                            decreases u - z,
                        {
                            data.push(0u8);
                            assert(data@ =~= chunk + Seq::new((z + 1) as nat, |_i: int| 0u8));
                            z = z + 1;
                        }
                    }
                    let next = if k + c == n { PieceState::Done } else { PieceState::Delivered(k + c) };
                    let truncated = c < r;
                    Ok((Delivery {
                        status: if truncated { TransferStatus::SuccessWithInfo } else { TransferStatus::Success },
                        indicator: Some(Indicator::Length(r)),
                        data,
                        notice: if truncated { Some(Notice::Truncated) } else { None },
                    }, next))
                },
            }
        },
    }
}

/// The data of a delivery without the terminator that follows text.
pub open spec fn chunk_of(p: PayloadModel, data: Seq<u8>) -> Seq<u8> {
    match p {
        PayloadModel::Variable { unit, terminated, .. } => if terminated && data.len() >= unit {
            data.subrange(0, data.len() - unit)
        } else {
            data
        },
        _ => data,
    }
}

/// The chunks handed out by the next `calls` reads of `p` from state `s`,
/// joined; reading stops at the first read that finds nothing left.
pub open spec fn pieces(p: PayloadModel, s: PieceState, d: Destination, calls: nat) -> Seq<u8>
    decreases calls,
{
    if calls == 0 {
        seq![]
    } else {
        match write_model(p, s, d, None) {
            Ok((dl, s2)) => if dl.status is NoData {
                seq![]
            } else {
                chunk_of(p, dl.data) + pieces(p, s2, d, (calls - 1) as nat)
            },
            Err(_) => seq![],
        }
    }
}

/// A destination into which every read of a variable payload moves at least one unit.
pub open spec fn makes_progress(p: PayloadModel, d: Destination) -> bool {
    match p {
        PayloadModel::Variable { terminated, .. } => d.capacity matches Some(cap) && room(
            cap as nat,
            terminated,
        ) >= 1 && cap >= 1,
        _ => false,
    }
}

proof fn lemma_pieces_rest(p: PayloadModel, s: PieceState, d: Destination, calls: nat)
    requires
        payload_wf(p),
        makes_progress(p, d),
        calls >= remaining(p, s) + 1,
    ensures
        p matches PayloadModel::Variable { bytes, unit, .. } && pieces(p, s, d, calls) == bytes.subrange(
            (offset_of(s, unit_count(bytes, unit)) * unit) as int,
            bytes.len() as int,
        ),
    decreases remaining(p, s), calls,
{
    assert(p is Variable);
    let bytes = p->bytes;
    let unit = p->unit;
    let terminated = p->terminated;
    let n = unit_count(bytes, unit);
    let k = offset_of(s, n);
    assert(n * unit == bytes.len()) by (nonlinear_arith)
        requires n == bytes.len() / unit, bytes.len() % unit == 0, unit >= 1;
    if is_drained(p, s) {
        assert(k == n);
        assert(bytes.subrange((k * unit) as int, bytes.len() as int) =~= seq![]);
        return;
    }
    let cap = d.capacity->0;
    let r = remaining(p, s);
    let c = if r <= room(cap as nat, terminated) { r } else { room(cap as nat, terminated) };
    assert(k * unit <= (k + c) * unit) by (nonlinear_arith)
        requires unit >= 1;
    assert((k + c) * unit <= n * unit) by (nonlinear_arith)
        requires k + c <= n, unit >= 1;
    let chunk = bytes.subrange((k * unit) as int, ((k + c) * unit) as int);
    let data = if terminated { chunk + Seq::new(unit, |_i: int| 0u8) } else { chunk };
    assert(chunk_of(p, data) == chunk) by {
        if terminated {
            assert(data.subrange(0, data.len() - unit) =~= chunk);
        }
    }
    let s2 = if k + c == n { PieceState::Done } else { PieceState::Delivered((k + c) as usize) };
    assert(offset_of(s2, n) == k + c);
    if c < r || k + c < n {
        assert(remaining(p, s2) == r - c);
        lemma_pieces_rest(p, s2, d, (calls - 1) as nat);
    } else {
        assert(is_drained(p, s2));
        assert(pieces(p, s2, d, (calls - 1) as nat) == Seq::<u8>::empty()) by {
            reveal_with_fuel(pieces, 2);
        }
    }
    assert(bytes.subrange((k * unit) as int, bytes.len() as int) =~= chunk + bytes.subrange(
        ((k + c) * unit) as int,
        bytes.len() as int,
    ));
}

/// Reading a variable-length value in pieces, with any capacity that lets
/// each read move at least one unit, until a read finds nothing left, and
/// joining the pieces gives back the whole value.
pub proof fn law_pieces_round_trip(p: PayloadModel, d: Destination)
    requires
        payload_wf(p),
        makes_progress(p, d),
    ensures
        p matches PayloadModel::Variable { bytes, unit, .. } && pieces(
            p,
            PieceState::Fresh,
            d,
            unit_count(bytes, unit) + 1,
        ) == bytes,
{
    lemma_pieces_rest(p, PieceState::Fresh, d, remaining(p, PieceState::Fresh) + 1);
    let bytes = p->bytes;
    assert(bytes.subrange(0, bytes.len() as int) == bytes);
}

/// Each read of a variable-length value that is not yet drained reports the
/// length still to come, moves at least one unit, and leaves exactly that
/// many fewer; a read finds nothing left only once every unit is out.
pub proof fn law_remaining_decreases(p: PayloadModel, s: PieceState, d: Destination)
    requires
        payload_wf(p),
        makes_progress(p, d),
        !is_drained(p, s),
    ensures
        write_model(p, s, d, None) matches Ok((dl, s2)) && {
            let moved = chunk_of(p, dl.data).len() / (p->unit);
            &&& dl.indicator == Some(Indicator::Length(remaining(p, s) as usize))
            &&& (remaining(p, s) > 0 ==> moved >= 1)
            &&& remaining(p, s2) == remaining(p, s) - moved
            &&& is_drained(p, s2) <==> remaining(p, s) - moved == 0
        },
{
    assert(p is Variable);
    let bytes = p->bytes;
    let unit = p->unit;
    let terminated = p->terminated;
    let n = unit_count(bytes, unit);
    let k = offset_of(s, n);
    let cap = d.capacity->0;
    let r = remaining(p, s);
    let c = if r <= room(cap as nat, terminated) { r } else { room(cap as nat, terminated) };
    assert(n * unit == bytes.len()) by (nonlinear_arith)
        requires n == bytes.len() / unit, bytes.len() % unit == 0, unit >= 1;
    assert(k * unit <= (k + c) * unit) by (nonlinear_arith)
        requires unit >= 1;
    assert((k + c) * unit <= n * unit) by (nonlinear_arith)
        requires k + c <= n, unit >= 1;
    let chunk = bytes.subrange((k * unit) as int, ((k + c) * unit) as int);
    let data = if terminated { chunk + Seq::new(unit, |_i: int| 0u8) } else { chunk };
    assert(chunk_of(p, data) == chunk) by {
        if terminated {
            assert(data.subrange(0, data.len() - unit) =~= chunk);
        }
    }
    assert(chunk.len() == c * unit) by (nonlinear_arith)
        requires chunk.len() == (k + c) * unit - k * unit;
    assert(chunk.len() / unit == c) by (nonlinear_arith)
        requires chunk.len() == c * unit, unit >= 1;
    let s2 = if k + c == n { PieceState::Done } else { PieceState::Delivered((k + c) as usize) };
    assert(offset_of(s2, n) == k + c);
}

/// A null value is reported once, with the null indicator where the caller
/// gave a slot for it; every later read of it finds nothing left.
pub proof fn law_null_reported_once(d1: Destination, d2: Destination, l1: Option<Loss>, l2: Option<Loss>)
    ensures
        write_model(PayloadModel::Null, PieceState::Fresh, d1, l1) matches Ok((dl, s2)) && {
            &&& dl.status != TransferStatus::NoData
            &&& (d1.has_indicator ==> dl.indicator == Some(Indicator::Null))
            &&& write_model(PayloadModel::Null, s2, d2, l2) == Ok::<(DeliveryModel, PieceState), WriteError>((no_data(), PieceState::Done))
        },
{
}

/// UTF-16 code units as bytes, each least significant byte first.
pub open spec fn units_le(u: Seq<u16>) -> Seq<u8>
    decreases u.len(),
{
    if u.len() == 0 {
        seq![]
    } else {
        units_le(u.drop_last()) + seq![(u.last() % 256) as u8, (u.last() / 256) as u8]
    }
}

proof fn lemma_units_le_len(u: Seq<u16>)
    ensures
        units_le(u).len() == 2 * u.len(),
    decreases u.len(),
{
    if u.len() > 0 {
        lemma_units_le_len(u.drop_last());
    }
}

fn units_to_bytes(u: &Vec<u16>) -> (r: Vec<u8>)
    ensures
        r@ == units_le(u@),
{
    let mut r: Vec<u8> = Vec::new();
    let mut i: usize = 0;
    while i < u.len()
        invariant
            i <= u@.len(),
            r@ == units_le(u@.subrange(0, i as int)),
        decreases u@.len() - i,
    {
        let x = u[i];
        r.push((x % 256) as u8);
        r.push((x / 256) as u8);
        assert(u@.subrange(0, i + 1).drop_last() == u@.subrange(0, i as int));
        i = i + 1;
    }
    assert(u@.subrange(0, u@.len() as int) == u@);
    r
}

/// The payload of converted text: UTF-16 units for wide text, UTF-8 bytes
/// otherwise, each followed by a terminator in the buffer.
pub open spec fn text_payload(s: Seq<char>, wide: bool) -> PayloadModel {
    if wide {
        PayloadModel::Variable { bytes: units_le(utf16_text(s)), unit: 2, terminated: true }
    } else {
        PayloadModel::Variable { bytes: encode_utf8(s), unit: 1, terminated: true }
    }
}

/// The payload of text.
pub fn text_payload_of(t: &Vec<char>, wide: bool) -> (r: Payload)
    ensures
        r@ == text_payload(t@, wide),
        payload_wf(r@),
{
    if wide {
        let units = utf16_units(t);
        let bytes = units_to_bytes(&units);
        proof {
            lemma_units_le_len(units@);
            assert(bytes@.len() % 2 == 0);
        }
        assert(bytes@.len() == bytes.len());
        Payload::Variable { bytes, unit: 2, terminated: true }
    } else {
        let bytes = utf8_bytes(t);
        assert(bytes@.len() == bytes.len());
        Payload::Variable { bytes, unit: 1, terminated: true }
    }
}

/// The payload of raw bytes.
pub fn bytes_payload_of(b: Vec<u8>) -> (r: Payload)
    ensures
        r@ == (PayloadModel::Variable { bytes: b@, unit: 1, terminated: false }),
        payload_wf(r@),
{
    assert(b@.len() == b.len());
    Payload::Variable { bytes: b, unit: 1, terminated: false }
}

} // verus!
