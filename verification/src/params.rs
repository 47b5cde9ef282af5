//! The statement parameter set: the ordered parameters of one statement
//! and the type of each slot in, the serialized argument block out.

use vstd::prelude::*;
use scylla::serialize::RowWriter;
use crate::be::{be_bytes, push_be};
use crate::descriptor::{ScalarKind, WireType};
use crate::encoder::{
    appended, encode_value, encode_value_spec, framed, join, lemma_join_step, pair,
};
use crate::error::EncodeError;
use crate::scalar::encoded_as;
use crate::value::ParameterValue;
use crate::wire::{append_bytes, cell_bytes, push_cell, MAX_LENGTH};

verus! {

/// The greatest number of arguments that a block can count.
pub const MAX_ARGUMENTS: usize = 0xFFFF;

/// The cell of each parameter for the type at its position, or why it
/// has none.
pub open spec fn argument_parts(parameters: Seq<ParameterValue>, context: Seq<WireType>) -> Seq<
    Result<Seq<u8>, EncodeError>,
> {
    Seq::new(
        parameters.len(),
        |i: int|
            if 0 <= i < parameters.len() && i < context.len() {
                framed(encode_value_spec(parameters[i], context[i]))
            } else {
                Ok(Seq::empty())
            },
    )
}

/// The cells of the parameters, one after the other: `ShapeMismatch`
/// where there is not one type per parameter, else the first error that
/// a parameter gives.
pub open spec fn cells_spec(parameters: Seq<ParameterValue>, context: Seq<WireType>) -> Result<
    Seq<u8>,
    EncodeError,
> {
    if parameters.len() != context.len() {
        Err(EncodeError::ShapeMismatch)
    } else {
        join(argument_parts(parameters, context))
    }
}

/// The argument block: the number of arguments in two bytes, then the
/// cell of each. More arguments than two bytes can count are a
/// `NumericOverflow`.
pub open spec fn block_spec(parameters: Seq<ParameterValue>, context: Seq<WireType>) -> Result<
    Seq<u8>,
    EncodeError,
> {
    if parameters.len() != context.len() {
        Err(EncodeError::ShapeMismatch)
    } else if parameters.len() > MAX_ARGUMENTS {
        Err(EncodeError::NumericOverflow)
    } else {
        match join(argument_parts(parameters, context)) {
            Ok(cells) => Ok(be_bytes(parameters.len(), 2) + cells),
            Err(e) => Err(e),
        }
    }
}

/// Whether `ty` is the type that the tag of `v` alone suggests. A list
/// or a set takes the type of its first element, bytes where it is
/// empty; a mapping is a record without a name, a field per entry.
pub open spec fn inferred(v: ParameterValue, ty: WireType) -> bool
    decreases v,
{
    match v {
        ParameterValue::U32(_) => ty == WireType::Scalar(ScalarKind::Int),
        ParameterValue::Text(_) => ty == WireType::Scalar(ScalarKind::Text),
        ParameterValue::Uuid(_) => ty == WireType::Scalar(ScalarKind::Uuid),
        ParameterValue::BigInt(_) => ty == WireType::Scalar(ScalarKind::BigInt),
        ParameterValue::Duration(_) => ty == WireType::Scalar(ScalarKind::Duration),
        ParameterValue::Decimal(_) => ty == WireType::Scalar(ScalarKind::Decimal),
        ParameterValue::Bool(_) => ty == WireType::Scalar(ScalarKind::Boolean),
        ParameterValue::Blob(_) => ty == WireType::Scalar(ScalarKind::Blob),
        ParameterValue::Float(_) => ty == WireType::Scalar(ScalarKind::Float),
        ParameterValue::Varint(_) => ty == WireType::Scalar(ScalarKind::Varint),
        ParameterValue::ListOf(items) => match ty {
            WireType::ListOf(elem) => inferred_element(items@, *elem),
            _ => false,
        },
        ParameterValue::SetOf(items) => match ty {
            WireType::SetOf(elem) => inferred_element(items@, *elem),
            _ => false,
        },
        ParameterValue::MapOf(entries) => match ty {
            WireType::Record { keyspace, name, fields } => keyspace@.len() == 0 && name@.len() == 0
                && inferred_fields(entries@, fields@),
            _ => false,
        },
    }
}

/// Whether `elem` is the element type that `items` suggest.
pub open spec fn inferred_element(items: Seq<ParameterValue>, elem: WireType) -> bool
    decreases items,
{
    if items.len() == 0 {
        elem == WireType::Scalar(ScalarKind::Blob)
    } else {
        inferred(items[0], elem)
    }
}

/// Whether `fields` are the fields that `entries` suggest.
pub open spec fn inferred_fields(
    entries: Seq<(String, ParameterValue)>,
    fields: Seq<(String, WireType)>,
) -> bool
    decreases entries,
{
    fields.len() == entries.len() && forall|i: int|
        #![trigger fields[i]]
        0 <= i < entries.len() ==> fields[i].0@ == entries[i].0@ && inferred(
            entries[i].1,
            fields[i].1,
        )
}

/// The type that the tag of `v` alone suggests. Without the declared
/// type this is a guess: prefer the types of a prepared statement.
pub fn infer_type(v: &ParameterValue) -> (r: WireType)
    ensures
        inferred(*v, r),
    decreases v, 1nat,
{
    match v {
        ParameterValue::U32(_) => WireType::Scalar(ScalarKind::Int),
        ParameterValue::Text(_) => WireType::Scalar(ScalarKind::Text),
        ParameterValue::Uuid(_) => WireType::Scalar(ScalarKind::Uuid),
        ParameterValue::BigInt(_) => WireType::Scalar(ScalarKind::BigInt),
        ParameterValue::Duration(_) => WireType::Scalar(ScalarKind::Duration),
        ParameterValue::Decimal(_) => WireType::Scalar(ScalarKind::Decimal),
        ParameterValue::Bool(_) => WireType::Scalar(ScalarKind::Boolean),
        ParameterValue::Blob(_) => WireType::Scalar(ScalarKind::Blob),
        ParameterValue::Float(_) => WireType::Scalar(ScalarKind::Float),
        ParameterValue::Varint(_) => WireType::Scalar(ScalarKind::Varint),
        ParameterValue::ListOf(items) => WireType::ListOf(Box::new(infer_element(items))),
        ParameterValue::SetOf(items) => WireType::SetOf(Box::new(infer_element(items))),
        ParameterValue::MapOf(entries) => WireType::Record {
            keyspace: String::new(),
            name: String::new(),
            fields: infer_fields(entries),
        },
    }
}

fn infer_element(items: &Vec<ParameterValue>) -> (r: WireType)
    ensures
        inferred_element(items@, r),
    decreases items, 0nat,
{
    if items.len() == 0 {
        WireType::Scalar(ScalarKind::Blob)
    } else {
        infer_type(&items[0])
    }
}

fn infer_fields(entries: &Vec<(String, ParameterValue)>) -> (r: Vec<(String, WireType)>)
    ensures
        inferred_fields(entries@, r@),
    decreases entries, 0nat,
{
    let n: usize = entries.len();
    let mut fields: Vec<(String, WireType)> = Vec::new();
    let mut i: usize = 0;
    while i < n
        invariant
            n == entries@.len(),
            i <= n,
            fields@.len() == i,
            forall|j: int|
                #![trigger fields@[j]]
                0 <= j < i ==> fields@[j].0@ == entries@[j].0@ && inferred(
                    entries@[j].1,
                    fields@[j].1,
                ),
        decreases n - i,
    {
        let name: String = entries[i].0.clone();
        let ty: WireType = infer_type(&entries[i].1);
        let ghost before = fields@;
        fields.push((name, ty));
        assert forall|j: int| #![trigger fields@[j]] 0 <= j < i + 1 implies fields@[j].0@
            == entries@[j].0@ && inferred(entries@[j].1, fields@[j].1) by {
            if j < i {
                assert(fields@[j] == before[j]);
            }
        }
        i = i + 1;
    }
    fields
}

/// Whether `context` holds, for each parameter, the type that its own
/// tag suggests.
pub open spec fn inferred_context(parameters: Seq<ParameterValue>, context: Seq<WireType>) -> bool {
    context.len() == parameters.len() && forall|i: int|
        0 <= i < parameters.len() ==> inferred(parameters[i], #[trigger] context[i])
}

/// The type that each parameter's own tag suggests, for a statement
/// whose parameter types are not known.
pub fn infer_context(parameters: &Vec<ParameterValue>) -> (r: Vec<WireType>)
    ensures
        inferred_context(parameters@, r@),
{
    let n: usize = parameters.len();
    let mut context: Vec<WireType> = Vec::new();
    let mut i: usize = 0;
    while i < n
        invariant
            n == parameters@.len(),
            i <= n,
            context@.len() == i,
            forall|j: int| 0 <= j < i ==> inferred(parameters@[j], #[trigger] context@[j]),
        decreases n - i,
    {
        let ty: WireType = infer_type(&parameters[i]);
        context.push(ty);
        i = i + 1;
    }
    context
}

fn encode_cells(parameters: &Vec<ParameterValue>, context: &Vec<WireType>) -> (r: Result<
    Vec<u8>,
    EncodeError,
>)
    ensures
        encoded_as(r, cells_spec(parameters@, context@)),
{
    let n: usize = parameters.len();
    if context.len() != n {
        return Err(EncodeError::ShapeMismatch);
    }
    let mut out: Vec<u8> = Vec::new();
    let ghost parts = argument_parts(parameters@, context@);
    let mut i: usize = 0;
    proof {
        assert(parts.skip(0) =~= parts);
        assert(Seq::<u8>::empty() + Seq::<u8>::empty() =~= Seq::<u8>::empty());
    }
    while i < n
        invariant
            n == parameters@.len(),
            n == context@.len(),
            i <= n,
            parts == argument_parts(parameters@, context@),
            join(parts) == pair(Ok(out@), join(parts.skip(i as int))),
        decreases n - i,
    {
        proof {
            lemma_join_step(parts, i as int);
            assert(parts[i as int] == framed(
                encode_value_spec(parameters@[i as int], context@[i as int]),
            ));
        }
        let ghost before = out@;
        let body = match encode_value(&parameters[i], &context[i]) {
            Err(e) => {
                return Err(e);
            },
            Ok(body) => body,
        };
        if body.len() > MAX_LENGTH {
            return Err(EncodeError::NumericOverflow);
        }
        push_cell(&mut out, body.as_slice());
        proof {
            let part = cell_bytes(Some(body@));
            match join(parts.skip(i + 1)) {
                Ok(tail) => {
                    assert(before + (part + tail) =~= (before + part) + tail);
                },
                Err(_) => {},
            }
        }
        i = i + 1;
    }
    proof {
        assert(out@ + Seq::<u8>::empty() =~= out@);
    }
    Ok(out)
}

/// Whether `bodies` are the encoded parameters, each short enough for a
/// length prefix: the cell of each parameter is the cell of its body.
pub open spec fn bodies_of(
    bodies: Seq<Vec<u8>>,
    parameters: Seq<ParameterValue>,
    context: Seq<WireType>,
) -> bool {
    bodies.len() == parameters.len() && forall|i: int|
        #![trigger bodies[i]]
        0 <= i < bodies.len() ==> bodies[i]@.len() <= MAX_LENGTH && argument_parts(
            parameters,
            context,
        )[i] == Ok::<Seq<u8>, EncodeError>(cell_bytes(Some(bodies[i]@)))
}

/// Encodes each parameter for the type at its position, without a
/// length before it: what a writer of cells takes one by one. An error
/// is the one that the cells of these parameters give.
pub fn encode_arguments(parameters: &Vec<ParameterValue>, context: &Vec<WireType>) -> (r: Result<
    Vec<Vec<u8>>,
    EncodeError,
>)
    ensures
        match (r, cells_spec(parameters@, context@)) {
            (Ok(bodies), Ok(_)) => bodies_of(bodies@, parameters@, context@),
            (Err(e), Err(expected)) => e == expected,
            _ => false,
        },
{
    let n: usize = parameters.len();
    if context.len() != n {
        return Err(EncodeError::ShapeMismatch);
    }
    let ghost parts = argument_parts(parameters@, context@);
    let ghost mut written = Seq::<u8>::empty();
    let mut acc: Vec<Vec<u8>> = Vec::new();
    let mut i: usize = 0;
    proof {
        assert(parts.skip(0) =~= parts);
        assert(Seq::<u8>::empty() + Seq::<u8>::empty() =~= Seq::<u8>::empty());
    }
    while i < n
        invariant
            n == parameters@.len(),
            n == context@.len(),
            i <= n,
            acc@.len() == i,
            parts == argument_parts(parameters@, context@),
            join(parts) == pair(Ok(written), join(parts.skip(i as int))),
            forall|j: int|
                #![trigger acc@[j]]
                0 <= j < i ==> acc@[j]@.len() <= MAX_LENGTH && parts[j] == Ok::<
                    Seq<u8>,
                    EncodeError,
                >(cell_bytes(Some(acc@[j]@))),
        decreases n - i,
    {
        proof {
            lemma_join_step(parts, i as int);
            assert(parts[i as int] == framed(
                encode_value_spec(parameters@[i as int], context@[i as int]),
            ));
        }
        let body = match encode_value(&parameters[i], &context[i]) {
            Err(e) => {
                return Err(e);
            },
            Ok(body) => body,
        };
        if body.len() > MAX_LENGTH {
            return Err(EncodeError::NumericOverflow);
        }
        proof {
            let part = cell_bytes(Some(body@));
            match join(parts.skip(i + 1)) {
                Ok(tail) => {
                    assert(written + (part + tail) =~= (written + part) + tail);
                },
                Err(_) => {},
            }
            written = written + part;
        }
        let ghost before = acc@;
        acc.push(body);
        assert forall|j: int| #![trigger acc@[j]] 0 <= j < i + 1 implies acc@[j]@.len()
            <= MAX_LENGTH && parts[j] == Ok::<Seq<u8>, EncodeError>(
            cell_bytes(Some(acc@[j]@)),
        ) by {
            if j < i {
                assert(acc@[j] == before[j]);
            }
        }
        i = i + 1;
    }
    proof {
        assert(written + Seq::<u8>::empty() =~= written);
    }
    Ok(acc)
}

/// `scylla::serialize::RowWriter`: the driver's writer of the values of
/// one statement. Nothing of its inside is known.
#[verifier::external_type_specification]
#[verifier::external_body]
pub struct ExRowWriter<'buf>(RowWriter<'buf>);

/// The bytes of the buffer that a row writer of the driver appends to.
pub uninterp spec fn written_bytes(writer: RowWriter) -> Seq<u8>;

/// The number of values that were written through a row writer.
pub uninterp spec fn written_count(writer: RowWriter) -> nat;

/// `RowWriter::make_cell_writer` and `CellWriter::set_value` of the
/// driver: the count of values grows by one, and the buffer by the
/// length of the contents in four bytes and by the contents.
#[verifier::external_body]
fn write_value(writer: &mut RowWriter, body: &[u8])
    requires
        body@.len() <= MAX_LENGTH,
    ensures
        written_bytes(*final(writer)) == written_bytes(*old(writer)) + cell_bytes(Some(body@)),
        written_count(*final(writer)) == written_count(*old(writer)) + 1,
{
    let _ = writer.make_cell_writer().set_value(body);
}

/// Whether the writer took the cells `s`, as many as `n`, or stayed as it
/// was where `s` is an error, which `r` then reports.
pub open spec fn written_as(
    r: Result<(), EncodeError>,
    before: RowWriter,
    after: RowWriter,
    s: Result<Seq<u8>, EncodeError>,
    n: nat,
) -> bool {
    match s {
        Ok(cells) => r is Ok && written_bytes(after) == written_bytes(before) + cells
            && written_count(after) == written_count(before) + n,
        Err(e) => r == Err::<(), EncodeError>(e) && after == before,
    }
}

/// Builds the argument block of one statement execution: the number of
/// arguments, then each argument with its length before it. No
/// parameters give a block of zero arguments.
pub fn build(parameters: &Vec<ParameterValue>, context: &Vec<WireType>) -> (r: Result<
    Vec<u8>,
    EncodeError,
>)
    ensures
        encoded_as(r, block_spec(parameters@, context@)),
{
    let n: usize = parameters.len();
    if context.len() != n {
        return Err(EncodeError::ShapeMismatch);
    }
    if n > MAX_ARGUMENTS {
        return Err(EncodeError::NumericOverflow);
    }
    match encode_cells(parameters, context) {
        Err(e) => Err(e),
        Ok(cells) => {
            let mut out: Vec<u8> = Vec::new();
            push_be(&mut out, n as u128, 2);
            append_bytes(&mut out, cells.as_slice());
            assert(out@ =~= be_bytes(n as nat, 2) + cells@);
            Ok(out)
        },
    }
}

/// Encodes the parameters of a statement as one argument block. With
/// the types of a prepared statement the block is built for them; with
/// none, the type of each parameter is inferred from its own tag, which
/// is less safe: a mapping is then always a record, never a map.
pub fn encode_statement_parameters(
    parameters: &Vec<ParameterValue>,
    context: Option<&Vec<WireType>>,
) -> (r: Result<Vec<u8>, EncodeError>)
    ensures
        match context {
            Some(c) => encoded_as(r, block_spec(parameters@, c@)),
            None => exists|types: Seq<WireType>|
                inferred_context(parameters@, types) && #[trigger] encoded_as(
                    r,
                    block_spec(parameters@, types),
                ),
        },
{
    match context {
        Some(c) => build(parameters, c),
        None => {
            let types: Vec<WireType> = infer_context(parameters);
            let r = build(parameters, &types);
            assert(inferred_context(parameters@, types@) && encoded_as(
                r,
                block_spec(parameters@, types@),
            ));
            r
        },
    }
}

/// The parameters of one statement, as the host handed them in.
#[derive(Debug, PartialEq, Eq)]
pub struct QueryParameter {
    pub parameters: Option<Vec<ParameterValue>>,
}

impl QueryParameter {
    /// The parameters that this set holds: none where it was given none.
    pub open spec fn values(self) -> Seq<ParameterValue> {
        match self.parameters {
            None => Seq::empty(),
            Some(p) => p@,
        }
    }

    /// Takes the parameters of a statement. Every list is accepted, and
    /// so is the absence of one.
    pub fn parser(parameters: Option<Vec<ParameterValue>>) -> (r: Option<Self>)
        ensures
            r == Some(QueryParameter { parameters }),
    {
        Some(QueryParameter { parameters })
    }

    /// Whether there is no parameter.
    pub fn is_empty(&self) -> (r: bool)
        ensures
            r == (self.values().len() == 0),
    {
        match &self.parameters {
            None => true,
            Some(p) => p.len() == 0,
        }
    }

    /// Writes the cell of each parameter to `out`, for the type at its
    /// position in `context`. On an error nothing is written.
    pub fn write_cells(&self, context: &Vec<WireType>, out: &mut Vec<u8>) -> (r: Result<
        (),
        EncodeError,
    >)
        ensures
            appended(r, old(out)@, final(out)@, cells_spec(self.values(), context@)),
    {
        match &self.parameters {
            None => {
                if context.len() != 0 {
                    Err(EncodeError::ShapeMismatch)
                } else {
                    assert(argument_parts(self.values(), context@) =~= Seq::empty());
                    assert(out@ + Seq::<u8>::empty() =~= out@);
                    Ok(())
                }
            },
            Some(p) => match encode_cells(p, context) {
                Err(e) => Err(e),
                Ok(cells) => {
                    append_bytes(out, cells.as_slice());
                    Ok(())
                },
            },
        }
    }

    /// Writes each parameter as one value to the driver's `writer`,
    /// encoded for the type at its position in `context`. On an error
    /// nothing is written.
    pub fn serialize(&self, context: &Vec<WireType>, writer: &mut RowWriter) -> (r: Result<
        (),
        EncodeError,
    >)
        ensures
            written_as(
                r,
                *old(writer),
                *final(writer),
                cells_spec(self.values(), context@),
                self.values().len(),
            ),
    {
        match &self.parameters {
            None => {
                if context.len() != 0 {
                    Err(EncodeError::ShapeMismatch)
                } else {
                    assert(argument_parts(self.values(), context@) =~= Seq::empty());
                    assert(written_bytes(*writer) + Seq::<u8>::empty() =~= written_bytes(*writer));
                    Ok(())
                }
            },
            Some(p) => match encode_arguments(p, context) {
                Err(e) => Err(e),
                Ok(bodies) => {
                    write_bodies(&bodies, writer, Ghost(p@), Ghost(context@));
                    Ok(())
                },
            },
        }
    }
}

fn write_bodies(
    bodies: &Vec<Vec<u8>>,
    writer: &mut RowWriter,
    Ghost(parameters): Ghost<Seq<ParameterValue>>,
    Ghost(context): Ghost<Seq<WireType>>,
)
    requires
        bodies_of(bodies@, parameters, context),
        parameters.len() == context.len(),
    ensures
        cells_spec(parameters, context) is Ok,
        written_bytes(*final(writer)) == written_bytes(*old(writer)) + cells_spec(
            parameters,
            context,
        )->Ok_0,
        written_count(*final(writer)) == written_count(*old(writer)) + parameters.len(),
{
    let n: usize = bodies.len();
    let ghost parts = argument_parts(parameters, context);
    let ghost mut acc = Seq::<u8>::empty();
    let mut i: usize = 0;
    proof {
        assert forall|j: int| 0 <= j < n implies (#[trigger] parts[j]) is Ok by {
            assert(parts[j] == Ok::<Seq<u8>, EncodeError>(cell_bytes(Some(bodies@[j]@))));
        }
        lemma_join_of_cells(parts, n as int);
        assert(parts.skip(0) =~= parts);
        assert(written_bytes(*writer) + acc =~= written_bytes(*writer));
        match join(parts) {
            Ok(all) => {
                assert(acc + all =~= all);
            },
            Err(_) => {},
        }
    }
    while i < n
        invariant
            n == bodies@.len(),
            i <= n,
            bodies_of(bodies@, parameters, context),
            parts == argument_parts(parameters, context),
            parts.len() == n,
            join(parts.skip(i as int)) is Ok,
            join(parts) == Ok::<Seq<u8>, EncodeError>(acc + join(parts.skip(i as int))->Ok_0),
            written_bytes(*writer) == written_bytes(*old(writer)) + acc,
            written_count(*writer) == written_count(*old(writer)) + i,
        decreases n - i,
    {
        proof {
            lemma_join_step(parts, i as int);
            let part = cell_bytes(Some(bodies@[i as int]@));
            let tail = join(parts.skip(i + 1))->Ok_0;
            assert(parts[i as int] == Ok::<Seq<u8>, EncodeError>(part));
            assert(acc + (part + tail) =~= (acc + part) + tail);
            assert(written_bytes(*old(writer)) + (acc + part) =~= (written_bytes(*old(writer))
                + acc) + part);
            acc = acc + part;
        }
        write_value(writer, bodies[i].as_slice());
        i = i + 1;
    }
    proof {
        assert(parts.skip(n as int) =~= Seq::empty());
        assert(acc + Seq::<u8>::empty() =~= acc);
    }
}

/// Parts that are all cells join without an error.
proof fn lemma_join_of_cells(parts: Seq<Result<Seq<u8>, EncodeError>>, n: int)
    requires
        n == parts.len(),
        forall|i: int| 0 <= i < n ==> (#[trigger] parts[i]) is Ok,
    ensures
        forall|i: int| 0 <= i <= n ==> (#[trigger] join(parts.skip(i))) is Ok,
{
    assert forall|i: int| 0 <= i <= n implies (#[trigger] join(parts.skip(i))) is Ok by {
        lemma_join_from(parts, i);
    }
}

proof fn lemma_join_from(parts: Seq<Result<Seq<u8>, EncodeError>>, i: int)
    requires
        0 <= i <= parts.len(),
        forall|j: int| 0 <= j < parts.len() ==> (#[trigger] parts[j]) is Ok,
    ensures
        join(parts.skip(i)) is Ok,
    decreases parts.len() - i,
{
    if i < parts.len() {
        lemma_join_from(parts, i + 1);
        lemma_join_step(parts, i);
    }
}

/// Whether the parameter at `i` is the first whose cell is an error, and
/// `e` that error.
pub open spec fn fails_first_at(
    parameters: Seq<ParameterValue>,
    context: Seq<WireType>,
    i: int,
    e: EncodeError,
) -> bool {
    &&& 0 <= i < parameters.len()
    &&& argument_parts(parameters, context)[i] == Err::<Seq<u8>, EncodeError>(e)
    &&& forall|j: int| 0 <= j < i ==> (#[trigger] argument_parts(parameters, context)[j]) is Ok
}

/// Finds the parameter that makes the arguments fail, for the message
/// that the host is shown: the position of the first parameter that
/// cannot be encoded for the type at its position, with the error, or
/// `None` where every parameter can.
pub fn failing_parameter(parameters: &Vec<ParameterValue>, context: &Vec<WireType>) -> (r: Option<
    (usize, EncodeError),
>)
    requires
        parameters@.len() == context@.len(),
    ensures
        match r {
            Some((i, e)) => fails_first_at(parameters@, context@, i as int, e) && cells_spec(
                parameters@,
                context@,
            ) == Err::<Seq<u8>, EncodeError>(e),
            None => cells_spec(parameters@, context@) is Ok,
        },
{
    let n: usize = parameters.len();
    let ghost parts = argument_parts(parameters@, context@);
    let mut i: usize = 0;
    while i < n
        invariant
            n == parameters@.len(),
            n == context@.len(),
            i <= n,
            parts == argument_parts(parameters@, context@),
            forall|j: int| 0 <= j < i ==> (#[trigger] parts[j]) is Ok,
        decreases n - i,
    {
        proof {
            assert(parts[i as int] == framed(
                encode_value_spec(parameters@[i as int], context@[i as int]),
            ));
        }
        match encode_value(&parameters[i], &context[i]) {
            Err(e) => {
                proof {
                    lemma_join_first_error(parts, i as int, e);
                }
                return Some((i, e));
            },
            Ok(body) => {
                if body.len() > MAX_LENGTH {
                    proof {
                        lemma_join_first_error(parts, i as int, EncodeError::NumericOverflow);
                    }
                    return Some((i, EncodeError::NumericOverflow));
                }
            },
        }
        i = i + 1;
    }
    proof {
        lemma_join_from(parts, 0);
        assert(parts.skip(0) =~= parts);
    }
    None
}

/// The first error among the parts is the error of the whole.
pub proof fn lemma_join_first_error(parts: Seq<Result<Seq<u8>, EncodeError>>, i: int, e: EncodeError)
    requires
        0 <= i < parts.len(),
        parts[i] == Err::<Seq<u8>, EncodeError>(e),
        forall|j: int| 0 <= j < i ==> (#[trigger] parts[j]) is Ok,
    ensures
        join(parts) == Err::<Seq<u8>, EncodeError>(e),
    decreases i,
{
    if i > 0 {
        let rest = parts.drop_first();
        assert(rest[i - 1] == parts[i]);
        assert forall|j: int| 0 <= j < i - 1 implies (#[trigger] rest[j]) is Ok by {
            assert(rest[j] == parts[j + 1]);
        }
        lemma_join_first_error(rest, i - 1, e);
    }
}

} // verus!
