//! The data of a file: elements of one width, one after the other.

use vstd::prelude::*;
use crate::data_type::{
    bytes_to_data_value, lemma_size_values, spec_bytes_to_data_value, DataType, DataValue,
};
use crate::endian::Endianness;
use crate::error::Error;
use crate::header::{Header, HeaderView};
use crate::util::{bytes_from, capped_sum, lemma_push_then_concat};

verus! {

/// What reading the data comes to: the elements in the order of the file,
/// the bytes that were consumed, and the error that stopped the reading, if
/// one did.
pub struct DataScan {
    pub values: Seq<DataValue>,
    pub consumed: nat,
    pub error: Option<Error>,
}

/// The elements that lie back to back at the front of `region`, while fewer
/// than `size` bytes are consumed.
///
/// Every element takes the bytes of its data type. Where the region ends
/// before an element is complete, the reading ends without an error and
/// without that element. An element whose bytes are no value of the data type
/// stops the reading with an error.
#[verifier::opaque]
pub open spec fn data_values(
    region: Seq<u8>,
    size: int,
    data_type: DataType,
    endianness: Endianness,
) -> DataScan
    decreases region.len(),
{
    let width = data_type.spec_size();
    if size <= 0 || region.len() < width {
        DataScan { values: Seq::empty(), consumed: 0, error: None }
    } else {
        match spec_bytes_to_data_value(data_type, endianness, region.take(width as int)) {
            Err(e) => DataScan { values: Seq::empty(), consumed: width, error: Some(e) },
            Ok(value) => {
                let rest = data_values(
                    region.skip(width as int),
                    size - width,
                    data_type,
                    endianness,
                );
                DataScan {
                    values: seq![value] + rest.values,
                    consumed: width + rest.consumed,
                    error: rest.error,
                }
            },
        }
    }
}

/// What reading the data of a file comes to, given the file's bytes and its
/// main header. The header keeps the data's start and size as doubles; their
/// whole parts count.
pub open spec fn spec_read_data(file: Seq<u8>, header: HeaderView) -> DataScan {
    data_values(
        bytes_from(file, header.data_start.spec_to_usize() as int),
        header.data_size.spec_to_usize() as int,
        header.data_type,
        header.data_endianness,
    )
}

/// A cursor over the data of a file that is read piece by piece.
///
/// The cursor reads nothing itself. It says how many bytes it wants next
/// (`wanted`), and is handed what a read of exactly that many bytes at the
/// file's current position gave (`next`); the first read is made at
/// `offset`. It keeps count of the bytes consumed and knows when the data is
/// used up.
#[derive(Debug, Clone, Copy)]
pub struct DataCursor {
    consumed: usize,
    offset: usize,
    size: usize,
    endianness: Endianness,
    data_type: DataType,
    done: bool,
}

/// What a cursor over the data holds.
pub struct DataCursorView {
    /// The bytes consumed so far.
    pub consumed: usize,
    /// Where the data starts in the file.
    pub offset: usize,
    /// The size of the data in bytes.
    pub size: usize,
    /// The byte order of the data's numbers.
    pub endianness: Endianness,
    /// The type of every element.
    pub data_type: DataType,
    /// Whether the reading has ended before the data was used up.
    pub done: bool,
}

/// A cursor that has read nothing yet.
pub open spec fn data_cursor_start(
    offset: usize,
    size: usize,
    endianness: Endianness,
    data_type: DataType,
) -> DataCursorView {
    DataCursorView { consumed: 0, offset, size, endianness, data_type, done: false }
}

/// The bytes that a cursor wants next: one element while the data is not
/// used up, and nothing once the reading has ended.
pub open spec fn data_cursor_wanted(s: DataCursorView) -> usize {
    if s.done || s.consumed >= s.size {
        0
    } else {
        s.data_type.spec_size() as usize
    }
}

/// A cursor and what it yields after it was handed `data`.
///
/// A cursor that wants nothing stays as it is and yields nothing. Data of
/// another length than was wanted is a read that came short: the reading
/// ends, and nothing more is consumed. Otherwise the element is consumed and
/// decoded, and a failure to decode ends the reading.
#[verifier::opaque]
pub open spec fn data_cursor_next(s: DataCursorView, data: Seq<u8>) -> (
    DataCursorView,
    Option<Result<DataValue, Error>>,
) {
    let wanted = data_cursor_wanted(s);
    if wanted == 0 {
        (s, None)
    } else if data.len() != wanted {
        (DataCursorView { done: true, ..s }, None)
    } else {
        let consumed = capped_sum(s.consumed, wanted);
        match spec_bytes_to_data_value(s.data_type, s.endianness, data) {
            Ok(value) => (DataCursorView { consumed, ..s }, Some(Ok(value))),
            Err(e) => (DataCursorView { consumed, done: true, ..s }, Some(Err(e))),
        }
    }
}

impl View for DataCursor {
    type V = DataCursorView;

    closed spec fn view(&self) -> DataCursorView {
        DataCursorView {
            consumed: self.consumed,
            offset: self.offset,
            size: self.size,
            endianness: self.endianness,
            data_type: self.data_type,
            done: self.done,
        }
    }
}

impl DataCursor {
    /// A cursor over the data that starts at `offset` in the file and is
    /// `size` bytes long, its elements of the given type and byte order.
    pub fn new(offset: usize, size: usize, endianness: Endianness, data_type: DataType) -> (it:
        Self)
        ensures
            it@ == data_cursor_start(offset, size, endianness, data_type),
    {
        DataCursor { consumed: 0, offset, size, endianness, data_type, done: false }
    }

    /// Where the data starts in the file.
    pub fn offset(&self) -> (n: usize)
        ensures
            n == self@.offset,
    {
        self.offset
    }

    /// The size of the data in bytes.
    pub fn size(&self) -> (n: usize)
        ensures
            n == self@.size,
    {
        self.size
    }

    /// The bytes consumed so far.
    pub fn consumed(&self) -> (n: usize)
        ensures
            n == self@.consumed,
    {
        self.consumed
    }

    /// The type of every element.
    pub fn data_type(&self) -> (t: DataType)
        ensures
            t == self@.data_type,
    {
        self.data_type
    }

    /// How many bytes to read next and hand to `next`; zero where the
    /// sequence has ended.
    pub fn wanted(&self) -> (n: usize)
        ensures
            n == data_cursor_wanted(self@),
    {
        if self.done || self.consumed >= self.size {
            0
        } else {
            self.data_type.size()
        }
    }

    /// Takes what a read of `wanted` bytes gave and yields the element that
    /// the bytes hold. Data of any other length stands for a read that came
    /// short.
    pub fn next(&mut self, data: &[u8]) -> (item: Option<Result<DataValue, Error>>)
        ensures
            (final(self)@, item) == data_cursor_next(old(self)@, data@),
    {
        proof {
            reveal(data_cursor_next);
        }
        let wanted = self.wanted();
        if wanted == 0 {
            return None;
        }
        if data.len() != wanted {
            self.done = true;
            return None;
        }
        self.consumed = self.consumed.saturating_add(wanted);
        match bytes_to_data_value(&self.data_type, self.endianness, data) {
            Ok(value) => Some(Ok(value)),
            Err(e) => {
                self.done = true;
                Some(Err(e))
            },
        }
    }
}

/// Nothing is read where the data is used up or the region ends before an
/// element.
pub proof fn lemma_data_values_end(
    region: Seq<u8>,
    size: int,
    data_type: DataType,
    endianness: Endianness,
)
    requires
        size <= 0 || region.len() < data_type.spec_size(),
    ensures
        data_values(region, size, data_type, endianness) == (DataScan {
            values: Seq::empty(),
            consumed: 0,
            error: None,
        }),
{
    reveal(data_values);
}

/// A cursor that is handed the bytes of the next element does what
/// `data_values` says of this element.
pub proof fn lemma_cursor_reads_element(s: DataCursorView, here: Seq<u8>)
    requires
        !s.done,
        s.consumed < s.size,
        here.len() >= s.data_type.spec_size(),
        s.consumed + here.len() <= usize::MAX,
    ensures
        ({
            let width = s.data_type.spec_size() as int;
            let (t, item) = data_cursor_next(s, here.take(width));
            let rest = data_values(here, s.size - s.consumed, s.data_type, s.endianness);
            let next = data_values(
                here.skip(width),
                s.size - s.consumed - width,
                s.data_type,
                s.endianness,
            );
            match item {
                Some(Ok(value)) => {
                    &&& t == (DataCursorView { consumed: (s.consumed + width) as usize, ..s })
                    &&& rest.values == seq![value] + next.values
                    &&& rest.error == next.error
                    &&& rest.consumed == width + next.consumed
                },
                Some(Err(e)) => {
                    &&& t.consumed == s.consumed + width
                    &&& rest == (DataScan {
                        values: Seq::empty(),
                        consumed: width as nat,
                        error: Some(e),
                    })
                },
                None => false,
            }
        }),
{
    reveal(data_values);
    reveal(data_cursor_next);
    lemma_size_values(s.data_type);
}

/// Reads the elements of the data from the bytes of a file, whose main header
/// says where the data lies and what its elements are.
pub fn read_data(file: &[u8], header: &Header) -> (r: Result<Vec<DataValue>, Error>)
    ensures
        match r {
            Ok(values) => spec_read_data(file@, header@).error is None && values@
                == spec_read_data(file@, header@).values,
            Err(e) => spec_read_data(file@, header@).error == Some(e),
        },
{
    let mut values: Vec<DataValue> = Vec::new();
    let start = header.data_start.to_usize();
    let size = header.data_size.to_usize();
    let total = file.len();
    if start > total {
        proof {
            lemma_data_values_end(
                Seq::empty(),
                size as int,
                header.data_type,
                header.data_endianness,
            );
        }
        return Ok(values);
    }
    let mut it = DataCursor::new(start, size, header.data_endianness, header.data_type);
    let ghost region = file@.skip(start as int);
    let ghost first = it@;
    proof {
        assert(region.skip(0) == region);
    }
    loop
        invariant
            start <= total == file@.len(),
            start == header.data_start.spec_to_usize(),
            size == header.data_size.spec_to_usize(),
            region == file@.skip(start as int),
            first == data_cursor_start(start, size, header.data_endianness, header.data_type),
            it@ == (DataCursorView { consumed: it@.consumed, ..first }),
            it@.consumed <= total - start,
            ({
                let all = data_values(region, size as int, first.data_type, first.endianness);
                let rest = data_values(
                    region.skip(it@.consumed as int),
                    size - it@.consumed,
                    first.data_type,
                    first.endianness,
                );
                &&& all.values == values@ + rest.values
                &&& all.error == rest.error
            }),
        ensures
            ({
                let rest = data_values(
                    region.skip(it@.consumed as int),
                    size - it@.consumed,
                    first.data_type,
                    first.endianness,
                );
                rest.values == Seq::<DataValue>::empty() && rest.error is None
            }),
        decreases total - start - it@.consumed,
    {
        let wanted = it.wanted();
        let position = start + it.consumed();
        let ghost before = it@.consumed;
        let ghost here = region.skip(before as int);
        proof {
            lemma_size_values(first.data_type);
        }
        if wanted == 0 || total - position < wanted {
            proof {
                lemma_data_values_end(here, size - before, first.data_type, first.endianness);
            }
            break ;
        }
        proof {
            lemma_cursor_reads_element(it@, here);
            assert(here.take(wanted as int) == file@.subrange(
                position as int,
                position + wanted,
            ));
            assert(here.skip(wanted as int) == region.skip(before + wanted));
        }
        match it.next(&file[position..position + wanted]) {
            Some(Ok(value)) => {
                proof {
                    let rest = data_values(
                        here.skip(wanted as int),
                        size - before - wanted,
                        first.data_type,
                        first.endianness,
                    );
                    lemma_push_then_concat(values@, value, rest.values);
                }
                values.push(value);
            },
            Some(Err(e)) => {
                return Err(e);
            },
            None => {
                break ;
            },
        }
    }
    Ok(values)
}

/// What a cursor yields when it is driven over `region`: it is handed the
/// bytes that it wants, from the front of the region on, until it wants
/// nothing or the region has fewer bytes than it wants.
pub open spec fn data_cursor_run(s: DataCursorView, region: Seq<u8>) -> DataScan
    decreases region.len(),
{
    let wanted = data_cursor_wanted(s);
    if wanted == 0 || region.len() < wanted {
        DataScan { values: Seq::empty(), consumed: s.consumed as nat, error: None }
    } else {
        let (t, item) = data_cursor_next(s, region.take(wanted as int));
        match item {
            Some(Ok(value)) => {
                let rest = data_cursor_run(t, region.skip(wanted as int));
                DataScan { values: seq![value] + rest.values, ..rest }
            },
            Some(Err(e)) => DataScan {
                values: Seq::empty(),
                consumed: t.consumed as nat,
                error: Some(e),
            },
            None => DataScan { values: Seq::empty(), consumed: t.consumed as nat, error: None },
        }
    }
}

/// A cursor that is driven over a region yields the elements that lie in the
/// region, and counts the bytes that they take.
pub proof fn lemma_cursor_yields_the_data(s: DataCursorView, region: Seq<u8>)
    requires
        !s.done,
        s.consumed + region.len() <= usize::MAX,
    ensures
        ({
            let driven = data_cursor_run(s, region);
            let read = data_values(region, s.size - s.consumed, s.data_type, s.endianness);
            &&& driven.values == read.values
            &&& driven.error == read.error
            &&& driven.consumed == s.consumed + read.consumed
        }),
    decreases region.len(),
{
    lemma_size_values(s.data_type);
    let wanted = data_cursor_wanted(s);
    if wanted == 0 || region.len() < wanted {
        lemma_data_values_end(region, s.size - s.consumed, s.data_type, s.endianness);
    } else {
        lemma_cursor_reads_element(s, region);
        let (t, item) = data_cursor_next(s, region.take(wanted as int));
        if item matches Some(Ok(value)) {
            lemma_cursor_yields_the_data(t, region.skip(wanted as int));
        }
    }
}

/// Two cursors that were made for the same data yield the same elements from
/// the same bytes, and these are the elements that `read_data` returns.
pub proof fn lemma_data_cursors_agree(a: DataCursorView, b: DataCursorView, region: Seq<u8>)
    requires
        a == data_cursor_start(a.offset, a.size, a.endianness, a.data_type),
        b == data_cursor_start(a.offset, a.size, a.endianness, a.data_type),
        region.len() <= usize::MAX,
    ensures
        data_cursor_run(a, region) == data_cursor_run(b, region),
        data_cursor_run(a, region) == data_values(
            region,
            a.size as int,
            a.data_type,
            a.endianness,
        ),
{
    lemma_cursor_yields_the_data(a, region);
    let driven = data_cursor_run(a, region);
    let read = data_values(region, a.size as int, a.data_type, a.endianness);
    assert(driven.consumed == read.consumed);
}

/// Every element that is read is of the data type that was asked for.
pub proof fn lemma_values_have_the_data_type(
    region: Seq<u8>,
    size: int,
    data_type: DataType,
    endianness: Endianness,
    i: int,
)
    requires
        0 <= i < data_values(region, size, data_type, endianness).values.len(),
    ensures
        data_values(region, size, data_type, endianness).values[i].spec_data_type() == data_type,
    decreases region.len(),
{
    reveal(data_values);
    lemma_size_values(data_type);
    let width = data_type.spec_size();
    if size > 0 && region.len() >= width {
        if spec_bytes_to_data_value(data_type, endianness, region.take(width as int)) is Ok {
            if i > 0 {
                lemma_values_have_the_data_type(
                    region.skip(width as int),
                    size - width,
                    data_type,
                    endianness,
                    i - 1,
                );
            }
        }
    }
}

/// Rounding up the quotient of a size by a width of 1, 2, 4, 8 or 16.
proof fn lemma_rounded_up(size: int, width: int)
    requires
        width == 1 || width == 2 || width == 4 || width == 8 || width == 16,
    ensures
        (size + width - 1) / width == (size - 1) / width + 1,
        -width < size <= 0 ==> (size + width - 1) / width == 0,
        size % width == 0 ==> (size + width - 1) / width == size / width && (size / width) * width
            == size,
{
    if width == 1 {
        assert((size + 1 - 1) / 1 == (size - 1) / 1 + 1);
        assert((size / 1) * 1 == size);
    } else if width == 2 {
        assert((size + 2 - 1) / 2 == (size - 1) / 2 + 1);
        assert(size % 2 == 0 ==> (size + 2 - 1) / 2 == size / 2 && (size / 2) * 2 == size);
    } else if width == 4 {
        assert((size + 4 - 1) / 4 == (size - 1) / 4 + 1);
        assert(size % 4 == 0 ==> (size + 4 - 1) / 4 == size / 4 && (size / 4) * 4 == size);
    } else if width == 8 {
        assert((size + 8 - 1) / 8 == (size - 1) / 8 + 1);
        assert(size % 8 == 0 ==> (size + 8 - 1) / 8 == size / 8 && (size / 8) * 8 == size);
    } else {
        assert((size + 16 - 1) / 16 == (size - 1) / 16 + 1);
        assert(size % 16 == 0 ==> (size + 16 - 1) / 16 == size / 16 && (size / 16) * 16 == size);
    }
}

/// The count of the values that are read, also for a size that the last
/// element has passed.
proof fn lemma_count_of_values_from(
    region: Seq<u8>,
    size: int,
    data_type: DataType,
    endianness: Endianness,
)
    requires
        -data_type.spec_size() < size,
        data_values(region, size, data_type, endianness).error is None,
        region.len() >= size + data_type.spec_size() - 1,
    ensures
        ({
            let read = data_values(region, size, data_type, endianness);
            let width = data_type.spec_size() as int;
            &&& read.values.len() == (size + width - 1) / width
            &&& read.consumed == read.values.len() * width
        }),
    decreases region.len(),
{
    reveal(data_values);
    lemma_size_values(data_type);
    let width = data_type.spec_size() as int;
    let read = data_values(region, size, data_type, endianness);
    lemma_rounded_up(size, width);
    if size > 0 {
        lemma_count_of_values_from(region.skip(width), size - width, data_type, endianness);
        let rest = data_values(region.skip(width), size - width, data_type, endianness);
        lemma_rounded_up(size - width, width);
        assert(read.values.len() == rest.values.len() + 1);
        assert(read.consumed == rest.consumed + width);
        assert((rest.values.len() + 1) * width == rest.values.len() * width + width)
            by (nonlinear_arith);
    } else {
        assert(read.values.len() == 0);
        assert(read.consumed == 0);
        assert(0 * width == 0);
    }
}

/// Where the region holds all of the data and every element decodes, the
/// elements that are read are as many as the data's size has room for: the
/// size divided by an element's width, rounded up.
pub proof fn lemma_count_of_values(
    region: Seq<u8>,
    size: int,
    data_type: DataType,
    endianness: Endianness,
)
    requires
        0 <= size,
        data_values(region, size, data_type, endianness).error is None,
        region.len() >= size + data_type.spec_size() - 1,
    ensures
        ({
            let read = data_values(region, size, data_type, endianness);
            let width = data_type.spec_size() as int;
            &&& read.values.len() == (size + width - 1) / width
            &&& read.consumed == read.values.len() * width
            &&& size % width == 0 ==> read.values.len() == size / width && read.consumed == size
        }),
{
    lemma_size_values(data_type);
    lemma_count_of_values_from(region, size, data_type, endianness);
    lemma_rounded_up(size, data_type.spec_size() as int);
}

} // verus!
