//! Files of the family 2000: frames of elements along two axes.

use vstd::prelude::*;
use crate::adjunct::{
    read_type2000_adjunct_header, spec_type2000_adjunct, Type2000Adjunct,
};
use crate::data::{
    data_cursor_next, data_cursor_start, data_cursor_wanted, DataCursor, DataCursorView,
};
use crate::data_type::{DataType, DataValue};
use crate::endian::Endianness;
use crate::error::Error;
use crate::ext_header::{ext_cursor_start, ExtHeaderIter};
use crate::header::{read_header, spec_read_header, Header, HeaderView};
use crate::type_code::TypeCode;

verus! {

/// A cursor over the data of a file of the family 2000. It is driven as a
/// `DataCursor` is, and carries the adjunct header along.
#[derive(Debug, Clone, Copy)]
pub struct Type2000DataIter {
    cursor: DataCursor,
    adjunct: Type2000Adjunct,
}

/// What a cursor over the data of a file of the family 2000 holds.
pub struct Type2000DataIterView {
    pub cursor: DataCursorView,
    pub adjunct: Type2000Adjunct,
}

impl View for Type2000DataIter {
    type V = Type2000DataIterView;

    closed spec fn view(&self) -> Type2000DataIterView {
        Type2000DataIterView { cursor: self.cursor@, adjunct: self.adjunct }
    }
}

impl Type2000DataIter {
    /// A cursor over the data that starts at `offset` in the file and is
    /// `size` bytes long.
    pub fn new(
        offset: usize,
        size: usize,
        endianness: Endianness,
        data_type: DataType,
        adjunct: Type2000Adjunct,
    ) -> (it: Self)
        ensures
            it@ == (Type2000DataIterView {
                cursor: data_cursor_start(offset, size, endianness, data_type),
                adjunct,
            }),
    {
        Type2000DataIter { cursor: DataCursor::new(offset, size, endianness, data_type), adjunct }
    }

    /// Where the data starts in the file.
    pub fn offset(&self) -> (n: usize)
        ensures
            n == self@.cursor.offset,
    {
        self.cursor.offset()
    }

    /// The bytes consumed so far.
    pub fn consumed(&self) -> (n: usize)
        ensures
            n == self@.cursor.consumed,
    {
        self.cursor.consumed()
    }

    /// The adjunct header of the file.
    pub fn adjunct(&self) -> (a: Type2000Adjunct)
        ensures
            a == self@.adjunct,
    {
        self.adjunct
    }

    /// How many bytes to read next and hand to `next`; zero where the
    /// sequence has ended.
    pub fn wanted(&self) -> (n: usize)
        ensures
            n == data_cursor_wanted(self@.cursor),
    {
        self.cursor.wanted()
    }

    /// Takes what a read of `wanted` bytes gave and yields the element that
    /// the bytes hold. Data of any other length stands for a read that came
    /// short, which ends the sequence.
    pub fn next(&mut self, data: &[u8]) -> (item: Option<Result<DataValue, Error>>)
        ensures
            final(self)@.adjunct == old(self)@.adjunct,
            (final(self)@.cursor, item) == data_cursor_next(old(self)@.cursor, data@),
    {
        self.cursor.next(data)
    }
}

/// A file of the family 2000, opened: its main header and its adjunct
/// header.
#[derive(Debug)]
pub struct Type2000Reader {
    header: Header,
    adj_header: Type2000Adjunct,
}

/// What a reader of a file of the family 2000 holds.
pub struct Type2000ReaderView {
    pub header: HeaderView,
    pub adj_header: Type2000Adjunct,
}

impl View for Type2000Reader {
    type V = Type2000ReaderView;

    closed spec fn view(&self) -> Type2000ReaderView {
        Type2000ReaderView { header: self.header@, adj_header: self.adj_header }
    }
}

/// What opening a file of the family 2000 comes to, given what was read at
/// the start of the file and at the adjunct header's offset. The main header
/// is judged first, then the family, then the adjunct header.
pub open spec fn spec_type2000_reader(header_data: Seq<u8>, adjunct_data: Seq<u8>) -> Result<
    Type2000ReaderView,
    Error,
> {
    match spec_read_header(header_data) {
        Err(e) => Err(e),
        Ok(header) => if !(header.type_code is Type2000) {
            Err(Error::TypeCodeMismatchError)
        } else {
            match spec_type2000_adjunct(adjunct_data, header.header_endianness) {
                Err(e) => Err(e),
                Ok(adj_header) => Ok(Type2000ReaderView { header, adj_header }),
            }
        },
    }
}

impl Type2000Reader {
    /// A reader's file is of the family 2000.
    #[verifier::type_invariant]
    spec fn well_formed(self) -> bool {
        self.header.type_code is Type2000
    }

    /// Opens a file of the family 2000 from what was read at its start and
    /// at the adjunct header's offset.
    pub fn new(header_data: &[u8], adjunct_data: &[u8]) -> (r: Result<Self, Error>)
        ensures
            match r {
                Ok(reader) => spec_type2000_reader(header_data@, adjunct_data@) == Ok::<
                    Type2000ReaderView,
                    Error,
                >(reader@),
                Err(e) => spec_type2000_reader(header_data@, adjunct_data@) == Err::<
                    Type2000ReaderView,
                    Error,
                >(e),
            },
    {
        let header = read_header(header_data)?;
        match header.type_code {
            TypeCode::Type2000(_) => {},
            _ => {
                return Err(Error::TypeCodeMismatchError);
            },
        }
        let adj_header = read_type2000_adjunct_header(adjunct_data, &header)?;
        Ok(Type2000Reader { header, adj_header })
    }

    /// The main header.
    pub fn get_header(&self) -> (header: &Header)
        ensures
            header@ == self@.header,
            header@.type_code is Type2000,
    {
        proof {
            use_type_invariant(self);
        }
        &self.header
    }

    /// The size of the extended header in bytes.
    pub fn get_ext_size(&self) -> (n: usize)
        ensures
            n == self@.header.ext_size,
    {
        self.header.ext_size
    }

    /// Where the extended header starts, in bytes from the start of the file.
    pub fn get_ext_start(&self) -> (n: usize)
        ensures
            n == self@.header.ext_start,
    {
        self.header.ext_start
    }

    /// The adjunct header.
    pub fn get_adj_header(&self) -> (a: Type2000Adjunct)
        ensures
            a == self@.adj_header,
    {
        self.adj_header
    }

    /// Where the data starts, in bytes from the start of the file: the whole
    /// part of the header's double.
    pub fn get_data_start(&self) -> (n: usize)
        ensures
            n == self@.header.data_start.spec_to_usize(),
    {
        self.header.data_start.to_usize()
    }

    /// The size of the data in bytes: the whole part of the header's double.
    pub fn get_data_size(&self) -> (n: usize)
        ensures
            n == self@.header.data_size.spec_to_usize(),
    {
        self.header.data_size.to_usize()
    }

    /// The byte order of the numbers in the headers.
    pub fn get_header_endianness(&self) -> (e: Endianness)
        ensures
            e == self@.header.header_endianness,
    {
        self.header.header_endianness
    }

    /// The byte order of the numbers in the data.
    pub fn get_data_endianness(&self) -> (e: Endianness)
        ensures
            e == self@.header.data_endianness,
    {
        self.header.data_endianness
    }

    /// A cursor over the extended header that has read nothing yet.
    pub fn get_ext_iter(&self) -> (it: ExtHeaderIter)
        ensures
            it@ == ext_cursor_start(
                self@.header.ext_start,
                self@.header.ext_size,
                self@.header.header_endianness,
            ),
    {
        ExtHeaderIter::new(
            self.get_ext_start(),
            self.get_ext_size(),
            self.get_header_endianness(),
        )
    }

    /// A cursor over the data that has read nothing yet.
    pub fn get_data_iter(&self) -> (it: Type2000DataIter)
        ensures
            it@ == (Type2000DataIterView {
                cursor: data_cursor_start(
                    self@.header.data_start.spec_to_usize(),
                    self@.header.data_size.spec_to_usize(),
                    self@.header.data_endianness,
                    self@.header.data_type,
                ),
                adjunct: self@.adj_header,
            }),
    {
        Type2000DataIter::new(
            self.get_data_start(),
            self.get_data_size(),
            self.get_data_endianness(),
            self.header.data_type,
            self.get_adj_header(),
        )
    }
}

} // verus!
