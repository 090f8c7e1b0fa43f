use vstd::prelude::*;
use vstd::slice::slice_to_vec;

verus! {

/// The error code that the boundary reports for the last failure.
#[derive(Debug, Clone, Copy, PartialEq, Eq)]
pub enum AvroErrorCode {
    NoError,
    Panic,
    Unknown,
}

impl AvroErrorCode {
    /// The code as a number: 0 for none, 1 for an internal fault, 3 otherwise.
    pub fn code(&self) -> (r: u32)
        ensures
            *self is NoError ==> r == 0,
            *self is Panic ==> r == 1,
            *self is Unknown ==> r == 3,
    {
        match self {
            AvroErrorCode::NoError => 0,
            AvroErrorCode::Panic => 1,
            AvroErrorCode::Unknown => 3,
        }
    }
}

/// Where a byte array's memory comes from.
enum ByteData<'a> {
    Borrowed(&'a [u8]),
    Owned(Vec<u8>),
}

/// The model of a boundary handle: what it refers to, and whether the holder
/// owns it.
pub struct HandleModel<T> {
    pub data: Seq<T>,
    pub owned: bool,
}

/// What a handle holds after it is released: an owned handle is cleared, a
/// borrowed one is left as it was.
pub open spec fn released<T>(h: HandleModel<T>) -> HandleModel<T> {
    if h.owned {
        HandleModel { data: Seq::empty(), owned: false }
    } else {
        h
    }
}

/// A byte array that crosses the boundary, tagged with its ownership.
pub struct AvroByteArray<'a> {
    data: ByteData<'a>,
    owned: bool,
}

impl<'a> AvroByteArray<'a> {
    pub closed spec fn view(&self) -> HandleModel<u8> {
        HandleModel {
            data: match self.data {
                ByteData::Borrowed(s) => s@,
                ByteData::Owned(v) => v@,
            },
            owned: self.owned,
        }
    }

    /// A handle that borrows memory owned elsewhere.
    pub fn new(s: &'a [u8]) -> (r: AvroByteArray<'a>)
        ensures
            r.view() == (HandleModel { data: s@, owned: false }),
    {
        AvroByteArray { data: ByteData::Borrowed(s), owned: false }
    }

    /// A handle that owns the given bytes.
    pub fn from_vec_u8(v: Vec<u8>) -> (r: AvroByteArray<'a>)
        ensures
            r.view() == (HandleModel { data: v@, owned: true }),
    {
        AvroByteArray { data: ByteData::Owned(v), owned: true }
    }

    /// Releases the handle: an owned handle frees its bytes and is cleared, so
    /// that a second release does nothing; a borrowed one is left untouched.
    pub fn free(&mut self)
        ensures
            final(self).view() == released(old(self).view()),
    {
        if self.owned {
            self.data = ByteData::Owned(Vec::new());
            self.owned = false;
        }
    }

    /// The bytes the handle refers to.
    pub fn as_slice(&self) -> (r: &[u8])
        ensures
            r@ == self.view().data,
    {
        match &self.data {
            ByteData::Borrowed(s) => s,
            ByteData::Owned(v) => v.as_slice(),
        }
    }

    /// The number of bytes the handle refers to.
    pub fn len(&self) -> (r: usize)
        ensures
            r == self.view().data.len(),
    {
        self.as_slice().len()
    }

    /// Whether the holder owns the bytes.
    pub fn is_owned(&self) -> (r: bool)
        ensures
            r == self.view().owned,
    {
        self.owned
    }

    /// The bytes, taken out of the handle.
    pub fn into_vec_u8(self) -> (r: Vec<u8>)
        ensures
            r@ == self.view().data,
    {
        match self.data {
            ByteData::Borrowed(s) => slice_to_vec(s),
            ByteData::Owned(v) => v,
        }
    }
}

/// Where a string's memory comes from.
enum StrData<'a> {
    Borrowed(&'a str),
    Owned(String),
}

/// A string that crosses the boundary, tagged with its ownership.
pub struct AvroStr<'a> {
    data: StrData<'a>,
    owned: bool,
}

impl<'a> AvroStr<'a> {
    pub closed spec fn view(&self) -> HandleModel<char> {
        HandleModel {
            data: match self.data {
                StrData::Borrowed(s) => s@,
                StrData::Owned(v) => v@,
            },
            owned: self.owned,
        }
    }

    /// A handle that borrows a string owned elsewhere.
    pub fn new(s: &'a str) -> (r: AvroStr<'a>)
        ensures
            r.view() == (HandleModel { data: s@, owned: false }),
    {
        AvroStr { data: StrData::Borrowed(s), owned: false }
    }

    /// A handle that owns the given string.
    pub fn from_string(s: String) -> (r: AvroStr<'a>)
        ensures
            r.view() == (HandleModel { data: s@, owned: true }),
    {
        AvroStr { data: StrData::Owned(s), owned: true }
    }

    /// Releases the handle: an owned handle frees its text and is cleared, so
    /// that a second release does nothing; a borrowed one is left untouched.
    pub fn free(&mut self)
        ensures
            final(self).view() == released(old(self).view()),
    {
        if self.owned {
            self.data = StrData::Owned(String::new());
            self.owned = false;
        }
    }

    /// The text the handle refers to.
    pub fn as_str(&self) -> (r: &str)
        ensures
            r@ == self.view().data,
    {
        match &self.data {
            StrData::Borrowed(s) => s,
            StrData::Owned(v) => v.as_str(),
        }
    }

    /// Whether the holder owns the text.
    pub fn is_owned(&self) -> (r: bool)
        ensures
            r == self.view().owned,
    {
        self.owned
    }

    /// The text, taken out of the handle.
    pub fn into_string(self) -> (r: String)
        ensures
            r@ == self.view().data,
    {
        match self.data {
            StrData::Borrowed(s) => s.to_owned(),
            StrData::Owned(v) => v,
        }
    }
}

impl<'a> Default for AvroStr<'a> {
    /// A cleared handle: no text, and nothing to release.
    fn default() -> (r: AvroStr<'a>)
        ensures
            r.view() == (HandleModel::<char> { data: Seq::empty(), owned: false }),
    {
        AvroStr { data: StrData::Owned(String::new()), owned: false }
    }
}

/// Releases a string handle.
pub fn avro_str_free(s: &mut AvroStr)
    ensures
        final(s).view() == released(old(s).view()),
{
    s.free();
}

impl<'a> Default for AvroByteArray<'a> {
    /// A cleared handle: no bytes, and nothing to release.
    fn default() -> (r: AvroByteArray<'a>)
        ensures
            r.view() == (HandleModel::<u8> { data: Seq::empty(), owned: false }),
    {
        AvroByteArray { data: ByteData::Owned(Vec::new()), owned: false }
    }
}

/// Releases a byte array handle.
pub fn avro_byte_array_free(a: &mut AvroByteArray)
    ensures
        final(a).view() == released(old(a).view()),
{
    a.free();
}


/// The kind of a failure recorded at the boundary.
#[derive(Debug, Clone, Copy, PartialEq, Eq)]
pub enum ErrorKind {
    /// A value did not fit its schema.
    Conversion,
    /// A collaborator (the schema, container or wire library) reported a failure.
    Collaborator,
    /// An invariant broke while a call ran.
    InternalFault,
}

/// A failure recorded at the boundary: its kind, its message and what
/// diagnostic trace could be had.
#[derive(Debug, Clone, PartialEq)]
pub struct LastError {
    pub kind: ErrorKind,
    pub message: String,
    pub trace: String,
}

/// The last-error slot of one execution context. It holds at most one
/// failure, the most recent; a success leaves it as it was.
pub struct ErrorSlot {
    pub last: Option<LastError>,
}

impl ErrorSlot {
    /// An empty slot.
    pub fn new() -> (r: ErrorSlot)
        ensures
            r.last is None,
    {
        ErrorSlot { last: None }
    }

    /// Records a failure, overwriting the one held before.
    pub fn record(&mut self, e: LastError)
        ensures
            final(self).last == Some(e),
    {
        self.last = Some(e);
    }

    /// Routes the outcome of a boundary call: a success is handed on and leaves
    /// the slot as it was; a failure is recorded and the caller is handed the
    /// sentinel `None`.
    pub fn capture<T>(&mut self, r: Result<T, LastError>) -> (v: Option<T>)
        ensures
            match r {
                Ok(x) => v == Some(x) && *final(self) == *old(self),
                Err(e) => v is None && final(self).last == Some(e),
            },
    {
        match r {
            Ok(x) => Some(x),
            Err(e) => {
                self.last = Some(e);
                None
            },
        }
    }
}

/// The code of the last failure: none, an internal fault, or another failure.
pub fn avro_err_get_last_code(slot: &ErrorSlot) -> (r: AvroErrorCode)
    ensures
        slot.last is None <==> r is NoError,
        (slot.last matches Some(e) && e.kind is InternalFault) <==> r is Panic,
        (slot.last matches Some(e) && !(e.kind is InternalFault)) <==> r is Unknown,
{
    match &slot.last {
        None => AvroErrorCode::NoError,
        Some(e) => match e.kind {
            ErrorKind::InternalFault => AvroErrorCode::Panic,
            _ => AvroErrorCode::Unknown,
        },
    }
}

/// The message of the last failure in an owned string, or a cleared handle
/// when there is none.
pub fn avro_err_get_last_message<'a>(slot: &ErrorSlot) -> (r: AvroStr<'a>)
    ensures
        r.view() == match slot.last {
            Some(e) => HandleModel { data: e.message@, owned: true },
            None => HandleModel { data: Seq::empty(), owned: false },
        },
{
    match &slot.last {
        Some(e) => AvroStr::from_string(e.message.clone()),
        None => AvroStr::default(),
    }
}

/// The diagnostic trace of the last failure in an owned string, or a cleared
/// handle when there is none.
pub fn avro_err_get_backtrace<'a>(slot: &ErrorSlot) -> (r: AvroStr<'a>)
    ensures
        r.view() == match slot.last {
            Some(e) => HandleModel { data: e.trace@, owned: true },
            None => HandleModel { data: Seq::empty(), owned: false },
        },
{
    match &slot.last {
        Some(e) => AvroStr::from_string(e.trace.clone()),
        None => AvroStr::default(),
    }
}

/// Clears the last failure.
pub fn avro_err_clear(slot: &mut ErrorSlot)
    ensures
        final(slot).last is None,
{
    slot.last = None;
}

/// Releasing a handle that does not own its memory leaves it as it was, still
/// referring to the same memory; releasing an owned handle clears it, and
/// releasing the cleared handle again changes nothing.
pub proof fn lemma_release<T>(h: HandleModel<T>)
    ensures
        !h.owned ==> released(h) == h,
        h.owned ==> released(h).data.len() == 0 && !released(h).owned,
        released(released(h)) == released(h),
{
}

} // verus!
