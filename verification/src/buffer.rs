//! Flat buffers: what crosses a foreign boundary.
//!
//! A flat buffer is a block of elements and a signed 32-bit length, with no
//! terminator and no capacity.  The block may be missing, which is how the
//! empty buffer is written down; a block of length zero is not the empty
//! buffer.  [`OwnedSlice`] holds its block and gives it up on release;
//! [`BorrowedSlice`] looks at a block that somebody else holds and can never
//! release it.

use vstd::prelude::*;
use vstd::string::{StrSliceExecFns, StringSliceAdditionalSpecFns};
use vstd::utf8::{decode_utf8, encode_utf8, valid_utf8};
use crate::containment::Contained;
use crate::dependency::{optional_text, Dependency, DependencyView};

verus! {

/// Whether a block of `length` elements can be written down with a signed
/// 32-bit length.
pub open spec fn fits(length: nat) -> bool {
    length <= i32::MAX
}

/// The text that a block of bytes spells, if it spells any.
pub open spec fn text_of(bytes: Seq<u8>) -> Option<Seq<char>> {
    if valid_utf8(bytes) {
        Some(decode_utf8(bytes))
    } else {
        None
    }
}

/// The bytes of a text where there is one.
pub open spec fn optional_bytes(text: Option<&str>) -> Option<Seq<u8>> {
    match text {
        Some(text) => Some(text.spec_bytes()),
        None => None,
    }
}

/// A block and its length, the block held in place.
pub struct RawSlice<T> {
    arr: Option<Vec<T>>,
    len: i32,
}

impl<T> View for RawSlice<T> {
    type V = Seq<T>;

    /// The elements of the block, and none where the block is missing.
    open spec fn view(&self) -> Seq<T> {
        match self.held() {
            Some(elements) => elements,
            None => Seq::empty(),
        }
    }
}

impl<T> RawSlice<T> {
    /// What the buffer holds: the elements of its block, or no block.
    pub closed spec fn held(&self) -> Option<Seq<T>> {
        match self.arr {
            Some(block) => Some(block@),
            None => None,
        }
    }

    /// Whether the block is missing.
    pub open spec fn is_null(&self) -> bool {
        self.held() is None
    }

    #[verifier::type_invariant]
    spec fn consistent(&self) -> bool {
        self.len == self@.len()
    }

    /// The empty buffer: no block, length zero.
    pub fn empty() -> (raw: RawSlice<T>)
        ensures
            raw.is_null(),
            raw@ == Seq::<T>::empty(),
        opens_invariants none
        no_unwind
    {
        RawSlice { arr: None, len: 0 }
    }

    /// The buffer whose block holds the elements of `vec`.
    pub fn from_vec(vec: Vec<T>) -> (raw: RawSlice<T>)
        requires
            fits(vec@.len()),
        ensures
            !raw.is_null(),
            raw@ == vec@,
    {
        let len = vec.len() as i32;
        RawSlice { arr: Some(vec), len: len }
    }

    /// The number of elements, as it is written down: zero where the block
    /// is missing.
    pub fn len(&self) -> (len: i32)
        ensures
            len == self@.len(),
            self.is_null() ==> len == 0,
    {
        proof {
            use_type_invariant(self);
        }
        self.len
    }

    /// The block, where there is one.
    pub fn block(&self) -> (block: Option<&[T]>)
        ensures
            block is None <==> self.is_null(),
            block matches Some(elements) ==> elements@ == self@,
    {
        match &self.arr {
            Some(block) => Some(block.as_slice()),
            None => None,
        }
    }

    /// Takes the buffer apart: the block as it was put in, where there is
    /// one.
    pub fn into_vec(self) -> (block: Option<Vec<T>>)
        ensures
            block is None <==> self.is_null(),
            block matches Some(elements) ==> elements@ == self@,
    {
        self.arr
    }
}

/// A flat buffer that holds its block until it is released.
pub struct OwnedSlice<T> {
    data: RawSlice<T>,
}

impl<T> View for OwnedSlice<T> {
    type V = Seq<T>;

    /// The elements of the block, and none where the block is missing.
    open spec fn view(&self) -> Seq<T> {
        match self.held() {
            Some(elements) => elements,
            None => Seq::empty(),
        }
    }
}

impl<T> OwnedSlice<T> {
    /// What the buffer holds: the elements of its block, or no block.
    pub closed spec fn held(&self) -> Option<Seq<T>> {
        self.data.held()
    }

    /// Whether this is the empty buffer, which has no block.
    pub open spec fn is_null(&self) -> bool {
        self.held() is None
    }

    /// The empty buffer.
    pub fn empty() -> (owned: OwnedSlice<T>)
        ensures
            owned.is_null(),
            owned@ == Seq::<T>::empty(),
    {
        OwnedSlice { data: RawSlice::empty() }
    }

    /// The buffer that holds, for each element of `src` in order, what `f`
    /// makes of it.
    pub fn from_slice<E, F: Fn(&E) -> T>(src: &[E], f: F) -> (owned: OwnedSlice<T>)
        requires
            fits(src@.len()),
            forall|i: int| 0 <= i < src@.len() ==> call_requires(f, (&#[trigger] src@[i],)),
        ensures
            !owned.is_null(),
            owned@.len() == src@.len(),
            forall|i: int|
                0 <= i < src@.len() ==> call_ensures(f, (&src@[i],), #[trigger] owned@[i]),
    {
        let mut vec: Vec<T> = Vec::new();
        let mut i: usize = 0;
        while i < src.len()
            invariant
                0 <= i <= src@.len(),
                vec@.len() == i,
                forall|j: int| 0 <= j < src@.len() ==> call_requires(f, (&#[trigger] src@[j],)),
                forall|j: int| 0 <= j < i ==> call_ensures(f, (&src@[j],), #[trigger] vec@[j]),
            decreases src@.len() - i,
        {
            vec.push(f(&src[i]));
            i += 1;
        }
        OwnedSlice { data: RawSlice::from_vec(vec) }
    }

    /// The number of elements, as it is written down: zero where the block
    /// is missing.
    pub fn len(&self) -> (len: i32)
        ensures
            len == self@.len(),
            self.is_null() ==> len == 0,
    {
        self.data.len()
    }

    /// The block, where there is one.
    pub fn block(&self) -> (block: Option<&[T]>)
        ensures
            block is None <==> self.is_null(),
            block matches Some(elements) ==> elements@ == self@,
    {
        self.data.block()
    }

    /// A look at the block that lasts no longer than this buffer.
    pub fn borrow<'a>(&'a self) -> (view: BorrowedSlice<'a, T>)
        ensures
            view@ == self@,
            view.is_null() == self.is_null(),
    {
        match self.data.block() {
            Some(elements) => {
                proof {
                    use_type_invariant(&self.data);
                }
                BorrowedSlice::from_slice(elements)
            },
            None => BorrowedSlice::empty(),
        }
    }

    /// Hands the block over to the caller, who holds it from then on.  What
    /// is left is the empty buffer.
    pub fn transfer(&mut self) -> (block: Option<Vec<T>>)
        ensures
            block is None <==> old(self).is_null(),
            block matches Some(elements) ==> elements@ == old(self)@,
            final(self).is_null(),
            final(self)@ == Seq::<T>::empty(),
    {
        let mut raw = RawSlice::empty();
        core::mem::swap(&mut self.data, &mut raw);
        raw.into_vec()
    }

    /// Gives the block up.  What is left is the empty buffer, on which a
    /// further release changes nothing.
    pub fn release(&mut self)
        ensures
            final(self).is_null(),
            final(self)@ == Seq::<T>::empty(),
        opens_invariants none
        no_unwind
    {
        self.data = RawSlice::empty();
    }
}

impl<T> Drop for OwnedSlice<T> {
    /// Releases the block when the buffer goes away.
    fn drop(&mut self)
        opens_invariants none
        no_unwind
    {
        self.release();
    }
}

impl OwnedSlice<u8> {
    /// The buffer that holds the bytes of `src`.
    pub fn from_str(src: &str) -> (owned: OwnedSlice<u8>)
        requires
            fits(src.spec_bytes().len()),
        ensures
            !owned.is_null(),
            owned@ == src.spec_bytes(),
    {
        OwnedSlice { data: RawSlice::from_vec(src.as_bytes_vec()) }
    }

    /// The buffer that holds the bytes of `src`, and the empty buffer where
    /// there is no string.
    pub fn from_str_opt(src: Option<&str>) -> (owned: OwnedSlice<u8>)
        requires
            src matches Some(text) ==> fits(text.spec_bytes().len()),
        ensures
            owned.held() == optional_bytes(src),
    {
        match src {
            Some(text) => OwnedSlice::from_str(text),
            None => OwnedSlice::empty(),
        }
    }
}

/// The buffer that holds the bytes of the string that `src` points at.
fn buffer_of(src: &&str) -> (owned: OwnedSlice<u8>)
    requires
        fits(src.spec_bytes().len()),
    ensures
        owned.held() == Some(src.spec_bytes()),
{
    OwnedSlice::from_str(*src)
}

impl OwnedSlice<OwnedSlice<u8>> {
    /// The buffer of buffers that holds the bytes of each string of `src`,
    /// in order.  Every one of them reads back as the string it was made of.
    pub fn from_strs(src: &[&str]) -> (owned: OwnedSlice<OwnedSlice<u8>>)
        requires
            fits(src@.len()),
            forall|i: int| 0 <= i < src@.len() ==> fits((#[trigger] src@[i]).spec_bytes().len()),
        ensures
            !owned.is_null(),
            owned@.len() == src@.len(),
            forall|i: int|
                0 <= i < src@.len() ==> (#[trigger] owned@[i]).held() == Some(
                    src@[i].spec_bytes(),
                ),
            forall|i: int|
                0 <= i < src@.len() ==> text_of((#[trigger] owned@[i])@) == Some(src@[i]@),
    {
        let owned = OwnedSlice::from_slice(src, buffer_of);
        proof {
            assert forall|i: int| 0 <= i < src@.len() implies text_of((#[trigger] owned@[i])@)
                == Some(src@[i]@) by {
                vstd::utf8::encode_utf8_valid_utf8(src@[i]@);
                vstd::utf8::encode_utf8_decode_utf8(src@[i]@);
            }
        }
        owned
    }

    /// The texts that the buffers of this buffer spell, in order, and none
    /// where one of them spells no text.
    pub fn as_str_vec<'a>(&'a self) -> (texts: Option<Vec<&'a str>>)
        ensures
            match texts {
                Some(strings) => {
                    &&& strings@.len() == self@.len()
                    &&& forall|i: int|
                        0 <= i < self@.len() ==> text_of(self@[i]@) == Some(
                            (#[trigger] strings@[i])@,
                        )
                },
                None => exists|i: int| 0 <= i < self@.len() && text_of(self@[i]@) is None,
            },
    {
        let mut strings: Vec<&'a str> = Vec::new();
        match self.block() {
            Some(buffers) => {
                let mut i: usize = 0;
                while i < buffers.len()
                    invariant
                        0 <= i <= buffers@.len(),
                        buffers@ == self@,
                        strings@.len() == i,
                        forall|j: int|
                            0 <= j < i ==> text_of(self@[j]@) == Some((#[trigger] strings@[j])@),
                    decreases buffers@.len() - i,
                {
                    match buffers[i].borrow().as_str() {
                        Some(text) => {
                            strings.push(text);
                        },
                        None => {
                            return None;
                        },
                    }
                    i += 1;
                }
            },
            None => {},
        }
        Some(strings)
    }
}

/// A flat buffer that looks at a block held elsewhere.
pub struct BorrowedSlice<'a, T> {
    arr: Option<&'a [T]>,
    len: i32,
}

impl<'a, T> View for BorrowedSlice<'a, T> {
    type V = Seq<T>;

    /// The elements of the block, and none where the block is missing.
    open spec fn view(&self) -> Seq<T> {
        match self.held() {
            Some(elements) => elements,
            None => Seq::empty(),
        }
    }
}

impl<'a, T> BorrowedSlice<'a, T> {
    /// What the buffer looks at: the elements of the block, or no block.
    pub closed spec fn held(&self) -> Option<Seq<T>> {
        match self.arr {
            Some(block) => Some(block@),
            None => None,
        }
    }

    /// Whether this is the empty buffer, which has no block.
    pub open spec fn is_null(&self) -> bool {
        self.held() is None
    }

    #[verifier::type_invariant]
    spec fn consistent(&self) -> bool {
        self.len == self@.len()
    }

    /// The empty buffer.
    pub fn empty() -> (view: BorrowedSlice<'a, T>)
        ensures
            view.is_null(),
            view@ == Seq::<T>::empty(),
    {
        BorrowedSlice { arr: None, len: 0 }
    }

    /// The buffer that looks at `block`.
    pub fn from_slice(block: &'a [T]) -> (view: BorrowedSlice<'a, T>)
        requires
            fits(block@.len()),
        ensures
            !view.is_null(),
            view@ == block@,
    {
        BorrowedSlice { arr: Some(block), len: block.len() as i32 }
    }

    /// The number of elements, as it is written down: zero where the block
    /// is missing.
    pub fn len(&self) -> (len: i32)
        ensures
            len == self@.len(),
            self.is_null() ==> len == 0,
    {
        proof {
            use_type_invariant(self);
        }
        self.len
    }

    /// The block, where there is one.
    pub fn block(&self) -> (block: Option<&'a [T]>)
        ensures
            block is None <==> self.is_null(),
            block matches Some(elements) ==> elements@ == self@,
    {
        self.arr
    }
}

/// `std::str::from_utf8`.  Trusted: the bytes are read as a string exactly
/// where they are valid UTF-8, and the string then has those bytes.
#[verifier::external_body]
fn str_from_utf8<'a>(bytes: &'a [u8]) -> (text: Option<&'a str>)
    ensures
        text is Some <==> valid_utf8(bytes@),
        text matches Some(s) ==> s.spec_bytes() == bytes@,
{
    std::str::from_utf8(bytes).ok()
}

impl<'a> BorrowedSlice<'a, u8> {
    /// The buffer that looks at the bytes of `string`.
    pub fn from_str(string: &'a str) -> (view: BorrowedSlice<'a, u8>)
        requires
            fits(string.spec_bytes().len()),
        ensures
            !view.is_null(),
            view@ == string.spec_bytes(),
    {
        BorrowedSlice::from_slice(string.as_bytes())
    }

    /// The text that the bytes spell, and none where they spell no text.
    pub fn as_str(&self) -> (text: Option<&'a str>)
        ensures
            match text {
                Some(s) => text_of(self@) == Some(s@),
                None => text_of(self@) is None,
            },
    {
        match self.arr {
            Some(bytes) => {
                let text = str_from_utf8(bytes);
                proof {
                    if let Some(s) = text {
                        vstd::utf8::encode_utf8_decode_utf8(s@);
                    }
                }
                text
            },
            None => {
                proof {
                    reveal_strlit("");
                    assert(valid_utf8(Seq::<u8>::empty()));
                    assert(decode_utf8(Seq::<u8>::empty()) =~= Seq::<char>::empty());
                    assert(""@ =~= Seq::<char>::empty());
                }
                Some("")
            },
        }
    }
}

impl BorrowedSlice<'static, u8> {
    /// The buffer that looks at the bytes of a string that lasts for ever.
    pub fn from_static(string: &'static str) -> (view: BorrowedSlice<'static, u8>)
        requires
            fits(string.spec_bytes().len()),
        ensures
            !view.is_null(),
            view@ == string.spec_bytes(),
    {
        BorrowedSlice::from_str(string)
    }
}

impl<'a> BorrowedSlice<'a, BorrowedSlice<'a, u8>> {
    /// The texts that the buffers of this buffer spell, in order, and none
    /// where one of them spells no text.
    pub fn as_str_vec(&self) -> (texts: Option<Vec<&'a str>>)
        ensures
            match texts {
                Some(strings) => {
                    &&& strings@.len() == self@.len()
                    &&& forall|i: int|
                        0 <= i < self@.len() ==> text_of(self@[i]@) == Some(
                            (#[trigger] strings@[i])@,
                        )
                },
                None => exists|i: int| 0 <= i < self@.len() && text_of(self@[i]@) is None,
            },
    {
        let mut strings: Vec<&'a str> = Vec::new();
        match self.arr {
            Some(buffers) => {
                let mut i: usize = 0;
                while i < buffers.len()
                    invariant
                        0 <= i <= buffers@.len(),
                        buffers@ == self@,
                        strings@.len() == i,
                        forall|j: int|
                            0 <= j < i ==> text_of(self@[j]@) == Some((#[trigger] strings@[j])@),
                    decreases buffers@.len() - i,
                {
                    match buffers[i].as_str() {
                        Some(text) => {
                            strings.push(text);
                        },
                        None => {
                            return None;
                        },
                    }
                    i += 1;
                }
            },
            None => {},
        }
        Some(strings)
    }
}

/// A dependency laid out for a foreign caller: five buffers of bytes, of
/// which only the name is always there.
pub struct RawDependency {
    pub name: OwnedSlice<u8>,
    pub version: OwnedSlice<u8>,
    pub git: OwnedSlice<u8>,
    pub path: OwnedSlice<u8>,
    pub target: OwnedSlice<u8>,
}

/// What a [`RawDependency`] holds: the bytes of each buffer that has a block.
pub struct RawDependencyView {
    pub name: Option<Seq<u8>>,
    pub version: Option<Seq<u8>>,
    pub git: Option<Seq<u8>>,
    pub path: Option<Seq<u8>>,
    pub target: Option<Seq<u8>>,
}

impl View for RawDependency {
    type V = RawDependencyView;

    open spec fn view(&self) -> RawDependencyView {
        RawDependencyView {
            name: self.name.held(),
            version: self.version.held(),
            git: self.git.held(),
            path: self.path.held(),
            target: self.target.held(),
        }
    }
}

/// The bytes of a text where there is one.
pub open spec fn encoded(text: Option<Seq<char>>) -> Option<Seq<u8>> {
    match text {
        Some(text) => Some(encode_utf8(text)),
        None => None,
    }
}

/// Whether a text, where there is one, can be laid out in a flat buffer.
pub open spec fn text_fits(text: Option<Seq<char>>) -> bool {
    match text {
        Some(text) => fits(encode_utf8(text).len()),
        None => true,
    }
}

/// Whether every text of a dependency can be laid out in a flat buffer.
pub open spec fn dependency_fits(dependency: DependencyView) -> bool {
    &&& text_fits(Some(dependency.name))
    &&& text_fits(dependency.version)
    &&& text_fits(dependency.git)
    &&& text_fits(dependency.path)
    &&& text_fits(dependency.target)
}

/// The layout of a dependency: the bytes of each of its texts.
pub open spec fn raw_dependency(dependency: DependencyView) -> RawDependencyView {
    RawDependencyView {
        name: Some(encode_utf8(dependency.name)),
        version: encoded(dependency.version),
        git: encoded(dependency.git),
        path: encoded(dependency.path),
        target: encoded(dependency.target),
    }
}

/// Whether the bytes of a text, where there is one, can be laid out in a
/// flat buffer.
fn text_can_fit(text: Option<&str>) -> (can: bool)
    ensures
        can == text_fits(optional_text(text)),
{
    match text {
        Some(text) => text.as_bytes().len() <= 0x7fff_ffff,
        None => true,
    }
}

impl RawDependency {
    /// Lays a dependency out in buffers of its own.
    pub fn from(d: &Dependency) -> (raw: RawDependency)
        requires
            dependency_fits(d@),
        ensures
            raw@ == raw_dependency(d@),
    {
        RawDependency {
            name: OwnedSlice::from_str(d.name),
            version: OwnedSlice::from_str_opt(d.version),
            git: OwnedSlice::from_str_opt(d.git),
            path: OwnedSlice::from_str_opt(d.path),
            target: OwnedSlice::from_str_opt(d.target),
        }
    }

    /// Lays out any dependency: where one of its texts is too long for a
    /// flat buffer the operation fails within, and else the answer is that
    /// of [`RawDependency::from`].
    pub fn contained_from(d: &Dependency) -> (r: Contained<RawDependency>)
        ensures
            r is Failed <==> !dependency_fits(d@),
            r matches Contained::Completed(raw) ==> raw@ == raw_dependency(d@),
    {
        if text_can_fit(Some(d.name)) && text_can_fit(d.version) && text_can_fit(d.git)
            && text_can_fit(d.path) && text_can_fit(d.target) {
            Contained::Completed(RawDependency::from(d))
        } else {
            Contained::Failed
        }
    }
}

/// Texts laid out in buffers and read back are the texts that went in, one
/// for one: no text fails to be read, and none comes back changed.
pub proof fn lemma_texts_round_trip(texts: Seq<Seq<char>>)
    ensures
        forall|i: int|
            0 <= i < texts.len() ==> text_of(encode_utf8(#[trigger] texts[i])) == Some(texts[i]),
{
    assert forall|i: int| 0 <= i < texts.len() implies text_of(encode_utf8(#[trigger] texts[i]))
        == Some(texts[i]) by {
        vstd::utf8::encode_utf8_valid_utf8(texts[i]);
        vstd::utf8::encode_utf8_decode_utf8(texts[i]);
    }
}

} // verus!
