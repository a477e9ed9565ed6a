use vstd::prelude::*;
use vstd::utf8::encode_utf8;

verus! {

/// Maximum number of bytes a username may hold.
pub const USERNAME_MAX: usize = 32;

/// Maximum number of bytes an email may hold.
pub const EMAIL_MAX: usize = 256;

#[verifier::external_type_specification]
#[verifier::external_body]
pub struct ExBoundedString<const N: usize>(heapless::String<N>);

/// The characters held by a username buffer.
pub uninterp spec fn username_chars(s: heapless::String<32>) -> Seq<char>;

/// The characters held by an email buffer.
pub uninterp spec fn email_chars(s: heapless::String<256>) -> Seq<char>;

/// Relies on `heapless::String::<32>::try_from(&str)`: it copies the bytes of
/// `t` when they fit in 32 bytes and fails otherwise.
#[verifier::external_body]
pub(crate) fn username_from(t: &str) -> (r: Option<heapless::String<32>>)
    ensures
        r is Some <==> encode_utf8(t@).len() <= 32,
        r matches Some(s) ==> username_chars(s) == t@,
{
    heapless::String::<32>::try_from(t).ok()
}

/// Relies on `heapless::String::<256>::try_from(&str)`: it copies the bytes of
/// `t` when they fit in 256 bytes and fails otherwise.
#[verifier::external_body]
pub(crate) fn email_from(t: &str) -> (r: Option<heapless::String<256>>)
    ensures
        r is Some <==> encode_utf8(t@).len() <= 256,
        r matches Some(s) ==> email_chars(s) == t@,
{
    heapless::String::<256>::try_from(t).ok()
}

/// Relies on `Clone` for `heapless::String<32>`: the copy holds the same characters.
#[verifier::external_body]
fn copy_username(s: &heapless::String<32>) -> (r: heapless::String<32>)
    ensures
        username_chars(r) == username_chars(*s),
{
    s.clone()
}

/// Relies on `Clone` for `heapless::String<256>`: the copy holds the same characters.
#[verifier::external_body]
fn copy_email(s: &heapless::String<256>) -> (r: heapless::String<256>)
    ensures
        email_chars(r) == email_chars(*s),
{
    s.clone()
}

/// The mathematical content of a record.
pub struct RowView {
    pub id: i32,
    pub username: Seq<char>,
    pub email: Seq<char>,
}

/// One fixed-layout record: an integer id and two bounded text fields.
#[derive(Debug, PartialEq)]
pub struct Row {
    pub id: i32,
    pub username: heapless::String<32>,
    pub email: heapless::String<256>,
}

impl View for Row {
    type V = RowView;

    open spec fn view(&self) -> RowView {
        RowView { id: self.id, username: username_chars(self.username), email: email_chars(self.email) }
    }
}

/// The storage footprint of one record, fixed by the field types: the
/// in-memory size of the id and of both bounded text buffers.
pub open spec fn row_size() -> nat {
    vstd::layout::size_of::<i32>() + vstd::layout::size_of::<heapless::String<32>>()
        + vstd::layout::size_of::<heapless::String<256>>()
}

/// `row_size()` as a machine word; a sum beyond the word stays at `usize::MAX`.
pub open spec fn row_size_word() -> nat {
    if row_size() <= usize::MAX {
        row_size()
    } else {
        usize::MAX as nat
    }
}

impl Row {
    /// The number of bytes one record takes: the in-memory size of the id
    /// and of both bounded text buffers, length prefixes included.
    pub fn max_size() -> (r: usize)
        ensures
            r == row_size_word(),
            r >= 4,
    {
        broadcast use vstd::layout::layout_of_primitives;

        let id_size = core::mem::size_of::<i32>();
        let username_size = core::mem::size_of::<heapless::String<32>>();
        let email_size = core::mem::size_of::<heapless::String<256>>();
        id_size.saturating_add(username_size).saturating_add(email_size)
    }

    /// An owned copy of this record.
    pub fn duplicate(&self) -> (r: Row)
        ensures
            r@ == self@,
    {
        Row { id: self.id, username: copy_username(&self.username), email: copy_email(&self.email) }
    }
}

impl Clone for Row {
    fn clone(&self) -> Row {
        self.duplicate()
    }
}

} // verus!
