//! Identities of callers. A principal is held as text in which each
//! character stands for one of the principal's bytes, so that two principals
//! are the same exactly when their texts are equal.

use vstd::prelude::*;
use crate::keyed::Key;
use crate::text::{byte_char, char_of_byte, byte_of_char, push_char};

verus! {

/// A principal: one character per significant byte.
pub struct UserId {
    pub text: String,
}

impl View for UserId {
    type V = Seq<char>;

    open spec fn view(&self) -> Seq<char> {
        self.text@
    }
}

/// The characters that stand for a sequence of bytes.
pub open spec fn bytes_as_chars(b: Seq<u8>) -> Seq<char> {
    Seq::new(b.len(), |i: int| byte_char(b[i]))
}

/// The view of the anonymous principal, whose only byte is the tag 4.
pub open spec fn anonymous_view() -> Seq<char> {
    bytes_as_chars(seq![4u8])
}

/// The significant bytes of the anonymous principal.
///
/// Calls `candid::Principal::anonymous` and `as_slice`; the source builds that
/// principal from the single tag byte 4.
#[verifier::external_body]
fn anonymous_principal_bytes() -> (r: Vec<u8>)
    ensures
        r@ == seq![4u8],
{
    candid::Principal::anonymous().as_slice().to_vec()
}

/// The significant bytes of the principal that made the current call.
///
/// Calls `ic_cdk::caller` and `as_slice`; a principal has at most 29 bytes.
/// Which principal it is depends on the call.
#[verifier::external_body]
fn host_caller_bytes() -> (r: Vec<u8>)
    ensures
        r@.len() <= 29,
{
    ic_cdk::caller().as_slice().to_vec()
}

/// The anonymous principal.
pub fn anonymous_user() -> (r: UserId)
    ensures
        r@ == anonymous_view(),
{
    let b = anonymous_principal_bytes();
    UserId::from_bytes(&b)
}

/// The principal that made the current call: the host decides which; it
/// is written with one character per byte of the principal.
pub fn caller() -> (r: UserId)
    ensures
        r@.len() <= 29,
        exists|b: Seq<u8>| b.len() <= 29 && r@ == #[trigger] bytes_as_chars(b),
{
    let b = host_caller_bytes();
    let r = UserId::from_bytes(&b);
    assert(bytes_as_chars(b@) == r@);
    r
}

impl UserId {
    /// The principal with the given significant bytes.
    pub fn from_bytes(b: &[u8]) -> (r: UserId)
        ensures
            r@ == bytes_as_chars(b@),
    {
        let mut text = String::new();
        let mut i: usize = 0;
        while i < b.len()
            invariant
                i <= b@.len(),
                text@ == bytes_as_chars(b@.subrange(0, i as int)),
            decreases b@.len() - i,
        {
            push_char(&mut text, char_of_byte(b[i]));
            i += 1;
            assert(text@ =~= bytes_as_chars(b@.subrange(0, i as int)));
        }
        assert(b@.subrange(0, b@.len() as int) =~= b@);
        UserId { text }
    }

    /// The significant bytes of this principal.
    pub fn to_bytes(&self) -> (r: Vec<u8>)
        requires
            forall|i: int| 0 <= i < self@.len() ==> (#[trigger] self@[i] as int) < 256,
        ensures
            bytes_as_chars(r@) == self@,
    {
        let s = self.text.as_str();
        let n = s.unicode_len();
        let mut out: Vec<u8> = Vec::new();
        let mut i: usize = 0;
        while i < n
            invariant
                n == self@.len(),
                s@ == self@,
                i <= n,
                out@.len() == i,
                forall|j: int| 0 <= j < self@.len() ==> (#[trigger] self@[j] as int) < 256,
                bytes_as_chars(out@) == self@.subrange(0, i as int),
            decreases n - i,
        {
            let c = s.get_char(i);
            let ghost prev = out@;
            assert(bytes_as_chars(prev) =~= self@.subrange(0, i as int));
            out.push(byte_of_char(c));
            proof {
                assert forall|k: int| 0 <= k < i implies bytes_as_chars(out@)[k] == self@[k] by {
                    assert(out@[k] == prev[k]);
                    assert(bytes_as_chars(prev)[k] == self@.subrange(0, i as int)[k]);
                }
            }
            i += 1;
            assert(bytes_as_chars(out@) =~= self@.subrange(0, i as int));
        }
        assert(self@.subrange(0, n as int) =~= self@);
        out
    }

    /// Whether two principals are the same.
    pub fn same(&self, other: &UserId) -> (r: bool)
        ensures
            r == (self@ == other@),
    {
        self.text == other.text
    }

    /// A copy of this principal.
    pub fn copy(&self) -> (r: UserId)
        ensures
            r == *self,
    {
        UserId { text: self.text.clone() }
    }

    /// Whether this is the anonymous principal.
    pub fn is_anonymous(&self) -> (r: bool)
        ensures
            r == (self@ == anonymous_view()),
    {
        let anon = anonymous_user();
        self.same(&anon)
    }
}

impl Key for UserId {
    type KV = Seq<char>;

    open spec fn kv(&self) -> Seq<char> {
        self.text@
    }

    fn key_eq(&self, other: &Self) -> (r: bool) {
        self.same(other)
    }

    fn key_copy(&self) -> (r: Self) {
        self.copy()
    }
}

/// The key of a user's vote on a meme.
pub struct UserMemeKey {
    pub user: UserId,
    pub meme_id: u64,
}

impl Key for UserMemeKey {
    type KV = (Seq<char>, u64);

    open spec fn kv(&self) -> (Seq<char>, u64) {
        (self.user@, self.meme_id)
    }

    fn key_eq(&self, other: &Self) -> (r: bool) {
        self.meme_id == other.meme_id && self.user.same(&other.user)
    }

    fn key_copy(&self) -> (r: Self) {
        UserMemeKey { user: self.user.copy(), meme_id: self.meme_id }
    }
}

} // verus!
