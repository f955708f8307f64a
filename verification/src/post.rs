//! The record type, its field-length rules, and the error taxonomy.

use vstd::prelude::*;
use vstd::string::{StrSliceExecFns, StringSliceAdditionalSpecFns};

verus! {

/// Longest allowed title, measured in scalar characters.
pub const MAX_TITLE_LENGTH: usize = 50;

/// Longest allowed body text, measured in scalar characters.
pub const MAX_CONTENT_LENGTH: usize = 500;

/// Longest allowed slug, measured in bytes.
pub const MAX_SLUG_LENGTH: usize = 32;

/// Domain-level failures, surfaced to the caller verbatim.
#[derive(Clone, Copy, Debug, PartialEq, Eq)]
pub enum BlogError {
    /// The title exceeds `MAX_TITLE_LENGTH` scalar characters.
    TitleTooLong,
    /// The body exceeds `MAX_CONTENT_LENGTH` scalar characters.
    ContentTooLong,
    /// The slug is empty or exceeds `MAX_SLUG_LENGTH` bytes.
    SlugInvalid,
    /// The caller is not the recorded owner.
    Unauthorized,
}

/// Every way an operation against the store can fail: a domain error, or a
/// storage-level condition that the runtime reports without wrapping.
#[derive(Clone, Copy, Debug, PartialEq, Eq)]
pub enum PostError {
    /// A domain rule was broken.
    Blog(BlogError),
    /// An account already occupies the derived address.
    AddressOccupied,
    /// No record lives at the given address.
    AccountNotFound,
    /// No viable disambiguation byte exists for the seed tuple.
    DerivationFailed,
}

/// A title is acceptable when its scalar-character count is within the bound.
pub open spec fn title_ok(title: Seq<char>) -> bool {
    title.len() <= MAX_TITLE_LENGTH
}

/// A body is acceptable when its scalar-character count is within the bound.
pub open spec fn content_ok(content: Seq<char>) -> bool {
    content.len() <= MAX_CONTENT_LENGTH
}

/// A slug is acceptable when it holds between 1 and `MAX_SLUG_LENGTH` bytes.
pub open spec fn slug_ok(slug_bytes: Seq<u8>) -> bool {
    0 < slug_bytes.len() <= MAX_SLUG_LENGTH
}

/// The mathematical value of a stored record.
pub ghost struct PostView {
    pub author: Seq<u8>,
    pub title: Seq<char>,
    pub content: Seq<char>,
    pub timestamp: int,
    pub bump: u8,
}

/// One stored record: the owner's identity bytes, the two bounded text
/// fields, the creation time, and the address-derivation bump.
#[derive(Debug)]
pub struct Post {
    pub author: [u8; 32],
    pub title: String,
    pub content: String,
    pub timestamp: i64,
    pub bump: u8,
}

impl View for Post {
    type V = PostView;

    open spec fn view(&self) -> PostView {
        PostView {
            author: self.author@,
            title: self.title@,
            content: self.content@,
            timestamp: self.timestamp as int,
            bump: self.bump,
        }
    }
}

/// A record is well formed when both text fields obey their length bounds.
pub open spec fn post_wf(p: PostView) -> bool {
    title_ok(p.title) && content_ok(p.content)
}

/// Checks the inputs of a creation in order — title, body, slug — and
/// reports the first broken rule.
pub fn validate_create(title: &str, content: &str, post_seed_slug: &str) -> (r: Result<
    (),
    BlogError,
>)
    ensures
        r == Err::<(), BlogError>(BlogError::TitleTooLong) <==> !title_ok(title@),
        r == Err::<(), BlogError>(BlogError::ContentTooLong) <==> (title_ok(title@) && !content_ok(
            content@,
        )),
        r == Err::<(), BlogError>(BlogError::SlugInvalid) <==> (title_ok(title@) && content_ok(
            content@,
        ) && !slug_ok(post_seed_slug.spec_bytes())),
        r is Ok <==> (title_ok(title@) && content_ok(content@) && slug_ok(
            post_seed_slug.spec_bytes(),
        )),
{
    let r = validate_edit(title, content);
    if let Err(e) = r {
        return Err(e);
    }
    let slug_bytes = post_seed_slug.as_bytes_vec();
    if slug_bytes.len() == 0 || slug_bytes.len() > MAX_SLUG_LENGTH {
        return Err(BlogError::SlugInvalid);
    }
    Ok(())
}

/// Checks the inputs of an edit in order — title, then body — and reports
/// the first broken rule.
pub fn validate_edit(title: &str, content: &str) -> (r: Result<(), BlogError>)
    ensures
        r == Err::<(), BlogError>(BlogError::TitleTooLong) <==> !title_ok(title@),
        r == Err::<(), BlogError>(BlogError::ContentTooLong) <==> (title_ok(title@) && !content_ok(
            content@,
        )),
        r is Ok <==> (title_ok(title@) && content_ok(content@)),
{
    if title.unicode_len() > MAX_TITLE_LENGTH {
        return Err(BlogError::TitleTooLong);
    }
    if content.unicode_len() > MAX_CONTENT_LENGTH {
        return Err(BlogError::ContentTooLong);
    }
    Ok(())
}

/// Compares two identity values byte for byte.
pub fn keys_equal(a: &[u8; 32], b: &[u8; 32]) -> (r: bool)
    ensures
        r == (a@ == b@),
{
    let mut i: usize = 0;
    while i < 32
        invariant
            i <= 32,
            forall|k: int| 0 <= k < i ==> a@[k] == b@[k],
        decreases 32 - i,
    {
        if a[i] != b[i] {
            assert(a@ != b@);
            return false;
        }
        i += 1;
    }
    assert(a@ =~= b@);
    true
}

} // verus!
