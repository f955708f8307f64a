//! The record store: one record per derived address, created, edited and
//! deleted under ownership checks.
//!
//! The store plays the part of the runtime's account storage: a finite map
//! from storage addresses to records. Its view is that map, and every
//! operation's contract says how the map changes.

use crate::addressing::{find_post_address, pda_of, post_tag, spec_post_tag};
use crate::post::{
    content_ok, keys_equal, post_wf, slug_ok, title_ok, BlogError, Post, PostError, PostView,
};
use vstd::prelude::*;
use vstd::string::{StrSliceExecFns, StringSliceAdditionalSpecFns};

verus! {

/// The map from storage addresses to records that a sequence of entries
/// stands for.
spec fn entries_map(s: Seq<([u8; 32], Post)>) -> Map<Seq<u8>, PostView>
    decreases s.len(),
{
    if s.len() == 0 {
        Map::empty()
    } else {
        entries_map(s.drop_last()).insert(s.last().0@, s.last().1@)
    }
}

/// No two entries share a storage address.
spec fn addrs_unique(s: Seq<([u8; 32], Post)>) -> bool {
    forall|i: int, j: int| 0 <= i < j < s.len() ==> s[i].0@ != s[j].0@
}

proof fn lemma_entries_map_domain(s: Seq<([u8; 32], Post)>)
    ensures
        forall|a: Seq<u8>|
            entries_map(s).contains_key(a) <==> (exists|i: int|
                0 <= i < s.len() && s[i].0@ == a),
    decreases s.len(),
{
    if s.len() > 0 {
        lemma_entries_map_domain(s.drop_last());
        assert forall|a: Seq<u8>| entries_map(s).contains_key(a) implies (exists|i: int|
            0 <= i < s.len() && s[i].0@ == a) by {
            if a == s.last().0@ {
                assert(s[s.len() - 1].0@ == a);
            } else {
                assert(entries_map(s.drop_last()).contains_key(a));
                let i = choose|i: int| 0 <= i < s.drop_last().len() && s.drop_last()[i].0@ == a;
                assert(s[i].0@ == a);
            }
        }
        assert forall|a: Seq<u8>| (exists|i: int| 0 <= i < s.len() && s[i].0@ == a)
            implies entries_map(s).contains_key(a) by {
            let i = choose|i: int| 0 <= i < s.len() && s[i].0@ == a;
            if i < s.len() - 1 {
                assert(s.drop_last()[i].0@ == a);
                assert(entries_map(s.drop_last()).contains_key(a));
            } else {
                assert(a == s.last().0@);
            }
        }
    }
}

proof fn lemma_entries_map_at(s: Seq<([u8; 32], Post)>, i: int)
    requires
        addrs_unique(s),
        0 <= i < s.len(),
    ensures
        entries_map(s).contains_key(s[i].0@),
        entries_map(s)[s[i].0@] == s[i].1@,
    decreases s.len(),
{
    if i < s.len() - 1 {
        assert(addrs_unique(s.drop_last()));
        lemma_entries_map_at(s.drop_last(), i);
        assert(s[i].0@ != s[s.len() - 1].0@);
    }
}

proof fn lemma_entries_map_push(s: Seq<([u8; 32], Post)>, e: ([u8; 32], Post))
    ensures
        entries_map(s.push(e)) == entries_map(s).insert(e.0@, e.1@),
{
    assert(s.push(e).drop_last() =~= s);
    assert(s.push(e).last() == e);
}

proof fn lemma_entries_map_update(s: Seq<([u8; 32], Post)>, i: int, p: Post)
    requires
        addrs_unique(s),
        0 <= i < s.len(),
    ensures
        entries_map(s.update(i, (s[i].0, p))) =~= entries_map(s).insert(s[i].0@, p@),
    decreases s.len(),
{
    let t = s.update(i, (s[i].0, p));
    if i == s.len() - 1 {
        assert(t.drop_last() =~= s.drop_last());
        assert(t.last() == (s[i].0, p));
    } else {
        assert(addrs_unique(s.drop_last()));
        lemma_entries_map_update(s.drop_last(), i, p);
        assert(t.drop_last() =~= s.drop_last().update(i, (s[i].0, p)));
        assert(t.last() == s.last());
        assert(s[i].0@ != s.last().0@);
    }
}

proof fn lemma_entries_map_remove(s: Seq<([u8; 32], Post)>, i: int)
    requires
        addrs_unique(s),
        0 <= i < s.len(),
    ensures
        entries_map(s.remove(i)) =~= entries_map(s).remove(s[i].0@),
    decreases s.len(),
{
    if i == s.len() - 1 {
        assert(s.remove(i) =~= s.drop_last());
        lemma_entries_map_domain(s.drop_last());
        assert(forall|j: int| 0 <= j < s.drop_last().len() ==> s.drop_last()[j].0@ != s[i].0@);
        assert(!entries_map(s.drop_last()).contains_key(s[i].0@));
    } else {
        assert(addrs_unique(s.drop_last()));
        lemma_entries_map_remove(s.drop_last(), i);
        assert(s.remove(i).drop_last() =~= s.drop_last().remove(i));
        assert(s.remove(i).last() == s.last());
        assert(s[i].0@ != s.last().0@);
    }
}

/// The record store for one program identity.
pub struct RecordStore {
    program_id: [u8; 32],
    records: Vec<([u8; 32], Post)>,
}

impl View for RecordStore {
    type V = Map<Seq<u8>, PostView>;

    closed spec fn view(&self) -> Map<Seq<u8>, PostView> {
        entries_map(self.records@)
    }
}

impl RecordStore {
    /// The program identity under which all addresses are derived.
    pub closed spec fn spec_program_id(&self) -> Seq<u8> {
        self.program_id@
    }

    /// Well-formed: no two records share an address, and every stored
    /// record obeys the field-length bounds.
    pub closed spec fn wf(&self) -> bool {
        &&& addrs_unique(self.records@)
        &&& forall|i: int| 0 <= i < self.records@.len() ==> post_wf(self.records@[i].1@)
    }

    /// An empty store for the given program identity.
    pub fn new(program_id: [u8; 32]) -> (s: Self)
        ensures
            s.wf(),
            s@ == Map::<Seq<u8>, PostView>::empty(),
            s.spec_program_id() == program_id@,
    {
        RecordStore { program_id, records: Vec::new() }
    }

    /// The storage address and proof for `(owner, slug)`. The whole
    /// outcome is a function of the domain tag, the owner bytes, the slug
    /// bytes and the program identity alone: two calls with identical
    /// inputs both succeed or both fail, and on success return the
    /// identical pair.
    pub fn derive_post_address(&self, owner: &[u8; 32], post_seed_slug: &str) -> (r: Option<
        ([u8; 32], u8),
    >)
        ensures
            r is Some <==> pda_of(
                spec_post_tag(),
                owner@,
                post_seed_slug.spec_bytes(),
                self.spec_program_id(),
            ) is Some,
            r matches Some(p) ==> pda_of(
                spec_post_tag(),
                owner@,
                post_seed_slug.spec_bytes(),
                self.spec_program_id(),
            ) == Some((p.0@, p.1)),
    {
        let tag = post_tag();
        let slug_bytes = post_seed_slug.as_bytes_vec();
        find_post_address(&tag, owner, &slug_bytes, &self.program_id)
    }

    /// The index of the entry stored at `addr`, if any.
    fn find_entry(&self, addr: &[u8; 32]) -> (r: Option<usize>)
        ensures
            r matches Some(i) ==> i < self.records@.len() && self.records@[i as int].0@ == addr@,
            r is None ==> forall|j: int| 0 <= j < self.records@.len() ==> self.records@[j].0@
                != addr@,
    {
        let mut i: usize = 0;
        while i < self.records.len()
            invariant
                i <= self.records@.len(),
                forall|j: int| 0 <= j < i ==> self.records@[j].0@ != addr@,
            decreases self.records@.len() - i,
        {
            if keys_equal(&self.records[i].0, addr) {
                return Some(i);
            }
            i += 1;
        }
        None
    }

    /// Creates the record for `(author, post_seed_slug)` at its derived
    /// address. Validation runs in order — title, body, slug — and the
    /// first failure wins; a valid request fails only when the derived
    /// address is already occupied, or when no derivation exists at all.
    pub fn create_post(
        &mut self,
        author: &[u8; 32],
        title: String,
        content: String,
        post_seed_slug: &str,
        now: i64,
    ) -> (r: Result<(), PostError>)
        requires
            old(self).wf(),
        ensures
            final(self).wf(),
            final(self).spec_program_id() == old(self).spec_program_id(),
            r == Err::<(), PostError>(PostError::Blog(BlogError::TitleTooLong)) <==> !title_ok(
                title@,
            ),
            r == Err::<(), PostError>(PostError::Blog(BlogError::ContentTooLong)) <==> (title_ok(
                title@,
            ) && !content_ok(content@)),
            r == Err::<(), PostError>(PostError::Blog(BlogError::SlugInvalid)) <==> (title_ok(
                title@,
            ) && content_ok(content@) && !slug_ok(post_seed_slug.spec_bytes())),
            r is Err ==> final(self)@ == old(self)@,
            ({
                let pda = pda_of(
                    spec_post_tag(),
                    author@,
                    post_seed_slug.spec_bytes(),
                    old(self).spec_program_id(),
                );
                let valid = title_ok(title@) && content_ok(content@) && slug_ok(
                    post_seed_slug.spec_bytes(),
                );
                &&& (r == Err::<(), PostError>(PostError::DerivationFailed) <==> (valid
                    && pda is None))
                &&& (pda matches Some(q) ==> (r == Err::<(), PostError>(
                    PostError::AddressOccupied,
                ) <==> (valid && old(self)@.contains_key(q.0))))
                &&& (pda matches Some(q) ==> (r is Ok <==> (valid && !old(self)@.contains_key(
                    q.0,
                ))))
                &&& (pda matches Some(q) ==> (r is Ok ==> final(self)@ == old(self)@.insert(
                    q.0,
                    PostView {
                        author: author@,
                        title: title@,
                        content: content@,
                        timestamp: now as int,
                        bump: q.1,
                    },
                )))
            }),
    {
        if let Err(e) = crate::post::validate_create(
            title.as_str(),
            content.as_str(),
            post_seed_slug,
        ) {
            return Err(PostError::Blog(e));
        }
        let (addr, bump) = match self.derive_post_address(author, post_seed_slug) {
            Some(p) => p,
            None => {
                return Err(PostError::DerivationFailed);
            },
        };
        match self.find_entry(&addr) {
            Some(_) => {
                proof {
                    lemma_entries_map_domain(self.records@);
                }
                Err(PostError::AddressOccupied)
            },
            None => {
                proof {
                    lemma_entries_map_domain(self.records@);
                }
                let post = Post { author: *author, title, content, timestamp: now, bump };
                let ghost before = self.records@;
                self.records.push((addr, post));
                proof {
                    lemma_entries_map_push(before, (addr, post));
                    assert(addrs_unique(self.records@));
                }
                Ok(())
            },
        }
    }

    /// Overwrites the mutable fields of the record at `addr`, if it exists
    /// and `author` is its recorded owner. The owner, creation time and
    /// address proof never change.
    pub fn edit_post(
        &mut self,
        addr: &[u8; 32],
        author: &[u8; 32],
        title: String,
        content: String,
    ) -> (r: Result<(), PostError>)
        requires
            old(self).wf(),
        ensures
            final(self).wf(),
            final(self).spec_program_id() == old(self).spec_program_id(),
            r == Err::<(), PostError>(PostError::AccountNotFound) <==> !old(self)@.contains_key(
                addr@,
            ),
            r == Err::<(), PostError>(PostError::Blog(BlogError::Unauthorized)) <==> (old(
                self,
            )@.contains_key(addr@) && old(self)@[addr@].author != author@),
            r == Err::<(), PostError>(PostError::Blog(BlogError::TitleTooLong)) <==> (old(
                self,
            )@.contains_key(addr@) && old(self)@[addr@].author == author@ && !title_ok(title@)),
            r == Err::<(), PostError>(PostError::Blog(BlogError::ContentTooLong)) <==> (old(
                self,
            )@.contains_key(addr@) && old(self)@[addr@].author == author@ && title_ok(title@)
                && !content_ok(content@)),
            r is Ok <==> (old(self)@.contains_key(addr@) && old(self)@[addr@].author == author@
                && title_ok(title@) && content_ok(content@)),
            r is Err ==> final(self)@ == old(self)@,
            r is Ok ==> final(self)@ == old(self)@.insert(
                addr@,
                PostView {
                    author: old(self)@[addr@].author,
                    title: title@,
                    content: content@,
                    timestamp: old(self)@[addr@].timestamp,
                    bump: old(self)@[addr@].bump,
                },
            ),
    {
        let i = match self.find_entry(addr) {
            Some(i) => i,
            None => {
                proof {
                    lemma_entries_map_domain(self.records@);
                }
                return Err(PostError::AccountNotFound);
            },
        };
        proof {
            lemma_entries_map_at(self.records@, i as int);
        }
        if !keys_equal(&self.records[i].1.author, author) {
            return Err(PostError::Blog(BlogError::Unauthorized));
        }
        if let Err(e) = crate::post::validate_edit(title.as_str(), content.as_str()) {
            return Err(PostError::Blog(e));
        }
        let ghost before = self.records@;
        let owner = self.records[i].1.author;
        let timestamp = self.records[i].1.timestamp;
        let bump = self.records[i].1.bump;
        self.records[i].1 = Post { author: owner, title, content, timestamp, bump };
        proof {
            lemma_entries_map_update(before, i as int, self.records@[i as int].1);
            assert(self.records@ =~= before.update(
                i as int,
                (before[i as int].0, self.records@[i as int].1),
            ));
            assert(addrs_unique(self.records@));
        }
        Ok(())
    }

    /// Removes the record at `addr`, if it exists and `author` is its
    /// recorded owner; the address becomes free for a later creation.
    pub fn delete_post(&mut self, addr: &[u8; 32], author: &[u8; 32]) -> (r: Result<
        (),
        PostError,
    >)
        requires
            old(self).wf(),
        ensures
            final(self).wf(),
            final(self).spec_program_id() == old(self).spec_program_id(),
            r == Err::<(), PostError>(PostError::AccountNotFound) <==> !old(self)@.contains_key(
                addr@,
            ),
            r == Err::<(), PostError>(PostError::Blog(BlogError::Unauthorized)) <==> (old(
                self,
            )@.contains_key(addr@) && old(self)@[addr@].author != author@),
            r is Ok <==> (old(self)@.contains_key(addr@) && old(self)@[addr@].author == author@),
            r is Err ==> final(self)@ == old(self)@,
            r is Ok ==> final(self)@ == old(self)@.remove(addr@),
    {
        let i = match self.find_entry(addr) {
            Some(i) => i,
            None => {
                proof {
                    lemma_entries_map_domain(self.records@);
                }
                return Err(PostError::AccountNotFound);
            },
        };
        proof {
            lemma_entries_map_at(self.records@, i as int);
        }
        if !keys_equal(&self.records[i].1.author, author) {
            return Err(PostError::Blog(BlogError::Unauthorized));
        }
        let ghost before = self.records@;
        self.records.remove(i);
        proof {
            lemma_entries_map_remove(before, i as int);
            assert(addrs_unique(self.records@));
        }
        Ok(())
    }

    /// The record stored at `addr`, if any.
    pub fn get_post(&self, addr: &[u8; 32]) -> (r: Option<&Post>)
        requires
            self.wf(),
        ensures
            r matches Some(p) ==> self@.contains_key(addr@) && p@ == self@[addr@],
            r is None <==> !self@.contains_key(addr@),
    {
        match self.find_entry(addr) {
            Some(i) => {
                proof {
                    lemma_entries_map_at(self.records@, i as int);
                }
                Some(&self.records[i].1)
            },
            None => {
                proof {
                    lemma_entries_map_domain(self.records@);
                }
                None
            },
        }
    }
}

/// Every record a well-formed store holds obeys the field-length bounds:
/// titles stay within `MAX_TITLE_LENGTH` scalar characters and bodies
/// within `MAX_CONTENT_LENGTH`, at all times.
pub proof fn lemma_store_records_bounded(s: &RecordStore)
    requires
        s.wf(),
    ensures
        forall|a: Seq<u8>| s@.contains_key(a) ==> title_ok(s@[a].title) && content_ok(s@[a].content),
{
    lemma_entries_map_domain(s.records@);
    assert forall|a: Seq<u8>| s@.contains_key(a) implies title_ok(s@[a].title) && content_ok(
        s@[a].content,
    ) by {
        let i = choose|i: int| 0 <= i < s.records@.len() && s.records@[i].0@ == a;
        lemma_entries_map_at(s.records@, i);
        assert(post_wf(s.records@[i].1@));
    }
}

} // verus!
