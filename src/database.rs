use vstd::prelude::*;

use crate::errors::AppError;
use crate::name_generator::GeneratedName;

verus! {

/// What a store remembers of one link: the URL it stands for and when it was created,
/// in seconds.
pub struct LinkModel {
    pub original: Seq<char>,
    pub created_at: nat,
}

/// A link is expired when it was created more than `window` seconds before `now`.
pub open spec fn is_expired(link: LinkModel, now: nat, window: nat) -> bool {
    (link.created_at as int) < now - window
}

/// The links of `links` that a sweep at time `now` with retention `window` keeps.
pub open spec fn unexpired(
    links: Map<Seq<char>, LinkModel>,
    now: nat,
    window: nat,
) -> Map<Seq<char>, LinkModel> {
    Map::new(
        |a: Seq<char>| links.contains_key(a) && !is_expired(links[a], now, window),
        |a: Seq<char>| links[a],
    )
}

/// What resolving `alias` against `links` gives.
pub open spec fn resolves_to(links: Map<Seq<char>, LinkModel>, alias: Seq<char>) -> Option<
    Seq<char>,
> {
    if links.contains_key(alias) {
        Some(links[alias].original)
    } else {
        None
    }
}

/// A sweep removes exactly the expired links and leaves every other link as it was.
pub proof fn lemma_sweep_removes_exactly_expired(
    links: Map<Seq<char>, LinkModel>,
    now: nat,
    window: nat,
    alias: Seq<char>,
)
    ensures
        unexpired(links, now, window).contains_key(alias) <==> links.contains_key(alias)
            && !is_expired(links[alias], now, window),
        unexpired(links, now, window).contains_key(alias) ==> unexpired(links, now, window)[alias]
            == links[alias],
{
}

/// A second sweep at the same time finds nothing left to remove.
pub proof fn lemma_sweep_idempotent(links: Map<Seq<char>, LinkModel>, now: nat, window: nat)
    ensures
        unexpired(unexpired(links, now, window), now, window) == unexpired(links, now, window),
        unexpired(links, now, window).len() - unexpired(
            unexpired(links, now, window),
            now,
            window,
        ).len() == 0,
{
    assert(unexpired(unexpired(links, now, window), now, window) =~= unexpired(links, now, window));
}

/// An alias that was never stored, or whose link a sweep removed as expired, resolves to
/// nothing.
pub proof fn lemma_swept_alias_unresolved(
    links: Map<Seq<char>, LinkModel>,
    now: nat,
    window: nat,
    alias: Seq<char>,
)
    requires
        links.contains_key(alias) ==> is_expired(links[alias], now, window),
    ensures
        resolves_to(unexpired(links, now, window), alias) is None,
{
}

/// Two inserts that both succeed, one after the other as the store orders them, use
/// different aliases, and the second leaves the first link as it was: no two links
/// ever share an alias.
pub proof fn lemma_successful_stores_have_distinct_aliases(
    before: Map<Seq<char>, LinkModel>,
    first_alias: Seq<char>,
    first: LinkModel,
    second_alias: Seq<char>,
    second: LinkModel,
)
    requires
        !before.contains_key(first_alias),
        !before.insert(first_alias, first).contains_key(second_alias),
    ensures
        first_alias != second_alias,
        before.insert(first_alias, first).insert(second_alias, second)[first_alias] == first,
        before.insert(first_alias, first).insert(second_alias, second)[second_alias] == second,
{
}

/// Durable storage of links by alias: the one capability that shortening, resolving
/// and sweeping rely on.
pub trait NamesRepository {
    /// The links held, by alias. Verified backends define it; a backend written outside
    /// verified code cannot, and keeps this empty default, so for it the contracts
    /// below are its own unchecked promises.
    open spec fn links(&self) -> Map<Seq<char>, LinkModel> {
        Map::empty()
    }

    /// The store's current time, in seconds; like `links`, only verified backends define
    /// it.
    open spec fn clock(&self) -> nat {
        0
    }

    /// Whether a live link has the alias `name`.
    fn name_exists(&mut self, name: &GeneratedName) -> (r: Result<bool, AppError>)
        ensures
            match r {
                Ok(b) => b == old(self).links().contains_key(name.0@),
                Err(e) => e is DatabaseError,
            },
            final(self).links() == old(self).links(),
    ;

    /// Records that `generated` stands for `original`, created now. An alias that is
    /// already taken is refused with `DuplicateAlias`.
    fn store_name(&mut self, original: &str, generated: &GeneratedName) -> (r: Result<
        (),
        AppError,
    >)
        ensures
            match r {
                Ok(()) => {
                    &&& !old(self).links().contains_key(generated.0@)
                    &&& final(self).links() == old(self).links().insert(
                        generated.0@,
                        (LinkModel { original: original@, created_at: old(self).clock() }),
                    )
                },
                Err(AppError::DuplicateAlias) => {
                    &&& old(self).links().contains_key(generated.0@)
                    &&& final(self).links() == old(self).links()
                },
                Err(e) => e is DatabaseError && final(self).links() == old(self).links(),
            },
    ;

    /// The URL that the alias `name` stands for.
    fn retrieve_original_name(&mut self, name: &GeneratedName) -> (r: Result<String, AppError>)
        ensures
            match r {
                Ok(u) => {
                    &&& old(self).links().contains_key(name.0@)
                    &&& u@ == old(self).links()[name.0@].original
                },
                Err(AppError::NotFoundError) => !old(self).links().contains_key(name.0@),
                Err(e) => e is DatabaseError,
            },
            final(self).links() == old(self).links(),
    ;

    /// Deletes every link created more than `window` seconds ago and returns how many
    /// went.
    fn cleanup_old_links(&mut self, window: u64) -> (r: Result<usize, AppError>)
        ensures
            match r {
                Ok(n) => {
                    &&& final(self).links() == unexpired(
                        old(self).links(),
                        old(self).clock(),
                        window as nat,
                    )
                    &&& n == old(self).links().len() - final(self).links().len()
                },
                Err(e) => e is DatabaseError && final(self).links() == old(self).links(),
            },
    ;
}

/// One stored link.
pub struct Link {
    pub id: i32,
    pub original_link: String,
    pub short_link: String,
    pub created_at: u64,
}

impl Link {
    pub open spec fn model(self) -> LinkModel {
        LinkModel { original: self.original_link@, created_at: self.created_at as nat }
    }

    fn duplicate(&self) -> (r: Link)
        ensures
            r == *self,
    {
        Link {
            id: self.id,
            original_link: self.original_link.clone(),
            short_link: self.short_link.clone(),
            created_at: self.created_at,
        }
    }
}

/// No two links of `s` share an alias.
pub open spec fn distinct_aliases(s: Seq<Link>) -> bool {
    forall|i: int, j: int| 0 <= i < j < s.len() ==> s[i].short_link@ != s[j].short_link@
}

/// The map from alias to link that the sequence `s` describes.
pub open spec fn links_by_alias(s: Seq<Link>) -> Map<Seq<char>, LinkModel>
    decreases s.len(),
{
    if s.len() == 0 {
        Map::empty()
    } else {
        links_by_alias(s.drop_last()).insert(s.last().short_link@, s.last().model())
    }
}

proof fn lemma_links_by_alias_contains(s: Seq<Link>, a: Seq<char>)
    ensures
        links_by_alias(s).contains_key(a) <==> exists|i: int|
            0 <= i < s.len() && #[trigger] s[i].short_link@ == a,
    decreases s.len(),
{
    if s.len() > 0 {
        lemma_links_by_alias_contains(s.drop_last(), a);
        if links_by_alias(s.drop_last()).contains_key(a) {
            let i = choose|i: int| 0 <= i < s.drop_last().len() && #[trigger] s.drop_last()[i].short_link@ == a;
            assert(s[i].short_link@ == a);
        }
        if exists|i: int| 0 <= i < s.len() && #[trigger] s[i].short_link@ == a {
            let i = choose|i: int| 0 <= i < s.len() && #[trigger] s[i].short_link@ == a;
            if i < s.len() - 1 {
                assert(s.drop_last()[i].short_link@ == a);
            }
        }
    }
}

proof fn lemma_links_by_alias_index(s: Seq<Link>, i: int)
    requires
        distinct_aliases(s),
        0 <= i < s.len(),
    ensures
        links_by_alias(s).contains_key(s[i].short_link@),
        links_by_alias(s)[s[i].short_link@] == s[i].model(),
    decreases s.len(),
{
    if i < s.len() - 1 {
        lemma_links_by_alias_index(s.drop_last(), i);
        assert(s.drop_last()[i] == s[i]);
    }
}

proof fn lemma_links_by_alias_len(s: Seq<Link>)
    requires
        distinct_aliases(s),
    ensures
        links_by_alias(s).dom().finite(),
        links_by_alias(s).len() == s.len(),
    decreases s.len(),
{
    if s.len() > 0 {
        let p = s.drop_last();
        lemma_links_by_alias_len(p);
        lemma_links_by_alias_contains(p, s.last().short_link@);
        assert(!links_by_alias(p).contains_key(s.last().short_link@)) by {
            if exists|i: int| 0 <= i < p.len() && #[trigger] p[i].short_link@ == s.last().short_link@ {
                let i = choose|i: int| 0 <= i < p.len() && #[trigger] p[i].short_link@ == s.last().short_link@;
                assert(s[i].short_link@ == s[s.len() - 1].short_link@);
            }
        }
    }
}

/// The index of the link with alias `alias`, if there is one.
fn position_of(links: &Vec<Link>, alias: &String) -> (r: Option<usize>)
    ensures
        match r {
            Some(i) => i < links@.len() && links@[i as int].short_link@ == alias@,
            None => forall|k: int| 0 <= k < links@.len() ==> links@[k].short_link@ != alias@,
        },
{
    let mut i: usize = 0;
    while i < links.len()
        invariant
            i <= links@.len(),
            forall|k: int| 0 <= k < i ==> links@[k].short_link@ != alias@,
        decreases links@.len() - i,
    {
        if links[i].short_link == *alias {
            return Some(i);
        }
        i = i + 1;
    }
    None
}

/// A store that keeps its links in memory, with a clock that its owner sets.
pub struct MemoryRepository {
    links: Vec<Link>,
    next_id: i32,
    now: u64,
}

impl MemoryRepository {
    #[verifier::type_invariant]
    spec fn inv(self) -> bool {
        &&& distinct_aliases(self.links@)
        &&& self.next_id >= 1
    }

    /// How many more links can still be given an id.
    pub closed spec fn free_ids(&self) -> nat {
        (i32::MAX - self.next_id) as nat
    }

    /// An empty store whose clock reads `now`.
    pub fn new(now: u64) -> (r: MemoryRepository)
        ensures
            r.links() == Map::<Seq<char>, LinkModel>::empty(),
            r.clock() == now,
            r.free_ids() == i32::MAX - 1,
    {
        MemoryRepository { links: Vec::new(), next_id: 1, now }
    }

    /// Sets the store's clock to `now`.
    pub fn set_clock(&mut self, now: u64)
        ensures
            final(self).links() == old(self).links(),
            final(self).clock() == now,
            final(self).free_ids() == old(self).free_ids(),
    {
        proof {
            use_type_invariant(&*self);
        }
        self.now = now;
    }

    /// The store's clock, in seconds.
    pub fn now(&self) -> (r: u64)
        ensures
            r == self.clock(),
    {
        self.now
    }

    /// How many links the store holds. No two of them share an alias, so this is also
    /// the number of aliases in use.
    pub fn len(&self) -> (r: usize)
        ensures
            r == self.links().len(),
    {
        proof {
            use_type_invariant(self);
            lemma_links_by_alias_len(self.links@);
        }
        self.links.len()
    }
}

impl NamesRepository for MemoryRepository {
    closed spec fn links(&self) -> Map<Seq<char>, LinkModel> {
        links_by_alias(self.links@)
    }

    closed spec fn clock(&self) -> nat {
        self.now as nat
    }

    fn name_exists(&mut self, name: &GeneratedName) -> (r: Result<bool, AppError>)
        ensures
            r == Ok::<bool, AppError>(old(self).links().contains_key(name.0@)),
            final(self).links() == old(self).links(),
            final(self).clock() == old(self).clock(),
            final(self).free_ids() == old(self).free_ids(),
    {
        proof {
            lemma_links_by_alias_contains(self.links@, name.0@);
        }
        match position_of(&self.links, &name.0) {
            Some(_) => Ok(true),
            None => Ok(false),
        }
    }

    fn store_name(&mut self, original: &str, generated: &GeneratedName) -> (r: Result<
        (),
        AppError,
    >)
        ensures
            r is Ok <==> !old(self).links().contains_key(generated.0@) && old(self).free_ids() > 0,
            old(self).links().contains_key(generated.0@) ==> r matches Err(AppError::DuplicateAlias),
            r is Ok ==> final(self).free_ids() == old(self).free_ids() - 1,
            r is Err ==> final(self).free_ids() == old(self).free_ids(),
            final(self).clock() == old(self).clock(),
    {
        proof {
            use_type_invariant(&*self);
            lemma_links_by_alias_contains(self.links@, generated.0@);
        }
        match position_of(&self.links, &generated.0) {
            Some(_) => Err(AppError::DuplicateAlias),
            None => {
                if self.next_id == i32::MAX {
                    return Err(AppError::DatabaseError(String::from_str("no link ids are left")));
                }
                let link = Link {
                    id: self.next_id,
                    original_link: String::from_str(original),
                    short_link: generated.0.clone(),
                    created_at: self.now,
                };
                let ghost before = self.links@;
                let mut taken = MemoryRepository::new(0);
                std::mem::swap(self, &mut taken);
                let MemoryRepository { mut links, next_id, now } = taken;
                links.push(link);
                proof {
                    assert(links@.drop_last() == before);
                }
                *self = MemoryRepository { links, next_id: next_id + 1, now };
                Ok(())
            },
        }
    }

    fn retrieve_original_name(&mut self, name: &GeneratedName) -> (r: Result<String, AppError>)
        ensures
            r is Ok <==> old(self).links().contains_key(name.0@),
            r matches Err(e) ==> e is NotFoundError,
            final(self).links() == old(self).links(),
            final(self).clock() == old(self).clock(),
            final(self).free_ids() == old(self).free_ids(),
    {
        proof {
            use_type_invariant(&*self);
            lemma_links_by_alias_contains(self.links@, name.0@);
        }
        match position_of(&self.links, &name.0) {
            Some(i) => {
                proof {
                    lemma_links_by_alias_index(self.links@, i as int);
                }
                Ok(self.links[i].original_link.clone())
            },
            None => Err(AppError::NotFoundError),
        }
    }

    fn cleanup_old_links(&mut self, window: u64) -> (r: Result<usize, AppError>)
        ensures
            r is Ok,
            final(self).clock() == old(self).clock(),
            final(self).free_ids() == old(self).free_ids(),
    {
        proof {
            use_type_invariant(&*self);
        }
        let ghost all = self.links@;
        let ghost now = self.now as nat;
        let mut kept: Vec<Link> = Vec::new();
        let mut i: usize = 0;
        while i < self.links.len()
            invariant
                all == self.links@,
                now == self.now as nat,
                distinct_aliases(all),
                i <= all.len(),
                distinct_aliases(kept@),
                kept@.len() <= i,
                links_by_alias(kept@) == unexpired(
                    links_by_alias(all.subrange(0, i as int)),
                    now,
                    window as nat,
                ),
            decreases all.len() - i,
        {
            let ghost prefix = all.subrange(0, i as int);
            let ghost next = all.subrange(0, i as int + 1);
            proof {
                assert(next.drop_last() == prefix);
                lemma_links_by_alias_contains(prefix, all[i as int].short_link@);
                assert(!links_by_alias(prefix).contains_key(all[i as int].short_link@)) by {
                    if exists|k: int| 0 <= k < prefix.len() && #[trigger] prefix[k].short_link@ == all[i as int].short_link@ {
                        let k = choose|k: int| 0 <= k < prefix.len() && #[trigger] prefix[k].short_link@ == all[i as int].short_link@;
                        assert(all[k].short_link@ == all[i as int].short_link@);
                    }
                }
            }
            let link = &self.links[i];
            let expired = (link.created_at as u128) + (window as u128) < (self.now as u128);
            if expired {
                proof {
                    assert(links_by_alias(kept@) =~= unexpired(links_by_alias(next), now, window as nat));
                }
            } else {
                let ghost before = kept@;
                proof {
                    lemma_links_by_alias_contains(before, all[i as int].short_link@);
                    assert forall|p: int, q: int| 0 <= p < q < before.len() + 1 implies
                        #[trigger] before.push(all[i as int])[p].short_link@
                            != #[trigger] before.push(all[i as int])[q].short_link@ by {
                        if q == before.len() {
                            assert(before[p].short_link@ == before.push(all[i as int])[p].short_link@);
                        }
                    }
                }
                kept.push(link.duplicate());
                proof {
                    assert(kept@.drop_last() == before);
                    assert(links_by_alias(kept@) =~= unexpired(links_by_alias(next), now, window as nat));
                }
            }
            i = i + 1;
        }
        proof {
            assert(all.subrange(0, all.len() as int) == all);
            lemma_links_by_alias_len(all);
            lemma_links_by_alias_len(kept@);
        }
        let removed = self.links.len() - kept.len();
        self.links = kept;
        Ok(removed)
    }
}

} // verus!
