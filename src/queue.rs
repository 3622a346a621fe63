use vstd::prelude::*;
use crate::key::Key;

verus! {

/// One fixed-capacity segment of a level's queue.
#[derive(Debug)]
pub struct QueuePage {
    pub bump: u8,
    pub level_pool: Key,
    pub page_index: u32,
    pub next_page: Option<Key>,
    pub players: Vec<Key>,
}

/// What a queue page holds, as values.
pub struct PageView {
    pub bump: u8,
    pub level_pool: Key,
    pub page_index: u32,
    pub next_page: Option<Key>,
    pub players: Seq<Key>,
}

impl View for QueuePage {
    type V = PageView;

    open spec fn view(&self) -> PageView {
        PageView {
            bump: self.bump,
            level_pool: self.level_pool,
            page_index: self.page_index,
            next_page: self.next_page,
            players: self.players@,
        }
    }
}

fn copy_keys(v: &Vec<Key>) -> (r: Vec<Key>)
    ensures
        r@ == v@,
{
    let mut r: Vec<Key> = Vec::with_capacity(v.len());
    let mut i: usize = 0;
    while i < v.len()
        invariant
            0 <= i <= v@.len(),
            r@ == v@.subrange(0, i as int),
        decreases v@.len() - i,
    {
        r.push(v[i]);
        i = i + 1;
        assert(r@ =~= v@.subrange(0, i as int));
    }
    assert(v@.subrange(0, v@.len() as int) =~= v@);
    r
}

/// True when `key` is one of `v`'s entries.
pub fn contains_key(v: &Vec<Key>, key: &Key) -> (r: bool)
    ensures
        r == v@.contains(*key),
{
    let mut i: usize = 0;
    while i < v.len()
        invariant
            0 <= i <= v@.len(),
            forall|j: int| 0 <= j < i ==> v@[j] != *key,
        decreases v@.len() - i,
    {
        if v[i].same_as(key) {
            assert(v@[i as int] == *key);
            return true;
        }
        i = i + 1;
    }
    false
}

impl QueuePage {
    /// Account size of a page that holds `capacity` entries.
    pub fn space_with(capacity: usize) -> (r: usize)
        requires
            82 + 32 * capacity <= usize::MAX,
        ensures
            r == 82 + 32 * capacity,
    {
        8 + 1 + 32 + 4 + (1 + 32) + 4 + 32 * capacity
    }

    /// Account size of a page of the default capacity.
    pub fn space_default() -> (r: usize)
        ensures
            r == 82 + 32 * 64,
    {
        Self::space_with(crate::config::QUEUE_PAGE_CAPACITY_DEFAULT)
    }

    /// Seeds from which the address of a pool's page is derived.
    pub fn seeds(level_pool: &Key, page_index: u32) -> (r: Vec<Vec<u8>>)
        ensures
            r.deep_view() == crate::address::queue_page_seeds(level_pool@, page_index),
    {
        crate::address::page_seeds(level_pool, page_index)
    }

    /// A copy of the page.
    pub fn duplicate(&self) -> (r: QueuePage)
        ensures
            r@ == self@,
    {
        QueuePage {
            bump: self.bump,
            level_pool: self.level_pool,
            page_index: self.page_index,
            next_page: self.next_page,
            players: copy_keys(&self.players),
        }
    }
}

/// A page stored under an address.
#[derive(Debug)]
pub struct PageEntry {
    pub key: Key,
    pub page: QueuePage,
}

/// The page stored under `k`: the first entry with that address.
pub open spec fn lookup(s: Seq<PageEntry>, k: Key) -> Option<PageView>
    decreases s.len(),
{
    if s.len() == 0 {
        None
    } else if s[0].key == k {
        Some(s[0].page@)
    } else {
        lookup(s.drop_first(), k)
    }
}

proof fn lemma_lookup_first(s: Seq<PageEntry>, k: Key, i: int)
    requires
        0 <= i < s.len(),
        s[i].key == k,
        forall|j: int| 0 <= j < i ==> s[j].key != k,
    ensures
        lookup(s, k) == Some(s[i].page@),
    decreases i,
{
    if i > 0 {
        lemma_lookup_first(s.drop_first(), k, i - 1);
    }
}

proof fn lemma_lookup_absent(s: Seq<PageEntry>, k: Key)
    requires
        forall|j: int| 0 <= j < s.len() ==> s[j].key != k,
    ensures
        lookup(s, k) is None,
    decreases s.len(),
{
    if s.len() > 0 {
        lemma_lookup_absent(s.drop_first(), k);
    }
}

/// Lookups of `k` agree on two sequences that agree wherever either holds `k`.
proof fn lemma_lookup_same(s: Seq<PageEntry>, t: Seq<PageEntry>, k: Key)
    requires
        s.len() == t.len(),
        forall|j: int| 0 <= j < s.len() ==> (s[j].key == k) == (t[j].key == k),
        forall|j: int| 0 <= j < s.len() && s[j].key == k ==> s[j].page@ == t[j].page@,
    ensures
        lookup(s, k) == lookup(t, k),
    decreases s.len(),
{
    if s.len() > 0 {
        lemma_lookup_same(s.drop_first(), t.drop_first(), k);
    }
}

proof fn lemma_lookup_push(s: Seq<PageEntry>, e: PageEntry, k: Key)
    requires
        lookup(s, k) is Some || e.key != k,
    ensures
        lookup(s.push(e), k) == lookup(s, k),
    decreases s.len(),
{
    if s.len() == 0 {
        assert(s.push(e)[0] == e);
        assert(s.push(e).drop_first() =~= Seq::<PageEntry>::empty());
        assert(lookup(s.push(e).drop_first(), k) is None);
    } else {
        assert(s.push(e)[0] == s[0]);
        assert(s.push(e).drop_first() =~= s.drop_first().push(e));
        if s[0].key != k {
            lemma_lookup_push(s.drop_first(), e, k);
        }
    }
}

/// The pages at hand, each under its address.
#[derive(Debug)]
pub struct PageStore {
    pub entries: Vec<PageEntry>,
}

impl View for PageStore {
    type V = Map<Key, PageView>;

    open spec fn view(&self) -> Map<Key, PageView> {
        Map::new(|k: Key| lookup(self.entries@, k) is Some, |k: Key| lookup(self.entries@, k).unwrap())
    }
}

impl PageStore {
    pub fn new() -> (r: PageStore)
        ensures
            r@ == Map::<Key, PageView>::empty(),
    {
        let r = PageStore { entries: Vec::new() };
        assert(r@ =~= Map::<Key, PageView>::empty());
        r
    }

    fn find(&self, key: &Key) -> (r: Option<usize>)
        ensures
            r matches Some(i) ==> i < self.entries@.len() && self.entries@[i as int].key == *key
                && forall|j: int| 0 <= j < i ==> self.entries@[j].key != *key,
            r is None ==> forall|j: int| 0 <= j < self.entries@.len() ==> self.entries@[j].key != *key,
    {
        let mut i: usize = 0;
        while i < self.entries.len()
            invariant
                0 <= i <= self.entries@.len(),
                forall|j: int| 0 <= j < i ==> self.entries@[j].key != *key,
            decreases self.entries@.len() - i,
        {
            if self.entries[i].key.same_as(key) {
                return Some(i);
            }
            i = i + 1;
        }
        None
    }

    /// True when a page is stored under `key`.
    pub fn contains(&self, key: &Key) -> (r: bool)
        ensures
            r == self@.contains_key(*key),
    {
        match self.find(key) {
            Some(i) => {
                proof {
                    lemma_lookup_first(self.entries@, *key, i as int);
                }
                true
            },
            None => {
                proof {
                    lemma_lookup_absent(self.entries@, *key);
                }
                false
            },
        }
    }

    /// A copy of the page stored under `key`.
    pub fn get(&self, key: &Key) -> (r: Option<QueuePage>)
        ensures
            r is Some == self@.contains_key(*key),
            r matches Some(p) ==> p@ == self@[*key],
    {
        match self.find(key) {
            Some(i) => {
                proof {
                    lemma_lookup_first(self.entries@, *key, i as int);
                }
                Some(self.entries[i].page.duplicate())
            },
            None => {
                proof {
                    lemma_lookup_absent(self.entries@, *key);
                }
                None
            },
        }
    }

    /// A copy of the store.
    pub fn duplicate(&self) -> (r: PageStore)
        ensures
            r@ == self@,
    {
        let mut entries: Vec<PageEntry> = Vec::with_capacity(self.entries.len());
        let mut i: usize = 0;
        while i < self.entries.len()
            invariant
                0 <= i <= self.entries@.len(),
                entries@.len() == i,
                forall|j: int| 0 <= j < i ==> (#[trigger] entries@[j]).key == self.entries@[j].key
                    && entries@[j].page@ == self.entries@[j].page@,
            decreases self.entries@.len() - i,
        {
            let e = &self.entries[i];
            entries.push(PageEntry { key: e.key, page: e.page.duplicate() });
            i = i + 1;
        }
        let r = PageStore { entries };
        proof {
            assert forall|k: Key| lookup(r.entries@, k) == lookup(self.entries@, k) by {
                lemma_lookup_same(r.entries@, self.entries@, k);
            }
        }
        assert(r@ =~= self@);
        r
    }

    /// Stores `page` under `key`, in place of any page stored there.
    pub fn put(&mut self, key: Key, page: QueuePage)
        ensures
            final(self)@ == old(self)@.insert(key, page@),
    {
        let ghost pv = page@;
        let ghost s = self.entries@;
        match self.find(&key) {
            Some(i) => {
                self.entries.set(i, PageEntry { key, page });
                proof {
                    let t = self.entries@;
                    lemma_lookup_first(t, key, i as int);
                    assert forall|k: Key| k != key implies lookup(t, k) == lookup(s, k) by {
                        lemma_lookup_same(s, t, k);
                    }
                }
            },
            None => {
                self.entries.push(PageEntry { key, page });
                proof {
                    let t = self.entries@;
                    assert(t == s.push(t.last()));
                    lemma_lookup_first(t, key, s.len() as int);
                    assert forall|k: Key| k != key implies lookup(t, k) == lookup(s, k) by {
                        lemma_lookup_push(s, t.last(), k);
                    }
                }
            },
        }
        assert(self@ =~= old(self)@.insert(key, pv));
    }
}

} // verus!
