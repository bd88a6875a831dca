//! PDF previews: only the first pages are rendered, and rendered documents
//! are kept in a small in-memory cache that forgets the least recently used
//! document first.

use vstd::prelude::*;
use crate::pixels::{rgb_to_rgba, rgba_from_rgb};
use crate::text_ops::{decimal, decimal_string, str_equals};

verus! {

/// At most this many documents stay cached.
pub const MAX_CACHED_DOCUMENTS: usize = 20;

/// At most this many leading pages of a document are rendered.
pub const MAX_PAGES: usize = 6;

pub struct DecodedPage {
    pub width: u32,
    pub height: u32,
    pub rgba8: Vec<u8>,
}

#[derive(Debug)]
pub enum PdfProviderError {
    OpenFailed(String),
    RenderFailed(String),
}

/// Identifies one version of a file: its path, modification time and size.
/// A changed file gets a new key, so stale renders are never served.
#[derive(Debug)]
pub struct CacheKey {
    pub path: String,
    pub mtime_nanos: u128,
    pub size: u64,
}

pub type KeyView = (Seq<char>, u128, u64);

pub type PageView = (u32, u32, Seq<u8>);

/// A cached document: its key and its rendered pages.
pub type EntryView = (KeyView, Seq<PageView>);

impl View for CacheKey {
    type V = KeyView;

    open spec fn view(&self) -> KeyView {
        (self.path@, self.mtime_nanos, self.size)
    }
}

impl View for DecodedPage {
    type V = PageView;

    open spec fn view(&self) -> PageView {
        (self.width, self.height, self.rgba8@)
    }
}

pub open spec fn pages_view(pages: Seq<DecodedPage>) -> Seq<PageView> {
    pages.map_values(|p: DecodedPage| p@)
}

pub open spec fn entry_view(entry: (CacheKey, Vec<DecodedPage>)) -> EntryView {
    (entry.0@, pages_view(entry.1@))
}

impl CacheKey {
    pub fn same_as(&self, other: &CacheKey) -> (same: bool)
        ensures
            same == (self@ == other@),
    {
        self.mtime_nanos == other.mtime_nanos && self.size == other.size && str_equals(
            self.path.as_str(),
            other.path.as_str(),
        )
    }

    pub fn duplicate(&self) -> (copy: CacheKey)
        ensures
            copy@ == self@,
    {
        CacheKey {
            path: String::from_str(self.path.as_str()),
            mtime_nanos: self.mtime_nanos,
            size: self.size,
        }
    }
}

/// Whether some cached document has key `key`.
pub open spec fn has_key(entries: Seq<EntryView>, key: KeyView) -> bool {
    exists|i: int| 0 <= i < entries.len() && #[trigger] entries[i].0 == key
}

/// No two cached documents share a key.
pub open spec fn distinct_keys(entries: Seq<EntryView>) -> bool {
    forall|i: int, j: int|
        0 <= i < entries.len() && 0 <= j < entries.len() && i != j ==> #[trigger] entries[i].0
            != #[trigger] entries[j].0
}

/// Where the document with key `key` sits in the recency order.
pub open spec fn key_position(entries: Seq<EntryView>, key: KeyView) -> int {
    choose|i: int| 0 <= i < entries.len() && #[trigger] entries[i].0 == key
}

/// The pages cached under `key`, if any.
pub open spec fn pages_for(entries: Seq<EntryView>, key: KeyView) -> Option<Seq<PageView>> {
    if has_key(entries, key) {
        Some(entries[key_position(entries, key)].1)
    } else {
        None
    }
}

/// Every cached document holds at most `MAX_PAGES` pages.
pub open spec fn pages_within_limit(entries: Seq<EntryView>) -> bool {
    forall|i: int| 0 <= i < entries.len() ==> (#[trigger] entries[i]).1.len() <= MAX_PAGES
}

/// The leading pages that are kept of a render: at most `MAX_PAGES`.
pub open spec fn first_pages(pages: Seq<PageView>) -> Seq<PageView> {
    if pages.len() <= MAX_PAGES {
        pages
    } else {
        pages.take(MAX_PAGES as int)
    }
}

/// The recency order after using the document with key `key`: it moves to
/// the most recent end; nothing changes when it is not cached.
pub open spec fn touched(entries: Seq<EntryView>, key: KeyView) -> Seq<EntryView> {
    if has_key(entries, key) {
        let i = key_position(entries, key);
        entries.remove(i).push(entries[i])
    } else {
        entries
    }
}

/// The cache after storing `pages` under `key`: an earlier render of the
/// same key is replaced; a new key entering a full cache evicts the least
/// recently used document; the stored document becomes the most recent.
pub open spec fn inserted(entries: Seq<EntryView>, key: KeyView, pages: Seq<PageView>) -> Seq<
    EntryView,
> {
    if has_key(entries, key) {
        entries.remove(key_position(entries, key)).push((key, pages))
    } else if entries.len() >= MAX_CACHED_DOCUMENTS {
        entries.drop_first().push((key, pages))
    } else {
        entries.push((key, pages))
    }
}

pub proof fn lemma_position_unique(entries: Seq<EntryView>, key: KeyView, i: int)
    requires
        distinct_keys(entries),
        0 <= i < entries.len(),
        entries[i].0 == key,
    ensures
        has_key(entries, key),
        key_position(entries, key) == i,
{
    assert(has_key(entries, key));
    let j = key_position(entries, key);
    assert(entries[j].0 == key);
}

/// Rendered pages of recently previewed documents, least recently used
/// first.
pub struct PdfCache {
    entries: Vec<(CacheKey, Vec<DecodedPage>)>,
}

impl View for PdfCache {
    type V = Seq<EntryView>;

    closed spec fn view(&self) -> Seq<EntryView> {
        self.entries@.map_values(|e: (CacheKey, Vec<DecodedPage>)| entry_view(e))
    }
}

impl PdfCache {
    /// Keys are distinct, the capacity is respected and no document holds
    /// more than `MAX_PAGES` pages.
    pub closed spec fn wf(&self) -> bool {
        &&& distinct_keys(self@)
        &&& self@.len() <= MAX_CACHED_DOCUMENTS
        &&& pages_within_limit(self@)
    }

    /// What well-formedness guarantees of the cached documents.
    pub proof fn lemma_wf_facts(&self)
        requires
            self.wf(),
        ensures
            distinct_keys(self@),
            self@.len() <= MAX_CACHED_DOCUMENTS,
            pages_within_limit(self@),
    {
    }

    pub fn new() -> (cache: Self)
        ensures
            cache.wf(),
            cache@ == Seq::<EntryView>::empty(),
    {
        let cache = PdfCache { entries: Vec::new() };
        assert(cache@ =~= Seq::<EntryView>::empty());
        cache
    }

    /// Number of cached documents.
    pub fn len(&self) -> (n: usize)
        ensures
            n == self@.len(),
    {
        self.entries.len()
    }

    fn position(&self, key: &CacheKey) -> (pos: Option<usize>)
        requires
            self.wf(),
        ensures
            match pos {
                Some(i) => i < self@.len() && self@[i as int].0 == key@ && has_key(self@, key@)
                    && key_position(self@, key@) == i,
                None => !has_key(self@, key@),
            },
    {
        let mut i: usize = 0;
        while i < self.entries.len()
            invariant
                self.wf(),
                i <= self.entries@.len(),
                forall|j: int| 0 <= j < i ==> self@[j].0 != key@,
            decreases self.entries@.len() - i,
        {
            if self.entries[i].0.same_as(key) {
                proof {
                    lemma_position_unique(self@, key@, i as int);
                }
                return Some(i);
            }
            i = i + 1;
        }
        None
    }

    pub fn contains_key(&self, key: &CacheKey) -> (found: bool)
        requires
            self.wf(),
        ensures
            found == has_key(self@, key@),
    {
        self.position(key).is_some()
    }

    /// Marks the document with key `key` as the most recently used one.
    pub fn touch(&mut self, key: &CacheKey)
        requires
            old(self).wf(),
        ensures
            final(self).wf(),
            final(self)@ == touched(old(self)@, key@),
    {
        if let Some(i) = self.position(key) {
            let ghost before = self@;
            let entry = self.entries.remove(i);
            self.entries.push(entry);
            proof {
                assert(self@ =~= before.remove(i as int).push(before[i as int]));
                assert forall|a: int, b: int|
                    0 <= a < self@.len() && 0 <= b < self@.len() && a != b implies #[trigger] self@[a].0
                    != #[trigger] self@[b].0 by {
                    let oa = if a == self@.len() - 1 { i as int } else if a < i { a } else { a + 1 };
                    let ob = if b == self@.len() - 1 { i as int } else if b < i { b } else { b + 1 };
                    assert(self@[a] == before[oa]);
                    assert(self@[b] == before[ob]);
                }
                assert forall|a: int| 0 <= a < self@.len() implies (#[trigger] self@[a]).1.len()
                    <= MAX_PAGES by {
                    let oa = if a == self@.len() - 1 { i as int } else if a < i { a } else { a + 1 };
                    assert(self@[a] == before[oa]);
                }
            }
        }
    }

    /// Stores the first `MAX_PAGES` of `pages` under `key`, evicting the
    /// least recently used document when a new key arrives in a full cache.
    pub fn insert(&mut self, key: CacheKey, pages: Vec<DecodedPage>)
        requires
            old(self).wf(),
        ensures
            final(self).wf(),
            final(self)@ == inserted(old(self)@, key@, first_pages(pages_view(pages@))),
    {
        let ghost before = self@;
        let ghost k = key@;
        let ghost p = first_pages(pages_view(pages@));
        let mut pages = pages;
        if pages.len() > MAX_PAGES {
            let ghost all = pages@;
            pages.truncate(MAX_PAGES);
            assert(pages_view(pages@) =~= pages_view(all).take(MAX_PAGES as int));
        }
        assert(pages_view(pages@) =~= p);
        let pos = self.position(&key);
        let mut entries: Vec<(CacheKey, Vec<DecodedPage>)> = Vec::new();
        std::mem::swap(&mut entries, &mut self.entries);
        assert(entries@.map_values(|e: (CacheKey, Vec<DecodedPage>)| entry_view(e)) == before);
        let ghost base: Seq<EntryView>;
        match pos {
            Some(i) => {
                entries.remove(i);
                proof {
                    base = before.remove(i as int);
                }
            },
            None => {
                if entries.len() >= MAX_CACHED_DOCUMENTS {
                    entries.remove(0);
                    proof {
                        base = before.drop_first();
                    }
                } else {
                    proof {
                        base = before;
                    }
                }
            },
        }
        assert(entries@.map_values(|e: (CacheKey, Vec<DecodedPage>)| entry_view(e)) =~= base);
        assert(forall|j: int| 0 <= j < base.len() ==> base[j].0 != k) by {
            assert forall|j: int| 0 <= j < base.len() implies base[j].0 != k by {
                match pos {
                    Some(i) => {
                        let oj = if j < i { j } else { j + 1 };
                        assert(base[j] == before[oj]);
                    },
                    None => {
                        if before.len() >= MAX_CACHED_DOCUMENTS {
                            assert(base[j] == before[j + 1]);
                        } else {
                            assert(base[j] == before[j]);
                        }
                    },
                }
            }
        }
        entries.push((key, pages));
        self.entries = entries;
        proof {
            assert(self@ =~= base.push((k, p)));
            assert forall|a: int, b: int|
                0 <= a < self@.len() && 0 <= b < self@.len() && a != b implies #[trigger] self@[a].0
                != #[trigger] self@[b].0 by {
                let last = self@.len() - 1;
                if a != last && b != last {
                    let oa = match pos {
                        Some(i) => if a < i { a } else { a + 1 },
                        None => if before.len() >= MAX_CACHED_DOCUMENTS { a + 1 } else { a },
                    };
                    let ob = match pos {
                        Some(i) => if b < i { b } else { b + 1 },
                        None => if before.len() >= MAX_CACHED_DOCUMENTS { b + 1 } else { b },
                    };
                    assert(base[a] == before[oa]);
                    assert(base[b] == before[ob]);
                }
            }
            assert forall|a: int| 0 <= a < self@.len() implies (#[trigger] self@[a]).1.len()
                <= MAX_PAGES by {
                let last = self@.len() - 1;
                if a != last {
                    let oa = match pos {
                        Some(i) => if a < i { a } else { a + 1 },
                        None => if before.len() >= MAX_CACHED_DOCUMENTS { a + 1 } else { a },
                    };
                    assert(base[a] == before[oa]);
                }
            }
            assert(self@ == inserted(before, k, p));
        }
    }

    /// The pages cached under `key`, if any.
    pub fn pages(&self, key: &CacheKey) -> (found: Option<&Vec<DecodedPage>>)
        requires
            self.wf(),
        ensures
            match found {
                Some(v) => pages_for(self@, key@) == Some(pages_view(v@)),
                None => pages_for(self@, key@) is None,
            },
    {
        match self.position(key) {
            Some(i) => Some(&self.entries[i].1),
            None => None,
        }
    }
}

/// The previewer's handle on rendered PDF pages: a cache in front of the
/// renderer.
pub struct PdfProvider {
    cache: PdfCache,
}

impl View for PdfProvider {
    type V = Seq<EntryView>;

    closed spec fn view(&self) -> Seq<EntryView> {
        self.cache@
    }
}

impl PdfProvider {
    pub closed spec fn wf(&self) -> bool {
        self.cache.wf()
    }

    /// What well-formedness guarantees of the cached documents.
    pub proof fn lemma_wf_facts(&self)
        requires
            self.wf(),
        ensures
            distinct_keys(self@),
            self@.len() <= MAX_CACHED_DOCUMENTS,
            pages_within_limit(self@),
    {
        self.cache.lemma_wf_facts();
    }

    pub fn new() -> (provider: Self)
        ensures
            provider.wf(),
            provider@ == Seq::<EntryView>::empty(),
    {
        PdfProvider { cache: PdfCache::new() }
    }

    /// Cache-only lookup: never renders. `key` is `None` when the file's
    /// metadata could not be read. A hit becomes the most recently used
    /// document.
    pub fn cached_pages(&mut self, key: Option<&CacheKey>) -> (found: Option<&[DecodedPage]>)
        requires
            old(self).wf(),
        ensures
            final(self).wf(),
            match key {
                None => found is None && final(self)@ == old(self)@,
                Some(k) => match pages_for(old(self)@, k@) {
                    Some(p) => found matches Some(v) && pages_view(v@) == p && final(self)@
                        == touched(old(self)@, k@),
                    None => found is None && final(self)@ == old(self)@,
                },
            },
    {
        let key = match key {
            Some(k) => k,
            None => return None,
        };
        if self.cache.contains_key(key) {
            self.cache.touch(key);
            proof {
                lemma_touched_keeps_contents(old(self)@, key@, key@);
            }
            Some(self.cache.pages(key).unwrap().as_slice())
        } else {
            None
        }
    }

    /// Returns the cached pages for `key`, or renders them with `render`,
    /// caches the first `MAX_PAGES` of them and returns those. `key` is the
    /// error message when the file's metadata could not be read; `render` is
    /// only called on a cache miss, and a failed render leaves the cache
    /// unchanged.
    pub fn get_or_render_first_pages<F>(&mut self, key: Result<CacheKey, String>, render: F) -> (out:
        Result<&[DecodedPage], PdfProviderError>) where
        F: FnOnce() -> Result<Vec<DecodedPage>, PdfProviderError>,

        requires
            old(self).wf(),
            render.requires(()),
        ensures
            final(self).wf(),
            match key {
                Err(msg) => out matches Err(PdfProviderError::OpenFailed(m)) && m@ == msg@ && final(self)@ == old(self)@,
                Ok(k) => if has_key(old(self)@, k@) {
                    &&& out matches Ok(v) && Some(pages_view(v@)) == pages_for(old(self)@, k@)
                    &&& final(self)@ == touched(old(self)@, k@)
                } else {
                    exists|rendered: Result<Vec<DecodedPage>, PdfProviderError>|
                        #[trigger] render.ensures((), rendered) && match rendered {
                            Err(e) => out == Err::<&[DecodedPage], PdfProviderError>(e) && final(self)@ == old(self)@,
                            Ok(p) => out matches Ok(v) && pages_view(v@) == first_pages(pages_view(p@))
                                && final(self)@ == inserted(old(self)@, k@, first_pages(pages_view(p@))),
                        }
                },
            },
    {
        let key = match key {
            Ok(k) => k,
            Err(msg) => return Err(PdfProviderError::OpenFailed(msg)),
        };
        if self.cache.contains_key(&key) {
            self.cache.touch(&key);
            proof {
                lemma_touched_keeps_contents(old(self)@, key@, key@);
            }
            return Ok(self.cache.pages(&key).unwrap().as_slice());
        }
        let rendered = render();
        let pages = match rendered {
            Ok(p) => p,
            Err(e) => return Err(e),
        };
        let ghost p = first_pages(pages_view(pages@));
        let lookup = key.duplicate();
        self.cache.insert(key, pages);
        proof {
            lemma_inserted_then_found(old(self)@, lookup@, p);
        }
        Ok(self.cache.pages(&lookup).unwrap().as_slice())
    }

    /// Records a render that already happened elsewhere (a background
    /// loader renders off the UI thread), so that later opens of the same
    /// document hit the cache. Only the first `MAX_PAGES` pages are kept;
    /// nothing is recorded when `key` is `None`.
    pub fn record_external_render(&mut self, key: Option<CacheKey>, pages: Vec<DecodedPage>)
        requires
            old(self).wf(),
        ensures
            final(self).wf(),
            match key {
                None => final(self)@ == old(self)@,
                Some(k) => final(self)@ == inserted(old(self)@, k@, first_pages(pages_view(pages@))),
            },
    {
        if let Some(k) = key {
            self.cache.insert(k, pages);
        }
    }

    /// The number of cached pages for `key` (never more than `MAX_PAGES`),
    /// without changing the recency order.
    pub fn available_page_count(&self, key: Option<&CacheKey>) -> (count: Option<usize>)
        requires
            self.wf(),
        ensures
            count matches Some(n) ==> n <= MAX_PAGES,
            match key {
                None => count is None,
                Some(k) => match pages_for(self@, k@) {
                    Some(p) => count == Some(p.len() as usize),
                    None => count is None,
                },
            },
    {
        match key {
            None => None,
            Some(k) => match self.cache.pages(k) {
                Some(pages) => {
                    proof {
                        self.cache.lemma_wf_facts();
                        let i = key_position(self@, k@);
                        assert(self@[i].1.len() <= MAX_PAGES);
                    }
                    Some(pages.len())
                },
                None => None,
            },
        }
    }
}

/// Number of pages rendered for a document of `total_pages` pages.
pub fn pages_to_render(total_pages: usize) -> (n: usize)
    ensures
        n == if total_pages < MAX_PAGES { total_pages } else { MAX_PAGES },
{
    if total_pages < MAX_PAGES {
        total_pages
    } else {
        MAX_PAGES
    }
}

/// The message for a rendered page whose pixels have neither 3 nor 4
/// components.
pub open spec fn pixel_component_message(components: nat) -> Seq<char> {
    "unexpected pixel component count: "@ + decimal(components) + " (expected 3 or 4)"@
}

/// RGBA8 pixels for a rendered page whose samples have `components`
/// channels: RGBA is kept, RGB gains an opaque alpha, anything else is a
/// render failure.
pub fn page_pixels_to_rgba(samples: &[u8], components: usize) -> (out: Result<
    Vec<u8>,
    PdfProviderError,
>)
    ensures
        components == 4 ==> (out matches Ok(v) && v@ == samples@),
        components == 3 ==> (out matches Ok(v) && v@ == rgba_from_rgb(samples@)),
        components != 3 && components != 4 ==> (out matches Err(PdfProviderError::RenderFailed(m))
            && m@ == pixel_component_message(components as nat)),
{
    if components == 4 {
        Ok(vstd::slice::slice_to_vec(samples))
    } else if components == 3 {
        Ok(rgb_to_rgba(samples))
    } else {
        let mut msg = String::from_str("unexpected pixel component count: ");
        let count = decimal_string(components as u64);
        msg.append(count.as_str());
        msg.append(" (expected 3 or 4)");
        Err(PdfProviderError::RenderFailed(msg))
    }
}

pub proof fn lemma_pages_for_at(entries: Seq<EntryView>, key: KeyView, i: int)
    requires
        distinct_keys(entries),
        0 <= i < entries.len(),
        entries[i].0 == key,
    ensures
        pages_for(entries, key) == Some(entries[i].1),
{
    lemma_position_unique(entries, key, i);
}

/// Using a document reorders the cache but keeps every document's pages and
/// the distinctness of keys.
pub proof fn lemma_touched_keeps_contents(entries: Seq<EntryView>, key: KeyView, other: KeyView)
    requires
        distinct_keys(entries),
    ensures
        distinct_keys(touched(entries, key)),
        touched(entries, key).len() == entries.len(),
        pages_for(touched(entries, key), other) == pages_for(entries, other),
        has_key(entries, key) ==> touched(entries, key).last().0 == key,
{
    if has_key(entries, key) {
        let i = key_position(entries, key);
        let t = touched(entries, key);
        let last = t.len() - 1;
        assert forall|a: int| 0 <= a < t.len() implies #[trigger] t[a] == entries[if a == last {
            i
        } else if a < i {
            a
        } else {
            a + 1
        }] by {}
        assert forall|a: int, b: int|
            0 <= a < t.len() && 0 <= b < t.len() && a != b implies #[trigger] t[a].0
            != #[trigger] t[b].0 by {
            let oa = if a == last { i } else if a < i { a } else { a + 1 };
            let ob = if b == last { i } else if b < i { b } else { b + 1 };
            assert(t[a] == entries[oa]);
            assert(t[b] == entries[ob]);
        }
        if has_key(entries, other) {
            let j = key_position(entries, other);
            let tj = if j == i { last } else if j < i { j } else { j - 1 };
            assert(t[tj] == entries[j]);
            lemma_pages_for_at(t, other, tj);
        } else {
            if has_key(t, other) {
                let tj = key_position(t, other);
                let oj = if tj == last { i } else if tj < i { tj } else { tj + 1 };
                assert(t[tj] == entries[oj]);
            }
        }
    }
}

/// What was stored is what a lookup finds: after storing `pages` under
/// `key`, the cache holds exactly those pages for `key`, as its most
/// recently used document, and stays within its capacity.
pub proof fn lemma_inserted_then_found(entries: Seq<EntryView>, key: KeyView, pages: Seq<PageView>)
    requires
        distinct_keys(entries),
        entries.len() <= MAX_CACHED_DOCUMENTS,
    ensures
        distinct_keys(inserted(entries, key, pages)),
        inserted(entries, key, pages).len() <= MAX_CACHED_DOCUMENTS,
        has_key(inserted(entries, key, pages), key),
        pages_for(inserted(entries, key, pages), key) == Some(pages),
        inserted(entries, key, pages).last() == (key, pages),
{
    let s = inserted(entries, key, pages);
    let last = s.len() - 1;
    let base = s.drop_last();
    assert(s == base.push((key, pages)));
    assert forall|j: int| 0 <= j < base.len() implies base[j].0 != key by {
        if has_key(entries, key) {
            let i = key_position(entries, key);
            let oj = if j < i { j } else { j + 1 };
            assert(base[j] == entries[oj]);
        } else if entries.len() >= MAX_CACHED_DOCUMENTS {
            assert(base[j] == entries[j + 1]);
        } else {
            assert(base[j] == entries[j]);
        }
    }
    assert forall|a: int, b: int|
        0 <= a < s.len() && 0 <= b < s.len() && a != b implies #[trigger] s[a].0
        != #[trigger] s[b].0 by {
        if a != last && b != last {
            if has_key(entries, key) {
                let i = key_position(entries, key);
                let oa = if a < i { a } else { a + 1 };
                let ob = if b < i { b } else { b + 1 };
                assert(base[a] == entries[oa]);
                assert(base[b] == entries[ob]);
            } else if entries.len() >= MAX_CACHED_DOCUMENTS {
                assert(base[a] == entries[a + 1]);
                assert(base[b] == entries[b + 1]);
            } else {
                assert(base[a] == entries[a]);
                assert(base[b] == entries[b]);
            }
        }
    }
    lemma_pages_for_at(s, key, last);
}

/// At most twenty documents stay cached, and at most six leading pages of
/// each are rendered.
pub proof fn lemma_limits()
    ensures
        MAX_CACHED_DOCUMENTS == 20,
        MAX_PAGES == 6,
{
}

/// The pages kept of a render are its leading pages, in order: all of
/// them when there are at most `MAX_PAGES`, otherwise exactly the first
/// `MAX_PAGES`.
pub proof fn lemma_first_pages_are_leading(pages: Seq<PageView>)
    ensures
        first_pages(pages).len() == if pages.len() <= MAX_PAGES { pages.len() } else { MAX_PAGES as nat },
        forall|i: int| 0 <= i < first_pages(pages).len() ==> #[trigger] first_pages(pages)[i] == pages[i],
{
}

/// Opening a document again after it was rendered: once the first pages of
/// a render are stored under `key`, a lookup of `key` is a hit that finds
/// exactly those pages, and there are at most `MAX_PAGES` of them.
pub proof fn lemma_render_then_reopen(entries: Seq<EntryView>, key: KeyView, rendered: Seq<PageView>)
    requires
        distinct_keys(entries),
        entries.len() <= MAX_CACHED_DOCUMENTS,
    ensures
        has_key(inserted(entries, key, first_pages(rendered)), key),
        pages_for(inserted(entries, key, first_pages(rendered)), key) == Some(first_pages(rendered)),
        first_pages(rendered).len() <= MAX_PAGES,
        rendered.len() <= MAX_PAGES ==> first_pages(rendered) == rendered,
{
    lemma_inserted_then_found(entries, key, first_pages(rendered));
}

/// Storing a document under a new key in a full cache evicts exactly the
/// least recently used document; every other document keeps its pages.
pub proof fn lemma_full_cache_evicts_least_recent(
    entries: Seq<EntryView>,
    key: KeyView,
    pages: Seq<PageView>,
    other: KeyView,
)
    requires
        distinct_keys(entries),
        entries.len() == MAX_CACHED_DOCUMENTS,
        !has_key(entries, key),
    ensures
        !has_key(inserted(entries, key, pages), entries[0].0),
        other != entries[0].0 && other != key ==> pages_for(inserted(entries, key, pages), other)
            == pages_for(entries, other),
        inserted(entries, key, pages).len() == MAX_CACHED_DOCUMENTS,
{
    let s = inserted(entries, key, pages);
    let last = s.len() - 1;
    assert(s =~= entries.drop_first().push((key, pages)));
    if has_key(s, entries[0].0) {
        let j = key_position(s, entries[0].0);
        if j == last {
            assert(s[j].0 == key);
        } else {
            assert(s[j] == entries[j + 1]);
        }
    }
    if other != entries[0].0 && other != key {
        lemma_inserted_then_found(entries, key, pages);
        if has_key(entries, other) {
            let j = key_position(entries, other);
            assert(j != 0);
            assert(s[j - 1] == entries[j]);
            lemma_pages_for_at(s, other, j - 1);
        } else if has_key(s, other) {
            let j = key_position(s, other);
            if j != last {
                assert(s[j] == entries[j + 1]);
            }
        }
    }
}

/// Storing a document never disturbs the other documents, except for the
/// least recently used one when a new key arrives in a full cache.
pub proof fn lemma_insert_keeps_others(
    entries: Seq<EntryView>,
    key: KeyView,
    pages: Seq<PageView>,
    other: KeyView,
)
    requires
        distinct_keys(entries),
        entries.len() <= MAX_CACHED_DOCUMENTS,
        other != key,
        has_key(entries, key) || entries.len() < MAX_CACHED_DOCUMENTS,
    ensures
        pages_for(inserted(entries, key, pages), other) == pages_for(entries, other),
{
    let s = inserted(entries, key, pages);
    let last = s.len() - 1;
    lemma_inserted_then_found(entries, key, pages);
    if has_key(entries, key) {
        let i = key_position(entries, key);
        if has_key(entries, other) {
            let j = key_position(entries, other);
            assert(j != i);
            let sj = if j < i { j } else { j - 1 };
            assert(s[sj] == entries[j]);
            lemma_pages_for_at(s, other, sj);
        } else if has_key(s, other) {
            let j = key_position(s, other);
            if j != last {
                let oj = if j < i { j } else { j + 1 };
                assert(s[j] == entries[oj]);
            }
        }
    } else {
        if has_key(entries, other) {
            let j = key_position(entries, other);
            assert(s[j] == entries[j]);
            lemma_pages_for_at(s, other, j);
        } else if has_key(s, other) {
            let j = key_position(s, other);
            if j != last {
                assert(s[j] == entries[j]);
            }
        }
    }
}

} // verus!
