use vstd::hash_map::StringHashMap;
use vstd::prelude::*;

verus! {

/// The time for which a cached summary is trusted, in milliseconds: 24
/// hours.
pub const CACHE_TTL_MS: i64 = 86_400_000;

/// A summary as the cache keeps it.
pub struct CachedResponse {
    /// The summary, in Markdown.
    pub summary: String,
    /// The number of words of the text that was summarized.
    pub word_count: usize,
    /// When the entry was written, in milliseconds since the Unix epoch.
    pub timestamp: i64,
}

/// A `CachedResponse` with its summary as a sequence of characters.
pub struct CachedResponseView {
    pub summary: Seq<char>,
    pub word_count: usize,
    pub timestamp: i64,
}

impl View for CachedResponse {
    type V = CachedResponseView;

    open spec fn view(&self) -> CachedResponseView {
        CachedResponseView {
            summary: self.summary@,
            word_count: self.word_count,
            timestamp: self.timestamp,
        }
    }
}

impl CachedResponse {
    /// A copy of the entry.
    pub fn snapshot(&self) -> (copy: CachedResponse)
        ensures
            copy@ == self@,
    {
        CachedResponse {
            summary: self.summary.clone(),
            word_count: self.word_count,
            timestamp: self.timestamp,
        }
    }
}

/// Tells whether an entry written at `timestamp` is still trusted at `now`:
/// whether less than 24 hours lie between the two.
pub open spec fn is_fresh(timestamp: i64, now: i64) -> bool {
    now - timestamp < CACHE_TTL_MS
}

/// What a lookup of `url` at the time `now` finds in `entries`: the entry
/// under exactly that URL, if there is one and it is fresh.
pub open spec fn lookup(entries: Map<Seq<char>, CachedResponseView>, url: Seq<char>, now: i64)
    -> Option<CachedResponseView> {
    if entries.contains_key(url) && is_fresh(entries[url].timestamp, now) {
        Some(entries[url])
    } else {
        None
    }
}

/// `entries` after the writes `writes` were made, the first of them first.
pub open spec fn after_writes(
    entries: Map<Seq<char>, CachedResponseView>,
    writes: Seq<(Seq<char>, CachedResponseView)>,
) -> Map<Seq<char>, CachedResponseView>
    decreases writes.len(),
{
    if writes.len() == 0 {
        entries
    } else {
        after_writes(entries, writes.drop_last()).insert(writes.last().0, writes.last().1)
    }
}

/// The summaries of the pages seen so far, each under the URL of its page.
pub struct Cache {
    entries: StringHashMap<CachedResponse>,
}

impl View for Cache {
    type V = Map<Seq<char>, CachedResponseView>;

    closed spec fn view(&self) -> Map<Seq<char>, CachedResponseView> {
        self.entries@.map_values(|entry: CachedResponse| entry@)
    }
}

impl Cache {
    /// The cache without entries.
    pub fn new() -> (cache: Cache)
        ensures
            cache@ == Map::<Seq<char>, CachedResponseView>::empty(),
    {
        let cache = Cache { entries: StringHashMap::new() };
        assert(cache@ =~= Map::<Seq<char>, CachedResponseView>::empty());
        cache
    }

    /// Looks `url` up at the time `now`: a copy of the entry under exactly
    /// that URL, if there is one and less than 24 hours have passed since it
    /// was written. A stale entry is left where it is.
    pub fn get(&self, url: &str, now: i64) -> (found: Option<CachedResponse>)
        ensures
            match found {
                Some(entry) => lookup(self@, url@, now) == Some(entry@),
                None => lookup(self@, url@, now) is None,
            },
    {
        match self.entries.get(url) {
            Some(entry) => {
                if (now as i128) - (entry.timestamp as i128) < (CACHE_TTL_MS as i128) {
                    Some(entry.snapshot())
                } else {
                    None
                }
            },
            None => None,
        }
    }

    /// Writes `entry` under `url`, in place of the entry that was there, if
    /// any. No other entry changes.
    pub fn put(&mut self, url: String, entry: CachedResponse)
        ensures
            final(self)@ == old(self)@.insert(url@, entry@),
    {
        self.entries.insert(url, entry);
        assert(self@ =~= old(self)@.insert(url@, entry@));
    }
}

/// An entry is read back as it was written, for as long as it is fresh.
pub proof fn law_written_entry_is_found(
    entries: Map<Seq<char>, CachedResponseView>,
    url: Seq<char>,
    entry: CachedResponseView,
    now: i64,
)
    ensures
        lookup(entries.insert(url, entry), url, now) == if is_fresh(entry.timestamp, now) {
            Some(entry)
        } else {
            None
        },
{
}

/// An entry of 24 hours or more is not found, whatever else the cache
/// holds.
pub proof fn law_stale_entry_is_not_found(
    entries: Map<Seq<char>, CachedResponseView>,
    url: Seq<char>,
    now: i64,
)
    requires
        entries.contains_key(url),
        now - entries[url].timestamp >= CACHE_TTL_MS,
    ensures
        lookup(entries, url, now) is None,
{
}

/// A write under one URL leaves the lookups of every other URL as they
/// were.
pub proof fn law_write_leaves_other_urls(
    entries: Map<Seq<char>, CachedResponseView>,
    url: Seq<char>,
    entry: CachedResponseView,
    other: Seq<char>,
    now: i64,
)
    requires
        other != url,
    ensures
        lookup(entries.insert(url, entry), other, now) == lookup(entries, other, now),
{
}

/// After any number of writes, in whatever order the callers' writes were
/// made, no written URL is lost, and each URL holds what was written under
/// it last.
pub proof fn law_last_write_wins(
    entries: Map<Seq<char>, CachedResponseView>,
    writes: Seq<(Seq<char>, CachedResponseView)>,
    i: int,
)
    requires
        0 <= i < writes.len(),
        forall|j: int| i < j < writes.len() ==> writes[j].0 != writes[i].0,
    ensures
        after_writes(entries, writes).contains_key(writes[i].0),
        after_writes(entries, writes)[writes[i].0] == writes[i].1,
    decreases writes.len(),
{
    if i < writes.len() - 1 {
        let earlier = writes.drop_last();
        assert(writes.last().0 != writes[i].0);
        law_last_write_wins(entries, earlier, i);
    }
}

/// Writes change nothing under a URL that none of them names.
pub proof fn law_writes_leave_unwritten_urls(
    entries: Map<Seq<char>, CachedResponseView>,
    writes: Seq<(Seq<char>, CachedResponseView)>,
    url: Seq<char>,
)
    requires
        forall|j: int| 0 <= j < writes.len() ==> writes[j].0 != url,
    ensures
        after_writes(entries, writes).contains_key(url) == entries.contains_key(url),
        entries.contains_key(url) ==> after_writes(entries, writes)[url] == entries[url],
    decreases writes.len(),
{
    if writes.len() > 0 {
        law_writes_leave_unwritten_urls(entries, writes.drop_last(), url);
    }
}

} // verus!
