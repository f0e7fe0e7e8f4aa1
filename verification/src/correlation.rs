//! Correlation of service-log records with test failures.
//!
//! Records sharing a logical-request identifier are buffered in arrival
//! order. The terminal request summary registers its URI, so a later failure
//! can resolve that URI — exactly, by substring match, or by recency — back
//! to the buffered records. Lookups that find nothing report an explicit
//! miss: absence of correlation is an expected case.

use vstd::prelude::*;

use crate::log_parser::{clone_opt_string, extract_path_query, url_path_query_of, ApiLogEntry};
use crate::text::{chars_of, contains_sub, has_sub, str_eq};

verus! {

/// Position of the first pair whose key reads `k`, at or after `i`.
pub open spec fn assoc_idx<V>(m: Seq<(String, V)>, k: Seq<char>, i: int) -> Option<int>
    decreases m.len() - i when 0 <= i <= m.len()
{
    if i >= m.len() {
        None
    } else if m[i].0@ == k {
        Some(i)
    } else {
        assoc_idx(m, k, i + 1)
    }
}

/// No two pairs share a key.
pub open spec fn keys_unique<V>(m: Seq<(String, V)>) -> bool {
    forall|i: int, j: int| 0 <= i < j < m.len() ==> m[i].0@ != m[j].0@
}

pub proof fn lemma_assoc_idx_some<V>(m: Seq<(String, V)>, k: Seq<char>, i: int)
    requires
        0 <= i <= m.len(),
        assoc_idx(m, k, i) is Some,
    ensures
        ({
            let x = assoc_idx(m, k, i)->0;
            &&& i <= x < m.len()
            &&& m[x].0@ == k
            &&& forall|j: int| i <= j < x ==> m[j].0@ != k
        }),
    decreases m.len() - i,
{
    if i < m.len() && m[i].0@ != k {
        lemma_assoc_idx_some(m, k, i + 1);
    }
}

pub proof fn lemma_assoc_idx_none<V>(m: Seq<(String, V)>, k: Seq<char>, i: int)
    requires
        0 <= i <= m.len(),
        assoc_idx(m, k, i) is None,
    ensures
        forall|j: int| i <= j < m.len() ==> m[j].0@ != k,
    decreases m.len() - i,
{
    if i < m.len() {
        lemma_assoc_idx_none(m, k, i + 1);
    }
}

/// Two association lists whose keys read the same have the same lookup
/// positions.
pub proof fn lemma_assoc_idx_same_keys<V, W>(
    m1: Seq<(String, V)>,
    m2: Seq<(String, W)>,
    k: Seq<char>,
    i: int,
)
    requires
        m1.len() == m2.len(),
        forall|j: int| 0 <= j < m1.len() ==> m1[j].0@ == m2[j].0@,
        0 <= i <= m1.len(),
    ensures
        assoc_idx(m1, k, i) == assoc_idx(m2, k, i),
    decreases m1.len() - i,
{
    if i < m1.len() && m1[i].0@ != k {
        lemma_assoc_idx_same_keys(m1, m2, k, i + 1);
    }
}

/// Appending a pair leaves earlier lookups alone; a missing key is found at
/// the end exactly when the new pair carries it.
pub proof fn lemma_assoc_idx_push<V>(m: Seq<(String, V)>, p: (String, V), k: Seq<char>, i: int)
    requires
        0 <= i <= m.len(),
    ensures
        assoc_idx(m, k, i) is Some ==> assoc_idx(m.push(p), k, i) == assoc_idx(m, k, i),
        assoc_idx(m, k, i) is None && p.0@ == k ==> assoc_idx(m.push(p), k, i) == Some(
            m.len() as int,
        ),
        assoc_idx(m, k, i) is None && p.0@ != k ==> assoc_idx(m.push(p), k, i) is None,
    decreases m.len() - i,
{
    let g = m.push(p);
    if i == m.len() {
        assert(g[i as int] == p);
        if p.0@ == k {
            assert(assoc_idx(g, k, i) == Some(i));
        } else {
            assert(assoc_idx(g, k, i + 1) is None);
        }
    } else {
        assert(g[i as int] == m[i as int]);
        lemma_assoc_idx_push(m, p, k, i + 1);
    }
}

/// Finds the position of `key` in an association list.
fn assoc_find_idx<V>(m: &Vec<(String, V)>, key: &str) -> (r: Option<usize>)
    ensures
        match r {
            Some(i) => i < m@.len() && assoc_idx(m@, key@, 0) == Some(i as int),
            None => assoc_idx(m@, key@, 0) is None,
        },
{
    let n = m.len();
    let mut i: usize = 0;
    while i < n
        invariant
            i <= n,
            n == m@.len(),
            assoc_idx(m@, key@, 0) == assoc_idx(m@, key@, i as int),
        decreases n - i,
    {
        if str_eq(m[i].0.as_str(), key) {
            return Some(i);
        }
        i += 1;
    }
    None
}

/// Buffers service-log records per logical-request identifier and resolves
/// failures back to them by URL or recency.
pub struct RequestCorrelator {
    /// Identifier to the ordered (raw line, record) pairs seen for it.
    pub request_logs: Vec<(String, Vec<(String, ApiLogEntry)>)>,
    /// Path+query of a terminal request summary to its identifier.
    pub url_to_request_id: Vec<(String, String)>,
    /// Every (URI, identifier) pair registered, in arrival order.
    pub seen_urls: Vec<(String, String)>,
    /// The identifier most recently seen on any record.
    pub last_request_id: Option<String>,
}

impl RequestCorrelator {
    /// Both indexes hold each key once.
    pub open spec fn wf(&self) -> bool {
        &&& keys_unique(self.request_logs@)
        &&& keys_unique(self.url_to_request_id@)
    }

    /// The ordered records buffered for an identifier.
    pub open spec fn bucket_of(&self, id: Seq<char>) -> Option<Seq<(String, ApiLogEntry)>> {
        match assoc_idx(self.request_logs@, id, 0) {
            Some(i) => Some(self.request_logs@[i].1@),
            None => None,
        }
    }

    /// The identifier registered for a path+query, if its terminal request
    /// summary has been seen.
    pub open spec fn url_id_of(&self, pq: Seq<char>) -> Option<Seq<char>> {
        match assoc_idx(self.url_to_request_id@, pq, 0) {
            Some(i) => Some(self.url_to_request_id@[i].1@),
            None => None,
        }
    }

    /// An empty correlator.
    pub fn new() -> (r: RequestCorrelator)
        ensures
            r.wf(),
            r.request_logs@.len() == 0,
            r.url_to_request_id@.len() == 0,
            r.seen_urls@.len() == 0,
            r.last_request_id is None,
    {
        RequestCorrelator {
            request_logs: Vec::new(),
            url_to_request_id: Vec::new(),
            seen_urls: Vec::new(),
            last_request_id: None,
        }
    }

    /// Buffers one record. With an identifier present, the record is
    /// appended to that identifier's bucket and becomes the most recent;
    /// a terminal request summary additionally registers its URI. Without
    /// an identifier nothing changes.
    pub fn buffer_api_log(&mut self, raw_json: String, entry: ApiLogEntry)
        requires
            old(self).wf(),
        ensures
            final(self).wf(),
            entry.request_id is None ==> *final(self) == *old(self),
            entry.request_id matches Some(rid) ==> {
                &&& final(self).bucket_of(rid@) == Some(
                    (match old(self).bucket_of(rid@) {
                        Some(b) => b,
                        None => Seq::empty(),
                    }).push((raw_json, entry)),
                )
                &&& forall|id: Seq<char>|
                    id != rid@ ==> final(self).bucket_of(id) == old(self).bucket_of(id)
                &&& final(self).last_request_id matches Some(l) && l@ == rid@
                &&& if entry.is_request_summary_spec() && entry.uri is Some {
                    let uri = entry.uri->0;
                    &&& final(self).url_id_of(uri@) == Some(rid@)
                    &&& forall|pq: Seq<char>|
                        pq != uri@ ==> final(self).url_id_of(pq) == old(self).url_id_of(pq)
                    &&& final(self).seen_urls@.len() == old(self).seen_urls@.len() + 1
                    &&& final(self).seen_urls@.take(old(self).seen_urls@.len() as int) == old(
                        self,
                    ).seen_urls@
                    &&& final(self).seen_urls@.last().0@ == uri@
                    &&& final(self).seen_urls@.last().1@ == rid@
                } else {
                    &&& final(self).url_to_request_id == old(self).url_to_request_id
                    &&& final(self).seen_urls == old(self).seen_urls
                }
            },
    {
        let rid: String = match &entry.request_id {
            Some(r) => r.clone(),
            None => {
                return ;
            },
        };
        let is_summary = entry.is_request_summary();
        let uri_opt = clone_opt_string(&entry.uri);
        let ghost old_logs = self.request_logs@;
        match assoc_find_idx(&self.request_logs, rid.as_str()) {
            Some(i) => {
                proof {
                    lemma_assoc_idx_some(old_logs, rid@, 0);
                }
                let pair = self.request_logs.remove(i);
                let mut bucket = pair.1;
                bucket.push((raw_json, entry));
                self.request_logs.insert(i, (pair.0, bucket));
                proof {
                    let new_logs = self.request_logs@;
                    assert(new_logs =~= old_logs.update(
                        i as int,
                        (old_logs[i as int].0, new_logs[i as int].1),
                    ));
                    assert(forall|j: int|
                        0 <= j < old_logs.len() ==> (#[trigger] new_logs[j]).0@ == old_logs[j].0@);
                    assert forall|id: Seq<char>|
                        assoc_idx(new_logs, id, 0) == assoc_idx(old_logs, id, 0) by {
                        lemma_assoc_idx_same_keys(new_logs, old_logs, id, 0);
                    }
                    assert(new_logs[i as int].1@ == old_logs[i as int].1@.push(
                        (raw_json, entry),
                    ));
                    assert forall|id: Seq<char>|
                        #![trigger assoc_idx(old_logs, id, 0)]
                        id != rid@ implies (match assoc_idx(old_logs, id, 0) {
                        Some(j) => new_logs[j].1@ == old_logs[j].1@,
                        None => true,
                    }) by {
                        if assoc_idx(old_logs, id, 0) is Some {
                            lemma_assoc_idx_some(old_logs, id, 0);
                            let j = assoc_idx(old_logs, id, 0)->0;
                            assert(old_logs[j].0@ == id);
                            assert(j != i as int);
                            assert(new_logs[j] == old_logs[j]);
                            assert(new_logs[j].1@ == old_logs[j].1@);
                        }
                    }
                }
            },
            None => {
                proof {
                    lemma_assoc_idx_none(old_logs, rid@, 0);
                }
                let mut bucket: Vec<(String, ApiLogEntry)> = Vec::new();
                bucket.push((raw_json, entry));
                self.request_logs.push((rid.clone(), bucket));
                proof {
                    let new_logs = self.request_logs@;
                    let p = (rid, bucket);
                    assert forall|id: Seq<char>|
                        #![trigger assoc_idx(new_logs, id, 0)]
                        assoc_idx(new_logs, id, 0) == (if id == rid@ {
                            Some(old_logs.len() as int)
                        } else {
                            assoc_idx(old_logs, id, 0)
                        }) by {
                        lemma_assoc_idx_push(old_logs, new_logs.last(), id, 0);
                        assert(new_logs =~= old_logs.push(new_logs.last()));
                        if id != rid@ {
                            if assoc_idx(old_logs, id, 0) is None {
                            }
                        }
                    }
                    assert forall|id: Seq<char>|
                        #![trigger assoc_idx(old_logs, id, 0)]
                        id != rid@ implies (match assoc_idx(old_logs, id, 0) {
                        Some(j) => new_logs[j].1@ == old_logs[j].1@,
                        None => true,
                    }) by {
                        if assoc_idx(old_logs, id, 0) is Some {
                            lemma_assoc_idx_some(old_logs, id, 0);
                            let j = assoc_idx(old_logs, id, 0)->0;
                            assert(new_logs[j] == old_logs[j]);
                            assert(new_logs[j].1@ == old_logs[j].1@);
                        }
                    }
                    assert(keys_unique(new_logs));
                }
            },
        }
        self.last_request_id = Some(rid.clone());
        if is_summary {
            if let Some(uri) = uri_opt {
                let ghost old_url = self.url_to_request_id@;
                put_url(&mut self.url_to_request_id, uri.clone(), rid.clone());
                proof {
                    let new_url = self.url_to_request_id@;
                    if assoc_idx(old_url, uri@, 0) is Some {
                        let i = assoc_idx(old_url, uri@, 0)->0;
                        lemma_assoc_idx_some(old_url, uri@, 0);
                        assert(forall|j: int|
                            0 <= j < old_url.len() ==> (#[trigger] new_url[j]).0@
                                == old_url[j].0@);
                        assert forall|pq: Seq<char>|
                            #![trigger assoc_idx(new_url, pq, 0)]
                            assoc_idx(new_url, pq, 0) == assoc_idx(old_url, pq, 0) by {
                            lemma_assoc_idx_same_keys(new_url, old_url, pq, 0);
                        }
                        assert(new_url[i].1@ == rid@);
                        assert forall|pq: Seq<char>|
                            #![trigger assoc_idx(old_url, pq, 0)]
                            pq != uri@ implies (match assoc_idx(old_url, pq, 0) {
                            Some(j) => new_url[j].1@ == old_url[j].1@,
                            None => true,
                        }) by {
                            if assoc_idx(old_url, pq, 0) is Some {
                                lemma_assoc_idx_some(old_url, pq, 0);
                                let j = assoc_idx(old_url, pq, 0)->0;
                                assert(old_url[j].0@ == pq);
                                assert(j != i);
                                assert(new_url[j] == old_url[j]);
                                assert(new_url[j].1@ == old_url[j].1@);
                            }
                        }
                    } else {
                        lemma_assoc_idx_none(old_url, uri@, 0);
                        assert forall|pq: Seq<char>|
                            #![trigger assoc_idx(new_url, pq, 0)]
                            assoc_idx(new_url, pq, 0) == (if pq == uri@ {
                                Some(old_url.len() as int)
                            } else {
                                assoc_idx(old_url, pq, 0)
                            }) by {
                            lemma_assoc_idx_push(old_url, new_url.last(), pq, 0);
                            assert(new_url =~= old_url.push(new_url.last()));
                        }
                        assert forall|pq: Seq<char>|
                            #![trigger assoc_idx(old_url, pq, 0)]
                            pq != uri@ implies (match assoc_idx(old_url, pq, 0) {
                            Some(j) => new_url[j].1@ == old_url[j].1@,
                            None => true,
                        }) by {
                            if assoc_idx(old_url, pq, 0) is Some {
                                lemma_assoc_idx_some(old_url, pq, 0);
                                let j = assoc_idx(old_url, pq, 0)->0;
                                assert(new_url[j] == old_url[j]);
                                assert(new_url[j].1@ == old_url[j].1@);
                            }
                        }
                        assert(new_url.last().1@ == rid@);
                    }
                }
                let ghost old_seen = self.seen_urls@;
                self.seen_urls.push((uri, rid));
                proof {
                    assert(self.seen_urls@.take(old_seen.len() as int) =~= old_seen);
                }
            }
        }
    }

/// What a lookup by full URL resolves to: the URL's path+query, when it
/// parses, leads through the URL index to an identifier and its bucket.
pub open spec fn lookup_by_url_spec(&self, url: Seq<char>) -> Option<
    (Seq<char>, Seq<(String, ApiLogEntry)>),
> {
    match url_path_query_of(url) {
        None => None,
        Some(pq) => match self.url_id_of(pq) {
            None => None,
            Some(rid) => match self.bucket_of(rid) {
                None => None,
                Some(b) => Some((rid, b)),
            },
        },
    }
}

/// Resolves a failure's full URL to the identifier and buffered records of
/// the request that served it, through the terminal-summary URL index. A
/// miss is an expected outcome, not an error.
pub fn get_failed_request_logs<'a>(&'a self, full_url: &str) -> (r: Option<
    (&'a str, &'a Vec<(String, ApiLogEntry)>),
>)
    ensures
        match r {
            Some(p) => self.lookup_by_url_spec(full_url@) == Some((p.0@, p.1@)),
            None => self.lookup_by_url_spec(full_url@) is None,
        },
{
    let pq = match extract_path_query(full_url) {
        Some(p) => p,
        None => {
            return None;
        },
    };
    let i = match assoc_find_idx(&self.url_to_request_id, pq.as_str()) {
        Some(i) => i,
        None => {
            return None;
        },
    };
    let rid = &self.url_to_request_id[i].1;
    let j = match assoc_find_idx(&self.request_logs, rid.as_str()) {
        Some(j) => j,
        None => {
            return None;
        },
    };
    Some((rid.as_str(), &self.request_logs[j].1))
}

/// First position at or after `j` in the seen-URL list whose URI matches
/// `pq` by substring containment in either direction and whose identifier
/// still has a bucket.
pub open spec fn partial_scan(&self, pq: Seq<char>, j: int) -> Option<int>
    decreases self.seen_urls@.len() - j when 0 <= j <= self.seen_urls@.len()
{
    if j >= self.seen_urls@.len() {
        None
    } else {
        let u = self.seen_urls@[j].0@;
        let rid = self.seen_urls@[j].1@;
        if (has_sub(u, pq) || has_sub(pq, u)) && self.bucket_of(rid) is Some {
            Some(j)
        } else {
            self.partial_scan(pq, j + 1)
        }
    }
}

/// What a partial-match lookup resolves to: the exact lookup first; on a
/// miss, the first seen URI related to the path+query by substring
/// containment, in arrival order.
pub open spec fn lookup_by_partial_spec(&self, url: Seq<char>) -> Option<
    (Seq<char>, Seq<(String, ApiLogEntry)>),
> {
    match self.lookup_by_url_spec(url) {
        Some(x) => Some(x),
        None => match url_path_query_of(url) {
            None => None,
            Some(pq) => match self.partial_scan(pq, 0) {
                Some(j) => Some(
                    (
                        self.seen_urls@[j].1@,
                        self.bucket_of(self.seen_urls@[j].1@)->0,
                    ),
                ),
                None => None,
            },
        },
    }
}

/// Resolves a failure's URL exactly first, then by substring containment
/// against every URI seen, in arrival order.
pub fn find_matching_logs_by_url<'a>(&'a self, partial_url: &str) -> (r: Option<
    (&'a str, &'a Vec<(String, ApiLogEntry)>),
>)
    ensures
        match r {
            Some(p) => self.lookup_by_partial_spec(partial_url@) == Some((p.0@, p.1@)),
            None => self.lookup_by_partial_spec(partial_url@) is None,
        },
{
    match self.get_failed_request_logs(partial_url) {
        Some(res) => {
            return Some(res);
        },
        None => {},
    }
    let pq = match extract_path_query(partial_url) {
        Some(p) => p,
        None => {
            return None;
        },
    };
    proof {
        assert(url_path_query_of(partial_url@) == Some(pq@));
    }
    let pqv = chars_of(pq.as_str());
    let n = self.seen_urls.len();
    let mut j: usize = 0;
    while j < n
        invariant
            j <= n,
            n == self.seen_urls@.len(),
            pqv@ == pq@,
            self.lookup_by_url_spec(partial_url@) is None,
            url_path_query_of(partial_url@) == Some(pq@),
            self.partial_scan(pq@, 0) == self.partial_scan(pq@, j as int),
        decreases n - j,
    {
        let u = &self.seen_urls[j].0;
        let uv = chars_of(u.as_str());
        if contains_sub(uv.as_slice(), pqv.as_slice()) || contains_sub(
            pqv.as_slice(),
            uv.as_slice(),
        ) {
            let rid = &self.seen_urls[j].1;
            match assoc_find_idx(&self.request_logs, rid.as_str()) {
                Some(k) => {
                    proof {
                        assert(rid@ == self.seen_urls@[j as int].1@);
                        assert(self.bucket_of(self.seen_urls@[j as int].1@) == Some(
                            self.request_logs@[k as int].1@,
                        ));
                        assert(self.partial_scan(pq@, 0) == Some(j as int));
                    }
                    return Some((rid.as_str(), &self.request_logs[k].1));
                },
                None => {},
            }
        }
        j += 1;
    }
    None
}

/// What a recency lookup returns: up to `k` of the records most recently
/// buffered under the most recent identifier, in arrival order.
pub open spec fn lookup_last_spec(&self, k: int) -> Option<
    (Seq<char>, Seq<(String, ApiLogEntry)>),
> {
    match self.last_request_id {
        None => None,
        Some(rid) => match self.bucket_of(rid@) {
            None => None,
            Some(b) => {
                let start = if b.len() <= k {
                    0int
                } else {
                    b.len() - k
                };
                Some((rid@, b.skip(start)))
            },
        },
    }
}

/// Returns up to the last `max_logs` records buffered under the most recent
/// identifier: the fallback when a failure carries no usable URL. Nothing
/// when no identifier has ever been seen.
pub fn get_last_request_logs<'a>(&'a self, max_logs: usize) -> (r: Option<
    (&'a str, &'a [(String, ApiLogEntry)]),
>)
    ensures
        match r {
            Some(p) => self.lookup_last_spec(max_logs as int) == Some((p.0@, p.1@)),
            None => self.lookup_last_spec(max_logs as int) is None,
        },
{
    let rid = match &self.last_request_id {
        Some(r) => r,
        None => {
            return None;
        },
    };
    let j = match assoc_find_idx(&self.request_logs, rid.as_str()) {
        Some(j) => j,
        None => {
            return None;
        },
    };
    let bucket = &self.request_logs[j].1;
    let blen = bucket.len();
    let start = if blen <= max_logs {
        0
    } else {
        blen - max_logs
    };
    let tail = vstd::slice::slice_subrange(bucket.as_slice(), start, blen);
    proof {
        assert(tail@ =~= bucket@.skip(start as int));
    }
    Some((rid.as_str(), tail))
}

/// Clears every bucket, the URL index, and the recency pointer, for
/// isolation between independent runs.
pub fn clear(&mut self)
    ensures
        final(self).wf(),
        final(self).request_logs@.len() == 0,
        final(self).url_to_request_id@.len() == 0,
        final(self).seen_urls@.len() == 0,
        final(self).last_request_id is None,
{
    self.request_logs.clear();
    self.url_to_request_id.clear();
    self.seen_urls.clear();
    self.last_request_id = None;
}

/// How many identifiers have records buffered.
pub fn buffered_count(&self) -> (r: usize)
    ensures
        r == self.request_logs@.len(),
{
    self.request_logs.len()
}

    /// Total number of buffered records over all identifiers, stopping at
    /// the numeric limit instead of overflowing.
    pub fn total_logs(&self) -> (r: usize)
        ensures
            r as nat == if sum_logs(self.request_logs@) <= usize::MAX {
                sum_logs(self.request_logs@)
            } else {
                usize::MAX as nat
            },
    {
        let n = self.request_logs.len();
        let mut acc: usize = 0;
        let mut i: usize = 0;
        while i < n
            invariant
                i <= n,
                n == self.request_logs@.len(),
                acc as nat == if sum_logs(self.request_logs@.take(i as int)) <= usize::MAX {
                    sum_logs(self.request_logs@.take(i as int))
                } else {
                    usize::MAX as nat
                },
            decreases n - i,
        {
            let b = self.request_logs[i].1.len();
            proof {
                lemma_sum_logs_step(self.request_logs@, i as int);
            }
            if acc > usize::MAX - b {
                acc = usize::MAX;
            } else {
                acc = acc + b;
            }
            i += 1;
        }
        proof {
            assert(self.request_logs@.take(n as int) =~= self.request_logs@);
        }
        acc
    }
}

/// Registers or overwrites the identifier for a path+query, as a map
/// insertion does: an existing key keeps its place and old key string.
fn put_url(m: &mut Vec<(String, String)>, key: String, val: String)
    requires
        keys_unique(old(m)@),
    ensures
        keys_unique(final(m)@),
        match assoc_idx(old(m)@, key@, 0) {
            Some(i) => final(m)@ == old(m)@.update(i, (old(m)@[i].0, val)),
            None => final(m)@ == old(m)@.push((key, val)),
        },
{
    let ghost old_m = m@;
    match assoc_find_idx(m, key.as_str()) {
        Some(i) => {
            proof {
                lemma_assoc_idx_some(old_m, key@, 0);
            }
            let pair = m.remove(i);
            m.insert(i, (pair.0, val));
            proof {
                assert(m@ =~= old_m.update(i as int, (old_m[i as int].0, val)));
            }
        },
        None => {
            proof {
                lemma_assoc_idx_none(old_m, key@, 0);
            }
            m.push((key, val));
        },
    }
}

/// After records sharing one identifier have been buffered — by
/// `buffer_api_log`'s contract their bucket holds them in arrival order —
/// a recency lookup of `k` yields exactly the last `min(k, N)` of the `N`
/// buffered records, in arrival order, the most recent last.
pub proof fn lemma_lookup_last_returns_tail(
    c: &RequestCorrelator,
    k: int,
    b: Seq<(String, ApiLogEntry)>,
)
    requires
        0 <= k,
        c.last_request_id matches Some(l) && c.bucket_of(l@) == Some(b),
    ensures
        ({
            let r = c.lookup_last_spec(k);
            let take = if b.len() <= k {
                b.len() as int
            } else {
                k
            };
            &&& r is Some
            &&& ({
                let got = (r->0).1;
                &&& got.len() == take
                &&& forall|i: int| 0 <= i < take ==> got[i] == b[b.len() - take + i]
            })
        }),
{
}

/// Once a terminal request summary carrying identifier `rid` and a URI has
/// been buffered — by `buffer_api_log`'s contract the URL index then maps
/// that URI to `rid` — a URL lookup succeeds for every URL whose normalized
/// path+query equals that URI, and resolves to `rid` and its bucket.
pub proof fn lemma_url_lookup_resolves(
    c: &RequestCorrelator,
    url: Seq<char>,
    pq: Seq<char>,
    rid: Seq<char>,
    b: Seq<(String, ApiLogEntry)>,
)
    requires
        url_path_query_of(url) == Some(pq),
        c.url_id_of(pq) == Some(rid),
        c.bucket_of(rid) == Some(b),
    ensures
        c.lookup_by_url_spec(url) == Some((rid, b)),
{
}

/// A URL whose path+query was never registered by a terminal request
/// summary — however many records mention it — stays a miss: correlation by
/// URL only becomes possible after the terminal event.
pub proof fn lemma_url_lookup_miss(c: &RequestCorrelator, url: Seq<char>, pq: Seq<char>)
    requires
        url_path_query_of(url) == Some(pq),
        c.url_id_of(pq) is None,
    ensures
        c.lookup_by_url_spec(url) is None,
{
}

/// Total number of records buffered across all buckets.
pub open spec fn sum_logs(m: Seq<(String, Vec<(String, ApiLogEntry)>)>) -> nat
    decreases m.len(),
{
    if m.len() == 0 {
        0
    } else {
        sum_logs(m.drop_last()) + m.last().1@.len()
    }
}

proof fn lemma_sum_logs_step(m: Seq<(String, Vec<(String, ApiLogEntry)>)>, i: int)
    requires
        0 <= i < m.len(),
    ensures
        sum_logs(m.take(i + 1)) == sum_logs(m.take(i)) + m[i].1@.len(),
{
    assert(m.take(i + 1).drop_last() =~= m.take(i));
    assert(m.take(i + 1).last() == m[i]);
}

} // verus!
