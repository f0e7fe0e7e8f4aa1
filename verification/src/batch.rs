//! Grouping of consecutive batch-marked runner lines into one display unit.
//!
//! The aggregator idles until the first batch-marked line arrives, collects
//! every following batch-marked line, and on the first non-batch line (or at
//! stream end) emits the whole group at once. The non-batch line that
//! triggers the flush is not consumed: the caller processes it normally
//! afterward.

use vstd::prelude::*;

use crate::log_parser::ApiLogEntry;

verus! {

/// One emitted group of batch lines, labeled by the first request identifier
/// found among its parsed records, or a fixed placeholder.
pub struct BatchGroup {
    pub label: String,
    pub lines: Vec<(String, Option<ApiLogEntry>)>,
}

/// Collects consecutive batch-marked lines; idle exactly when the buffer is
/// empty.
pub struct BatchAggregator {
    pub buffer: Vec<(String, Option<ApiLogEntry>)>,
}

/// The first request identifier among the parsed records at or after `i`.
pub open spec fn first_batch_id(
    ls: Seq<(String, Option<ApiLogEntry>)>,
    i: int,
) -> Option<Seq<char>>
    decreases ls.len() - i when 0 <= i <= ls.len()
{
    if i >= ls.len() {
        None
    } else {
        match ls[i].1 {
            Some(e) => match e.request_id {
                Some(rid) => Some(rid@),
                None => first_batch_id(ls, i + 1),
            },
            None => first_batch_id(ls, i + 1),
        }
    }
}

/// The label of a group: its first request identifier, or the placeholder.
pub open spec fn batch_label_spec(ls: Seq<(String, Option<ApiLogEntry>)>) -> Seq<char> {
    match first_batch_id(ls, 0) {
        Some(r) => r,
        None => "Batch Job"@,
    }
}

impl BatchAggregator {
    /// An idle aggregator.
    pub fn new() -> (r: BatchAggregator)
        ensures
            r.buffer@.len() == 0,
    {
        BatchAggregator { buffer: Vec::new() }
    }

    /// Whether a group is being collected.
    pub fn is_collecting(&self) -> (r: bool)
        ensures
            r == (self.buffer@.len() > 0),
    {
        self.buffer.len() > 0
    }

    /// Appends one batch-marked line, with its parsed record when the line's
    /// structured part decoded.
    pub fn observe_batch(&mut self, content: String, entry: Option<ApiLogEntry>)
        ensures
            final(self).buffer@ == old(self).buffer@.push((content, entry)),
    {
        self.buffer.push((content, entry));
    }

    /// Emits the collected group, if any, and returns to idle. Collected
    /// lines come out exactly as they went in, in order; the group is
    /// labeled by the first identifier found among its parsed records, or
    /// by the placeholder when none carries one.
    pub fn flush(&mut self) -> (r: Option<BatchGroup>)
        ensures
            old(self).buffer@.len() == 0 ==> r is None && *final(self) == *old(self),
            old(self).buffer@.len() > 0 ==> {
                &&& final(self).buffer@.len() == 0
                &&& r matches Some(g) && g.lines@ == old(self).buffer@ && g.label@
                    == batch_label_spec(old(self).buffer@)
            },
    {
        let n = self.buffer.len();
        if n == 0 {
            return None;
        }
        let mut label: Option<String> = None;
        let mut i: usize = 0;
        while i < n && label.is_none()
            invariant
                i <= n,
                n == self.buffer@.len(),
                match label {
                    Some(l) => first_batch_id(self.buffer@, 0) == Some(l@),
                    None => first_batch_id(self.buffer@, 0) == first_batch_id(
                        self.buffer@,
                        i as int,
                    ),
                },
            decreases n - i,
        {
            let p = &self.buffer[i];
            match &p.1 {
                Some(e) => match &e.request_id {
                    Some(rid) => {
                        label = Some(rid.clone());
                    },
                    None => {},
                },
                None => {},
            }
            i += 1;
        }
        let label_str: String = match label {
            Some(l) => l,
            None => "Batch Job".to_owned(),
        };
        let mut lines: Vec<(String, Option<ApiLogEntry>)> = Vec::new();
        core::mem::swap(&mut self.buffer, &mut lines);
        Some(BatchGroup { label: label_str, lines })
    }
}

/// Feeding a run of lines one by one appends each in turn, so the group a
/// flush then emits holds exactly the lines fed, in order: what `flush`'s
/// contract hands out for a buffer grown from empty by `observe_batch`.
pub open spec fn buffer_grown_from_empty(ls: Seq<(String, Option<ApiLogEntry>)>) -> Seq<
    (String, Option<ApiLogEntry>),
>
    decreases ls.len(),
{
    if ls.len() == 0 {
        Seq::empty()
    } else {
        buffer_grown_from_empty(ls.drop_last()).push(ls.last())
    }
}

/// The buffer grown from empty by appending each line of `ls` holds exactly
/// `ls`: together with `flush`'s contract, a run of batch lines followed by
/// one non-batch line yields exactly one group holding all of them in order.
pub proof fn lemma_batch_run_collects_all(ls: Seq<(String, Option<ApiLogEntry>)>)
    ensures
        buffer_grown_from_empty(ls) == ls,
    decreases ls.len(),
{
    if ls.len() == 0 {
        assert(buffer_grown_from_empty(ls) =~= ls);
    } else {
        lemma_batch_run_collects_all(ls.drop_last());
        assert(buffer_grown_from_empty(ls) =~= ls);
    }
}

} // verus!
