//! One produced unit of the annotation stream: a flat mapping from
//! annotation key to printed value, one entry per analyzed frame or
//! packet, in the temporal order the execution engine emitted them.

use vstd::prelude::*;

use crate::decimal::{parse_decimal, spec_parse_dec};

verus! {

/// One `key = value` annotation of an entry.
pub struct AnnotationPair {
    pub key: String,
    pub value: String,
}

/// The mathematical shadow of an annotation pair.
pub ghost struct AnnotationPairModel {
    pub key: Seq<char>,
    pub value: Seq<char>,
}

impl View for AnnotationPair {
    type V = AnnotationPairModel;

    open spec fn view(&self) -> AnnotationPairModel {
        AnnotationPairModel { key: self.key@, value: self.value@ }
    }
}

/// One entry of the annotation stream. Keys are found by first match,
/// which agrees with a keyed map as long as the execution engine emits
/// each key once per entry, as it does.
pub struct EntryResult {
    pub pairs: Vec<AnnotationPair>,
}

impl View for EntryResult {
    type V = Seq<AnnotationPairModel>;

    open spec fn view(&self) -> Seq<AnnotationPairModel> {
        self.pairs@.map_values(|p: AnnotationPair| p@)
    }
}

/// The value under `key`, first match.
pub open spec fn spec_lookup(pairs: Seq<AnnotationPairModel>, key: Seq<char>) -> Option<Seq<char>>
    decreases pairs.len(),
{
    if pairs.len() == 0 {
        None
    } else if pairs[0].key == key {
        Some(pairs[0].value)
    } else {
        spec_lookup(pairs.drop_first(), key)
    }
}

impl EntryResult {
    pub fn new() -> (r: EntryResult)
        ensures
            r@ =~= Seq::<AnnotationPairModel>::empty(),
    {
        EntryResult { pairs: Vec::new() }
    }

    /// Adds one annotation. An already present key keeps its first
    /// value, so the engine's one-key-per-entry convention matters to
    /// callers that build entries by hand.
    pub fn push(&mut self, key: String, value: String)
        ensures
            final(self)@ =~= old(self)@.push(AnnotationPairModel { key: key@, value: value@ }),
    {
        self.pairs.push(AnnotationPair { key, value });
    }

    /// Looks the key up, first match.
    pub fn get<'a>(&'a self, key: &str) -> (r: Option<&'a String>)
        ensures
            match r {
                Some(v) => spec_lookup(self@, key@) == Some(v@),
                None => spec_lookup(self@, key@) is None,
            },
    {
        let k = key.to_owned();
        let n = self.pairs.len();
        let mut i: usize = 0;
        proof {
            assert(self@.skip(0) =~= self@);
        }
        while i < n
            invariant
                n == self.pairs.len(),
                i <= n,
                k@ == key@,
                spec_lookup(self@, key@) == spec_lookup(self@.skip(i as int), key@),
            decreases n - i,
        {
            proof {
                assert(self@.len() == n);
                assert(self@.skip(i as int)[0] == self@[i as int]);
                assert(self@.skip(i as int).drop_first() =~= self@.skip(i as int + 1));
                assert(self@[i as int] == self.pairs@[i as int]@);
            }
            if self.pairs[i].key == k {
                return Some(&self.pairs[i].value);
            }
            i = i + 1;
        }
        proof {
            assert(self@.skip(n as int) =~= Seq::<AnnotationPairModel>::empty());
        }
        None
    }
}

/// Which of the `len` streams an entry belongs to: its `"stream_id"`
/// annotation read as a whole number, or nothing when the key is absent,
/// malformed, fractional or out of range.
pub open spec fn spec_entry_stream(e: EntryResult, len: int) -> Option<int> {
    match spec_lookup(e@, "stream_id"@) {
        None => None,
        Some(v) => match spec_parse_dec(v) {
            Some(d) => if d.scale == 0 && (d.mantissa as int) < len {
                Some(d.mantissa as int)
            } else {
                None
            },
            None => None,
        },
    }
}

/// Reads the stream index off an entry, skipping anything malformed.
pub fn entry_stream(e: &EntryResult, len: usize) -> (r: Option<usize>)
    ensures
        match r {
            Some(s) => spec_entry_stream(*e, len as int) == Some(s as int) && s < len,
            None => spec_entry_stream(*e, len as int) is None,
        },
{
    match e.get("stream_id") {
        None => None,
        Some(v) => match parse_decimal(v.as_str()) {
            Some(d) => {
                if d.scale == 0 && d.mantissa < len as u64 {
                    Some(d.mantissa as usize)
                } else {
                    None
                }
            },
            None => None,
        },
    }
}

} // verus!
