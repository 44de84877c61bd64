//! The record index: normalized records keyed by the value of their
//! `symbol` field, built once per run and then only read.

use vstd::prelude::*;

use crate::errors::Error;
use crate::errors::ErrorView;
use crate::record::normalize_record;
use crate::record::not_found;
use crate::record::spec_lookup;
use crate::record::spec_normalize;
use crate::record::Fields;
use crate::record::NormalizedRecord;
use crate::record::RawFields;
use crate::record::RawRecord;

verus! {

/// The designated field whose value keys the index.
pub open spec fn symbol_key() -> Seq<char> {
    "symbol"@
}

/// The ghost views of a sequence of raw records.
pub open spec fn raw_views(records: Seq<RawRecord>) -> Seq<RawFields> {
    records.map_values(|r: RawRecord| r@)
}

/// The normalization of each record in a sequence, in order.
pub open spec fn normalized_views(raws: Seq<RawFields>) -> Seq<Fields> {
    raws.map_values(|r: RawFields| spec_normalize(r))
}

/// The index built from normalized records, in order: each record is keyed
/// by its `symbol` value, and on a key collision the later record wins
/// (under last-wins lookup). `None` when some record has no `symbol` field:
/// such a record is a defect in the upstream data and fails the whole run.
pub open spec fn spec_index(recs: Seq<Fields>) -> Option<Seq<(Seq<char>, Fields)>>
    decreases recs.len(),
{
    if recs.len() == 0 {
        Some(Seq::<(Seq<char>, Fields)>::empty())
    } else {
        match spec_index(recs.drop_last()) {
            None => None,
            Some(entries) => match spec_lookup(recs.last(), symbol_key()) {
                None => None,
                Some(symv) => Some(entries.push((symv, recs.last()))),
            },
        }
    }
}

/// Normalized records keyed by currency symbol; immutable once built.
pub struct RecordIndex {
    pub entries: Vec<(String, NormalizedRecord)>,
}

impl View for RecordIndex {
    type V = Seq<(Seq<char>, Fields)>;

    open spec fn view(&self) -> Seq<(Seq<char>, Fields)> {
        Seq::new(self.entries@.len(), |i: int| (self.entries@[i].0@, self.entries@[i].1@))
    }
}

/// An index prefix that is `None` poisons the whole index.
proof fn lemma_index_prefix_none(recs: Seq<Fields>, m: int)
    requires
        0 <= m <= recs.len(),
        spec_index(recs.take(m)) is None,
    ensures
        spec_index(recs) is None,
    decreases recs.len() - m,
{
    if m == recs.len() {
        assert(recs.take(m) =~= recs);
    } else {
        assert(recs.take(m + 1).drop_last() =~= recs.take(m));
        assert(recs.take(m + 1).last() == recs[m]);
        lemma_index_prefix_none(recs, m + 1);
    }
}

impl RecordIndex {
    /// Normalizes every raw record and indexes it by its `symbol` value,
    /// in delivery order, the later record winning on a collision. Fails
    /// when some record has no `symbol` field.
    pub fn build(records: &Vec<RawRecord>) -> (r: Result<RecordIndex, Error>)
        ensures
            ({
                let recs = normalized_views(raw_views(records@));
                match r {
                    Ok(idx) => spec_index(recs) == Some(idx@),
                    Err(e) => spec_index(recs) is None && e@ is MissingSymbol,
                }
            }),
    {
        let ghost recs = normalized_views(raw_views(records@));
        let mut entries: Vec<(String, NormalizedRecord)> = Vec::new();
        let mut i: usize = 0;
        while i < records.len()
            invariant
                i <= records.len(),
                recs == normalized_views(raw_views(records@)),
                recs.len() == records@.len(),
                spec_index(recs.take(i as int)) == Some(
                    Seq::new(entries@.len(), |j: int| (entries@[j].0@, entries@[j].1@)),
                ),
            decreases records.len() - i,
        {
            let rec = normalize_record(&records[i]);
            let key = "symbol".to_owned();
            proof {
                assert(recs[i as int] == rec@);
                assert(recs.take(i as int + 1).drop_last() =~= recs.take(i as int));
                assert(recs.take(i as int + 1).last() == recs[i as int]);
            }
            let sym = match rec.get(&key) {
                Some(v) => v.clone(),
                None => {
                    proof {
                        lemma_index_prefix_none(recs, i as int + 1);
                    }
                    return Err(Error::MissingSymbol);
                },
            };
            entries.push((sym, rec));
            proof {
                assert(Seq::new(entries@.len(), |j: int| (entries@[j].0@, entries@[j].1@)) =~= Seq::new(
                    (entries@.len() - 1) as nat,
                    |j: int| (entries@[j].0@, entries@[j].1@),
                ).push((sym@, rec@)));
            }
            i += 1;
        }
        let r = RecordIndex { entries };
        proof {
            assert(recs.take(records@.len() as int) =~= recs);
            assert(Seq::new(r.entries@.len(), |j: int| (r.entries@[j].0@, r.entries@[j].1@)) =~= r@);
        }
        Ok(r)
    }

    /// The normalized record for `symbol`, under last-wins lookup, if the
    /// index has one.
    pub fn get<'a>(&'a self, symbol: &String) -> (r: Option<&'a NormalizedRecord>)
        ensures
            match r {
                Some(rec) => spec_lookup(self@, symbol@) == Some(rec@),
                None => spec_lookup(self@, symbol@) is None,
            },
    {
        let mut k: usize = self.entries.len();
        proof {
            assert(self@.take(k as int) =~= self@);
        }
        while k > 0
            invariant
                k <= self.entries.len(),
                spec_lookup(self@, symbol@) == spec_lookup(self@.take(k as int), symbol@),
            decreases k,
        {
            k -= 1;
            if self.entries[k].0 == *symbol {
                proof {
                    assert(self@.take(k as int + 1).last() == self@[k as int]);
                }
                return Some(&self.entries[k].1);
            }
            proof {
                assert(self@.take(k as int + 1).drop_last() =~= self@.take(k as int));
            }
        }
        proof {
            assert(self@.take(0) =~= Seq::<(Seq<char>, Fields)>::empty());
        }
        None
    }
}

/// Every record reachable by index lookup carries the key it was found
/// under as its own `symbol` field.
pub proof fn lemma_index_symbol(recs: Seq<Fields>, entries: Seq<(Seq<char>, Fields)>, key: Seq<char>)
    requires
        spec_index(recs) == Some(entries),
    ensures
        spec_lookup(entries, key) matches Some(rec) ==> spec_lookup(rec, symbol_key()) == Some(key),
    decreases recs.len(),
{
    if recs.len() == 0 {
        assert(entries.len() == 0);
    } else {
        let prev = spec_index(recs.drop_last());
        let pentries = prev->Some_0;
        let symv = spec_lookup(recs.last(), symbol_key())->Some_0;
        assert(entries == pentries.push((symv, recs.last())));
        assert(entries.last() == (symv, recs.last()));
        if key == symv {
        } else {
            assert(entries.drop_last() =~= pentries);
            lemma_index_symbol(recs.drop_last(), pentries, key);
        }
    }
}

} // verus!
