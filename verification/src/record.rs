//! Ticker records: the raw shape delivered by the data source and the
//! normalized shape used for lookups and formatting.

use vstd::prelude::*;

verus! {

/// The fields of a raw record, as a ghost value: name and optional value.
pub type RawFields = Seq<(Seq<char>, Option<Seq<char>>)>;

/// The fields of a normalized record, as a ghost value: name and value.
pub type Fields = Seq<(Seq<char>, Seq<char>)>;

/// The placeholder text that replaces an absent field value.
pub open spec fn not_found() -> Seq<char> {
    "not found"@
}

/// Last-wins lookup in an association list: the value of the latest entry
/// whose key equals `key`, if any.
pub open spec fn spec_lookup<V>(entries: Seq<(Seq<char>, V)>, key: Seq<char>) -> Option<V>
    decreases entries.len(),
{
    if entries.len() == 0 {
        None
    } else if entries.last().0 == key {
        Some(entries.last().1)
    } else {
        spec_lookup(entries.drop_last(), key)
    }
}

/// One currency's snapshot as delivered by the data source: field names
/// mapped to optional text values (absent when the source sent null).
pub struct RawRecord {
    pub fields: Vec<(String, Option<String>)>,
}

impl View for RawRecord {
    type V = Seq<(Seq<char>, Option<Seq<char>>)>;

    open spec fn view(&self) -> Seq<(Seq<char>, Option<Seq<char>>)> {
        Seq::new(
            self.fields@.len(),
            |i: int|
                (
                    self.fields@[i].0@,
                    match self.fields@[i].1 {
                        Some(v) => Some(v@),
                        None => None,
                    },
                ),
        )
    }
}

/// One currency's snapshot with every field present: absent values have
/// been replaced by the placeholder text.
pub struct NormalizedRecord {
    pub fields: Vec<(String, String)>,
}

impl View for NormalizedRecord {
    type V = Seq<(Seq<char>, Seq<char>)>;

    open spec fn view(&self) -> Seq<(Seq<char>, Seq<char>)> {
        Seq::new(self.fields@.len(), |i: int| (self.fields@[i].0@, self.fields@[i].1@))
    }
}

/// Normalization of one raw record: keys are kept, in order, and every
/// absent value becomes the placeholder text.
pub open spec fn spec_normalize(raw: Seq<(Seq<char>, Option<Seq<char>>)>) -> Seq<
    (Seq<char>, Seq<char>),
> {
    Seq::new(
        raw.len(),
        |i: int|
            (
                raw[i].0,
                match raw[i].1 {
                    Some(v) => v,
                    None => not_found(),
                },
            ),
    )
}

/// Replaces every absent value of `raw` with the placeholder text,
/// keeping field order and keys.
pub fn normalize_record(raw: &RawRecord) -> (r: NormalizedRecord)
    ensures
        r@ == spec_normalize(raw@),
{
    let mut fields: Vec<(String, String)> = Vec::new();
    let mut i: usize = 0;
    while i < raw.fields.len()
        invariant
            i <= raw.fields.len(),
            fields@.len() == i as int,
            forall|k: int|
                0 <= k < i as int ==> (#[trigger] fields@[k]).0@ == spec_normalize(raw@)[k].0
                    && fields@[k].1@ == spec_normalize(raw@)[k].1,
        decreases raw.fields.len() - i,
    {
        let key = raw.fields[i].0.clone();
        let value = match &raw.fields[i].1 {
            Some(v) => v.clone(),
            None => "not found".to_owned(),
        };
        fields.push((key, value));
        i += 1;
    }
    let r = NormalizedRecord { fields };
    proof {
        assert(r@ =~= spec_normalize(raw@));
    }
    r
}

/// Normalization commutes with field lookup: after normalization, a field
/// that was present keeps its value, and a field that was present with an
/// absent value carries the placeholder text.
pub proof fn lemma_normalize_lookup(raw: RawFields, x: Seq<char>)
    ensures
        spec_lookup(spec_normalize(raw), x) == match spec_lookup(raw, x) {
            None => None::<Seq<char>>,
            Some(None) => Some(not_found()),
            Some(Some(v)) => Some(v),
        },
    decreases raw.len(),
{
    let n = spec_normalize(raw);
    if raw.len() == 0 {
        assert(n =~= Seq::<(Seq<char>, Seq<char>)>::empty());
    } else {
        assert(n.last() == n[raw.len() - 1]);
        assert(n.last().0 == raw.last().0);
        if raw.last().0 == x {
        } else {
            lemma_normalize_lookup(raw.drop_last(), x);
            assert(n.drop_last() =~= spec_normalize(raw.drop_last()));
        }
    }
}

impl NormalizedRecord {
    /// The value of field `key`, under last-wins lookup, if the record
    /// has such a field.
    pub fn get<'a>(&'a self, key: &String) -> (r: Option<&'a String>)
        ensures
            match r {
                Some(v) => spec_lookup(self@, key@) == Some(v@),
                None => spec_lookup(self@, key@) is None,
            },
    {
        let mut k: usize = self.fields.len();
        proof {
            assert(self@.take(k as int) =~= self@);
        }
        while k > 0
            invariant
                k <= self.fields.len(),
                spec_lookup(self@, key@) == spec_lookup(self@.take(k as int), key@),
            decreases k,
        {
            k -= 1;
            if self.fields[k].0 == *key {
                proof {
                    assert(self@.take(k as int + 1).last() == self@[k as int]);
                    assert(spec_lookup(self@.take(k as int + 1), key@) == Some(self@[k as int].1));
                }
                return Some(&self.fields[k].1);
            }
            proof {
                assert(self@.take(k as int + 1).drop_last() =~= self@.take(k as int));
            }
        }
        proof {
            assert(self@.take(0) =~= Seq::<(Seq<char>, Seq<char>)>::empty());
        }
        None
    }
}

} // verus!
