//! Integer codes for the values of a categorical column.

use vstd::prelude::*;

verus! {

/// The distinct values of `values`, each kept where it first occurs.
pub open spec fn distinct_values(values: Seq<Seq<char>>) -> Seq<Seq<char>>
    decreases values.len(),
{
    if values.len() == 0 {
        Seq::empty()
    } else {
        let earlier = distinct_values(values.drop_last());
        if earlier.contains(values.last()) {
            earlier
        } else {
            earlier.push(values.last())
        }
    }
}

/// The codes that a vocabulary gives: each of its values has its position.
pub open spec fn codes_of(vocabulary: Seq<Seq<char>>) -> Map<Seq<char>, nat> {
    Map::new(
        |value: Seq<char>| vocabulary.contains(value),
        |value: Seq<char>| vocabulary.index_of(value) as nat,
    )
}

/// The codes of the distinct values of `values`, in the order in which they
/// first occur.
pub open spec fn encoding_of(values: Seq<Seq<char>>) -> Map<Seq<char>, nat> {
    codes_of(distinct_values(values))
}

/// The code that `codes` holds for `value`, if any.
pub open spec fn lookup(codes: Map<Seq<char>, nat>, value: Seq<char>) -> Option<u64> {
    if codes.dom().contains(value) {
        Some(codes[value] as u64)
    } else {
        None
    }
}

/// Some value has the code `code`.
pub open spec fn code_is_used(codes: Map<Seq<char>, nat>, code: nat) -> bool {
    exists|value: Seq<char>| codes.dom().contains(value) && #[trigger] codes[value] == code
}

/// `distinct_values` keeps every value of `values` once.
pub proof fn lemma_distinct_values(values: Seq<Seq<char>>)
    ensures
        distinct_values(values).no_duplicates(),
        distinct_values(values).len() <= values.len(),
        forall|value: Seq<char>|
            distinct_values(values).contains(value) <==> values.contains(value),
    decreases values.len(),
{
    let distinct = distinct_values(values);
    if values.len() > 0 {
        let earlier = distinct_values(values.drop_last());
        lemma_distinct_values(values.drop_last());
        assert forall|value: Seq<char>| distinct.contains(value) <==> values.contains(
            value,
        ) by {
            if values.contains(value) {
                let i = choose|i: int| 0 <= i < values.len() && values[i] == value;
                if i < values.len() - 1 {
                    assert(values.drop_last()[i] == value);
                    assert(values.drop_last().contains(value));
                    assert(earlier.contains(value));
                    let k = choose|k: int| 0 <= k < earlier.len() && earlier[k] == value;
                    assert(distinct[k] == value);
                } else if !earlier.contains(value) {
                    assert(distinct[earlier.len() as int] == value);
                } else {
                    let k = choose|k: int| 0 <= k < earlier.len() && earlier[k] == value;
                    assert(distinct[k] == value);
                }
            }
            if distinct.contains(value) {
                let k = choose|k: int| 0 <= k < distinct.len() && distinct[k] == value;
                if k < earlier.len() {
                    assert(earlier[k] == value);
                    assert(earlier.contains(value));
                    assert(values.drop_last().contains(value));
                    let i = choose|i: int|
                        0 <= i < values.drop_last().len() && values.drop_last()[i] == value;
                    assert(values[i] == value);
                } else {
                    assert(values[values.len() - 1] == value);
                }
            }
        }
    }
}

/// The position at which `value` first occurs in `values`.
pub open spec fn first_position(values: Seq<Seq<char>>, value: Seq<char>) -> int
    recommends
        values.contains(value),
{
    choose|p: int|
        0 <= p < values.len() && values[p] == value && forall|q: int|
            0 <= q < p ==> values[q] != value
}

/// A value that occurs in `values` has a first position there.
pub proof fn lemma_first_position(values: Seq<Seq<char>>, value: Seq<char>)
    requires
        values.contains(value),
    ensures
        0 <= first_position(values, value) < values.len(),
        values[first_position(values, value)] == value,
        forall|q: int| 0 <= q < first_position(values, value) ==> values[q] != value,
{
    values.index_of_first_ensures(value);
    let p = values.index_of_first(value).unwrap();
    assert(0 <= p < values.len() && values[p] == value && forall|q: int|
        0 <= q < p ==> values[q] != value);
}

/// `distinct_values` keeps the values in the order in which they first
/// occur: of two values, the one that occurs first gets the smaller code.
pub proof fn lemma_distinct_values_order(values: Seq<Seq<char>>, i: int, j: int)
    requires
        0 <= i < j < distinct_values(values).len(),
    ensures
        values.contains(distinct_values(values)[i]),
        values.contains(distinct_values(values)[j]),
        first_position(values, distinct_values(values)[i]) < first_position(
            values,
            distinct_values(values)[j],
        ),
    decreases values.len(),
{
    let distinct = distinct_values(values);
    lemma_distinct_values(values);
    assert(distinct.contains(distinct[i]));
    assert(distinct.contains(distinct[j]));
    lemma_first_position(values, distinct[i]);
    lemma_first_position(values, distinct[j]);
    let rest = values.drop_last();
    let earlier = distinct_values(rest);
    lemma_distinct_values(rest);
    let pi = first_position(values, distinct[i]);
    let pj = first_position(values, distinct[j]);
    assert(earlier.contains(distinct[i])) by {
        assert(earlier[i] == distinct[i]);
    }
    assert(rest.contains(distinct[i]));
    lemma_first_position(rest, distinct[i]);
    let ri = first_position(rest, distinct[i]);
    assert(pi == ri) by {
        assert(values[ri] == distinct[i]);
        if pi < ri {
            assert(rest[pi] == distinct[i]);
        }
    }
    if j < earlier.len() {
        lemma_distinct_values_order(rest, i, j);
        assert(earlier[j] == distinct[j]);
        lemma_first_position(rest, distinct[j]);
        let rj = first_position(rest, distinct[j]);
        assert(pj == rj) by {
            assert(values[rj] == distinct[j]);
            if pj < rj {
                assert(rest[pj] == distinct[j]);
            }
        }
    } else {
        assert(!earlier.contains(distinct[j]));
        assert(!rest.contains(distinct[j]));
        if pj < values.len() - 1 {
            assert(rest[pj] == distinct[j]);
            assert(rest.contains(distinct[j]));
        }
    }
}

/// The encoding of a column gives each of its distinct values one code, no
/// two values the same code, and uses every code below the number of
/// distinct values and no other.
pub proof fn lemma_encoding_is_bijection(values: Seq<Seq<char>>)
    ensures
        encoding_of(values).dom() == values.to_set(),
        forall|a: Seq<char>, b: Seq<char>|
            values.contains(a) && values.contains(b) && a != b ==> encoding_of(values)[a]
                != encoding_of(values)[b],
        forall|a: Seq<char>|
            values.contains(a) ==> #[trigger] encoding_of(values)[a] < values.to_set().len(),
        forall|code: nat|
            code < values.to_set().len() ==> #[trigger] code_is_used(encoding_of(values), code),
{
    let distinct = distinct_values(values);
    let codes = encoding_of(values);
    lemma_distinct_values(values);
    assert(codes.dom() =~= values.to_set());
    assert(distinct.to_set() =~= values.to_set());
    distinct.unique_seq_to_set();
    assert forall|code: nat| code < values.to_set().len() implies #[trigger] code_is_used(
        codes,
        code,
    ) by {
        let a = distinct[code as int];
        assert(distinct.contains(a));
        assert(codes[a] == code);
    }
}

/// The text of each string of `values`.
pub open spec fn texts(values: Seq<String>) -> Seq<Seq<char>> {
    values.map_values(|s: String| s@)
}

/// The codes of one categorical column: each distinct value has the code
/// that is its position in the vocabulary.
#[derive(Debug)]
pub struct EncodingMap {
    values: Vec<String>,
}

impl View for EncodingMap {
    type V = Map<Seq<char>, nat>;

    open spec fn view(&self) -> Map<Seq<char>, nat> {
        codes_of(self.vocabulary())
    }
}

impl EncodingMap {
    /// The distinct values, in the order of their codes.
    pub closed spec fn vocabulary(&self) -> Seq<Seq<char>> {
        texts(self.values@)
    }

    /// No value has two codes.
    #[verifier::type_invariant]
    spec fn well_formed(&self) -> bool {
        self.vocabulary().no_duplicates()
    }

    /// The code of `value`, if it has one.
    pub open spec fn code_of(&self, value: Seq<char>) -> Option<u64> {
        lookup(self@, value)
    }

    /// Returns a map without any code.
    pub fn new() -> (map: EncodingMap)
        ensures
            map.vocabulary() == Seq::<Seq<char>>::empty(),
    {
        let values: Vec<String> = Vec::new();
        assert(texts(values@) =~= Seq::<Seq<char>>::empty());
        EncodingMap { values }
    }

    /// Returns the number of codes, which are `0..len`.
    pub fn len(&self) -> (count: usize)
        ensures
            count == self.vocabulary().len(),
    {
        self.values.len()
    }

    /// Returns the code of `value`, or `None` for a value that has none.
    pub fn get(&self, value: &String) -> (code: Option<u64>)
        ensures
            code == self.code_of(value@),
    {
        proof {
            use_type_invariant(self);
        }
        let ghost vocabulary = self.vocabulary();
        let mut i: usize = 0;
        while i < self.values.len()
            invariant
                i <= self.values.len(),
                vocabulary == self.vocabulary(),
                vocabulary.no_duplicates(),
                forall|k: int| 0 <= k < i ==> vocabulary[k] != value@,
            decreases self.values.len() - i,
        {
            if self.values[i] == *value {
                assert(vocabulary[i as int] == value@);
                assert(vocabulary.contains(value@));
                return Some(i as u64);
            }
            i = i + 1;
        }
        assert(!vocabulary.contains(value@));
        None
    }

    /// Returns the value that has the code `code`, or `None` for a number
    /// that is no code.
    pub fn decode(&self, code: u64) -> (value: Option<&String>)
        ensures
            match value {
                Some(value) => code < self.vocabulary().len() && value@
                    == self.vocabulary()[code as int] && self.code_of(value@) == Some(code),
                None => code >= self.vocabulary().len(),
            },
    {
        proof {
            use_type_invariant(self);
        }
        if code < self.values.len() as u64 {
            let value = &self.values[code as usize];
            proof {
                let vocabulary = self.vocabulary();
                assert(vocabulary[code as int] == value@);
                assert(vocabulary.contains(value@));
            }
            Some(value)
        } else {
            None
        }
    }

    /// Gives `value` the next free code unless it has one, and returns its code.
    pub fn insert(&mut self, value: &String) -> (code: u64)
        ensures
            final(self).vocabulary().no_duplicates(),
            final(self).vocabulary() == if old(self).vocabulary().contains(value@) {
                old(self).vocabulary()
            } else {
                old(self).vocabulary().push(value@)
            },
            final(self).code_of(value@) == Some(code),
    {
        proof {
            use_type_invariant(&*self);
        }
        match self.get(value) {
            Some(code) => code,
            None => {
                let ghost before = self.vocabulary();
                let mut values: Vec<String> = Vec::new();
                assert(texts(values@) =~= Seq::<Seq<char>>::empty());
                core::mem::swap(&mut self.values, &mut values);
                let code = values.len() as u64;
                values.push(value.clone());
                proof {
                    let after = texts(values@);
                    assert(after =~= before.push(value@));
                    assert(after[code as int] == value@);
                    assert(after.contains(value@));
                }
                core::mem::swap(&mut self.values, &mut values);
                code
            },
        }
    }
}

/// Returns the codes of the distinct values of `values`: the first distinct
/// value has code 0, the next one code 1, and so on.
pub fn build_encoding(values: &[String]) -> (map: EncodingMap)
    ensures
        map.vocabulary() == distinct_values(texts(values@)),
        map@ == encoding_of(texts(values@)),
{
    let mut map = EncodingMap::new();
    let mut i: usize = 0;
    assert(texts(values@).take(0) =~= Seq::<Seq<char>>::empty());
    while i < values.len()
        invariant
            i <= values.len(),
            map.vocabulary() == distinct_values(texts(values@).take(i as int)),
        decreases values.len() - i,
    {
        map.insert(&values[i]);
        proof {
            let all = texts(values@);
            assert(all.take(i + 1).drop_last() =~= all.take(i as int));
            assert(all.take(i + 1).last() == values[i as int]@);
        }
        i = i + 1;
    }
    assert(texts(values@).take(i as int) =~= texts(values@));
    map
}

} // verus!
