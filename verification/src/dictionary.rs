//! A builder of dictionary-encoded text columns.

use vstd::prelude::*;
use crate::column::{Column, ColumnView, keys_view, strings_view};
use crate::model::key_capacity;
use crate::number::Native;
use crate::seqs::{
    dictionary_keys, distinct, key_of, lemma_distinct_contains, lemma_distinct_no_duplicates,
    lemma_key_of, lemma_key_stable,
};

verus! {

impl Native {
    /// The number of distinct texts that keys of this type can number.
    pub fn key_capacity(self) -> (c: u128)
        ensures
            c == key_capacity(self),
    {
        match self {
            Native::I8 => 0x80,
            Native::I16 => 0x8000,
            Native::I32 => 0x8000_0000,
            Native::I64 => 0x8000_0000_0000_0000,
            Native::U8 => 0x100,
            Native::U16 => 0x1_0000,
            Native::U32 => 0x1_0000_0000,
            Native::U64 => 0x1_0000_0000_0000_0000,
        }
    }
}

/// Builds a dictionary-encoded column of texts, one cell at a time.
///
/// The builder keeps the distinct texts in a vector of its own. It holds
/// texts of any length in any number, fails on nothing but the capacity of
/// its keys, and is as it was after an append that failed.
pub struct StringDictionaryBuilder {
    keys: Vec<Option<u64>>,
    values: Vec<String>,
    capacity: u128,
    texts: Ghost<Seq<Option<Seq<char>>>>,
}

impl StringDictionaryBuilder {
    /// The cells appended so far.
    pub closed spec fn texts(&self) -> Seq<Option<Seq<char>>> {
        self.texts@
    }

    /// The number of distinct texts that the keys can number.
    pub closed spec fn capacity(&self) -> int {
        self.capacity as int
    }

    /// Whether the builder holds the encoding of the cells appended so far.
    pub closed spec fn well_formed(&self) -> bool {
        &&& strings_view(self.values@) == distinct(self.texts@)
        &&& keys_view(self.keys@) == dictionary_keys(self.texts@)
        &&& self.values@.len() <= self.capacity
    }

    /// A well-formed builder holds no more distinct texts than its keys can
    /// number.
    pub proof fn lemma_within_capacity(&self)
        requires
            self.well_formed(),
        ensures
            distinct(self.texts()).len() <= self.capacity(),
    {
        assert(strings_view(self.values@).len() == distinct(self.texts@).len());
    }

    /// A builder without cells, for keys of the given integer type.
    pub fn new(native: Native) -> (r: StringDictionaryBuilder)
        ensures
            r.well_formed(),
            r.texts() == Seq::<Option<Seq<char>>>::empty(),
            r.capacity() == key_capacity(native),
    {
        let r = StringDictionaryBuilder {
            keys: Vec::new(),
            values: Vec::new(),
            capacity: native.key_capacity(),
            texts: Ghost(Seq::empty()),
        };
        assert(strings_view(r.values@) =~= distinct(r.texts@));
        assert(keys_view(r.keys@) =~= dictionary_keys(r.texts@));
        r
    }

    /// The position of a text among the distinct texts, if it is one of them.
    fn find(&self, text: &String) -> (r: Option<usize>)
        ensures
            match r {
                Some(k) => k < self.values@.len() && self.values@[k as int]@ == text@,
                None => !strings_view(self.values@).contains(text@),
            },
    {
        let mut i: usize = 0;
        while i < self.values.len()
            invariant
                i <= self.values.len(),
                forall|j: int| 0 <= j < i ==> (#[trigger] self.values@[j])@ != text@,
            decreases self.values.len() - i,
        {
            if self.values[i] == *text {
                return Some(i);
            }
            i = i + 1;
        }
        assert forall|j: int| 0 <= j < strings_view(self.values@).len() implies strings_view(
            self.values@,
        )[j] != text@ by {
            assert(self.values@[j]@ != text@);
        }
        None
    }

    /// Appends a text. Fails, and leaves the builder as it was, where the
    /// text is a new one and the keys cannot number one more.
    pub fn append(&mut self, text: String) -> (r: Result<u64, ()>)
        requires
            old(self).well_formed(),
        ensures
            final(self).well_formed(),
            final(self).capacity() == old(self).capacity(),
            match r {
                Ok(key) => {
                    &&& final(self).texts() == old(self).texts().push(Some(text@))
                    &&& key == key_of(distinct(final(self).texts()), text@)
                },
                Err(_) => {
                    &&& final(self).texts() == old(self).texts()
                    &&& distinct(old(self).texts().push(Some(text@))).len() > old(self).capacity()
                },
            },
    {
        let ghost before = self.texts@;
        let ghost after = before.push(Some(text@));
        proof {
            assert(after.drop_last() == before);
            lemma_distinct_no_duplicates(after);
            assert(keys_view(self.keys@).len() == dictionary_keys(before).len());
        }
        match self.find(&text) {
            Some(k) => {
                self.keys.push(Some(k as u64));
                self.texts = Ghost(after);
                proof {
                    assert(strings_view(self.values@)[k as int] == text@);
                    assert(distinct(before).contains(text@));
                    assert(distinct(after) == distinct(before));
                    lemma_key_of(distinct(after), k as int);
                    assert forall|i: int| 0 <= i < after.len() implies keys_view(self.keys@)[i]
                        == dictionary_keys(after)[i] by {
                        if i < before.len() {
                            assert(keys_view(old(self).keys@)[i] == dictionary_keys(before)[i]);
                        }
                    }
                    assert(keys_view(self.keys@) =~= dictionary_keys(after));
                }
                Ok(k as u64)
            },
            None => {
                let k: usize = self.values.len();
                if k as u128 >= self.capacity {
                    proof {
                        assert(distinct(after) == distinct(before).push(text@));
                    }
                    Err(())
                } else {
                    self.values.push(text);
                    self.keys.push(Some(k as u64));
                    self.texts = Ghost(after);
                    proof {
                        assert(distinct(after) == distinct(before).push(text@));
                        assert(strings_view(self.values@) =~= distinct(after));
                        lemma_key_of(distinct(after), k as int);
                        assert forall|i: int| 0 <= i < after.len() implies keys_view(
                            self.keys@,
                        )[i] == dictionary_keys(after)[i] by {
                            if i < before.len() {
                                assert(keys_view(old(self).keys@)[i] == dictionary_keys(before)[i]);
                                if before[i] is Some {
                                    assert(after.take(before.len() as int) == before);
                                    lemma_distinct_contains(before, i);
                                    lemma_key_stable(after, before.len() as int, before[i]->Some_0);
                                }
                            }
                        }
                        assert(keys_view(self.keys@) =~= dictionary_keys(after));
                    }
                    Ok(k as u64)
                }
            },
        }
    }

    /// The number of cells appended so far.
    pub fn len(&self) -> (n: usize)
        requires
            self.well_formed(),
        ensures
            n == self.texts().len(),
    {
        assert(keys_view(self.keys@).len() == dictionary_keys(self.texts@).len());
        self.keys.len()
    }

    /// Appends a null cell.
    pub fn append_null(&mut self)
        requires
            old(self).well_formed(),
        ensures
            final(self).well_formed(),
            final(self).capacity() == old(self).capacity(),
            final(self).texts() == old(self).texts().push(None),
    {
        let ghost before = self.texts@;
        let ghost after = before.push(None);
        assert(keys_view(self.keys@).len() == dictionary_keys(before).len());
        self.keys.push(None);
        self.texts = Ghost(after);
        proof {
            assert(after.drop_last() == before);
            assert(distinct(after) == distinct(before));
            assert forall|i: int| 0 <= i < after.len() implies keys_view(self.keys@)[i]
                == dictionary_keys(after)[i] by {
                if i < before.len() {
                    assert(keys_view(old(self).keys@)[i] == dictionary_keys(before)[i]);
                }
            }
            assert(keys_view(self.keys@) =~= dictionary_keys(after));
        }
    }

    /// The column of the cells appended so far.
    pub fn finish(self) -> (r: Column)
        requires
            self.well_formed(),
        ensures
            r@ == (ColumnView::Dictionary {
                keys: dictionary_keys(self.texts()),
                values: distinct(self.texts()),
            }),
    {
        Column::Dictionary { keys: self.keys, values: self.values }
    }
}

} // verus!
