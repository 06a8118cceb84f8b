use vstd::prelude::*;

use std::collections::hash_map::DefaultHasher;
use std::hash::Hasher;
use vstd::std_specs::hash::DefaultHasherAdditionalSpecFns;
use vstd::utf8::encode_utf8;

use crate::error::Error;
use crate::rate::{SampleRate, HASH_MAX};

verus! {

/// The hash of a key: `DefaultHasher` over the key's UTF-8 bytes followed by
/// the end marker `0xff`, the bytes that std's `Hash` for `str` writes.
pub open spec fn key_hash(key: Seq<char>) -> u64 {
    DefaultHasher::spec_finish(seq![encode_utf8(key), seq![0xffu8]])
}

/// The hash of `value`; equal strings always hash alike.
pub fn calculate_hash(value: &str) -> (r: u64)
    ensures
        r == key_hash(value@),
{
    let mut hasher = DefaultHasher::new();
    hasher.write(value.as_bytes());
    let marker: [u8; 1] = [0xff];
    assert(marker@ =~= seq![0xffu8]);
    hasher.write(vstd::array::array_as_slice(&marker));
    assert(hasher@ =~= seq![encode_utf8(value@), seq![0xffu8]]);
    hasher.finish()
}

/// What `str::trim` leaves of a string.
pub uninterp spec fn trimmed(s: Seq<char>) -> Seq<char>;

/// Relies on `str::trim`: the result depends on the characters alone.
#[verifier::external_body]
fn trim(s: &str) -> (r: &str)
    ensures
        r@ == trimmed(s@),
{
    s.trim()
}

/// Header field `i` names the column `name`, both trimmed.
pub open spec fn names_column(header: Seq<String>, name: Seq<char>, i: int) -> bool {
    trimmed(header[i]@) == trimmed(name)
}

/// Whether grouped sampling at `rate` keeps `row` when keyed on `column`:
/// the hash of the key, as a fraction of `HASH_MAX`, falls below the rate.
/// A row too short to hold the key is kept.
pub open spec fn row_included(rate: SampleRate, column: nat, row: Seq<String>) -> bool {
    column >= row.len() || rate.admits(key_hash(row[column as int]@) as nat, HASH_MAX as nat)
}

/// The rows that grouped sampling keeps, in input order.
pub open spec fn grouped_after(rate: SampleRate, column: nat, rows: Seq<Vec<String>>) -> Seq<
    Vec<String>,
>
    decreases rows.len(),
{
    if rows.len() == 0 {
        Seq::empty()
    } else {
        let prev = grouped_after(rate, column, rows.drop_last());
        if row_included(rate, column, rows.last()@) {
            prev.push(rows.last())
        } else {
            prev
        }
    }
}

/// Rows that share the key value get the same decision, for any sampler
/// built with the same rate and key column.
pub proof fn lemma_shared_key_shared_decision(
    rate: SampleRate,
    column: nat,
    first: Seq<String>,
    second: Seq<String>,
)
    requires
        column < first.len(),
        column < second.len(),
        first[column as int]@ == second[column as int]@,
    ensures
        row_included(rate, column, first) == row_included(rate, column, second),
{
}

/// What one step of grouped sampling does with what the row decoder gave.
#[derive(Debug)]
pub enum RowStep {
    /// The row is kept: emit it.
    Emit(Vec<String>),
    /// The row is dropped: read the next one.
    Skip,
    /// Decoding failed: report it; the stream is over.
    Fail(Error),
    /// The input is exhausted.
    Finished,
}

/// Grouped (key-consistent) percentage sampling of tabular rows: a row is
/// kept exactly when the hash of its value in the key column falls below
/// the rate, so rows sharing that value are kept or dropped together.
#[derive(Debug)]
pub struct CsvHashSampler {
    rate: SampleRate,
    column_index: usize,
    header: Vec<String>,
    done: bool,
}

impl CsvHashSampler {
    /// The probability with which each key value is kept.
    pub closed spec fn spec_rate(&self) -> SampleRate {
        self.rate
    }

    /// The position of the key column.
    pub closed spec fn column(&self) -> nat {
        self.column_index as nat
    }

    /// The header, as given.
    pub closed spec fn spec_header(&self) -> Seq<String> {
        self.header@
    }

    /// Whether the row stream has ended.
    pub closed spec fn finished(&self) -> bool {
        self.done
    }

    /// A sampler over rows described by `header`, keyed on the first column
    /// whose trimmed name is the trimmed `column_name`; fails with
    /// `ColumnNotFound(column_name)` when no header field names it.
    pub fn new(header: Vec<String>, rate: SampleRate, column_name: &str) -> (r: Result<
        CsvHashSampler,
        Error,
    >)
        ensures
            r is Ok <==> exists|i: int| 0 <= i < header@.len() && names_column(header@, column_name@, i),
            r matches Ok(s) ==> {
                &&& s.spec_rate() == rate
                &&& s.spec_header() == header@
                &&& !s.finished()
                &&& s.column() < header@.len()
                &&& names_column(header@, column_name@, s.column() as int)
                &&& forall|j: int| 0 <= j < s.column() ==> !names_column(header@, column_name@, j)
            },
            r matches Err(e) ==> e matches Error::ColumnNotFound(c) && c@ == column_name@,
    {
        let wanted = trim(column_name).to_owned();
        let mut i: usize = 0;
        while i < header.len()
            invariant
                i <= header@.len(),
                wanted@ == trimmed(column_name@),
                forall|j: int| 0 <= j < i ==> !names_column(header@, column_name@, j),
            decreases header@.len() - i,
        {
            let field = trim(header[i].as_str()).to_owned();
            if field == wanted {
                assert(names_column(header@, column_name@, i as int));
                return Ok(CsvHashSampler { rate, column_index: i, header, done: false });
            }
            i = i + 1;
        }
        Err(Error::ColumnNotFound(column_name.to_owned()))
    }

    /// The header, unchanged; it is never itself sampled.
    pub fn header(&self) -> (r: &Vec<String>)
        ensures
            r@ == self.spec_header(),
    {
        &self.header
    }

    /// The position of the key column.
    pub fn column_index(&self) -> (r: usize)
        ensures
            r == self.column(),
    {
        self.column_index
    }

    /// Whether the row stream has ended.
    pub fn is_done(&self) -> (r: bool)
        ensures
            r == self.finished(),
    {
        self.done
    }

    /// Whether `row` is kept.
    pub fn includes(&self, row: &Vec<String>) -> (r: bool)
        ensures
            r == row_included(self.spec_rate(), self.column(), row@),
    {
        if self.column_index < row.len() {
            let hash: u64 = calculate_hash(row[self.column_index].as_str());
            self.rate.admits_hash(hash)
        } else {
            true
        }
    }

    /// One step over the row stream, given what the decoder gave: a row
    /// (`Some(Ok(..))`), a decoding failure (`Some(Err(..))`) or the end of
    /// the input (`None`). A failure or the end finishes the stream, and a
    /// finished stream ignores what it is given.
    pub fn next_row(&mut self, read: Option<Result<Vec<String>, Error>>) -> (r: RowStep)
        ensures
            final(self).spec_rate() == old(self).spec_rate(),
            final(self).column() == old(self).column(),
            final(self).spec_header() == old(self).spec_header(),
            old(self).finished() ==> r is Finished && final(self).finished(),
            !old(self).finished() ==> match read {
                None => r is Finished && final(self).finished(),
                Some(Err(e)) => r == RowStep::Fail(e) && final(self).finished(),
                Some(Ok(row)) => !final(self).finished() && if row_included(
                    old(self).spec_rate(),
                    old(self).column(),
                    row@,
                ) {
                    r == RowStep::Emit(row)
                } else {
                    r is Skip
                },
            },
    {
        if self.done {
            return RowStep::Finished;
        }
        match read {
            None => {
                self.done = true;
                RowStep::Finished
            },
            Some(Err(e)) => {
                self.done = true;
                RowStep::Fail(e)
            },
            Some(Ok(row)) => {
                if self.includes(&row) {
                    RowStep::Emit(row)
                } else {
                    RowStep::Skip
                }
            },
        }
    }

    /// Runs the row stream over `rows` to its end and gathers what is kept:
    /// the rows that `includes` keeps, in order, or the first decoding
    /// failure.
    pub fn collect_all(self, rows: Vec<Result<Vec<String>, Error>>) -> (r: Result<
        Vec<Vec<String>>,
        Error,
    >)
        requires
            !self.finished(),
        ensures
            (forall|i: int| 0 <= i < rows@.len() ==> rows@[i] is Ok) ==> r is Ok && r.unwrap()@
                == grouped_after(self.spec_rate(), self.column(), rows@.map_values(|x: Result<Vec<String>, Error>| x.unwrap())),
            forall|i: int|
                0 <= i < rows@.len() && rows@[i] is Err && (forall|j: int| 0 <= j < i ==> rows@[j] is Ok)
                    ==> r == Err::<Vec<Vec<String>>, Error>(rows@[i]->Err_0),
    {
        let ghost all = rows@;
        let mut sampler = self;
        let mut kept: Vec<Vec<String>> = Vec::new();
        for item in it: rows
            invariant
                it.seq() == all,
                !sampler.finished(),
                sampler.spec_rate() == self.spec_rate(),
                sampler.column() == self.column(),
                forall|j: int| 0 <= j < it.index() ==> all[j] is Ok,
                kept@ == grouped_after(self.spec_rate(), self.column(), all.take(it.index() as int).map_values(|x: Result<Vec<String>, Error>| x.unwrap())),
        {
            let ghost done = all.take(it.index() as int).map_values(|x: Result<Vec<String>, Error>| x.unwrap());
            let ghost next = all.take(it.index() + 1).map_values(|x: Result<Vec<String>, Error>| x.unwrap());
            assert(next.drop_last() =~= done);
            match sampler.next_row(Some(item)) {
                RowStep::Emit(row) => kept.push(row),
                RowStep::Fail(e) => return Err(e),
                _ => {},
            }
        }
        assert(all.take(all.len() as int) =~= all);
        Ok(kept)
    }
}

} // verus!
