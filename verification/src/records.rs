//! Domain records and the configuration that turns their textual attributes
//! into bounded integer coordinates, together with the additive string hash.
use vstd::prelude::*;
use vstd::string::StrSliceExecFns;

verus! {

/// A bibliographic record whose hashed attributes become point coordinates.
/// The geometry never reads it: it rides along as an opaque payload.
#[derive(Debug)]
pub struct Data {
    pub authors_name: String,
    pub title: String,
    pub gap_of_years: Vec<i32>,
    pub year_of_release: i32,
    pub dblp_record: String,
    pub awards: i32,
    pub kind: String,
    pub co_author: Vec<String>,
    pub surname: String,
}

/// Two records hold the same content: every field equal, vectors compared
/// by their contents.
pub open spec fn data_eq(a: Data, b: Data) -> bool {
    &&& a.authors_name == b.authors_name
    &&& a.title == b.title
    &&& a.gap_of_years@ == b.gap_of_years@
    &&& a.year_of_release == b.year_of_release
    &&& a.dblp_record == b.dblp_record
    &&& a.awards == b.awards
    &&& a.kind == b.kind
    &&& a.co_author@ == b.co_author@
    &&& a.surname == b.surname
}

impl Clone for Data {
    /// The clone carries the whole record: traceability is never lost on a
    /// copy.
    fn clone(&self) -> (d: Data)
        ensures
            data_eq(*self, d),
    {
        let d = Data {
            authors_name: self.authors_name.clone(),
            title: self.title.clone(),
            gap_of_years: self.gap_of_years.clone(),
            year_of_release: self.year_of_release,
            dblp_record: self.dblp_record.clone(),
            awards: self.awards,
            kind: self.kind.clone(),
            co_author: self.co_author.clone(),
            surname: self.surname.clone(),
        };
        proof {
            assert(d.gap_of_years@ =~= self.gap_of_years@);
            assert(d.co_author@ =~= self.co_author@);
        }
        d
    }
}

/// Hash-table lengths for the two hashed attributes, passed in explicitly by
/// whoever loaded them rather than held in process-wide state.
#[allow(non_snake_case)]
#[derive(Clone, Copy, Debug)]
pub struct Env {
    DBLP_RECORDS_LENGTH: usize,
    SURNAMES_LENGTH: usize,
}

#[allow(non_snake_case)]
impl Env {
    pub closed spec fn spec_dblp_records_length(&self) -> usize {
        self.DBLP_RECORDS_LENGTH
    }

    pub closed spec fn spec_surnames_length(&self) -> usize {
        self.SURNAMES_LENGTH
    }

    pub fn new(dblp_records_length: usize, surnames_length: usize) -> (e: Env)
        ensures
            e.spec_dblp_records_length() == dblp_records_length,
            e.spec_surnames_length() == surnames_length,
    {
        Env { DBLP_RECORDS_LENGTH: dblp_records_length, SURNAMES_LENGTH: surnames_length }
    }

    pub fn get_DBLP_RECORDS_LENGTH(&self) -> (n: usize)
        ensures
            n == self.spec_dblp_records_length(),
    {
        self.DBLP_RECORDS_LENGTH
    }

    pub fn get_SURNAMES_LENGTH(&self) -> (n: usize)
        ensures
            n == self.spec_surnames_length(),
    {
        self.SURNAMES_LENGTH
    }
}

/// The code point of a character, as a mathematical integer.
pub open spec fn char_val(c: char) -> int {
    (c as u32) as int
}

/// Sum of the code points of a character sequence.
pub open spec fn char_sum(s: Seq<char>) -> int
    decreases s.len(),
{
    if s.len() == 0 {
        0
    } else {
        char_sum(s.drop_last()) + char_val(s.last())
    }
}

/// Every prefix of a character sequence has a sum no larger than the whole:
/// code points are never negative.
pub proof fn lemma_char_sum_prefix(s: Seq<char>, i: int)
    requires
        0 <= i <= s.len(),
    ensures
        0 <= char_sum(s.subrange(0, i)) <= char_sum(s),
    decreases s.len() - i,
{
    if i == s.len() {
        assert(s.subrange(0, i) =~= s);
        lemma_char_sum_nonneg(s);
    } else {
        lemma_char_sum_prefix(s, i + 1);
        lemma_char_sum_nonneg(s.subrange(0, i));
        let t = s.subrange(0, i + 1);
        assert(t.drop_last() =~= s.subrange(0, i));
        assert(char_val(s[i]) >= 0);
        assert(char_sum(t) == char_sum(s.subrange(0, i)) + char_val(s[i]));
    }
}

proof fn lemma_char_sum_nonneg(s: Seq<char>)
    ensures
        char_sum(s) >= 0,
    decreases s.len(),
{
    if s.len() > 0 {
        lemma_char_sum_nonneg(s.drop_last());
        assert(char_val(s.last()) >= 0);
    }
}

/// Additive string hash: the sum of the code points, reduced modulo the
/// table length `m`.
pub fn hash(s: &str, m: usize) -> (h: usize)
    requires
        m > 0,
        char_sum(s@) <= usize::MAX,
    ensures
        h == char_sum(s@) % (m as int),
{
    let n = s.unicode_len();
    let mut acc: usize = 0;
    let mut i: usize = 0;
    while i < n
        invariant
            0 <= i <= n,
            n == s@.len(),
            char_sum(s@) <= usize::MAX,
            acc == char_sum(s@.subrange(0, i as int)),
        decreases n - i,
    {
        let c = s.get_char(i);
        proof {
            lemma_char_sum_prefix(s@, i + 1);
            assert(s@.subrange(0, i + 1).drop_last() =~= s@.subrange(0, i as int));
            assert(s@.subrange(0, i + 1).last() == s@[i as int]);
            assert(c as usize == char_val(c));
        }
        acc = acc + c as usize;
        i = i + 1;
    }
    proof {
        assert(s@.subrange(0, n as int) =~= s@);
    }
    acc % m
}

} // verus!
