//! TXT record semantics (RFC 6763, section 6.4).
//!
//! A TXT record carries a list of length-prefixed byte strings. Each one is
//! split at its first `=` byte into a key and a value; keys compare
//! case-insensitively, and when one TXT record repeats a key, every occurrence
//! after the first is silently dropped.

use vstd::prelude::*;

verus! {

/// The value bound to a present TXT attribute.
///
/// `Absent` means the attribute has no `=` at all (e.g. `passreq`); `Empty`
/// means an `=` followed by nothing (e.g. `PlugIns=`); `Value` carries the
/// raw bytes after the `=`, which need not be UTF-8.
#[derive(Clone, Debug, PartialEq, Eq)]
pub enum TxtRecordValue {
    Absent,
    Empty,
    Value(Vec<u8>),
}

/// The mathematical shape of a [`TxtRecordValue`].
pub ghost enum TxtValueView {
    Absent,
    Empty,
    Value(Seq<u8>),
}

impl View for TxtRecordValue {
    type V = TxtValueView;

    open spec fn view(&self) -> TxtValueView {
        match self {
            TxtRecordValue::Absent => TxtValueView::Absent,
            TxtRecordValue::Empty => TxtValueView::Empty,
            TxtRecordValue::Value(b) => TxtValueView::Value(b@),
        }
    }
}

/// A TXT attribute key. The wire bytes are kept verbatim (decoded as text);
/// comparison folds ASCII case, as the RFC mandates.
#[derive(Clone, Debug, PartialEq, Eq)]
pub struct TxtRecordKey(pub String);

impl View for TxtRecordKey {
    type V = Seq<char>;

    open spec fn view(&self) -> Seq<char> {
        self.0@
    }
}

/// One decoded key/value pair of a TXT record.
#[derive(Clone, Debug, PartialEq, Eq)]
pub struct TxtEntry {
    pub key: TxtRecordKey,
    pub value: TxtRecordValue,
}

/// The mathematical shape of a [`TxtEntry`].
#[verifier::ext_equal]
pub ghost struct TxtPairView {
    pub key: Seq<char>,
    pub value: TxtValueView,
}

impl View for TxtEntry {
    type V = TxtPairView;

    open spec fn view(&self) -> TxtPairView {
        TxtPairView { key: self.key@, value: self.value@ }
    }
}

// ---------------------------------------------------------------------------
// ASCII case folding
// ---------------------------------------------------------------------------

/// Folds one ASCII upper-case letter to lower case; leaves any other
/// character unchanged.
pub open spec fn lower_char(c: char) -> char {
    if 65 <= c as u32 && c as u32 <= 90 {
        (((c as u32) + 32) as u8) as char
    } else {
        c
    }
}

/// Folds every ASCII upper-case letter of a character sequence to lower case.
pub open spec fn lower_chars(s: Seq<char>) -> Seq<char> {
    s.map_values(|c: char| lower_char(c))
}

fn ascii_lower_char(c: char) -> (r: char)
    ensures
        r == lower_char(c),
{
    let u = c as u32;
    if 65 <= u && u <= 90 {
        ((u + 32) as u8) as char
    } else {
        c
    }
}

/// Compares two strings for equality under ASCII case folding.
pub fn eq_ignore_ascii_case(a: &str, b: &str) -> (r: bool)
    ensures
        r == (lower_chars(a@) == lower_chars(b@)),
{
    let a_len = a.unicode_len();
    let b_len = b.unicode_len();
    if a_len != b_len {
        proof {
            assert(lower_chars(a@).len() != lower_chars(b@).len());
        }
        return false;
    }
    let mut i: usize = 0;
    while i < a_len
        invariant
            i <= a_len,
            a_len == a@.len(),
            a_len == b@.len(),
            forall|j: int| 0 <= j < i ==> lower_char(a@[j]) == lower_char(b@[j]),
        decreases a_len - i,
    {
        let ca = a.get_char(i);
        let cb = b.get_char(i);
        if ascii_lower_char(ca) != ascii_lower_char(cb) {
            proof {
                assert(lower_chars(a@)[i as int] != lower_chars(b@)[i as int]);
            }
            return false;
        }
        i += 1;
    }
    proof {
        assert(lower_chars(a@) =~= lower_chars(b@));
    }
    true
}

impl TxtRecordKey {
    /// Whether two keys denote the same attribute: RFC 6763 ignores ASCII
    /// case when interpreting keys, so `papersize`, `PAPERSIZE` and
    /// `Papersize` are all the same key.
    pub fn equals_ignore_case(&self, other: &TxtRecordKey) -> (r: bool)
        ensures
            r == (lower_chars(self@) == lower_chars(other@)),
    {
        eq_ignore_ascii_case(self.0.as_str(), other.0.as_str())
    }
}

// ---------------------------------------------------------------------------
// Text decoding of raw key bytes
// ---------------------------------------------------------------------------

/// The text that decoding a raw byte string yields. Decoding is a pure
/// function of the bytes; on valid UTF-8 it is exactly the UTF-8 decoding.
pub uninterp spec fn lossy_of(bytes: Seq<u8>) -> Seq<char>;

/// Relies on `String::from_utf8_lossy`: the result depends on the bytes
/// alone, and on valid UTF-8 input it is the UTF-8 decoding of the bytes.
#[verifier::external_body]
pub(crate) fn utf8_lossy(bytes: &Vec<u8>) -> (r: String)
    ensures
        r@ == lossy_of(bytes@),
        vstd::utf8::valid_utf8(bytes@) ==> r@ == vstd::utf8::decode_utf8(bytes@),
{
    String::from_utf8_lossy(bytes).into_owned()
}

// ---------------------------------------------------------------------------
// Splitting one TXT entry at its first `=` byte
// ---------------------------------------------------------------------------

/// The position of the first `=` byte (value 61) of `e`, if any.
pub open spec fn find_eq(e: Seq<u8>) -> Option<int>
    decreases e.len(),
{
    if e.len() == 0 {
        None
    } else if e[0] == 61 {
        Some(0int)
    } else {
        match find_eq(e.drop_first()) {
            Some(i) => Some(i + 1),
            None => None,
        }
    }
}

proof fn lemma_find_eq_at(e: Seq<u8>, i: int)
    requires
        0 <= i < e.len(),
        e[i] == 61,
        forall|j: int| 0 <= j < i ==> e[j] != 61,
    ensures
        find_eq(e) == Some(i),
    decreases i,
{
    if i > 0 {
        lemma_find_eq_at(e.drop_first(), i - 1);
    }
}

proof fn lemma_find_eq_none(e: Seq<u8>)
    requires
        forall|j: int| 0 <= j < e.len() ==> e[j] != 61,
    ensures
        find_eq(e) is None,
    decreases e.len(),
{
    if e.len() > 0 {
        assert(forall|j: int| 0 <= j < e.drop_first().len() ==> e.drop_first()[j] == e[j + 1]);
        lemma_find_eq_none(e.drop_first());
    }
}

/// Splits one raw TXT entry into its raw key bytes and its value: no `=`
/// yields `Absent`, an `=` followed by nothing yields `Empty`, and anything
/// after the `=` is carried verbatim as `Value`.
pub open spec fn split_entry(e: Seq<u8>) -> (Seq<u8>, TxtValueView) {
    match find_eq(e) {
        Some(i) => {
            let val = e.subrange(i + 1, e.len() as int);
            if val.len() == 0 {
                (e.subrange(0, i), TxtValueView::Empty)
            } else {
                (e.subrange(0, i), TxtValueView::Value(val))
            }
        },
        None => (e, TxtValueView::Absent),
    }
}

/// Splits one raw TXT entry at its first `=` byte.
pub fn split_txt_entry(e: &Vec<u8>) -> (r: (Vec<u8>, TxtRecordValue))
    ensures
        r.0@ == split_entry(e@).0,
        r.1@ == split_entry(e@).1,
{
    let n = e.len();
    let mut i: usize = 0;
    while i < n
        invariant
            i <= n,
            n == e@.len(),
            forall|j: int| 0 <= j < i ==> e@[j] != 61,
        decreases n - i,
    {
        if e[i] == 61 {
            proof {
                lemma_find_eq_at(e@, i as int);
            }
            let key = vstd::slice::slice_to_vec(vstd::slice::slice_subrange(e.as_slice(), 0, i));
            let val = vstd::slice::slice_to_vec(
                vstd::slice::slice_subrange(e.as_slice(), i + 1, n),
            );
            if val.len() == 0 {
                return (key, TxtRecordValue::Empty);
            } else {
                return (key, TxtRecordValue::Value(val));
            }
        }
        i += 1;
    }
    proof {
        lemma_find_eq_none(e@);
    }
    let key = vstd::slice::slice_to_vec(e.as_slice());
    (key, TxtRecordValue::Absent)
}

// ---------------------------------------------------------------------------
// Decoding a whole TXT record, first occurrence of a key winning
// ---------------------------------------------------------------------------

/// Whether some pair's key folds to `fk`.
pub open spec fn has_folded_key(pairs: Seq<TxtPairView>, fk: Seq<char>) -> bool {
    exists|i: int| 0 <= i < pairs.len() && lower_chars(pairs[i].key) == fk
}

/// Extends a decoded mapping by one raw entry: the entry is dropped when its
/// folded key is already bound, and appended otherwise.
pub open spec fn txt_step(acc: Seq<TxtPairView>, e: Seq<u8>) -> Seq<TxtPairView> {
    let kv = split_entry(e);
    let key = lossy_of(kv.0);
    if has_folded_key(acc, lower_chars(key)) {
        acc
    } else {
        acc.push(TxtPairView { key: key, value: kv.1 })
    }
}

/// The mapping decoded from the raw entries of one TXT record, processed in
/// wire order with the first occurrence of each (case-folded) key winning.
pub open spec fn txt_pairs_of(entries: Seq<Seq<u8>>) -> Seq<TxtPairView>
    decreases entries.len(),
{
    if entries.len() == 0 {
        Seq::empty()
    } else {
        txt_step(txt_pairs_of(entries.drop_last()), entries.last())
    }
}

/// No two pairs share a key once ASCII case is folded.
pub open spec fn folded_keys_distinct(pairs: Seq<TxtPairView>) -> bool {
    forall|i: int, j: int|
        0 <= i < j < pairs.len() ==> lower_chars(pairs[i].key) != lower_chars(pairs[j].key)
}

/// Law: a decoded TXT mapping never binds the same case-folded key twice —
/// deduplication drops every occurrence after the first.
pub proof fn lemma_txt_pairs_distinct(entries: Seq<Seq<u8>>)
    ensures
        folded_keys_distinct(txt_pairs_of(entries)),
    decreases entries.len(),
{
    if entries.len() > 0 {
        lemma_txt_pairs_distinct(entries.drop_last());
    }
}

/// Decodes the raw entries of one TXT record into its key/value mapping.
pub fn decode_txt(entries: &Vec<Vec<u8>>) -> (r: Vec<TxtEntry>)
    ensures
        r@.map_values(|e: TxtEntry| e@) == txt_pairs_of(entries.deep_view()),
        folded_keys_distinct(r@.map_values(|e: TxtEntry| e@)),
{
    let ghost dv = entries.deep_view();
    let mut out: Vec<TxtEntry> = Vec::new();
    let mut idx: usize = 0;
    while idx < entries.len()
        invariant
            idx <= entries.len(),
            dv == entries.deep_view(),
            dv.len() == entries@.len(),
            forall|k: int| 0 <= k < dv.len() ==> dv[k] == entries@[k]@,
            out@.map_values(|e: TxtEntry| e@) == txt_pairs_of(dv.take(idx as int)),
        decreases entries.len() - idx,
    {
        let (key_bytes, value) = split_txt_entry(&entries[idx]);
        let key_string = utf8_lossy(&key_bytes);
        let ghost pairs = out@.map_values(|e: TxtEntry| e@);
        let mut dup = false;
        let mut j: usize = 0;
        while j < out.len()
            invariant
                j <= out.len(),
                pairs == out@.map_values(|e: TxtEntry| e@),
                pairs.len() == out@.len(),
                forall|k: int| 0 <= k < pairs.len() ==> pairs[k] == out@[k]@,
                dup <==> exists|k: int|
                    0 <= k < j && lower_chars(pairs[k].key) == lower_chars(key_string@),
            decreases out.len() - j,
        {
            let hit = eq_ignore_ascii_case(out[j].key.0.as_str(), key_string.as_str());
            proof {
                assert(pairs[j as int] == out@[j as int]@);
                assert(hit == (lower_chars(pairs[j as int].key) == lower_chars(key_string@)));
            }
            if hit {
                dup = true;
            }
            j += 1;
        }
        proof {
            assert(dup == has_folded_key(pairs, lower_chars(key_string@)));
            assert(dv.take(idx as int + 1).drop_last() =~= dv.take(idx as int));
            assert(dv.take(idx as int + 1).last() == dv[idx as int]);
        }
        if !dup {
            out.push(TxtEntry { key: TxtRecordKey(key_string), value });
        }
        proof {
            assert(out@.map_values(|e: TxtEntry| e@) =~= txt_pairs_of(dv.take(idx as int + 1)));
        }
        idx += 1;
    }
    proof {
        assert(dv.take(dv.len() as int) =~= dv);
        lemma_txt_pairs_distinct(dv);
    }
    out
}

// ---------------------------------------------------------------------------
// Case-insensitive lookup
// ---------------------------------------------------------------------------

/// The value bound to the first pair whose folded key equals `fk`.
pub open spec fn lookup_folded(pairs: Seq<TxtPairView>, fk: Seq<char>) -> Option<TxtValueView>
    decreases pairs.len(),
{
    if pairs.len() == 0 {
        None
    } else if lower_chars(pairs[0].key) == fk {
        Some(pairs[0].value)
    } else {
        lookup_folded(pairs.drop_first(), fk)
    }
}

proof fn lemma_lookup_folded_at(pairs: Seq<TxtPairView>, fk: Seq<char>, i: int)
    requires
        0 <= i < pairs.len(),
        lower_chars(pairs[i].key) == fk,
        forall|j: int| 0 <= j < i ==> lower_chars(pairs[j].key) != fk,
    ensures
        lookup_folded(pairs, fk) == Some(pairs[i].value),
    decreases i,
{
    if i > 0 {
        lemma_lookup_folded_at(pairs.drop_first(), fk, i - 1);
    }
}

proof fn lemma_lookup_folded_none(pairs: Seq<TxtPairView>, fk: Seq<char>)
    requires
        forall|j: int| 0 <= j < pairs.len() ==> lower_chars(pairs[j].key) != fk,
    ensures
        lookup_folded(pairs, fk) is None,
    decreases pairs.len(),
{
    if pairs.len() > 0 {
        lemma_lookup_folded_none(pairs.drop_first(), fk);
    }
}

/// Looks `key` up in a decoded mapping, ignoring ASCII case, and returns the
/// value of the first pair whose key matches.
pub fn txt_lookup<'a>(entries: &'a Vec<TxtEntry>, key: &str) -> (r: Option<&'a TxtRecordValue>)
    ensures
        match r {
            Some(v) => lookup_folded(
                entries@.map_values(|e: TxtEntry| e@),
                lower_chars(key@),
            ) == Some(v@),
            None => lookup_folded(entries@.map_values(|e: TxtEntry| e@), lower_chars(key@))
                is None,
        },
{
    let ghost pairs = entries@.map_values(|e: TxtEntry| e@);
    let mut i: usize = 0;
    while i < entries.len()
        invariant
            i <= entries.len(),
            pairs == entries@.map_values(|e: TxtEntry| e@),
            pairs.len() == entries@.len(),
            forall|k: int| 0 <= k < pairs.len() ==> pairs[k] == entries@[k]@,
            forall|j: int| 0 <= j < i ==> lower_chars(pairs[j].key) != lower_chars(key@),
        decreases entries.len() - i,
    {
        if eq_ignore_ascii_case(entries[i].key.0.as_str(), key) {
            proof {
                lemma_lookup_folded_at(pairs, lower_chars(key@), i as int);
            }
            return Some(&entries[i].value);
        }
        i += 1;
    }
    proof {
        lemma_lookup_folded_none(pairs, lower_chars(key@));
    }
    None
}

} // verus!
