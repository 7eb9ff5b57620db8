//! The header map of the `http` crate (re-exported by `hyper` and
//! `reqwest`), held behind a model: the map from each header name's
//! lower-case bytes to the byte strings of its values, in order.
use vstd::prelude::*;
use vstd::set_lib::lemma_len_subset;
use vstd::utf8::encode_utf8;

use crate::http::header_accepted;

verus! {

#[verifier::external_type_specification]
#[verifier::external_body]
#[verifier::reject_recursive_types(T)]
pub struct ExHeaderMap<T>(hyper::HeaderMap<T>);

#[verifier::external_type_specification]
#[verifier::external_body]
pub struct ExHeaderValue(hyper::header::HeaderValue);

/// What a header map holds: for each name (its lower-case bytes), the
/// bytes of its values in the order they were added.
pub uninterp spec fn header_map_contents(m: hyper::HeaderMap) -> Map<Seq<u8>, Seq<Seq<u8>>>;

/// How many distinct names a map may hold before an insertion: below this
/// the map never needs to grow past its largest table.
pub const HEADER_KEY_LIMIT: usize = 6554;

/// The lower-case form of an ASCII letter; other bytes stay as they are.
pub open spec fn ascii_lower(b: u8) -> u8 {
    if 65 <= b <= 90 {
        (b + 32) as u8
    } else {
        b
    }
}

/// The key a header name is stored under: its UTF-8 bytes in lower case.
pub open spec fn header_key(name: Seq<char>) -> Seq<u8> {
    encode_utf8(name).map_values(|b: u8| ascii_lower(b))
}

/// The map that inserting the pairs one after another makes, starting
/// from an empty map: pairs that are not valid are skipped, and a later
/// value for a name replaces the earlier one.
pub open spec fn header_map_of(pairs: Seq<(Seq<char>, Seq<char>)>) -> Map<Seq<u8>, Seq<Seq<u8>>>
    decreases pairs.len(),
{
    if pairs.len() == 0 {
        Map::empty()
    } else {
        let m = header_map_of(pairs.drop_last());
        let p = pairs.last();
        if header_accepted(p) {
            m.insert(header_key(p.0), seq![encode_utf8(p.1)])
        } else {
            m
        }
    }
}

/// The names of the map made from a prefix of the pairs are names of the
/// map made from all of them, and both sets are finite.
pub proof fn lemma_header_map_prefix(pairs: Seq<(Seq<char>, Seq<char>)>, i: int)
    requires
        0 <= i <= pairs.len(),
    ensures
        header_map_of(pairs.take(i)).dom().finite(),
        header_map_of(pairs).dom().finite(),
        header_map_of(pairs.take(i)).dom().subset_of(header_map_of(pairs).dom()),
        header_map_of(pairs.take(i)).dom().len() <= header_map_of(pairs).dom().len(),
    decreases pairs.len(),
{
    if i == pairs.len() {
        assert(pairs.take(i) =~= pairs);
        if pairs.len() > 0 {
            lemma_header_map_prefix(pairs.drop_last(), 0);
        }
    } else {
        let rest = pairs.drop_last();
        lemma_header_map_prefix(rest, i);
        assert(rest.take(i) =~= pairs.take(i));
    }
    lemma_len_subset(header_map_of(pairs.take(i)).dom(), header_map_of(pairs).dom());
}

/// `HeaderMap::new`: a map with no names.
#[verifier::external_body]
pub(crate) fn header_map_new() -> (map: hyper::HeaderMap)
    ensures
        header_map_contents(map).dom() == Set::<Seq<u8>>::empty(),
{
    hyper::HeaderMap::new()
}

/// `HeaderMap::keys_len`: the number of distinct names in the map.
#[verifier::external_body]
pub(crate) fn header_map_keys_len(m: &hyper::HeaderMap) -> (n: usize)
    ensures
        n == header_map_contents(*m).dom().len(),
{
    m.keys_len()
}

/// `HeaderMap::insert` of a name and a value made from text that
/// `HeaderName::from_bytes` and `HeaderValue::from_str` accept: the name is
/// stored in lower case, and its values are replaced by the one value.
/// `insert` panics only when the table would grow past its largest size,
/// which below `HEADER_KEY_LIMIT` names it never does.
#[verifier::external_body]
pub(crate) fn header_map_insert(m: &mut hyper::HeaderMap, k: &str, v: &str)
    requires
        header_accepted((k@, v@)),
        header_map_contents(*old(m)).dom().len() < HEADER_KEY_LIMIT,
    ensures
        header_map_contents(*final(m)) == header_map_contents(*old(m)).insert(
            header_key(k@),
            seq![encode_utf8(v@)],
        ),
{
    let name = hyper::header::HeaderName::from_bytes(k.as_bytes());
    let value = hyper::header::HeaderValue::from_str(v);
    if let (Ok(name), Ok(value)) = (name, value) {
        m.insert(name, value);
    }
}

} // verus!
