//! The default headers of a batch: which names and values a client will
//! take, the check that finds the first pair it will not, and which pair
//! counts where a name is given more than once.
//!
//! Whether a name or a value is legal is decided by the `http` types that
//! `reqwest` hands through, `HeaderName` and `HeaderValue`; what they decide
//! is stated here over the bytes of the text. A name is a token: letters of
//! either case are legal in it, and two names that differ in the case of
//! their letters only are the same name.

use reqwest::header::{HeaderName, HeaderValue, InvalidHeaderName, InvalidHeaderValue};
use vstd::prelude::*;
use vstd::utf8::encode_utf8;

verus! {

/// A parsed header name of `http`. Nothing is read from it here.
#[verifier::external_type_specification]
#[verifier::external_body]
pub struct ExHeaderName(HeaderName);

/// A parsed header value of `http`. Nothing is read from it here.
#[verifier::external_type_specification]
#[verifier::external_body]
pub struct ExHeaderValue(HeaderValue);

/// The error of `http` for a name that is no header name.
#[verifier::external_type_specification]
#[verifier::external_body]
pub struct ExInvalidHeaderName(InvalidHeaderName);

/// The error of `http` for a value that is no header value.
#[verifier::external_type_specification]
#[verifier::external_body]
pub struct ExInvalidHeaderValue(InvalidHeaderValue);

/// The longest header name, in bytes.
pub const MAX_HEADER_NAME_LEN: usize = 65535;

/// The bytes that may stand in a header name: the digits, the letters of
/// either case, and ``! " # $ % & ' * + - . ^ _ ` | ~``.
pub open spec fn is_header_name_byte(b: u8) -> bool {
    ||| 0x21 <= b <= 0x27
    ||| b == 0x2a
    ||| b == 0x2b
    ||| b == 0x2d
    ||| b == 0x2e
    ||| 0x30 <= b <= 0x39
    ||| 0x41 <= b <= 0x5a
    ||| 0x5e <= b <= 0x7a
    ||| b == 0x7c
    ||| b == 0x7e
}

/// True when `bytes` is a header name: between one byte and
/// `MAX_HEADER_NAME_LEN` bytes, each of them a header name byte.
pub open spec fn is_header_name(bytes: Seq<u8>) -> bool {
    &&& 1 <= bytes.len() <= MAX_HEADER_NAME_LEN
    &&& forall|i: int| 0 <= i < bytes.len() ==> is_header_name_byte(#[trigger] bytes[i])
}

/// `b` with an upper-case letter turned into its lower-case letter.
pub open spec fn lower_byte(b: u8) -> u8 {
    if 0x41 <= b <= 0x5a {
        (b + 0x20) as u8
    } else {
        b
    }
}

/// `bytes` with every upper-case letter turned into its lower-case letter.
pub open spec fn lowered(bytes: Seq<u8>) -> Seq<u8> {
    Seq::new(bytes.len(), |i: int| lower_byte(bytes[i]))
}

/// The bytes that may stand in a header value: the tab, and every byte from
/// the space on but the delete character.
pub open spec fn is_header_value_byte(b: u8) -> bool {
    (b >= 32 && b != 127) || b == 9
}

/// True when each of `bytes` may stand in a header value.
pub open spec fn is_header_value(bytes: Seq<u8>) -> bool {
    forall|i: int| 0 <= i < bytes.len() ==> is_header_value_byte(#[trigger] bytes[i])
}

/// `HeaderName::from_bytes` of `http`, as `reqwest::header` hands it
/// through: it accepts exactly the header names, with letters of either
/// case. Nothing is claimed of the name it returns.
pub assume_specification[ HeaderName::from_bytes ](src: &[u8]) -> (parsed: Result<
    HeaderName,
    InvalidHeaderName,
>)
    ensures
        parsed is Ok <==> is_header_name(src@),
;

/// `HeaderValue::from_str` of `http`, as `reqwest::header` hands it through:
/// it accepts exactly the texts whose bytes may all stand in a header value.
/// Nothing is claimed of the value it returns.
pub assume_specification[ HeaderValue::from_str ](src: &str) -> (parsed: Result<
    HeaderValue,
    InvalidHeaderValue,
>)
    ensures
        parsed is Ok <==> is_header_value(encode_utf8(src@)),
;

/// One default header: a name and the value to send under it.
#[derive(Debug)]
pub struct HeaderPair {
    pub name: String,
    pub value: String,
}

/// The mathematical value of a `HeaderPair`.
pub struct HeaderPairView {
    pub name: Seq<char>,
    pub value: Seq<char>,
}

impl View for HeaderPair {
    type V = HeaderPairView;

    open spec fn view(&self) -> HeaderPairView {
        HeaderPairView { name: self.name@, value: self.value@ }
    }
}

/// The values of a list of header pairs.
pub open spec fn pair_views(pairs: Seq<HeaderPair>) -> Seq<HeaderPairView> {
    Seq::new(pairs.len(), |i: int| pairs[i]@)
}

/// What is wrong with a header pair, and at which position of its list the
/// pair stands.
#[derive(Clone, Copy, Debug, PartialEq, Eq, Structural)]
pub enum HeaderFault {
    /// The name of the pair at `index` is no header name.
    Name { index: usize },
    /// The value of the pair at `index` is no header value.
    Value { index: usize },
}

/// True when `name`, in UTF-8, is a header name.
pub open spec fn name_is_legal(name: Seq<char>) -> bool {
    is_header_name(encode_utf8(name))
}

/// True when two names are the same but for the case of their letters.
pub open spec fn same_name(a: Seq<char>, b: Seq<char>) -> bool {
    lowered(encode_utf8(a)) == lowered(encode_utf8(b))
}

/// True when `value`, in UTF-8, is a header value.
pub open spec fn value_is_legal(value: Seq<char>) -> bool {
    is_header_value(encode_utf8(value))
}

/// True when both the name and the value of `pair` are legal.
pub open spec fn pair_is_legal(pair: HeaderPairView) -> bool {
    name_is_legal(pair.name) && value_is_legal(pair.value)
}

/// The fault of the first pair, from position `from` on, that has one. The
/// name of a pair is looked at before its value.
pub open spec fn first_fault_from(pairs: Seq<HeaderPairView>, from: int) -> Option<HeaderFault>
    decreases pairs.len() - from,
{
    if from < 0 || from >= pairs.len() {
        None
    } else if !name_is_legal(pairs[from].name) {
        Some(HeaderFault::Name { index: from as usize })
    } else if !value_is_legal(pairs[from].value) {
        Some(HeaderFault::Value { index: from as usize })
    } else {
        first_fault_from(pairs, from + 1)
    }
}

/// The fault of the first pair of the list that has one.
pub open spec fn first_fault(pairs: Seq<HeaderPairView>) -> Option<HeaderFault> {
    first_fault_from(pairs, 0)
}

/// A list has no fault exactly when every pair of it is legal.
pub proof fn lemma_no_fault_means_all_legal(pairs: Seq<HeaderPairView>, from: int)
    requires
        0 <= from <= pairs.len(),
    ensures
        first_fault_from(pairs, from) is None <==> forall|i: int|
            from <= i < pairs.len() ==> pair_is_legal(#[trigger] pairs[i]),
    decreases pairs.len() - from,
{
    if from < pairs.len() {
        lemma_no_fault_means_all_legal(pairs, from + 1);
    }
}

/// Tells whether `name` is a header name.
pub fn header_name_is_legal(name: &str) -> (legal: bool)
    ensures
        legal == name_is_legal(name@),
{
    match HeaderName::from_bytes(name.as_bytes()) {
        Ok(_) => true,
        Err(_) => false,
    }
}

/// Tells whether `value` is a header value.
pub fn header_value_is_legal(value: &str) -> (legal: bool)
    ensures
        legal == value_is_legal(value@),
{
    match HeaderValue::from_str(value) {
        Ok(_) => true,
        Err(_) => false,
    }
}

/// Finds the first pair of `pairs` that a client will not take, if there is
/// one.
pub fn check_headers(pairs: &Vec<HeaderPair>) -> (fault: Option<HeaderFault>)
    ensures
        fault == first_fault(pair_views(pairs@)),
{
    let ghost views = pair_views(pairs@);
    let mut i: usize = 0;
    while i < pairs.len()
        invariant
            i <= pairs.len(),
            views == pair_views(pairs@),
            first_fault(views) == first_fault_from(views, i as int),
        decreases pairs.len() - i,
    {
        let pair = &pairs[i];
        assert(views[i as int] == pair@);
        if !header_name_is_legal(pair.name.as_str()) {
            return Some(HeaderFault::Name { index: i });
        }
        if !header_value_is_legal(pair.value.as_str()) {
            return Some(HeaderFault::Value { index: i });
        }
        i += 1;
    }
    None
}

/// True when a pair after the one at `index` has the same name as it.
pub open spec fn has_later_same_name(pairs: Seq<HeaderPairView>, index: int) -> bool {
    exists|later: int|
        index < later < pairs.len() && #[trigger] same_name(pairs[index].name, pairs[later].name)
}

/// True when no two pairs of the list have the same name.
pub open spec fn names_distinct(pairs: Seq<HeaderPairView>) -> bool {
    forall|i: int, j: int|
        0 <= i < j < pairs.len() ==> !#[trigger] same_name(pairs[i].name, pairs[j].name)
}

/// The pairs that count, from position `from` on: of the pairs with the same
/// name the last one, and each in the order of the list.
pub open spec fn last_of_each_name_from(pairs: Seq<HeaderPairView>, from: int) -> Seq<
    HeaderPairView,
>
    decreases pairs.len() - from,
{
    if from < 0 || from >= pairs.len() {
        Seq::empty()
    } else if has_later_same_name(pairs, from) {
        last_of_each_name_from(pairs, from + 1)
    } else {
        seq![pairs[from]] + last_of_each_name_from(pairs, from + 1)
    }
}

/// The pairs of a list that count: where a name is given more than once,
/// the last pair with that name, and no other.
pub open spec fn last_of_each_name(pairs: Seq<HeaderPairView>) -> Seq<HeaderPairView> {
    last_of_each_name_from(pairs, 0)
}

/// Every pair that counts is a pair of the list, at or after `from`, that no
/// later pair shares its name with.
pub proof fn lemma_kept_pairs_are_last(pairs: Seq<HeaderPairView>, from: int, at: int) -> (index:
    int)
    requires
        0 <= from,
        0 <= at < last_of_each_name_from(pairs, from).len(),
    ensures
        from <= index < pairs.len(),
        last_of_each_name_from(pairs, from)[at] == pairs[index],
        !has_later_same_name(pairs, index),
    decreases pairs.len() - from,
{
    if has_later_same_name(pairs, from) {
        lemma_kept_pairs_are_last(pairs, from + 1, at)
    } else if at == 0 {
        from
    } else {
        lemma_kept_pairs_are_last(pairs, from + 1, at - 1)
    }
}

/// Every pair of the list, at or after `from`, that no later pair shares its
/// name with is a pair that counts.
pub proof fn lemma_last_pairs_are_kept(pairs: Seq<HeaderPairView>, from: int, index: int) -> (at:
    int)
    requires
        0 <= from <= index < pairs.len(),
        !has_later_same_name(pairs, index),
    ensures
        0 <= at < last_of_each_name_from(pairs, from).len(),
        last_of_each_name_from(pairs, from)[at] == pairs[index],
    decreases pairs.len() - from,
{
    if from == index {
        0
    } else if has_later_same_name(pairs, from) {
        lemma_last_pairs_are_kept(pairs, from + 1, index)
    } else {
        lemma_last_pairs_are_kept(pairs, from + 1, index) + 1
    }
}

/// No two of the pairs that count have the same name.
pub proof fn lemma_kept_names_are_distinct(pairs: Seq<HeaderPairView>, from: int)
    requires
        0 <= from,
    ensures
        names_distinct(last_of_each_name_from(pairs, from)),
    decreases pairs.len() - from,
{
    let kept = last_of_each_name_from(pairs, from);
    if from < pairs.len() {
        lemma_kept_names_are_distinct(pairs, from + 1);
        let rest = last_of_each_name_from(pairs, from + 1);
        if !has_later_same_name(pairs, from) {
            assert forall|i: int, j: int| 0 <= i < j < kept.len() implies !#[trigger] same_name(
                kept[i].name,
                kept[j].name,
            ) by {
                if i == 0 {
                    let index = lemma_kept_pairs_are_last(pairs, from + 1, j - 1);
                    assert(kept[j] == pairs[index]);
                    assert(kept[0] == pairs[from]);
                } else {
                    assert(kept[i] == rest[i - 1]);
                    assert(kept[j] == rest[j - 1]);
                }
            }
        }
    }
}

/// Where no two pairs of a list have the same name, every pair counts.
pub proof fn lemma_distinct_names_are_all_kept(pairs: Seq<HeaderPairView>, from: int)
    requires
        0 <= from <= pairs.len(),
        names_distinct(pairs),
    ensures
        last_of_each_name_from(pairs, from) == pairs.skip(from),
    decreases pairs.len() - from,
{
    if from < pairs.len() {
        lemma_distinct_names_are_all_kept(pairs, from + 1);
        assert(seq![pairs[from]] + pairs.skip(from + 1) =~= pairs.skip(from));
    } else {
        assert(pairs.skip(from) =~= Seq::<HeaderPairView>::empty());
    }
}

/// A pair that counts is legal where every pair of the list is.
pub proof fn lemma_kept_pairs_are_legal(pairs: Seq<HeaderPairView>)
    requires
        forall|i: int| 0 <= i < pairs.len() ==> pair_is_legal(#[trigger] pairs[i]),
    ensures
        forall|k: int|
            0 <= k < last_of_each_name(pairs).len() ==> pair_is_legal(
                #[trigger] last_of_each_name(pairs)[k],
            ),
{
    assert forall|k: int| 0 <= k < last_of_each_name(pairs).len() implies pair_is_legal(
        #[trigger] last_of_each_name(pairs)[k],
    ) by {
        lemma_kept_pairs_are_last(pairs, 0, k);
    }
}

/// Turns an upper-case letter into its lower-case letter.
fn to_lower(b: u8) -> (l: u8)
    ensures
        l == lower_byte(b),
{
    if 0x41 <= b && b <= 0x5a {
        b + 0x20
    } else {
        b
    }
}

/// Tells whether two names are the same but for the case of their letters.
pub fn names_are_same(a: &str, b: &str) -> (same: bool)
    ensures
        same == same_name(a@, b@),
{
    let x = a.as_bytes();
    let y = b.as_bytes();
    if x.len() != y.len() {
        assert(lowered(x@).len() != lowered(y@).len());
        return false;
    }
    let mut i: usize = 0;
    while i < x.len()
        invariant
            i <= x.len(),
            x.len() == y.len(),
            x@ == encode_utf8(a@),
            y@ == encode_utf8(b@),
            forall|k: int| 0 <= k < i ==> lower_byte(x@[k]) == lower_byte(y@[k]),
        decreases x.len() - i,
    {
        if to_lower(x[i]) != to_lower(y[i]) {
            assert(lowered(x@)[i as int] != lowered(y@)[i as int]);
            return false;
        }
        i += 1;
    }
    assert(lowered(x@) =~= lowered(y@));
    true
}

/// Tells whether a pair after the one at `index` has the same name as it.
fn later_has_same_name(pairs: &Vec<HeaderPair>, index: usize) -> (found: bool)
    requires
        index < pairs.len(),
    ensures
        found == has_later_same_name(pair_views(pairs@), index as int),
{
    let ghost views = pair_views(pairs@);
    let mut j: usize = index + 1;
    while j < pairs.len()
        invariant
            index < j <= pairs.len(),
            views == pair_views(pairs@),
            forall|k: int| index < k < j ==> !#[trigger] same_name(views[index as int].name, views[k].name),
        decreases pairs.len() - j,
    {
        assert(views[index as int] == pairs@[index as int]@);
        assert(views[j as int] == pairs@[j as int]@);
        if names_are_same(pairs[index].name.as_str(), pairs[j].name.as_str()) {
            assert(same_name(views[index as int].name, views[j as int].name));
            return true;
        }
        j += 1;
    }
    false
}

/// Keeps of the pairs with the same name the last one, and every other pair,
/// in the order of the list.
pub fn keep_last_of_each_name(pairs: &Vec<HeaderPair>) -> (kept: Vec<HeaderPair>)
    ensures
        pair_views(kept@) == last_of_each_name(pair_views(pairs@)),
{
    let ghost views = pair_views(pairs@);
    let mut kept: Vec<HeaderPair> = Vec::new();
    let mut i: usize = 0;
    proof {
        assert(pair_views(kept@) + last_of_each_name_from(views, 0) =~= last_of_each_name(views));
    }
    while i < pairs.len()
        invariant
            i <= pairs.len(),
            views == pair_views(pairs@),
            pair_views(kept@) + last_of_each_name_from(views, i as int) == last_of_each_name(
                views,
            ),
        decreases pairs.len() - i,
    {
        let ghost before = pair_views(kept@);
        if !later_has_same_name(pairs, i) {
            let pair = &pairs[i];
            kept.push(HeaderPair { name: pair.name.clone(), value: pair.value.clone() });
            proof {
                assert(views[i as int] == pair@);
                assert(pair_views(kept@) =~= before + seq![views[i as int]]);
                assert(before + (seq![views[i as int]] + last_of_each_name_from(views, i + 1))
                    =~= before + seq![views[i as int]] + last_of_each_name_from(views, i + 1));
            }
        }
        i += 1;
    }
    proof {
        assert(pair_views(kept@) + Seq::<HeaderPairView>::empty() =~= pair_views(kept@));
    }
    kept
}

} // verus!
