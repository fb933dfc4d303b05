//! The form bodies of inbound requests: which fields each request takes
//! and what is made of them.

use crate::ring::FINGERS;
use crate::text::parse_decimal;
use crate::text::parse_decimal_text;
use crate::text::str_equal;
use vstd::prelude::*;
use vstd::string::StringExecFns;

verus! {

/// The (name, value) pairs that a body in the
/// `application/x-www-form-urlencoded` syntax holds, names and values
/// percent-decoded, in the order in which they stand.
pub uninterp spec fn form_pairs(body: Seq<u8>) -> Seq<(Seq<char>, Seq<char>)>;

/// The texts of a list of pairs of strings.
pub open spec fn pair_texts(pairs: Seq<(String, String)>) -> Seq<(Seq<char>, Seq<char>)> {
    Seq::new(pairs.len(), |i: int| (pairs[i].0@, pairs[i].1@))
}

/// Decodes a form body with `url::form_urlencoded::parse`.
///
/// Trusted: the pairs that come out depend on the bytes alone.
#[verifier::external_body]
fn parse_form(body: &Vec<u8>) -> (pairs: Vec<(String, String)>)
    ensures
        pair_texts(pairs@) == form_pairs(body@),
{
    url::form_urlencoded::parse(body.as_slice()).into_owned().collect()
}

/// Why a form is refused.
#[derive(Debug)]
pub enum FormError {
    /// The form holds a field that the request does not take.
    UnexpectedField(String),
    /// The field that the request needs is absent or empty.
    MissingField,
    /// The index of a finger is not a number below `FINGERS`.
    BadIndex,
}

/// The mathematical value of a [`FormError`].
pub enum FormErrorView {
    UnexpectedField(Seq<char>),
    MissingField,
    BadIndex,
}

impl View for FormError {
    type V = FormErrorView;

    open spec fn view(&self) -> FormErrorView {
        match self {
            FormError::UnexpectedField(name) => FormErrorView::UnexpectedField(name@),
            FormError::MissingField => FormErrorView::MissingField,
            FormError::BadIndex => FormErrorView::BadIndex,
        }
    }
}

/// The value of the field `name` in a form that may hold no other field:
/// the last value given, the empty text where the form is empty, and the
/// first foreign field as the error.
pub open spec fn only_field(pairs: Seq<(Seq<char>, Seq<char>)>, name: Seq<char>) -> Result<
    Seq<char>,
    FormErrorView,
>
    decreases pairs.len(),
{
    if pairs.len() == 0 {
        Ok(Seq::empty())
    } else {
        match only_field(pairs.drop_last(), name) {
            Err(e) => Err(e),
            Ok(_) => if pairs.last().0 == name {
                Ok(pairs.last().1)
            } else {
                Err(FormErrorView::UnexpectedField(pairs.last().0))
            },
        }
    }
}

/// The last value given for the field `name`, other fields being passed
/// over; the empty text where the field is absent.
pub open spec fn last_field(pairs: Seq<(Seq<char>, Seq<char>)>, name: Seq<char>) -> Seq<char>
    decreases pairs.len(),
{
    if pairs.len() == 0 {
        Seq::empty()
    } else if pairs.last().0 == name {
        pairs.last().1
    } else {
        last_field(pairs.drop_last(), name)
    }
}

/// The value of a field that must be given: the last value of `name`,
/// refused where it is absent or empty.
pub open spec fn needed_field(pairs: Seq<(Seq<char>, Seq<char>)>, name: Seq<char>) -> Result<
    Seq<char>,
    FormErrorView,
> {
    if last_field(pairs, name).len() == 0 {
        Err(FormErrorView::MissingField)
    } else {
        Ok(last_field(pairs, name))
    }
}

/// The values of the fields `n` and `i` in a form that may hold no other
/// field: for each the last value given, or the empty text.
pub open spec fn finger_fields(pairs: Seq<(Seq<char>, Seq<char>)>) -> Result<
    (Seq<char>, Seq<char>),
    FormErrorView,
>
    decreases pairs.len(),
{
    if pairs.len() == 0 {
        Ok((Seq::empty(), Seq::empty()))
    } else {
        match finger_fields(pairs.drop_last()) {
            Err(e) => Err(e),
            Ok((n, i)) => if pairs.last().0 == "n"@ {
                Ok((pairs.last().1, i))
            } else if pairs.last().0 == "i"@ {
                Ok((n, pairs.last().1))
            } else {
                Err(FormErrorView::UnexpectedField(pairs.last().0))
            },
        }
    }
}

/// What a form offers for the finger table: the address `n` and the
/// index `i`, which must be a number below `FINGERS`.
pub open spec fn finger_offer(pairs: Seq<(Seq<char>, Seq<char>)>) -> Result<
    (Seq<char>, u64),
    FormErrorView,
> {
    match finger_fields(pairs) {
        Err(e) => Err(e),
        Ok((n, i)) => match parse_decimal(i) {
            Some(k) => if k < FINGERS {
                Ok((n, k))
            } else {
                Err(FormErrorView::BadIndex)
            },
            None => Err(FormErrorView::BadIndex),
        },
    }
}

/// The value of a result over strings.
pub open spec fn text_result(result: Result<String, FormError>) -> Result<Seq<char>, FormErrorView> {
    match result {
        Ok(value) => Ok(value@),
        Err(e) => Err(e@),
    }
}

/// Reads the field `name` from a form that may hold no other field.
pub fn read_only_field(pairs: &Vec<(String, String)>, name: &str) -> (value: Result<
    String,
    FormError,
>)
    ensures
        text_result(value) == only_field(pair_texts(pairs@), name@),
{
    let mut value = String::new();
    let mut i: usize = 0;
    while i < pairs.len()
        invariant
            i <= pairs.len(),
            only_field(pair_texts(pairs@).subrange(0, i as int), name@) == Ok::<
                Seq<char>,
                FormErrorView,
            >(value@),
        decreases pairs.len() - i,
    {
        proof {
            let upto = pair_texts(pairs@).subrange(0, i + 1);
            assert(upto.drop_last() =~= pair_texts(pairs@).subrange(0, i as int));
            assert(upto.last() == (pairs@[i as int].0@, pairs@[i as int].1@));
            lemma_only_field_stops(pair_texts(pairs@), name@, i + 1);
        }
        if str_equal(pairs[i].0.as_str(), name) {
            value = pairs[i].1.clone();
        } else {
            return Err(FormError::UnexpectedField(pairs[i].0.clone()));
        }
        i = i + 1;
    }
    assert(pair_texts(pairs@).subrange(0, i as int) =~= pair_texts(pairs@));
    Ok(value)
}

/// A foreign field in a part of a form is the error of the whole form.
proof fn lemma_only_field_stops(pairs: Seq<(Seq<char>, Seq<char>)>, name: Seq<char>, upto: int)
    requires
        0 <= upto <= pairs.len(),
    ensures
        only_field(pairs.subrange(0, upto), name) is Err ==> only_field(pairs, name)
            == only_field(pairs.subrange(0, upto), name),
    decreases pairs.len(),
{
    if upto < pairs.len() {
        assert(pairs.drop_last().subrange(0, upto) =~= pairs.subrange(0, upto));
        lemma_only_field_stops(pairs.drop_last(), name, upto);
    } else {
        assert(pairs.subrange(0, upto) =~= pairs);
    }
}

/// Reads the last value of the field `name`, passing over other fields.
pub fn read_last_field(pairs: &Vec<(String, String)>, name: &str) -> (value: String)
    ensures
        value@ == last_field(pair_texts(pairs@), name@),
{
    let mut value = String::new();
    let mut i: usize = 0;
    while i < pairs.len()
        invariant
            i <= pairs.len(),
            value@ == last_field(pair_texts(pairs@).subrange(0, i as int), name@),
        decreases pairs.len() - i,
    {
        proof {
            let upto = pair_texts(pairs@).subrange(0, i + 1);
            assert(upto.drop_last() =~= pair_texts(pairs@).subrange(0, i as int));
            assert(upto.last() == (pairs@[i as int].0@, pairs@[i as int].1@));
        }
        if str_equal(pairs[i].0.as_str(), name) {
            value = pairs[i].1.clone();
        }
        i = i + 1;
    }
    assert(pair_texts(pairs@).subrange(0, i as int) =~= pair_texts(pairs@));
    value
}

/// Reads a field that must be given.
pub fn read_needed_field(pairs: &Vec<(String, String)>, name: &str) -> (value: Result<
    String,
    FormError,
>)
    ensures
        text_result(value) == needed_field(pair_texts(pairs@), name@),
{
    let value = read_last_field(pairs, name);
    if value.as_str().unicode_len() == 0 {
        Err(FormError::MissingField)
    } else {
        Ok(value)
    }
}

/// A foreign field in a part of a form is the error of the whole form.
proof fn lemma_finger_fields_stop(pairs: Seq<(Seq<char>, Seq<char>)>, upto: int)
    requires
        0 <= upto <= pairs.len(),
    ensures
        finger_fields(pairs.subrange(0, upto)) is Err ==> finger_fields(pairs) == finger_fields(
            pairs.subrange(0, upto),
        ),
    decreases pairs.len(),
{
    if upto < pairs.len() {
        assert(pairs.drop_last().subrange(0, upto) =~= pairs.subrange(0, upto));
        lemma_finger_fields_stop(pairs.drop_last(), upto);
    } else {
        assert(pairs.subrange(0, upto) =~= pairs);
    }
}

/// Reads what a form offers for the finger table: an address and the
/// index of the entry it is offered for.
pub fn read_finger_offer(pairs: &Vec<(String, String)>) -> (offer: Result<(String, u64), FormError>)
    ensures
        match finger_offer(pair_texts(pairs@)) {
            Ok((n, k)) => offer matches Ok(o) && o.0@ == n && o.1 == k,
            Err(e) => offer matches Err(f) && f@ == e,
        },
        offer matches Ok(o) ==> o.1 < FINGERS,
{
    let mut n = String::new();
    let mut index = String::new();
    let mut i: usize = 0;
    while i < pairs.len()
        invariant
            i <= pairs.len(),
            finger_fields(pair_texts(pairs@).subrange(0, i as int)) == Ok::<
                (Seq<char>, Seq<char>),
                FormErrorView,
            >((n@, index@)),
        decreases pairs.len() - i,
    {
        proof {
            let upto = pair_texts(pairs@).subrange(0, i + 1);
            assert(upto.drop_last() =~= pair_texts(pairs@).subrange(0, i as int));
            assert(upto.last() == (pairs@[i as int].0@, pairs@[i as int].1@));
            lemma_finger_fields_stop(pair_texts(pairs@), i + 1);
        }
        if str_equal(pairs[i].0.as_str(), "n") {
            n = pairs[i].1.clone();
        } else if str_equal(pairs[i].0.as_str(), "i") {
            index = pairs[i].1.clone();
        } else {
            return Err(FormError::UnexpectedField(pairs[i].0.clone()));
        }
        i = i + 1;
    }
    assert(pair_texts(pairs@).subrange(0, i as int) =~= pair_texts(pairs@));
    match parse_decimal_text(index.as_str()) {
        Some(k) => if k < FINGERS as u64 {
            Ok((n, k))
        } else {
            Err(FormError::BadIndex)
        },
        None => Err(FormError::BadIndex),
    }
}

/// The address in the body of a request to overwrite the successor: the
/// field `ip`, the only one the form may hold.
pub fn successor_form(body: &Vec<u8>) -> (ip: Result<String, FormError>)
    ensures
        text_result(ip) == only_field(form_pairs(body@), "ip"@),
{
    let pairs = parse_form(body);
    read_only_field(&pairs, "ip")
}

/// The address in the body of a request to overwrite the predecessor:
/// the field `ip`, which must be given.
pub fn predecessor_form(body: &Vec<u8>) -> (ip: Result<String, FormError>)
    ensures
        text_result(ip) == needed_field(form_pairs(body@), "ip"@),
{
    let pairs = parse_form(body);
    read_needed_field(&pairs, "ip")
}

/// The address in the body of a notification: the field `n`, which must
/// be given.
pub fn notify_form(body: &Vec<u8>) -> (n: Result<String, FormError>)
    ensures
        text_result(n) == needed_field(form_pairs(body@), "n"@),
{
    let pairs = parse_form(body);
    read_needed_field(&pairs, "n")
}

/// The key in the body of an insertion or of a replica: the field `key`,
/// the only one the form may hold.
pub fn get_key_from_body(body: &Vec<u8>) -> (key: Result<String, FormError>)
    ensures
        text_result(key) == only_field(form_pairs(body@), "key"@),
{
    let pairs = parse_form(body);
    read_only_field(&pairs, "key")
}

/// The offer in the body of a request to update the finger table: the
/// fields `n` and `i`, the only ones the form may hold.
pub fn finger_table_form(body: &Vec<u8>) -> (offer: Result<(String, u64), FormError>)
    ensures
        match finger_offer(form_pairs(body@)) {
            Ok((n, k)) => offer matches Ok(o) && o.0@ == n && o.1 == k,
            Err(e) => offer matches Err(f) && f@ == e,
        },
        offer matches Ok(o) ==> o.1 < FINGERS,
{
    let pairs = parse_form(body);
    read_finger_offer(&pairs)
}

} // verus!
