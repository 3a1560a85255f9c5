//! Strings that are either borrowed from a datagram or held by the value
//! itself.

use std::borrow::Cow;
use vstd::prelude::*;
use vstd::string::StringSliceAdditionalSpecFns;
use vstd::utf8::encode_utf8_decode_utf8;

verus! {

/// `Cow::clone`, which the derived `Clone` impls of the messages call.
/// Nothing is claimed of the copy.
pub assume_specification<'a, B: ?Sized + std::borrow::ToOwned>[ <Cow<'a, B> as Clone>::clone ](
    text: &Cow<'a, B>,
) -> (copy: Cow<'a, B>)
;

/// The characters of a string, wherever it keeps them.
pub fn text_of<'b, 'a>(text: &'b Cow<'a, str>) -> (chars: &'b str)
    ensures
        chars@ == text@,
{
    match text {
        Cow::Borrowed(borrowed) => borrowed,
        Cow::Owned(held) => held.as_str(),
    }
}

/// A copy of `text` that holds its characters itself.
pub fn owned_text<'a>(text: &Cow<'a, str>) -> (copy: Cow<'static, str>)
    ensures
        copy@ == text@,
        copy is Owned,
{
    match text {
        Cow::Borrowed(borrowed) => Cow::Owned((*borrowed).to_owned()),
        Cow::Owned(held) => Cow::Owned(held.clone()),
    }
}

/// The character sequences of a list of strings.
pub open spec fn texts<'a>(list: Seq<Cow<'a, str>>) -> Seq<Seq<char>> {
    Seq::new(list.len(), |i: int| list[i]@)
}

/// Every string of the list holds its characters itself.
pub open spec fn all_owned<'a>(list: Seq<Cow<'a, str>>) -> bool {
    forall|i: int| 0 <= i < list.len() ==> (#[trigger] list[i]) is Owned
}

/// A copy of a list of strings in which every string holds its characters
/// itself.
pub fn owned_texts<'a>(list: &Vec<Cow<'a, str>>) -> (copy: Vec<Cow<'static, str>>)
    ensures
        texts(copy@) == texts(list@),
        all_owned(copy@),
{
    let mut copy: Vec<Cow<'static, str>> = Vec::new();
    let mut i: usize = 0;
    while i < list.len()
        invariant
            i <= list.len(),
            copy.len() == i,
            forall|j: int| 0 <= j < i ==> (#[trigger] copy@[j])@ == list@[j]@,
            all_owned(copy@),
        decreases list.len() - i,
    {
        copy.push(owned_text(&list[i]));
        i += 1;
    }
    copy
}

/// A copy of `text` that borrows where `text` borrows.
pub fn same_text_copy<'a>(text: &Cow<'a, str>) -> (copy: Cow<'a, str>)
    ensures
        copy@ == text@,
{
    match text {
        Cow::Borrowed(borrowed) => Cow::Borrowed(*borrowed),
        Cow::Owned(held) => Cow::Owned(held.clone()),
    }
}

/// A copy of a list of strings, each borrowing where the string it copies
/// borrows.
pub fn same_texts_copy<'a>(list: &Vec<Cow<'a, str>>) -> (copy: Vec<Cow<'a, str>>)
    ensures
        texts(copy@) == texts(list@),
{
    let mut copy: Vec<Cow<'a, str>> = Vec::new();
    let mut i: usize = 0;
    while i < list.len()
        invariant
            i <= list.len(),
            copy.len() == i,
            forall|j: int| 0 <= j < i ==> (#[trigger] copy@[j])@ == list@[j]@,
        decreases list.len() - i,
    {
        copy.push(same_text_copy(&list[i]));
        i += 1;
    }
    copy
}

/// Whether two strings are made of the same characters. They are compared
/// byte by byte: UTF-8 gives equal strings equal bytes, and no others.
pub fn same_text(a: &str, b: &str) -> (same: bool)
    ensures
        same == (a@ == b@),
{
    let x = a.as_bytes();
    let y = b.as_bytes();
    proof {
        encode_utf8_decode_utf8(a@);
        encode_utf8_decode_utf8(b@);
    }
    if x.len() != y.len() {
        return false;
    }
    let mut i: usize = 0;
    while i < x.len()
        invariant
            i <= x.len(),
            x.len() == y.len(),
            forall|j: int| 0 <= j < i ==> x@[j] == y@[j],
            x@ == a.spec_bytes(),
            y@ == b.spec_bytes(),
            a@ == b@ ==> x@ == y@,
        decreases x.len() - i,
    {
        if x[i] != y[i] {
            return false;
        }
        i += 1;
    }
    assert(x@ =~= y@);
    true
}

} // verus!
