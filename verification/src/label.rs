//! One component of a domain name.

use crate::error::{agrees, ErrorCondition, ErrorView};
use vstd::prelude::*;
use vstd::utf8::{decode_utf8, encode_utf8, encode_utf8_decode_utf8, valid_utf8};

verus! {

/// `core::str::Utf8Error`, the error of `core::str::from_utf8`, declared so
/// that it can be matched on. Nothing is said of what it holds.
#[verifier::external_type_specification]
#[verifier::external_body]
pub struct ExUtf8Error(core::str::Utf8Error);

/// `core::str::from_utf8` succeeds exactly on well-formed UTF-8, and the text
/// it then returns is the one that these bytes encode. Assumed of the
/// standard library, not proved.
pub assume_specification[ core::str::from_utf8 ](v: &[u8]) -> (r: Result<
    &str,
    core::str::Utf8Error,
>)
    ensures
        r is Ok <==> valid_utf8(v@),
        r matches Ok(s) ==> encode_utf8(s@) == v@,
;

/// One component of a domain name, held as text.
///
/// Its view is the text. On the wire a label is the UTF-8 encoding of that
/// text behind a one-byte length.
#[derive(Debug, PartialEq, Eq)]
pub struct Label(String);

impl View for Label {
    type V = Seq<char>;

    closed spec fn view(&self) -> Seq<char> {
        self.0@
    }
}

impl Clone for Label {
    fn clone(&self) -> (r: Self)
        ensures
            r@ == self@,
    {
        Label(self.0.clone())
    }
}

impl Label {
    /// What [`Label::new`] gives for `bytes`: the text they encode, or
    /// `InvalidLabel` if they are not well-formed UTF-8.
    pub open spec fn decode(bytes: Seq<u8>) -> Result<Seq<char>, ErrorView> {
        if valid_utf8(bytes) {
            Ok(decode_utf8(bytes))
        } else {
            Err(ErrorView::InvalidLabel)
        }
    }

    /// The bytes of the label's text.
    pub open spec fn bytes(self) -> Seq<u8> {
        encode_utf8(self@)
    }

    /// Makes a label from the bytes of its text.
    pub fn new(label: &[u8]) -> (r: Result<Label, ErrorCondition>)
        ensures
            agrees(r, Label::decode(label@)),
            r matches Ok(l) ==> l.bytes() == label@,
    {
        match core::str::from_utf8(label) {
            Ok(s) => {
                proof {
                    encode_utf8_decode_utf8(s@);
                }
                Ok(Label(s.to_owned()))
            },
            Err(_) => Err(ErrorCondition::InvalidLabel),
        }
    }

    /// The number of bytes in the label's text.
    pub fn len(&self) -> (n: usize)
        ensures
            n == self.bytes().len(),
    {
        self.0.as_str().as_bytes().len()
    }

    /// The label's text.
    pub fn as_str(&self) -> (s: &str)
        ensures
            s@ == self@,
    {
        self.0.as_str()
    }
}

} // verus!
