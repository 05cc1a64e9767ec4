//! What travels between the catalog service and its clients: the bodies of
//! the requests, the addresses that the requests go to, and the answer to a
//! request that failed.

use crate::text::{int_digits, int_text};
use vstd::prelude::*;

verus! {

/// Body of the request that creates an item designed in house.
#[derive(Debug)]
pub struct ItemMake {
    pub name: String,
}

/// Body of the request that creates a procured item.
#[derive(Debug)]
pub struct ItemBuy {
    pub pn: String,
    pub name: String,
}

/// Body of the request that adds a child to an item.
#[derive(Debug)]
pub struct AddChild {
    pub id_child: i64,
    pub quantity: usize,
}

/// Why the service could not answer.
#[derive(Clone, Copy, Debug, PartialEq, Eq, Structural)]
pub enum Error {
    StoreError,
    StateError,
}

impl Error {
    /// The status code of the answer.
    pub fn status(&self) -> (code: u16)
        ensures
            code == 500,
    {
        500
    }

    /// The words of the answer.
    pub fn message(&self) -> (words: &'static str)
        ensures
            words@ == match self {
                Error::StoreError => "STORE ERROR"@,
                Error::StateError => "STATE ERROR"@,
            },
    {
        match self {
            Error::StoreError => "STORE ERROR",
            Error::StateError => "STATE ERROR",
        }
    }
}

/// Where the service listens.
pub const BASE_API_URL: &'static str = "http://localhost:3030";

/// Whether a byte stands for itself in an address: a letter or a digit of
/// the basic Latin alphabet, or one of `-`, `.`, `_` and `~`.
pub open spec fn is_unreserved(byte: u8) -> bool {
    ||| 48 <= byte <= 57
    ||| 65 <= byte <= 90
    ||| 97 <= byte <= 122
    ||| byte == 45
    ||| byte == 46
    ||| byte == 95
    ||| byte == 126
}

/// The hexadecimal digit, in capitals, of a number below sixteen.
pub open spec fn hex_digit(value: u8) -> char {
    if value < 10 {
        (48 + value) as u8 as char
    } else {
        (55 + value) as u8 as char
    }
}

/// The bytes written for an address: a byte that is not unreserved becomes a
/// percent sign and its two hexadecimal digits.
pub open spec fn percent_encoded(bytes: Seq<u8>) -> Seq<char>
    decreases bytes.len(),
{
    if bytes.len() == 0 {
        Seq::empty()
    } else {
        percent_encoded(bytes.drop_last()) + if is_unreserved(bytes.last()) {
            seq![bytes.last() as char]
        } else {
            seq!['%', hex_digit(bytes.last() / 16), hex_digit(bytes.last() % 16)]
        }
    }
}

/// Writes a text for an address. The body calls `urlencoding::encode`, which
/// walks the bytes of the text as UTF-8 writes them, copies the unreserved
/// ones and writes each other byte as a percent sign and two hexadecimal
/// digits in capitals.
#[verifier::external_body]
fn url_encode(text: &str) -> (encoded: String)
    ensures
        encoded@ == percent_encoded(vstd::utf8::encode_utf8(text@)),
{
    urlencoding::encode(text).into_owned()
}

/// `<base>/search?pattern=<pattern>`, the pattern written for an address.
pub open spec fn spec_search_url(base: Seq<char>, pattern: Seq<char>) -> Seq<char> {
    base + "/search?pattern="@ + percent_encoded(vstd::utf8::encode_utf8(pattern))
}

/// The address that answers a search.
pub fn search_url(base: &str, pattern: &str) -> (url: String)
    ensures
        url@ == spec_search_url(base@, pattern@),
{
    let mut url = base.to_owned();
    url.append("/search?pattern=");
    let encoded = url_encode(pattern);
    url.append(encoded.as_str());
    url
}

/// The address that creates an item designed in house: `<base>/item/make`.
pub fn item_make_url(base: &str) -> (url: String)
    ensures
        url@ == base@ + "/item/make"@,
{
    let mut url = base.to_owned();
    url.append("/item/make");
    url
}

/// The address that creates a procured item: `<base>/item/buy`.
pub fn item_buy_url(base: &str) -> (url: String)
    ensures
        url@ == base@ + "/item/buy"@,
{
    let mut url = base.to_owned();
    url.append("/item/buy");
    url
}

/// `<base>/item/<id>`
pub open spec fn spec_item_url(base: Seq<char>, id: int) -> Seq<char> {
    base + "/item/"@ + int_digits(id)
}

/// The address of an item.
pub fn item_url(base: &str, id: i64) -> (url: String)
    ensures
        url@ == spec_item_url(base@, id as int),
{
    let mut url = base.to_owned();
    url.append("/item/");
    let digits = int_text(id);
    url.append(digits.as_str());
    url
}

/// The address of the children of an item: `<base>/item/<id>/children`.
pub fn children_url(base: &str, id: i64) -> (url: String)
    ensures
        url@ == spec_item_url(base@, id as int) + "/children"@,
{
    let mut url = item_url(base, id);
    url.append("/children");
    url
}

/// The address that adds a child to an item: `<base>/item/<id>/child`.
pub fn add_child_url(base: &str, id_parent: i64) -> (url: String)
    ensures
        url@ == spec_item_url(base@, id_parent as int) + "/child"@,
{
    let mut url = item_url(base, id_parent);
    url.append("/child");
    url
}

/// The address of a child of an item:
/// `<base>/item/<id_parent>/child/<id_child>`.
pub fn child_url(base: &str, id_parent: i64, id_child: i64) -> (url: String)
    ensures
        url@ == spec_item_url(base@, id_parent as int) + "/child/"@ + int_digits(id_child as int),
{
    let mut url = item_url(base, id_parent);
    url.append("/child/");
    let digits = int_text(id_child);
    url.append(digits.as_str());
    url
}

/// The address that releases an item: `<base>/item/<id>/release`.
pub fn release_url(base: &str, id: i64) -> (url: String)
    ensures
        url@ == spec_item_url(base@, id as int) + "/release"@,
{
    let mut url = item_url(base, id);
    url.append("/release");
    url
}

/// The address of the report of an item: `<base>/item/<id>/report`.
pub fn report_url(base: &str, id: i64) -> (url: String)
    ensures
        url@ == spec_item_url(base@, id as int) + "/report"@,
{
    let mut url = item_url(base, id);
    url.append("/report");
    url
}

} // verus!
