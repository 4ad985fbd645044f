//! The request that asks a map server for every node in a bounding box
//! together with the ways and relations around them.

use vstd::prelude::*;
use vstd::string::StringSliceAdditionalSpecFns;

verus! {

/// An upper-case hexadecimal digit.
pub open spec fn hex_digit(n: u8) -> char {
    if n < 10 {
        ((48 + n) as u8) as char
    } else {
        ((55 + n) as u8) as char
    }
}

/// Bytes that stand for themselves in a URL: ASCII letters and digits and
/// `-`, `.`, `_`, `~`.
pub open spec fn url_safe(b: u8) -> bool {
    (48 <= b <= 57) || (65 <= b <= 90) || (97 <= b <= 122) || b == 45 || b == 46 || b == 95 || b
        == 126
}

/// The percent-encoding of `bytes`: each safe byte as its character, each
/// other byte as `%` and two upper-case hexadecimal digits.
pub open spec fn percent_encoded(bytes: Seq<u8>) -> Seq<char>
    decreases bytes.len(),
{
    if bytes.len() == 0 {
        Seq::empty()
    } else {
        let b = bytes.last();
        percent_encoded(bytes.drop_last()) + if url_safe(b) {
            seq![b as char]
        } else {
            seq!['%', hex_digit(b / 16), hex_digit(b % 16)]
        }
    }
}

/// Relies on urlencoding::encode: every byte of the UTF-8 text
/// percent-encoded with upper-case digits, but ASCII alphanumerics and
/// `-`, `_`, `.`, `~`, which are kept.
#[verifier::external_body]
fn url_encode(s: &str) -> (r: String)
    ensures
        r@ == percent_encoded(s.spec_bytes()),
{
    urlencoding::encode(s).into_owned()
}

/// The query text before the first copy of the bounding box.
pub const QUERY_HEAD: &'static str = "\n        [out:xml]\n        [timeout:60]\n        ;\n        (\n            node(";

/// The query text between the first and the second copy of the bounding box.
pub const QUERY_WAYS: &'static str = ");\n            <;\n            >;\n\n            //node(w);\n\n            //way(";

/// The query text between the second and the third copy of the bounding box.
pub const QUERY_RELATIONS: &'static str = ");\n            //relation(";

/// The query text after the last copy of the bounding box.
pub const QUERY_TAIL: &'static str = ");\n\n            // select children\n            //node(r);\n            //<;\n            //way(r);\n        );\n        out body;\n    ";

/// The map query for the bounding box `bbox`, written `south,west,north,east`:
/// every node in the box with the ways and relations around them (the
/// query's commented lines name the box too).
pub fn overpass_query(bbox: &str) -> (r: String)
    ensures
        r@ == QUERY_HEAD@ + bbox@ + QUERY_WAYS@ + bbox@ + QUERY_RELATIONS@ + bbox@ + QUERY_TAIL@,
{
    let head = QUERY_HEAD.to_owned();
    head.concat(bbox).concat(QUERY_WAYS).concat(bbox).concat(QUERY_RELATIONS).concat(bbox).concat(
        QUERY_TAIL,
    )
}

/// The form body that carries `query`: `data=` and the URL-encoded query.
pub fn query_body(query: &str) -> (r: String)
    ensures
        r@ == "data="@ + percent_encoded(query.spec_bytes()),
{
    let encoded = url_encode(query);
    "data=".to_owned().concat(encoded.as_str())
}

} // verus!
