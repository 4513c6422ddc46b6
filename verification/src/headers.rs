//! Custom response headers: each is given as one text, `name: value`.
//!
//! A text is a header where it holds exactly one colon and something other
//! than white space on both sides of it. Any other text is no header: it is
//! left out, and the rest are kept in the order given.

use crate::text::{chars_of, trim, trimmed};
use vstd::prelude::*;
use vstd::string::StrSliceExecFns;
use vstd::string::StringExecFns;

verus! {

/// Whether the character at `i` is the only colon of `raw`.
pub open spec fn splits_at(raw: Seq<char>, i: int) -> bool {
    &&& 0 <= i < raw.len()
    &&& raw[i] == ':'
    &&& forall|j: int| 0 <= j < raw.len() && j != i ==> #[trigger] raw[j] != ':'
}

/// The name and the value that `raw` gives, if it is a header: the text
/// before and the text after its only colon, each without the white space
/// around it, and neither of them empty.
pub open spec fn header_pair(raw: Seq<char>) -> Option<(Seq<char>, Seq<char>)> {
    if exists|i: int| splits_at(raw, i) {
        let i = choose|i: int| splits_at(raw, i);
        let name = trimmed(raw.take(i));
        let value = trimmed(raw.skip(i + 1));
        if name.len() > 0 && value.len() > 0 {
            Some((name, value))
        } else {
            None
        }
    } else {
        None
    }
}

/// The test that picks the headers out of the texts given.
pub open spec fn is_header() -> spec_fn(Seq<char>) -> bool {
    |raw: Seq<char>| header_pair(raw) is Some
}

/// The test that picks out the texts that are no header.
pub open spec fn is_no_header() -> spec_fn(Seq<char>) -> bool {
    |raw: Seq<char>| header_pair(raw) is None
}

/// The headers among `raw`, in the order given.
pub open spec fn parsed_headers(raw: Seq<Seq<char>>) -> Seq<(Seq<char>, Seq<char>)> {
    raw.filter(is_header()).map_values(|entry: Seq<char>| header_pair(entry).unwrap())
}

/// The texts among `raw` that are no header, in the order given.
pub open spec fn rejected_headers(raw: Seq<Seq<char>>) -> Seq<Seq<char>> {
    raw.filter(is_no_header())
}

/// The warning about `raw`, a text that is no header.
pub open spec fn header_warning(raw: Seq<char>) -> Seq<char> {
    "Invalid header: "@ + raw
}

/// The warnings that `raw` gives rise to: one for each text that is no
/// header, in the order given.
pub open spec fn header_warnings(raw: Seq<Seq<char>>) -> Seq<Seq<char>> {
    rejected_headers(raw).map_values(|entry: Seq<char>| header_warning(entry))
}

/// One more text adds its header behind those of the texts before it, or
/// nothing.
pub proof fn lemma_parsed_headers_push(raw: Seq<Seq<char>>, entry: Seq<char>)
    ensures
        parsed_headers(raw.push(entry)) == match header_pair(entry) {
            Some(pair) => parsed_headers(raw).push(pair),
            None => parsed_headers(raw),
        },
{
    reveal(Seq::filter);
    assert(raw.push(entry).drop_last() == raw);
}

/// One more text adds its warning behind those of the texts before it, or
/// nothing.
pub proof fn lemma_header_warnings_push(raw: Seq<Seq<char>>, entry: Seq<char>)
    ensures
        header_warnings(raw.push(entry)) == match header_pair(entry) {
            Some(_) => header_warnings(raw),
            None => header_warnings(raw).push(header_warning(entry)),
        },
{
    reveal(Seq::filter);
    assert(raw.push(entry).drop_last() == raw);
}

/// Every text given is read as a header or warned about, never both.
pub proof fn lemma_headers_partition(raw: Seq<Seq<char>>)
    ensures
        parsed_headers(raw).len() + header_warnings(raw).len() == raw.len(),
    decreases raw.len(),
{
    reveal(Seq::filter);
    if raw.len() > 0 {
        lemma_headers_partition(raw.drop_last());
    }
}

/// Every header read has a name and a value: neither is empty.
pub proof fn lemma_parsed_headers_nonempty(raw: Seq<Seq<char>>)
    ensures
        forall|i: int|
            0 <= i < parsed_headers(raw).len() ==> {
                &&& (#[trigger] parsed_headers(raw)[i]).0.len() > 0
                &&& parsed_headers(raw)[i].1.len() > 0
            },
{
    assert forall|i: int| 0 <= i < parsed_headers(raw).len() implies {
        &&& (#[trigger] parsed_headers(raw)[i]).0.len() > 0
        &&& parsed_headers(raw)[i].1.len() > 0
    } by {
        raw.lemma_filter_pred(is_header(), i);
    }
}

/// Reads one header from its text.
pub fn parse_header(raw: &str) -> (pair: Option<(String, String)>)
    ensures
        pair.deep_view() == header_pair(raw@),
{
    let chars = chars_of(raw);
    let n: usize = chars.len();
    let mut colon: usize = 0;
    while colon < n && chars[colon] != ':'
        invariant
            n == chars@.len(),
            colon <= n,
            forall|j: int| 0 <= j < colon ==> #[trigger] chars@[j] != ':',
        decreases n - colon,
    {
        colon += 1;
    }
    if colon == n {
        // no colon
        return None;
    }
    let mut next: usize = colon + 1;
    while next < n && chars[next] != ':'
        invariant
            n == chars@.len(),
            colon < next <= n,
            forall|j: int| colon < j < next ==> #[trigger] chars@[j] != ':',
        decreases n - next,
    {
        next += 1;
    }
    if next < n {
        // a second colon
        return None;
    }
    assert(splits_at(raw@, colon as int));
    let name = trim(raw.substring_char(0, colon));
    let value = trim(raw.substring_char(colon + 1, n));
    if name.is_empty() || value.is_empty() {
        None
    } else {
        Some((name.to_owned(), value.to_owned()))
    }
}

/// Reads the headers from the texts given: those that are headers, in the
/// order given.
pub fn parse_headers(raw: &Vec<String>) -> (headers: Vec<(String, String)>)
    ensures
        headers.deep_view() == parsed_headers(raw.deep_view()),
{
    let ghost all = raw.deep_view();
    let n: usize = raw.len();
    let mut headers: Vec<(String, String)> = Vec::new();
    let mut i: usize = 0;
    while i < n
        invariant
            n == raw@.len(),
            all == raw.deep_view(),
            i <= n,
            headers.deep_view() == parsed_headers(all.take(i as int)),
        decreases n - i,
    {
        proof {
            assert(all.take(i + 1) == all.take(i as int).push(raw@[i as int]@));
            lemma_parsed_headers_push(all.take(i as int), raw@[i as int]@);
        }
        match parse_header(raw[i].as_str()) {
            Some(pair) => {
                headers.push(pair);
            },
            None => {},
        }
        i += 1;
    }
    assert(all.take(n as int) == all);
    headers
}

/// The warnings about the texts given: one for each text that is no header,
/// in the order given.
pub fn invalid_header_warnings(raw: &Vec<String>) -> (warnings: Vec<String>)
    ensures
        warnings.deep_view() == header_warnings(raw.deep_view()),
{
    let ghost all = raw.deep_view();
    let n: usize = raw.len();
    let mut warnings: Vec<String> = Vec::new();
    let mut i: usize = 0;
    while i < n
        invariant
            n == raw@.len(),
            all == raw.deep_view(),
            i <= n,
            warnings.deep_view() == header_warnings(all.take(i as int)),
        decreases n - i,
    {
        proof {
            assert(all.take(i + 1) == all.take(i as int).push(raw@[i as int]@));
            lemma_header_warnings_push(all.take(i as int), raw@[i as int]@);
        }
        if parse_header(raw[i].as_str()).is_none() {
            let warning = String::from_str("Invalid header: ").concat(raw[i].as_str());
            warnings.push(warning);
        }
        i += 1;
    }
    assert(all.take(n as int) == all);
    warnings
}

} // verus!
