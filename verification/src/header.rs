//! Header entries and the filter that is applied to them on the way upstream.

use vstd::prelude::*;
use vstd::string::*;

verus! {

/// One entry of a header list: a name and the bytes of its value.
///
/// A list of them keeps its order and may hold a name more than once.
#[derive(Debug, PartialEq, Eq)]
pub struct Header {
    pub name: String,
    pub value: Vec<u8>,
}

/// What a [`Header`] stands for: the characters of its name and the bytes of its value.
pub struct HeaderView {
    pub name: Seq<char>,
    pub value: Seq<u8>,
}

impl View for Header {
    type V = HeaderView;

    open spec fn view(&self) -> HeaderView {
        HeaderView { name: self.name@, value: self.value@ }
    }
}

/// The entries of a header list, in order.
pub open spec fn header_views(headers: Seq<Header>) -> Seq<HeaderView> {
    headers.map_values(|h: Header| h@)
}

/// A name is that of the host header when it reads `host` in any mix of upper and lower case.
pub open spec fn names_host(name: Seq<char>) -> bool {
    &&& name.len() == 4
    &&& (name[0] == 'h' || name[0] == 'H')
    &&& (name[1] == 'o' || name[1] == 'O')
    &&& (name[2] == 's' || name[2] == 'S')
    &&& (name[3] == 't' || name[3] == 'T')
}

/// The entries that are sent upstream: all but the host entries, in their order.
pub open spec fn forwarded(headers: Seq<HeaderView>) -> Seq<HeaderView> {
    headers.filter(|h: HeaderView| !names_host(h.name))
}

/// Tells whether `name` is the name of the host header, whatever its case.
pub fn is_host(name: &str) -> (host: bool)
    ensures
        host == names_host(name@),
{
    if name.unicode_len() != 4 {
        return false;
    }
    let c0 = name.get_char(0);
    let c1 = name.get_char(1);
    let c2 = name.get_char(2);
    let c3 = name.get_char(3);
    (c0 == 'h' || c0 == 'H') && (c1 == 'o' || c1 == 'O') && (c2 == 's' || c2 == 'S') && (c3 == 't'
        || c3 == 'T')
}

impl Header {
    /// An entry with the given name and value.
    pub fn new(name: &str, value: &[u8]) -> (header: Header)
        ensures
            header@.name == name@,
            header@.value == value@,
    {
        Header { name: String::from_str(name), value: vstd::slice::slice_to_vec(value) }
    }
}

impl Clone for Header {
    fn clone(&self) -> (copy: Header)
        ensures
            copy@ == self@,
    {
        Header { name: self.name.clone(), value: self.value.clone() }
    }
}

/// Keeping an entry or not, one more entry at a time.
pub proof fn lemma_forwarded_push(headers: Seq<HeaderView>, last: HeaderView)
    ensures
        forwarded(headers.push(last)) == if names_host(last.name) {
            forwarded(headers)
        } else {
            forwarded(headers).push(last)
        },
{
    reveal(Seq::filter);
    assert(headers.push(last).drop_last() == headers);
}

/// The header list of an outbound request: every entry of `headers` but the host entries,
/// unchanged and in the order in which they came.
pub fn forward_headers(headers: &Vec<Header>) -> (out: Vec<Header>)
    ensures
        header_views(out@) == forwarded(header_views(headers@)),
{
    let mut out: Vec<Header> = Vec::new();
    let mut i: usize = 0;
    assert(header_views(headers@).take(0) == Seq::<HeaderView>::empty());
    while i < headers.len()
        invariant
            i <= headers.len(),
            header_views(out@) == forwarded(header_views(headers@).take(i as int)),
        decreases headers.len() - i,
    {
        let ghost before = out@;
        let ghost seen = header_views(headers@).take(i as int);
        proof {
            lemma_forwarded_push(seen, headers@[i as int]@);
            assert(header_views(headers@).take(i + 1) == seen.push(headers@[i as int]@));
        }
        if !is_host(headers[i].name.as_str()) {
            let entry = headers[i].clone();
            out.push(entry);
            assert(header_views(out@) == header_views(before).push(entry@));
        }
        i += 1;
    }
    assert(header_views(headers@).take(headers.len() as int) == header_views(headers@));
    out
}

} // verus!
