//! What a handler reads of a request: header fields in arrival order.
use vstd::prelude::*;

use crate::ip::IpAddress;

verus! {

/// One header field as received. `name` is lower case; `value` is `None` when
/// the raw bytes are not visible text; `ip` holds the value, trimmed of
/// surrounding whitespace, read as an IP address, when it reads as one.
#[derive(Clone, Debug)]
pub struct HeaderField {
    pub name: String,
    pub value: Option<String>,
    pub ip: Option<IpAddress>,
}

/// `i` is the first position of a field named `name`.
pub open spec fn is_first_named(fields: Seq<HeaderField>, name: Seq<char>, i: int) -> bool {
    &&& 0 <= i < fields.len()
    &&& fields[i].name@ == name
    &&& forall|j: int| 0 <= j < i ==> fields[j].name@ != name
}

/// The first field named `name`, if any.
pub open spec fn header_lookup(fields: Seq<HeaderField>, name: Seq<char>) -> Option<HeaderField> {
    if exists|i: int| is_first_named(fields, name, i) {
        Some(fields[choose|i: int| is_first_named(fields, name, i)])
    } else {
        None
    }
}

/// The visible-text value of the first field named `name`, if there is one.
pub open spec fn header_text(fields: Seq<HeaderField>, name: Seq<char>) -> Option<Seq<char>> {
    match header_lookup(fields, name) {
        Some(f) => match f.value {
            Some(v) => Some(v@),
            None => None,
        },
        None => None,
    }
}

impl HeaderField {
    pub fn new(name: String, value: Option<String>, ip: Option<IpAddress>) -> (r: HeaderField)
        ensures
            r.name == name,
            r.value == value,
            r.ip == ip,
    {
        HeaderField { name, value, ip }
    }
}

/// Whether two strings hold the same characters.
pub fn str_equal(a: &str, b: &str) -> (r: bool)
    ensures
        r == (a@ == b@),
{
    let n = a.unicode_len();
    if n != b.unicode_len() {
        return false;
    }
    let mut i: usize = 0;
    while i < n
        invariant
            n == a@.len() == b@.len(),
            i <= n,
            forall|k: int| 0 <= k < i ==> a@[k] == b@[k],
        decreases n - i,
    {
        if a.get_char(i) != b.get_char(i) {
            return false;
        }
        i = i + 1;
    }
    assert(a@ =~= b@);
    true
}

/// The first field named `name`, if any.
pub fn find_header<'a>(fields: &'a Vec<HeaderField>, name: &str) -> (r: Option<&'a HeaderField>)
    ensures
        r matches Some(f) ==> header_lookup(fields@, name@) == Some(*f),
        r is None ==> header_lookup(fields@, name@) is None,
{
    let mut i: usize = 0;
    while i < fields.len()
        invariant
            i <= fields@.len(),
            forall|j: int| 0 <= j < i ==> fields@[j].name@ != name@,
        decreases fields.len() - i,
    {
        if str_equal(fields[i].name.as_str(), name) {
            proof {
                assert(is_first_named(fields@, name@, i as int));
                let c = choose|c: int| is_first_named(fields@, name@, c);
                assert(c == i) by {
                    if c < i {
                    } else if c > i {
                        assert(fields@[i as int].name@ != name@);
                    }
                }
            }
            return Some(&fields[i]);
        }
        i = i + 1;
    }
    None
}

/// The visible-text value of the first field named `name`, if there is one.
pub fn header_value<'a>(fields: &'a Vec<HeaderField>, name: &str) -> (r: Option<&'a String>)
    ensures
        r matches Some(v) ==> header_text(fields@, name@) == Some(v@),
        r is None ==> header_text(fields@, name@) is None,
{
    match find_header(fields, name) {
        Some(f) => match &f.value {
            Some(v) => Some(v),
            None => None,
        },
        None => None,
    }
}

/// Two different fields are named `name`.
pub open spec fn is_repeated(fields: Seq<HeaderField>, name: Seq<char>) -> bool {
    exists|i: int, j: int|
        0 <= i < j < fields.len() && fields[i].name@ == name && fields[j].name@ == name
}

/// Whether two different fields are named `name`.
pub fn repeated_header(fields: &Vec<HeaderField>, name: &str) -> (r: bool)
    ensures
        r == is_repeated(fields@, name@),
{
    let mut first: Option<usize> = None;
    let mut k: usize = 0;
    while k < fields.len()
        invariant
            k <= fields@.len(),
            first is None ==> forall|j: int| 0 <= j < k ==> fields@[j].name@ != name@,
            first matches Some(f) ==> f < k && fields@[f as int].name@ == name@,
            first matches Some(f) ==> forall|j: int|
                0 <= j < k && fields@[j].name@ == name@ ==> j == f,
        decreases fields.len() - k,
    {
        if str_equal(fields[k].name.as_str(), name) {
            match first {
                Some(f) => {
                    assert(fields@[f as int].name@ == name@ && fields@[k as int].name@ == name@);
                    return true;
                },
                None => {
                    first = Some(k);
                },
            }
        }
        k = k + 1;
    }
    proof {
        assert forall|i: int, j: int|
            0 <= i < j < fields@.len() && fields@[i].name@ == name@ implies fields@[j].name@
            != name@ by {
            if fields@[j].name@ == name@ {
                assert(first is Some);
            }
        }
    }
    false
}

} // verus!
