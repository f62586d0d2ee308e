use vstd::prelude::*;
use vstd::string::StringExecFns;

verus! {

/// One header field: a name and a value.
pub struct Header {
    pub name: String,
    pub value: String,
}

/// A header field as a pair of texts.
pub type HeaderView = (Seq<char>, Seq<char>);

impl View for Header {
    type V = HeaderView;

    open spec fn view(&self) -> HeaderView {
        (self.name@, self.value@)
    }
}

/// A header list as a sequence of pairs of texts.
pub open spec fn headers_view(hs: Seq<Header>) -> Seq<HeaderView> {
    hs.map_values(|h: Header| h@)
}

impl Header {
    pub fn new(name: &str, value: &str) -> (r: Header)
        ensures
            r@ == (name@, value@),
    {
        Header { name: String::from_str(name), value: String::from_str(value) }
    }

    pub fn clone_header(&self) -> (r: Header)
        ensures
            r@ == self@,
    {
        Header { name: self.name.clone(), value: self.value.clone() }
    }
}

/// Copies a header list field by field.
pub fn clone_headers(hs: &Vec<Header>) -> (r: Vec<Header>)
    ensures
        headers_view(r@) == headers_view(hs@),
{
    let mut r: Vec<Header> = Vec::new();
    let mut i: usize = 0;
    while i < hs.len()
        invariant
            i <= hs@.len(),
            r@.len() == i,
            forall|j: int| 0 <= j < i ==> (#[trigger] r@[j])@ == hs@[j]@,
        decreases hs@.len() - i,
    {
        r.push(hs[i].clone_header());
        i = i + 1;
    }
    assert(headers_view(r@) =~= headers_view(hs@));
    r
}

/// The index of the first header whose name is `name`, if any.
pub open spec fn find_header(hs: Seq<HeaderView>, name: Seq<char>) -> Option<int> {
    if exists|i: int| 0 <= i < hs.len() && (#[trigger] hs[i]).0 == name {
        let i = choose|i: int|
            0 <= i < hs.len() && (#[trigger] hs[i]).0 == name && forall|j: int|
                0 <= j < i ==> (#[trigger] hs[j]).0 != name;
        Some(i)
    } else {
        None
    }
}

/// The value of the first header whose name is `name`, if any.
pub open spec fn header_value(hs: Seq<HeaderView>, name: Seq<char>) -> Option<Seq<char>> {
    match find_header(hs, name) {
        Some(i) => Some(hs[i].1),
        None => None,
    }
}

/// Looks up the first header whose name is `name`.
pub fn find_header_index(hs: &Vec<Header>, name: &str) -> (r: Option<usize>)
    ensures
        r matches Some(i) ==> find_header(headers_view(hs@), name@) == Some(i as int) && i
            < hs@.len() && header_value(headers_view(hs@), name@) == Some(hs@[i as int].value@),
        r is None ==> find_header(headers_view(hs@), name@) is None && header_value(
            headers_view(hs@),
            name@,
        ) is None,
{
    let target = String::from_str(name);
    let ghost v = headers_view(hs@);
    let mut i: usize = 0;
    while i < hs.len()
        invariant
            i <= hs@.len(),
            v == headers_view(hs@),
            target@ == name@,
            forall|j: int| 0 <= j < i ==> (#[trigger] v[j]).0 != name@,
        decreases hs@.len() - i,
    {
        if hs[i].name == target {
            proof {
                assert(v[i as int].0 == name@);
                let k = choose|k: int|
                    0 <= k < v.len() && (#[trigger] v[k]).0 == name@ && forall|j: int|
                        0 <= j < k ==> (#[trigger] v[j]).0 != name@;
                if k < i {
                    assert(v[k].0 != name@);
                }
                if k > i {
                    assert(v[i as int].0 != name@);
                }
            }
            return Some(i);
        }
        i = i + 1;
    }
    None
}

} // verus!
