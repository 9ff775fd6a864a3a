//! The HTTP headers of a webhook delivery, as the checks read them.

use vstd::prelude::*;
use crate::text::{chars_of, ascii_text, all_ascii, ascii_string};

verus! {

/// One header line: its name and its raw value.
pub struct HeaderEntry {
    pub name: String,
    pub value: Vec<u8>,
}

/// The headers of a request, in the order they came in.
pub struct Headers {
    pub entries: Vec<HeaderEntry>,
}

/// Code of a character with ASCII upper case letters folded to lower case.
pub open spec fn folded(c: char) -> int {
    if 'A' <= c && c <= 'Z' {
        (c as u32) + 32
    } else {
        c as u32 as int
    }
}

/// Header names are compared without regard to ASCII case.
pub open spec fn same_name(a: Seq<char>, b: Seq<char>) -> bool {
    a.len() == b.len() && forall|i: int| 0 <= i < a.len() ==> folded(#[trigger] a[i]) == folded(b[i])
}

/// The value of the first header called `name`, if any.
pub open spec fn header_lookup(h: Seq<(Seq<char>, Seq<u8>)>, name: Seq<char>) -> Option<Seq<u8>>
    decreases h.len(),
{
    if h.len() == 0 {
        None
    } else if same_name(h[0].0, name) {
        Some(h[0].1)
    } else {
        header_lookup(h.drop_first(), name)
    }
}

/// A byte that may stand in a header value read as text: visible ASCII or a tab.
pub open spec fn is_visible_ascii(b: u8) -> bool {
    (32 <= b && b < 127) || b == 9
}

/// The text of a header value, when it is all visible ASCII.
pub open spec fn header_text(v: Seq<u8>) -> Option<Seq<char>> {
    if forall|i: int| 0 <= i < v.len() ==> is_visible_ascii(#[trigger] v[i]) {
        Some(ascii_text(v))
    } else {
        None
    }
}

impl View for Headers {
    type V = Seq<(Seq<char>, Seq<u8>)>;

    open spec fn view(&self) -> Seq<(Seq<char>, Seq<u8>)> {
        self.entries@.map_values(|e: HeaderEntry| (e.name@, e.value@))
    }
}

fn same_name_chars(a: &Vec<char>, b: &Vec<char>) -> (res: bool)
    ensures
        res == same_name(a@, b@),
{
    if a.len() != b.len() {
        return false;
    }
    let mut i: usize = 0;
    while i < a.len()
        invariant
            a@.len() == b@.len(),
            i <= a@.len(),
            forall|j: int| 0 <= j < i ==> folded(#[trigger] a@[j]) == folded(b@[j]),
        decreases a@.len() - i,
    {
        let x = a[i];
        let y = b[i];
        let fx: u32 = if 'A' <= x && x <= 'Z' { x as u32 + 32 } else { x as u32 };
        let fy: u32 = if 'A' <= y && y <= 'Z' { y as u32 + 32 } else { y as u32 };
        if fx != fy {
            return false;
        }
        i = i + 1;
    }
    true
}

impl Headers {
    /// No header.
    pub fn new() -> (res: Headers)
        ensures
            res@ == Seq::<(Seq<char>, Seq<u8>)>::empty(),
    {
        let res = Headers { entries: Vec::new() };
        assert(res@ =~= Seq::<(Seq<char>, Seq<u8>)>::empty());
        res
    }

    /// Adds a header after the existing ones.
    pub fn append(&mut self, name: String, value: Vec<u8>)
        ensures
            final(self)@ == old(self)@.push((name@, value@)),
    {
        let ghost nv = name@;
        let ghost vv = value@;
        self.entries.push(HeaderEntry { name, value });
        assert(self@ =~= old(self)@.push((nv, vv)));
    }

    /// The raw value of the first header called `name`, if any.
    pub fn get(&self, name: &str) -> (res: Option<&[u8]>)
        ensures
            match res {
                Some(v) => header_lookup(self@, name@) == Some(v@),
                None => header_lookup(self@, name@) is None,
            },
    {
        let target = chars_of(name);
        let mut i: usize = 0;
        assert(self@.skip(0) =~= self@);
        while i < self.entries.len()
            invariant
                i <= self@.len(),
                self@.len() == self.entries@.len(),
                target@ == name@,
                header_lookup(self@, name@) == header_lookup(self@.skip(i as int), name@),
            decreases self@.len() - i,
        {
            let n = chars_of(self.entries[i].name.as_str());
            assert(self@.skip(i as int)[0] == self@[i as int]);
            if same_name_chars(&n, &target) {
                return Some(self.entries[i].value.as_slice());
            }
            assert(self@.skip(i as int).drop_first() =~= self@.skip(i + 1));
            i = i + 1;
        }
        None
    }

    /// The first header called `name` read as text: `None` when it is
    /// missing, `Some(None)` when its value is not visible ASCII.
    pub fn get_str(&self, name: &str) -> (res: Option<Option<String>>)
        ensures
            match header_lookup(self@, name@) {
                None => res is None,
                Some(v) => res is Some && match header_text(v) {
                    None => res->0 is None,
                    Some(t) => res->0 is Some && res->0->0@ == t,
                },
            },
    {
        match self.get(name) {
            None => None,
            Some(v) => Some(header_value_str(v)),
        }
    }
}

/// A header value as text, when all of its bytes are visible ASCII
/// (what `HeaderValue::to_str` accepts).
pub fn header_value_str(value: &[u8]) -> (res: Option<String>)
    ensures
        match header_text(value@) {
            None => res is None,
            Some(t) => res is Some && res->0@ == t,
        },
{
    let mut i: usize = 0;
    while i < value.len()
        invariant
            i <= value@.len(),
            forall|j: int| 0 <= j < i ==> is_visible_ascii(#[trigger] value@[j]),
        decreases value@.len() - i,
    {
        let b = value[i];
        if !((32 <= b && b < 127) || b == 9) {
            return None;
        }
        i = i + 1;
    }
    assert(all_ascii(value@)) by {
        assert forall|j: int| 0 <= j < value@.len() implies #[trigger] value@[j] < 128 by {
            assert(is_visible_ascii(value@[j]));
        }
    }
    Some(ascii_string(value))
}

} // verus!
