//! A minimal model of a request's header map: an ordered list of entries,
//! each a name with one or more byte-string values. Header names compare
//! case-insensitively in the ASCII range, as HTTP header names do; values
//! are raw byte strings, since a peer may send bytes that are not text.

use vstd::prelude::*;
use vstd::string::StrSliceExecFns;

verus! {

/// One header entry: a name and the values sent under it, in order.
pub struct HeaderEntry {
    pub name: String,
    pub values: Vec<Vec<u8>>,
}

/// The mathematical model of a header entry.
#[verifier::ext_equal]
pub ghost struct HeaderEntryV {
    pub name: Seq<char>,
    pub values: Seq<Seq<u8>>,
}

impl View for HeaderEntry {
    type V = HeaderEntryV;

    open spec fn view(&self) -> HeaderEntryV {
        HeaderEntryV {
            name: self.name@,
            values: Seq::new(self.values@.len(), |i: int| self.values@[i]@),
        }
    }
}

/// ASCII lowercase of a code point: the letters `A`..`Z` map onto `a`..`z`,
/// every other code point is left as it is.
pub open spec fn lower_cp(cp: u32) -> u32 {
    if 0x41 <= cp && cp <= 0x5a {
        (cp + 0x20) as u32
    } else {
        cp
    }
}

/// Header-name equality: equal length and equal characters after ASCII
/// lowercasing of each.
pub open spec fn name_eq(a: Seq<char>, b: Seq<char>) -> bool {
    a.len() == b.len() && forall|i: int|
        #![trigger a[i]]
        0 <= i < a.len() ==> lower_cp(a[i] as u32) == lower_cp(b[i] as u32)
}

/// The first value recorded under `name`: the first value of the first
/// entry whose name matches case-insensitively and that has a value at all.
pub open spec fn first_value(hs: Seq<HeaderEntryV>, name: Seq<char>) -> Option<Seq<u8>>
    decreases hs.len(),
{
    if hs.len() == 0 {
        None
    } else if name_eq(hs[0].name, name) && hs[0].values.len() > 0 {
        Some(hs[0].values[0])
    } else {
        first_value(hs.drop_first(), name)
    }
}

/// ASCII lowercase of one character's code point.
fn lower_char_cp(c: char) -> (r: u32)
    ensures
        r == lower_cp(c as u32),
{
    let cp: u32 = c as u32;
    if 0x41 <= cp && cp <= 0x5a {
        cp + 0x20
    } else {
        cp
    }
}

/// Whether two header names are equal up to ASCII case.
pub fn names_equal_ci(a: &str, b: &str) -> (r: bool)
    ensures
        r == name_eq(a@, b@),
{
    let alen: usize = a.unicode_len();
    let blen: usize = b.unicode_len();
    if alen != blen {
        return false;
    }
    let mut i: usize = 0;
    while i < alen
        invariant
            alen == a@.len(),
            blen == b@.len(),
            alen == blen,
            0 <= i <= alen,
            forall|j: int| #![trigger a@[j]] 0 <= j < i ==> lower_cp(a@[j] as u32) == lower_cp(b@[j] as u32),
        decreases alen - i,
    {
        let ca: char = a.get_char(i);
        let cb: char = b.get_char(i);
        if lower_char_cp(ca) != lower_char_cp(cb) {
            return false;
        }
        i = i + 1;
    }
    true
}

/// A request's headers, in the order they arrived.
pub struct Headers {
    pub entries: Vec<HeaderEntry>,
}

impl View for Headers {
    type V = Seq<HeaderEntryV>;

    open spec fn view(&self) -> Seq<HeaderEntryV> {
        Seq::new(self.entries@.len(), |i: int| self.entries@[i]@)
    }
}

impl Headers {
    /// An empty header map.
    pub fn new() -> (r: Headers)
        ensures
            r@ == Seq::<HeaderEntryV>::empty(),
    {
        let r = Headers { entries: Vec::new() };
        proof {
            assert(r@ =~= Seq::<HeaderEntryV>::empty());
        }
        r
    }

    /// Records one more value under `name`, as a new entry at the end.
    pub fn add(&mut self, name: &str, value: Vec<u8>)
        ensures
            final(self)@ == old(self)@.push(HeaderEntryV { name: name@, values: seq![value@] }),
    {
        let ghost gvalue = value@;
        let mut vs: Vec<Vec<u8>> = Vec::new();
        vs.push(value);
        let entry = HeaderEntry { name: name.to_owned(), values: vs };
        self.entries.push(entry);
        proof {
            assert(entry@.values =~= seq![gvalue]);
            assert(self@ =~~= old(self)@.push(HeaderEntryV { name: name@, values: seq![gvalue] }));
        }
    }

    /// The first value sent under `name`, compared case-insensitively,
    /// or `None` when no entry carries a value under that name.
    pub fn get_first<'a>(&'a self, name: &str) -> (r: Option<&'a Vec<u8>>)
        ensures
            match r {
                Some(v) => first_value(self@, name@) == Some(v@),
                None => first_value(self@, name@) is None,
            },
    {
        let mut i: usize = 0;
        proof {
            assert(self@.skip(0) =~= self@);
        }
        while i < self.entries.len()
            invariant
                0 <= i <= self.entries.len(),
                first_value(self@, name@) == first_value(self@.skip(i as int), name@),
            decreases self.entries.len() - i,
        {
            let e = &self.entries[i];
            proof {
                assert(self@.skip(i as int)[0] == self@[i as int]);
            }
            if names_equal_ci(e.name.as_str(), name) && e.values.len() > 0 {
                return Some(&e.values[0]);
            }
            proof {
                assert(self@.skip(i as int).drop_first() =~= self@.skip(i as int + 1));
            }
            i = i + 1;
        }
        proof {
            assert(self@.skip(i as int).len() == 0);
        }
        None
    }
}

} // verus!
