//! Header collections and the checks that a received message's headers must pass.

use vstd::prelude::*;
use crate::error::{invalid_value, missing_value, MessageFormatError, ValueSource};
use crate::text::{self, is_digit, trim, is_space, parses_as_unsigned, unsigned_value};

verus! {

/// Header names and values as character sequences, in order.
pub type HeaderSeq = Seq<(Seq<char>, Seq<char>)>;

/// A collection of headers keyed by name, in the order in which names were first added.
#[derive(Debug)]
pub struct Headers {
    pub entries: Vec<(String, String)>,
}

pub open spec fn has_key(s: HeaderSeq, k: Seq<char>) -> bool {
    exists|i: int| 0 <= i < s.len() && (#[trigger] s[i]).0 == k
}

pub open spec fn key_index(s: HeaderSeq, k: Seq<char>) -> int {
    choose|i: int| 0 <= i < s.len() && (#[trigger] s[i]).0 == k
}

/// The value held under `k`, if any.
pub open spec fn lookup(s: HeaderSeq, k: Seq<char>) -> Option<Seq<char>> {
    if has_key(s, k) {
        Some(s[key_index(s, k)].1)
    } else {
        None
    }
}

/// `s` with `k` set to `v`: an existing entry keeps its place, a new one goes last.
pub open spec fn insert(s: HeaderSeq, k: Seq<char>, v: Seq<char>) -> HeaderSeq {
    if has_key(s, k) {
        s.update(key_index(s, k), (k, v))
    } else {
        s.push((k, v))
    }
}

pub open spec fn unique_keys(s: HeaderSeq) -> bool {
    forall|i: int, j: int| 0 <= i < j < s.len() ==> (#[trigger] s[i]).0 != (#[trigger] s[j]).0
}

pub open spec fn entry_view(e: (String, String)) -> (Seq<char>, Seq<char>) {
    (e.0@, e.1@)
}

impl View for Headers {
    type V = HeaderSeq;

    open spec fn view(&self) -> HeaderSeq {
        self.entries@.map_values(|e: (String, String)| entry_view(e))
    }
}

pub proof fn lemma_insert_unique(s: HeaderSeq, k: Seq<char>, v: Seq<char>)
    requires
        unique_keys(s),
    ensures
        unique_keys(insert(s, k, v)),
        lookup(insert(s, k, v), k) == Some(v),
        forall|k2: Seq<char>| k2 != k ==> lookup(insert(s, k, v), k2) == lookup(s, k2),
{
    let t = insert(s, k, v);
    if has_key(s, k) {
        let i = key_index(s, k);
        assert(t[i].0 == k);
    } else {
        assert(t[s.len() as int].0 == k);
    }
    assert forall|k2: Seq<char>| k2 != k implies lookup(t, k2) == lookup(s, k2) by {
        if has_key(s, k2) {
            let j = key_index(s, k2);
            assert(t[j].0 == k2);
        }
        if has_key(t, k2) {
            let j = key_index(t, k2);
            assert(s[j].0 == k2);
        }
    }
}

impl Headers {
    pub open spec fn wf(&self) -> bool {
        unique_keys(self@)
    }

    pub fn new() -> (r: Headers)
        ensures
            r@ == Seq::<(Seq<char>, Seq<char>)>::empty(),
            r.wf(),
    {
        Headers { entries: Vec::new() }
    }

    pub fn len(&self) -> (r: usize)
        ensures
            r == self@.len(),
    {
        self.entries.len()
    }

    /// The position of `name`, if present.
    fn position(&self, name: &String) -> (r: Option<usize>)
        ensures
            r is None ==> !has_key(self@, name@),
            r matches Some(i) ==> i < self@.len() && self@[i as int].0 == name@,
    {
        let mut i: usize = 0;
        while i < self.entries.len()
            invariant
                i <= self.entries@.len(),
                forall|j: int| 0 <= j < i ==> (#[trigger] self@[j]).0 != name@,
            decreases self.entries.len() - i,
        {
            assert(self@[i as int] == entry_view(self.entries@[i as int]));
            if self.entries[i].0 == *name {
                return Some(i);
            }
            i = i + 1;
        }
        None
    }

    /// The value held under `name`, if any.
    pub fn get(&self, name: &str) -> (r: Option<&String>)
        requires
            self.wf(),
        ensures
            r is Some <==> lookup(self@, name@) is Some,
            r matches Some(v) ==> lookup(self@, name@) == Some(v@),
    {
        let key = name.to_string();
        match self.position(&key) {
            None => None,
            Some(i) => {
                assert(self@[key_index(self@, name@)].0 == name@);
                assert(self@[i as int] == entry_view(self.entries@[i as int]));
                Some(&self.entries[i].1)
            },
        }
    }

    /// Whether a value is held under `name`.
    pub fn contains_key(&self, name: &str) -> (r: bool)
        ensures
            r == has_key(self@, name@),
    {
        let key = name.to_string();
        self.position(&key).is_some()
    }

    /// Sets `name` to `value`, replacing any value already held under it.
    pub fn insert(&mut self, name: String, value: String)
        requires
            old(self).wf(),
        ensures
            final(self).wf(),
            final(self)@ == insert(old(self)@, name@, value@),
    {
        proof { lemma_insert_unique(self@, name@, value@); }
        match self.position(&name) {
            Some(i) => {
                proof {
                    assert(key_index(self@, name@) == i as int);
                }
                self.entries.set(i, (name, value));
                assert(self@ =~= insert(old(self)@, name@, value@));
            },
            None => {
                self.entries.push((name, value));
                assert(self@ =~= insert(old(self)@, name@, value@));
            },
        }
    }
}

} // verus!

verus! {

/// The names of `required` that `h` does not hold, in order.
pub open spec fn missing_names(h: HeaderSeq, required: Seq<Seq<char>>) -> Seq<Seq<char>>
    decreases required.len(),
{
    if required.len() == 0 {
        Seq::empty()
    } else {
        let rest = missing_names(h, required.drop_last());
        if has_key(h, required.last()) {
            rest
        } else {
            rest.push(required.last())
        }
    }
}

/// The names joined with `sep` between each two.
pub open spec fn join(names: Seq<Seq<char>>, sep: Seq<char>) -> Seq<char>
    decreases names.len(),
{
    if names.len() == 0 {
        Seq::empty()
    } else if names.len() == 1 {
        names[0]
    } else {
        join(names.drop_last(), sep) + sep + names.last()
    }
}

pub open spec fn str_views(s: Seq<&str>) -> Seq<Seq<char>> {
    s.map_values(|x: &str| x@)
}

/// Succeeds when `headers` holds every name of `required`; otherwise reports all missing
/// names, joined by `, `, as one missing header.
pub fn check_required(headers: &Headers, required: &[&str]) -> (r: Result<(), MessageFormatError>)
    ensures
        r is Ok <==> missing_names(headers@, str_views(required@)).len() == 0,
        r matches Err(e) ==> missing_value(e, ValueSource::Header,
            join(missing_names(headers@, str_views(required@)), seq![',', ' '])),
{
    let ghost names = str_views(required@);
    let mut missing: Vec<char> = Vec::new();
    let mut count: usize = 0;
    let mut i: usize = 0;
    while i < required.len()
        invariant
            i <= required@.len(),
            names == str_views(required@),
            count <= i,
            count == missing_names(headers@, names.subrange(0, i as int)).len(),
            missing@ == join(missing_names(headers@, names.subrange(0, i as int)), seq![',', ' ']),
        decreases required.len() - i,
    {
        let ghost before = names.subrange(0, i as int);
        assert(names.subrange(0, i + 1).drop_last() =~= before);
        assert(names.subrange(0, i + 1).last() == required@[i as int]@);
        let name = required[i];
        if !headers.contains_key(name) {
            if count > 0 {
                missing.push(',');
                missing.push(' ');
            }
            text::push_str(&mut missing, name);
            proof {
                let m = missing_names(headers@, before);
                let m2 = m.push(name@);
                assert(m2.drop_last() =~= m);
                if count == 0 {
                    assert(missing@ =~= join(m2, seq![',', ' ']));
                } else {
                    assert(missing@ =~= join(m2, seq![',', ' ']));
                }
            }
            count = count + 1;
        }
        i = i + 1;
    }
    assert(names.subrange(0, i as int) =~= names);
    if count == 0 {
        Ok(())
    } else {
        Err(MessageFormatError::MissingRequiredValue {
            source: ValueSource::Header,
            name: text::string_from_chars(missing.as_slice()),
        })
    }
}

/// Reads an unsigned number no greater than `max`, reporting an invalid header value
/// otherwise.
pub fn check_parsed_value(header_value: &str, name: &str, max: u64) -> (r: Result<
    u64,
    MessageFormatError,
>)
    ensures
        r is Ok <==> parses_as_unsigned(header_value@, max as nat),
        r matches Ok(v) ==> v as nat == unsigned_value(header_value@),
        r matches Err(e) ==> invalid_value(e, ValueSource::Header, name@, header_value@),
{
    let c = text::chars_of(header_value);
    match text::parse_unsigned(c.as_slice(), max) {
        Some(v) => Ok(v),
        None => Err(crate::error::invalid_header_value(name, header_value)),
    }
}

/// Succeeds when the value is empty or white space only.
pub fn check_empty(header_value: &str, name: &str) -> (r: Result<(), MessageFormatError>)
    ensures
        r is Ok <==> trim(header_value@).len() == 0,
        r matches Err(e) ==> invalid_value(e, ValueSource::Header, name@, header_value@),
{
    let t = text::trimmed(header_value);
    if t.as_str().is_empty() {
        Ok(())
    } else {
        Err(crate::error::invalid_header_value(name, header_value))
    }
}

/// What `check_not_empty` returns.
pub open spec fn not_empty_or(entry: Option<Seq<char>>, default: Seq<char>) -> Seq<char> {
    match entry {
        Some(v) => if trim(v).len() > 0 {
            trim(v)
        } else {
            default
        },
        None => default,
    }
}

/// The trimmed value when it is not empty, else `default`.
pub fn check_not_empty(header_entry: Option<&String>, default: &str) -> (r: String)
    ensures
        r@ == not_empty_or(
            match header_entry {
                Some(v) => Some(v@),
                None => None,
            },
            default@,
        ),
{
    match header_entry {
        Some(v) => {
            let t = text::trimmed(v.as_str());
            if t.as_str().is_empty() {
                default.to_string()
            } else {
                t
            }
        },
        None => default.to_string(),
    }
}

} // verus!
