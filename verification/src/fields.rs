//! The header multi-map: names compared without regard to ASCII case,
//! values kept as raw bytes, entries kept in the order they were added.

use vstd::prelude::*;
use vstd::string::*;

verus! {

/// Why a header was refused.
#[derive(Clone, Copy, Debug, PartialEq, Eq)]
pub enum HeaderError {
    /// The name or the value is not well formed.
    InvalidSyntax,
    /// The transport does not allow this header to be set.
    Forbidden,
    /// The header set cannot be changed.
    Immutable,
}

/// One header as contracts see it: its name and its value.
pub type Entry = (Seq<char>, Seq<u8>);

/// Whether `c` may occur in a header name: a letter, a digit, or one of
/// ``! # $ % & ' * + - . ^ _ ` | ~``.
pub open spec fn is_token_char(c: char) -> bool {
    ('a' <= c <= 'z') || ('A' <= c <= 'Z') || ('0' <= c <= '9') || c == '!' || c == '#' || c
        == '$' || c == '%' || c == '&' || c == '\'' || c == '*' || c == '+' || c == '-' || c == '.'
        || c == '^' || c == '_' || c == '`' || c == '|' || c == '~'
}

/// A header name is well formed when it is not empty and holds token
/// characters only.
pub open spec fn valid_name(name: Seq<char>) -> bool {
    name.len() > 0 && forall|i: int| 0 <= i < name.len() ==> is_token_char(#[trigger] name[i])
}

/// Whether `b` may occur in a header value: a tab, or any byte that is not
/// an ASCII control character.
pub open spec fn is_value_byte(b: u8) -> bool {
    b == 9 || (b >= 32 && b != 127)
}

/// A header value is well formed when it holds no control byte but the tab.
pub open spec fn valid_value(value: Seq<u8>) -> bool {
    forall|i: int| 0 <= i < value.len() ==> is_value_byte(#[trigger] value[i])
}

/// `c` with an ASCII capital letter turned into its small letter.
pub open spec fn lower(c: char) -> char {
    if 'A' <= c <= 'Z' {
        ((c as u8) + 32) as char
    } else {
        c
    }
}

/// Whether two names are the same header name: equal up to ASCII case.
pub open spec fn same_name(a: Seq<char>, b: Seq<char>) -> bool {
    a.len() == b.len() && forall|i: int| 0 <= i < a.len() ==> lower(#[trigger] a[i]) == lower(b[i])
}

/// The values stored under `name`, in the order they were added.
pub open spec fn values_of(entries: Seq<Entry>, name: Seq<char>) -> Seq<Seq<u8>>
    decreases entries.len(),
{
    if entries.len() == 0 {
        Seq::empty()
    } else if same_name(entries.last().0, name) {
        values_of(entries.drop_last(), name).push(entries.last().1)
    } else {
        values_of(entries.drop_last(), name)
    }
}

/// The value that was added first under `name`, if there is one.
pub open spec fn first_value(entries: Seq<Entry>, name: Seq<char>) -> Option<Seq<u8>> {
    if values_of(entries, name).len() > 0 {
        Some(values_of(entries, name)[0])
    } else {
        None
    }
}

/// Whether every entry has a well-formed name and value.
pub open spec fn valid_entries(entries: Seq<Entry>) -> bool {
    forall|i: int|
        0 <= i < entries.len() ==> valid_name((#[trigger] entries[i]).0) && valid_value(
            entries[i].1,
        )
}

/// The views of a list of byte strings.
pub open spec fn byte_views(values: Seq<Vec<u8>>) -> Seq<Seq<u8>> {
    values.map_values(|v: Vec<u8>| v@)
}

/// The views of a list of owned entries.
pub open spec fn entry_views(entries: Seq<(String, Vec<u8>)>) -> Seq<Entry> {
    entries.map_values(|e: (String, Vec<u8>)| (e.0@, e.1@))
}

/// A well-formed name is ASCII.
pub proof fn lemma_valid_name_is_ascii(name: Seq<char>)
    requires
        valid_name(name),
    ensures
        vstd::utf8::is_ascii_chars(name),
{
    assert forall|i: int| 0 <= i < name.len() implies '\0' <= #[trigger] name[i] <= '\u{7f}' by {
        assert(is_token_char(name[i]));
    }
}

/// No entry is stored under a name that holds a character outside ASCII.
pub proof fn lemma_no_values_outside_ascii(entries: Seq<Entry>, name: Seq<char>)
    requires
        valid_entries(entries),
        !vstd::utf8::is_ascii_chars(name),
    ensures
        values_of(entries, name) == Seq::<Seq<u8>>::empty(),
    decreases entries.len(),
{
    if entries.len() > 0 {
        let head = entries.drop_last();
        assert forall|i: int| 0 <= i < head.len() implies valid_name((#[trigger] head[i]).0)
            && valid_value(head[i].1) by {
            assert(head[i] == entries[i]);
        }
        lemma_no_values_outside_ascii(head, name);
        let stored = entries.last().0;
        assert(valid_name(stored));
        if same_name(stored, name) {
            let i = choose|i: int| 0 <= i < name.len() && !('\0' <= #[trigger] name[i] <= '\u{7f}');
            assert(is_token_char(stored[i]));
            assert(lower(stored[i]) == lower(name[i]));
            assert(false);
        }
    }
}

/// Adding an entry adds its value to the values of its own name and leaves
/// the values of every other name as they were.
pub proof fn lemma_values_after_push(entries: Seq<Entry>, entry: Entry, name: Seq<char>)
    ensures
        values_of(entries.push(entry), name) == if same_name(entry.0, name) {
            values_of(entries, name).push(entry.1)
        } else {
            values_of(entries, name)
        },
{
    assert(entries.push(entry).drop_last() =~= entries);
}

/// Being the same header name is symmetric and transitive.
pub proof fn lemma_same_name_equivalence(a: Seq<char>, b: Seq<char>, c: Seq<char>)
    ensures
        same_name(a, a),
        same_name(a, b) ==> same_name(b, a),
        same_name(a, b) && same_name(b, c) ==> same_name(a, c),
{
    if same_name(a, b) {
        assert forall|i: int| 0 <= i < b.len() implies lower(#[trigger] b[i]) == lower(a[i]) by {
            assert(lower(a[i]) == lower(b[i]));
        }
        if same_name(b, c) {
            assert forall|i: int| 0 <= i < a.len() implies lower(#[trigger] a[i]) == lower(
                c[i],
            ) by {
                assert(lower(a[i]) == lower(b[i]));
                assert(lower(b[i]) == lower(c[i]));
            }
        }
    }
}

/// Two headers with different names can be added in either order: what is
/// then found under any name is the same.
pub proof fn lemma_append_order(entries: Seq<Entry>, one: Entry, other: Entry, name: Seq<char>)
    requires
        !same_name(one.0, other.0),
    ensures
        values_of(entries.push(one).push(other), name) == values_of(
            entries.push(other).push(one),
            name,
        ),
{
    lemma_values_after_push(entries, one, name);
    lemma_values_after_push(entries.push(one), other, name);
    lemma_values_after_push(entries, other, name);
    lemma_values_after_push(entries.push(other), one, name);
    lemma_same_name_equivalence(one.0, name, other.0);
    lemma_same_name_equivalence(other.0, name, one.0);
}

/// A set of headers.
#[derive(Debug)]
pub struct Fields {
    entries: Vec<(String, Vec<u8>)>,
}

impl View for Fields {
    type V = Seq<Entry>;

    closed spec fn view(&self) -> Seq<Entry> {
        entry_views(self.entries@)
    }
}

fn is_token_byte(b: u8) -> (r: bool)
    requires
        b < 128,
    ensures
        r == is_token_char(b as char),
{
    (b >= 97 && b <= 122) || (b >= 65 && b <= 90) || (b >= 48 && b <= 57) || b == 33 || b == 35
        || b == 36 || b == 37 || b == 38 || b == 39 || b == 42 || b == 43 || b == 45 || b == 46
        || b == 94 || b == 95 || b == 96 || b == 124 || b == 126
}

fn lower_byte(b: u8) -> (r: u8)
    requires
        b < 128,
    ensures
        r < 128,
        r as char == lower(b as char),
{
    if b >= 65 && b <= 90 {
        b + 32
    } else {
        b
    }
}

/// Checks that a header name is well formed.
pub fn check_name(name: &str) -> (r: bool)
    ensures
        r == valid_name(name@),
{
    if !name.is_ascii() {
        proof {
            if valid_name(name@) {
                lemma_valid_name_is_ascii(name@);
            }
        }
        return false;
    }
    let bytes = name.as_bytes();
    proof {
        is_ascii_spec_bytes(name);
    }
    if bytes.len() == 0 {
        return false;
    }
    let mut i: usize = 0;
    while i < bytes.len()
        invariant
            i <= bytes.len(),
            bytes.len() == name@.len(),
            is_ascii(name),
            forall|j: int| 0 <= j < bytes.len() ==> bytes@[j] == name@[j] as u8,
            forall|j: int| 0 <= j < i ==> is_token_char(#[trigger] name@[j]),
        decreases bytes.len() - i,
    {
        let b: u8 = bytes[i];
        assert('\0' <= name@[i as int] <= '\u{7f}');
        assert(b as char == name@[i as int]);
        if !is_token_byte(b) {
            return false;
        }
        i = i + 1;
    }
    true
}

/// Checks that a header value is well formed.
pub fn check_value(value: &[u8]) -> (r: bool)
    ensures
        r == valid_value(value@),
{
    let mut i: usize = 0;
    while i < value.len()
        invariant
            i <= value.len(),
            forall|j: int| 0 <= j < i ==> is_value_byte(#[trigger] value@[j]),
        decreases value.len() - i,
    {
        let b: u8 = value[i];
        if !(b == 9 || (b >= 32 && b != 127)) {
            return false;
        }
        i = i + 1;
    }
    true
}

/// Compares two ASCII names without regard to case.
fn names_match(a: &str, b: &str) -> (r: bool)
    requires
        is_ascii(a),
        is_ascii(b),
    ensures
        r == same_name(a@, b@),
{
    let x = a.as_bytes();
    let y = b.as_bytes();
    proof {
        is_ascii_spec_bytes(a);
        is_ascii_spec_bytes(b);
    }
    if x.len() != y.len() {
        return false;
    }
    let mut i: usize = 0;
    while i < x.len()
        invariant
            i <= x.len(),
            x.len() == y.len(),
            x.len() == a@.len(),
            y.len() == b@.len(),
            is_ascii(a),
            is_ascii(b),
            forall|j: int| 0 <= j < x.len() ==> x@[j] == a@[j] as u8,
            forall|j: int| 0 <= j < y.len() ==> y@[j] == b@[j] as u8,
            forall|j: int| 0 <= j < i ==> lower(#[trigger] a@[j]) == lower(b@[j]),
        decreases x.len() - i,
    {
        assert('\0' <= a@[i as int] <= '\u{7f}');
        assert('\0' <= b@[i as int] <= '\u{7f}');
        assert(x@[i as int] as char == a@[i as int]);
        assert(y@[i as int] as char == b@[i as int]);
        if lower_byte(x[i]) != lower_byte(y[i]) {
            return false;
        }
        i = i + 1;
    }
    true
}

impl Fields {
    /// Every entry has a well-formed name and value.
    #[verifier::type_invariant]
    pub(crate) closed spec fn well_formed(self) -> bool {
        valid_entries(entry_views(self.entries@))
    }

    /// What the invariant says, over the view.
    pub(crate) proof fn lemma_valid(&self)
        requires
            self.well_formed(),
        ensures
            valid_entries(self@),
    {
    }

    /// An empty set of headers.
    pub fn new() -> (r: Self)
        ensures
            r@ == Seq::<Entry>::empty(),
            valid_entries(r@),
    {
        let r = Fields { entries: Vec::new() };
        assert(r@ =~= Seq::<Entry>::empty());
        r
    }

    /// The set that holds `entries` in their order. A list with a malformed
    /// name or value is refused.
    pub fn from_list(entries: Vec<(String, Vec<u8>)>) -> (r: Result<Self, HeaderError>)
        ensures
            valid_entries(entry_views(entries@)) ==> r is Ok && r->Ok_0@ == entry_views(entries@),
            !valid_entries(entry_views(entries@)) ==> r == Err::<Self, HeaderError>(
                HeaderError::InvalidSyntax,
            ),
            r is Ok ==> valid_entries(r->Ok_0@),
    {
        let ghost views = entry_views(entries@);
        let mut i: usize = 0;
        while i < entries.len()
            invariant
                i <= entries.len(),
                views == entry_views(entries@),
                forall|j: int|
                    0 <= j < i ==> valid_name((#[trigger] views[j]).0) && valid_value(views[j].1),
            decreases entries.len() - i,
        {
            let entry = &entries[i];
            assert(views[i as int] == (entry.0@, entry.1@));
            if !check_name(entry.0.as_str()) || !check_value(entry.1.as_slice()) {
                return Err(HeaderError::InvalidSyntax);
            }
            i = i + 1;
        }
        Ok(Fields { entries })
    }

    /// Adds one header after those already present. A malformed name or
    /// value is refused and leaves the set as it was.
    pub fn append(&mut self, name: &str, value: &[u8]) -> (r: Result<(), HeaderError>)
        ensures
            valid_name(name@) && valid_value(value@) ==> r is Ok && final(self)@ == old(self)@.push(
                (name@, value@),
            ),
            !(valid_name(name@) && valid_value(value@)) ==> r == Err::<(), HeaderError>(
                HeaderError::InvalidSyntax,
            ) && final(self)@ == old(self)@,
            valid_entries(final(self)@),
    {
        proof {
            use_type_invariant(&*self);
        }
        if !check_name(name) || !check_value(value) {
            return Err(HeaderError::InvalidSyntax);
        }
        let ghost before = self.entries@;
        let owned_name = name.to_owned();
        let owned_value = vstd::slice::slice_to_vec(value);
        let mut entries: Vec<(String, Vec<u8>)> = Vec::new();
        assert(entry_views(entries@) =~= Seq::<Entry>::empty());
        std::mem::swap(&mut self.entries, &mut entries);
        entries.push((owned_name, owned_value));
        proof {
            let after = entries@;
            assert(entry_views(after) =~= entry_views(before).push((name@, value@)));
        }
        self.entries = entries;
        proof {
            let after = self.entries@;
            assert(entry_views(after) =~= entry_views(before).push((name@, value@)));
        }
        Ok(())
    }

    /// The values stored under `name`, compared without regard to case, in
    /// the order they were added.
    pub fn get(&self, name: &str) -> (r: Vec<Vec<u8>>)
        ensures
            byte_views(r@) == values_of(self@, name@),
    {
        proof {
            use_type_invariant(self);
        }
        let mut found: Vec<Vec<u8>> = Vec::new();
        if !name.is_ascii() {
            proof {
                lemma_no_values_outside_ascii(self@, name@);
                assert(byte_views(found@) =~= Seq::<Seq<u8>>::empty());
            }
            return found;
        }
        let mut i: usize = 0;
        assert(self@.take(0) =~= Seq::<Entry>::empty());
        assert(byte_views(found@) =~= Seq::<Seq<u8>>::empty());
        while i < self.entries.len()
            invariant
                i <= self.entries.len(),
                is_ascii(name),
                valid_entries(self@),
                self@ == entry_views(self.entries@),
                byte_views(found@) == values_of(self@.take(i as int), name@),
            decreases self.entries.len() - i,
        {
            let stored = &self.entries[i];
            proof {
                assert(self@[i as int] == (stored.0@, stored.1@));
                assert(valid_name(self@[i as int].0));
                lemma_valid_name_is_ascii(stored.0@);
                assert(self@.take(i + 1) =~= self@.take(i as int).push(self@[i as int]));
                lemma_values_after_push(self@.take(i as int), self@[i as int], name@);
            }
            if names_match(stored.0.as_str(), name) {
                let ghost before = found@;
                let value = stored.1.clone();
                found.push(value);
                assert(byte_views(found@) =~= byte_views(before).push(stored.1@));
            }
            i = i + 1;
        }
        assert(self@.take(i as int) =~= self@);
        found
    }

    /// The value that was added first under `name`, if there is one.
    pub fn first(&self, name: &str) -> (r: Option<Vec<u8>>)
        ensures
            r is Some <==> first_value(self@, name@) is Some,
            r is Some ==> r->Some_0@ == first_value(self@, name@)->Some_0,
    {
        let mut values = self.get(name);
        if values.len() == 0 {
            None
        } else {
            let value = values.swap_remove(0);
            Some(value)
        }
    }

    /// The number of entries.
    pub fn len(&self) -> (r: usize)
        ensures
            r == self@.len(),
            valid_entries(self@),
    {
        proof {
            use_type_invariant(self);
        }
        self.entries.len()
    }

    /// A copy of every entry, in the order they were added.
    pub fn entries(&self) -> (r: Vec<(String, Vec<u8>)>)
        ensures
            entry_views(r@) == self@,
            valid_entries(self@),
    {
        proof {
            use_type_invariant(self);
        }
        let mut out: Vec<(String, Vec<u8>)> = Vec::new();
        let mut i: usize = 0;
        while i < self.entries.len()
            invariant
                i <= self.entries.len(),
                self@ == entry_views(self.entries@),
                entry_views(out@) =~= self@.take(i as int),
            decreases self.entries.len() - i,
        {
            let stored = &self.entries[i];
            let ghost before = out@;
            out.push((stored.0.clone(), stored.1.clone()));
            proof {
                assert(entry_views(out@) =~= entry_views(before).push((stored.0@, stored.1@)));
                assert(self@.take(i + 1) =~= self@.take(i as int).push(self@[i as int]));
            }
            i = i + 1;
        }
        assert(self@.take(i as int) =~= self@);
        out
    }
}

impl Clone for Fields {
    /// A copy with the same entries in the same order.
    fn clone(&self) -> (r: Self)
        ensures
            r@ == self@,
            valid_entries(r@),
    {
        proof {
            use_type_invariant(self);
        }
        let r = Fields { entries: self.entries() };
        r
    }
}

} // verus!
