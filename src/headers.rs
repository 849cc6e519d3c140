use vstd::prelude::*;
use vstd::string::*;

verus! {

/// The characters of `s`.
pub fn str_chars(s: &str) -> (r: Vec<char>)
    ensures
        r@ == s@,
{
    let n = s.unicode_len();
    let mut r: Vec<char> = Vec::new();
    let mut i: usize = 0;
    while i < n
        invariant
            n == s@.len(),
            i <= n,
            r@ == s@.take(i as int),
        decreases n - i,
    {
        r.push(s.get_char(i));
        assert(s@.take(i + 1) == s@.take(i as int).push(s@[i as int]));
        i += 1;
    }
    assert(s@.take(n as int) == s@);
    r
}

/// Two characters are equal but for the case of an ASCII letter.
pub open spec fn same_letter(a: char, b: char) -> bool {
    let x = a as u32;
    let y = b as u32;
    x == y || (65 <= x <= 90 && x + 32 == y) || (65 <= y <= 90 && y + 32 == x)
}

/// Two header names are equal, ignoring the case of ASCII letters.
pub open spec fn names_match(a: Seq<char>, b: Seq<char>) -> bool {
    a.len() == b.len() && forall|i: int| 0 <= i < a.len() ==> same_letter(#[trigger] a[i], b[i])
}

fn same_name(a: &Vec<char>, b: &Vec<char>) -> (r: bool)
    ensures
        r == names_match(a@, b@),
{
    if a.len() != b.len() {
        return false;
    }
    let mut i: usize = 0;
    while i < a.len()
        invariant
            a.len() == b.len(),
            i <= a.len(),
            forall|k: int| 0 <= k < i ==> same_letter(#[trigger] a@[k], b@[k]),
        decreases a.len() - i,
    {
        let x = a[i] as u32;
        let y = b[i] as u32;
        if !(x == y || (65 <= x && x <= 90 && x + 32 == y) || (65 <= y && y <= 90 && y + 32 == x)) {
            return false;
        }
        i += 1;
    }
    true
}

/// One header: its name and, where the value is text, the value.
pub type HeaderEntry = (Vec<char>, Option<Vec<char>>);

/// What an entry holds, as plain sequences.
pub open spec fn entry_value(e: HeaderEntry) -> Option<Seq<char>> {
    match e.1 {
        Some(v) => Some(v@),
        None => None,
    }
}

/// The value of the first entry from `i` on whose name matches `name`:
/// `None` where no entry matches, `Some(None)` where the value is not text.
pub open spec fn find_from(entries: Seq<HeaderEntry>, name: Seq<char>, i: int) -> Option<
    Option<Seq<char>>,
>
    decreases entries.len() - i,
{
    if i < 0 || i >= entries.len() {
        None
    } else if names_match(entries[i].0@, name) {
        Some(entry_value(entries[i]))
    } else {
        find_from(entries, name, i + 1)
    }
}

/// Request headers; names compare without regard to ASCII case, and a later
/// insert of a name replaces its earlier value.
#[derive(Clone, Debug)]
pub struct Headers {
    entries: Vec<HeaderEntry>,
}

impl Headers {
    /// The value under `name`: `None` where absent, `Some(None)` where the
    /// value is not visible ASCII text.
    pub closed spec fn lookup(&self, name: Seq<char>) -> Option<Option<Seq<char>>> {
        find_from(self.entries@, name, 0)
    }

    pub fn new() -> (r: Headers)
        ensures
            forall|n: Seq<char>| #[trigger] r.lookup(n) is None,
    {
        Headers { entries: Vec::new() }
    }

    fn insert_entry(&mut self, name: Vec<char>, value: Option<Vec<char>>)
        ensures
            forall|n: Seq<char>| #[trigger]
                final(self).lookup(n) == if names_match(name@, n) {
                    Some(entry_value((name, value)))
                } else {
                    old(self).lookup(n)
                },
    {
        let ghost before = self.entries@;
        self.entries.insert(0, (name, value));
        assert forall|n: Seq<char>| !names_match(name@, n) implies #[trigger] find_from(
            self.entries@,
            n,
            0,
        ) == find_from(before, n, 0) by {
            lemma_find_shift(before, self.entries@, n, 0);
            assert(find_from(self.entries@, n, 0) == find_from(self.entries@, n, 1));
        }
    }

    /// Sets `name` to the text `value`.
    pub fn insert(&mut self, name: &str, value: &str)
        ensures
            forall|n: Seq<char>| #[trigger]
                final(self).lookup(n) == if names_match(name@, n) {
                    Some(Some(value@))
                } else {
                    old(self).lookup(n)
                },
    {
        let name = str_chars(name);
        let value = str_chars(value);
        self.insert_entry(name, Some(value));
    }

    /// Sets `name` to a value that is not visible ASCII text.
    pub fn insert_non_text(&mut self, name: &str)
        ensures
            forall|n: Seq<char>| #[trigger]
                final(self).lookup(n) == if names_match(name@, n) {
                    Some(None::<Seq<char>>)
                } else {
                    old(self).lookup(n)
                },
    {
        let name = str_chars(name);
        self.insert_entry(name, None);
    }

    /// The value under `name`.
    pub fn get(&self, name: &Vec<char>) -> (r: Option<Option<Vec<char>>>)
        ensures
            match self.lookup(name@) {
                None => r is None,
                Some(None) => r == Some(None::<Vec<char>>),
                Some(Some(v)) => r matches Some(Some(w)) && w@ == v,
            },
    {
        let mut i: usize = 0;
        while i < self.entries.len()
            invariant
                i <= self.entries.len(),
                find_from(self.entries@, name@, 0) == find_from(self.entries@, name@, i as int),
            decreases self.entries.len() - i,
        {
            if same_name(&self.entries[i].0, name) {
                return match &self.entries[i].1 {
                    Some(v) => Some(Some(v.clone())),
                    None => Some(None),
                };
            }
            i += 1;
        }
        None
    }

    /// Whether a value stands under `name`.
    pub fn contains_key(&self, name: &Vec<char>) -> (r: bool)
        ensures
            r == self.lookup(name@) is Some,
    {
        self.get(name).is_some()
    }
}

/// Looking up past a new first entry that does not match finds what the old
/// entries held.
proof fn lemma_find_shift(
    before: Seq<HeaderEntry>,
    after: Seq<HeaderEntry>,
    n: Seq<char>,
    i: int,
)
    requires
        after.len() == before.len() + 1,
        forall|k: int| 0 <= k < before.len() ==> after[k + 1] == before[k],
        !names_match(after[0].0@, n),
        0 <= i <= before.len(),
    ensures
        find_from(after, n, i + 1) == find_from(before, n, i),
    decreases before.len() - i,
{
    if i < before.len() {
        lemma_find_shift(before, after, n, i + 1);
    }
}

} // verus!
