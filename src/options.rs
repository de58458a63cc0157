use vstd::prelude::*;
use vstd::string::StrSliceExecFns;

verus! {

/// A number given as an option value.
#[derive(Debug, Clone)]
pub enum Number {
    /// A non-negative integer.
    PosInt(u64),
    /// A signed integer.
    NegInt(i64),
    /// A finite fractional number, held as the literal text it is sent as.
    Float(FiniteNumber),
}

/// A decimal digit.
pub open spec fn is_digit(c: char) -> bool {
    '0' <= c && c <= '9'
}

/// The end of the run of digits that starts at `i`.
pub open spec fn digit_run(s: Seq<char>, i: int) -> int
    decreases s.len() - i,
{
    if 0 <= i < s.len() && is_digit(s[i]) {
        digit_run(s, i + 1)
    } else {
        i
    }
}

/// The text of a finite number in JSON's grammar,
/// `-?(0|[1-9][0-9]*)(\.[0-9]+)?([eE][+-]?[0-9]+)?`: an optional minus, the
/// integer digits (no leading zero), an optional fraction and an optional
/// exponent, and nothing after them. `NaN` and the infinities have no such text.
pub open spec fn is_number_text(s: Seq<char>) -> bool {
    let i0: int = if s.len() > 0 && s[0] == '-' {
        1
    } else {
        0
    };
    let i1 = digit_run(s, i0);
    let has_frac = i1 < s.len() && s[i1] == '.';
    let i2 = if has_frac {
        digit_run(s, i1 + 1)
    } else {
        i1
    };
    let has_exp = i2 < s.len() && (s[i2] == 'e' || s[i2] == 'E');
    let j = if i2 + 1 < s.len() && (s[i2 + 1] == '+' || s[i2 + 1] == '-') {
        i2 + 2
    } else {
        i2 + 1
    };
    let i3 = if has_exp {
        digit_run(s, j)
    } else {
        i2
    };
    &&& i1 > i0
    &&& (s[i0] != '0' || i1 == i0 + 1)
    &&& (has_frac ==> i2 > i1 + 1)
    &&& (has_exp ==> i3 > j)
    &&& i3 == s.len()
}

pub proof fn lemma_digit_run_range(s: Seq<char>, i: int)
    requires
        0 <= i <= s.len(),
    ensures
        i <= digit_run(s, i) <= s.len(),
    decreases s.len() - i,
{
    if i < s.len() && is_digit(s[i]) {
        lemma_digit_run_range(s, i + 1);
    }
}

/// The end of the run of digits of `s` that starts at `i`.
fn scan_digits(s: &str, n: usize, i: usize) -> (r: usize)
    requires
        n == s@.len(),
        i <= n,
    ensures
        r as int == digit_run(s@, i as int),
{
    let mut j = i;
    let mut go = true;
    while go && j < n
        invariant
            n == s@.len(),
            i <= j <= n,
            digit_run(s@, j as int) == digit_run(s@, i as int),
            !go ==> digit_run(s@, j as int) == j,
        decreases n - j + (if go {
            1int
        } else {
            0int
        }),
    {
        let c = s.get_char(j);
        if c >= '0' && c <= '9' {
            j = j + 1;
        } else {
            go = false;
        }
    }
    j
}

/// A finite fractional number, held as its literal text.
#[derive(Debug)]
pub struct FiniteNumber {
    text: String,
}

impl FiniteNumber {
    /// The literal text of the number.
    pub closed spec fn spec_text(&self) -> Seq<char> {
        self.text@
    }

    /// The text is that of a finite number.
    #[verifier::type_invariant]
    spec fn inv(&self) -> bool {
        is_number_text(self.text@)
    }

    /// The number written by `text`, where it is the text of a finite number.
    pub fn from_text(text: String) -> (r: Option<FiniteNumber>)
        ensures
            r is Some <==> is_number_text(text@),
            r matches Some(n) ==> n.spec_text() == text@,
    {
        let s = text.as_str();
        let n = s.unicode_len();
        let ghost t = text@;
        let i0: usize = if n > 0 && s.get_char(0) == '-' {
            1
        } else {
            0
        };
        proof {
            lemma_digit_run_range(t, i0 as int);
        }
        let i1 = scan_digits(s, n, i0);
        if i1 == i0 {
            return None;
        }
        if s.get_char(i0) == '0' && i1 != i0 + 1 {
            return None;
        }
        let mut i2 = i1;
        if i1 < n && s.get_char(i1) == '.' {
            proof {
                lemma_digit_run_range(t, i1 + 1);
            }
            let e = scan_digits(s, n, i1 + 1);
            if e == i1 + 1 {
                return None;
            }
            i2 = e;
        }
        let mut i3 = i2;
        if i2 < n && (s.get_char(i2) == 'e' || s.get_char(i2) == 'E') {
            let mut j = i2 + 1;
            if j < n && (s.get_char(j) == '+' || s.get_char(j) == '-') {
                j = j + 1;
            }
            proof {
                lemma_digit_run_range(t, j as int);
            }
            let e = scan_digits(s, n, j);
            if e == j {
                return None;
            }
            i3 = e;
        }
        if i3 != n {
            return None;
        }
        Some(FiniteNumber { text })
    }

    /// The literal text of the number.
    pub fn as_str(&self) -> (r: &str)
        ensures
            r@ == self.spec_text(),
            is_number_text(r@),
    {
        proof {
            use_type_invariant(self);
        }
        self.text.as_str()
    }

    /// A copy of this number.
    pub fn duplicate(&self) -> (r: FiniteNumber)
        ensures
            r.spec_text() == self.spec_text(),
    {
        proof {
            use_type_invariant(self);
        }
        FiniteNumber { text: self.text.clone() }
    }
}

impl Clone for FiniteNumber {
    fn clone(&self) -> (r: FiniteNumber)
        ensures
            r.spec_text() == self.spec_text(),
    {
        self.duplicate()
    }
}

/// A value of the option mapping: a scalar that the query string can carry,
/// or anything else, which the query string leaves out.
#[derive(Debug, Clone)]
pub enum OptionValue {
    Str(String),
    Number(Number),
    Bool(bool),
    Other,
}

/// What an option value is, as a mathematical value.
pub enum Scalar {
    Text(Seq<char>),
    Int(int),
    Decimal(Seq<char>),
    Flag(bool),
    Other,
}

impl View for Number {
    type V = Scalar;

    open spec fn view(&self) -> Scalar {
        match self {
            Number::PosInt(n) => Scalar::Int(*n as int),
            Number::NegInt(n) => Scalar::Int(*n as int),
            Number::Float(f) => Scalar::Decimal(f.spec_text()),
        }
    }
}

impl View for OptionValue {
    type V = Scalar;

    open spec fn view(&self) -> Scalar {
        match self {
            OptionValue::Str(s) => Scalar::Text(s@),
            OptionValue::Number(n) => n@,
            OptionValue::Bool(b) => Scalar::Flag(*b),
            OptionValue::Other => Scalar::Other,
        }
    }
}

/// One entry of the option mapping: a name and a value.
pub type Entry = (Seq<char>, Scalar);

/// Index of the entry named `k`, or -1 where there is none.
pub open spec fn find_key(es: Seq<Entry>, k: Seq<char>) -> int
    decreases es.len(),
{
    if es.len() == 0 {
        -1
    } else if es.last().0 == k {
        es.len() - 1
    } else {
        find_key(es.drop_last(), k)
    }
}

/// The value stored under `k`, if any.
pub open spec fn lookup(es: Seq<Entry>, k: Seq<char>) -> Option<Scalar> {
    let i = find_key(es, k);
    if i < 0 {
        None
    } else {
        Some(es[i].1)
    }
}

/// No two entries share a name.
pub open spec fn keys_unique(es: Seq<Entry>) -> bool {
    forall|i: int, j: int| 0 <= i < j < es.len() ==> es[i].0 != es[j].0
}

/// The entries after setting `k` to `v`: an entry already named `k` keeps its
/// place and takes the new value; otherwise the entry goes at the end.
pub open spec fn put_entry(es: Seq<Entry>, k: Seq<char>, v: Scalar) -> Seq<Entry> {
    let i = find_key(es, k);
    if i < 0 {
        es.push((k, v))
    } else {
        es.update(i, (k, v))
    }
}

/// Sets every entry of `add` in turn, the first one first.
pub open spec fn merge_entries(es: Seq<Entry>, add: Seq<Entry>) -> Seq<Entry>
    decreases add.len(),
{
    if add.len() == 0 {
        es
    } else {
        let m = merge_entries(es, add.drop_last());
        put_entry(m, add.last().0, add.last().1)
    }
}

/// `find_key` gives an entry named `k`, or -1 where no entry has that name.
pub proof fn lemma_find_key_range(es: Seq<Entry>, k: Seq<char>)
    ensures
        -1 <= find_key(es, k) < es.len(),
        find_key(es, k) >= 0 ==> es[find_key(es, k)].0 == k,
        find_key(es, k) < 0 ==> forall|i: int| 0 <= i < es.len() ==> es[i].0 != k,
    decreases es.len(),
{
    if es.len() > 0 {
        lemma_find_key_range(es.drop_last(), k);
        assert forall|i: int| 0 <= i < es.len() - 1 implies es[i] == es.drop_last()[i] by {}
    }
}

/// `find_key` reads only the names of the entries.
pub proof fn lemma_find_key_same_names(a: Seq<Entry>, b: Seq<Entry>, k: Seq<char>)
    requires
        a.len() == b.len(),
        forall|i: int| 0 <= i < a.len() ==> a[i].0 == b[i].0,
    ensures
        find_key(a, k) == find_key(b, k),
    decreases a.len(),
{
    if a.len() > 0 {
        lemma_find_key_same_names(a.drop_last(), b.drop_last(), k);
    }
}

/// After setting `k` to `v`, `k` holds `v` and every other name keeps its value.
pub proof fn lemma_put_entry_lookup(es: Seq<Entry>, k: Seq<char>, v: Scalar)
    ensures
        lookup(put_entry(es, k, v), k) == Some(v),
        forall|k2: Seq<char>| k2 != k ==> lookup(put_entry(es, k, v), k2) == lookup(es, k2),
{
    lemma_find_key_range(es, k);
    let r = put_entry(es, k, v);
    if find_key(es, k) < 0 {
        assert(r.drop_last() =~= es);
        assert forall|k2: Seq<char>| k2 != k implies lookup(r, k2) == lookup(es, k2) by {
            lemma_find_key_range(es, k2);
            if find_key(es, k2) >= 0 {
                assert(r[find_key(es, k2)] == es[find_key(es, k2)]);
            }
        }
    } else {
        assert forall|k2: Seq<char>| find_key(r, k2) == find_key(es, k2) by {
            lemma_find_key_same_names(r, es, k2);
        }
        assert forall|k2: Seq<char>| k2 != k implies lookup(r, k2) == lookup(es, k2) by {
            lemma_find_key_range(es, k2);
        }
    }
}

/// Setting a name keeps the names unique.
pub proof fn lemma_put_entry(es: Seq<Entry>, k: Seq<char>, v: Scalar)
    requires
        keys_unique(es),
    ensures
        keys_unique(put_entry(es, k, v)),
        lookup(put_entry(es, k, v), k) == Some(v),
        forall|k2: Seq<char>| k2 != k ==> lookup(put_entry(es, k, v), k2) == lookup(es, k2),
{
    lemma_find_key_range(es, k);
    lemma_put_entry_lookup(es, k, v);
    let r = put_entry(es, k, v);
    assert(keys_unique(r));
}

/// A mapping from option names to values, whose entries keep the order in
/// which their names were first set.
#[derive(Debug)]
pub struct RequestOptions {
    entries: Vec<(String, OptionValue)>,
}

impl Clone for RequestOptions {
    fn clone(&self) -> (r: RequestOptions)
        ensures
            r@ == self@,
    {
        self.duplicate()
    }
}

impl View for RequestOptions {
    type V = Seq<Entry>;

    closed spec fn view(&self) -> Seq<Entry> {
        self.entries@.map_values(|e: (String, OptionValue)| (e.0@, e.1@))
    }
}

impl Number {
    /// A copy of this number.
    pub fn duplicate(&self) -> (r: Number)
        ensures
            r@ == self@,
    {
        match self {
            Number::PosInt(n) => Number::PosInt(*n),
            Number::NegInt(n) => Number::NegInt(*n),
            Number::Float(f) => Number::Float(f.duplicate()),
        }
    }
}

impl OptionValue {
    /// A copy of this value.
    pub fn duplicate(&self) -> (r: OptionValue)
        ensures
            r@ == self@,
    {
        match self {
            OptionValue::Str(s) => OptionValue::Str(s.clone()),
            OptionValue::Number(n) => OptionValue::Number(n.duplicate()),
            OptionValue::Bool(b) => OptionValue::Bool(*b),
            OptionValue::Other => OptionValue::Other,
        }
    }
}

impl RequestOptions {
    /// The mapping holds each name once.
    pub open spec fn wf(&self) -> bool {
        keys_unique(self@)
    }

    /// Every mapping holds each name once.
    #[verifier::type_invariant]
    spec fn inv(&self) -> bool {
        keys_unique(self@)
    }

    /// Each name is held once.
    pub fn names_unique(&self)
        ensures
            self.wf(),
    {
        proof {
            use_type_invariant(self);
        }
    }

    /// An empty mapping.
    pub fn new() -> (r: RequestOptions)
        ensures
            r@ == Seq::<Entry>::empty(),
            r.wf(),
    {
        let r = RequestOptions { entries: Vec::new() };
        assert(r@ =~= Seq::<Entry>::empty());
        r
    }

    /// The number of entries.
    pub fn len(&self) -> (r: usize)
        ensures
            r == self@.len(),
    {
        self.entries.len()
    }

    /// Whether the mapping has no entry.
    pub fn is_empty(&self) -> (r: bool)
        ensures
            r == (self@.len() == 0),
    {
        self.entries.len() == 0
    }

    /// The name and value of the entry at `i`, in order of first insertion.
    pub fn entry(&self, i: usize) -> (r: (&String, &OptionValue))
        requires
            i < self@.len(),
        ensures
            r.0@ == self@[i as int].0,
            r.1@ == self@[i as int].1,
    {
        let e = &self.entries[i];
        (&e.0, &e.1)
    }

    /// Position of the entry named `key`, if there is one.
    fn position(&self, key: &str) -> (r: Option<usize>)
        ensures
            match r {
                Some(i) => i < self@.len() && i as int == find_key(self@, key@),
                None => find_key(self@, key@) == -1,
            },
    {
        proof {
            lemma_find_key_range(self@, key@);
        }
        let mut i: usize = self.entries.len();
        while i > 0
            invariant
                i <= self.entries@.len(),
                find_key(self@, key@) < i,
                self@.len() == self.entries@.len(),
            decreases i,
        {
            let k = &self.entries[i - 1].0;
            if same_text(k.as_str(), key) {
                proof {
                    assert(self@[i - 1].0 == key@);
                    lemma_find_key_after(self@, key@, (i - 1) as int);
                }
                return Some(i - 1);
            }
            proof {
                assert(self@[i - 1].0 != key@);
                lemma_find_key_skip(self@, key@, (i - 1) as int);
            }
            i = i - 1;
        }
        None
    }

    /// The value stored under `key`, if any.
    pub fn get(&self, key: &str) -> (r: Option<&OptionValue>)
        ensures
            match r {
                Some(v) => lookup(self@, key@) == Some(v@),
                None => lookup(self@, key@) is None,
            },
    {
        proof {
            lemma_find_key_range(self@, key@);
        }
        match self.position(key) {
            Some(i) => Some(&self.entries[i].1),
            None => None,
        }
    }

    /// Sets `key` to `value`: an entry already named `key` keeps its place and
    /// takes the new value; otherwise the entry is added at the end.
    pub fn insert(&mut self, key: String, value: OptionValue)
        ensures
            final(self).wf(),
            final(self)@ == put_entry(old(self)@, key@, value@),
    {
        proof {
            use_type_invariant(&*self);
            lemma_put_entry(self@, key@, value@);
            lemma_find_key_range(self@, key@);
        }
        let ghost kv = key@;
        let ghost vv = value@;
        let pos = self.position(key.as_str());
        let mut taken = RequestOptions { entries: Vec::new() };
        proof {
            assert(taken@ =~= Seq::<Entry>::empty());
        }
        core::mem::swap(self, &mut taken);
        let mut entries = taken.entries;
        match pos {
            Some(i) => {
                entries.set(i, (key, value));
            },
            None => {
                entries.push((key, value));
            },
        }
        let ghost r = entries@.map_values(|e: (String, OptionValue)| (e.0@, e.1@));
        assert(r =~= put_entry(old(self)@, kv, vv));
        *self = RequestOptions { entries };
    }

    /// A copy of the mapping, entry for entry.
    pub fn duplicate(&self) -> (r: RequestOptions)
        ensures
            r@ == self@,
    {
        proof {
            use_type_invariant(self);
        }
        let mut entries: Vec<(String, OptionValue)> = Vec::new();
        let mut i: usize = 0;
        while i < self.entries.len()
            invariant
                i <= self.entries@.len(),
                entries@.len() == i,
                forall|j: int|
                    0 <= j < i ==> (entries@[j].0@, entries@[j].1@) == (
                        self.entries@[j].0@,
                        self.entries@[j].1@,
                    ),
            decreases self.entries@.len() - i,
        {
            let e = &self.entries[i];
            entries.push((e.0.clone(), e.1.duplicate()));
            i = i + 1;
        }
        assert(entries@.map_values(|e: (String, OptionValue)| (e.0@, e.1@)) =~= self@);
        RequestOptions { entries }
    }
}

/// Whether two strings hold the same characters.
fn same_text(a: &str, b: &str) -> (r: bool)
    ensures
        r == (a@ == b@),
{
    let x = a.as_bytes();
    let y = b.as_bytes();
    if x.len() != y.len() {
        assert(a@ == b@ ==> x@ == y@);
        return false;
    }
    let mut i: usize = 0;
    while i < x.len()
        invariant
            x@ == vstd::utf8::encode_utf8(a@),
            y@ == vstd::utf8::encode_utf8(b@),
            x@.len() == y@.len(),
            i <= x@.len(),
            x@.subrange(0, i as int) == y@.subrange(0, i as int),
        decreases x@.len() - i,
    {
        if x[i] != y[i] {
            assert(x@ != y@);
            assert(a@ == b@ ==> x@ == y@);
            return false;
        }
        assert(x@.subrange(0, i + 1) =~= x@.subrange(0, i as int).push(x@[i as int]));
        assert(y@.subrange(0, i + 1) =~= y@.subrange(0, i as int).push(y@[i as int]));
        i = i + 1;
    }
    proof {
        assert(x@ =~= x@.subrange(0, x@.len() as int));
        assert(y@ =~= y@.subrange(0, y@.len() as int));
        vstd::utf8::encode_utf8_decode_utf8(a@);
        vstd::utf8::encode_utf8_decode_utf8(b@);
    }
    true
}

/// Searching down from the end, an entry named `k` at `i` is the one found.
pub proof fn lemma_find_key_after(es: Seq<Entry>, k: Seq<char>, i: int)
    requires
        0 <= i < es.len(),
        es[i].0 == k,
        find_key(es, k) <= i,
    ensures
        find_key(es, k) == i,
    decreases es.len(),
{
    if i < es.len() - 1 {
        lemma_find_key_range(es, k);
        assert(es.last().0 != k);
        assert(es.drop_last()[i] == es[i]);
        lemma_find_key_after(es.drop_last(), k, i);
    }
}

/// Searching down from the end, an entry at `i` with another name is passed over.
pub proof fn lemma_find_key_skip(es: Seq<Entry>, k: Seq<char>, i: int)
    requires
        0 <= i < es.len(),
        es[i].0 != k,
        find_key(es, k) <= i,
    ensures
        find_key(es, k) < i,
    decreases es.len(),
{
    lemma_find_key_range(es, k);
    if i < es.len() - 1 {
        assert(es.drop_last()[i] == es[i]);
        lemma_find_key_skip(es.drop_last(), k, i);
    }
}

} // verus!
