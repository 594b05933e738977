//! Text as sequences of characters: the predicates and small string operations
//! that the rest of the library is stated in.

use vstd::prelude::*;

verus! {

/// The optional text behind an optional string.
pub open spec fn opt_text(value: Option<String>) -> Option<Seq<char>> {
    match value {
        Some(s) => Some(s@),
        None => None,
    }
}

/// The texts of a list of strings.
pub open spec fn texts(list: Seq<String>) -> Seq<Seq<char>> {
    list.map_values(|s: String| s@)
}

/// Unicode's `White_Space` property.
pub open spec fn white_space(c: char) -> bool {
    ||| '\u{9}' <= c <= '\u{d}'
    ||| c == ' '
    ||| c == '\u{85}'
    ||| c == '\u{a0}'
    ||| c == '\u{1680}'
    ||| '\u{2000}' <= c <= '\u{200a}'
    ||| c == '\u{2028}'
    ||| c == '\u{2029}'
    ||| c == '\u{202f}'
    ||| c == '\u{205f}'
    ||| c == '\u{3000}'
}

/// An ASCII letter or digit.
pub open spec fn ascii_alphanumeric(c: char) -> bool {
    ||| 'a' <= c <= 'z'
    ||| 'A' <= c <= 'Z'
    ||| '0' <= c <= '9'
}

/// The classes of characters by which text is cut.
#[derive(Clone, Copy, PartialEq, Eq, Structural)]
pub enum CharClass {
    /// White space.
    Space,
    /// Everything but white space.
    Word,
    /// Everything but a line feed.
    Line,
    /// What may follow `://` in a link that stands in running text.
    Link,
    /// Punctuation that closes a sentence or a bracket around a link.
    Closing,
}

impl CharClass {
    /// Whether `c` belongs to the class.
    pub open spec fn has(self, c: char) -> bool {
        match self {
            CharClass::Space => white_space(c),
            CharClass::Word => !white_space(c),
            CharClass::Line => c != '\n',
            CharClass::Link => !white_space(c) && c != '<' && c != '>' && c != '(' && c != ')'
                && c != '"',
            CharClass::Closing => c == ')' || c == ']' || c == '.' || c == ',',
        }
    }

    pub fn contains(self, c: char) -> (r: bool)
        ensures
            r == self.has(c),
    {
        match self {
            CharClass::Space => is_white_space(c),
            CharClass::Word => !is_white_space(c),
            CharClass::Line => c != '\n',
            CharClass::Link => !is_white_space(c) && c != '<' && c != '>' && c != '(' && c != ')'
                && c != '"',
            CharClass::Closing => c == ')' || c == ']' || c == '.' || c == ',',
        }
    }
}

pub fn is_white_space(c: char) -> (r: bool)
    ensures
        r == white_space(c),
{
    ('\u{9}' <= c && c <= '\u{d}') || c == ' ' || c == '\u{85}' || c == '\u{a0}' || c == '\u{1680}'
        || ('\u{2000}' <= c && c <= '\u{200a}') || c == '\u{2028}' || c == '\u{2029}'
        || c == '\u{202f}' || c == '\u{205f}' || c == '\u{3000}'
}

pub fn is_ascii_alphanumeric(c: char) -> (r: bool)
    ensures
        r == ascii_alphanumeric(c),
{
    ('a' <= c && c <= 'z') || ('A' <= c && c <= 'Z') || ('0' <= c && c <= '9')
}

/// How many characters of `class` the text begins with.
pub open spec fn lead(s: Seq<char>, class: CharClass) -> nat
    decreases s.len(),
{
    if s.len() > 0 && class.has(s.first()) {
        1 + lead(s.drop_first(), class)
    } else {
        0
    }
}

/// How many characters of `class` the text ends with.
pub open spec fn trail(s: Seq<char>, class: CharClass) -> nat
    decreases s.len(),
{
    if s.len() > 0 && class.has(s.last()) {
        1 + trail(s.drop_last(), class)
    } else {
        0
    }
}

/// The text without the characters of `class` that it begins with.
pub open spec fn skip_lead(s: Seq<char>, class: CharClass) -> Seq<char> {
    s.skip(lead(s, class) as int)
}

/// The characters of `class` that the text begins with.
pub open spec fn take_lead(s: Seq<char>, class: CharClass) -> Seq<char> {
    s.take(lead(s, class) as int)
}

/// The text without the characters of `class` that it ends with.
pub open spec fn drop_trail(s: Seq<char>, class: CharClass) -> Seq<char> {
    s.take(s.len() - trail(s, class))
}

/// The text without white space at either end.
pub open spec fn trimmed(s: Seq<char>) -> Seq<char> {
    drop_trail(skip_lead(s, CharClass::Space), CharClass::Space)
}

/// `part` stands somewhere in `s`.
pub open spec fn occurs(s: Seq<char>, part: Seq<char>) -> bool {
    exists|i: int| occurs_at(s, part, i)
}

/// `part` stands in `s` from index `i` on.
pub open spec fn occurs_at(s: Seq<char>, part: Seq<char>, i: int) -> bool {
    0 <= i && i + part.len() <= s.len() && s.subrange(i, i + part.len()) == part
}

/// The character with `A` to `Z` turned to lower case.
pub open spec fn ascii_lower(c: char) -> char {
    if 'A' <= c <= 'Z' {
        (c as u8 + 32) as u8 as char
    } else {
        c
    }
}

/// The text with `A` to `Z` turned to lower case.
pub open spec fn ascii_lowercase(s: Seq<char>) -> Seq<char> {
    s.map_values(|c: char| ascii_lower(c))
}

/// The character of a decimal digit.
pub open spec fn digit(d: nat) -> char {
    (48 + d) as u8 as char
}

/// The decimal notation of a number.
pub open spec fn decimal_digits(n: nat) -> Seq<char>
    decreases n,
{
    if n < 10 {
        seq![digit(n)]
    } else {
        decimal_digits(n / 10).push(digit(n % 10))
    }
}

/// `String::push` appends one character.
pub assume_specification[ String::push ](s: &mut String, c: char)
    ensures
        final(s)@ == old(s)@.push(c),
;

/// The characters of a text.
pub fn chars_of(s: &str) -> (v: Vec<char>)
    ensures
        v@ == s@,
{
    let mut v: Vec<char> = Vec::new();
    for c in it: s.chars()
        invariant
            it.seq() == s@,
            v@ == s@.take(it.index()),
    {
        v.push(c);
    }
    v
}

/// The text of the characters `v[from..to]`.
pub fn piece(v: &Vec<char>, from: usize, to: usize) -> (s: String)
    requires
        from <= to <= v@.len(),
    ensures
        s@ == v@.subrange(from as int, to as int),
{
    let mut s = String::new();
    let mut i: usize = from;
    while i < to
        invariant
            from <= i <= to <= v@.len(),
            s@ == v@.subrange(from as int, i as int),
        decreases to - i,
    {
        s.push(v[i]);
        i = i + 1;
    }
    s
}

/// A count of leading characters is `lead` when they all belong to the class and
/// the next one, if any, does not.
pub proof fn lemma_lead(s: Seq<char>, class: CharClass, n: int)
    requires
        0 <= n <= s.len(),
        forall|j: int| 0 <= j < n ==> class.has(#[trigger] s[j]),
        n == s.len() || !class.has(s[n]),
    ensures
        lead(s, class) == n,
    decreases s.len(),
{
    if n > 0 {
        assert forall|j: int| 0 <= j < n - 1 implies class.has(#[trigger] s.drop_first()[j]) by {
            assert(s.drop_first()[j] == s[j + 1]);
        }
        lemma_lead(s.drop_first(), class, n - 1);
    }
}

/// What `lead` counts: characters of the class, up to the first one outside it.
pub proof fn lemma_lead_bounds(s: Seq<char>, class: CharClass)
    ensures
        lead(s, class) <= s.len(),
        forall|j: int| 0 <= j < lead(s, class) ==> class.has(#[trigger] s[j]),
        lead(s, class) < s.len() ==> !class.has(s[lead(s, class) as int]),
    decreases s.len(),
{
    if s.len() > 0 && class.has(s.first()) {
        let rest = s.drop_first();
        lemma_lead_bounds(rest, class);
        assert forall|j: int| 0 <= j < lead(s, class) implies class.has(#[trigger] s[j]) by {
            if j > 0 {
                assert(rest[j - 1] == s[j]);
            }
        }
        if lead(s, class) < s.len() {
            assert(rest[lead(rest, class) as int] == s[lead(s, class) as int]);
        }
    }
}

/// A count of trailing characters is `trail` when they all belong to the class and
/// the one before them, if any, does not.
pub proof fn lemma_trail(s: Seq<char>, class: CharClass, n: int)
    requires
        0 <= n <= s.len(),
        forall|j: int| s.len() - n <= j < s.len() ==> class.has(#[trigger] s[j]),
        n == s.len() || !class.has(s[s.len() - n - 1]),
    ensures
        trail(s, class) == n,
    decreases s.len(),
{
    if n > 0 {
        assert forall|j: int| s.len() - n <= j < s.len() - 1 implies class.has(
            #[trigger] s.drop_last()[j],
        ) by {
            assert(s.drop_last()[j] == s[j]);
        }
        lemma_trail(s.drop_last(), class, n - 1);
    }
}

/// What `trail` counts: characters of the class, back to the last one outside it.
pub proof fn lemma_trail_bounds(s: Seq<char>, class: CharClass)
    ensures
        trail(s, class) <= s.len(),
        forall|j: int| s.len() - trail(s, class) <= j < s.len() ==> class.has(#[trigger] s[j]),
        trail(s, class) < s.len() ==> !class.has(s[s.len() - trail(s, class) - 1]),
    decreases s.len(),
{
    if s.len() > 0 && class.has(s.last()) {
        let rest = s.drop_last();
        lemma_trail_bounds(rest, class);
        assert forall|j: int| s.len() - trail(s, class) <= j < s.len() implies class.has(
            #[trigger] s[j],
        ) by {
            if j < s.len() - 1 {
                assert(rest[j] == s[j]);
            }
        }
        if trail(s, class) < s.len() {
            assert(rest[rest.len() - trail(rest, class) - 1] == s[s.len() - trail(s, class) - 1]);
        }
    }
}

/// Where the characters of `class` that `v[from..to]` begins with end.
pub fn lead_end(v: &Vec<char>, from: usize, to: usize, class: CharClass) -> (end: usize)
    requires
        from <= to <= v@.len(),
    ensures
        from <= end <= to,
        v@.subrange(from as int, end as int) == take_lead(
            v@.subrange(from as int, to as int),
            class,
        ),
        v@.subrange(end as int, to as int) == skip_lead(
            v@.subrange(from as int, to as int),
            class,
        ),
{
    let mut end: usize = from;
    while end < to && class.contains(v[end])
        invariant
            from <= end <= to <= v@.len(),
            forall|j: int| from <= j < end ==> class.has(#[trigger] v@[j]),
        decreases to - end,
    {
        end = end + 1;
    }
    proof {
        let s = v@.subrange(from as int, to as int);
        lemma_lead(s, class, end - from);
        assert(v@.subrange(from as int, end as int) =~= take_lead(s, class));
        assert(v@.subrange(end as int, to as int) =~= skip_lead(s, class));
    }
    end
}

/// Where the characters of `class` that `v[from..to]` ends with begin.
pub fn trail_start(v: &Vec<char>, from: usize, to: usize, class: CharClass) -> (start: usize)
    requires
        from <= to <= v@.len(),
    ensures
        from <= start <= to,
        v@.subrange(from as int, start as int) == drop_trail(
            v@.subrange(from as int, to as int),
            class,
        ),
{
    let mut start: usize = to;
    while start > from && class.contains(v[start - 1])
        invariant
            from <= start <= to <= v@.len(),
            forall|j: int| start <= j < to ==> class.has(#[trigger] v@[j]),
        decreases start - from,
    {
        start = start - 1;
    }
    proof {
        let s = v@.subrange(from as int, to as int);
        lemma_trail(s, class, to - start);
        assert(v@.subrange(from as int, start as int) =~= drop_trail(s, class));
    }
    start
}

/// The text without white space at either end.
pub fn trim(s: &str) -> (r: String)
    ensures
        r@ == trimmed(s@),
{
    let v = chars_of(s);
    let from = lead_end(&v, 0, v.len(), CharClass::Space);
    let to = trail_start(&v, from, v.len(), CharClass::Space);
    assert(v@.subrange(0, v@.len() as int) =~= s@);
    piece(&v, from, to)
}

/// Whether two texts are the same.
pub fn same_text(a: &str, b: &str) -> (r: bool)
    ensures
        r == (a@ == b@),
{
    let x = chars_of(a);
    let y = chars_of(b);
    if x.len() != y.len() {
        return false;
    }
    let mut i: usize = 0;
    while i < x.len()
        invariant
            x@ == a@,
            y@ == b@,
            x@.len() == y@.len(),
            i <= x@.len(),
            forall|j: int| 0 <= j < i ==> x@[j] == y@[j],
        decreases x@.len() - i,
    {
        if x[i] != y[i] {
            return false;
        }
        i = i + 1;
    }
    assert(a@ =~= b@);
    true
}

/// Whether two optional texts are the same.
pub fn same_opt_text(a: &Option<String>, b: &Option<String>) -> (r: bool)
    ensures
        r == (opt_text(*a) == opt_text(*b)),
{
    match (a, b) {
        (Some(x), Some(y)) => same_text(x.as_str(), y.as_str()),
        (None, None) => true,
        _ => false,
    }
}

/// A copy of an optional text.
pub fn copy_opt(value: &Option<String>) -> (r: Option<String>)
    ensures
        opt_text(r) == opt_text(*value),
{
    match value {
        Some(s) => Some(s.clone()),
        None => None,
    }
}

/// Whether the characters of `part` stand in `v` from index `i` on.
fn stands_at(v: &Vec<char>, part: &Vec<char>, i: usize) -> (r: bool)
    requires
        i + part@.len() <= v@.len(),
    ensures
        r == occurs_at(v@, part@, i as int),
{
    let total: usize = v.len();
    let mut k: usize = 0;
    while k < part.len()
        invariant
            i + part@.len() <= v@.len() == total,
            k <= part@.len(),
            forall|j: int| 0 <= j < k ==> v@[i + j] == part@[j],
        decreases part@.len() - k,
    {
        if v[i + k] != part[k] {
            proof {
                let window = v@.subrange(i as int, i + part@.len());
                assert(window[k as int] == v@[i + k]);
            }
            return false;
        }
        k = k + 1;
    }
    assert(v@.subrange(i as int, i + part@.len()) =~= part@);
    true
}

/// Whether `part` stands somewhere in `s`.
pub fn contains_text(s: &str, part: &str) -> (r: bool)
    ensures
        r == occurs(s@, part@),
{
    let v = chars_of(s);
    let p = chars_of(part);
    if v.len() < p.len() {
        return false;
    }
    let last: usize = v.len() - p.len();
    let mut i: usize = 0;
    loop
        invariant
            v@ == s@,
            p@ == part@,
            last == v@.len() - p@.len(),
            i <= last,
            forall|j: int| 0 <= j < i ==> !occurs_at(s@, part@, j),
        decreases last - i,
    {
        if stands_at(&v, &p, i) {
            return true;
        }
        if i == last {
            return false;
        }
        i = i + 1;
    }
}

/// Whether `s` begins with `prefix`.
pub fn begins_with(s: &str, prefix: &str) -> (r: bool)
    ensures
        r == prefix@.is_prefix_of(s@),
{
    let v = chars_of(s);
    let p = chars_of(prefix);
    p.len() <= v.len() && stands_at(&v, &p, 0)
}

/// What follows `prefix` in `s`, where `s` begins with it.
pub fn after_prefix(s: &str, prefix: &str) -> (r: Option<String>)
    ensures
        r is Some <==> prefix@.is_prefix_of(s@),
        r matches Some(rest) ==> rest@ == s@.skip(prefix@.len() as int),
{
    let v = chars_of(s);
    let p = chars_of(prefix);
    if p.len() <= v.len() && stands_at(&v, &p, 0) {
        Some(piece(&v, p.len(), v.len()))
    } else {
        None
    }
}

/// The text with `A` to `Z` turned to lower case.
pub fn to_ascii_lowercase(s: &str) -> (r: String)
    ensures
        r@ == ascii_lowercase(s@),
{
    let v = chars_of(s);
    let mut r = String::new();
    let mut i: usize = 0;
    while i < v.len()
        invariant
            v@ == s@,
            i <= v@.len(),
            r@ == ascii_lowercase(s@.take(i as int)),
        decreases v@.len() - i,
    {
        let c = v[i];
        if 'A' <= c && c <= 'Z' {
            r.push((c as u8 + 32) as char);
        } else {
            r.push(c);
        }
        i = i + 1;
        assert(r@ =~= ascii_lowercase(s@.take(i as int)));
    }
    assert(s@.take(i as int) =~= s@);
    r
}

/// The decimal notation of `n`.
pub fn decimal(n: usize) -> (r: String)
    ensures
        r@ == decimal_digits(n as nat),
    decreases n,
{
    let d: u8 = (n % 10) as u8;
    let c = (48 + d) as char;
    if n < 10 {
        let mut r = String::new();
        r.push(c);
        assert(r@ =~= seq![digit(n as nat)]);
        r
    } else {
        let mut r = decimal(n / 10);
        r.push(c);
        r
    }
}

/// Decimal notation is a text of digits, and two numbers with the same notation
/// are the same number.
pub proof fn lemma_decimal_injective(n: nat, m: nat)
    ensures
        decimal_digits(n) == decimal_digits(m) ==> n == m,
    decreases n,
{
    lemma_decimal_shape(n);
    lemma_decimal_shape(m);
    let a = decimal_digits(n);
    let b = decimal_digits(m);
    if a == b {
        assert(a.last() == digit(n % 10));
        assert(b.last() == digit(m % 10));
        if n >= 10 && m >= 10 {
            assert(a.drop_last() =~= decimal_digits(n / 10));
            assert(b.drop_last() =~= decimal_digits(m / 10));
            lemma_decimal_injective(n / 10, m / 10);
        }
    }
}

/// Decimal notation is never empty, holds digits only, and has one character
/// exactly below ten.
pub proof fn lemma_decimal_shape(n: nat)
    ensures
        decimal_digits(n).len() > 0,
        n < 10 <==> decimal_digits(n).len() == 1,
        forall|i: int|
            0 <= i < decimal_digits(n).len() ==> '0' <= #[trigger] decimal_digits(n)[i] <= '9',
    decreases n,
{
    if n >= 10 {
        lemma_decimal_shape(n / 10);
    }
}

/// Trimming twice is trimming once.
pub proof fn law_trim_idempotent(s: Seq<char>)
    ensures
        trimmed(trimmed(s)) == trimmed(s),
{
    let t = skip_lead(s, CharClass::Space);
    let r = trimmed(s);
    lemma_lead_bounds(s, CharClass::Space);
    lemma_trail_bounds(t, CharClass::Space);
    if r.len() > 0 {
        assert(r[0] == t[0]);
        assert(t[0] == s[lead(s, CharClass::Space) as int]);
        assert(r.last() == t[t.len() - trail(t, CharClass::Space) - 1]);
    }
    lemma_lead(r, CharClass::Space, 0);
    assert(skip_lead(r, CharClass::Space) =~= r);
    lemma_trail(r, CharClass::Space, 0);
    assert(drop_trail(r, CharClass::Space) =~= r);
}

/// Trimming takes white space off both ends and nothing else: what is left is the part of the
/// text from its first to its last character that is not white space.
pub proof fn law_trimmed_is_the_middle(s: Seq<char>)
    ensures
        exists|from: int, to: int|
            #![trigger s.subrange(from, to)]
            0 <= from <= to <= s.len() && trimmed(s) == s.subrange(from, to) && (forall|j: int|
                0 <= j < from ==> white_space(#[trigger] s[j])) && (forall|j: int|
                to <= j < s.len() ==> white_space(#[trigger] s[j])) && (from < to ==> !white_space(
                s[from],
            ) && !white_space(s[to - 1])),
{
    let from = lead(s, CharClass::Space) as int;
    let rest = skip_lead(s, CharClass::Space);
    let to = s.len() - trail(rest, CharClass::Space);
    lemma_lead_bounds(s, CharClass::Space);
    lemma_trail_bounds(rest, CharClass::Space);
    assert(trimmed(s) =~= s.subrange(from, to));
    assert forall|j: int| to <= j < s.len() implies white_space(#[trigger] s[j]) by {
        assert(rest[j - from] == s[j]);
    }
    if from < to {
        assert(rest[to - 1 - from] == s[to - 1]);
    }
}

/// Nothing is left of a text exactly when it is all white space.
pub proof fn law_blank_text_leaves_nothing(s: Seq<char>)
    ensures
        trimmed(s).len() == 0 <==> (forall|j: int| 0 <= j < s.len() ==> white_space(#[trigger] s[j])),
{
    law_trimmed_is_the_middle(s);
    let (from, to) = choose|from: int, to: int|
        #![trigger s.subrange(from, to)]
        0 <= from <= to <= s.len() && trimmed(s) == s.subrange(from, to) && (forall|j: int|
            0 <= j < from ==> white_space(#[trigger] s[j])) && (forall|j: int|
            to <= j < s.len() ==> white_space(#[trigger] s[j])) && (from < to ==> !white_space(
            s[from],
        ) && !white_space(s[to - 1]));
    assert(s.subrange(from, to).len() == to - from);
}

/// Turning to lower case changes the letters `A` to `Z`, by thirty-two places, and no others.
pub proof fn law_lowercase_of_each_character(s: Seq<char>, i: int)
    requires
        0 <= i < s.len(),
    ensures
        ascii_lowercase(s).len() == s.len(),
        ascii_lowercase(s)[i] as int == if 65 <= s[i] as int <= 90 {
            s[i] as int + 32
        } else {
            s[i] as int
        },
{
}

/// A part stands in a text exactly when the text is something, the part and something.
pub proof fn law_occurs_between(s: Seq<char>, part: Seq<char>)
    ensures
        occurs(s, part) <==> exists|a: Seq<char>, b: Seq<char>| s == #[trigger] (a + part + b),
{
    if occurs(s, part) {
        let i = choose|i: int| occurs_at(s, part, i);
        let a = s.take(i);
        let b = s.skip(i + part.len());
        assert(s =~= a + part + b) by {
            assert(s.subrange(i, i + part.len()) == part);
            assert(s =~= s.take(i) + s.subrange(i, i + part.len()) + s.skip(i + part.len()));
        }
    }
    if exists|a: Seq<char>, b: Seq<char>| s == #[trigger] (a + part + b) {
        let (a, b) = choose|a: Seq<char>, b: Seq<char>| s == #[trigger] (a + part + b);
        let i = a.len() as int;
        assert(s.subrange(i, i + part.len()) =~= part);
        assert(occurs_at(s, part, i));
    }
}

/// The number that a text of digits denotes.
pub open spec fn number_of(digits: Seq<char>) -> int
    decreases digits.len(),
{
    if digits.len() == 0 {
        0
    } else {
        number_of(digits.drop_last()) * 10 + (digits.last() as int - 48)
    }
}

/// Decimal notation denotes its number, and begins with no idle zero.
pub proof fn law_decimal_denotes_its_number(n: nat)
    ensures
        number_of(decimal_digits(n)) == n,
        n > 0 ==> decimal_digits(n)[0] != '0',
    decreases n,
{
    lemma_decimal_shape(n);
    let d = decimal_digits(n);
    if n >= 10 {
        law_decimal_denotes_its_number(n / 10);
        lemma_decimal_shape(n / 10);
        assert(d.drop_last() =~= decimal_digits(n / 10));
        assert(d[0] == decimal_digits(n / 10)[0]);
    } else {
        assert(d.drop_last() =~= Seq::<char>::empty());
        assert(number_of(d.drop_last()) == 0);
    }
    assert(d.last() == digit(n % 10));
}

/// The ASCII letters and digits, by their codes.
pub proof fn law_codes_of_letters_and_digits(c: char)
    ensures
        ascii_alphanumeric(c) <==> 48 <= c as int <= 57 || 65 <= c as int <= 90 || 97 <= c as int
            <= 122,
{
}

/// The text behind an optional string is that of the string, where there is one; the texts of a
/// list are those of its strings, in their order.
pub proof fn law_texts_are_those_of_the_strings(value: Option<String>, list: Seq<String>, i: int)
    ensures
        value matches Some(s) ==> opt_text(value) == Some(s@),
        value is None ==> opt_text(value) is None,
        texts(list).len() == list.len(),
        0 <= i < list.len() ==> texts(list)[i] == list[i]@,
{
}

} // verus!
