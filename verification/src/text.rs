//! Text as sequences of characters: equality, decimal numbers, trimming,
//! joining and the quoting that diagnostics use.

use vstd::prelude::*;

verus! {

/// A value that can be turned into owned text.
pub trait Text: Sized {
    /// The characters of the value.
    spec fn text(self) -> Seq<char>;

    fn into_text(self) -> (r: String)
        ensures
            r@ == self.text(),
    ;
}

impl Text for String {
    open spec fn text(self) -> Seq<char> {
        self@
    }

    fn into_text(self) -> (r: String) {
        self
    }
}

impl<'a> Text for &'a str {
    open spec fn text(self) -> Seq<char> {
        self@
    }

    fn into_text(self) -> (r: String) {
        self.to_owned()
    }
}

impl<'a> Text for &'a String {
    open spec fn text(self) -> Seq<char> {
        self@
    }

    fn into_text(self) -> (r: String) {
        self.clone()
    }
}

/// The characters of each string of a list.
pub open spec fn names(list: Seq<String>) -> Seq<Seq<char>> {
    Seq::new(list.len(), |i: int| list[i]@)
}

/// The characters of each borrowed string of a list.
pub open spec fn str_names(list: Seq<&str>) -> Seq<Seq<char>> {
    Seq::new(list.len(), |i: int| list[i]@)
}

/// The characters of each text of a list.
pub open spec fn texts<S: Text>(list: Seq<S>) -> Seq<Seq<char>> {
    Seq::new(list.len(), |i: int| list[i].text())
}

/// The characters of optional text.
pub open spec fn opt_text(text: Option<String>) -> Option<Seq<char>> {
    match text {
        Some(t) => Some(t@),
        None => None,
    }
}

/// The characters of an optional borrowed text.
pub open spec fn opt_str(text: Option<&str>) -> Option<Seq<char>> {
    match text {
        Some(t) => Some(t@),
        None => None,
    }
}

/// Borrows optional text.
pub fn as_opt_str(text: &Option<String>) -> (r: Option<&str>)
    ensures
        opt_str(r) == opt_text(*text),
{
    match text {
        Some(t) => Some(t.as_str()),
        None => None,
    }
}

/// Copies optional text.
pub fn clone_opt(text: &Option<String>) -> (r: Option<String>)
    ensures
        opt_text(r) == opt_text(*text),
{
    match text {
        Some(t) => Some(t.clone()),
        None => None,
    }
}

/// Whether two texts hold the same characters.
pub fn same_text(a: &str, b: &str) -> (r: bool)
    ensures
        r == (a@ == b@),
{
    let x = a.as_bytes();
    let y = b.as_bytes();
    proof {
        vstd::utf8::encode_utf8_decode_utf8(a@);
        vstd::utf8::encode_utf8_decode_utf8(b@);
    }
    if x.len() != y.len() {
        return false;
    }
    let mut i: usize = 0;
    while i < x.len()
        invariant
            i <= x.len(),
            x.len() == y.len(),
            x@ == vstd::utf8::encode_utf8(a@),
            y@ == vstd::utf8::encode_utf8(b@),
            forall|j: int| 0 <= j < i ==> x@[j] == y@[j],
        decreases x.len() - i,
    {
        if x[i] != y[i] {
            return false;
        }
        i = i + 1;
    }
    assert(x@ =~= y@);
    true
}

/// The characters of a text, one by one.
pub fn chars_of(s: &str) -> (r: Vec<char>)
    ensures
        r@ == s@,
{
    let mut out: Vec<char> = Vec::new();
    for c in it: s.chars()
        invariant
            it.seq() == s@,
            out@ == s@.take(it.index() as int),
    {
        out.push(c);
        assert(s@.take(it.index() as int + 1) == s@.take(it.index() as int).push(c));
    }
    assert(s@.take(s@.len() as int) == s@);
    out
}

// ---------------------------------------------------------------------------
// Decimal numbers
// ---------------------------------------------------------------------------

/// The decimal digit of a value below ten.
pub open spec fn digit_char(d: int) -> char {
    (48 + d) as char
}

pub open spec fn is_digit(c: char) -> bool {
    '0' <= c && c <= '9'
}

/// Decimal text of a natural number, without leading zeros.
pub open spec fn nat_text(n: nat) -> Seq<char>
    decreases n,
{
    if n < 10 {
        seq![digit_char(n as int)]
    } else {
        nat_text(n / 10).push(digit_char((n % 10) as int))
    }
}

/// Decimal text of an integer.
pub open spec fn int_text(n: int) -> Seq<char> {
    if n < 0 {
        seq!['-'] + nat_text((-n) as nat)
    } else {
        nat_text(n as nat)
    }
}

fn digit_text(d: u64) -> (r: &'static str)
    requires
        d < 10,
    ensures
        r@ == seq![digit_char(d as int)],
{
    proof {
        reveal_strlit("0");
        reveal_strlit("1");
        reveal_strlit("2");
        reveal_strlit("3");
        reveal_strlit("4");
        reveal_strlit("5");
        reveal_strlit("6");
        reveal_strlit("7");
        reveal_strlit("8");
        reveal_strlit("9");
    }
    let r = match d {
        0 => "0",
        1 => "1",
        2 => "2",
        3 => "3",
        4 => "4",
        5 => "5",
        6 => "6",
        7 => "7",
        8 => "8",
        _ => "9",
    };
    assert(r@ =~= seq![digit_char(d as int)]);
    r
}

/// Writes an unsigned number in decimal.
pub fn u64_to_text(n: u64) -> (r: String)
    ensures
        r@ == nat_text(n as nat),
    decreases n,
{
    if n < 10 {
        digit_text(n).to_owned()
    } else {
        let mut s = u64_to_text(n / 10);
        let d = digit_text(n % 10);
        s.append(d);
        assert(s@ =~= nat_text((n / 10) as nat).push(digit_char((n % 10) as int)));
        s
    }
}

/// Writes a signed number in decimal.
pub fn i64_to_text(n: i64) -> (r: String)
    ensures
        r@ == int_text(n as int),
{
    if n < 0 {
        proof {
            reveal_strlit("-");
        }
        let mut s = "-".to_owned();
        let magnitude: u64 = (-(n + 1)) as u64 + 1;
        let digits = u64_to_text(magnitude);
        s.append(digits.as_str());
        assert(s@ =~= seq!['-'] + nat_text(magnitude as nat));
        s
    } else {
        u64_to_text(n as u64)
    }
}

/// Writes a large unsigned number in decimal.
pub fn u128_to_text(n: u128) -> (r: String)
    ensures
        r@ == nat_text(n as nat),
    decreases n,
{
    if n < 10 {
        digit_text(n as u64).to_owned()
    } else {
        let mut s = u128_to_text(n / 10);
        let d = digit_text((n % 10) as u64);
        s.append(d);
        assert(s@ =~= nat_text((n / 10) as nat).push(digit_char((n % 10) as int)));
        s
    }
}

/// Writes a large signed number in decimal.
pub fn i128_to_text(n: i128) -> (r: String)
    ensures
        r@ == int_text(n as int),
{
    if n < 0 {
        proof {
            reveal_strlit("-");
        }
        let mut s = "-".to_owned();
        let magnitude: u128 = (-(n + 1)) as u128 + 1;
        let digits = u128_to_text(magnitude);
        s.append(digits.as_str());
        assert(s@ =~= seq!['-'] + nat_text(magnitude as nat));
        s
    } else {
        u128_to_text(n as u128)
    }
}

/// The number that a run of decimal digits stands for; nothing when another
/// character occurs.
pub open spec fn digits_value(s: Seq<char>) -> Option<nat>
    decreases s.len(),
{
    if s.len() == 0 {
        Some(0nat)
    } else if !is_digit(s.last()) {
        None
    } else {
        match digits_value(s.drop_last()) {
            Some(v) => Some((v * 10 + (s.last() as int - 48)) as nat),
            None => None,
        }
    }
}

/// The integer that a text denotes: an optional sign, then at least one
/// decimal digit, and nothing else.
pub open spec fn parsed_int(s: Seq<char>) -> Option<int> {
    if s.len() == 0 {
        None
    } else if s[0] == '-' || s[0] == '+' {
        if s.len() == 1 {
            None
        } else {
            match digits_value(s.drop_first()) {
                Some(v) => Some(if s[0] == '-' { -(v as int) } else { v as int }),
                None => None,
            }
        }
    } else {
        match digits_value(s) {
            Some(v) => Some(v as int),
            None => None,
        }
    }
}

/// The `i32` that a text denotes; nothing when it denotes no integer or one
/// out of range.
pub open spec fn parsed_i32(s: Seq<char>) -> Option<i32> {
    match parsed_int(s) {
        Some(v) => if i32::MIN <= v <= i32::MAX {
            Some(v as i32)
        } else {
            None
        },
        None => None,
    }
}

proof fn lemma_digits_prefix(s: Seq<char>, i: int)
    requires
        0 <= i <= s.len(),
        digits_value(s) is Some,
    ensures
        digits_value(s.take(i)) is Some,
        digits_value(s.take(i))->0 <= digits_value(s)->0,
    decreases s.len() - i,
{
    if i < s.len() {
        lemma_digits_prefix(s, i + 1);
        assert(s.take(i + 1).drop_last() =~= s.take(i));
    } else {
        assert(s.take(i) =~= s);
    }
}

/// Reads a text as an `i32`.
pub fn parse_i32(s: &str) -> (r: Option<i32>)
    ensures
        r == parsed_i32(s@),
{
    let c = chars_of(s);
    parse_i32_chars(&c)
}

/// Reads characters as an `i32`.
pub fn parse_i32_chars(c: &Vec<char>) -> (r: Option<i32>)
    ensures
        r == parsed_i32(c@),
{
    if c.len() == 0 {
        return None;
    }
    let signed = c[0] == '-' || c[0] == '+';
    let negative = c[0] == '-';
    let start: usize = if signed { 1 } else { 0 };
    if start == c.len() {
        return None;
    }
    let ghost digits = c@.skip(start as int);
    assert(!signed ==> digits =~= c@);
    assert(signed ==> digits =~= c@.drop_first());
    let mut value: u64 = 0;
    let mut big = false;
    let mut i: usize = start;
    assert(digits.take(0) =~= Seq::<char>::empty());
    while i < c.len()
        invariant
            start <= i <= c.len(),
            start < c.len(),
            signed == (c@[0] == '-' || c@[0] == '+'),
            start == (if signed { 1int } else { 0int }),
            digits == (if signed { c@.drop_first() } else { c@ }),
            digits == c@.skip(start as int),
            digits_value(digits.take(i - start)) is Some,
            !big ==> value == digits_value(digits.take(i - start))->0,
            value <= 4294967295,
            big ==> digits_value(digits.take(i - start))->0 > 4294967295,
        decreases c.len() - i,
    {
        let d = c[i];
        assert(digits.take(i - start + 1).drop_last() =~= digits.take(i - start));
        assert(digits.take(i - start + 1).last() == d);
        if !(d >= '0' && d <= '9') {
            proof {
                if digits_value(digits) is Some {
                    lemma_digits_prefix(digits, i - start + 1);
                }
                assert(digits_value(digits) is None);
            }
            return None;
        }
        let next: u64 = value * 10 + (d as u64 - 48);
        if big || next > 4294967295 {
            big = true;
        } else {
            value = next;
        }
        i = i + 1;
    }
    assert(digits.take(i - start) =~= digits);
    if big {
        None
    } else if negative {
        if value <= 2147483648 {
            Some((0 - (value as i64)) as i32)
        } else {
            None
        }
    } else {
        if value <= 2147483647 {
            Some(value as i32)
        } else {
            None
        }
    }
}

proof fn lemma_nat_text_digits(n: nat)
    ensures
        nat_text(n).len() > 0,
        is_digit(nat_text(n)[0]),
        digits_value(nat_text(n)) == Some(n),
    decreases n,
{
    reveal_with_fuel(digits_value, 2);
    if n < 10 {
        assert(nat_text(n).drop_last() =~= Seq::<char>::empty());
    } else {
        lemma_nat_text_digits(n / 10);
        assert(nat_text(n).drop_last() =~= nat_text(n / 10));
        assert(nat_text(n).last() as int - 48 == n % 10);
    }
}

/// Reading back the decimal text of an integer gives that integer.
pub proof fn int_text_reads_back(n: int)
    ensures
        parsed_int(int_text(n)) == Some(n),
{
    if n < 0 {
        lemma_nat_text_digits((-n) as nat);
        assert(int_text(n).drop_first() =~= nat_text((-n) as nat));
    } else {
        lemma_nat_text_digits(n as nat);
    }
}

// ---------------------------------------------------------------------------
// Trimming
// ---------------------------------------------------------------------------

/// The characters with the Unicode property `White_Space`.
pub open spec fn white_space(c: char) -> bool {
    let u = c as int;
    ||| 0x9 <= u <= 0xd
    ||| u == 0x20
    ||| u == 0x85
    ||| u == 0xa0
    ||| u == 0x1680
    ||| 0x2000 <= u <= 0x200a
    ||| u == 0x2028
    ||| u == 0x2029
    ||| u == 0x202f
    ||| u == 0x205f
    ||| u == 0x3000
}

/// `char::is_whitespace` holds of exactly the characters with the Unicode
/// property `White_Space`, which [`white_space`] lists.
pub assume_specification[ char::is_whitespace ](c: char) -> (r: bool)
    ensures
        r == white_space(c),
;

/// A text without the white space at its start.
pub open spec fn trim_start(s: Seq<char>) -> Seq<char>
    decreases s.len(),
{
    if s.len() > 0 && white_space(s[0]) {
        trim_start(s.drop_first())
    } else {
        s
    }
}

/// A text without the white space at its end.
pub open spec fn trim_end(s: Seq<char>) -> Seq<char>
    decreases s.len(),
{
    if s.len() > 0 && white_space(s.last()) {
        trim_end(s.drop_last())
    } else {
        s
    }
}

/// A text without the white space at both ends.
pub open spec fn trimmed(s: Seq<char>) -> Seq<char> {
    trim_end(trim_start(s))
}

/// Removes white space at both ends.
pub fn trim_chars(s: &str) -> (r: Vec<char>)
    ensures
        r@ == trimmed(s@),
{
    let c = chars_of(s);
    let mut start: usize = 0;
    assert(c@.skip(0) =~= c@);
    while start < c.len() && c[start].is_whitespace()
        invariant
            start <= c.len(),
            trim_start(c@.skip(start as int)) == trim_start(c@),
        decreases c.len() - start,
    {
        assert(c@.skip(start as int).drop_first() =~= c@.skip(start + 1));
        start = start + 1;
    }
    let ghost front = c@.skip(start as int);
    assert(trim_start(c@) == front);
    let mut end: usize = c.len();
    assert(c@.subrange(start as int, end as int) =~= front);
    while start < end && c[end - 1].is_whitespace()
        invariant
            start <= end <= c.len(),
            trim_end(c@.subrange(start as int, end as int)) == trim_end(front),
        decreases end,
    {
        assert(c@.subrange(start as int, end as int).drop_last() =~= c@.subrange(
            start as int,
            end - 1,
        ));
        end = end - 1;
    }
    let mut out: Vec<char> = Vec::new();
    let mut i: usize = start;
    while i < end
        invariant
            start <= i <= end <= c.len(),
            out@ == c@.subrange(start as int, i as int),
        decreases end - i,
    {
        out.push(c[i]);
        i = i + 1;
        assert(c@.subrange(start as int, i as int) =~= c@.subrange(start as int, i - 1).push(
            c@[i - 1],
        ));
    }
    out
}

// ---------------------------------------------------------------------------
// Upper case
// ---------------------------------------------------------------------------

/// The upper-case mapping that `str::to_uppercase` computes.
pub uninterp spec fn uppercase(s: Seq<char>) -> Seq<char>;

/// An ASCII character with its letters in upper case.
pub open spec fn ascii_upper(c: char) -> char {
    if 'a' <= c && c <= 'z' {
        (c as int - 32) as char
    } else {
        c
    }
}

/// A text with its ASCII letters in upper case.
pub open spec fn ascii_uppercase(s: Seq<char>) -> Seq<char> {
    s.map_values(|c: char| ascii_upper(c))
}

/// `str::to_uppercase`: the Unicode upper-case mapping of the text, which
/// depends on the text alone. On ASCII text it maps letter by letter.
#[verifier::external_body]
pub(crate) fn to_upper(s: &str) -> (r: String)
    ensures
        r@ == uppercase(s@),
        vstd::utf8::is_ascii_chars(s@) ==> r@ == ascii_uppercase(s@),
{
    s.to_uppercase()
}

// ---------------------------------------------------------------------------
// Joining and quoting
// ---------------------------------------------------------------------------

/// The parts one after the other, with a separator in between.
pub open spec fn joined(parts: Seq<Seq<char>>, separator: Seq<char>) -> Seq<char>
    decreases parts.len(),
{
    if parts.len() == 0 {
        Seq::empty()
    } else if parts.len() == 1 {
        parts[0]
    } else {
        joined(parts.drop_last(), separator) + separator + parts.last()
    }
}

/// Joins strings with a separator.
pub fn join(parts: &[String], separator: &str) -> (r: String)
    ensures
        r@ == joined(names(parts@), separator@),
{
    let mut out = String::new();
    let ghost all = names(parts@);
    let mut i: usize = 0;
    assert(all.take(0) =~= Seq::<Seq<char>>::empty());
    while i < parts.len()
        invariant
            i <= parts.len(),
            all == names(parts@),
            out@ == joined(all.take(i as int), separator@),
        decreases parts.len() - i,
    {
        if i > 0 {
            out.append(separator);
        }
        out.append(parts[i].as_str());
        assert(all.take(i + 1).drop_last() =~= all.take(i as int));
        assert(all.take(i + 1).last() == parts@[i as int]@);
        proof {
            if i == 0 {
                assert(out@ =~= parts@[0]@);
            }
        }
        i = i + 1;
    }
    assert(all.take(i as int) =~= all);
    out
}

/// The quoted, escaped form of a text that `{:?}` prints.
pub uninterp spec fn quoted(s: Seq<char>) -> Seq<char>;

/// `format!("{:?}")` of a string: the text in double quotes with its special
/// characters escaped, which depends on the text alone.
#[verifier::external_body]
pub(crate) fn quote(s: &str) -> (r: String)
    ensures
        r@ == quoted(s@),
{
    format!("{:?}", s)
}

/// Each text in its quoted form.
pub open spec fn all_quoted(list: Seq<Seq<char>>) -> Seq<Seq<char>> {
    Seq::new(list.len(), |i: int| quoted(list[i]))
}

/// A list of texts as `{:?}` prints a slice.
pub open spec fn list_text(list: Seq<Seq<char>>) -> Seq<char> {
    "["@ + joined(all_quoted(list), ", "@) + "]"@
}

/// A set of texts as `{:?}` prints a set, in the order given.
pub open spec fn set_text(list: Seq<Seq<char>>) -> Seq<char> {
    "{"@ + joined(all_quoted(list), ", "@) + "}"@
}

fn quote_all(list: &[String]) -> (r: Vec<String>)
    ensures
        names(r@) == all_quoted(names(list@)),
{
    let mut out: Vec<String> = Vec::new();
    let mut i: usize = 0;
    while i < list.len()
        invariant
            i <= list.len(),
            out@.len() == i,
            forall|j: int| 0 <= j < i ==> (#[trigger] out@[j])@ == quoted(list@[j]@),
        decreases list.len() - i,
    {
        out.push(quote(list[i].as_str()));
        i = i + 1;
    }
    assert(names(out@) =~= all_quoted(names(list@)));
    out
}

/// Prints a list of names.
pub fn print_list(list: &[String]) -> (r: String)
    ensures
        r@ == list_text(names(list@)),
{
    let parts = quote_all(list);
    let body = join(parts.as_slice(), ", ");
    let mut out = "[".to_owned();
    out.append(body.as_str());
    out.append("]");
    out
}

/// Prints a set of names, in the order given.
pub fn print_set(list: &[String]) -> (r: String)
    ensures
        r@ == set_text(names(list@)),
{
    let parts = quote_all(list);
    let body = join(parts.as_slice(), ", ");
    let mut out = "{".to_owned();
    out.append(body.as_str());
    out.append("}");
    out
}

/// Optional text as diagnostics print it.
pub open spec fn opt_text_shown(t: Option<Seq<char>>) -> Seq<char> {
    match t {
        Some(t) => "Some("@ + quoted(t) + ")"@,
        None => "None"@,
    }
}

/// Prints optional text.
pub fn print_opt(t: &Option<String>) -> (r: String)
    ensures
        r@ == opt_text_shown(opt_text(*t)),
{
    match t {
        Some(t) => concat3("Some(", quote(t.as_str()).as_str(), ")"),
        None => "None".to_owned(),
    }
}

/// Concatenates three texts.
pub fn concat3(a: &str, b: &str, c: &str) -> (r: String)
    ensures
        r@ == a@ + b@ + c@,
{
    let mut out = a.to_owned();
    out.append(b);
    out.append(c);
    out
}

/// Concatenates five texts.
pub fn concat5(a: &str, b: &str, c: &str, d: &str, e: &str) -> (r: String)
    ensures
        r@ == a@ + b@ + c@ + d@ + e@,
{
    let mut out = concat3(a, b, c);
    out.append(d);
    out.append(e);
    out
}

/// An ASCII character with its letters in lower case.
pub open spec fn ascii_lower(c: char) -> char {
    if 'A' <= c && c <= 'Z' {
        (c as int + 32) as char
    } else {
        c
    }
}

/// Whether a text is `lower` but for the case of ASCII letters.
pub open spec fn equal_ignoring_ascii_case(s: Seq<char>, lower: Seq<char>) -> bool {
    s.map_values(|c: char| ascii_lower(c)) == lower
}

/// Whether a text is `lower` but for the case of ASCII letters.
pub fn same_ignoring_ascii_case(s: &str, lower: &str) -> (r: bool)
    ensures
        r == equal_ignoring_ascii_case(s@, lower@),
{
    let a = chars_of(s);
    let b = chars_of(lower);
    let ghost lowered = s@.map_values(|c: char| ascii_lower(c));
    if a.len() != b.len() {
        return false;
    }
    let mut i: usize = 0;
    while i < a.len()
        invariant
            i <= a@.len(),
            a@.len() == b@.len(),
            a@ == s@,
            b@ == lower@,
            lowered == s@.map_values(|c: char| ascii_lower(c)),
            forall|j: int| 0 <= j < i ==> #[trigger] lowered[j] == b@[j],
        decreases a@.len() - i,
    {
        let c: char = a[i];
        let d: char = b[i];
        assert(lowered[i as int] == ascii_lower(c));
        let same = if 'A' <= c && c <= 'Z' {
            'a' <= d && d <= 'z' && c as u32 + 32 == d as u32
        } else {
            c == d
        };
        if !same {
            assert(lowered[i as int] != lower@[i as int]);
            return false;
        }
        i = i + 1;
    }
    assert(lowered =~= lower@);
    true
}

/// What the error of `std::str::from_utf8` says of bytes that are not UTF-8.
pub uninterp spec fn utf8_fault(bytes: Seq<u8>) -> Seq<char>;

/// `std::str::from_utf8`: bytes as the text whose UTF-8 they are, where they are
/// UTF-8; else the error as its `Display` prints it, which depends on the bytes
/// alone. What the error says is named and not spelled out.
#[verifier::external_body]
pub(crate) fn utf8_text(bytes: &[u8]) -> (r: core::result::Result<&str, String>)
    ensures
        match r {
            Ok(s) => vstd::utf8::valid_utf8(bytes@) && s@ == vstd::utf8::decode_utf8(bytes@),
            Err(reason) => !vstd::utf8::valid_utf8(bytes@) && reason@ == utf8_fault(bytes@),
        },
{
    match std::str::from_utf8(bytes) {
        Ok(s) => Ok(s),
        Err(e) => Err(e.to_string()),
    }
}

/// Digits are worth what they are worth in decimal: those before others count for
/// as many tens as others follow.
pub proof fn digits_have_their_place(before: Seq<char>, after: Seq<char>)
    ensures
        match (digits_value(before), digits_value(after)) {
            (Some(a), Some(b)) => digits_value(before + after) == Some(
                (a * vstd::arithmetic::power::pow(10, after.len()) + b) as nat,
            ),
            _ => digits_value(before + after) is None,
        },
    decreases after.len(),
{
    if after.len() == 0 {
        assert(before + after =~= before);
        vstd::arithmetic::power::lemma_pow0(10);
    } else {
        let front = after.drop_last();
        digits_have_their_place(before, front);
        assert((before + after).drop_last() =~= before + front);
        assert((before + after).last() == after.last());
        if digits_value(before) is Some && digits_value(after) is Some {
            let a = digits_value(before)->0 as int;
            let b = digits_value(front)->0 as int;
            let weight = vstd::arithmetic::power::pow(10, front.len());
            let d = after.last() as int - 48;
            vstd::arithmetic::power::lemma_pow_positive(10, front.len());
            assert(vstd::arithmetic::power::pow(10, after.len()) == 10 * weight) by {
                reveal(vstd::arithmetic::power::pow);
            }
            assert((a * weight + b) * 10 + d == a * (10 * weight) + (b * 10 + d))
                by (nonlinear_arith);
            assert(a * weight >= 0) by (nonlinear_arith)
                requires
                    a >= 0,
                    weight > 0,
            ;
            assert(a * (10 * weight) >= 0) by (nonlinear_arith)
                requires
                    a >= 0,
                    weight > 0,
            ;
        }
    }
}

/// One digit is worth its number, and nothing but the ten digits is worth anything.
pub proof fn one_digit(c: char)
    ensures
        '0' <= c <= '9' ==> digits_value(seq![c]) == Some((c as int - '0' as int) as nat),
        !('0' <= c <= '9') ==> digits_value(seq![c]) is None,
{
    reveal_with_fuel(digits_value, 2);
    assert(seq![c].drop_last() =~= Seq::<char>::empty());
}

/// A sign in front of digits counts, once; a sign without digits is no number.
pub proof fn signs_count_once(digits: Seq<char>)
    ensures
        digits.len() > 0 && digits_value(digits) is Some ==> {
            let n = digits_value(digits)->0 as int;
            &&& parsed_int(digits) == Some(n)
            &&& parsed_int(seq!['+'] + digits) == Some(n)
            &&& parsed_int(seq!['-'] + digits) == Some(-n)
        },
        digits.len() == 0 || digits_value(digits) is None ==> {
            &&& parsed_int(seq!['+'] + digits) is None
            &&& parsed_int(seq!['-'] + digits) is None
        },
        parsed_int(Seq::<char>::empty()) is None,
        digits_value(digits) is None && !(digits.len() > 0 && (digits[0] == '+' || digits[0]
            == '-')) ==> parsed_int(digits) is None,
{
    assert((seq!['+'] + digits).drop_first() =~= digits);
    assert((seq!['-'] + digits).drop_first() =~= digits);
    if digits.len() > 0 && digits_value(digits) is Some && (digits[0] == '+' || digits[0] == '-') {
        digits_have_their_place(seq![digits[0]], digits.drop_first());
        assert(digits =~= seq![digits[0]] + digits.drop_first());
        one_digit(digits[0]);
    }
}

/// A number of 32 bits is read exactly where the text says one that fits.
pub proof fn small_numbers_are_read(s: Seq<char>, n: i32)
    ensures
        parsed_i32(s) == Some(n) <==> parsed_int(s) == Some(n as int),
        parsed_i32(int_text(n as int)) == Some(n),
{
    int_text_reads_back(n as int);
}

/// Trimming takes white space from both ends and nothing else: what is left has
/// none at its ends.
pub proof fn trimming_takes_white_space(s: Seq<char>) -> (r: (Seq<char>, Seq<char>))
    ensures
        s == r.0 + trimmed(s) + r.1,
        forall|i: int| 0 <= i < r.0.len() ==> white_space(#[trigger] r.0[i]),
        forall|i: int| 0 <= i < r.1.len() ==> white_space(#[trigger] r.1[i]),
        trimmed(s).len() > 0 ==> !white_space(trimmed(s)[0]) && !white_space(trimmed(s).last()),
{
    let before = lemma_trim_start(s);
    let rest = trim_start(s);
    let after = lemma_trim_end(rest);
    let middle = trim_end(rest);
    assert(s =~= before + middle + after);
    if middle.len() > 0 {
        assert(middle[0] == rest[0]);
    }
    (before, after)
}

proof fn lemma_trim_start(s: Seq<char>) -> (before: Seq<char>)
    ensures
        s == before + trim_start(s),
        forall|i: int| 0 <= i < before.len() ==> white_space(#[trigger] before[i]),
        trim_start(s).len() > 0 ==> !white_space(trim_start(s)[0]),
    decreases s.len(),
{
    if s.len() > 0 && white_space(s[0]) {
        let rest = lemma_trim_start(s.drop_first());
        let before = seq![s[0]] + rest;
        let kept = trim_start(s);
        assert(s.drop_first() == rest + kept);
        assert(s =~= seq![s[0]] + s.drop_first());
        assert(s =~= before + kept);
        assert forall|i: int| 0 <= i < before.len() implies white_space(#[trigger] before[i]) by {
            if i > 0 {
                assert(before[i] == rest[i - 1]);
            }
        }
        before
    } else {
        assert(s =~= Seq::<char>::empty() + s);
        Seq::empty()
    }
}

proof fn lemma_trim_end(s: Seq<char>) -> (after: Seq<char>)
    ensures
        s == trim_end(s) + after,
        forall|i: int| 0 <= i < after.len() ==> white_space(#[trigger] after[i]),
        trim_end(s).len() > 0 ==> !white_space(trim_end(s).last()),
    decreases s.len(),
{
    if s.len() > 0 && white_space(s.last()) {
        let rest = lemma_trim_end(s.drop_last());
        let after = rest.push(s.last());
        let kept = trim_end(s);
        assert(s.drop_last() == kept + rest);
        assert(s =~= s.drop_last().push(s.last()));
        assert(s =~= kept + after);
        after
    } else {
        assert(s =~= s + Seq::<char>::empty());
        Seq::empty()
    }
}

/// White space around a text does not count when it is trimmed.
pub proof fn padding_does_not_count(before: Seq<char>, s: Seq<char>, after: Seq<char>)
    requires
        forall|i: int| 0 <= i < before.len() ==> white_space(#[trigger] before[i]),
        forall|i: int| 0 <= i < after.len() ==> white_space(#[trigger] after[i]),
        s.len() > 0,
        !white_space(s[0]),
        !white_space(s.last()),
    ensures
        trimmed(before + s + after) == s,
    decreases before.len() + after.len(),
{
    let all = before + s + after;
    if before.len() > 0 {
        assert(white_space(all[0])) by {
            assert(all[0] == before[0]);
        }
        let rest = before.drop_first();
        assert forall|i: int| 0 <= i < rest.len() implies white_space(#[trigger] rest[i]) by {
            assert(rest[i] == before[i + 1]);
        }
        padding_does_not_count(rest, s, after);
        assert(all.drop_first() =~= rest + s + after);
    } else {
        assert(all[0] == s[0]);
        assert(all =~= s + after);
        lemma_trim_end_of_padded(s, after);
    }
}

proof fn lemma_trim_end_of_padded(s: Seq<char>, after: Seq<char>)
    requires
        forall|i: int| 0 <= i < after.len() ==> white_space(#[trigger] after[i]),
        s.len() > 0,
        !white_space(s.last()),
    ensures
        trim_end(s + after) == s,
    decreases after.len(),
{
    if after.len() > 0 {
        let rest = after.drop_last();
        assert((s + after).last() == after[after.len() - 1]);
        assert forall|i: int| 0 <= i < rest.len() implies white_space(#[trigger] rest[i]) by {
            assert(rest[i] == after[i]);
        }
        lemma_trim_end_of_padded(s, rest);
        assert((s + after).drop_last() =~= s + rest);
    } else {
        assert(s + after =~= s);
    }
}

/// The two cases of the twenty-six letters, and of nothing else.
pub proof fn letters_have_two_cases(c: char)
    ensures
        'a' <= c <= 'z' ==> 'A' <= ascii_upper(c) <= 'Z' && ascii_upper(c) as int - 'A' as int
            == c as int - 'a' as int,
        !('a' <= c <= 'z') ==> ascii_upper(c) == c,
        'A' <= c <= 'Z' ==> 'a' <= ascii_lower(c) <= 'z' && ascii_lower(c) as int - 'a' as int
            == c as int - 'A' as int,
        !('A' <= c <= 'Z') ==> ascii_lower(c) == c,
        ascii_lower(ascii_upper(c)) == ascii_lower(c),
        ascii_upper(ascii_lower(c)) == ascii_upper(c),
{
}

/// Parts are joined with one separator between each two, and none elsewhere.
pub proof fn joined_goes_part_by_part(
    first: Seq<Seq<char>>,
    second: Seq<Seq<char>>,
    part: Seq<char>,
    separator: Seq<char>,
)
    ensures
        joined(Seq::empty(), separator).len() == 0,
        joined(seq![part], separator) == part,
        first.len() > 0 && second.len() > 0 ==> joined(first + second, separator) == joined(
            first,
            separator,
        ) + separator + joined(second, separator),
    decreases second.len(),
{
    if first.len() > 0 && second.len() > 0 {
        let front = second.drop_last();
        assert((first + second).drop_last() =~= first + front);
        assert((first + second).last() == second.last());
        if front.len() > 0 {
            joined_goes_part_by_part(first, front, part, separator);
            assert(joined(first, separator) + separator + joined(front, separator) + separator
                + second.last() =~= joined(first, separator) + separator + (joined(front, separator)
                + separator + second.last()));
        } else {
            assert(first + front =~= first);
        }
    }
}

/// Numbers are written without white space.
pub proof fn numbers_have_no_white_space(n: int)
    ensures
        int_text(n).len() > 0,
        forall|i: int| 0 <= i < int_text(n).len() ==> !white_space(#[trigger] int_text(n)[i]),
{
    let digits = nat_text(
        if n < 0 {
            (-n) as nat
        } else {
            n as nat
        },
    );
    lemma_only_digits(
        if n < 0 {
            (-n) as nat
        } else {
            n as nat
        },
    );
    assert forall|i: int| 0 <= i < int_text(n).len() implies !white_space(
        #[trigger] int_text(n)[i],
    ) by {
        if n < 0 {
            if i > 0 {
                assert(int_text(n)[i] == digits[i - 1]);
            }
        }
    }
}

proof fn lemma_only_digits(n: nat)
    ensures
        nat_text(n).len() > 0,
        forall|i: int| 0 <= i < nat_text(n).len() ==> is_digit(#[trigger] nat_text(n)[i]),
    decreases n,
{
    if n >= 10 {
        lemma_only_digits(n / 10);
    }
}

/// Decimal texts have a minus sign exactly where the number is negative, digits
/// behind it, and no zero in front of others.
pub proof fn numbers_are_plain(n: nat)
    ensures
        nat_text(n).len() > 0,
        forall|i: int| 0 <= i < nat_text(n).len() ==> '0' <= #[trigger] nat_text(n)[i] <= '9',
        nat_text(n).len() > 1 ==> nat_text(n)[0] != '0',
        digits_value(nat_text(n)) == Some(n),
        int_text(n as int) == nat_text(n),
        n > 0 ==> int_text(-n) == seq!['-'] + nat_text(n),
{
    lemma_only_digits(n);
    lemma_nat_text_digits(n);
    lemma_no_zero_in_front(n);
}

proof fn lemma_no_zero_in_front(n: nat)
    ensures
        nat_text(n).len() > 0,
        n > 0 ==> nat_text(n)[0] != '0',
        nat_text(n).len() > 1 ==> n > 0,
    decreases n,
{
    if n >= 10 {
        lemma_no_zero_in_front(n / 10);
    }
}

/// A list is shown between brackets, a set between braces, with its names quoted
/// and a comma and a space between each two.
pub proof fn lists_are_shown(first: Seq<Seq<char>>, second: Seq<Seq<char>>, name: Seq<char>)
    ensures
        list_text(Seq::empty()) == seq!['[', ']'],
        list_text(seq![name]) == seq!['['] + quoted(name) + seq![']'],
        set_text(seq![name]) == seq!['{'] + quoted(name) + seq!['}'],
        first.len() > 0 && second.len() > 0 ==> {
            let between = seq![',', ' '];
            &&& list_text(first + second) == list_text(first).drop_last() + between + list_text(
                second,
            ).drop_first()
            &&& set_text(first + second) == set_text(first).drop_last() + between + set_text(
                second,
            ).drop_first()
        },
{
    reveal_strlit("[");
    reveal_strlit("]");
    reveal_strlit("{");
    reveal_strlit("}");
    reveal_strlit(", ");
    assert(", "@ =~= seq![',', ' ']);
    assert(all_quoted(seq![name]) =~= seq![quoted(name)]);
    assert(all_quoted(Seq::empty()) =~= Seq::<Seq<char>>::empty());
    assert(list_text(Seq::empty()) =~= seq!['[', ']']);
    joined_goes_part_by_part(all_quoted(first), all_quoted(second), quoted(name), ", "@);
    assert(list_text(seq![name]) =~= seq!['['] + quoted(name) + seq![']']);
    assert(set_text(seq![name]) =~= seq!['{'] + quoted(name) + seq!['}']);
    if first.len() > 0 && second.len() > 0 {
        let a = joined(all_quoted(first), ", "@);
        let b = joined(all_quoted(second), ", "@);
        assert(all_quoted(first + second) =~= all_quoted(first) + all_quoted(second));
        assert(list_text(first).drop_last() =~= "["@ + a);
        assert(list_text(second).drop_first() =~= b + "]"@);
        assert(set_text(first).drop_last() =~= "{"@ + a);
        assert(set_text(second).drop_first() =~= b + "}"@);
        assert(list_text(first + second) =~= "["@ + a + ", "@ + (b + "]"@));
        assert(set_text(first + second) =~= "{"@ + a + ", "@ + (b + "}"@));
    }
}

} // verus!
