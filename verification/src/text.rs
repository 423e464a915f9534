//! Strings: the small operations every command's output is built from.
use vstd::prelude::*;
use vstd::string::{StrSliceExecFns, StringExecFns};

verus! {

/// `String::push` appends one character to the string.
pub assume_specification[ String::push ](s: &mut String, c: char)
    ensures
        final(s)@ == old(s)@.push(c),
;

/// Whether two strings hold the same characters.
pub fn same(a: &str, b: &str) -> (r: bool)
    ensures
        r == (a@ == b@),
{
    a.to_owned() == b.to_owned()
}

/// The characters of a string.
pub fn chars_of(s: &str) -> (r: Vec<char>)
    ensures
        r@ == s@,
{
    let mut out: Vec<char> = Vec::new();
    for c in it: s.chars()
        invariant
            it.seq() == s@,
            out@ == s@.take(it.index() as int),
    {
        out.push(c);
    }
    out
}

/// The string that holds the given characters.
pub fn from_chars(chars: &[char]) -> (r: String)
    ensures
        r@ == chars@,
{
    let mut out = String::new();
    for i in 0..chars.len()
        invariant
            out@ == chars@.take(i as int),
    {
        out.push(chars[i]);
    }
    out
}

/// The decimal digits of a natural number, most significant first.
pub open spec fn decimal(n: nat) -> Seq<char>
    decreases n,
{
    if n < 10 {
        seq![digit(n)]
    } else {
        decimal(n / 10).push(digit(n % 10))
    }
}

/// The character of a single decimal digit.
pub open spec fn digit(n: nat) -> char {
    (48 + n) as char
}

fn digit_char(n: u128) -> (r: char)
    requires
        n < 10,
    ensures
        r == digit(n as nat),
{
    (48u8 + n as u8) as char
}

/// Appends the decimal form of `n`.
pub fn push_decimal(s: &mut String, n: u128)
    ensures
        final(s)@ == old(s)@ + decimal(n as nat),
    decreases n,
{
    if n >= 10 {
        push_decimal(s, n / 10);
    }
    s.push(digit_char(n % 10));
}

/// The decimal form of `n`.
pub fn dec(n: u64) -> (r: String)
    ensures
        r@ == decimal(n as nat),
{
    let mut s = String::new();
    push_decimal(&mut s, n as u128);
    s
}

/// A number with zeros in front, to at least three digits.
pub open spec fn three_digits(n: nat) -> Seq<char> {
    if n < 10 {
        "00"@ + decimal(n)
    } else if n < 100 {
        "0"@ + decimal(n)
    } else {
        decimal(n)
    }
}

/// A number with zeros in front, to at least three digits.
pub fn dec3(n: u32) -> (r: String)
    ensures
        r@ == three_digits(n as nat),
{
    let digits = dec(n as u64);
    if n < 10 {
        "00".to_owned().concat(digits.as_str())
    } else if n < 100 {
        "0".to_owned().concat(digits.as_str())
    } else {
        digits
    }
}

/// A hexadecimal digit.
pub open spec fn hex_digit(n: int) -> char {
    if n < 10 {
        (48 + n) as char
    } else {
        (87 + n) as char
    }
}

/// A hexadecimal digit.
pub fn hex_char(n: u8) -> (r: char)
    requires
        n < 16,
    ensures
        r == hex_digit(n as int),
{
    if n < 10 {
        (48 + n) as char
    } else {
        (87 + n) as char
    }
}

/// The decimal form of an integer, with a minus sign in front where it is negative.
pub open spec fn signed_decimal(n: int) -> Seq<char> {
    if n < 0 {
        seq!['-'] + decimal((-n) as nat)
    } else {
        decimal(n as nat)
    }
}

/// The decimal form of `n`, with a minus sign in front where it is negative.
pub fn signed_dec(n: i64) -> (r: String)
    ensures
        r@ == signed_decimal(n as int),
{
    if n < 0 {
        let mut s = String::new();
        s.push('-');
        let magnitude: u64 = if n == i64::MIN {
            0x8000_0000_0000_0000
        } else {
            (-n) as u64
        };
        push_decimal(&mut s, magnitude as u128);
        assert(s@ =~= seq!['-'] + decimal(magnitude as nat));
        s
    } else {
        dec(n as u64)
    }
}

/// Unicode white space.
pub open spec fn is_space(c: char) -> bool {
    let n = c as u32;
    ||| 0x09 <= n <= 0x0d
    ||| n == 0x20
    ||| n == 0x85
    ||| n == 0xa0
    ||| n == 0x1680
    ||| 0x2000 <= n <= 0x200a
    ||| n == 0x2028
    ||| n == 0x2029
    ||| n == 0x202f
    ||| n == 0x205f
    ||| n == 0x3000
}

/// Whether `c` is Unicode white space.
pub fn space(c: char) -> (r: bool)
    ensures
        r == is_space(c),
{
    let n: u32 = c as u32;
    (0x09 <= n && n <= 0x0d) || n == 0x20 || n == 0x85 || n == 0xa0 || n == 0x1680 || (0x2000 <= n
        && n <= 0x200a) || n == 0x2028 || n == 0x2029 || n == 0x202f || n == 0x205f || n == 0x3000
}

/// The text without the white space it starts with.
pub open spec fn trim_front(s: Seq<char>) -> Seq<char>
    decreases s.len(),
{
    if s.len() > 0 && is_space(s[0]) {
        trim_front(s.drop_first())
    } else {
        s
    }
}

/// The text without the white space it ends with.
pub open spec fn trim_back(s: Seq<char>) -> Seq<char>
    decreases s.len(),
{
    if s.len() > 0 && is_space(s.last()) {
        trim_back(s.drop_last())
    } else {
        s
    }
}

/// The text without the white space around it.
pub open spec fn trimmed(s: Seq<char>) -> Seq<char> {
    trim_back(trim_front(s))
}

/// The text without the white space around it.
pub fn trim(s: &str) -> (r: String)
    ensures
        r@ == trimmed(s@),
{
    let chars = chars_of(s);
    let mut from: usize = 0;
    assert(chars@.skip(0) =~= s@);
    while from < chars.len() && space(chars[from])
        invariant
            from <= chars@.len(),
            trim_front(s@) == trim_front(chars@.skip(from as int)),
        decreases chars@.len() - from,
    {
        assert(chars@.skip(from as int).drop_first() =~= chars@.skip(from + 1));
        from += 1;
    }
    let ghost front = chars@.skip(from as int);
    assert(front == trim_front(s@));
    let mut to: usize = chars.len();
    assert(front.take(to - from) =~= front);
    while to > from && space(chars[to - 1])
        invariant
            from <= to <= chars@.len(),
            front == chars@.skip(from as int),
            trim_back(front) == trim_back(front.take(to - from)),
        decreases to,
    {
        assert(front.take(to - from).drop_last() =~= front.take(to - from - 1));
        assert(front.take(to - from).last() == chars@[to - 1]);
        to -= 1;
    }
    assert(to > from ==> front.take(to - from).last() == chars@[to - 1]);
    let mut out = String::new();
    for i in from..to
        invariant
            from <= to <= chars@.len(),
            out@ == chars@.subrange(from as int, i as int),
    {
        out.push(chars[i]);
        assert(out@ =~= chars@.subrange(from as int, i + 1));
    }
    assert(out@ =~= front.take(to - from));
    out
}

/// Whether the text holds white space only.
pub fn is_blank(s: &str) -> (r: bool)
    ensures
        r == (trimmed(s@).len() == 0),
{
    trim(s).as_str().is_empty()
}

/// Whether the text starts with `prefix`.
pub open spec fn has_prefix(s: Seq<char>, prefix: Seq<char>) -> bool {
    prefix.len() <= s.len() && s.take(prefix.len() as int) == prefix
}

/// Whether `part` stands in the text at position `at`.
pub open spec fn stands_at(s: Seq<char>, part: Seq<char>, at: int) -> bool {
    0 <= at && at + part.len() <= s.len() && s.subrange(at, at + part.len()) == part
}

/// Whether `part` stands anywhere in the text.
pub open spec fn holds(s: Seq<char>, part: Seq<char>) -> bool {
    exists|at: int| stands_at(s, part, at)
}

fn part_at(s: &Vec<char>, part: &Vec<char>, at: usize) -> (r: bool)
    requires
        at <= s@.len(),
    ensures
        r == stands_at(s@, part@, at as int),
{
    if part.len() > s.len() - at {
        return false;
    }
    for i in 0..part.len()
        invariant
            at + part.len() <= s.len(),
            forall|j: int| 0 <= j < i ==> s@[at + j] == part@[j],
    {
        if s[at + i] != part[i] {
            assert(s@.subrange(at as int, at + part@.len())[i as int] != part@[i as int]);
            return false;
        }
    }
    assert(s@.subrange(at as int, at + part@.len()) =~= part@);
    true
}

/// Whether the text starts with `prefix`.
pub fn starts_with(s: &str, prefix: &str) -> (r: bool)
    ensures
        r == has_prefix(s@, prefix@),
{
    let s = chars_of(s);
    let prefix = chars_of(prefix);
    assert(prefix@.len() <= s@.len() ==> s@.subrange(0, prefix@.len() as int) =~= s@.take(
        prefix@.len() as int,
    ));
    part_at(&s, &prefix, 0)
}

/// Whether `part` stands anywhere in the text.
pub fn contains(s: &str, part: &str) -> (r: bool)
    ensures
        r == holds(s@, part@),
{
    let all = chars_of(s);
    let wanted = chars_of(part);
    let mut at: usize = 0;
    while at < all.len()
        invariant
            at <= all@.len(),
            all@ == s@,
            wanted@ == part@,
            forall|k: int| 0 <= k < at ==> !stands_at(s@, part@, k),
        decreases all@.len() - at,
    {
        if part_at(&all, &wanted, at) {
            return true;
        }
        at += 1;
    }
    let r = part_at(&all, &wanted, at);
    assert(!r ==> forall|k: int| !stands_at(s@, part@, k));
    r
}

/// The text with its letters in lower case.
pub uninterp spec fn lowercase(s: Seq<char>) -> Seq<char>;

/// The text in quotes, with what a reader could not tell apart written as escapes.
pub uninterp spec fn quoted(s: Seq<char>) -> Seq<char>;

/// `str::to_lowercase`. The text depends on the argument alone: `lowercase` names it.
#[verifier::external_body]
pub(crate) fn lower(s: &str) -> (r: String)
    ensures
        r@ == lowercase(s@),
{
    s.to_lowercase()
}

/// The `Debug` form of a string. The text depends on the argument alone: `quoted` names it.
#[verifier::external_body]
pub(crate) fn debug_text(s: &str) -> (r: String)
    ensures
        r@ == quoted(s@),
{
    format!("{:?}", s)
}

/// The text without the characters `c` that it starts with.
pub open spec fn without_front(s: Seq<char>, c: char) -> Seq<char>
    decreases s.len(),
{
    if s.len() > 0 && s[0] == c {
        without_front(s.drop_first(), c)
    } else {
        s
    }
}

/// The text without the characters `c` that it ends with.
pub open spec fn without_back(s: Seq<char>, c: char) -> Seq<char>
    decreases s.len(),
{
    if s.len() > 0 && s.last() == c {
        without_back(s.drop_last(), c)
    } else {
        s
    }
}

/// The characters from one position to another.
pub fn slice(chars: &Vec<char>, from: usize, to: usize) -> (r: String)
    requires
        from <= to <= chars@.len(),
    ensures
        r@ == chars@.subrange(from as int, to as int),
{
    let mut out = String::new();
    for i in from..to
        invariant
            from <= to <= chars@.len(),
            out@ == chars@.subrange(from as int, i as int),
    {
        out.push(chars[i]);
        assert(out@ =~= chars@.subrange(from as int, i + 1));
    }
    out
}

/// The text without the characters `c` that it starts with.
pub fn strip_front(s: &str, c: char) -> (r: String)
    ensures
        r@ == without_front(s@, c),
{
    let chars = chars_of(s);
    let mut from: usize = 0;
    assert(chars@.skip(0) =~= s@);
    while from < chars.len() && chars[from] == c
        invariant
            from <= chars@.len(),
            without_front(s@, c) == without_front(chars@.skip(from as int), c),
        decreases chars@.len() - from,
    {
        assert(chars@.skip(from as int).drop_first() =~= chars@.skip(from + 1));
        from += 1;
    }
    assert(chars@.subrange(from as int, chars@.len() as int) =~= chars@.skip(from as int));
    slice(&chars, from, chars.len())
}

/// The text without the characters `c` that it ends with.
pub fn strip_back(s: &str, c: char) -> (r: String)
    ensures
        r@ == without_back(s@, c),
{
    let chars = chars_of(s);
    let mut to: usize = chars.len();
    assert(chars@.take(to as int) =~= s@);
    while to > 0 && chars[to - 1] == c
        invariant
            to <= chars@.len(),
            without_back(s@, c) == without_back(chars@.take(to as int), c),
        decreases to,
    {
        assert(chars@.take(to as int).drop_last() =~= chars@.take(to - 1));
        assert(chars@.take(to as int).last() == chars@[to - 1]);
        to -= 1;
    }
    assert(to > 0 ==> chars@.take(to as int).last() == chars@[to - 1]);
    assert(chars@.subrange(0, to as int) =~= chars@.take(to as int));
    slice(&chars, 0, to)
}

/// What stands behind a prefix, where the text starts with it.
pub fn strip_prefix(s: &str, prefix: &str) -> (r: Option<String>)
    ensures
        has_prefix(s@, prefix@) ==> r is Some && r->0@ == s@.skip(prefix@.len() as int),
        !has_prefix(s@, prefix@) ==> r is None,
{
    if !starts_with(s, prefix) {
        return None;
    }
    let chars = chars_of(s);
    let n: usize = prefix.unicode_len();
    assert(chars@.subrange(n as int, chars@.len() as int) =~= chars@.skip(n as int));
    Some(slice(&chars, n, chars.len()))
}

/// The last position at which `part` stands in the text; `None` where it does not.
pub open spec fn is_last_at(s: Seq<char>, part: Seq<char>, at: int) -> bool {
    stands_at(s, part, at) && forall|k: int| at < k ==> !stands_at(s, part, k)
}

/// What stands behind the last `part` of the text; `None` where there is none.
pub fn after_last(s: &str, part: &str) -> (r: Option<String>)
    ensures
        match r {
            Some(rest) => exists|at: int| #[trigger]
                is_last_at(s@, part@, at) && rest@ == s@.skip(at + part@.len()),
            None => !holds(s@, part@),
        },
{
    let all = chars_of(s);
    let wanted = chars_of(part);
    let mut at: usize = all.len();
    loop
        invariant
            at <= all@.len(),
            all@ == s@,
            wanted@ == part@,
            forall|k: int| at < k ==> !stands_at(s@, part@, k),
        decreases at,
    {
        if part_at(&all, &wanted, at) {
            let n: usize = all.len();
            let m: usize = wanted.len();
            assert(at + m <= n);
            let from: usize = at + m;
            assert(is_last_at(s@, part@, at as int));
            assert(all@.subrange(from as int, all@.len() as int) =~= s@.skip(at + part@.len()));
            return Some(slice(&all, from, all.len()));
        }
        if at == 0 {
            assert(forall|k: int| !stands_at(s@, part@, k));
            return None;
        }
        at -= 1;
    }
}

/// Whether `part` stands at a position of the text and nowhere before it.
pub open spec fn is_first_at(s: Seq<char>, part: Seq<char>, at: int) -> bool {
    stands_at(s, part, at) && forall|k: int| k < at ==> !stands_at(s, part, k)
}

/// What stands before the first `part` of the text; the whole text where there is none.
pub fn before_first(s: &str, part: &str) -> (r: String)
    ensures
        holds(s@, part@) ==> exists|at: int| #[trigger]
            is_first_at(s@, part@, at) && r@ == s@.take(at),
        !holds(s@, part@) ==> r@ == s@,
{
    let all = chars_of(s);
    let wanted = chars_of(part);
    for at in 0..all.len()
        invariant
            all@ == s@,
            wanted@ == part@,
            forall|k: int| k < at ==> !stands_at(s@, part@, k),
    {
        if part_at(&all, &wanted, at) {
            assert(is_first_at(s@, part@, at as int));
            assert(all@.subrange(0, at as int) =~= s@.take(at as int));
            return slice(&all, 0, at);
        }
    }
    proof {
        if holds(s@, part@) {
            let k = choose|k: int| stands_at(s@, part@, k);
            assert(k == s@.len());
            assert(is_first_at(s@, part@, k));
            assert(s@.take(k) =~= s@);
        }
    }
    s.to_owned()
}

/// Whether the text ends with `suffix`.
pub open spec fn has_suffix(s: Seq<char>, suffix: Seq<char>) -> bool {
    stands_at(s, suffix, s.len() - suffix.len())
}

/// Whether the text ends with `suffix`.
pub fn ends_with(s: &str, suffix: &str) -> (r: bool)
    ensures
        r == has_suffix(s@, suffix@),
{
    let all = chars_of(s);
    let wanted = chars_of(suffix);
    if wanted.len() > all.len() {
        return false;
    }
    part_at(&all, &wanted, all.len() - wanted.len())
}

/// The text without any character `c`.
pub open spec fn without_char(s: Seq<char>, c: char) -> Seq<char>
    decreases s.len(),
{
    if s.len() == 0 {
        s
    } else if s.last() == c {
        without_char(s.drop_last(), c)
    } else {
        without_char(s.drop_last(), c).push(s.last())
    }
}

/// The text without any character `c`.
pub fn strip_char(s: &str, c: char) -> (r: String)
    ensures
        r@ == without_char(s@, c),
{
    let all = chars_of(s);
    let mut out = String::new();
    assert(s@.take(0) =~= Seq::empty());
    for i in 0..all.len()
        invariant
            all@ == s@,
            out@ == without_char(s@.take(i as int), c),
    {
        assert(s@.take(i + 1).drop_last() =~= s@.take(i as int));
        assert(s@.take(i + 1).last() == all@[i as int]);
        if all[i] != c {
            out.push(all[i]);
        }
    }
    assert(s@.take(s@.len() as int) =~= s@);
    out
}

/// How many bytes a character takes in UTF-8.
pub open spec fn width(c: char) -> nat {
    if (c as int) < 0x80 {
        1
    } else if (c as int) < 0x800 {
        2
    } else if (c as int) < 0x10000 {
        3
    } else {
        4
    }
}

/// How many bytes a text takes in UTF-8.
pub open spec fn byte_len(s: Seq<char>) -> nat
    decreases s.len(),
{
    if s.len() == 0 {
        0
    } else {
        byte_len(s.drop_last()) + width(s.last())
    }
}

/// The text up to its first `bytes` bytes, where a character ends there; else the whole text.
pub open spec fn shortened(s: Seq<char>, bytes: nat) -> Seq<char> {
    if exists|k: int| 0 <= k <= s.len() && byte_len(#[trigger] s.take(k)) == bytes {
        s.take(choose|k: int| 0 <= k <= s.len() && byte_len(#[trigger] s.take(k)) == bytes)
    } else {
        s
    }
}

/// A longer part of a text takes more bytes.
proof fn lemma_byte_len_grows(s: Seq<char>, a: int, b: int)
    requires
        0 <= a < b <= s.len(),
    ensures
        byte_len(s.take(a)) < byte_len(s.take(b)),
    decreases b - a,
{
    assert(s.take(b).drop_last() =~= s.take(b - 1));
    if a < b - 1 {
        lemma_byte_len_grows(s, a, b - 1);
    }
}

fn width_of(c: char) -> (r: usize)
    ensures
        r == width(c),
{
    let n: u32 = c as u32;
    if n < 0x80 {
        1
    } else if n < 0x800 {
        2
    } else if n < 0x10000 {
        3
    } else {
        4
    }
}

/// The text up to its first `bytes` bytes, where a character ends there; else the whole text.
pub fn shorten(s: &str, bytes: usize) -> (r: String)
    ensures
        r@ == shortened(s@, bytes as nat),
{
    let all = chars_of(s);
    let mut taken: usize = 0;
    let mut i: usize = 0;
    assert(s@.take(0) =~= Seq::empty());
    while i < all.len() && taken < bytes
        invariant
            all@ == s@,
            i <= all@.len(),
            taken == byte_len(s@.take(i as int)),
            taken <= bytes,
            forall|k: int| 0 <= k < i ==> byte_len(#[trigger] s@.take(k)) < bytes,
        decreases all@.len() - i,
    {
        assert(s@.take(i + 1).drop_last() =~= s@.take(i as int));
        assert(s@.take(i + 1).last() == all@[i as int]);
        let w: usize = width_of(all[i]);
        if w > bytes - taken {
            proof {
                assert forall|k: int| 0 <= k <= s@.len() implies byte_len(#[trigger] s@.take(k))
                    != bytes by {
                    if k > i + 1 {
                        lemma_byte_len_grows(s@, i + 1, k);
                    }
                }
            }
            return s.to_owned();
        }
        taken += w;
        i += 1;
    }
    if taken == bytes {
        proof {
            assert forall|k: int|
                0 <= k <= s@.len() && byte_len(#[trigger] s@.take(k)) == bytes implies k == i by {
                if k > i {
                    lemma_byte_len_grows(s@, i as int, k);
                }
            }
            assert(byte_len(s@.take(i as int)) == bytes);
            assert(all@.subrange(0, i as int) =~= s@.take(i as int));
        }
        return slice(&all, 0, i);
    }
    proof {
        assert forall|k: int| 0 <= k <= s@.len() implies byte_len(#[trigger] s@.take(k))
            != bytes by {
        }
    }
    s.to_owned()
}

/// The models of a list of strings.
pub open spec fn texts(lines: Seq<String>) -> Seq<Seq<char>>
    decreases lines.len(),
{
    if lines.len() == 0 {
        Seq::empty()
    } else {
        texts(lines.drop_last()).push(lines.last()@)
    }
}

/// One more string adds one more model.
pub broadcast proof fn lemma_texts_push(lines: Seq<String>, line: String)
    ensures
        #[trigger] texts(lines.push(line)) == texts(lines).push(line@),
{
    assert(lines.push(line).drop_last() =~= lines);
}

/// The models of a list stand in its order.
pub broadcast proof fn lemma_texts_index(lines: Seq<String>)
    ensures
        #[trigger] texts(lines).len() == lines.len(),
        forall|i: int| 0 <= i < lines.len() ==> #[trigger] texts(lines)[i] == lines[i]@,
    decreases lines.len(),
{
    if lines.len() > 0 {
        lemma_texts_index(lines.drop_last());
    }
}

pub broadcast group group_texts {
    lemma_texts_push,
    lemma_texts_index,
}

/// Lines joined by `separator`.
pub open spec fn joined(lines: Seq<Seq<char>>, separator: Seq<char>) -> Seq<char>
    decreases lines.len(),
{
    if lines.len() == 0 {
        Seq::empty()
    } else if lines.len() == 1 {
        lines[0]
    } else {
        joined(lines.drop_last(), separator) + separator + lines.last()
    }
}

/// Lines joined by `separator`.
pub fn join(lines: &Vec<String>, separator: &str) -> (r: String)
    ensures
        r@ == joined(texts(lines@), separator@),
{
    broadcast use group_texts;

    let mut out = String::new();
    for i in 0..lines.len()
        invariant
            out@ == joined(texts(lines@).take(i as int), separator@),
    {
        proof {
            lemma_texts_index(lines@);
        }
        let ghost all = texts(lines@);
        assert(all.take(i + 1).drop_last() =~= all.take(i as int));
        assert(all.take(i + 1).last() == lines@[i as int]@);
        if i > 0 {
            out.append(separator);
            out.append(lines[i].as_str());
        } else {
            out = lines[i].clone();
        }
    }
    assert(texts(lines@).take(lines@.len() as int) =~= texts(lines@));
    out
}

/// Whether a text comes before another in the order of its characters, or is the same.
pub open spec fn ordered(a: Seq<char>, b: Seq<char>) -> bool
    decreases a.len(),
{
    if a.len() == 0 {
        true
    } else if b.len() == 0 {
        false
    } else if a[0] != b[0] {
        (a[0] as int) < (b[0] as int)
    } else {
        ordered(a.drop_first(), b.drop_first())
    }
}

/// Of two texts, one comes before the other.
pub proof fn lemma_ordered_total(a: Seq<char>, b: Seq<char>)
    ensures
        ordered(a, b) || ordered(b, a),
    decreases a.len(),
{
    if a.len() > 0 && b.len() > 0 {
        if a[0] == b[0] {
            lemma_ordered_total(a.drop_first(), b.drop_first());
        }
    }
}

/// The order of texts is transitive.
pub proof fn lemma_ordered_transitive(a: Seq<char>, b: Seq<char>, c: Seq<char>)
    requires
        ordered(a, b),
        ordered(b, c),
    ensures
        ordered(a, c),
    decreases a.len(),
{
    if a.len() > 0 && b.len() > 0 && c.len() > 0 && a[0] == b[0] && b[0] == c[0] {
        lemma_ordered_transitive(a.drop_first(), b.drop_first(), c.drop_first());
    }
}

/// Two texts that come before each other are the same.
pub proof fn lemma_ordered_antisymmetric(a: Seq<char>, b: Seq<char>)
    requires
        ordered(a, b),
        ordered(b, a),
    ensures
        a == b,
    decreases a.len(),
{
    if a.len() > 0 && b.len() > 0 {
        lemma_ordered_antisymmetric(a.drop_first(), b.drop_first());
        assert(a =~= seq![a[0]] + a.drop_first());
        assert(b =~= seq![b[0]] + b.drop_first());
    } else {
        assert(a =~= b);
    }
}

fn code(c: char) -> (r: u32)
    ensures
        r == c as int,
{
    c as u32
}

/// Whether a text comes before another in the order of its characters, or is the same.
pub fn in_order(a: &str, b: &str) -> (r: bool)
    ensures
        r == ordered(a@, b@),
{
    let x = chars_of(a);
    let y = chars_of(b);
    let mut i: usize = 0;
    assert(x@.skip(0) =~= x@);
    assert(y@.skip(0) =~= y@);
    while i < x.len() && i < y.len()
        invariant
            i <= x@.len(),
            i <= y@.len(),
            x@ == a@,
            y@ == b@,
            ordered(a@, b@) == ordered(x@.skip(i as int), y@.skip(i as int)),
        decreases x@.len() - i,
    {
        if x[i] != y[i] {
            return code(x[i]) < code(y[i]);
        }
        assert(x@.skip(i as int).drop_first() =~= x@.skip(i + 1));
        assert(y@.skip(i as int).drop_first() =~= y@.skip(i + 1));
        i += 1;
    }
    i == x.len()
}

/// A character that can end a line or move the cursor: a control character or one of the line and
/// paragraph separators.
pub open spec fn breaks_line(c: char) -> bool {
    let n = c as u32;
    n < 0x20 || 0x7f <= n <= 0x9f || n == 0x2028 || n == 0x2029
}

/// The text on one line: each character that breaks a line becomes a space.
pub open spec fn one_line(s: Seq<char>) -> Seq<char> {
    s.map_values(
        |c: char|
            if breaks_line(c) {
                ' '
            } else {
                c
            },
    )
}

/// The first `max` characters, or all where there are no more.
pub open spec fn clipped(s: Seq<char>, max: nat) -> Seq<char> {
    if s.len() <= max {
        s
    } else {
        s.take(max as int)
    }
}

/// The text on one line: each character that breaks a line becomes a space.
pub fn line_safe(s: &str) -> (r: String)
    ensures
        r@ == one_line(s@),
{
    let chars = chars_of(s);
    let mut out = String::new();
    for i in 0..chars.len()
        invariant
            chars@ == s@,
            out@ == one_line(s@).take(i as int),
    {
        let c = chars[i];
        let n: u32 = c as u32;
        if n < 0x20 || (0x7f <= n && n <= 0x9f) || n == 0x2028 || n == 0x2029 {
            out.push(' ');
        } else {
            out.push(c);
        }
        assert(out@ =~= one_line(s@).take(i + 1));
    }
    assert(one_line(s@).take(s@.len() as int) =~= one_line(s@));
    out
}

/// The first `max` characters, or all where there are no more.
pub fn clip(s: &str, max: usize) -> (r: String)
    ensures
        r@ == clipped(s@, max as nat),
{
    let chars = chars_of(s);
    if chars.len() <= max {
        s.to_owned()
    } else {
        let mut out = String::new();
        for i in 0..max
            invariant
                chars@ == s@,
                max < chars@.len(),
                out@ == s@.take(i as int),
        {
            out.push(chars[i]);
            assert(out@ =~= s@.take(i + 1));
        }
        out
    }
}

/// The text on one line, cut to its first `max` characters.
pub fn line_safe_clip(s: &str, max: usize) -> (r: String)
    ensures
        r@ == clipped(one_line(s@), max as nat),
{
    clip(line_safe(s).as_str(), max)
}

/// Trimming takes white space off both ends, all of it and nothing else: what is left is a part of
/// the text that neither starts nor ends with white space, and what is taken off is white space.
pub proof fn law_trimmed(s: Seq<char>)
    ensures
        exists|a: int, b: int|
            {
                &&& 0 <= a <= b <= s.len()
                &&& trimmed(s) == #[trigger] s.subrange(a, b)
                &&& forall|i: int| 0 <= i < a ==> is_space(#[trigger] s[i])
                &&& forall|i: int| b <= i < s.len() ==> is_space(#[trigger] s[i])
            },
        trimmed(s).len() > 0 ==> !is_space(trimmed(s)[0]) && !is_space(trimmed(s).last()),
        (exists|i: int| 0 <= i < s.len() && !is_space(#[trigger] s[i])) ==> trimmed(s).len() > 0,
{
    let front = trim_front(s);
    lemma_trim_front(s);
    lemma_trim_back(front);
    let n = trimmed(s).len() as int;
    let at = s.len() - front.len();
    assert(s.subrange(at, at + n) =~= trimmed(s));
    assert forall|i: int| at + n <= i < s.len() implies is_space(#[trigger] s[i]) by {
        assert(front[i - at] == s[i]);
    }
    if n > 0 {
        assert(trimmed(s)[0] == front[0]);
    }
}

proof fn lemma_trim_front(s: Seq<char>)
    ensures
        trim_front(s).len() <= s.len(),
        trim_front(s) == s.skip(s.len() - trim_front(s).len()),
        trim_front(s).len() > 0 ==> !is_space(trim_front(s)[0]),
        forall|i: int| 0 <= i < s.len() - trim_front(s).len() ==> is_space(#[trigger] s[i]),
    decreases s.len(),
{
    if s.len() > 0 && is_space(s[0]) {
        let rest = s.drop_first();
        lemma_trim_front(rest);
        assert(trim_front(s) =~= s.skip(s.len() - trim_front(s).len()));
        assert forall|i: int| 0 <= i < s.len() - trim_front(s).len() implies is_space(
            #[trigger] s[i],
        ) by {
            if i > 0 {
                assert(rest[i - 1] == s[i]);
            }
        }
    } else {
        assert(s.skip(0) =~= s);
    }
}

proof fn lemma_trim_back(s: Seq<char>)
    ensures
        trim_back(s).len() <= s.len(),
        trim_back(s) == s.take(trim_back(s).len() as int),
        trim_back(s).len() > 0 ==> !is_space(trim_back(s).last()),
        forall|i: int| trim_back(s).len() <= i < s.len() ==> is_space(#[trigger] s[i]),
    decreases s.len(),
{
    if s.len() > 0 && is_space(s.last()) {
        let rest = s.drop_last();
        lemma_trim_back(rest);
        assert(trim_back(s) =~= s.take(trim_back(s).len() as int));
        assert forall|i: int| trim_back(s).len() <= i < s.len() implies is_space(#[trigger] s[i]) by {
            if i < rest.len() {
                assert(rest[i] == s[i]);
            }
        }
    } else {
        assert(s.take(s.len() as int) =~= s);
    }
}

/// A part stands in a text exactly where the text is something, the part, and something more.
pub proof fn law_parts(s: Seq<char>, part: Seq<char>)
    ensures
        holds(s, part) <==> exists|a: Seq<char>, b: Seq<char>| s == #[trigger] (a + part + b),
        has_prefix(s, part) <==> exists|b: Seq<char>| s == #[trigger] (part + b),
        has_suffix(s, part) <==> exists|a: Seq<char>| s == #[trigger] (a + part),
{
    if holds(s, part) {
        let at = choose|at: int| stands_at(s, part, at);
        let (a, b) = (s.take(at), s.skip(at + part.len()));
        assert(s =~= a + part + b);
    }
    if exists|a: Seq<char>, b: Seq<char>| s == #[trigger] (a + part + b) {
        let (a, b) = choose|a: Seq<char>, b: Seq<char>| s == #[trigger] (a + part + b);
        assert(s.subrange(a.len() as int, a.len() as int + part.len()) =~= part);
        assert(stands_at(s, part, a.len() as int));
    }
    if has_prefix(s, part) {
        assert(s =~= part + s.skip(part.len() as int));
    }
    if exists|b: Seq<char>| s == #[trigger] (part + b) {
        let b = choose|b: Seq<char>| s == #[trigger] (part + b);
        assert(s.take(part.len() as int) =~= part);
    }
    if has_suffix(s, part) {
        assert(s =~= s.take(s.len() - part.len()) + part);
    }
    if exists|a: Seq<char>| s == #[trigger] (a + part) {
        let a = choose|a: Seq<char>| s == #[trigger] (a + part);
        assert(s.subrange(s.len() - part.len(), s.len() as int) =~= part);
    }
}

/// The number that decimal digits stand for.
pub open spec fn digits_value(s: Seq<char>) -> int
    decreases s.len(),
{
    if s.len() == 0 {
        0
    } else {
        digits_value(s.drop_last()) * 10 + (s.last() as int - '0' as int)
    }
}

/// The decimal form of a number reads back as the number, holds digits only, and starts with a zero
/// only where it is zero; so different numbers are written differently.
pub proof fn law_decimals_read_back(n: nat)
    ensures
        digits_value(decimal(n)) == n,
        decimal(n).len() > 0,
        forall|i: int| 0 <= i < decimal(n).len() ==> '0' <= #[trigger] decimal(n)[i] <= '9',
        n > 0 ==> decimal(n)[0] != '0',
        n == 0 ==> decimal(n) == seq!['0'],
    decreases n,
{
    let s = decimal(n);
    assert(s.last() as int == 48 + n % 10);
    if n >= 10 {
        law_decimals_read_back(n / 10);
        assert(s.drop_last() =~= decimal(n / 10));
        assert forall|i: int| 0 <= i < s.len() implies '0' <= #[trigger] s[i] <= '9' by {
            if i < s.len() - 1 {
                assert(s[i] == decimal(n / 10)[i]);
            }
        }
        assert(s[0] == decimal(n / 10)[0]);
    } else {
        assert(s.drop_last() =~= Seq::<char>::empty());
        assert(digits_value(s.drop_last()) == 0);
    }
}

/// A number of three digits is written with zeros in front where it is smaller, and reads back as
/// the number; a negative number is a minus sign and its magnitude.
pub proof fn law_padded_and_signed(n: nat, k: int)
    ensures
        digits_value(three_digits(n)) == n,
        three_digits(n).len() >= 3,
        n >= 100 ==> three_digits(n) == decimal(n),
        n < 1000 ==> three_digits(n).len() == 3,
        k >= 0 ==> signed_decimal(k) == decimal(k as nat),
        k < 0 ==> signed_decimal(k) == seq!['-'] + decimal((-k) as nat),
{
    reveal_strlit("0");
    reveal_strlit("00");
    assert("0"@ =~= seq!['0']);
    assert("00"@ =~= seq!['0', '0']);
    law_decimals_read_back(n);
    reveal_with_fuel(decimal, 4);
    reveal_with_fuel(digits_value, 5);
    if n < 10 {
        assert(three_digits(n) =~= seq!['0', '0', digit(n)]);
        assert(three_digits(n).drop_last() =~= seq!['0', '0']);
        assert(three_digits(n).drop_last().drop_last() =~= seq!['0']);
        assert(three_digits(n).drop_last().drop_last().drop_last() =~= Seq::<char>::empty());
    } else if n < 100 {
        assert(decimal(n) =~= seq![digit(n / 10), digit(n % 10)]);
        assert(three_digits(n) =~= seq!['0', digit(n / 10), digit(n % 10)]);
        assert(three_digits(n).drop_last() =~= seq!['0', digit(n / 10)]);
        assert(three_digits(n).drop_last().drop_last() =~= seq!['0']);
        assert(three_digits(n).drop_last().drop_last().drop_last() =~= Seq::<char>::empty());
    } else if n < 1000 {
        assert(decimal(n) =~= seq![digit(n / 100), digit((n / 10) % 10), digit(n % 10)]);
    } else {
        assert(decimal(n).len() >= 3);
    }
}

/// White space is what separates words, and no letter, digit or sign that can be seen.
pub proof fn law_white_space(c: char)
    ensures
        c == ' ' || c == '\n' || c == '\t' || c == '\r' ==> is_space(c),
        '!' <= c <= '~' ==> !is_space(c),
{
}

/// What is taken off an end of a text is that character alone, and all of it there.
pub proof fn law_ends_are_stripped(s: Seq<char>, c: char)
    ensures
        exists|n: int|
            0 <= n <= s.len() && without_front(s, c) == #[trigger] s.skip(n) && forall|i: int|
                0 <= i < n ==> #[trigger] s[i] == c,
        without_front(s, c).len() > 0 ==> without_front(s, c)[0] != c,
        exists|n: int|
            0 <= n <= s.len() && without_back(s, c) == #[trigger] s.take(n) && forall|i: int|
                n <= i < s.len() ==> #[trigger] s[i] == c,
        without_back(s, c).len() > 0 ==> without_back(s, c).last() != c,
    decreases s.len(),
{
    if s.len() > 0 && s[0] == c {
        let rest = s.drop_first();
        law_ends_are_stripped(rest, c);
        let n = choose|n: int|
            0 <= n <= rest.len() && without_front(rest, c) == #[trigger] rest.skip(n) && forall|i: int|
                0 <= i < n ==> #[trigger] rest[i] == c;
        assert(rest.skip(n) =~= s.skip(n + 1));
        assert forall|i: int| 0 <= i < n + 1 implies #[trigger] s[i] == c by {
            if i > 0 {
                assert(rest[i - 1] == c);
            }
        }
    } else {
        assert(s.skip(0) =~= s);
    }
    if s.len() > 0 && s.last() == c {
        let rest = s.drop_last();
        law_ends_are_stripped(rest, c);
        let n = choose|n: int|
            0 <= n <= rest.len() && without_back(rest, c) == #[trigger] rest.take(n) && forall|i: int|
                n <= i < rest.len() ==> #[trigger] rest[i] == c;
        assert(rest.take(n) =~= s.take(n));
        assert forall|i: int| n <= i < s.len() implies #[trigger] s[i] == c by {
            if i < rest.len() {
                assert(rest[i] == c);
            }
        }
    } else {
        assert(s.take(s.len() as int) =~= s);
    }
}

/// Lines are joined in their order with the separator between them, and nothing before the first or
/// behind the last.
pub proof fn law_joined(lines: Seq<Seq<char>>, line: Seq<char>, separator: Seq<char>)
    ensures
        joined(Seq::empty(), separator).len() == 0,
        joined(seq![line], separator) == line,
        lines.len() > 0 ==> joined(lines.push(line), separator) == joined(lines, separator)
            + separator + line,
{
    assert(lines.push(line).drop_last() =~= lines);
}

/// A text on one line has as many characters as before, none of which breaks a line; what broke none
/// is as it was. Cutting keeps the front of a text.
pub proof fn law_one_line(s: Seq<char>, max: nat)
    ensures
        one_line(s).len() == s.len(),
        forall|i: int|
            0 <= i < s.len() ==> #[trigger] one_line(s)[i] == if s[i] < ' ' || '\u{7f}' <= s[i]
                <= '\u{9f}' || s[i] == '\u{2028}' || s[i] == '\u{2029}' {
                ' '
            } else {
                s[i]
            },
        clipped(s, max).len() <= max,
        exists|rest: Seq<char>| s == #[trigger] (clipped(s, max) + rest) && (rest.len() > 0
            ==> clipped(s, max).len() == max),
{
    assert forall|i: int| 0 <= i < s.len() implies #[trigger] one_line(s)[i] == if s[i] < ' '
        || '\u{7f}' <= s[i] <= '\u{9f}' || s[i] == '\u{2028}' || s[i] == '\u{2029}' {
        ' '
    } else {
        s[i]
    } by {
        lemma_breaks(s[i]);
    }
    let rest = s.skip(clipped(s, max).len() as int);
    assert(s =~= clipped(s, max) + rest);
}

/// Texts are ordered by the first character in which they differ, and a text comes before those that
/// start with it.
pub proof fn law_texts_are_ordered(a: Seq<char>, b: Seq<char>)
    ensures
        ordered(a, b) <==> a == b || exists|i: int|
            {
                &&& 0 <= i <= a.len()
                &&& i < b.len()
                &&& a.take(i) == #[trigger] b.take(i)
                &&& i == a.len() || a[i] < b[i]
            },
    decreases a.len(),
{
    if a.len() == 0 {
        if b.len() > 0 {
            assert(a.take(0) =~= b.take(0));
        } else {
            assert(a =~= b);
        }
    } else if b.len() > 0 {
        if a[0] == b[0] {
            let (x, y) = (a.drop_first(), b.drop_first());
            law_texts_are_ordered(x, y);
            if ordered(a, b) {
                if x == y {
                    assert(a =~= seq![a[0]] + x);
                    assert(b =~= seq![b[0]] + y);
                } else {
                    let i = choose|i: int|
                        {
                            &&& 0 <= i <= x.len()
                            &&& i < y.len()
                            &&& x.take(i) == #[trigger] y.take(i)
                            &&& i == x.len() || x[i] < y[i]
                        };
                    assert(a.take(i + 1) =~= seq![a[0]] + x.take(i));
                    assert(b.take(i + 1) =~= seq![b[0]] + y.take(i));
                }
            }
            if a != b && exists|i: int|
                {
                    &&& 0 <= i <= a.len()
                    &&& i < b.len()
                    &&& a.take(i) == #[trigger] b.take(i)
                    &&& i == a.len() || a[i] < b[i]
                } {
                let i = choose|i: int|
                    {
                        &&& 0 <= i <= a.len()
                        &&& i < b.len()
                        &&& a.take(i) == #[trigger] b.take(i)
                        &&& i == a.len() || a[i] < b[i]
                    };
                assert(i > 0);
                assert(x.take(i - 1) =~= a.take(i).drop_first());
                assert(y.take(i - 1) =~= b.take(i).drop_first());
                assert(x.take(i - 1) == y.take(i - 1));
            }
        } else {
            if a[0] < b[0] {
                assert(a.take(0) =~= b.take(0));
            }
            if exists|i: int|
                {
                    &&& 0 <= i <= a.len()
                    &&& i < b.len()
                    &&& a.take(i) == #[trigger] b.take(i)
                    &&& i == a.len() || a[i] < b[i]
                } {
                let i = choose|i: int|
                    {
                        &&& 0 <= i <= a.len()
                        &&& i < b.len()
                        &&& a.take(i) == #[trigger] b.take(i)
                        &&& i == a.len() || a[i] < b[i]
                    };
                if i > 0 {
                    assert(a.take(i)[0] == b.take(i)[0]);
                }
            }
        }
    }
}

proof fn lemma_breaks(c: char)
    ensures
        breaks_line(c) <==> c < ' ' || '\u{7f}' <= c <= '\u{9f}' || c == '\u{2028}' || c == '\u{2029}',
{
}

/// A part stands in a text that is made with it.
pub proof fn lemma_part(a: Seq<char>, part: Seq<char>, b: Seq<char>)
    ensures
        holds(a + part + b, part),
{
    let s = a + part + b;
    assert(s.subrange(a.len() as int, a.len() as int + part.len()) =~= part);
    assert(stands_at(s, part, a.len() as int));
}

/// A text that is made of a part and more starts with it.
pub proof fn lemma_front(part: Seq<char>, b: Seq<char>)
    ensures
        has_prefix(part + b, part),
{
    assert((part + b).take(part.len() as int) =~= part);
}

/// A text that is made of something and a part ends with it.
pub proof fn lemma_back(a: Seq<char>, part: Seq<char>)
    ensures
        has_suffix(a + part, part),
{
    let s = a + part;
    assert(s.subrange(s.len() - part.len(), s.len() as int) =~= part);
}

} // verus!
