//! Text: comparison, searching, splitting and numbers.

use vstd::prelude::*;
use vstd::string::StringExecFns;

verus! {

/// Whether a character has the Unicode property `White_Space`.
pub open spec fn white_space(c: char) -> bool {
    let n = c as u32;
    ||| 0x9 <= n <= 0xd
    ||| n == 0x20
    ||| n == 0x85
    ||| n == 0xa0
    ||| n == 0x1680
    ||| 0x2000 <= n <= 0x200a
    ||| 0x2028 <= n <= 0x2029
    ||| n == 0x202f
    ||| n == 0x205f
    ||| n == 0x3000
}

/// The lower-case equivalent of a text.
pub uninterp spec fn lowercase(s: Seq<char>) -> Seq<char>;

/// The upper-case equivalent of a text.
pub uninterp spec fn uppercase(s: Seq<char>) -> Seq<char>;

/// `char::is_whitespace` tells whether a character has the Unicode property `White_Space`.
pub assume_specification[ char::is_whitespace ](c: char) -> (r: bool)
    ensures
        r == white_space(c),
;

/// `str::to_lowercase` depends on the text alone.
pub assume_specification[ str::to_lowercase ](s: &str) -> (r: String)
    ensures
        r@ == lowercase(s@),
;

/// `str::to_uppercase` depends on the text alone.
pub assume_specification[ str::to_uppercase ](s: &str) -> (r: String)
    ensures
        r@ == uppercase(s@),
;

/// `String::push` appends one character.
pub assume_specification[ String::push ](s: &mut String, c: char)
    ensures
        final(s)@ == old(s)@.push(c),
;

/// Comparing two `str` compares their characters.
pub assume_specification[ <str as PartialEq<str>>::eq ](a: &str, b: &str) -> (r: bool)
    ensures
        r == (a@ == b@),
;

/// The characters of each of several texts.
pub open spec fn texts(v: Seq<String>) -> Seq<Seq<char>> {
    Seq::new(v.len(), |i: int| v[i]@)
}

/// Whether `part` occurs in `s`.
pub open spec fn has_part(s: Seq<char>, part: Seq<char>) -> bool {
    exists|i: int|
        0 <= i <= s.len() - part.len() && #[trigger] s.subrange(i, i + part.len()) == part
}

/// The parts of `s` between the occurrences of `sep`.
pub open spec fn split_on(s: Seq<char>, sep: char) -> Seq<Seq<char>>
    decreases s.len(),
{
    if s.len() == 0 {
        seq![Seq::<char>::empty()]
    } else {
        let front = split_on(s.drop_last(), sep);
        if s.last() == sep {
            front.push(Seq::empty())
        } else {
            front.drop_last().push(front.last().push(s.last()))
        }
    }
}

/// The longest parts of `s` without white space.
pub open spec fn words(s: Seq<char>) -> Seq<Seq<char>>
    decreases s.len(),
{
    if s.len() == 0 {
        Seq::empty()
    } else {
        let before = s.drop_last();
        let front = words(before);
        if white_space(s.last()) {
            front
        } else if before.len() == 0 || white_space(before.last()) {
            front.push(seq![s.last()])
        } else {
            front.drop_last().push(front.last().push(s.last()))
        }
    }
}

/// `s` without the white space it starts with.
pub open spec fn trim_start(s: Seq<char>) -> Seq<char>
    decreases s.len(),
{
    if s.len() > 0 && white_space(s[0]) {
        trim_start(s.drop_first())
    } else {
        s
    }
}

/// `s` without the white space it ends with.
pub open spec fn trim_end(s: Seq<char>) -> Seq<char>
    decreases s.len(),
{
    if s.len() > 0 && white_space(s.last()) {
        trim_end(s.drop_last())
    } else {
        s
    }
}

/// `s` without the white space around it.
pub open spec fn trimmed(s: Seq<char>) -> Seq<char> {
    trim_end(trim_start(s))
}

/// `s` with every hyphen replaced by a colon.
pub open spec fn colons(s: Seq<char>) -> Seq<char> {
    Seq::new(
        s.len(),
        |i: int|
            if s[i] == '-' {
                ':'
            } else {
                s[i]
            },
    )
}

/// The texts in `list`, with `sep` between them.
pub open spec fn joined(list: Seq<Seq<char>>, sep: Seq<char>) -> Seq<char>
    decreases list.len(),
{
    if list.len() == 0 {
        Seq::empty()
    } else if list.len() == 1 {
        list[0]
    } else {
        joined(list.drop_last(), sep) + sep + list.last()
    }
}

/// The characters of `s`.
pub fn chars_of(s: &str) -> (r: Vec<char>)
    ensures
        r@ == s@,
{
    let mut r: Vec<char> = Vec::new();
    for c in it: s.chars()
        invariant
            r@ == it.seq().take(it.index()),
            it.seq() == s@,
    {
        r.push(c);
    }
    r
}

/// The text with the characters `chars`.
pub fn text_of(chars: &[char]) -> (r: String)
    ensures
        r@ == chars@,
{
    let mut r = String::new();
    let mut i: usize = 0;
    while i < chars.len()
        invariant
            i <= chars@.len(),
            r@ == chars@.take(i as int),
        decreases chars@.len() - i,
    {
        r.push(chars[i]);
        i = i + 1;
        assert(chars@.take(i as int) =~= chars@.take(i - 1).push(chars@[i - 1]));
    }
    assert(chars@.take(i as int) =~= chars@);
    r
}

/// Whether two texts are the same.
pub fn same_text(a: &str, b: &str) -> (r: bool)
    ensures
        r == (a@ == b@),
{
    a.eq(b)
}

/// The texts `a` and `b` in a row.
pub fn join_two(a: &str, b: &str) -> (r: String)
    ensures
        r@ == a@ + b@,
{
    let mut r = a.to_owned();
    r.append(b);
    r
}

/// The texts `a`, `b` and `c` in a row.
pub fn join_three(a: &str, b: &str, c: &str) -> (r: String)
    ensures
        r@ == a@ + b@ + c@,
{
    let mut r = a.to_owned();
    r.append(b);
    r.append(c);
    r
}

/// The texts in `list`, with `sep` between them.
pub fn join_list(list: &Vec<String>, sep: &str) -> (r: String)
    ensures
        r@ == joined(texts(list@), sep@),
{
    let mut r = String::new();
    let mut i: usize = 0;
    let ghost all = texts(list@);
    assert(all.take(0) =~= Seq::<Seq<char>>::empty());
    while i < list.len()
        invariant
            i <= list@.len(),
            all == texts(list@),
            r@ == joined(all.take(i as int), sep@),
        decreases list@.len() - i,
    {
        let ghost before = all.take(i as int);
        if i > 0 {
            r.append(sep);
        }
        r.append(list[i].as_str());
        i = i + 1;
        proof {
            let now = all.take(i as int);
            assert(now.drop_last() =~= before);
            assert(now.last() == list@[i - 1]@);
            if i == 1 {
                assert(r@ =~= now[0]);
            }
        }
    }
    assert(all.take(i as int) =~= all);
    r
}

/// Whether `s` is one of the texts in `list`.
pub fn has_text(list: &Vec<String>, s: &str) -> (r: bool)
    ensures
        r == texts(list@).contains(s@),
{
    let mut i: usize = 0;
    while i < list.len()
        invariant
            i <= list@.len(),
            forall|k: int| 0 <= k < i ==> #[trigger] texts(list@)[k] != s@,
        decreases list@.len() - i,
    {
        if same_text(list[i].as_str(), s) {
            assert(texts(list@)[i as int] == s@);
            return true;
        }
        i = i + 1;
    }
    false
}

fn matches_at(s: &Vec<char>, at: usize, part: &Vec<char>) -> (r: bool)
    requires
        at + part@.len() <= s@.len(),
    ensures
        r == (s@.subrange(at as int, at + part@.len()) == part@),
{
    let total: usize = s.len();
    let mut j: usize = 0;
    while j < part.len()
        invariant
            j <= part@.len(),
            at + part@.len() <= total,
            total == s@.len(),
            forall|k: int| 0 <= k < j ==> s@[at + k] == part@[k],
        decreases part@.len() - j,
    {
        if s[at + j] != part[j] {
            assert(s@.subrange(at as int, at + part@.len())[j as int] != part@[j as int]);
            return false;
        }
        j = j + 1;
    }
    assert(s@.subrange(at as int, at + part@.len()) =~= part@);
    true
}

/// Whether `part` occurs in `s`.
pub fn contains(s: &str, part: &str) -> (r: bool)
    ensures
        r == has_part(s@, part@),
{
    let hay = chars_of(s);
    let needle = chars_of(part);
    if needle.len() > hay.len() {
        return false;
    }
    let last: usize = hay.len() - needle.len();
    let mut i: usize = 0;
    while i <= last
        invariant
            hay@ == s@,
            needle@ == part@,
            last == hay@.len() - needle@.len(),
            hay@.len() <= usize::MAX,
            i <= last + 1,
            forall|k: int| 0 <= k < i ==> #[trigger] s@.subrange(k, k + part@.len()) != part@,
        decreases last + 1 - i,
    {
        if matches_at(&hay, i, &needle) {
            assert(s@.subrange(i as int, i + part@.len()) == part@);
            return true;
        }
        if i == last {
            return false;
        }
        i = i + 1;
    }
    false
}

/// What follows `prefix` in `s`, where `s` starts with it.
pub fn strip_prefix(s: &str, prefix: &str) -> (r: Option<String>)
    ensures
        r is Some <==> prefix@.is_prefix_of(s@),
        r matches Some(t) ==> s@ == prefix@ + t@,
{
    let hay = chars_of(s);
    let needle = chars_of(prefix);
    if needle.len() > hay.len() || !matches_at(&hay, 0, &needle) {
        return None;
    }
    let t = text_of(vstd::slice::slice_subrange(hay.as_slice(), needle.len(), hay.len()));
    assert(s@ =~= prefix@ + t@);
    Some(t)
}

/// What `s` holds before `suffix`, where `s` ends with it.
pub fn strip_suffix(s: &str, suffix: &str) -> (r: Option<String>)
    ensures
        r is Some <==> suffix@.is_suffix_of(s@),
        r matches Some(t) ==> s@ == t@ + suffix@,
{
    let hay = chars_of(s);
    let needle = chars_of(suffix);
    if needle.len() > hay.len() {
        return None;
    }
    let cut: usize = hay.len() - needle.len();
    if !matches_at(&hay, cut, &needle) {
        return None;
    }
    let t = text_of(vstd::slice::slice_subrange(hay.as_slice(), 0, cut));
    assert(s@ =~= t@ + suffix@);
    Some(t)
}

/// The parts of `s` between the occurrences of `sep`.
pub fn split(s: &str, sep: char) -> (r: Vec<String>)
    ensures
        texts(r@) == split_on(s@, sep),
        r@.len() > 0,
{
    let chars = chars_of(s);
    let mut parts: Vec<String> = Vec::new();
    let mut current: Vec<char> = Vec::new();
    let mut i: usize = 0;
    assert(chars@.take(0) =~= Seq::<char>::empty());
    assert(texts(parts@).push(current@) =~= split_on(chars@.take(0), sep));
    while i < chars.len()
        invariant
            i <= chars@.len(),
            texts(parts@).push(current@) == split_on(chars@.take(i as int), sep),
        decreases chars@.len() - i,
    {
        let c: char = chars[i];
        let ghost front = texts(parts@).push(current@);
        let ghost now = chars@.take(i + 1);
        assert(now.drop_last() =~= chars@.take(i as int));
        if c == sep {
            let piece = text_of(current.as_slice());
            parts.push(piece);
            current = Vec::new();
            proof {
                assert(texts(parts@) =~= front);
                assert(texts(parts@).push(current@) =~= split_on(now, sep));
            }
        } else {
            current.push(c);
            proof {
                assert(front.drop_last() =~= texts(parts@));
                assert(texts(parts@).push(current@) =~= split_on(now, sep));
            }
        }
        i = i + 1;
    }
    let ghost front = texts(parts@).push(current@);
    parts.push(text_of(current.as_slice()));
    assert(texts(parts@) =~= front);
    assert(chars@.take(i as int) =~= s@);
    parts
}

/// The longest parts of `s` without white space.
pub fn split_whitespace(s: &str) -> (r: Vec<String>)
    ensures
        texts(r@) == words(s@),
{
    let chars = chars_of(s);
    let mut parts: Vec<String> = Vec::new();
    let mut current: Vec<char> = Vec::new();
    let mut i: usize = 0;
    assert(chars@.take(0) =~= Seq::<char>::empty());
    assert(texts(parts@) =~= words(chars@.take(0)));
    while i < chars.len()
        invariant
            i <= chars@.len(),
            current@.len() == 0 <==> (i == 0 || white_space(chars@[i - 1])),
            current@.len() == 0 ==> texts(parts@) == words(chars@.take(i as int)),
            current@.len() > 0 ==> texts(parts@).push(current@) == words(chars@.take(i as int)),
        decreases chars@.len() - i,
    {
        let c: char = chars[i];
        let ghost old_texts = texts(parts@);
        let ghost old_current = current@;
        let ghost now = chars@.take(i + 1);
        proof {
            assert(now.drop_last() =~= chars@.take(i as int));
            if i > 0 {
                assert(chars@.take(i as int).last() == chars@[i - 1]);
            }
        }
        if c.is_whitespace() {
            if current.len() > 0 {
                parts.push(text_of(current.as_slice()));
                current = Vec::new();
                assert(texts(parts@) =~= old_texts.push(old_current));
            }
        } else {
            current.push(c);
            proof {
                if old_current.len() > 0 {
                    assert(old_texts.push(old_current).drop_last() =~= old_texts);
                } else {
                    assert(current@ =~= seq![c]);
                }
                assert(texts(parts@).push(current@) =~= words(now));
            }
        }
        i = i + 1;
    }
    assert(chars@.take(i as int) =~= s@);
    let ghost old_texts = texts(parts@);
    if current.len() > 0 {
        parts.push(text_of(current.as_slice()));
        assert(texts(parts@) =~= old_texts.push(current@));
    }
    parts
}

/// `s` without the white space around it.
pub fn trim(s: &str) -> (r: String)
    ensures
        r@ == trimmed(s@),
{
    let chars = chars_of(s);
    let n: usize = chars.len();
    let mut i: usize = 0;
    assert(chars@.skip(0) =~= s@);
    while i < n && chars[i].is_whitespace()
        invariant
            i <= n,
            n == chars@.len(),
            trim_start(s@) == trim_start(chars@.skip(i as int)),
        decreases n - i,
    {
        assert(chars@.skip(i as int).drop_first() =~= chars@.skip(i + 1));
        i = i + 1;
    }
    let mut j: usize = n;
    assert(chars@.subrange(i as int, n as int) =~= chars@.skip(i as int));
    while j > i && chars[j - 1].is_whitespace()
        invariant
            i <= j <= n,
            n == chars@.len(),
            trimmed(s@) == trim_end(chars@.subrange(i as int, j as int)),
        decreases j,
    {
        assert(chars@.subrange(i as int, j as int).drop_last() =~= chars@.subrange(
            i as int,
            j - 1,
        ));
        j = j - 1;
    }
    text_of(vstd::slice::slice_subrange(chars.as_slice(), i, j))
}

/// `s` with every hyphen replaced by a colon.
pub fn hyphens_to_colons(s: &str) -> (r: String)
    ensures
        r@ == colons(s@),
{
    let mut r = String::new();
    for c in it: s.chars()
        invariant
            r@ == colons(s@).take(it.index()),
            it.seq() == s@,
            it.index() <= s@.len(),
    {
        let ghost k = it.index();
        assert(colons(s@).take(k + 1) =~= colons(s@).take(k).push(colons(s@)[k]));
        if c == '-' {
            r.push(':');
        } else {
            r.push(c);
        }
    }
    assert(colons(s@).take(s@.len() as int) =~= colons(s@));
    r
}

/// `s` without its hyphens.
pub open spec fn without_hyphens(s: Seq<char>) -> Seq<char> {
    s.filter(|c: char| c != '-')
}

/// `s` without its hyphens.
pub fn drop_hyphens(s: &str) -> (r: String)
    ensures
        r@ == without_hyphens(s@),
{
    let mut r = String::new();
    proof {
        reveal(Seq::filter);
        assert(s@.take(0) =~= Seq::<char>::empty());
    }
    for c in it: s.chars()
        invariant
            it.seq() == s@,
            it.index() <= s@.len(),
            r@ == without_hyphens(s@.take(it.index())),
    {
        proof {
            reveal(Seq::filter);
            let k = it.index();
            assert(s@.take(k + 1).drop_last() =~= s@.take(k));
            assert(s@.take(k + 1).last() == c);
        }
        if c != '-' {
            r.push(c);
        }
    }
    assert(s@.take(s@.len() as int) =~= s@);
    r
}

/// `s` with enough spaces behind it to make it `width` characters long.
pub open spec fn padded_right(s: Seq<char>, width: nat) -> Seq<char> {
    if s.len() < width {
        s + Seq::new((width - s.len()) as nat, |i: int| ' ')
    } else {
        s
    }
}

/// `s` with enough spaces behind it to make it `width` characters long.
pub fn pad_right(s: &str, width: usize) -> (r: String)
    ensures
        r@ == padded_right(s@, width as nat),
{
    let mut r = s.to_owned();
    let mut n: usize = chars_of(s).len();
    while n < width
        invariant
            n == r@.len(),
            s@.len() <= n,
            n <= width || n == s@.len(),
            r@ == padded_right(s@, n as nat),
        decreases width - n,
    {
        r.push(' ');
        n = n + 1;
        assert(r@ =~= padded_right(s@, n as nat));
    }
    r
}

/// Whether `c` is a decimal digit.
pub open spec fn is_digit(c: char) -> bool {
    '0' <= c <= '9'
}

/// The number that a row of decimal digits stands for.
pub open spec fn digits_value(s: Seq<char>) -> nat
    decreases s.len(),
{
    if s.len() == 0 {
        0
    } else {
        10 * digits_value(s.drop_last()) + (s.last() as nat - '0' as nat) as nat
    }
}

/// The number that one or more decimal digits stand for.
pub open spec fn decimal_value(s: Seq<char>) -> Option<nat> {
    if s.len() > 0 && (forall|i: int| 0 <= i < s.len() ==> is_digit(#[trigger] s[i])) {
        Some(digits_value(s))
    } else {
        None
    }
}

/// The number that digits behind an optional plus sign stand for, where it is at most `max`.
pub open spec fn unsigned_value(s: Seq<char>, max: nat) -> Option<nat> {
    let digits = if s.len() > 0 && s[0] == '+' {
        s.skip(1)
    } else {
        s
    };
    match decimal_value(digits) {
        Some(n) => if n <= max {
            Some(n)
        } else {
            None
        },
        None => None,
    }
}

/// The number that digits behind an optional sign stand for, where it fits in a signed byte.
pub open spec fn signed_value(s: Seq<char>) -> Option<int> {
    if s.len() > 0 && s[0] == '-' {
        match decimal_value(s.skip(1)) {
            Some(n) => if n <= 128 {
                Some(-n)
            } else {
                None
            },
            None => None,
        }
    } else {
        match unsigned_value(s, 127) {
            Some(n) => Some(n as int),
            None => None,
        }
    }
}

/// The decimal digits of `n`, without leading zeros.
pub open spec fn decimal_text(n: nat) -> Seq<char>
    decreases n,
{
    if n < 10 {
        seq![('0' as nat + n) as char]
    } else {
        decimal_text(n / 10).push(('0' as nat + n % 10) as char)
    }
}

/// The decimal digits of `n`, behind a minus sign where it is negative.
pub open spec fn signed_text(n: int) -> Seq<char> {
    if n < 0 {
        seq!['-'] + decimal_text((-n) as nat)
    } else {
        decimal_text(n as nat)
    }
}

proof fn lemma_digits_monotone(s: Seq<char>, t: Seq<char>)
    requires
        s.is_prefix_of(t),
    ensures
        digits_value(s) <= digits_value(t),
    decreases t.len(),
{
    if s.len() < t.len() {
        assert(s.is_prefix_of(t.drop_last()));
        lemma_digits_monotone(s, t.drop_last());
    } else {
        assert(s =~= t);
    }
}

/// The number in `chars` from `from` on, where it is made of digits and at most `max`.
fn parse_digits(chars: &Vec<char>, from: usize, max: u64) -> (r: Option<u64>)
    requires
        from <= chars@.len(),
    ensures
        match (r, decimal_value(chars@.skip(from as int))) {
            (Some(n), Some(m)) => n == m && m <= max,
            (None, Some(m)) => m > max,
            (Some(_), None) => false,
            (None, None) => true,
        },
{
    let ghost all = chars@.skip(from as int);
    let n: usize = chars.len();
    if from == n {
        return None;
    }
    let mut value: u128 = 0;
    let mut over: bool = false;
    let mut i: usize = from;
    assert(all.take(0) =~= Seq::<char>::empty());
    while i < n
        invariant
            from <= i <= n,
            n == chars@.len(),
            all == chars@.skip(from as int),
            forall|k: int| 0 <= k < i - from ==> is_digit(#[trigger] all[k]),
            !over ==> value == digits_value(all.take(i - from)) && value <= max,
            over ==> digits_value(all.take(i - from)) > max,
        decreases n - i,
    {
        let c: char = chars[i];
        assert(all[i - from] == c);
        if c < '0' || c > '9' {
            return None;
        }
        let ghost now = all.take(i - from + 1);
        proof {
            assert(now.drop_last() =~= all.take(i - from));
            lemma_digits_monotone(now.drop_last(), now);
        }
        if !over {
            value = value * 10 + (c as u32 - '0' as u32) as u128;
            if value > max as u128 {
                over = true;
            }
        }
        i = i + 1;
    }
    assert(all.take(n - from) =~= all);
    if over {
        None
    } else {
        Some(value as u64)
    }
}

/// Reads a number of at most `max`.
pub fn parse_unsigned(s: &str, max: u64) -> (r: Option<u64>)
    ensures
        r is Some <==> unsigned_value(s@, max as nat) is Some,
        r matches Some(n) ==> unsigned_value(s@, max as nat) == Some(n as nat) && n <= max,
{
    let chars = chars_of(s);
    if chars.len() > 0 && chars[0] == '+' {
        parse_digits(&chars, 1, max)
    } else {
        assert(chars@.skip(0) =~= s@);
        parse_digits(&chars, 0, max)
    }
}

/// Reads a number that fits in eight bits.
pub fn parse_u8(s: &str) -> (r: Option<u8>)
    ensures
        r is Some <==> unsigned_value(s@, 255) is Some,
        r matches Some(n) ==> unsigned_value(s@, 255) == Some(n as nat),
{
    match parse_unsigned(s, 255) {
        Some(n) => Some(n as u8),
        None => None,
    }
}

/// Reads a number that fits in sixteen bits.
pub fn parse_u16(s: &str) -> (r: Option<u16>)
    ensures
        r is Some <==> unsigned_value(s@, 65535) is Some,
        r matches Some(n) ==> unsigned_value(s@, 65535) == Some(n as nat),
{
    match parse_unsigned(s, 65535) {
        Some(n) => Some(n as u16),
        None => None,
    }
}

/// Reads a signed number that fits in eight bits.
pub fn parse_i8(s: &str) -> (r: Option<i8>)
    ensures
        r is Some <==> signed_value(s@) is Some,
        r matches Some(n) ==> signed_value(s@) == Some(n as int),
{
    let chars = chars_of(s);
    if chars.len() > 0 && chars[0] == '-' {
        match parse_digits(&chars, 1, 128) {
            Some(n) => Some((0 - n as i16) as i8),
            None => None,
        }
    } else {
        match parse_unsigned(s, 127) {
            Some(n) => Some(n as i8),
            None => None,
        }
    }
}

fn digit_char(d: u64) -> (c: char)
    requires
        d < 10,
    ensures
        c == ('0' as nat + d) as char,
{
    ('0' as u8 + d as u8) as char
}

/// The decimal digits of `n`.
pub fn decimal(n: u64) -> (r: String)
    ensures
        r@ == decimal_text(n as nat),
    decreases n,
{
    if n < 10 {
        let mut r = String::new();
        r.push(digit_char(n));
        assert(r@ =~= decimal_text(n as nat));
        r
    } else {
        let mut r = decimal(n / 10);
        r.push(digit_char(n % 10));
        r
    }
}

/// The decimal digits of `n`, behind a minus sign where it is negative.
pub fn signed_decimal(n: i64) -> (r: String)
    ensures
        r@ == signed_text(n as int),
{
    if n < 0 {
        let mut r = String::new();
        r.push('-');
        r.append(decimal((0 - n as i128) as u64).as_str());
        assert(r@ =~= signed_text(n as int));
        r
    } else {
        decimal(n as u64)
    }
}

proof fn lemma_decimal_text(n: nat)
    ensures
        decimal_text(n).len() > 0,
        forall|i: int| 0 <= i < decimal_text(n).len() ==> is_digit(#[trigger] decimal_text(n)[i]),
        digits_value(decimal_text(n)) == n,
    decreases n,
{
    reveal_with_fuel(digits_value, 2);
    if n < 10 {
        assert(decimal_text(n).drop_last() =~= Seq::<char>::empty());
    } else {
        lemma_decimal_text(n / 10);
        assert(decimal_text(n).drop_last() =~= decimal_text(n / 10));
    }
}

/// A text without white space at its ends is what trimming a line with that text leaves.
pub proof fn law_line_trims_to_text(s: Seq<char>)
    requires
        s.len() > 0,
        !white_space(s[0]),
        !white_space(s.last()),
    ensures
        trimmed(s) == s,
        trimmed(s.push('\n')) == s,
{
    let line = s.push('\n');
    assert(line[0] == s[0]);
    assert(trim_start(line) == line);
    assert(line.drop_last() =~= s);
    assert(trim_end(line) == trim_end(s));
}

/// The decimal text of a number reads back as that number, where the limit allows it.
pub proof fn law_unsigned_reads_back(n: nat, max: nat)
    ensures
        n <= max ==> unsigned_value(decimal_text(n), max) == Some(n),
        n > max ==> unsigned_value(decimal_text(n), max) is None,
{
    lemma_decimal_text(n);
    assert(is_digit(decimal_text(n)[0]));
}

/// The text of a signed byte reads back as that number.
pub proof fn law_signed_reads_back(n: i8)
    ensures
        signed_value(signed_text(n as int)) == Some(n as int),
{
    if n < 0 {
        lemma_decimal_text((-n) as nat);
        assert(signed_text(n as int).skip(1) =~= decimal_text((-n) as nat));
    } else {
        lemma_decimal_text(n as nat);
        assert(is_digit(decimal_text(n as nat)[0]));
        law_unsigned_reads_back(n as nat, 127);
    }
}

/// A text without the separator is its own only part.
pub proof fn law_split_whole(s: Seq<char>, sep: char)
    requires
        !s.contains(sep),
    ensures
        split_on(s, sep) == seq![s],
    decreases s.len(),
{
    if s.len() == 0 {
        assert(s =~= Seq::<char>::empty());
    } else {
        let front = s.drop_last();
        assert(s.last() != sep) by {
            assert(s[s.len() - 1] == s.last());
        }
        assert forall|i: int| 0 <= i < front.len() implies front[i] != sep by {
            assert(s[i] == front[i]);
        }
        law_split_whole(front, sep);
        assert(front.push(s.last()) =~= s);
        assert(split_on(s, sep) =~= seq![s]);
    }
}

/// A text with a separator has the part before the first one, and the parts of what follows it.
pub proof fn law_split_first(a: Seq<char>, sep: char, b: Seq<char>)
    requires
        !a.contains(sep),
    ensures
        split_on(a + seq![sep] + b, sep) == seq![a] + split_on(b, sep),
        split_on(b, sep).len() > 0,
    decreases b.len(),
{
    let s = a + seq![sep] + b;
    if b.len() == 0 {
        law_split_whole(a, sep);
        assert(s.drop_last() =~= a);
        assert(b =~= Seq::<char>::empty());
        assert(split_on(s, sep) =~= seq![a] + split_on(b, sep));
    } else {
        let front = b.drop_last();
        law_split_first(a, sep, front);
        assert(s.drop_last() =~= a + seq![sep] + front);
        let tail = split_on(front, sep);
        let whole = seq![a] + tail;
        assert(whole.last() == tail.last());
        assert(whole.drop_last() =~= seq![a] + tail.drop_last());
        assert(split_on(s, sep) =~= seq![a] + split_on(b, sep));
    }
}

/// Nothing but white space holds no words, and white space before words does not matter.
pub proof fn law_words_skip_white_space(blank: Seq<char>, rest: Seq<char>)
    requires
        forall|i: int| 0 <= i < blank.len() ==> white_space(#[trigger] blank[i]),
    ensures
        words(blank) == Seq::<Seq<char>>::empty(),
        words(blank + rest) == words(rest),
    decreases blank.len() + rest.len(),
{
    if rest.len() == 0 {
        assert(blank + rest =~= blank);
        if blank.len() > 0 {
            let front = blank.drop_last();
            assert forall|i: int| 0 <= i < front.len() implies white_space(#[trigger] front[i]) by {
                assert(blank[i] == front[i]);
            }
            law_words_skip_white_space(front, rest);
            assert(white_space(blank[blank.len() - 1]));
        }
    } else {
        let s = blank + rest;
        let front = rest.drop_last();
        law_words_skip_white_space(blank, front);
        law_words_skip_white_space(blank, Seq::empty());
        assert(s.drop_last() =~= blank + front);
        if front.len() == 0 {
            assert(front =~= Seq::<char>::empty());
            if blank.len() > 0 {
                assert(s.drop_last().last() == blank[blank.len() - 1]);
            }
        } else {
            assert(s.drop_last().last() == front.last());
        }
    }
}

/// A run of characters without white space that ends, or is followed by white space, is a word;
/// the words of what follows come after it.
pub proof fn law_words_first(word: Seq<char>, rest: Seq<char>)
    requires
        word.len() > 0,
        forall|i: int| 0 <= i < word.len() ==> !white_space(#[trigger] word[i]),
        rest.len() > 0 ==> white_space(rest[0]),
    ensures
        words(word + rest) == seq![word] + words(rest),
    decreases word.len() + rest.len(),
{
    let s = word + rest;
    if rest.len() == 0 {
        assert(s =~= word);
        assert(rest =~= Seq::<char>::empty());
        let front = word.drop_last();
        assert(!white_space(word[word.len() - 1]));
        if front.len() > 0 {
            assert forall|i: int| 0 <= i < front.len() implies !white_space(#[trigger] front[i]) by {
                assert(word[i] == front[i]);
            }
            law_words_first(front, rest);
            assert(front + rest =~= front);
            assert(!white_space(word[word.len() - 2]));
            assert(front.last() == word[word.len() - 2]);
            assert(words(front) =~= seq![front]);
            assert(front.push(word.last()) =~= word);
            assert(words(s) =~= seq![word] + words(rest));
        } else {
            assert(front =~= Seq::<char>::empty());
            assert(word =~= seq![word.last()]);
            assert(words(s) =~= seq![word] + words(rest));
        }
    } else {
        let front = rest.drop_last();
        if front.len() > 0 {
            assert(front[0] == rest[0]);
        }
        law_words_first(word, front);
        assert(s.drop_last() =~= word + front);
        let tail = words(front);
        let whole = seq![word] + tail;
        if !white_space(s.last()) {
            assert(front.len() > 0);
            assert(s.drop_last().last() == front.last());
            if !white_space(front.last()) {
                lemma_words_nonempty(front);
                assert(whole.last() == tail.last());
                assert(whole.drop_last() =~= seq![word] + tail.drop_last());
            }
        }
        assert(words(s) =~= seq![word] + words(rest));
    }
}

proof fn lemma_words_nonempty(s: Seq<char>)
    requires
        s.len() > 0,
        !white_space(s.last()),
    ensures
        words(s).len() > 0,
{
}

/// White space around a text goes away; the text, which neither starts nor ends with any, stays.
pub proof fn law_trimming(before: Seq<char>, text: Seq<char>, after: Seq<char>)
    requires
        forall|i: int| 0 <= i < before.len() ==> white_space(#[trigger] before[i]),
        forall|i: int| 0 <= i < after.len() ==> white_space(#[trigger] after[i]),
        text.len() > 0 ==> !white_space(text[0]) && !white_space(text.last()),
    ensures
        trimmed(before + text + after) == text,
    decreases before.len() + after.len(),
{
    let s = before + text + after;
    if before.len() > 0 {
        let rest = before.drop_first();
        assert(white_space(before[0]));
        assert forall|i: int| 0 <= i < rest.len() implies white_space(#[trigger] rest[i]) by {
            assert(before[i + 1] == rest[i]);
        }
        assert(s.drop_first() =~= rest + text + after);
        law_trimming(rest, text, after);
    } else if text.len() == 0 {
        assert(s =~= after);
        if after.len() > 0 {
            let rest = after.drop_first();
            assert(white_space(after[0]));
            assert forall|i: int| 0 <= i < rest.len() implies white_space(#[trigger] rest[i]) by {
                assert(after[i + 1] == rest[i]);
            }
            assert(s.drop_first() =~= before + text + rest);
            law_trimming(before, text, rest);
        } else {
            assert(s =~= text);
        }
    } else {
        assert(s[0] == text[0]);
        assert(trim_start(s) == s);
        if after.len() > 0 {
            let rest = after.drop_last();
            assert(white_space(after[after.len() - 1]));
            assert(s.last() == after[after.len() - 1]);
            assert forall|i: int| 0 <= i < rest.len() implies white_space(#[trigger] rest[i]) by {
                assert(after[i] == rest[i]);
            }
            let shorter = before + text + rest;
            assert(s.drop_last() =~= shorter);
            law_trimming(before, text, rest);
            assert(shorter[0] == text[0]);
            assert(trim_start(shorter) == shorter);
        } else {
            assert(s =~= text);
        }
    }
}

/// A text occurs in another exactly where the other is something, the text, and something.
pub proof fn law_parts(s: Seq<char>, a: Seq<char>, part: Seq<char>, b: Seq<char>)
    ensures
        has_part(a + part + b, part),
        has_part(s, part) ==> exists|x: Seq<char>, y: Seq<char>| s == #[trigger] (x + part + y),
{
    let whole = a + part + b;
    let at = a.len() as int;
    assert(whole.subrange(at, at + part.len()) =~= part);
    if has_part(s, part) {
        let i = choose|i: int|
            0 <= i <= s.len() - part.len() && #[trigger] s.subrange(i, i + part.len()) == part;
        let x = s.take(i);
        let y = s.skip(i + part.len());
        assert(s =~= x + part + y);
    }
}

/// Texts are joined one after the other, with the separator between them and nowhere else.
pub proof fn law_joining(list: Seq<Seq<char>>, last: Seq<char>, sep: Seq<char>)
    ensures
        joined(Seq::empty(), sep) == Seq::<char>::empty(),
        joined(seq![last], sep) == last,
        list.len() > 0 ==> joined(list.push(last), sep) == joined(list, sep) + sep + last,
{
    assert(list.push(last).drop_last() =~= list);
}

/// Every hyphen becomes a colon, and nothing else changes.
pub proof fn law_colons(s: Seq<char>, i: int)
    requires
        0 <= i < s.len(),
    ensures
        colons(s).len() == s.len(),
        s[i] == '-' ==> colons(s)[i] == ':',
        s[i] != '-' ==> colons(s)[i] == s[i],
{
}

/// Hyphens are dropped, and everything else stays in its order.
pub proof fn law_without_hyphens(s: Seq<char>, c: char)
    ensures
        without_hyphens(Seq::empty()) == Seq::<char>::empty(),
        without_hyphens(s.push('-')) == without_hyphens(s),
        c != '-' ==> without_hyphens(s.push(c)) == without_hyphens(s).push(c),
{
    reveal(Seq::filter);
    assert(s.push('-').drop_last() =~= s);
    assert(s.push(c).drop_last() =~= s);
}

/// Padding keeps the text in front and adds nothing but the spaces that are missing.
pub proof fn law_padding(s: Seq<char>, width: nat)
    ensures
        s.len() >= width ==> padded_right(s, width) == s,
        s.len() < width ==> {
            &&& padded_right(s, width).len() == width
            &&& padded_right(s, width).take(s.len() as int) == s
            &&& forall|i: int|
                s.len() <= i < width ==> #[trigger] padded_right(s, width)[i] == ' '
        },
{
    if s.len() < width {
        assert(padded_right(s, width).take(s.len() as int) =~= s);
    }
}

/// The digits of a number are those of a tenth of it, and one more.
pub proof fn law_decimal_digits(n: nat)
    ensures
        n < 10 ==> decimal_text(n) == seq![(48 + n) as char],
        n >= 10 ==> decimal_text(n) == decimal_text(n / 10).push((48 + n % 10) as char),
        signed_text(n as int) == decimal_text(n),
        n > 0 ==> signed_text(-n) == seq!['-'] + decimal_text(n),
{
}

/// Digits stand for ten times what those before them stand for, and themselves.
pub proof fn law_digits_value(s: Seq<char>, c: char)
    requires
        '0' <= c <= '9',
    ensures
        digits_value(Seq::empty()) == 0,
        digits_value(s.push(c)) == 10 * digits_value(s) + (c as int - 48),
{
    assert(s.push(c).drop_last() =~= s);
}

/// Which texts are numbers: digits alone, or digits behind a plus sign, where they stand for no
/// more than the limit; digits behind a minus sign as well, where the number is signed.
pub proof fn law_numbers(digits: Seq<char>, max: nat)
    requires
        digits.len() > 0,
        forall|i: int| 0 <= i < digits.len() ==> '0' <= #[trigger] digits[i] <= '9',
    ensures
        unsigned_value(digits, max) == if digits_value(digits) <= max {
            Some(digits_value(digits))
        } else {
            None
        },
        unsigned_value(seq!['+'] + digits, max) == unsigned_value(digits, max),
        unsigned_value(seq!['-'] + digits, max) is None,
        signed_value(digits) == if digits_value(digits) <= 127 {
            Some(digits_value(digits) as int)
        } else {
            None
        },
        signed_value(seq!['+'] + digits) == signed_value(digits),
        signed_value(seq!['-'] + digits) == if digits_value(digits) <= 128 {
            Some(-(digits_value(digits) as int))
        } else {
            None
        },
{
    assert('0' <= digits[0] <= '9');
    let plus = seq!['+'] + digits;
    let minus = seq!['-'] + digits;
    assert(plus.skip(1) =~= digits);
    assert(minus.skip(1) =~= digits);
    assert(!is_digit(minus[0]));
    assert(decimal_value(digits) == Some(digits_value(digits)));
}

/// Which texts are no numbers: those with anything but a digit behind their first character, or
/// with a first character that is neither a digit nor a sign, and those without a digit.
pub proof fn law_no_numbers(s: Seq<char>, i: int, max: nat)
    requires
        0 <= i < s.len(),
        !('0' <= s[i] <= '9'),
        i > 0 || s.len() == 1 || (s[0] != '+' && s[0] != '-'),
    ensures
        unsigned_value(s, max) is None,
        signed_value(s) is None,
        unsigned_value(Seq::empty(), max) is None,
        signed_value(Seq::empty()) is None,
{
    assert(!is_digit(s[i]));
    let rest = s.skip(1);
    if i > 0 {
        assert(rest[i - 1] == s[i]);
    }
}

/// The characters of several texts, one for one.
pub proof fn law_texts(v: Seq<String>, i: int)
    requires
        0 <= i < v.len(),
    ensures
        texts(v).len() == v.len(),
        texts(v)[i] == v[i]@,
{
}

/// Which characters are white space: the controls from tab to carriage return, the spaces and the
/// two separators of lines and paragraphs. Whatever is printed in ASCII is none, and neither is
/// the space of no width.
pub proof fn law_white_space(c: char)
    ensures
        white_space('\t') && white_space('\n') && white_space('\r') && white_space(' '),
        white_space('\u{85}') && white_space('\u{a0}') && white_space('\u{1680}'),
        '\u{2000}' <= c <= '\u{200a}' ==> white_space(c),
        white_space('\u{2028}') && white_space('\u{2029}') && white_space('\u{202f}'),
        white_space('\u{205f}') && white_space('\u{3000}'),
        white_space('\u{b}') && white_space('\u{c}') && !white_space('\u{200b}'),
        c < '\t' || '\r' < c < ' ' || ' ' < c < '\u{85}' || '\u{85}' < c < '\u{a0}' ==> !white_space(
            c,
        ),
        '\u{a0}' < c < '\u{1680}' || '\u{1680}' < c < '\u{2000}' ==> !white_space(c),
        '\u{200a}' < c < '\u{2028}' || '\u{2029}' < c < '\u{202f}' ==> !white_space(c),
        '\u{202f}' < c < '\u{205f}' || '\u{205f}' < c < '\u{3000}' || '\u{3000}' < c
            ==> !white_space(c),
{
}

} // verus!
