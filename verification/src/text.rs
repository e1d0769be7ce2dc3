//! Text: white space, words, and decimal numbers.
use vstd::prelude::*;
use vstd::string::*;

verus! {

/// Whether `c` has the Unicode `White_Space` property.
pub open spec fn is_white(c: char) -> bool {
    let n = c as u32;
    ||| 0x0009 <= n <= 0x000D
    ||| n == 0x0020
    ||| n == 0x0085
    ||| n == 0x00A0
    ||| n == 0x1680
    ||| 0x2000 <= n <= 0x200A
    ||| n == 0x2028
    ||| n == 0x2029
    ||| n == 0x202F
    ||| n == 0x205F
    ||| n == 0x3000
}

/// Tells whether `c` is white space.
pub fn is_white_space(c: char) -> (white: bool)
    ensures
        white == is_white(c),
{
    let n: u32 = c as u32;
    (0x0009 <= n && n <= 0x000D) || n == 0x0020 || n == 0x0085 || n == 0x00A0 || n == 0x1680 || (
    0x2000 <= n && n <= 0x200A) || n == 0x2028 || n == 0x2029 || n == 0x202F || n == 0x205F || n
        == 0x3000
}

/// `s` without the white space it begins with.
pub open spec fn trimmed_start(s: Seq<char>) -> Seq<char>
    decreases s.len(),
{
    if s.len() > 0 && is_white(s[0]) {
        trimmed_start(s.skip(1))
    } else {
        s
    }
}

/// `s` without the white space it ends with.
pub open spec fn trimmed_end(s: Seq<char>) -> Seq<char>
    decreases s.len(),
{
    if s.len() > 0 && is_white(s.last()) {
        trimmed_end(s.drop_last())
    } else {
        s
    }
}

/// `s` without the white space at both its ends.
pub open spec fn trimmed(s: Seq<char>) -> Seq<char> {
    trimmed_end(trimmed_start(s))
}

/// How many characters `s` has before its first white space.
pub open spec fn word_len(s: Seq<char>) -> nat
    decreases s.len(),
{
    if s.len() == 0 || is_white(s[0]) {
        0
    } else {
        1 + word_len(s.skip(1))
    }
}

/// The words of `s`: its longest stretches without white space, in order.
pub open spec fn words(s: Seq<char>) -> Seq<Seq<char>>
    decreases s.len(),
{
    if s.len() == 0 {
        Seq::empty()
    } else if is_white(s[0]) {
        words(s.skip(1))
    } else {
        proof {
            lemma_word_len_bound(s);
        }
        seq![s.take(word_len(s) as int)] + words(s.skip(word_len(s) as int))
    }
}

/// The texts of `parts` one after the other, with `separator` between them.
pub open spec fn joined(parts: Seq<Seq<char>>, separator: Seq<char>) -> Seq<char>
    decreases parts.len(),
{
    if parts.len() == 0 {
        Seq::empty()
    } else if parts.len() == 1 {
        parts[0]
    } else {
        joined(parts.drop_last(), separator) + separator + parts.last()
    }
}

/// The views of a sequence of strings.
pub open spec fn views(strings: Seq<String>) -> Seq<Seq<char>> {
    strings.map_values(|s: String| s@)
}

/// Whether `s` is a word: not empty and without white space.
pub open spec fn is_word(s: Seq<char>) -> bool {
    s.len() > 0 && forall|i: int| 0 <= i < s.len() ==> !is_white(#[trigger] s[i])
}

/// A word of `s` ends within `s`.
pub proof fn lemma_word_len_bound(s: Seq<char>)
    ensures
        word_len(s) <= s.len(),
    decreases s.len(),
{
    if s.len() > 0 && !is_white(s[0]) {
        lemma_word_len_bound(s.skip(1));
    }
}

/// `a`, `b` and `c` one after the other.
pub fn concat3(a: &str, b: &str, c: &str) -> (text: String)
    ensures
        text@ == a@ + b@ + c@,
{
    let mut text = a.to_owned();
    text.append(b);
    text.append(c);
    text
}

/// The characters of `s`.
fn characters(s: &str) -> (chars: Vec<char>)
    ensures
        chars@ == s@,
{
    let mut chars: Vec<char> = Vec::new();
    for c in iter: s.chars()
        invariant
            iter.seq() == s@,
            chars@ == s@.take(iter.index()),
    {
        chars.push(c);
    }
    chars
}

/// `s` without the white space at both its ends.
pub fn trim(s: &str) -> (text: String)
    ensures
        text@ == trimmed(s@),
{
    let chars = characters(s);
    let mut start: usize = 0;
    proof {
        assert(s@.skip(0) =~= s@);
    }
    while start < chars.len() && is_white_space(chars[start])
        invariant
            chars@ == s@,
            start <= chars.len(),
            trimmed_start(s@) == trimmed_start(s@.skip(start as int)),
        decreases chars.len() - start,
    {
        proof {
            assert(s@.skip(start as int).skip(1) =~= s@.skip(start + 1));
        }
        start = start + 1;
    }
    let mut end: usize = chars.len();
    proof {
        assert(s@.subrange(start as int, end as int) =~= s@.skip(start as int));
    }
    while start < end && is_white_space(chars[end - 1])
        invariant
            chars@ == s@,
            start <= end <= chars.len(),
            trimmed(s@) == trimmed_end(s@.subrange(start as int, end as int)),
        decreases end,
    {
        proof {
            assert(s@.subrange(start as int, end as int).drop_last() =~= s@.subrange(
                start as int,
                end - 1,
            ));
        }
        end = end - 1;
    }
    s.substring_char(start, end).to_owned()
}

/// Where the word that begins at `start` ends.
fn word_end(chars: &Vec<char>, start: usize) -> (end: usize)
    requires
        start <= chars.len(),
    ensures
        start <= end <= chars.len(),
        end == start + word_len(chars@.skip(start as int)),
{
    let mut end: usize = start;
    while end < chars.len() && !is_white_space(chars[end])
        invariant
            start <= end <= chars.len(),
            word_len(chars@.skip(start as int)) == end - start + word_len(chars@.skip(end as int)),
        decreases chars.len() - end,
    {
        proof {
            assert(chars@.skip(end as int).skip(1) =~= chars@.skip(end + 1));
        }
        end = end + 1;
    }
    end
}

/// The words of `s`, in order.
pub fn split_whitespace(s: &str) -> (parts: Vec<String>)
    ensures
        views(parts@) == words(s@),
{
    let chars = characters(s);
    let mut parts: Vec<String> = Vec::new();
    let mut at: usize = 0;
    proof {
        assert(s@.skip(0) =~= s@);
        assert(views(parts@) + words(s@) =~= words(s@));
    }
    while at < chars.len()
        invariant
            chars@ == s@,
            at <= chars.len(),
            views(parts@) + words(s@.skip(at as int)) == words(s@),
        decreases chars.len() - at,
    {
        let ghost rest = s@.skip(at as int);
        if is_white_space(chars[at]) {
            proof {
                assert(rest.skip(1) =~= s@.skip(at + 1));
            }
            at = at + 1;
        } else {
            let end = word_end(&chars, at);
            let word = s.substring_char(at, end).to_owned();
            let ghost before = parts@;
            parts.push(word);
            proof {
                assert(word_len(rest) > 0);
                assert(rest.take(word_len(rest) as int) =~= s@.subrange(at as int, end as int));
                assert(rest.skip(word_len(rest) as int) =~= s@.skip(end as int));
                assert(views(parts@) =~= views(before).push(word@));
                assert(views(parts@) + words(s@.skip(end as int)) =~= views(before) + words(rest));
            }
            at = end;
        }
    }
    proof {
        assert(views(parts@) + words(s@.skip(at as int)) =~= views(parts@));
    }
    parts
}

/// The texts of `parts` from index `from` on, with one space between them.
pub fn join_from(parts: &Vec<String>, from: usize) -> (text: String)
    requires
        from <= parts.len(),
    ensures
        text@ == joined(views(parts@).skip(from as int), seq![' ']),
{
    let mut text = String::new();
    let mut next: usize = from;
    let ghost all = views(parts@);
    proof {
        reveal_strlit(" ");
        assert(" "@ =~= seq![' ']);
    }
    while next < parts.len()
        invariant
            all == views(parts@),
            " "@ == seq![' '],
            from <= next <= parts.len(),
            text@ == joined(all.subrange(from as int, next as int), seq![' ']),
        decreases parts.len() - next,
    {
        let ghost taken = all.subrange(from as int, next + 1);
        proof {
            assert(taken.drop_last() =~= all.subrange(from as int, next as int));
        }
        if next != from {
            text.append(" ");
        }
        text.append(parts[next].as_str());
        proof {
            assert(taken.last() == parts[next as int]@);
            if next == from {
                assert(text@ =~= taken[0]);
            }
        }
        next = next + 1;
    }
    proof {
        assert(all.subrange(from as int, next as int) =~= all.skip(from as int));
    }
    text
}

/// The decimal digit of `d`.
pub open spec fn digit(d: nat) -> char {
    (0x30 + d) as char
}

/// The decimal digits of `n`, without leading zeros.
pub open spec fn nat_text(n: nat) -> Seq<char>
    decreases n,
{
    if n < 10 {
        seq![digit(n)]
    } else {
        nat_text(n / 10).push(digit(n % 10))
    }
}

/// `n` in decimal, with a minus sign where it is negative.
pub open spec fn int_text(n: int) -> Seq<char> {
    if n < 0 {
        seq!['-'] + nat_text((-n) as nat)
    } else {
        nat_text(n as nat)
    }
}

/// Whether `c` is a decimal digit.
pub open spec fn is_digit(c: char) -> bool {
    0x30 <= c as u32 <= 0x39
}

/// The number that the digits of `s` stand for.
pub open spec fn digits_value(s: Seq<char>) -> nat
    decreases s.len(),
{
    if s.len() == 0 {
        0
    } else {
        (digits_value(s.drop_last()) * 10 + (s.last() as u32 - 0x30)) as nat
    }
}

/// The digits of a number text: what is left of `s` behind its sign.
pub open spec fn unsigned_part(s: Seq<char>) -> Seq<char> {
    if s.len() > 0 && (s[0] == '-' || s[0] == '+') {
        s.skip(1)
    } else {
        s
    }
}

/// The value of the digits of `s`, negated behind a minus sign.
pub open spec fn signed_value(s: Seq<char>) -> int {
    if s.len() > 0 && s[0] == '-' {
        -(digits_value(s.skip(1)) as int)
    } else {
        digits_value(unsigned_part(s)) as int
    }
}

/// Whether `s` writes an `i64`: an optional sign, then one digit or more, in range.
pub open spec fn is_i64_text(s: Seq<char>) -> bool {
    &&& unsigned_part(s).len() > 0
    &&& forall|i: int| 0 <= i < unsigned_part(s).len() ==> is_digit(#[trigger] unsigned_part(s)[i])
    &&& i64::MIN <= signed_value(s) <= i64::MAX
}

/// The `i64` that `s` writes, if it writes one.
pub open spec fn i64_of(s: Seq<char>) -> Option<i64> {
    if is_i64_text(s) {
        Some(signed_value(s) as i64)
    } else {
        None
    }
}

fn digit_text(d: u64) -> (text: &'static str)
    requires
        d < 10,
    ensures
        text@ == seq![digit(d as nat)],
{
    proof {
        reveal_strlit("0");
        reveal_strlit("1");
        reveal_strlit("2");
        reveal_strlit("3");
        reveal_strlit("4");
        reveal_strlit("5");
        reveal_strlit("6");
        reveal_strlit("7");
        reveal_strlit("8");
        reveal_strlit("9");
    }
    let text = if d == 0 {
        "0"
    } else if d == 1 {
        "1"
    } else if d == 2 {
        "2"
    } else if d == 3 {
        "3"
    } else if d == 4 {
        "4"
    } else if d == 5 {
        "5"
    } else if d == 6 {
        "6"
    } else if d == 7 {
        "7"
    } else if d == 8 {
        "8"
    } else {
        "9"
    };
    assert(text@ =~= seq![digit(d as nat)]);
    text
}

/// `n` in decimal.
pub fn u64_text(n: u64) -> (text: String)
    ensures
        text@ == nat_text(n as nat),
    decreases n,
{
    if n < 10 {
        digit_text(n).to_owned()
    } else {
        let mut text = u64_text(n / 10);
        text.append(digit_text(n % 10));
        assert(text@ =~= nat_text((n / 10) as nat).push(digit((n % 10) as nat)));
        text
    }
}

/// `n` in decimal, with a minus sign where it is negative.
pub fn i64_text(n: i64) -> (text: String)
    ensures
        text@ == int_text(n as int),
{
    if n < 0 {
        proof {
            reveal_strlit("-");
            assert("-"@ =~= seq!['-']);
        }
        let magnitude: u64 = (-(n as i128)) as u64;
        let mut text = "-".to_owned();
        text.append(u64_text(magnitude).as_str());
        text
    } else {
        u64_text(n as u64)
    }
}

/// Digits put behind others do not make the number smaller.
proof fn lemma_digits_value_grows(s: Seq<char>, k: int)
    requires
        0 <= k <= s.len(),
        forall|i: int| 0 <= i < s.len() ==> is_digit(#[trigger] s[i]),
    ensures
        digits_value(s.take(k)) <= digits_value(s),
    decreases s.len(),
{
    if k == s.len() {
        assert(s.take(k) =~= s);
    } else {
        let front = s.drop_last();
        assert(front.take(k) =~= s.take(k));
        assert forall|i: int| 0 <= i < front.len() implies is_digit(#[trigger] front[i]) by {
            assert(front[i] == s[i]);
        }
        lemma_digits_value_grows(front, k);
        assert(is_digit(s[s.len() - 1]));
    }
}

/// Reads the `i64` that `s` writes, if it writes one.
pub fn parse_i64(s: &str) -> (n: Option<i64>)
    ensures
        n == i64_of(s@),
{
    let chars = characters(s);
    let negative: bool = chars.len() > 0 && chars[0] == '-';
    let first: usize = if chars.len() > 0 && (chars[0] == '-' || chars[0] == '+') {
        1
    } else {
        0
    };
    let ghost body = unsigned_part(s@);
    proof {
        assert(body =~= s@.skip(first as int));
    }
    if first == chars.len() {
        return None;
    }
    let mut at: usize = first;
    let mut value: u64 = 0;
    proof {
        assert(body.take(0) =~= Seq::empty());
    }
    while at < chars.len()
        invariant
            chars@ == s@,
            body == unsigned_part(s@),
            body == s@.skip(first as int),
            first <= at <= chars.len(),
            forall|i: int| 0 <= i < at - first ==> is_digit(#[trigger] body[i]),
            value == digits_value(body.take(at - first)),
            value <= 0x8000_0000_0000_0000,
        decreases chars.len() - at,
    {
        let n: u32 = chars[at] as u32;
        assert(body[at - first] == chars@[at as int]);
        if n < 0x30 || 0x39 < n {
            assert(!is_digit(body[at - first]));
            return None;
        }
        let wide: u128 = value as u128 * 10 + (n - 0x30) as u128;
        proof {
            assert(body.take(at - first + 1).drop_last() =~= body.take(at - first));
            assert(wide == digits_value(body.take(at - first + 1)));
        }
        if wide > 0x8000_0000_0000_0000 {
            proof {
                if is_i64_text(s@) {
                    lemma_digits_value_grows(body, at - first + 1);
                }
            }
            return None;
        }
        value = wide as u64;
        at = at + 1;
    }
    proof {
        assert(body.take(at - first) =~= body);
    }
    if negative {
        Some((-(value as i128)) as i64)
    } else if value <= 0x7FFF_FFFF_FFFF_FFFF {
        Some(value as i64)
    } else {
        None
    }
}

proof fn lemma_word_len_of_word(w: Seq<char>)
    requires
        forall|i: int| 0 <= i < w.len() ==> !is_white(#[trigger] w[i]),
    ensures
        word_len(w) == w.len(),
    decreases w.len(),
{
    if w.len() > 0 {
        assert(!is_white(w[0]));
        let rest = w.skip(1);
        assert forall|i: int| 0 <= i < rest.len() implies !is_white(#[trigger] rest[i]) by {
            assert(rest[i] == w[i + 1]);
        }
        lemma_word_len_of_word(rest);
    }
}

proof fn lemma_words_of_word(w: Seq<char>)
    requires
        is_word(w),
    ensures
        words(w) == seq![w],
{
    lemma_word_len_of_word(w);
    assert(!is_white(w[0]));
    assert(w.take(w.len() as int) =~= w);
    assert(words(w.skip(w.len() as int)) =~= Seq::empty());
    assert(words(w) =~= seq![w]);
}

proof fn lemma_word_len_before_space(s: Seq<char>, t: Seq<char>)
    requires
        t.len() > 0,
        is_white(t[0]),
    ensures
        word_len(s + t) == word_len(s),
    decreases s.len(),
{
    if s.len() > 0 {
        assert((s + t)[0] == s[0]);
        assert((s + t).skip(1) =~= s.skip(1) + t);
        if !is_white(s[0]) {
            lemma_word_len_before_space(s.skip(1), t);
        }
    } else {
        assert((s + t)[0] == t[0]);
    }
}

proof fn lemma_words_push(s: Seq<char>, w: Seq<char>)
    requires
        is_word(w),
    ensures
        words(s + seq![' '] + w) == words(s).push(w),
    decreases s.len(),
{
    let t = seq![' '] + w;
    let all = s + seq![' '] + w;
    assert(all =~= s + t);
    if s.len() == 0 {
        assert(all[0] == ' ');
        assert(all.skip(1) =~= w);
        lemma_words_of_word(w);
        assert(words(s).push(w) =~= seq![w]);
    } else {
        assert(all[0] == s[0]);
        if is_white(s[0]) {
            lemma_words_push(s.skip(1), w);
            assert(all.skip(1) =~= s.skip(1) + seq![' '] + w);
        } else {
            let k = word_len(s) as int;
            lemma_word_len_bound(s);
            lemma_word_len_before_space(s, t);
            assert(all.take(k) =~= s.take(k));
            assert(all.skip(k) =~= s.skip(k) + seq![' '] + w);
            lemma_words_push(s.skip(k), w);
            assert(words(all) =~= words(s).push(w));
        }
    }
}

/// Words that are joined with single spaces are split into the same words again.
pub proof fn law_split_undoes_join(parts: Seq<Seq<char>>)
    requires
        forall|i: int| 0 <= i < parts.len() ==> is_word(#[trigger] parts[i]),
    ensures
        words(joined(parts, seq![' '])) == parts,
    decreases parts.len(),
{
    if parts.len() == 0 {
        assert(words(joined(parts, seq![' '])) =~= parts);
    } else if parts.len() == 1 {
        lemma_words_of_word(parts[0]);
        assert(parts =~= seq![parts[0]]);
    } else {
        let front = parts.drop_last();
        assert forall|i: int| 0 <= i < front.len() implies is_word(#[trigger] front[i]) by {
            assert(front[i] == parts[i]);
        }
        law_split_undoes_join(front);
        assert(parts.last() == parts[parts.len() - 1]);
        lemma_words_push(joined(front, seq![' ']), parts.last());
        assert(front.push(parts.last()) =~= parts);
    }
}

proof fn lemma_word_of_start(s: Seq<char>)
    requires
        s.len() > 0,
        !is_white(s[0]),
    ensures
        is_word(s.take(word_len(s) as int)),
    decreases s.len(),
{
    lemma_word_len_bound(s);
    let w = s.take(word_len(s) as int);
    let rest = s.skip(1);
    if rest.len() > 0 && !is_white(rest[0]) {
        lemma_word_of_start(rest);
        lemma_word_len_bound(rest);
        let tail = rest.take(word_len(rest) as int);
        assert forall|i: int| 0 <= i < w.len() implies !is_white(#[trigger] w[i]) by {
            if i > 0 {
                assert(w[i] == tail[i - 1]);
            }
        }
    } else {
        assert(word_len(rest) == 0);
        assert(w.len() == 1);
    }
}

/// The words of a text are words: not empty, and without white space.
pub proof fn law_words_are_words(s: Seq<char>)
    ensures
        forall|i: int| 0 <= i < words(s).len() ==> is_word(#[trigger] words(s)[i]),
    decreases s.len(),
{
    if s.len() > 0 {
        if is_white(s[0]) {
            law_words_are_words(s.skip(1));
            assert(words(s) == words(s.skip(1)));
        } else {
            let k = word_len(s) as int;
            lemma_word_len_bound(s);
            lemma_word_of_start(s);
            assert(words(s) == seq![s.take(k)] + words(s.skip(k)));
            law_words_are_words(s.skip(k));
            assert forall|i: int| 0 <= i < words(s).len() implies is_word(
                #[trigger] words(s)[i],
            ) by {
                if i > 0 {
                    assert(words(s)[i] == words(s.skip(k))[i - 1]);
                }
            }
        }
    }
}

proof fn lemma_nat_text(n: nat)
    ensures
        nat_text(n).len() > 0,
        forall|i: int| 0 <= i < nat_text(n).len() ==> is_digit(#[trigger] nat_text(n)[i]),
        digits_value(nat_text(n)) == n,
    decreases n,
{
    if n >= 10 {
        lemma_nat_text(n / 10);
        assert(nat_text(n).drop_last() =~= nat_text(n / 10));
        assert(nat_text(n).last() as u32 == 0x30 + n % 10);
    } else {
        assert(digits_value(nat_text(n).drop_last()) == 0);
        assert(nat_text(n).last() as u32 == 0x30 + n);
    }
}

/// A number that is written is read back.
pub proof fn law_parse_undoes_text(n: i64)
    ensures
        i64_of(int_text(n as int)) == Some(n),
        is_word(int_text(n as int)),
{
    let text = int_text(n as int);
    let digits = nat_text(
        if n < 0 {
            (-n) as nat
        } else {
            n as nat
        },
    );
    lemma_nat_text(
        if n < 0 {
            (-n) as nat
        } else {
            n as nat
        },
    );
    assert(is_digit(digits[0]));
    if n < 0 {
        assert(text[0] == '-');
        assert(text.skip(1) =~= digits);
    }
    assert(unsigned_part(text) =~= digits);
    assert forall|i: int| 0 <= i < text.len() implies !is_white(#[trigger] text[i]) by {
        if n < 0 && i > 0 {
            assert(text[i] == digits[i - 1]);
        }
    }
}

/// Whether `s` holds nothing but white space.
pub open spec fn is_blank(s: Seq<char>) -> bool {
    forall|i: int| 0 <= i < s.len() ==> is_white(#[trigger] s[i])
}

proof fn lemma_trimmed_start(blank: Seq<char>, s: Seq<char>)
    requires
        is_blank(blank),
        s.len() > 0 ==> !is_white(s[0]),
    ensures
        trimmed_start(blank + s) == s,
    decreases blank.len(),
{
    if blank.len() == 0 {
        assert(blank + s =~= s);
    } else {
        let rest = blank.skip(1);
        assert((blank + s)[0] == blank[0]);
        assert((blank + s).skip(1) =~= rest + s);
        assert forall|i: int| 0 <= i < rest.len() implies is_white(#[trigger] rest[i]) by {
            assert(rest[i] == blank[i + 1]);
        }
        lemma_trimmed_start(rest, s);
    }
}

proof fn lemma_trimmed_end(s: Seq<char>, blank: Seq<char>)
    requires
        is_blank(blank),
        s.len() > 0 ==> !is_white(s.last()),
    ensures
        trimmed_end(s + blank) == s,
    decreases blank.len(),
{
    if blank.len() == 0 {
        assert(s + blank =~= s);
    } else {
        let rest = blank.drop_last();
        assert((s + blank).last() == blank[blank.len() - 1]);
        assert((s + blank).drop_last() =~= s + rest);
        assert forall|i: int| 0 <= i < rest.len() implies is_white(#[trigger] rest[i]) by {
            assert(rest[i] == blank[i]);
        }
        lemma_trimmed_end(s, rest);
    }
}

/// Trimming takes away the white space at both ends, all of it and nothing else, however much
/// there is and whatever stands between.
pub proof fn law_trimming(before: Seq<char>, content: Seq<char>, behind: Seq<char>)
    requires
        is_blank(before),
        is_blank(behind),
        content.len() > 0 ==> !is_white(content[0]) && !is_white(content.last()),
    ensures
        trimmed(before + content + behind) == content,
{
    if content.len() == 0 {
        let all = before + behind;
        assert(before + content + behind =~= all + content);
        assert forall|i: int| 0 <= i < all.len() implies is_white(#[trigger] all[i]) by {
            if i < before.len() {
                assert(all[i] == before[i]);
            } else {
                assert(all[i] == behind[i - before.len()]);
            }
        }
        lemma_trimmed_start(all, content);
        lemma_trimmed_end(content, Seq::empty());
        assert(content + Seq::empty() =~= content);
    } else {
        assert(before + content + behind =~= before + (content + behind));
        assert((content + behind)[0] == content[0]);
        lemma_trimmed_start(before, content + behind);
        lemma_trimmed_end(content, behind);
    }
}

/// Every text is what trimming leaves of it with white space around, and what is left neither
/// begins nor ends with white space.
pub proof fn law_trimming_splits(s: Seq<char>) -> (ends: (int, int))
    ensures
        0 <= ends.0 <= ends.1 <= s.len(),
        is_blank(s.take(ends.0)),
        is_blank(s.skip(ends.1)),
        trimmed(s) == s.subrange(ends.0, ends.1),
        ends.0 < ends.1 ==> !is_white(s[ends.0]) && !is_white(s[ends.1 - 1]),
{
    let from = lemma_first_black(s, 0);
    let to = lemma_last_black(s, from, s.len() as int);
    let content = s.subrange(from, to);
    assert(s.take(from) + content + s.skip(to) =~= s);
    law_trimming(s.take(from), content, s.skip(to));
    (from, to)
}

proof fn lemma_first_black(s: Seq<char>, at: int) -> (from: int)
    requires
        0 <= at <= s.len(),
        is_blank(s.take(at)),
    ensures
        at <= from <= s.len(),
        is_blank(s.take(from)),
        from < s.len() ==> !is_white(s[from]),
    decreases s.len() - at,
{
    if at < s.len() && is_white(s[at]) {
        let more = s.take(at + 1);
        assert forall|i: int| 0 <= i < more.len() implies is_white(#[trigger] more[i]) by {
            if i < at {
                assert(more[i] == s.take(at)[i]);
            }
        }
        lemma_first_black(s, at + 1)
    } else {
        at
    }
}

proof fn lemma_last_black(s: Seq<char>, from: int, at: int) -> (to: int)
    requires
        0 <= from <= at <= s.len(),
        is_blank(s.skip(at)),
    ensures
        from <= to <= at,
        is_blank(s.skip(to)),
        from < to ==> !is_white(s[to - 1]),
    decreases at - from,
{
    if from < at && is_white(s[at - 1]) {
        let more = s.skip(at - 1);
        assert forall|i: int| 0 <= i < more.len() implies is_white(#[trigger] more[i]) by {
            if i > 0 {
                assert(more[i] == s.skip(at)[i - 1]);
            }
        }
        lemma_last_black(s, from, at - 1)
    } else {
        at
    }
}

/// White space parts words, whatever stands around it: the words of two texts with white space
/// between them are the words of the one and then those of the other.
pub proof fn law_white_space_parts_words(a: Seq<char>, white: char, b: Seq<char>)
    requires
        is_white(white),
    ensures
        words(a.push(white) + b) == words(a) + words(b),
    decreases a.len(),
{
    let all = a.push(white) + b;
    if a.len() == 0 {
        assert(all[0] == white);
        assert(all.skip(1) =~= b);
        assert(words(a) + words(b) =~= words(b));
    } else {
        assert(all[0] == a[0]);
        if is_white(a[0]) {
            assert(all.skip(1) =~= a.skip(1).push(white) + b);
            law_white_space_parts_words(a.skip(1), white, b);
        } else {
            let t = seq![white] + b;
            let k = word_len(a) as int;
            assert(all =~= a + t);
            lemma_word_len_bound(a);
            lemma_word_len_before_space(a, t);
            assert(all.take(k) =~= a.take(k));
            assert(all.skip(k) =~= a.skip(k).push(white) + b);
            law_white_space_parts_words(a.skip(k), white, b);
            assert(words(all) =~= words(a) + words(b));
        }
    }
}

/// A text without white space is one word, and the empty text is none.
pub proof fn law_one_word(w: Seq<char>)
    requires
        forall|i: int| 0 <= i < w.len() ==> !is_white(#[trigger] w[i]),
    ensures
        words(w) == if w.len() == 0 {
            Seq::empty()
        } else {
            seq![w]
        },
{
    if w.len() > 0 {
        lemma_words_of_word(w);
    }
}

/// Joining puts the separator between the parts and nowhere else: two lists joined give the one
/// joined, the separator, and the other joined; a single part is left as it is.
pub proof fn law_joining(a: Seq<Seq<char>>, b: Seq<Seq<char>>, part: Seq<char>, separator: Seq<char>)
    requires
        a.len() > 0,
        b.len() > 0,
    ensures
        joined(a + b, separator) == joined(a, separator) + separator + joined(b, separator),
        joined(seq![part], separator) == part,
        joined(Seq::empty(), separator) == Seq::<char>::empty(),
    decreases b.len(),
{
    let all = a + b;
    assert(all.last() == b.last());
    if b.len() == 1 {
        assert(all.drop_last() =~= a);
    } else {
        assert(all.drop_last() =~= a + b.drop_last());
        law_joining(a, b.drop_last(), part, separator);
        assert(joined(all, separator) =~= joined(a, separator) + separator + joined(b, separator));
    }
}

/// Numbers are written with the digits 0 to 9 and without leading zeros, and a minus sign before
/// those below zero.
pub proof fn law_decimal(n: nat)
    ensures
        nat_text(n).len() > 0,
        forall|i: int| 0 <= i < nat_text(n).len() ==> '0' <= #[trigger] nat_text(n)[i] <= '9',
        nat_text(n)[0] == '0' ==> n == 0 && nat_text(n).len() == 1,
        int_text(n as int) == nat_text(n),
        n > 0 ==> int_text(-(n as int)) == seq!['-'] + nat_text(n),
    decreases n,
{
    lemma_nat_text(n);
    if n >= 10 {
        law_decimal(n / 10);
        assert(nat_text(n)[0] == nat_text(n / 10)[0]);
    } else {
        assert(nat_text(n)[0] as u32 == 0x30 + n);
    }
    assert forall|i: int| 0 <= i < nat_text(n).len() implies '0' <= #[trigger] nat_text(n)[i]
        <= '9' by {
        assert(is_digit(nat_text(n)[i]));
    }
}

/// A digit more makes a number ten times as large, and adds the digit.
pub proof fn law_digit_by_digit(digits: Seq<char>, d: char)
    requires
        '0' <= d <= '9',
    ensures
        digits_value(digits.push(d)) == 10 * digits_value(digits) + (d as int - '0' as int),
        digits_value(Seq::empty()) == 0,
{
    assert(digits.push(d).drop_last() =~= digits);
}

/// Which texts are read as numbers, and as which: one digit or more, with or without a sign, as
/// long as the number fits.
pub proof fn law_reading_numbers(digits: Seq<char>)
    requires
        digits.len() > 0,
        forall|i: int| 0 <= i < digits.len() ==> '0' <= #[trigger] digits[i] <= '9',
    ensures
        ({
            let n = digits_value(digits) as int;
            let positive = if n <= i64::MAX {
                Some(n as i64)
            } else {
                None
            };
            &&& i64_of(digits) == positive
            &&& i64_of(seq!['+'] + digits) == positive
            &&& i64_of(seq!['-'] + digits) == if n <= i64::MAX + 1 {
                Some((-n) as i64)
            } else {
                None
            }
        }),
{
    let plus = seq!['+'] + digits;
    let minus = seq!['-'] + digits;
    assert(plus.skip(1) =~= digits && minus.skip(1) =~= digits);
    assert(unsigned_part(digits) == digits);
    assert forall|i: int| 0 <= i < digits.len() implies is_digit(#[trigger] digits[i]) by {
        assert('0' <= digits[i] <= '9');
    }
}

proof fn lemma_digits(c: char)
    ensures
        is_digit(c) == ('0' <= c <= '9'),
{
}

/// No other text is read as a number: none without a digit, and none with anything but digits
/// behind its first character.
pub proof fn law_no_number(s: Seq<char>, at: int)
    requires
        s.len() == 0 || (s.len() == 1 && !('0' <= s[0] <= '9')) || (0 <= at < s.len() && !('0'
            <= s[at] <= '9') && (at > 0 || (s[0] != '+' && s[0] != '-'))),
    ensures
        i64_of(s) is None,
{
    let body = unsigned_part(s);
    if s.len() > 0 && body.len() > 0 {
        if s[0] == '+' || s[0] == '-' {
            assert(body == s.skip(1));
            assert(body[at - 1] == s[at]);
            lemma_digits(s[at]);
        } else {
            assert(body == s);
            let place = if s.len() == 1 {
                0
            } else {
                at
            };
            assert(!('0' <= s[place] <= '9'));
            lemma_digits(body[place]);
        }
    }
}

} // verus!
