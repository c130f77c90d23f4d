//! Building text.

use vstd::prelude::*;

verus! {

/// The decimal digits of `n`, the most significant first.
pub open spec fn decimal(n: nat) -> Seq<char>
    decreases n,
{
    if n < 10 {
        seq![digit(n)]
    } else {
        decimal(n / 10).push(digit(n % 10))
    }
}

/// The character of one decimal digit.
pub open spec fn digit(d: nat) -> char {
    (('0' as int) + d) as char
}

/// One decimal digit as text.
fn digit_text(d: u64) -> (text: String)
    requires
        d < 10,
    ensures
        text@ == seq![digit(d as nat)],
{
    proof {
        reveal_strlit("0");
        reveal_strlit("1");
        reveal_strlit("2");
        reveal_strlit("3");
        reveal_strlit("4");
        reveal_strlit("5");
        reveal_strlit("6");
        reveal_strlit("7");
        reveal_strlit("8");
        reveal_strlit("9");
    }
    match d {
        0 => "0".to_owned(),
        1 => "1".to_owned(),
        2 => "2".to_owned(),
        3 => "3".to_owned(),
        4 => "4".to_owned(),
        5 => "5".to_owned(),
        6 => "6".to_owned(),
        7 => "7".to_owned(),
        8 => "8".to_owned(),
        _ => "9".to_owned(),
    }
}

/// `n` in decimal.
pub fn decimal_text(n: u64) -> (text: String)
    ensures
        text@ == decimal(n as nat),
    decreases n,
{
    if n < 10 {
        digit_text(n)
    } else {
        let mut text = decimal_text(n / 10);
        let last = digit_text(n % 10);
        text.append(last.as_str());
        assert(text@ =~= decimal((n / 10) as nat).push(digit((n % 10) as nat)));
        text
    }
}

/// A white-space character.
pub open spec fn is_white(c: char) -> bool {
    let n = c as int;
    ||| 0x9 <= n <= 0xd
    ||| n == 0x20
    ||| n == 0x85
    ||| n == 0xa0
    ||| n == 0x1680
    ||| 0x2000 <= n <= 0x200a
    ||| n == 0x2028
    ||| n == 0x2029
    ||| n == 0x202f
    ||| n == 0x205f
    ||| n == 0x3000
}

/// `s` without the white space it begins with.
pub open spec fn trimmed_start(s: Seq<char>) -> Seq<char>
    decreases s.len(),
{
    if s.len() > 0 && is_white(s[0]) {
        trimmed_start(s.skip(1))
    } else {
        s
    }
}

/// `s` without the white space it ends with.
pub open spec fn trimmed_end(s: Seq<char>) -> Seq<char>
    decreases s.len(),
{
    if s.len() > 0 && is_white(s.last()) {
        trimmed_end(s.drop_last())
    } else {
        s
    }
}

/// `s` without the white space at its ends.
pub open spec fn trimmed(s: Seq<char>) -> Seq<char> {
    trimmed_end(trimmed_start(s))
}

/// Whether `c` is white space.
fn white(c: char) -> (yes: bool)
    ensures
        yes == is_white(c),
{
    let n = c as u32;
    (0x9 <= n && n <= 0xd) || n == 0x20 || n == 0x85 || n == 0xa0 || n == 0x1680 || (0x2000 <= n
        && n <= 0x200a) || n == 0x2028 || n == 0x2029 || n == 0x202f || n == 0x205f || n == 0x3000
}

/// `s` without the white space at its ends.
pub fn trim(s: &str) -> (t: String)
    ensures
        t@ == trimmed(s@),
{
    let n = s.unicode_len();
    let mut from: usize = 0;
    assert(s@.skip(0) =~= s@);
    while from < n && white(s.get_char(from))
        invariant
            n == s@.len(),
            from <= n,
            trimmed_start(s@) == trimmed_start(s@.skip(from as int)),
        decreases n - from,
    {
        assert(s@.skip(from as int).skip(1) =~= s@.skip(from as int + 1));
        from = from + 1;
    }
    let ghost rest = s@.skip(from as int);
    assert(trimmed_start(s@) == rest);
    let mut to: usize = n;
    assert(s@.subrange(from as int, to as int) =~= rest);
    while to > from && white(s.get_char(to - 1))
        invariant
            n == s@.len(),
            from <= to <= n,
            trimmed_end(rest) == trimmed_end(s@.subrange(from as int, to as int)),
        decreases to,
    {
        assert(s@.subrange(from as int, to as int).drop_last() =~= s@.subrange(
            from as int,
            to as int - 1,
        ));
        to = to - 1;
    }
    s.substring_char(from, to).to_owned()
}

/// The value of a decimal digit.
pub open spec fn digit_value(c: char) -> Option<nat> {
    if '0' as int <= c as int <= '9' as int {
        Some((c as int - '0' as int) as nat)
    } else {
        None
    }
}

/// The value of decimal digits, where `s` holds nothing else.
pub open spec fn digits_value(s: Seq<char>) -> Option<nat>
    decreases s.len(),
{
    if s.len() == 0 {
        Some(0)
    } else {
        match (digits_value(s.drop_last()), digit_value(s.last())) {
            (Some(value), Some(d)) => Some(value * 10 + d),
            _ => None,
        }
    }
}

/// The number that `s` writes in decimal, with or without a plus sign, where
/// it is no more than `max`.
pub open spec fn parsed(s: Seq<char>, max: nat) -> Option<nat> {
    let body = if s.len() > 0 && s[0] == '+' {
        s.skip(1)
    } else {
        s
    };
    match digits_value(body) {
        Some(value) => if body.len() > 0 && value <= max {
            Some(value)
        } else {
            None
        },
        None => None,
    }
}

/// More digits make a value no smaller, and a wrong one stays wrong.
proof fn lemma_digits_grow(s: Seq<char>, i: int)
    requires
        0 <= i <= s.len(),
    ensures
        digits_value(s) matches Some(whole) ==> digits_value(s.take(i)) matches Some(part)
            && part <= whole,
    decreases s.len() - i,
{
    if i < s.len() {
        lemma_digits_grow(s, i + 1);
        assert(s.take(i + 1).drop_last() =~= s.take(i));
    } else {
        assert(s.take(i) =~= s);
    }
}

/// The number that `s` writes in decimal, where it is no more than `max`.
pub fn parse_number(s: &str, max: u64) -> (value: Option<u64>)
    ensures
        match (value, parsed(s@, max as nat)) {
            (Some(value), Some(number)) => value == number,
            (None, None) => true,
            _ => false,
        },
{
    let n = s.unicode_len();
    let start: usize = if n > 0 && s.get_char(0) == '+' {
        1
    } else {
        0
    };
    let ghost body = s@.skip(start as int);
    assert(start == 0 ==> body =~= s@);
    if start == n {
        assert(body.len() == 0);
        return None;
    }
    let mut value: u64 = 0;
    let mut i: usize = start;
    assert(body.take(0) =~= Seq::<char>::empty());
    while i < n
        invariant
            n == s@.len(),
            start <= i <= n,
            start <= 1,
            body == s@.skip(start as int),
            digits_value(body.take(i - start)) == Some(value as nat),
            value <= max,
            body == (if s@.len() > 0 && s@[0] == '+' {
                s@.skip(1)
            } else {
                s@
            }),
            body.len() > 0,
        decreases n - i,
    {
        let c = s.get_char(i);
        proof {
            assert(body.take(i - start + 1).drop_last() =~= body.take(i - start));
            assert(body.take(i - start + 1).last() == c);
            lemma_digits_grow(body, i - start + 1);
        }
        let code = c as u32;
        if code < 48 || code > 57 {
            return None;
        }
        let d: u64 = (code - 48) as u64;
        if value > (max / 10) {
            assert(value * 10 + d > max);
            return None;
        }
        if d > max - value * 10 {
            return None;
        }
        value = value * 10 + d;
        i = i + 1;
    }
    assert(body.take(n - start) =~= body);
    Some(value)
}

/// `s` up to its first full stop.
pub open spec fn before_stop(s: Seq<char>) -> Seq<char>
    decreases s.len(),
{
    if s.len() == 0 || s[0] == '.' {
        Seq::empty()
    } else {
        seq![s[0]] + before_stop(s.skip(1))
    }
}

/// `s` up to its first full stop.
pub fn prefix_before_stop(s: &str) -> (prefix: String)
    ensures
        prefix@ == before_stop(s@),
{
    let n = s.unicode_len();
    let mut i: usize = 0;
    assert(s@.skip(0) =~= s@);
    assert(s@.take(0) + before_stop(s@) =~= before_stop(s@));
    while i < n && s.get_char(i) != '.'
        invariant
            n == s@.len(),
            i <= n,
            before_stop(s@) == s@.take(i as int) + before_stop(s@.skip(i as int)),
        decreases n - i,
    {
        proof {
            let rest = s@.skip(i as int);
            assert(rest.skip(1) =~= s@.skip(i + 1));
            assert(s@.take(i as int) + (seq![rest[0]] + before_stop(rest.skip(1))) =~= s@.take(
                i + 1,
            ) + before_stop(s@.skip(i + 1)));
        }
        i = i + 1;
    }
    assert(s@.take(i as int) =~= s@.subrange(0, i as int));
    assert(s@.take(i as int) + Seq::<char>::empty() =~= s@.take(i as int));
    s.substring_char(0, i).to_owned()
}

/// A trimmed text has no white space at either end, and lacks nothing of the
/// text but white space there.
pub proof fn a_trimmed_text_lacks_only_white_ends(s: Seq<char>)
    ensures
        ({
            let t = trimmed(s);
            &&& t.len() > 0 ==> !is_white(t[0]) && !is_white(t.last())
            &&& exists|head: Seq<char>, tail: Seq<char>|
                {
                    &&& s == #[trigger] (head + t + tail)
                    &&& forall|i: int| 0 <= i < head.len() ==> is_white(#[trigger] head[i])
                    &&& forall|i: int| 0 <= i < tail.len() ==> is_white(#[trigger] tail[i])
                }
        }),
{
    let m = trimmed_start(s);
    let head = lemma_front_is_white(s);
    let tail = lemma_back_is_white(m);
    let t = trimmed(s);
    assert(s =~= head + t + tail);
    if t.len() > 0 {
        assert(t[0] == m[0]);
    }
}

/// What is cut off the front of a text.
proof fn lemma_front_is_white(s: Seq<char>) -> (head: Seq<char>)
    ensures
        s == head + trimmed_start(s),
        forall|i: int| 0 <= i < head.len() ==> is_white(#[trigger] head[i]),
        trimmed_start(s).len() > 0 ==> !is_white(trimmed_start(s)[0]),
    decreases s.len(),
{
    if s.len() > 0 && is_white(s[0]) {
        let rest = lemma_front_is_white(s.skip(1));
        let head = seq![s[0]] + rest;
        assert(trimmed_start(s) == trimmed_start(s.skip(1)));
        assert(s =~= seq![s[0]] + s.skip(1));
        assert(head + trimmed_start(s) =~= seq![s[0]] + (rest + trimmed_start(s)));
        head
    } else {
        assert(s =~= Seq::<char>::empty() + s);
        Seq::empty()
    }
}

/// What is cut off the back of a text.
proof fn lemma_back_is_white(s: Seq<char>) -> (tail: Seq<char>)
    ensures
        s == trimmed_end(s) + tail,
        forall|i: int| 0 <= i < tail.len() ==> is_white(#[trigger] tail[i]),
        trimmed_end(s).len() > 0 ==> !is_white(trimmed_end(s).last()),
    decreases s.len(),
{
    if s.len() > 0 && is_white(s.last()) {
        let rest = lemma_back_is_white(s.drop_last());
        let tail = rest.push(s.last());
        assert(trimmed_end(s) == trimmed_end(s.drop_last()));
        assert(s =~= s.drop_last().push(s.last()));
        assert(trimmed_end(s) + tail =~= (trimmed_end(s) + rest).push(s.last()));
        tail
    } else {
        assert(s =~= s + Seq::<char>::empty());
        Seq::empty()
    }
}

/// A blank, a tab and the ends of lines are white space; letters, digits and
/// punctuation are not.
pub proof fn blanks_and_line_ends_are_white(c: char)
    ensures
        c == ' ' || c == '\t' || c == '\n' || c == '\r' ==> is_white(c),
        '!' <= c <= '~' ==> !is_white(c),
{
}

/// What stands before the first full stop has none, is how the text begins,
/// and ends at a full stop or with the text.
pub proof fn what_stands_before_the_stop_has_none(s: Seq<char>)
    ensures
        ({
            let head = before_stop(s);
            &&& head.len() <= s.len()
            &&& s.take(head.len() as int) == head
            &&& !head.contains('.')
            &&& head.len() < s.len() ==> s[head.len() as int] == '.'
        }),
    decreases s.len(),
{
    let head = before_stop(s);
    if s.len() == 0 || s[0] == '.' {
        assert(s.take(0) =~= Seq::<char>::empty());
    } else {
        let rest = before_stop(s.skip(1));
        what_stands_before_the_stop_has_none(s.skip(1));
        assert forall|i: int| 0 <= i < head.len() implies head[i] == s[i] by {
            if i > 0 {
                assert(head[i] == rest[i - 1]);
                assert(s.skip(1).take(rest.len() as int)[i - 1] == s.skip(1)[i - 1]);
            }
        }
        assert(s.take(head.len() as int) =~= head);
        if head.contains('.') {
            let i = choose|i: int| 0 <= i < head.len() && head[i] == '.';
            assert(rest[i - 1] == '.');
        }
        if head.len() < s.len() {
            assert(s.skip(1)[rest.len() as int] == s[head.len() as int]);
        }
    }
}

/// A text is a number exactly where it is digits, at least one, with or
/// without a plus before them, and not too large. Each digit more counts ten
/// times what stands before it.
pub proof fn a_number_is_its_digits(s: Seq<char>, max: nat, c: char)
    ensures
        parsed(s, max) is Some ==> s.len() > 0 && parsed(s, max)->0 <= max && forall|i: int|
            0 < i < s.len() ==> '0' <= #[trigger] s[i] <= '9',
        parsed(s, max) is Some ==> s[0] == '+' || '0' <= s[0] <= '9',
        s.len() > 0 && '0' <= s[0] <= '9' && '0' <= c <= '9' && digits_value(s) is Some
            ==> digits_value(s.push(c)) == Some(
            (digits_value(s)->0 * 10 + (c as int - '0' as int)) as nat,
        ),
        s.len() > 0 && s[0] != '+' && digits_value(s) is Some && digits_value(s)->0 <= max
            ==> parsed(s, max) == digits_value(s),
        digits_value(s) is Some ==> s.len() == 0 || s[0] != '+',
{
    lemma_all_digits(s);
    lemma_all_digits(s.skip(1));
    assert(s.push(c).drop_last() =~= s);
    if parsed(s, max) is Some {
        assert forall|i: int| 0 < i < s.len() implies '0' <= #[trigger] s[i] <= '9' by {
            if s[0] == '+' {
                assert(s.skip(1)[i - 1] == s[i]);
            }
        }
    }
}

/// A text of digits is made of digits alone.
proof fn lemma_all_digits(s: Seq<char>)
    ensures
        digits_value(s) is Some ==> forall|i: int| 0 <= i < s.len() ==> '0' <= #[trigger] s[i] <= '9',
        (forall|i: int| 0 <= i < s.len() ==> '0' <= #[trigger] s[i] <= '9') ==> digits_value(s) is Some,
    decreases s.len(),
{
    if s.len() > 0 {
        let t = s.drop_last();
        lemma_all_digits(t);
        assert(forall|i: int| 0 <= i < t.len() ==> #[trigger] t[i] == s[i]);
        if digits_value(s) is Some {
            assert forall|i: int| 0 <= i < s.len() implies '0' <= #[trigger] s[i] <= '9' by {
                if i < t.len() {
                    assert(t[i] == s[i]);
                } else {
                    assert(s[i] == s.last());
                }
            }
        }
        if forall|i: int| 0 <= i < s.len() ==> '0' <= #[trigger] s[i] <= '9' {
            assert forall|i: int| 0 <= i < t.len() implies '0' <= #[trigger] t[i] <= '9' by {
                assert(t[i] == s[i]);
            }
            assert('0' <= s[s.len() - 1] <= '9');
        }
    }
}

} // verus!
