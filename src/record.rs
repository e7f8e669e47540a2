use vstd::prelude::*;

verus! {

/// One matching line: the file it was found in, its 1-based number, and its text.
#[derive(Clone, Debug)]
pub struct MatchRecord {
    pub path: String,
    pub line_number: usize,
    pub content: String,
}

impl View for MatchRecord {
    type V = (Seq<char>, nat, Seq<char>);

    open spec fn view(&self) -> (Seq<char>, nat, Seq<char>) {
        (self.path@, self.line_number as nat, self.content@)
    }
}

/// The character that writes a decimal digit.
pub open spec fn digit_char(d: nat) -> char {
    if d == 0 {
        '0'
    } else if d == 1 {
        '1'
    } else if d == 2 {
        '2'
    } else if d == 3 {
        '3'
    } else if d == 4 {
        '4'
    } else if d == 5 {
        '5'
    } else if d == 6 {
        '6'
    } else if d == 7 {
        '7'
    } else if d == 8 {
        '8'
    } else {
        '9'
    }
}

pub open spec fn is_digit(c: char) -> bool {
    '0' <= c <= '9'
}

/// The value of a decimal digit character.
pub open spec fn digit_value(c: char) -> nat {
    (c as u32 - '0' as u32) as nat
}

pub open spec fn all_digits(s: Seq<char>) -> bool {
    forall|i: int| 0 <= i < s.len() ==> is_digit(#[trigger] s[i])
}

/// `n` written in decimal, without leading zeros.
pub open spec fn decimal(n: nat) -> Seq<char>
    decreases n,
{
    if n < 10 {
        seq![digit_char(n)]
    } else {
        decimal(n / 10).push(digit_char(n % 10))
    }
}

/// The number that a string of decimal digits stands for.
pub open spec fn digits_value(s: Seq<char>) -> nat
    decreases s.len(),
{
    if s.len() == 0 {
        0
    } else {
        digits_value(s.drop_last()) * 10 + digit_value(s.last())
    }
}

pub open spec fn has_colon(s: Seq<char>) -> bool {
    exists|i: int| 0 <= i < s.len() && s[i] == ':'
}

/// The text of a record: `path:line : content`.
pub open spec fn record_text(path: Seq<char>, line: nat, content: Seq<char>) -> Seq<char> {
    path + seq![':'] + decimal(line) + seq![' ', ':', ' '] + content
}

/// The index of the first `:` at or after `from`, or the length if there is none.
pub open spec fn colon_from(s: Seq<char>, from: int) -> int
    decreases s.len() - from,
{
    if from < 0 || from >= s.len() {
        s.len() as int
    } else if s[from] == ':' {
        from
    } else {
        colon_from(s, from + 1)
    }
}

/// Reading a record's text back: split at the first two colons. Between them
/// stands a positive decimal number followed by one space; after the second
/// colon one space, then the content, which may hold colons of its own.
pub open spec fn parse_text(s: Seq<char>) -> Option<(Seq<char>, nat, Seq<char>)> {
    let i = colon_from(s, 0);
    let j = colon_from(s, i + 1);
    if j >= s.len() {
        None
    } else {
        let mid = s.subrange(i + 1, j);
        let rest = s.subrange(j + 1, s.len() as int);
        if mid.len() >= 2 && mid.last() == ' ' && all_digits(mid.drop_last()) && rest.len() >= 1
            && rest[0] == ' ' && digits_value(mid.drop_last()) >= 1 {
            Some((s.subrange(0, i), digits_value(mid.drop_last()), rest.drop_first()))
        } else {
            None
        }
    }
}

proof fn lemma_digit_char(d: nat)
    requires
        d < 10,
    ensures
        is_digit(digit_char(d)),
        digit_value(digit_char(d)) == d,
{
}

proof fn lemma_decimal(n: nat)
    ensures
        decimal(n).len() >= 1,
        all_digits(decimal(n)),
        digits_value(decimal(n)) == n,
    decreases n,
{
    if n < 10 {
        lemma_digit_char(n);
        assert(decimal(n).drop_last() =~= Seq::<char>::empty());
        assert(digits_value(Seq::<char>::empty()) == 0);
    } else {
        lemma_decimal(n / 10);
        lemma_digit_char(n % 10);
        assert(decimal(n).drop_last() =~= decimal(n / 10));
        assert(decimal(n).last() == digit_char(n % 10));
        assert(n == (n / 10) * 10 + n % 10);
    }
}

proof fn lemma_colon_from(s: Seq<char>, from: int, k: int)
    requires
        0 <= from <= k < s.len(),
        s[k] == ':',
        forall|i: int| from <= i < k ==> s[i] != ':',
    ensures
        colon_from(s, from) == k,
    decreases k - from,
{
    if from < k {
        lemma_colon_from(s, from + 1, k);
    }
}

proof fn lemma_prefix_value(s: Seq<char>, k: int)
    requires
        all_digits(s),
        0 <= k <= s.len(),
    ensures
        digits_value(s.subrange(0, k)) <= digits_value(s),
    decreases s.len(),
{
    if k == s.len() {
        assert(s.subrange(0, k) =~= s);
    } else {
        let t = s.drop_last();
        assert(all_digits(t)) by {
            assert forall|i: int| 0 <= i < t.len() implies is_digit(#[trigger] t[i]) by {
                assert(t[i] == s[i]);
            }
        }
        lemma_prefix_value(t, k);
        assert(t.subrange(0, k) =~= s.subrange(0, k));
    }
}

/// A record's text reads back as the same path, line number and content,
/// whenever the path holds no colon and the line number is positive. The
/// content may hold colons.
pub proof fn lemma_record_round_trip(path: Seq<char>, line: nat, content: Seq<char>)
    requires
        !has_colon(path),
        line >= 1,
    ensures
        parse_text(record_text(path, line, content)) == Some((path, line, content)),
{
    let d = decimal(line);
    lemma_decimal(line);
    let s = record_text(path, line, content);
    let p = path.len() as int;
    let q = p + 1 + d.len() + 1;
    assert(s[p] == ':');
    assert forall|i: int| 0 <= i < p implies s[i] != ':' by {
        assert(s[i] == path[i]);
        if path[i] == ':' {
            assert(has_colon(path));
        }
    }
    lemma_colon_from(s, 0, p);
    assert(s[q] == ':');
    assert forall|i: int| p + 1 <= i < q implies s[i] != ':' by {
        if i < q - 1 {
            assert(s[i] == d[i - p - 1]);
            assert(is_digit(d[i - p - 1]));
        }
    }
    lemma_colon_from(s, p + 1, q);
    let mid = s.subrange(p + 1, q);
    let rest = s.subrange(q + 1, s.len() as int);
    assert(mid.drop_last() =~= d);
    assert(rest =~= seq![' '] + content);
    assert(rest.drop_first() =~= content);
    assert(s.subrange(0, p) =~= path);
}

fn digit_str(d: usize) -> (r: &'static str)
    requires
        d < 10,
    ensures
        r@ == seq![digit_char(d as nat)],
{
    proof {
        reveal_strlit("0");
        reveal_strlit("1");
        reveal_strlit("2");
        reveal_strlit("3");
        reveal_strlit("4");
        reveal_strlit("5");
        reveal_strlit("6");
        reveal_strlit("7");
        reveal_strlit("8");
        reveal_strlit("9");
    }
    if d == 0 {
        "0"
    } else if d == 1 {
        "1"
    } else if d == 2 {
        "2"
    } else if d == 3 {
        "3"
    } else if d == 4 {
        "4"
    } else if d == 5 {
        "5"
    } else if d == 6 {
        "6"
    } else if d == 7 {
        "7"
    } else if d == 8 {
        "8"
    } else {
        "9"
    }
}

/// `n` in decimal.
pub fn decimal_string(n: usize) -> (r: String)
    ensures
        r@ == decimal(n as nat),
    decreases n,
{
    if n < 10 {
        String::from_str(digit_str(n))
    } else {
        let mut s = decimal_string(n / 10);
        s.append(digit_str(n % 10));
        s
    }
}

impl MatchRecord {
    /// The record as shown in the results list: `path:line : content`.
    pub fn format(&self) -> (r: String)
        ensures
            r@ == record_text(self.path@, self.line_number as nat, self.content@),
    {
        proof {
            reveal_strlit(":");
            reveal_strlit(" : ");
        }
        let mut s = String::from_str(self.path.as_str());
        s.append(":");
        let num = decimal_string(self.line_number);
        s.append(num.as_str());
        s.append(" : ");
        s.append(self.content.as_str());
        s
    }

    /// Reads a record back from its text (see `parse_text`). A line number
    /// too large for `usize` gives `None` too.
    pub fn parse(s: &str) -> (r: Option<MatchRecord>)
        ensures
            r matches Some(rec) ==> parse_text(s@) == Some(rec@),
            r is None ==> (parse_text(s@) is None || (parse_text(s@) matches Some(t) && t.1 > usize::MAX)),
    {
        let n = s.unicode_len();
        let mut i: usize = 0;
        while i < n && s.get_char(i) != ':'
            invariant
                n == s@.len(),
                i <= n,
                colon_from(s@, 0) == colon_from(s@, i as int),
            decreases n - i,
        {
            i = i + 1;
        }
        if i >= n {
            return None;
        }
        assert(colon_from(s@, 0) == i as int);
        let mut j: usize = i + 1;
        while j < n && s.get_char(j) != ':'
            invariant
                n == s@.len(),
                i < j <= n,
                colon_from(s@, i + 1) == colon_from(s@, j as int),
            decreases n - j,
        {
            j = j + 1;
        }
        assert(j < n ==> colon_from(s@, i + 1) == j as int);
        if j >= n || j - i < 3 || s.get_char(j - 1) != ' ' || j + 1 >= n || s.get_char(j + 1)
            != ' ' {
            return None;
        }
        let ghost mid = s@.subrange(i + 1, j as int);
        let ghost num = mid.drop_last();
        let mut value: usize = 0;
        let mut k: usize = i + 1;
        while k < j - 1
            invariant
                n == s@.len(),
                i + 1 <= k <= j - 1,
                j < n,
                colon_from(s@, 0) == i as int,
                colon_from(s@, i + 1) == j as int,
                j - i >= 3,
                s@[j - 1] == ' ',
                s@[j + 1] == ' ',
                mid == s@.subrange(i + 1, j as int),
                num == mid.drop_last(),
                all_digits(s@.subrange(i + 1, k as int)),
                value == digits_value(s@.subrange(i + 1, k as int)),
            decreases j - 1 - k,
        {
            let c = s.get_char(k);
            let ghost pre = s@.subrange(i + 1, k as int);
            let ghost next = s@.subrange(i + 1, k + 1);
            assert(next.drop_last() =~= pre);
            if c < '0' || c > '9' {
                proof {
                    assert(num[k - i - 1] == c);
                    assert(!is_digit(num[k - i - 1]));
                }
                return None;
            }
            let dv = (c as u32 - '0' as u32) as usize;
            assert(dv as nat == digit_value(c));
            if value > (usize::MAX - dv) / 10 {
                proof {
                    if parse_text(s@) is Some {
                        assert(num.subrange(0, k - i) =~= next);
                        lemma_prefix_value(num, k - i);
                    }
                }
                return None;
            }
            value = value * 10 + dv;
            k = k + 1;
            assert(all_digits(s@.subrange(i + 1, k as int))) by {
                let t = s@.subrange(i + 1, k as int);
                assert forall|x: int| 0 <= x < t.len() implies is_digit(#[trigger] t[x]) by {
                    if x < t.len() - 1 {
                        assert(t[x] == pre[x]);
                    }
                }
            }
        }
        assert(num =~= s@.subrange(i + 1, k as int));
        if value == 0 {
            return None;
        }
        let path = s.substring_char(0, i);
        let content = s.substring_char(j + 2, n);
        proof {
            let rest = s@.subrange(j + 1, n as int);
            assert(rest.drop_first() =~= content@);
        }
        Some(
            MatchRecord {
                path: String::from_str(path),
                line_number: value,
                content: String::from_str(content),
            },
        )
    }
}

} // verus!
