//! Text helpers shared by the phases: joining, parenthesizing, indenting and
//! decimal numbers.

use vstd::prelude::*;

verus! {

/// `String::push`: appends one character.
#[verifier::external_body]
pub(crate) fn string_push(s: &mut String, c: char)
    ensures
        final(s)@ == old(s)@.push(c),
{
    s.push(c)
}

/// A new `String` holding the characters of `s`.
pub fn string_from(s: &str) -> (r: String)
    ensures
        r@ == s@,
{
    String::from_str(s)
}

/// The characters of `s`, in order.
pub fn chars_of(s: &str) -> (v: Vec<char>)
    ensures
        v@ == s@,
{
    let n = s.unicode_len();
    let mut v: Vec<char> = Vec::new();
    let mut i: usize = 0;
    while i < n
        invariant
            n == s@.len(),
            i <= n,
            v@ == s@.take(i as int),
        decreases n - i,
    {
        let c = s.get_char(i);
        v.push(c);
        i += 1;
        assert(v@ =~= s@.take(i as int));
    }
    assert(v@ =~= s@);
    v
}

/// `items` joined, with `sep` between each two of them.
pub open spec fn spec_join(items: Seq<Seq<char>>, sep: Seq<char>) -> Seq<char>
    decreases items.len(),
{
    if items.len() == 0 {
        Seq::empty()
    } else if items.len() == 1 {
        items[0]
    } else {
        spec_join(items.drop_last(), sep) + sep + items.last()
    }
}

pub open spec fn string_views(items: Seq<String>) -> Seq<Seq<char>> {
    items.map_values(|s: String| s@)
}

/// The items joined, with `sep` between each two of them.
pub fn format_joined(items: &Vec<String>, sep: &str) -> (joined: String)
    ensures
        joined@ == spec_join(string_views(items@), sep@),
{
    let mut joined = String::new();
    let mut i: usize = 0;
    while i < items.len()
        invariant
            i <= items.len(),
            joined@ == spec_join(string_views(items@.take(i as int)), sep@),
        decreases items.len() - i,
    {
        if i > 0 {
            joined.append(sep);
        }
        joined.append(items[i].as_str());
        proof {
            let next = string_views(items@.take(i + 1));
            assert(next.drop_last() =~= string_views(items@.take(i as int)));
            assert(next.last() == items@[i as int]@);
        }
        i += 1;
    }
    assert(items@.take(items@.len() as int) =~= items@);
    joined
}

/// `s` in parentheses if it holds a space and is not already enclosed in
/// a pair of parentheses; `s` itself otherwise.
pub open spec fn spec_parenthesized(s: Seq<char>) -> Seq<char> {
    if s.contains(' ') && !(s.len() > 0 && s[0] == '(' && s.last() == ')') {
        seq!['('] + s + seq![')']
    } else {
        s
    }
}

pub fn fmt_parenthesized(s: &str) -> (r: String)
    ensures
        r@ == spec_parenthesized(s@),
{
    let chars = chars_of(s);
    let mut has_space = false;
    let mut i: usize = 0;
    while i < chars.len()
        invariant
            i <= chars.len(),
            chars@ == s@,
            has_space <==> exists|j: int| 0 <= j < i && chars@[j] == ' ',
        decreases chars.len() - i,
    {
        if chars[i] == ' ' {
            has_space = true;
        }
        i += 1;
    }
    let enclosed = chars.len() > 0 && chars[0] == '(' && chars[chars.len() - 1] == ')';
    if has_space && !enclosed {
        let mut r = String::new();
        string_push(&mut r, '(');
        r.append(s);
        string_push(&mut r, ')');
        assert(r@ =~= seq!['('] + s@ + seq![')']);
        r
    } else {
        proof {
            if s@.contains(' ') {
                let j = choose|j: int| 0 <= j < s@.len() && s@[j] == ' ';
                assert(chars@[j] == ' ');
            }
        }
        string_from(s)
    }
}

/// `s` without a final carriage return, if it has one.
pub open spec fn strip_cr(s: Seq<char>) -> Seq<char> {
    if s.len() > 0 && s.last() == '\r' {
        s.drop_last()
    } else {
        s
    }
}

/// The lines of `s` as `str::lines` finds them: split after each newline,
/// without that newline or a carriage return just before it; a final
/// newline opens no further line.
pub open spec fn spec_lines_from(s: Seq<char>, cur: Seq<char>, acc: Seq<Seq<char>>) -> Seq<Seq<char>>
    decreases s.len(),
{
    if s.len() == 0 {
        if cur.len() == 0 {
            acc
        } else {
            acc.push(cur)
        }
    } else if s[0] == '\n' {
        spec_lines_from(s.drop_first(), Seq::empty(), acc.push(strip_cr(cur)))
    } else {
        spec_lines_from(s.drop_first(), cur.push(s[0]), acc)
    }
}

pub open spec fn spec_lines(s: Seq<char>) -> Seq<Seq<char>> {
    spec_lines_from(s, Seq::empty(), Seq::empty())
}

pub open spec fn indent_prefix() -> Seq<char> {
    seq![' ', ' ', ' ', ' ']
}

/// Each line of `s` prefixed with four spaces, the lines joined by newlines.
pub open spec fn spec_indent(s: Seq<char>) -> Seq<char> {
    spec_join(spec_lines(s).map_values(|l: Seq<char>| indent_prefix() + l), seq!['\n'])
}

pub fn indent(s: &str) -> (r: String)
    ensures
        r@ == spec_indent(s@),
{
    let chars = chars_of(s);
    let mut lines: Vec<Vec<char>> = Vec::new();
    let mut cur: Vec<char> = Vec::new();
    let mut i: usize = 0;
    assert(s@.skip(0) =~= s@);
    assert(lines@.map_values(|l: Vec<char>| l@) =~= Seq::<Seq<char>>::empty());
    while i < chars.len()
        invariant
            i <= chars.len(),
            chars@ == s@,
            spec_lines_from(s@.skip(i as int), cur@, lines@.map_values(|l: Vec<char>| l@))
                == spec_lines(s@),
        decreases chars.len() - i,
    {
        assert(s@.skip(i as int).drop_first() =~= s@.skip(i + 1));
        let c = chars[i];
        if c == '\n' {
            let ghost old_lines = lines@;
            if cur.len() > 0 && cur[cur.len() - 1] == '\r' {
                cur.pop();
            }
            lines.push(cur);
            cur = Vec::new();
            assert(lines@.map_values(|l: Vec<char>| l@) =~= old_lines.map_values(
                |l: Vec<char>| l@,
            ).push(lines@.last()@));
        } else {
            cur.push(c);
        }
        i += 1;
    }
    if cur.len() > 0 {
        let ghost old_lines = lines@;
        lines.push(cur);
        assert(lines@.map_values(|l: Vec<char>| l@) =~= old_lines.map_values(|l: Vec<char>| l@).push(
            lines@.last()@,
        ));
    }
    let ghost all = lines@.map_values(|l: Vec<char>| l@);
    assert(all == spec_lines(s@)) by {
        assert(s@.skip(chars.len() as int) =~= Seq::<char>::empty());
    }
    let mut r = String::new();
    let mut k: usize = 0;
    while k < lines.len()
        invariant
            k <= lines.len(),
            all == lines@.map_values(|l: Vec<char>| l@),
            r@ == spec_join(all.take(k as int).map_values(|l: Seq<char>| indent_prefix() + l), seq!['\n']),
        decreases lines.len() - k,
    {
        if k > 0 {
            string_push(&mut r, '\n');
        }
        r.append("    ");
        proof {
            reveal_strlit("    ");
        }
        let line = &lines[k];
        let mut j: usize = 0;
        let ghost before = r@;
        while j < line.len()
            invariant
                j <= line.len(),
                r@ == before + line@.take(j as int),
            decreases line.len() - j,
        {
            string_push(&mut r, line[j]);
            j += 1;
            assert(r@ =~= before + line@.take(j as int));
        }
        proof {
            let next = all.take(k + 1).map_values(|l: Seq<char>| indent_prefix() + l);
            assert(next.drop_last() =~= all.take(k as int).map_values(|l: Seq<char>| indent_prefix() + l));
            assert(line@.take(j as int) =~= line@);
            assert(all.take(k + 1)[k as int] == all[k as int]);
            assert(all[k as int] == line@);
            assert(next.last() == indent_prefix() + all[k as int]);
            if k > 0 {
                assert(r@ =~= spec_join(next.drop_last(), seq!['\n']) + seq!['\n'] + next.last());
            } else {
                assert(r@ =~= next.last());
            }
        }
        k += 1;
    }
    assert(all.take(lines.len() as int) =~= all);
    assert(all.map_values(|l: Seq<char>| indent_prefix() + l) =~= spec_lines(s@).map_values(
        |l: Seq<char>| indent_prefix() + l,
    ));
    r
}

/// The decimal digit for `d`.
pub open spec fn digit_char(d: nat) -> char {
    (48 + d) as char
}

/// The decimal representation of `n`, without leading zeros.
pub open spec fn spec_decimal(n: nat) -> Seq<char>
    decreases n,
{
    if n < 10 {
        seq![digit_char(n)]
    } else {
        spec_decimal(n / 10).push(digit_char(n % 10))
    }
}

/// The decimal representation of `n`.
pub fn usize_to_decimal(n: usize) -> (r: String)
    ensures
        r@ == spec_decimal(n as nat),
    decreases n,
{
    let d = (n % 10) as u8;
    let c = (48u8 + d) as char;
    if n < 10 {
        let mut r = String::new();
        string_push(&mut r, c);
        assert(r@ =~= spec_decimal(n as nat));
        r
    } else {
        let mut r = usize_to_decimal(n / 10);
        string_push(&mut r, c);
        r
    }
}

/// The decimal representation of `n`, with a minus sign if it is negative.
pub open spec fn spec_signed_decimal(n: int) -> Seq<char> {
    if n < 0 {
        seq!['-'] + spec_decimal((-n) as nat)
    } else {
        spec_decimal(n as nat)
    }
}

pub fn i32_to_decimal(n: i32) -> (r: String)
    ensures
        r@ == spec_signed_decimal(n as int),
{
    if n < 0 {
        let magnitude: usize = if n == i32::MIN { 2147483648usize } else { (-n) as usize };
        let digits = usize_to_decimal(magnitude);
        let mut r = String::new();
        string_push(&mut r, '-');
        r.append(digits.as_str());
        r
    } else {
        usize_to_decimal(n as usize)
    }
}

} // verus!

verus! {

/// The three texts one after the other.
pub fn concat3(a: &str, b: &str, c: &str) -> (r: String)
    ensures
        r@ == a@ + b@ + c@,
{
    let mut r = string_from(a);
    r.append(b);
    r.append(c);
    r
}

} // verus!
