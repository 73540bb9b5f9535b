//! Small verified helpers for building and comparing text.
use vstd::prelude::*;
use vstd::string::*;

verus! {

/// An owned copy of `s`.
pub fn text(s: &str) -> (r: String)
    ensures
        r@ == s@,
{
    String::from_str(s)
}

/// `a` followed by `b`.
pub fn join(a: String, b: &str) -> (r: String)
    ensures
        r@ == a@ + b@,
{
    let mut a = a;
    a.append(b);
    a
}

/// Whether `a` spells exactly `b`.
pub fn eq_text(a: &String, b: &str) -> (r: bool)
    ensures
        r == (a@ == b@),
{
    let sa = a.as_str();
    let n = sa.unicode_len();
    let m = b.unicode_len();
    if n != m {
        return false;
    }
    let mut i: usize = 0;
    while i < n
        invariant
            n == sa@.len(),
            m == b@.len(),
            n == m,
            sa@ == a@,
            0 <= i <= n,
            forall|j: int| 0 <= j < i ==> sa@[j] == b@[j],
        decreases n - i,
    {
        if sa.get_char(i) != b.get_char(i) {
            return false;
        }
        i = i + 1;
    }
    assert(a@ =~= b@);
    true
}

/// The characters of `s`, in order.
pub fn chars_of(s: &str) -> (r: Vec<char>)
    ensures
        r@ == s@,
{
    let n = s.unicode_len();
    let mut out: Vec<char> = Vec::new();
    let mut i: usize = 0;
    while i < n
        invariant
            n == s@.len(),
            0 <= i <= n,
            out@ == s@.subrange(0, i as int),
        decreases n - i,
    {
        out.push(s.get_char(i));
        i = i + 1;
        assert(out@ =~= s@.subrange(0, i as int));
    }
    assert(out@ =~= s@);
    out
}

/// Appends `c` by std's `String::push`; the contract claims that the
/// string gains exactly that character, at its end.
#[verifier::external_body]
fn push_char(s: &mut String, c: char)
    ensures
        final(s)@ == old(s)@.push(c),
{
    s.push(c)
}

/// The string spelled by the characters `v[from..to]`.
pub(crate) fn string_of(v: &Vec<char>, from: usize, to: usize) -> (r: String)
    requires
        from <= to <= v@.len(),
    ensures
        r@ == v@.subrange(from as int, to as int),
{
    let mut out = String::new();
    let mut i: usize = from;
    while i < to
        invariant
            from <= i <= to <= v@.len(),
            out@ == v@.subrange(from as int, i as int),
        decreases to - i,
    {
        push_char(&mut out, v[i]);
        assert(out@ =~= v@.subrange(from as int, i + 1));
        i = i + 1;
    }
    out
}

/// What std's `Debug` formatting writes for one text: the text in double
/// quotes, with quotes, backslashes and control characters escaped.
pub uninterp spec fn debug_text(s: Seq<char>) -> Seq<char>;

/// Formats the text as std's `Debug` does (`format!("{:?}", s)`); the
/// contract names the result [`debug_text`] of the text and says nothing
/// more of it.
#[verifier::external_body]
fn debug_text_of(s: &String) -> (r: String)
    ensures
        r@ == debug_text(s@),
{
    format!("{:?}", s)
}

/// What std's `Debug` formatting writes for a list of texts: the `Debug`
/// text of each item, separated by `, `, between square brackets.
pub open spec fn debug_list(items: Seq<Seq<char>>) -> Seq<char> {
    "["@ + comma_joined(items.map_values(|x: Seq<char>| debug_text(x))) + "]"@
}

/// Formats the list as std's `Debug` does (see [`debug_list`]).
pub(crate) fn debug_list_of(v: &Vec<String>) -> (r: String)
    ensures
        r@ == debug_list(v@.map_values(|x: String| x@)),
{
    let ghost ds = v@.map_values(|x: String| x@).map_values(|x: Seq<char>| debug_text(x));
    let mut items = String::new();
    let mut i: usize = 0;
    while i < v.len()
        invariant
            0 <= i <= v@.len(),
            ds == v@.map_values(|x: String| x@).map_values(|x: Seq<char>| debug_text(x)),
            items@ == comma_joined(ds.take(i as int)),
        decreases v@.len() - i,
    {
        proof {
            lemma_comma_joined_push(ds, i as int);
        }
        let d = debug_text_of(&v[i]);
        items = append_item(items, i, d.as_str());
        i = i + 1;
    }
    assert(ds.take(i as int) =~= ds);
    let r = join(text("["), items.as_str());
    join(r, "]")
}

/// The decimal digit of `d`, for `0 <= d < 10`.
pub open spec fn digit_char(d: int) -> char {
    ('0' as int + d) as char
}

/// The decimal digits of a natural number, without leading zeros.
pub open spec fn decimal_digits(n: nat) -> Seq<char>
    decreases n,
{
    if n < 10 {
        seq![digit_char(n as int)]
    } else {
        decimal_digits(n / 10) + seq![digit_char((n % 10) as int)]
    }
}

/// The decimal digits of `n`.
pub fn usize_text(n: usize) -> (r: String)
    ensures
        r@ == decimal_digits(n as nat),
{
    let mut rev: Vec<char> = Vec::new();
    let mut m: usize = n;
    loop
        invariant_except_break
            decimal_digits(n as nat) == decimal_digits(m as nat) + rev@.reverse(),
        ensures
            decimal_digits(n as nat) == rev@.reverse(),
        decreases m,
    {
        let d = m % 10;
        let c = digit_exec(d);
        let ghost before = rev@;
        rev.push(c);
        assert(rev@.reverse() =~= seq![c] + before.reverse());
        if m < 10 {
            assert(decimal_digits(m as nat) =~= seq![c]);
            assert(decimal_digits(n as nat) =~= rev@.reverse());
            break;
        }
        let ghost old_m = m;
        m = m / 10;
        assert(decimal_digits(old_m as nat) == decimal_digits(m as nat) + seq![c]);
        assert(decimal_digits(n as nat) =~= decimal_digits(m as nat) + rev@.reverse());
    }
    let mut out: Vec<char> = Vec::new();
    let mut i: usize = rev.len();
    while i > 0
        invariant
            i <= rev@.len(),
            out@ =~= rev@.reverse().take(rev@.len() - i),
        decreases i,
    {
        i = i - 1;
        out.push(rev[i]);
        assert(out@ =~= rev@.reverse().take(rev@.len() - i));
    }
    assert(out@ =~= rev@.reverse());
    assert(out@.subrange(0, out@.len() as int) =~= out@);
    string_of(&out, 0, out.len())
}

fn digit_exec(d: usize) -> (c: char)
    requires
        d < 10,
    ensures
        c == digit_char(d as int),
{
    if d == 0 { '0' } else if d == 1 { '1' } else if d == 2 { '2' } else if d == 3 { '3' } else if d == 4 { '4' } else if d == 5 { '5' } else if d == 6 { '6' } else if d == 7 { '7' } else if d == 8 { '8' } else { '9' }
}

/// The items separated by `, `.
pub open spec fn comma_joined(items: Seq<Seq<char>>) -> Seq<char>
    decreases items.len(),
{
    if items.len() == 0 {
        Seq::empty()
    } else if items.len() == 1 {
        items[0]
    } else {
        comma_joined(items.drop_last()) + ", "@ + items.last()
    }
}

/// `out` followed by the next item of a `, `-separated list, `count`
/// items being there already.
pub fn append_item(out: String, count: usize, item: &str) -> (r: String)
    ensures
        r@ == out@ + (if count == 0 { item@ } else { ", "@ + item@ }),
{
    if count == 0 {
        join(out, item)
    } else {
        let o = join(out, ", ");
        let r = join(o, item);
        assert(r@ =~= out@ + (", "@ + item@));
        r
    }
}

/// Joining one more item.
pub proof fn lemma_comma_joined_push(items: Seq<Seq<char>>, i: int)
    requires
        0 <= i < items.len(),
    ensures
        comma_joined(items.take(i + 1)) == comma_joined(items.take(i)) + (if i == 0 { items[i] } else {
            ", "@ + items[i]
        }),
{
    assert(items.take(i + 1).drop_last() =~= items.take(i));
    if i == 0 {
        assert(items.take(0) =~= Seq::<Seq<char>>::empty());
    }
    assert((comma_joined(items.take(i)) + ", "@) + items[i] =~= comma_joined(items.take(i)) + (", "@ + items[i]));
}

} // verus!
