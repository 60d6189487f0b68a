//! Text helpers used to build configuration files: decimal rendering,
//! joining, character search and replacement, trimming and path joining.
use vstd::prelude::*;

verus! {

/// The decimal digit `d` (0..=9) as a one-character string.
pub open spec fn digit_text(d: nat) -> Seq<char> {
    if d == 0 {
        "0"@
    } else if d == 1 {
        "1"@
    } else if d == 2 {
        "2"@
    } else if d == 3 {
        "3"@
    } else if d == 4 {
        "4"@
    } else if d == 5 {
        "5"@
    } else if d == 6 {
        "6"@
    } else if d == 7 {
        "7"@
    } else if d == 8 {
        "8"@
    } else {
        "9"@
    }
}

/// Decimal notation of a natural number, without leading zeros.
pub open spec fn decimal(n: nat) -> Seq<char>
    decreases n,
{
    if n < 10 {
        digit_text(n)
    } else {
        decimal(n / 10) + digit_text(n % 10)
    }
}

fn digit_str(d: u64) -> (s: &'static str)
    requires
        d < 10,
    ensures
        s@ == digit_text(d as nat),
{
    if d == 0 {
        "0"
    } else if d == 1 {
        "1"
    } else if d == 2 {
        "2"
    } else if d == 3 {
        "3"
    } else if d == 4 {
        "4"
    } else if d == 5 {
        "5"
    } else if d == 6 {
        "6"
    } else if d == 7 {
        "7"
    } else if d == 8 {
        "8"
    } else {
        "9"
    }
}

/// Renders `n` in decimal, as `Display` does for unsigned integers.
pub fn decimal_string(n: u64) -> (s: String)
    ensures
        s@ == decimal(n as nat),
    decreases n,
{
    if n < 10 {
        String::from_str(digit_str(n))
    } else {
        let mut s = decimal_string(n / 10);
        s.append(digit_str(n % 10));
        s
    }
}

/// `"yes"` or `"no"`.
pub open spec fn yes_no(v: bool) -> Seq<char> {
    if v {
        "yes"@
    } else {
        "no"@
    }
}

/// `"yes"` for true and `"no"` for false.
pub fn bool_yn(v: bool) -> (s: &'static str)
    ensures
        s@ == yes_no(v),
{
    if v {
        "yes"
    } else {
        "no"
    }
}

/// `"true"` or `"false"`.
pub open spec fn true_false(v: bool) -> Seq<char> {
    if v {
        "true"@
    } else {
        "false"@
    }
}

/// `items` joined with `sep` between consecutive items.
pub open spec fn join(items: Seq<Seq<char>>, sep: Seq<char>) -> Seq<char>
    decreases items.len(),
{
    if items.len() == 0 {
        Seq::empty()
    } else if items.len() == 1 {
        items[0]
    } else {
        join(items.drop_last(), sep) + sep + items.last()
    }
}

/// The character sequences of a sequence of strings.
pub open spec fn views(items: Seq<String>) -> Seq<Seq<char>> {
    items.map_values(|s: String| s@)
}

/// Joins `items` with `sep`, as `[String]::join` does.
pub fn join_strings(items: &Vec<String>, sep: &str) -> (r: String)
    ensures
        r@ == join(views(items@), sep@),
{
    let mut r = String::new();
    let n = items.len();
    let ghost vs = views(items@);
    let mut i: usize = 0;
    while i < n
        invariant
            n == items.len(),
            vs == views(items@),
            i <= n,
            r@ == join(vs.take(i as int), sep@),
        decreases n - i,
    {
        assert(vs.take(i + 1).drop_last() =~= vs.take(i as int));
        assert(vs.take(i + 1).last() == items@[i as int]@);
        if i == 0 {
            assert(vs.take(1).len() == 1);
            r.append(items[i].as_str());
        } else {
            r.append(sep);
            r.append(items[i].as_str());
        }
        i = i + 1;
    }
    assert(vs.take(n as int) =~= vs);
    r
}

/// Whether `s` has the character `c`.
pub fn has_char(s: &str, c: char) -> (r: bool)
    ensures
        r == s@.contains(c),
{
    let n = s.unicode_len();
    let mut i: usize = 0;
    while i < n
        invariant
            n == s@.len(),
            i <= n,
            forall|j: int| 0 <= j < i ==> s@[j] != c,
        decreases n - i,
    {
        if s.get_char(i) == c {
            assert(s@[i as int] == c);
            return true;
        }
        i = i + 1;
    }
    assert(!s@.contains(c)) by {
        if s@.contains(c) {
            let j = choose|j: int| 0 <= j < s@.len() && s@[j] == c;
            assert(s@[j] != c);
        }
    }
    false
}

/// `s` with every occurrence of the character `c` replaced by `by`.
pub open spec fn replace_char(s: Seq<char>, c: char, by: Seq<char>) -> Seq<char>
    decreases s.len(),
{
    if s.len() == 0 {
        Seq::empty()
    } else {
        replace_char(s.drop_last(), c, by) + (if s.last() == c {
            by
        } else {
            seq![s.last()]
        })
    }
}

/// Replaces every `c` in `s` by `by`, as `str::replace` does with a
/// character pattern.
pub fn replace_all_char(s: &str, c: char, by: &str) -> (r: String)
    ensures
        r@ == replace_char(s@, c, by@),
{
    let n = s.unicode_len();
    let mut r = String::new();
    let mut i: usize = 0;
    while i < n
        invariant
            n == s@.len(),
            i <= n,
            r@ == replace_char(s@.take(i as int), c, by@),
        decreases n - i,
    {
        let ghost t = s@.take(i + 1);
        assert(t.drop_last() =~= s@.take(i as int));
        assert(t.last() == s@[i as int]);
        if s.get_char(i) == c {
            r.append(by);
        } else {
            let piece = s.substring_char(i, i + 1);
            assert(piece@ =~= seq![s@[i as int]]);
            r.append(piece);
        }
        i = i + 1;
    }
    assert(s@.take(n as int) =~= s@);
    r
}

/// Whether two strings hold the same characters.
pub fn same_text(a: &str, b: &str) -> (r: bool)
    ensures
        r == (a@ == b@),
{
    let x = a.to_owned();
    let y = b.to_owned();
    x == y
}

/// The characters that `char::is_whitespace` accepts (Unicode White_Space).
pub open spec fn is_white(c: char) -> bool {
    let u = c as u32;
    ||| 0x09 <= u <= 0x0d
    ||| u == 0x20
    ||| u == 0x85
    ||| u == 0xa0
    ||| u == 0x1680
    ||| 0x2000 <= u <= 0x200a
    ||| u == 0x2028
    ||| u == 0x2029
    ||| u == 0x202f
    ||| u == 0x205f
    ||| u == 0x3000
}

fn is_white_exec(c: char) -> (r: bool)
    ensures
        r == is_white(c),
{
    let u = c as u32;
    (0x09 <= u && u <= 0x0d) || u == 0x20 || u == 0x85 || u == 0xa0 || u == 0x1680 || (0x2000
        <= u && u <= 0x200a) || u == 0x2028 || u == 0x2029 || u == 0x202f || u == 0x205f || u
        == 0x3000
}

/// Number of leading white-space characters of `s`.
pub open spec fn leading_white(s: Seq<char>) -> nat
    decreases s.len(),
{
    if s.len() > 0 && is_white(s[0]) {
        1 + leading_white(s.drop_first())
    } else {
        0
    }
}

/// Number of trailing white-space characters of `s`.
pub open spec fn trailing_white(s: Seq<char>) -> nat
    decreases s.len(),
{
    if s.len() > 0 && is_white(s.last()) {
        1 + trailing_white(s.drop_last())
    } else {
        0
    }
}

/// `s` without leading and trailing white space, as `str::trim` gives it.
pub open spec fn trimmed(s: Seq<char>) -> Seq<char> {
    let front = s.skip(leading_white(s) as int);
    front.take(front.len() - trailing_white(front))
}

proof fn lemma_leading_white_bound(s: Seq<char>)
    ensures
        leading_white(s) <= s.len(),
    decreases s.len(),
{
    if s.len() > 0 && is_white(s[0]) {
        lemma_leading_white_bound(s.drop_first());
    }
}

proof fn lemma_trailing_white_bound(s: Seq<char>)
    ensures
        trailing_white(s) <= s.len(),
    decreases s.len(),
{
    if s.len() > 0 && is_white(s.last()) {
        lemma_trailing_white_bound(s.drop_last());
    }
}

/// Removes leading and trailing white space.
pub fn trim_text(s: &str) -> (r: String)
    ensures
        r@ == trimmed(s@),
{
    let n = s.unicode_len();
    let mut a: usize = 0;
    assert(s@.skip(0) =~= s@);
    while a < n && is_white_exec(s.get_char(a))
        invariant
            n == s@.len(),
            a <= n,
            leading_white(s@) == a + leading_white(s@.skip(a as int)),
        decreases n - a,
    {
        assert(s@.skip(a as int).drop_first() =~= s@.skip(a + 1));
        a = a + 1;
    }
    assert(leading_white(s@.skip(a as int)) == 0) by {
        if a < n {
            assert(s@.skip(a as int)[0] == s@[a as int]);
        }
    }
    let ghost front = s@.skip(a as int);
    let mut b: usize = n;
    assert(front.take(n - a) =~= front);
    while b > a && is_white_exec(s.get_char(b - 1))
        invariant
            n == s@.len(),
            a <= b <= n,
            front == s@.skip(a as int),
            trailing_white(front) == (n - b) + trailing_white(front.take(b - a)),
        decreases b - a,
    {
        assert(front.take(b - a).drop_last() =~= front.take(b - 1 - a));
        assert(front.take(b - a).last() == s@[b - 1]);
        b = b - 1;
    }
    assert(trailing_white(front.take(b - a)) == 0) by {
        if b > a {
            assert(front.take(b - a).last() == s@[b - 1]);
        }
    }
    let piece = s.substring_char(a, b);
    assert(piece@ =~= front.take(front.len() - trailing_white(front)));
    piece.to_owned()
}

/// Numeric value of a sequence of ASCII digits.
pub open spec fn digits_value(s: Seq<char>) -> nat
    decreases s.len(),
{
    if s.len() == 0 {
        0
    } else {
        digits_value(s.drop_last()) * 10 + ((s.last() as u32) - 48) as nat
    }
}

/// Whether every character of `s` is an ASCII digit.
pub open spec fn all_digits(s: Seq<char>) -> bool {
    forall|i: int| 0 <= i < s.len() ==> '0' <= #[trigger] s[i] <= '9'
}

/// The digits of an unsigned number: `s` without one leading `+`.
pub open spec fn unsigned_digits(s: Seq<char>) -> Seq<char> {
    if s.len() > 0 && s[0] == '+' {
        s.drop_first()
    } else {
        s
    }
}

/// What `str::parse::<u32>` gives: an optional `+`, then one or more ASCII
/// digits whose value fits in 32 bits.
pub open spec fn parsed_u32(s: Seq<char>) -> Option<u32> {
    let digits = unsigned_digits(s);
    if digits.len() == 0 || !all_digits(digits) || digits_value(digits) > u32::MAX {
        None
    } else {
        Some(digits_value(digits) as u32)
    }
}

proof fn lemma_digits_value_monotone(s: Seq<char>, k: int)
    requires
        0 <= k <= s.len(),
        all_digits(s),
    ensures
        digits_value(s.take(k)) <= digits_value(s),
    decreases s.len() - k,
{
    if k < s.len() {
        lemma_digits_value_monotone(s, k + 1);
        assert(s.take(k + 1).drop_last() =~= s.take(k));
        assert(s.take(k + 1).last() == s[k]);
    } else {
        assert(s.take(k) =~= s);
    }
}

/// Parses an unsigned 32-bit decimal number as `str::parse::<u32>` does.
pub fn parse_u32(s: &str) -> (r: Option<u32>)
    ensures
        r == parsed_u32(s@),
{
    let n = s.unicode_len();
    let mut start: usize = 0;
    if n > 0 && s.get_char(0) == '+' {
        start = 1;
    }
    let ghost digits = unsigned_digits(s@);
    assert(digits =~= s@.skip(start as int));
    if start == n {
        return None;
    }
    let mut value: u64 = 0;
    let mut i: usize = start;
    while i < n
        invariant
            n == s@.len(),
            start <= i <= n,
            digits =~= s@.skip(start as int),
            digits == unsigned_digits(s@),
            all_digits(digits.take(i - start)),
            value == digits_value(digits.take(i - start)),
            value <= u32::MAX,
        decreases n - i,
    {
        let c = s.get_char(i);
        let ghost t = digits.take(i + 1 - start);
        assert(t.drop_last() =~= digits.take(i - start));
        assert(t.last() == c);
        assert(digits[i - start] == c);
        if c < '0' || c > '9' {
            assert(!all_digits(digits));
            return None;
        }
        let d = (c as u32 - 48) as u64;
        value = value * 10 + d;
        assert(value == digits_value(t));
        if value > 0xffff_ffff {
            proof {
                if all_digits(digits) {
                    lemma_digits_value_monotone(digits, i + 1 - start);
                }
            }
            return None;
        }
        i = i + 1;
    }
    assert(digits.take(n - start) =~= digits);
    Some(value as u32)
}

/// Joins a relative path onto a base directory as `Path::join` does on Unix:
/// an absolute `rel` replaces the base, and a separator is added when the
/// base is non-empty and does not already end in one.
pub open spec fn path_join(base: Seq<char>, rel: Seq<char>) -> Seq<char> {
    if rel.len() > 0 && rel[0] == '/' {
        rel
    } else if base.len() > 0 && base.last() != '/' {
        base + "/"@ + rel
    } else {
        base + rel
    }
}

/// Executable counterpart of [`path_join`].
pub fn join_path(base: &str, rel: &str) -> (r: String)
    ensures
        r@ == path_join(base@, rel@),
{
    let bn = base.unicode_len();
    let rn = rel.unicode_len();
    if rn > 0 && rel.get_char(0) == '/' {
        return rel.to_owned();
    }
    let mut r = base.to_owned();
    if bn > 0 && base.get_char(bn - 1) != '/' {
        r.append("/");
    }
    r.append(rel);
    r
}

/// Concatenation of strings is associative.
pub broadcast proof fn lemma_text_assoc(a: Seq<char>, b: Seq<char>, c: Seq<char>)
    ensures
        #[trigger] ((a + b) + c) == a + (b + c),
{
    assert(((a + b) + c) =~= a + (b + c));
}

/// Appending nothing changes nothing.
pub broadcast proof fn lemma_text_empty_right(a: Seq<char>)
    ensures
        #[trigger] (a + Seq::<char>::empty()) == a,
{
    assert(a + Seq::<char>::empty() =~= a);
}

pub broadcast group group_text {
    lemma_text_assoc,
    lemma_text_empty_right,
}

/// A `key=value` line: `prefix` (which ends in `=`), the value, a newline.
pub open spec fn kv(prefix: Seq<char>, value: Seq<char>) -> Seq<char> {
    prefix + value + "\n"@
}

/// The line for an optional value; nothing when there is no value.
pub open spec fn opt_kv(prefix: Seq<char>, value: Option<String>) -> Seq<char> {
    match value {
        Some(v) => kv(prefix, v@),
        None => Seq::empty(),
    }
}

/// The line for an optional number; nothing when there is none.
pub open spec fn opt_num_kv(prefix: Seq<char>, value: Option<u64>) -> Seq<char> {
    match value {
        Some(v) => kv(prefix, decimal(v as nat)),
        None => Seq::empty(),
    }
}

/// The line for an optional flag as `yes`/`no`; nothing when there is none.
pub open spec fn opt_yn_kv(prefix: Seq<char>, value: Option<bool>) -> Seq<char> {
    match value {
        Some(v) => kv(prefix, yes_no(v)),
        None => Seq::empty(),
    }
}

/// Appends `prefix`, `value` and a newline.
pub fn push_kv(out: &mut String, prefix: &str, value: &str)
    ensures
        final(out)@ == old(out)@ + kv(prefix@, value@),
{
    broadcast use group_text;
    out.append(prefix);
    out.append(value);
    out.append("\n");
}

/// Appends the line for an optional value.
pub fn push_opt_kv(out: &mut String, prefix: &str, value: &Option<String>)
    ensures
        final(out)@ == old(out)@ + opt_kv(prefix@, *value),
{
    broadcast use group_text;
    match value {
        Some(v) => push_kv(out, prefix, v.as_str()),
        None => {},
    }
}

/// Appends the line for an optional number.
pub fn push_opt_num_kv(out: &mut String, prefix: &str, value: Option<u64>)
    ensures
        final(out)@ == old(out)@ + opt_num_kv(prefix@, value),
{
    broadcast use group_text;
    match value {
        Some(v) => {
            let t = decimal_string(v);
            push_kv(out, prefix, t.as_str());
        },
        None => {},
    }
}

/// Appends the line for an optional flag.
pub fn push_opt_yn_kv(out: &mut String, prefix: &str, value: Option<bool>)
    ensures
        final(out)@ == old(out)@ + opt_yn_kv(prefix@, value),
{
    broadcast use group_text;
    match value {
        Some(v) => push_kv(out, prefix, bool_yn(v)),
        None => {},
    }
}

/// Widens an optional 32-bit number.
pub open spec fn widen32(v: Option<u32>) -> Option<u64> {
    match v {
        Some(x) => Some(x as u64),
        None => None,
    }
}

pub fn widen32_exec(v: Option<u32>) -> (r: Option<u64>)
    ensures
        r == widen32(v),
{
    match v {
        Some(x) => Some(x as u64),
        None => None,
    }
}

/// A duration given in milliseconds, written in seconds: the whole seconds,
/// then, when there is a remainder, a point and the thousandths without
/// trailing zeros. This is the text `Display` gives for `ms as f64 / 1000.0`.
pub open spec fn seconds_text(ms: nat) -> Seq<char> {
    let whole = ms / 1000;
    let frac = ms % 1000;
    if frac == 0 {
        decimal(whole)
    } else if frac % 100 == 0 {
        decimal(whole) + "."@ + digit_text(frac / 100)
    } else if frac % 10 == 0 {
        decimal(whole) + "."@ + digit_text(frac / 100) + digit_text((frac / 10) % 10)
    } else {
        decimal(whole) + "."@ + digit_text(frac / 100) + digit_text((frac / 10) % 10)
            + digit_text(frac % 10)
    }
}

/// Writes a duration in milliseconds as seconds; see [`seconds_text`].
pub fn seconds_string(ms: u32) -> (r: String)
    ensures
        r@ == seconds_text(ms as nat),
{
    let whole = (ms / 1000) as u64;
    let frac = (ms % 1000) as u64;
    let mut r = decimal_string(whole);
    if frac == 0 {
        return r;
    }
    r.append(".");
    r.append(digit_str(frac / 100));
    if frac % 100 == 0 {
        return r;
    }
    r.append(digit_str((frac / 10) % 10));
    if frac % 10 == 0 {
        return r;
    }
    r.append(digit_str(frac % 10));
    r
}

/// The concatenation of the texts of a sequence of items.
pub open spec fn concat_all<A>(items: Seq<A>, f: spec_fn(A) -> Seq<char>) -> Seq<char>
    decreases items.len(),
{
    if items.len() == 0 {
        Seq::empty()
    } else {
        concat_all(items.drop_last(), f) + f(items.last())
    }
}

pub proof fn lemma_concat_all_step<A>(items: Seq<A>, f: spec_fn(A) -> Seq<char>, i: int)
    requires
        0 <= i < items.len(),
    ensures
        concat_all(items.take(i + 1), f) == concat_all(items.take(i), f) + f(items[i]),
{
    assert(items.take(i + 1).drop_last() =~= items.take(i));
}

/// Strict lexicographic order of texts by character code. For UTF-8
/// strings this is the order of their bytes, which `Ord` on `str`, `String`
/// and `OsStr` uses.
pub open spec fn text_less(a: Seq<char>, b: Seq<char>) -> bool
    decreases a.len(),
{
    if a.len() == 0 {
        b.len() > 0
    } else if b.len() == 0 {
        false
    } else if a[0] != b[0] {
        (a[0] as u32) < (b[0] as u32)
    } else {
        text_less(a.drop_first(), b.drop_first())
    }
}

/// The order of texts is transitive.
pub proof fn lemma_text_less_transitive(a: Seq<char>, b: Seq<char>, c: Seq<char>)
    requires
        text_less(a, b),
        text_less(b, c),
    ensures
        text_less(a, c),
    decreases a.len(),
{
    if a.len() > 0 && b.len() > 0 && c.len() > 0 && a[0] == b[0] && b[0] == c[0] {
        lemma_text_less_transitive(a.drop_first(), b.drop_first(), c.drop_first());
    }
}

/// The order of texts is irreflexive.
pub proof fn lemma_text_less_irreflexive(a: Seq<char>)
    ensures
        !text_less(a, a),
    decreases a.len(),
{
    if a.len() > 0 {
        lemma_text_less_irreflexive(a.drop_first());
    }
}

/// Whether `a` comes strictly before `b` in the order of texts.
pub fn less_text(a: &str, b: &str) -> (r: bool)
    ensures
        r == text_less(a@, b@),
{
    let an = a.unicode_len();
    let bn = b.unicode_len();
    let mut i: usize = 0;
    assert(a@.skip(0) =~= a@ && b@.skip(0) =~= b@);
    while i < an && i < bn
        invariant
            an == a@.len(),
            bn == b@.len(),
            i <= an,
            i <= bn,
            text_less(a@, b@) == text_less(a@.skip(i as int), b@.skip(i as int)),
        decreases an - i,
    {
        let x = a.get_char(i);
        let y = b.get_char(i);
        assert(a@.skip(i as int)[0] == x);
        assert(b@.skip(i as int)[0] == y);
        if x != y {
            return (x as u32) < (y as u32);
        }
        assert(a@.skip(i as int).drop_first() =~= a@.skip(i + 1));
        assert(b@.skip(i as int).drop_first() =~= b@.skip(i + 1));
        i = i + 1;
    }
    assert(a@.skip(i as int).len() == 0 || b@.skip(i as int).len() == 0);
    i == an && i < bn
}

/// Moving the first element of `rest` into `done` at `pos` keeps the
/// elements of both together.
pub proof fn lemma_move_first<T>(done: Seq<T>, rest: Seq<T>, pos: int)
    requires
        0 <= pos <= done.len(),
        rest.len() > 0,
    ensures
        done.insert(pos, rest[0]).to_multiset().add(rest.remove(0).to_multiset())
            == done.to_multiset().add(rest.to_multiset()),
{
    broadcast use vstd::seq_lib::group_to_multiset_ensures, vstd::multiset::group_multiset_properties;

    vstd::seq_lib::to_multiset_insert(done, pos, rest[0]);
    vstd::seq_lib::to_multiset_remove(rest, 0);
    assert(rest.to_multiset().count(rest[0]) > 0) by {
        vstd::seq_lib::to_multiset_contains(rest, rest[0]);
    }
    assert(done.insert(pos, rest[0]).to_multiset().add(rest.remove(0).to_multiset())
        =~= done.to_multiset().add(rest.to_multiset()));
}

/// A sequence with nothing left in it adds nothing.
pub proof fn lemma_nothing_left<T>(done: Seq<T>, rest: Seq<T>)
    requires
        rest.len() == 0,
    ensures
        done.to_multiset().add(rest.to_multiset()) == done.to_multiset(),
        Seq::<T>::empty().to_multiset().add(done.to_multiset()) == done.to_multiset(),
{
    broadcast use vstd::seq_lib::group_to_multiset_ensures, vstd::multiset::group_multiset_properties;

    assert(rest.to_multiset() =~= vstd::multiset::Multiset::empty());
    assert(Seq::<T>::empty().to_multiset() =~= vstd::multiset::Multiset::empty());
    assert(done.to_multiset().add(rest.to_multiset()) =~= done.to_multiset());
    assert(Seq::<T>::empty().to_multiset().add(done.to_multiset()) =~= done.to_multiset());
}

/// Whether texts are in non-decreasing order.
pub open spec fn texts_sorted(s: Seq<Seq<char>>) -> bool {
    forall|i: int, j: int| 0 <= i < j < s.len() ==> !text_less(#[trigger] s[j], #[trigger] s[i])
}

/// Where `x` goes in the sorted `s`: before the first text that comes
/// after it, so after the texts equal to it.
pub open spec fn insert_position(s: Seq<Seq<char>>, x: Seq<char>) -> int
    decreases s.len(),
{
    if s.len() == 0 {
        0
    } else if text_less(x, s[0]) {
        0
    } else {
        1 + insert_position(s.drop_first(), x)
    }
}

/// The texts of `s` in order, equal texts in the order they come in: each
/// text inserted in turn at its [`insert_position`].
pub open spec fn sorted_text_order(s: Seq<Seq<char>>) -> Seq<Seq<char>>
    decreases s.len(),
{
    if s.len() == 0 {
        Seq::empty()
    } else {
        let r = sorted_text_order(s.drop_last());
        r.insert(insert_position(r, s.last()), s.last())
    }
}

proof fn lemma_insert_position(s: Seq<Seq<char>>, x: Seq<char>, p: int)
    requires
        0 <= p <= s.len(),
        forall|j: int| 0 <= j < p ==> !text_less(x, #[trigger] s[j]),
        p == s.len() || text_less(x, s[p]),
    ensures
        insert_position(s, x) == p,
    decreases p,
{
    if p > 0 {
        assert(!text_less(x, s[0]));
        assert forall|j: int| 0 <= j < p - 1 implies !text_less(x, #[trigger] s.drop_first()[j]) by {
            assert(s.drop_first()[j] == s[j + 1]);
        }
        if p < s.len() {
            assert(s.drop_first()[p - 1] == s[p]);
        }
        lemma_insert_position(s.drop_first(), x, p - 1);
    }
}

/// Sorts strings into the order of texts, as `sort` on `String`s does.
pub fn sort_texts(v: Vec<String>) -> (r: Vec<String>)
    ensures
        views(r@) == sorted_text_order(views(v@)),
        texts_sorted(views(r@)),
        r@.to_multiset() == v@.to_multiset(),
{
    let ghost whole = v@.to_multiset();
    let ghost all = v@;
    let mut rest = v;
    let mut r: Vec<String> = Vec::new();
    let ghost mut i: int = 0;
    proof {
        lemma_nothing_left(rest@, Seq::<String>::empty());
        assert(all.skip(0) =~= all);
        assert(views(all).take(0) =~= Seq::<Seq<char>>::empty());
        assert(views(r@) =~= Seq::<Seq<char>>::empty());
    }
    while rest.len() > 0
        invariant
            0 <= i <= all.len(),
            rest@ == all.skip(i),
            views(r@) == sorted_text_order(views(all).take(i)),
            texts_sorted(views(r@)),
            r@.to_multiset().add(rest@.to_multiset()) == whole,
        decreases rest.len(),
    {
        let ghost before_rest = rest@;
        assert(rest@[0] == all[i]);
        let x = rest.remove(0);
        let mut pos: usize = 0;
        while pos < r.len() && !less_text(x.as_str(), r[pos].as_str())
            invariant
                pos <= r.len(),
                forall|j: int| 0 <= j < pos ==> !text_less(x@, (#[trigger] r@[j])@),
            decreases r.len() - pos,
        {
            pos = pos + 1;
        }
        let ghost old_r = r@;
        proof {
            lemma_insert_sorted_texts(views(old_r), pos as int, x@);
            assert(views(old_r.insert(pos as int, x)) =~= views(old_r).insert(pos as int, x@));
            lemma_move_first(old_r, before_rest, pos as int);
            assert forall|j: int| 0 <= j < pos implies !text_less(x@, #[trigger] views(old_r)[j]) by {
                assert(views(old_r)[j] == old_r[j]@);
            }
            if pos < old_r.len() {
                assert(views(old_r)[pos as int] == old_r[pos as int]@);
            }
            lemma_insert_position(views(old_r), x@, pos as int);
            let t = views(all).take(i + 1);
            assert(t.drop_last() =~= views(all).take(i));
            assert(t.last() == x@);
            assert(rest@ =~= all.skip(i + 1));
            i = i + 1;
        }
        r.insert(pos, x);
    }
    proof {
        lemma_nothing_left(r@, rest@);
        assert(views(all).take(i) =~= views(all));
    }
    r
}

proof fn lemma_insert_sorted_texts(s: Seq<Seq<char>>, pos: int, x: Seq<char>)
    requires
        texts_sorted(s),
        0 <= pos <= s.len(),
        forall|j: int| 0 <= j < pos ==> !text_less(x, #[trigger] s[j]),
        pos < s.len() ==> text_less(x, s[pos]),
    ensures
        texts_sorted(s.insert(pos, x)),
{
    let r = s.insert(pos, x);
    assert forall|j: int| pos <= j < s.len() implies !text_less(#[trigger] s[j], x) by {
        if j > pos {
            assert(!text_less(s[j], s[pos]));
        }
        if text_less(s[j], x) {
            lemma_text_less_transitive(s[j], x, s[pos]);
            if j == pos {
                lemma_text_less_irreflexive(s[j]);
            }
        }
    }
    assert forall|i: int, j: int| 0 <= i < j < r.len() implies !text_less(
        #[trigger] r[j],
        #[trigger] r[i],
    ) by {
        if i < pos && j < pos {
            assert(r[i] == s[i] && r[j] == s[j]);
        } else if i < pos && j == pos {
            assert(r[i] == s[i]);
        } else if i < pos {
            assert(r[i] == s[i] && r[j] == s[j - 1]);
        } else if i == pos {
            assert(r[j] == s[j - 1]);
        } else {
            assert(r[i] == s[i - 1] && r[j] == s[j - 1]);
        }
    }
}

/// `n` spaces.
pub open spec fn spaces(n: nat) -> Seq<char> {
    Seq::new(n, |i: int| ' ')
}

/// `s` padded with spaces on the right to `width` characters, as the
/// format `{:<width}` writes it.
pub open spec fn pad_right(s: Seq<char>, width: nat) -> Seq<char> {
    if s.len() < width {
        s + spaces((width - s.len()) as nat)
    } else {
        s
    }
}

/// `s` padded with spaces on the left to `width` characters, as the format
/// `{:>width}` writes it.
pub open spec fn pad_left(s: Seq<char>, width: nat) -> Seq<char> {
    if s.len() < width {
        spaces((width - s.len()) as nat) + s
    } else {
        s
    }
}

fn push_spaces(out: &mut String, n: usize)
    ensures
        final(out)@ == old(out)@ + spaces(n as nat),
{
    let ghost start = out@;
    let mut i: usize = 0;
    while i < n
        invariant
            i <= n,
            out@ == start + spaces(i as nat),
        decreases n - i,
    {
        out.append(" ");
        proof {
            reveal_strlit(" ");
        }
        assert(spaces(i as nat) + " "@ =~= spaces((i + 1) as nat));
        i = i + 1;
    }
}

/// Appends `s` padded on the right to `width` characters.
pub fn push_padded_right(out: &mut String, s: &str, width: usize)
    ensures
        final(out)@ == old(out)@ + pad_right(s@, width as nat),
{
    broadcast use group_text;

    out.append(s);
    let n = s.unicode_len();
    if n < width {
        push_spaces(out, width - n);
    }
}

/// Appends `s` padded on the left to `width` characters.
pub fn push_padded_left(out: &mut String, s: &str, width: usize)
    ensures
        final(out)@ == old(out)@ + pad_left(s@, width as nat),
{
    broadcast use group_text;

    let n = s.unicode_len();
    if n < width {
        push_spaces(out, width - n);
    }
    out.append(s);
}

/// The text `Debug` gives for a string: the string in double quotes, with
/// the escapes of `char::escape_debug`.
pub uninterp spec fn debug_text(s: Seq<char>) -> Seq<char>;

/// The text `Debug` gives for a string (`<str as Debug>::fmt`, through
/// `format!("{:?}")`); the result is named by [`debug_text`], whose escape
/// rules are not written out.
#[verifier::external_body]
pub(crate) fn debug_quoted(s: &str) -> (r: String)
    ensures
        r@ == debug_text(s@),
{
    format!("{:?}", s)
}

/// The text `Debug` gives for a list of strings, from the texts of its
/// items: the items separated by `, `, in square brackets.
pub open spec fn debug_list_text(quoted: Seq<Seq<char>>) -> Seq<char> {
    "["@ + join(quoted, ", "@) + "]"@
}

/// The `Debug` texts of the strings of a list, in order.
pub fn debug_each(items: &Vec<String>) -> (r: Vec<String>)
    ensures
        views(r@) == views(items@).map_values(|s: Seq<char>| debug_text(s)),
{
    let mut r: Vec<String> = Vec::new();
    let n = items.len();
    let mut i: usize = 0;
    while i < n
        invariant
            n == items@.len(),
            i <= n,
            r@.len() == i,
            forall|j: int| 0 <= j < i ==> (#[trigger] r@[j])@ == debug_text(items@[j]@),
        decreases n - i,
    {
        let q = debug_quoted(items[i].as_str());
        r.push(q);
        i = i + 1;
    }
    assert(views(r@) =~= views(items@).map_values(|s: Seq<char>| debug_text(s)));
    r
}

/// Whether `s` starts with `prefix`.
pub open spec fn starts_with(s: Seq<char>, prefix: Seq<char>) -> bool {
    prefix.len() <= s.len() && s.take(prefix.len() as int) == prefix
}

/// Whether `s` ends with `suffix`.
pub open spec fn ends_with(s: Seq<char>, suffix: Seq<char>) -> bool {
    suffix.len() <= s.len() && s.skip(s.len() - suffix.len()) == suffix
}

/// Whether `s` starts with `prefix`.
pub fn has_prefix(s: &str, prefix: &str) -> (r: bool)
    ensures
        r == starts_with(s@, prefix@),
{
    let n = s.unicode_len();
    let m = prefix.unicode_len();
    if m > n {
        return false;
    }
    let head = s.substring_char(0, m);
    assert(head@ =~= s@.take(m as int));
    same_text(head, prefix)
}

/// Whether `s` ends with `suffix`.
pub fn has_suffix(s: &str, suffix: &str) -> (r: bool)
    ensures
        r == ends_with(s@, suffix@),
{
    let n = s.unicode_len();
    let m = suffix.unicode_len();
    if m > n {
        return false;
    }
    let tail = s.substring_char(n - m, n);
    assert(tail@ =~= s@.skip(n - m));
    same_text(tail, suffix)
}


/// Whether `t` occurs in `s` as a run of consecutive characters.
pub open spec fn contains_text(s: Seq<char>, t: Seq<char>) -> bool {
    exists|i: int| 0 <= i && i + t.len() <= s.len() && #[trigger] s.subrange(i, i + t.len()) == t
}

/// A text holds whatever stands between its beginning and its end.
pub proof fn lemma_contains_middle(pre: Seq<char>, t: Seq<char>, post: Seq<char>)
    ensures
        contains_text(pre + t + post, t),
{
    let s = pre + t + post;
    let i = pre.len() as int;
    assert(s.subrange(i, i + t.len()) =~= t);
}

/// What occurs in a text still occurs once more is put before and after it.
pub proof fn lemma_contains_within(s: Seq<char>, t: Seq<char>, pre: Seq<char>, post: Seq<char>)
    requires
        contains_text(s, t),
    ensures
        contains_text(pre + s + post, t),
{
    let i = choose|i: int| 0 <= i && i + t.len() <= s.len() && #[trigger] s.subrange(i, i + t.len()) == t;
    let w = pre + s + post;
    let j = pre.len() + i;
    assert(w.subrange(j, j + t.len()) =~= s.subrange(i, i + t.len()));
}

/// Occurrence is transitive: what occurs in a part occurs in the whole.
pub proof fn lemma_contains_trans(s: Seq<char>, u: Seq<char>, t: Seq<char>)
    requires
        contains_text(s, u),
        contains_text(u, t),
    ensures
        contains_text(s, t),
{
    let i = choose|i: int| 0 <= i && i + u.len() <= s.len() && #[trigger] s.subrange(i, i + u.len()) == u;
    let k = choose|k: int| 0 <= k && k + t.len() <= u.len() && #[trigger] u.subrange(k, k + t.len()) == t;
    assert(s.subrange(i + k, i + k + t.len()) =~= u.subrange(k, k + t.len()));
}

} // verus!
