//! Small operations on strings, each stated over the sequence of characters.

use vstd::prelude::*;
use vstd::string::*;
use vstd::utf8::*;

verus! {

/// `String::push` appends the given character to the end of the string.
pub assume_specification[ String::push ](s: &mut String, c: char)
    ensures
        final(s)@ == old(s)@.push(c),
;

/// The characters of an optional string.
pub open spec fn opt_text(s: Option<String>) -> Option<Seq<char>> {
    match s {
        Some(t) => Some(t@),
        None => None,
    }
}

/// The characters of an optional borrowed string.
pub open spec fn opt_str_text(s: Option<&str>) -> Option<Seq<char>> {
    match s {
        Some(t) => Some(t@),
        None => None,
    }
}

/// The characters of each string of a list.
pub open spec fn texts(v: Seq<String>) -> Seq<Seq<char>> {
    v.map_values(|s: String| s@)
}

/// Borrow the text inside an optional string.
pub fn opt_as_str<'a>(s: &'a Option<String>) -> (r: Option<&'a str>)
    ensures
        opt_str_text(r) == opt_text(*s),
{
    match s {
        Some(t) => Some(t.as_str()),
        None => None,
    }
}

/// A copy of an optional string.
pub fn opt_clone(s: &Option<String>) -> (r: Option<String>)
    ensures
        opt_text(r) == opt_text(*s),
{
    match s {
        Some(t) => Some(t.clone()),
        None => None,
    }
}

/// A copy of a list of strings.
pub fn clone_texts(v: &Vec<String>) -> (r: Vec<String>)
    ensures
        texts(r@) == texts(v@),
{
    let mut out: Vec<String> = Vec::new();
    let mut i: usize = 0;
    while i < v.len()
        invariant
            i <= v.len(),
            texts(out@) =~= texts(v@).take(i as int),
        decreases v.len() - i,
    {
        let ghost before = out@;
        out.push(v[i].clone());
        assert(texts(out@) =~= texts(before).push(texts(v@)[i as int]));
        i = i + 1;
    }
    out
}

/// The characters of `s`, in order.
pub fn to_chars(s: &str) -> (r: Vec<char>)
    ensures
        r@ == s@,
{
    let mut out: Vec<char> = Vec::new();
    for c in it: s.chars()
        invariant
            out@ == it.seq().take(it.index()),
            it.seq() == s@,
    {
        out.push(c);
    }
    out
}

/// The string made of the characters `chars[from..to]`.
pub fn from_chars(chars: &Vec<char>, from: usize, to: usize) -> (r: String)
    requires
        from <= to <= chars@.len(),
    ensures
        r@ == chars@.subrange(from as int, to as int),
{
    let mut out = String::new();
    let mut i: usize = from;
    while i < to
        invariant
            from <= i <= to <= chars@.len(),
            out@ =~= chars@.subrange(from as int, i as int),
        decreases to - i,
    {
        out.push(chars[i]);
        i = i + 1;
    }
    out
}

/// Two strings with the same UTF-8 bytes have the same characters.
proof fn lemma_bytes_determine_text(a: Seq<char>, b: Seq<char>)
    requires
        encode_utf8(a) == encode_utf8(b),
    ensures
        a == b,
{
    encode_utf8_decode_utf8(a);
    encode_utf8_decode_utf8(b);
}

/// Whether the two strings are the same.
pub fn text_eq(a: &str, b: &str) -> (r: bool)
    ensures
        r == (a@ == b@),
{
    let x = a.as_bytes();
    let y = b.as_bytes();
    if x.len() != y.len() {
        return false;
    }
    let mut i: usize = 0;
    while i < x.len()
        invariant
            i <= x@.len(),
            x@.len() == y@.len(),
            x@ == encode_utf8(a@),
            y@ == encode_utf8(b@),
            forall|j: int| 0 <= j < i ==> x@[j] == y@[j],
        decreases x@.len() - i,
    {
        if x[i] != y[i] {
            return false;
        }
        i = i + 1;
    }
    proof {
        assert(x@ =~= y@);
        lemma_bytes_determine_text(a@, b@);
    }
    true
}

/// `s` without the run of `c` that it ends with.
pub open spec fn trimmed_end(s: Seq<char>, c: char) -> Seq<char>
    decreases s.len(),
{
    if s.len() > 0 && s.last() == c {
        trimmed_end(s.drop_last(), c)
    } else {
        s
    }
}

/// `s` without the run of `c` that it begins with.
pub open spec fn trimmed_start(s: Seq<char>, c: char) -> Seq<char>
    decreases s.len(),
{
    if s.len() > 0 && s[0] == c {
        trimmed_start(s.skip(1), c)
    } else {
        s
    }
}

/// `s` without the run of `c` that it ends with.
pub fn trim_end(s: &str, c: char) -> (r: String)
    ensures
        r@ == trimmed_end(s@, c),
{
    let chars = to_chars(s);
    let mut n: usize = chars.len();
    assert(s@.take(n as int) =~= s@);
    while n > 0 && chars[n - 1] == c
        invariant
            n <= chars@.len(),
            chars@ == s@,
            trimmed_end(s@.take(n as int), c) == trimmed_end(s@, c),
        decreases n,
    {
        assert(s@.take(n as int).drop_last() =~= s@.take(n - 1));
        n = n - 1;
    }
    assert(s@.take(n as int) =~= s@.subrange(0, n as int));
    from_chars(&chars, 0, n)
}

/// `s` without the run of `c` that it begins with.
pub fn trim_start(s: &str, c: char) -> (r: String)
    ensures
        r@ == trimmed_start(s@, c),
{
    let chars = to_chars(s);
    let mut i: usize = 0;
    assert(s@.skip(0) =~= s@);
    while i < chars.len() && chars[i] == c
        invariant
            i <= chars@.len(),
            chars@ == s@,
            trimmed_start(s@.skip(i as int), c) == trimmed_start(s@, c),
        decreases chars@.len() - i,
    {
        assert(s@.skip(i as int).skip(1) =~= s@.skip(i + 1));
        i = i + 1;
    }
    assert(s@.skip(i as int) =~= s@.subrange(i as int, s@.len() as int));
    from_chars(&chars, i, chars.len())
}

/// Trimming removes nothing but `c`, keeps the rest in place, and leaves a
/// string that does not end with `c`.
pub proof fn law_trimmed_end(s: Seq<char>, c: char)
    ensures
        trimmed_end(s, c).len() <= s.len(),
        trimmed_end(s, c) == s.take(trimmed_end(s, c).len() as int),
        forall|i: int| trimmed_end(s, c).len() <= i < s.len() ==> s[i] == c,
        trimmed_end(s, c).len() > 0 ==> trimmed_end(s, c).last() != c,
        trimmed_end(trimmed_end(s, c), c) == trimmed_end(s, c),
    decreases s.len(),
{
    if s.len() > 0 && s.last() == c {
        law_trimmed_end(s.drop_last(), c);
        assert(s.drop_last().take(trimmed_end(s, c).len() as int) =~= s.take(
            trimmed_end(s, c).len() as int,
        ));
        assert forall|i: int| trimmed_end(s, c).len() <= i < s.len() implies s[i] == c by {
            if i < s.len() - 1 {
                assert(s.drop_last()[i] == s[i]);
            }
        }
    } else {
        assert(s.take(s.len() as int) =~= s);
    }
}

/// The decimal digit `d`.
pub open spec fn digit(d: int) -> char {
    if d == 0 {
        '0'
    } else if d == 1 {
        '1'
    } else if d == 2 {
        '2'
    } else if d == 3 {
        '3'
    } else if d == 4 {
        '4'
    } else if d == 5 {
        '5'
    } else if d == 6 {
        '6'
    } else if d == 7 {
        '7'
    } else if d == 8 {
        '8'
    } else {
        '9'
    }
}

/// `n` written in decimal, without leading zeros.
pub open spec fn decimal(n: nat) -> Seq<char>
    decreases n,
{
    if n < 10 {
        seq![digit(n as int)]
    } else {
        decimal(n / 10).push(digit((n % 10) as int))
    }
}

fn digit_char(d: u64) -> (c: char)
    requires
        d < 10,
    ensures
        c == digit(d as int),
{
    if d == 0 {
        '0'
    } else if d == 1 {
        '1'
    } else if d == 2 {
        '2'
    } else if d == 3 {
        '3'
    } else if d == 4 {
        '4'
    } else if d == 5 {
        '5'
    } else if d == 6 {
        '6'
    } else if d == 7 {
        '7'
    } else if d == 8 {
        '8'
    } else {
        '9'
    }
}

/// `n` written in decimal.
pub fn decimal_string(n: u64) -> (r: String)
    ensures
        r@ == decimal(n as nat),
    decreases n,
{
    if n < 10 {
        let mut s = String::new();
        s.push(digit_char(n));
        assert(s@ =~= decimal(n as nat));
        s
    } else {
        let mut s = decimal_string(n / 10);
        s.push(digit_char(n % 10));
        s
    }
}

/// `s` with each occurrence of `from` replaced by `to`: occurrences are taken
/// from the left and do not overlap.
pub open spec fn replaced(s: Seq<char>, from: Seq<char>, to: Seq<char>) -> Seq<char>
    decreases s.len(),
{
    if from.len() == 0 || s.len() < from.len() {
        s
    } else if s.take(from.len() as int) == from {
        to + replaced(s.skip(from.len() as int), from, to)
    } else {
        seq![s[0]] + replaced(s.skip(1), from, to)
    }
}

/// Replacing a single character works piece by piece.
pub(crate) proof fn lemma_replaced_char_distributes(
    a: Seq<char>,
    b: Seq<char>,
    c: char,
    to: Seq<char>,
)
    ensures
        replaced(a + b, seq![c], to) == replaced(a, seq![c], to) + replaced(b, seq![c], to),
    decreases a.len(),
{
    if a.len() > 0 {
        lemma_replaced_char_distributes(a.skip(1), b, c, to);
        assert((a + b).skip(1) =~= a.skip(1) + b);
        assert((a + b).take(1) =~= seq![a[0]]);
        assert(a.take(1) =~= seq![a[0]]);
        assert(replaced(a + b, seq![c], to) =~= replaced(a, seq![c], to) + replaced(
            b,
            seq![c],
            to,
        ));
    } else {
        assert(a + b =~= b);
        assert(replaced(a + b, seq![c], to) =~= replaced(a, seq![c], to) + replaced(
            b,
            seq![c],
            to,
        ));
    }
}

/// Replacing a character that does not occur changes nothing.
pub(crate) proof fn lemma_replaced_absent_char(s: Seq<char>, c: char, to: Seq<char>)
    requires
        forall|i: int| 0 <= i < s.len() ==> s[i] != c,
    ensures
        replaced(s, seq![c], to) == s,
    decreases s.len(),
{
    if s.len() > 0 {
        lemma_replaced_absent_char(s.skip(1), c, to);
        assert(s.take(1)[0] != seq![c][0]);
        assert(seq![s[0]] + s.skip(1) =~= s);
    }
}

/// Replacing a character in the text that is just this character.
pub(crate) proof fn lemma_replaced_single_char(c: char, to: Seq<char>)
    ensures
        replaced(seq![c], seq![c], to) == to,
{
    assert(seq![c].take(1) =~= seq![c]);
    assert(seq![c].skip(1) =~= Seq::empty());
    assert(replaced(Seq::empty(), seq![c], to) =~= Seq::<char>::empty());
    assert(to + Seq::<char>::empty() =~= to);
}

fn matches_at(s: &Vec<char>, i: usize, from: &Vec<char>) -> (r: bool)
    requires
        i + from@.len() <= s@.len(),
    ensures
        r == (s@.skip(i as int).take(from@.len() as int) == from@),
{
    let mut j: usize = 0;
    while j < from.len()
        invariant
            j <= from@.len(),
            i + from@.len() <= s@.len(),
            forall|k: int| 0 <= k < j ==> s@[i + k] == from@[k],
        decreases from@.len() - j,
    {
        assert(i + j < s.len());
        if s[i + j] != from[j] {
            assert(s@.skip(i as int).take(from@.len() as int)[j as int] != from@[j as int]);
            return false;
        }
        j = j + 1;
    }
    assert(s@.skip(i as int).take(from@.len() as int) =~= from@);
    true
}

/// `s` with each occurrence of `from` replaced by `to`.
pub fn replace_all(s: &str, from: &str, to: &str) -> (r: String)
    requires
        from@.len() > 0,
    ensures
        r@ == replaced(s@, from@, to@),
{
    let chars = to_chars(s);
    let pattern = to_chars(from);
    let mut out = String::new();
    let mut i: usize = 0;
    assert(s@.skip(0) =~= s@);
    while pattern.len() <= chars.len() - i
        invariant
            i <= chars@.len(),
            chars@ == s@,
            pattern@ == from@,
            from@.len() > 0,
            replaced(s@, from@, to@) =~= out@ + replaced(s@.skip(i as int), from@, to@),
        decreases chars@.len() - i,
    {
        if matches_at(&chars, i, &pattern) {
            assert(s@.skip(i as int).skip(from@.len() as int) =~= s@.skip(i + from@.len()));
            out.append(to);
            i = i + pattern.len();
        } else {
            assert(s@.skip(i as int).skip(1) =~= s@.skip(i + 1));
            out.push(chars[i]);
            i = i + 1;
        }
    }
    let rest = from_chars(&chars, i, chars.len());
    assert(rest@ =~= s@.skip(i as int));
    out.append(rest.as_str());
    out
}

/// An optional string is missing exactly where its text is, and says the same.
pub proof fn law_optional_text(a: Option<String>, b: Option<&str>)
    ensures
        opt_text(a) is Some <==> a is Some,
        a is Some ==> opt_text(a)->Some_0 == a->Some_0@,
        opt_str_text(b) is Some <==> b is Some,
        b is Some ==> opt_str_text(b)->Some_0 == b->Some_0@,
{
}

/// The texts of a list are those of its strings, place by place.
pub proof fn law_texts_of_a_list(v: Seq<String>, i: int)
    ensures
        texts(v).len() == v.len(),
        0 <= i < v.len() ==> texts(v)[i] == v[i]@,
{
}

/// Trimming the start removes nothing but `c`, keeps the rest in place, and
/// leaves a string that does not begin with `c`.
pub proof fn law_trimmed_start(s: Seq<char>, c: char)
    ensures
        ({
            let n = s.len() - trimmed_start(s, c).len();
            &&& 0 <= n <= s.len()
            &&& trimmed_start(s, c) == s.skip(n)
            &&& forall|i: int| 0 <= i < n ==> s[i] == c
        }),
        trimmed_start(s, c).len() > 0 ==> trimmed_start(s, c)[0] != c,
    decreases s.len(),
{
    if s.len() > 0 && s[0] == c {
        law_trimmed_start(s.skip(1), c);
        let n = s.len() - trimmed_start(s, c).len();
        assert(s.skip(1).skip(n - 1) =~= s.skip(n));
        assert forall|i: int| 0 <= i < n implies s[i] == c by {
            if i > 0 {
                assert(s.skip(1)[i - 1] == s[i]);
            }
        }
    } else {
        assert(s.skip(0) =~= s);
    }
}

/// The number that a decimal digit stands for.
pub open spec fn digit_value(c: char) -> int {
    c as int - '0' as int
}

/// The number that a text of decimal digits stands for.
pub open spec fn decimal_value(s: Seq<char>) -> int
    decreases s.len(),
{
    if s.len() == 0 {
        0
    } else {
        10 * decimal_value(s.drop_last()) + digit_value(s.last())
    }
}

/// What a number is written as reads back as that number, is made of digits, and
/// has no leading zero unless it is zero.
pub proof fn law_decimal_reads_back(n: nat)
    ensures
        decimal_value(decimal(n)) == n,
        decimal(n).len() > 0,
        forall|i: int| 0 <= i < decimal(n).len() ==> '0' <= #[trigger] decimal(n)[i] <= '9',
        n > 0 ==> decimal(n)[0] != '0',
    decreases n,
{
    if n < 10 {
        assert(decimal(n).drop_last() =~= Seq::<char>::empty());
        assert(decimal_value(Seq::empty()) == 0);
    } else {
        law_decimal_reads_back(n / 10);
        let head = decimal(n / 10);
        let d = digit((n % 10) as int);
        assert(head.push(d).drop_last() =~= head);
        assert(head.push(d)[0] == head[0]);
    }
}

/// Whether `from` stands in `s` at place `i`.
pub open spec fn occurs_at(s: Seq<char>, from: Seq<char>, i: int) -> bool {
    0 <= i && i + from.len() <= s.len() && s.subrange(i, i + from.len()) == from
}

/// A text without an occurrence is left as it is.
pub proof fn law_replacing_nothing(s: Seq<char>, from: Seq<char>, to: Seq<char>)
    requires
        from.len() > 0,
        forall|i: int| !occurs_at(s, from, i),
    ensures
        replaced(s, from, to) == s,
    decreases s.len(),
{
    if s.len() >= from.len() {
        assert(s.take(from.len() as int) =~= s.subrange(0, from.len() as int));
        assert(!occurs_at(s, from, 0));
        let rest = s.skip(1);
        assert forall|i: int| !occurs_at(rest, from, i) by {
            if occurs_at(rest, from, i) {
                assert(rest.subrange(i, i + from.len()) =~= s.subrange(i + 1, i + 1 + from.len()));
                assert(occurs_at(s, from, i + 1));
            }
        }
        law_replacing_nothing(rest, from, to);
        assert(seq![s[0]] + rest =~= s);
    }
}

/// The first occurrence is replaced, what stands before it is kept, and the rest
/// is treated in the same way.
pub proof fn law_replacing_the_first(s: Seq<char>, from: Seq<char>, to: Seq<char>, i: int)
    requires
        from.len() > 0,
        occurs_at(s, from, i),
        forall|j: int| j < i ==> !occurs_at(s, from, j),
    ensures
        replaced(s, from, to) == s.take(i) + to + replaced(s.skip(i + from.len()), from, to),
    decreases s.len(),
{
    assert(s.take(from.len() as int) =~= s.subrange(0, from.len() as int));
    if i == 0 {
        assert(s.take(0) + to =~= to);
    } else {
        assert(!occurs_at(s, from, 0));
        let rest = s.skip(1);
        assert(rest.subrange(i - 1, i - 1 + from.len()) =~= s.subrange(i, i + from.len()));
        assert forall|j: int| j < i - 1 implies !occurs_at(rest, from, j) by {
            if occurs_at(rest, from, j) {
                assert(rest.subrange(j, j + from.len()) =~= s.subrange(j + 1, j + 1 + from.len()));
                assert(occurs_at(s, from, j + 1));
            }
        }
        law_replacing_the_first(rest, from, to, i - 1);
        assert(rest.skip(i - 1 + from.len()) =~= s.skip(i + from.len()));
        let tail = replaced(s.skip(i + from.len()), from, to);
        assert(seq![s[0]] + (rest.take(i - 1) + to + tail) =~= s.take(i) + to + tail);
    }
}

/// Once every occurrence is replaced by a text that shares no character with it,
/// none is left.
pub(crate) proof fn lemma_replaced_leaves_none(s: Seq<char>, from: Seq<char>, to: Seq<char>)
    requires
        from.len() > 0,
        to.len() > 0,
        forall|i: int, j: int| 0 <= i < from.len() && 0 <= j < to.len() ==> from[i] != to[j],
    ensures
        forall|i: int| !occurs_at(replaced(s, from, to), from, i),
    decreases s.len(),
{
    let n = from.len() as int;
    let result = replaced(s, from, to);
    if s.len() < from.len() {
    } else if s.take(n) == from {
        let rest = replaced(s.skip(n), from, to);
        lemma_replaced_leaves_none(s.skip(n), from, to);
        assert forall|i: int| !occurs_at(result, from, i) by {
            if occurs_at(result, from, i) {
                if i < to.len() {
                    assert(result.subrange(i, i + n)[0] == to[i]);
                    assert(from[0] == to[i]);
                } else {
                    assert(result.subrange(i, i + n) =~= rest.subrange(
                        i - to.len(),
                        i - to.len() + n,
                    ));
                    assert(occurs_at(rest, from, i - to.len()));
                }
            }
        }
    } else {
        let rest = replaced(s.skip(1), from, to);
        lemma_replaced_leaves_none(s.skip(1), from, to);
        assert forall|i: int| !occurs_at(result, from, i) by {
            if occurs_at(result, from, i) {
                if i > 0 {
                    assert(result.subrange(i, i + n) =~= rest.subrange(i - 1, i - 1 + n));
                    assert(occurs_at(rest, from, i - 1));
                } else {
                    assert(result.take(n) =~= from) by {
                        assert(result.subrange(0, n) =~= result.take(n));
                    }
                    assert forall|a: int, b: int| 0 <= a < n && 0 <= b < to.len() implies result[a]
                        != to[b] by {
                        assert(result.take(n)[a] == from[a]);
                    }
                    lemma_replaced_prefix(s, from, to, n);
                    assert(s.take(n) =~= from);
                }
            }
        }
    }
}

/// Where the result of a replacement begins with characters that the replacement
/// text has not, the text begins with them too.
proof fn lemma_replaced_prefix(s: Seq<char>, from: Seq<char>, to: Seq<char>, k: int)
    requires
        from.len() > 0,
        to.len() > 0,
        0 <= k <= replaced(s, from, to).len(),
        forall|i: int, j: int|
            0 <= i < k && 0 <= j < to.len() ==> replaced(s, from, to)[i] != to[j],
    ensures
        k <= s.len(),
        s.take(k) == replaced(s, from, to).take(k),
    decreases s.len(),
{
    let result = replaced(s, from, to);
    if k == 0 {
        assert(s.take(0) =~= result.take(0));
    } else if s.len() < from.len() {
    } else if s.take(from.len() as int) == from {
        assert(result[0] == to[0]);
    } else {
        let rest = replaced(s.skip(1), from, to);
        assert forall|i: int, j: int| 0 <= i < k - 1 && 0 <= j < to.len() implies rest[i]
            != to[j] by {
            assert(rest[i] == result[i + 1]);
        }
        lemma_replaced_prefix(s.skip(1), from, to, k - 1);
        assert(s.take(k) =~= seq![s[0]] + s.skip(1).take(k - 1));
        assert(result.take(k) =~= seq![s[0]] + rest.take(k - 1));
    }
}

/// Replacing a text by itself changes nothing.
pub(crate) proof fn lemma_replaced_by_itself(s: Seq<char>, from: Seq<char>)
    requires
        from.len() > 0,
    ensures
        replaced(s, from, from) == s,
    decreases s.len(),
{
    let n = from.len() as int;
    if s.len() < from.len() {
    } else if s.take(n) == from {
        lemma_replaced_by_itself(s.skip(n), from);
        assert(s.take(n) + s.skip(n) =~= s);
    } else {
        lemma_replaced_by_itself(s.skip(1), from);
        assert(seq![s[0]] + s.skip(1) =~= s);
    }
}

} // verus!
