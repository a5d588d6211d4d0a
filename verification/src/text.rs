//! Text helpers shared by the routing and response code.
//!
//! Everything here is stated over `Seq<char>`, the view of `str` and `String`.

use vstd::prelude::*;

verus! {

/// The view of an optional string.
pub open spec fn opt_text(o: Option<String>) -> Option<Seq<char>> {
    match o {
        Some(s) => Some(s@),
        None => None,
    }
}

/// `i` is where `c` first occurs in `s`, or the length of `s` where it does not occur.
pub open spec fn is_first_at(s: Seq<char>, c: char, i: int) -> bool {
    &&& 0 <= i <= s.len()
    &&& forall|j: int| 0 <= j < i ==> s[j] != c
    &&& i < s.len() ==> s[i] == c
}

/// Where `c` first occurs in `s`, or the length of `s` where it does not occur.
pub open spec fn first_at(s: Seq<char>, c: char) -> int {
    choose|i: int| is_first_at(s, c, i)
}

/// `k` is where the part of `s` behind the last `c` starts; 0 where `c` does not occur.
pub open spec fn is_tail_start(s: Seq<char>, c: char, k: int) -> bool {
    &&& 0 <= k <= s.len()
    &&& forall|j: int| k <= j < s.len() ==> s[j] != c
    &&& k > 0 ==> s[k - 1] == c
}

/// Where the part of `s` behind the last `c` starts; 0 where `c` does not occur.
pub open spec fn tail_start(s: Seq<char>, c: char) -> int {
    choose|k: int| is_tail_start(s, c, k)
}

/// At most one index is the first occurrence, and `first_at` is that index.
pub proof fn lemma_first_at(s: Seq<char>, c: char, i: int)
    requires
        is_first_at(s, c, i),
    ensures
        first_at(s, c) == i,
{
    let f = first_at(s, c);
    assert(is_first_at(s, c, f));
    if f < i {
        assert(s[f] != c);
    } else if i < f {
        assert(s[i] != c);
    }
}

/// At most one index starts the tail, and `tail_start` is that index.
pub proof fn lemma_tail_start(s: Seq<char>, c: char, k: int)
    requires
        is_tail_start(s, c, k),
    ensures
        tail_start(s, c) == k,
{
    let t = tail_start(s, c);
    assert(is_tail_start(s, c, t));
    if t < k {
        assert(s[k - 1] != c);
    } else if k < t {
        assert(s[t - 1] != c);
    }
}

/// The host of an authority: what stands behind the last `@`, up to and
/// including the closing bracket where it opens with `[`, else up to the
/// first `:`.
pub open spec fn host_part(a: Seq<char>) -> Seq<char> {
    let hp = a.skip(tail_start(a, '@'));
    if hp.len() > 0 && hp[0] == '[' {
        let close = first_at(hp, ']');
        if close < hp.len() {
            hp.take(close + 1)
        } else {
            hp
        }
    } else {
        hp.take(first_at(hp, ':'))
    }
}

/// A host without `@` and `:` that does not open with `[` is the host of
/// itself, and of itself followed by `:` and a port.
pub proof fn lemma_host_part_strips_port(host: Seq<char>, port: Seq<char>)
    requires
        forall|i: int| 0 <= i < host.len() ==> host[i] != '@' && host[i] != ':',
        host.len() > 0 ==> host[0] != '[',
        forall|i: int| 0 <= i < port.len() ==> port[i] != '@',
    ensures
        host_part(host) == host,
        host_part(host + seq![':'] + port) == host,
{
    let a = host + seq![':'] + port;
    lemma_tail_start(a, '@', 0);
    lemma_tail_start(host, '@', 0);
    assert(a.skip(0) =~= a);
    assert(host.skip(0) =~= host);
    lemma_first_at(a, ':', host.len() as int);
    lemma_first_at(host, ':', host.len() as int);
    assert(a.take(host.len() as int) =~= host);
    assert(host.take(host.len() as int) =~= host);
}

/// Two texts that are equal once the same text is put behind each are equal.
pub proof fn lemma_same_suffix(a: Seq<char>, b: Seq<char>, suffix: Seq<char>)
    requires
        a + suffix == b + suffix,
    ensures
        a == b,
{
    assert(a.len() == b.len()) by {
        assert((a + suffix).len() == a.len() + suffix.len());
        assert((b + suffix).len() == b.len() + suffix.len());
    }
    assert forall|t: int| 0 <= t < a.len() implies a[t] == b[t] by {
        assert((a + suffix)[t] == a[t]);
        assert((b + suffix)[t] == b[t]);
    }
    assert(a =~= b);
}

/// `needle` occurs in `hay` at index `i`.
pub open spec fn occurs_at(hay: Seq<char>, needle: Seq<char>, i: int) -> bool {
    &&& 0 <= i
    &&& i + needle.len() <= hay.len()
    &&& hay.subrange(i, i + needle.len()) == needle
}

/// `needle` occurs somewhere in `hay`.
pub open spec fn is_infix(hay: Seq<char>, needle: Seq<char>) -> bool {
    exists|i: int| occurs_at(hay, needle, i)
}

/// The decimal digit for `d`, for `d` below ten.
pub open spec fn digit_char(d: nat) -> char {
    if d == 0 {
        '0'
    } else if d == 1 {
        '1'
    } else if d == 2 {
        '2'
    } else if d == 3 {
        '3'
    } else if d == 4 {
        '4'
    } else if d == 5 {
        '5'
    } else if d == 6 {
        '6'
    } else if d == 7 {
        '7'
    } else if d == 8 {
        '8'
    } else {
        '9'
    }
}

/// `n` in decimal, without leading zeros; `"0"` for zero.
pub open spec fn decimal(n: nat) -> Seq<char>
    decreases n,
{
    if n < 10 {
        seq![digit_char(n)]
    } else {
        decimal(n / 10).push(digit_char(n % 10))
    }
}

/// The lower-case hexadecimal digit for `d`, for `d` below sixteen.
pub open spec fn hex_digit_char(d: nat) -> char {
    if d < 10 {
        digit_char(d)
    } else if d == 10 {
        'a'
    } else if d == 11 {
        'b'
    } else if d == 12 {
        'c'
    } else if d == 13 {
        'd'
    } else if d == 14 {
        'e'
    } else {
        'f'
    }
}

/// `n` in lower-case hexadecimal, without leading zeros; `"0"` for zero.
pub open spec fn hexadecimal(n: nat) -> Seq<char>
    decreases n,
{
    if n < 16 {
        seq![hex_digit_char(n)]
    } else {
        hexadecimal(n / 16).push(hex_digit_char(n % 16))
    }
}

/// The lower-case form of an ASCII capital; every other character is
/// its own.
pub open spec fn ascii_lower(c: char) -> char {
    if 'A' <= c <= 'Z' {
        ((c as u8) + 32) as char
    } else {
        c
    }
}

/// `s` with every ASCII capital in lower case.
pub open spec fn ascii_lowered(s: Seq<char>) -> Seq<char> {
    Seq::new(s.len(), |i: int| ascii_lower(s[i]))
}

/// A character that may stand in the value of a header: visible ASCII, a
/// space, a tab, or anything beyond ASCII.
pub open spec fn is_header_char(c: char) -> bool {
    (c >= ' ' && c != '\x7f') || c == '\t'
}

/// Every character of `s` may stand in the value of a header.
pub open spec fn is_header_text(s: Seq<char>) -> bool {
    forall|i: int| 0 <= i < s.len() ==> is_header_char(#[trigger] s[i])
}

/// The characters of `s`, in order.
pub fn chars_of(s: &str) -> (v: Vec<char>)
    ensures
        v@ == s@,
{
    let mut v: Vec<char> = Vec::new();
    for c in it: s.chars()
        invariant
            v@ == it.seq().take(it.index() as int),
            it.seq() == s@,
    {
        v.push(c);
    }
    v
}

/// Finds `c` in `v` at or behind `from`.
pub fn find_from(v: &Vec<char>, c: char, from: usize) -> (i: usize)
    requires
        from <= v.len(),
    ensures
        from <= i <= v.len(),
        i - from == first_at(v@.skip(from as int), c),
        forall|j: int| from <= j < i ==> v[j] != c,
        i < v.len() ==> v[i as int] == c,
{
    let mut i: usize = from;
    while i < v.len() && v[i] != c
        invariant
            from <= i <= v.len(),
            forall|j: int| from <= j < i ==> v[j] != c,
        decreases v.len() - i,
    {
        i += 1;
    }
    proof {
        lemma_first_at(v@.skip(from as int), c, i - from);
    }
    i
}

/// Finds where the part of `v` behind the last `c` starts.
pub fn find_tail_start(v: &Vec<char>, c: char) -> (k: usize)
    ensures
        k <= v.len(),
        k == tail_start(v@, c),
{
    let mut k: usize = v.len();
    while k > 0 && v[k - 1] != c
        invariant
            k <= v.len(),
            forall|j: int| k <= j < v.len() ==> v[j] != c,
        decreases k,
    {
        k -= 1;
    }
    proof {
        lemma_tail_start(v@, c, k as int);
    }
    k
}

/// The host of an authority, with user information and port taken off.
pub fn host_of(authority: &str) -> (host: String)
    ensures
        host@ == host_part(authority@),
{
    let v = chars_of(authority);
    let n = v.len();
    let k = find_tail_start(&v, '@');
    let ghost hp = v@.skip(k as int);
    let end: usize;
    if k < n && v[k] == '[' {
        let close = find_from(&v, ']', k);
        if close < n {
            end = close + 1;
        } else {
            end = n;
        }
    } else {
        end = find_from(&v, ':', k);
    }
    assert(v@.subrange(k as int, end as int) == hp.take(end - k));
    assert(hp.take(hp.len() as int) == hp);
    let part = authority.substring_char(k, end);
    part.to_owned()
}

/// Does `needle` occur in `hay` at index `i`?
fn matches_at(hay: &Vec<char>, needle: &Vec<char>, i: usize) -> (m: bool)
    requires
        i + needle.len() <= hay.len(),
    ensures
        m == occurs_at(hay@, needle@, i as int),
{
    let mut j: usize = 0;
    while j < needle.len()
        invariant
            j <= needle.len(),
            i + needle.len() <= hay.len(),
            forall|t: int| 0 <= t < j ==> hay[i + t] == needle[t],
        decreases needle.len() - j,
    {
        if hay[i + j] != needle[j] {
            proof {
                let sub = hay@.subrange(i as int, i + needle.len());
                assert(sub[j as int] == hay[i + j]);
            }
            return false;
        }
        j += 1;
    }
    assert(hay@.subrange(i as int, i + needle.len()) =~= needle@);
    true
}

/// Does `needle` occur somewhere in `hay`? The empty text occurs in every text.
pub fn contains(hay: &str, needle: &str) -> (found: bool)
    ensures
        found == is_infix(hay@, needle@),
{
    let h = chars_of(hay);
    let n = chars_of(needle);
    if n.len() > h.len() {
        return false;
    }
    let last: usize = h.len() - n.len();
    let mut i: usize = 0;
    loop
        invariant
            h@ == hay@,
            n@ == needle@,
            last == h.len() - n.len(),
            i <= last,
            forall|t: int| 0 <= t < i ==> !occurs_at(h@, n@, t),
        decreases last - i,
    {
        if matches_at(&h, &n, i) {
            return true;
        }
        if i == last {
            return false;
        }
        i += 1;
    }
}

/// The lower-case form of an ASCII capital.
fn to_ascii_lower(c: char) -> (lower: char)
    ensures
        lower == ascii_lower(c),
{
    if c >= 'A' && c <= 'Z' {
        ((c as u8) + 32) as char
    } else {
        c
    }
}

/// Are the two texts the same but for the case of ASCII letters?
pub fn eq_ignore_ascii_case(a: &str, b: &str) -> (same: bool)
    ensures
        same == (ascii_lowered(a@) == ascii_lowered(b@)),
{
    let x = chars_of(a);
    let y = chars_of(b);
    if x.len() != y.len() {
        assert(ascii_lowered(a@).len() != ascii_lowered(b@).len());
        return false;
    }
    let mut i: usize = 0;
    while i < x.len()
        invariant
            x@ == a@,
            y@ == b@,
            x.len() == y.len(),
            i <= x.len(),
            forall|j: int| 0 <= j < i ==> ascii_lower(x[j]) == ascii_lower(y[j]),
        decreases x.len() - i,
    {
        if to_ascii_lower(x[i]) != to_ascii_lower(y[i]) {
            assert(ascii_lowered(a@)[i as int] != ascii_lowered(b@)[i as int]);
            return false;
        }
        i += 1;
    }
    assert(ascii_lowered(a@) =~= ascii_lowered(b@));
    true
}

/// Does `s` begin with `prefix`?
pub fn starts_with(s: &str, prefix: &str) -> (b: bool)
    ensures
        b == prefix@.is_prefix_of(s@),
{
    let h = chars_of(s);
    let p = chars_of(prefix);
    if p.len() > h.len() {
        return false;
    }
    let m = matches_at(&h, &p, 0);
    assert(h@.subrange(0, p.len() as int) == p@ <==> p@.is_prefix_of(h@)) by {
        if p@.is_prefix_of(h@) {
            assert(h@.subrange(0, p.len() as int) =~= p@);
        }
    }
    m
}

/// May every character of `s` stand in the value of a header?
pub fn is_header_value(s: &str) -> (ok: bool)
    ensures
        ok == is_header_text(s@),
{
    let v = chars_of(s);
    let mut i: usize = 0;
    while i < v.len()
        invariant
            v@ == s@,
            i <= v.len(),
            forall|j: int| 0 <= j < i ==> is_header_char(#[trigger] v[j]),
        decreases v.len() - i,
    {
        let c = v[i];
        if !((c >= ' ' && c != '\x7f') || c == '\t') {
            assert(!is_header_char(s@[i as int]));
            return false;
        }
        i += 1;
    }
    true
}

/// The text of one decimal digit.
fn digit_str(d: u64) -> (s: &'static str)
    requires
        d < 10,
    ensures
        s@ == seq![digit_char(d as nat)],
{
    proof {
        reveal_strlit("0");
        reveal_strlit("1");
        reveal_strlit("2");
        reveal_strlit("3");
        reveal_strlit("4");
        reveal_strlit("5");
        reveal_strlit("6");
        reveal_strlit("7");
        reveal_strlit("8");
        reveal_strlit("9");
    }
    let s = if d == 0 {
        "0"
    } else if d == 1 {
        "1"
    } else if d == 2 {
        "2"
    } else if d == 3 {
        "3"
    } else if d == 4 {
        "4"
    } else if d == 5 {
        "5"
    } else if d == 6 {
        "6"
    } else if d == 7 {
        "7"
    } else if d == 8 {
        "8"
    } else {
        "9"
    };
    assert(s@ =~= seq![digit_char(d as nat)]);
    s
}

/// `n` written in decimal.
pub fn decimal_string(n: u64) -> (s: String)
    ensures
        s@ == decimal(n as nat),
    decreases n,
{
    if n < 10 {
        digit_str(n).to_owned()
    } else {
        let mut s = decimal_string(n / 10);
        s.append(digit_str(n % 10));
        assert(s@ =~= decimal((n / 10) as nat).push(digit_char((n % 10) as nat)));
        s
    }
}

/// The text of one hexadecimal digit.
fn hex_digit_str(d: u64) -> (s: &'static str)
    requires
        d < 16,
    ensures
        s@ == seq![hex_digit_char(d as nat)],
{
    if d < 10 {
        return digit_str(d);
    }
    proof {
        reveal_strlit("a");
        reveal_strlit("b");
        reveal_strlit("c");
        reveal_strlit("d");
        reveal_strlit("e");
        reveal_strlit("f");
    }
    let s = if d == 10 {
        "a"
    } else if d == 11 {
        "b"
    } else if d == 12 {
        "c"
    } else if d == 13 {
        "d"
    } else if d == 14 {
        "e"
    } else {
        "f"
    };
    assert(s@ =~= seq![hex_digit_char(d as nat)]);
    s
}

/// `n` written in lower-case hexadecimal.
pub fn hex_string(n: u64) -> (s: String)
    ensures
        s@ == hexadecimal(n as nat),
    decreases n,
{
    if n < 16 {
        hex_digit_str(n).to_owned()
    } else {
        let mut s = hex_string(n / 16);
        s.append(hex_digit_str(n % 16));
        assert(s@ =~= hexadecimal((n / 16) as nat).push(hex_digit_char((n % 16) as nat)));
        s
    }
}

} // verus!
