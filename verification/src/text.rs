//! Character-level helpers shared by the request checks, the service table
//! and the issue texts.

use vstd::prelude::*;
use vstd::string::StringExecFns;
use vstd::utf8::{valid_utf8, decode_utf8, encode_utf8, is_ascii_chars};

verus! {

broadcast use vstd::string::group_string_axioms;

/// The characters of `s`, one by one.
pub fn chars_of(s: &str) -> (res: Vec<char>)
    ensures
        res@ == s@,
{
    let mut res: Vec<char> = Vec::new();
    for c in it: s.chars()
        invariant
            res@ == it.seq().take(it.index() as int),
            it.seq() == s@,
    {
        res.push(c);
    }
    res
}

/// Strict lexicographic order on character sequences, comparing code points;
/// for UTF-8 text this is the order of `String`'s `Ord`.
pub open spec fn lex_lt(a: Seq<char>, b: Seq<char>) -> bool {
    exists|k: int|
        #![trigger a.take(k), b.take(k)]
        0 <= k <= a.len() && k <= b.len() && a.take(k) == b.take(k) && ((k == a.len() && k
            < b.len()) || (k < a.len() && k < b.len() && (a[k] as u32) < (b[k] as u32)))
}

/// Where two sequences first differ, or the length of the shorter one.
pub open spec fn common_prefix_len(a: Seq<char>, b: Seq<char>) -> int
    decreases a.len(),
{
    if a.len() == 0 || b.len() == 0 || a[0] != b[0] {
        0
    } else {
        1 + common_prefix_len(a.drop_first(), b.drop_first())
    }
}

pub proof fn lemma_common_prefix_len(a: Seq<char>, b: Seq<char>)
    ensures
        0 <= common_prefix_len(a, b) <= a.len(),
        common_prefix_len(a, b) <= b.len(),
        forall|i: int| 0 <= i < common_prefix_len(a, b) ==> a[i] == b[i],
        common_prefix_len(a, b) < a.len() && common_prefix_len(a, b) < b.len() ==> a[common_prefix_len(a, b)]
            != b[common_prefix_len(a, b)],
    decreases a.len(),
{
    if a.len() == 0 || b.len() == 0 || a[0] != b[0] {
    } else {
        lemma_common_prefix_len(a.drop_first(), b.drop_first());
        let n = common_prefix_len(a, b);
        assert forall|i: int| 0 <= i < n implies a[i] == b[i] by {
            if i > 0 {
                assert(a.drop_first()[i - 1] == b.drop_first()[i - 1]);
            }
        }
        if n < a.len() && n < b.len() {
            assert(a.drop_first()[n - 1] != b.drop_first()[n - 1]);
        }
    }
}

/// `lex_lt` seen through the first difference of the two sequences.
pub proof fn lemma_lex_lt_by_prefix(a: Seq<char>, b: Seq<char>)
    ensures
        ({
            let n = common_prefix_len(a, b);
            lex_lt(a, b) <==> ((n == a.len() && n < b.len()) || (n < a.len() && n < b.len() && (a[n] as u32) < (b[n] as u32)))
        }),
{
    lemma_common_prefix_len(a, b);
    let n = common_prefix_len(a, b);
    assert(a.take(n) =~= b.take(n));
    if lex_lt(a, b) {
        let k = choose|k: int|
            #![trigger a.take(k), b.take(k)]
            0 <= k <= a.len() && k <= b.len() && a.take(k) == b.take(k) && ((k == a.len() && k
                < b.len()) || (k < a.len() && k < b.len() && (a[k] as u32) < (b[k] as u32)));
        if k < n {
            assert(a[k] == b[k]);
        } else if k > n {
            assert(a.take(k)[n] == b.take(k)[n]);
        }
    }
}

pub proof fn lemma_lex_lt_transitive(a: Seq<char>, b: Seq<char>, c: Seq<char>)
    requires
        lex_lt(a, b),
        lex_lt(b, c),
    ensures
        lex_lt(a, c),
{
    lemma_lex_lt_by_prefix(a, b);
    lemma_lex_lt_by_prefix(b, c);
    lemma_lex_lt_by_prefix(a, c);
    lemma_common_prefix_len(a, b);
    lemma_common_prefix_len(b, c);
    lemma_common_prefix_len(a, c);
    let n1 = common_prefix_len(a, b);
    let n2 = common_prefix_len(b, c);
    let n3 = common_prefix_len(a, c);
    let m = if n1 < n2 { n1 } else { n2 };
    assert forall|i: int| 0 <= i < m implies a[i] == c[i] by {
        assert(a[i] == b[i]);
        assert(b[i] == c[i]);
    }
    if n3 < m {
        assert(a[n3] == c[n3]);
    }
}

pub proof fn lemma_lex_lt_irreflexive(a: Seq<char>, b: Seq<char>)
    ensures
        !(lex_lt(a, b) && lex_lt(b, a)),
        !lex_lt(a, a),
{
    lemma_lex_lt_by_prefix(a, b);
    lemma_lex_lt_by_prefix(b, a);
    lemma_lex_lt_by_prefix(a, a);
    lemma_common_prefix_len(a, b);
    lemma_common_prefix_len(b, a);
    lemma_common_prefix_len(a, a);
    let n1 = common_prefix_len(a, b);
    let n2 = common_prefix_len(b, a);
    assert forall|i: int| 0 <= i < n1 implies b[i] == a[i] by {}
    if n2 < n1 {
        assert(b[n2] == a[n2]);
    }
    if n1 < n2 {
        assert(a[n1] == b[n1]);
    }
    let n = common_prefix_len(a, a);
    if n < a.len() {
        assert(a[n] == a[n]);
    }
}

pub proof fn lemma_lex_lt_total(a: Seq<char>, b: Seq<char>)
    ensures
        a != b ==> lex_lt(a, b) || lex_lt(b, a),
{
    lemma_lex_lt_by_prefix(a, b);
    lemma_lex_lt_by_prefix(b, a);
    lemma_common_prefix_len(a, b);
    lemma_common_prefix_len(b, a);
    let n1 = common_prefix_len(a, b);
    let n2 = common_prefix_len(b, a);
    assert forall|i: int| 0 <= i < n1 implies b[i] == a[i] by {}
    if n2 < n1 {
        assert(b[n2] == a[n2]);
    }
    if n1 < n2 {
        assert(a[n1] == b[n1]);
    }
    if n1 == a.len() && n1 == b.len() {
        assert(a =~= b);
    }
    if n1 < a.len() && n1 < b.len() {
        vstd::utf8::char_u32_cast(a[n1], a[n1] as u32);
        vstd::utf8::char_u32_cast(b[n1], b[n1] as u32);
    }
}

/// Three-way comparison of two character sequences: `-1` when `a` comes
/// first, `0` when they are equal, `1` when `b` comes first.
pub fn lex_order(a: &Vec<char>, b: &Vec<char>) -> (res: i8)
    ensures
        res == -1 <==> lex_lt(a@, b@),
        res == 0 <==> a@ == b@,
        res == 1 <==> lex_lt(b@, a@),
        res == -1 || res == 0 || res == 1,
{
    proof {
        lemma_lex_lt_by_prefix(a@, b@);
        lemma_lex_lt_by_prefix(b@, a@);
        lemma_common_prefix_len(a@, b@);
        lemma_common_prefix_len(b@, a@);
        lemma_lex_lt_irreflexive(a@, b@);
        lemma_lex_lt_total(a@, b@);
    }
    let ghost n = common_prefix_len(a@, b@);
    let mut i: usize = 0;
    while i < a.len() && i < b.len() && a[i] == b[i]
        invariant
            0 <= i <= a.len(),
            i <= b.len(),
            forall|j: int| 0 <= j < i ==> a@[j] == b@[j],
            i <= n,
            n == common_prefix_len(a@, b@),
            0 <= n <= a@.len(),
            n <= b@.len(),
            forall|j: int| 0 <= j < n ==> a@[j] == b@[j],
            n < a@.len() && n < b@.len() ==> a@[n] != b@[n],
        decreases a.len() - i,
    {
        i = i + 1;
    }
    assert(i == n);
    proof {
        assert forall|j: int| 0 <= j < n implies b@[j] == a@[j] by {}
        assert(common_prefix_len(b@, a@) == n) by {
            let m = common_prefix_len(b@, a@);
            if m < n {
                assert(b@[m] == a@[m]);
            }
            if n < m {
                assert(b@[n] == a@[n]);
            }
        }
        if n == a@.len() && n == b@.len() {
            assert(a@ =~= b@);
        }
    }
    if i == a.len() && i == b.len() {
        0
    } else if i == a.len() {
        -1
    } else if i == b.len() {
        1
    } else if (a[i] as u32) < (b[i] as u32) {
        -1
    } else {
        1
    }
}

/// The decimal digit `d`.
pub open spec fn digit_char(d: nat) -> char {
    (48 + d) as char
}

/// The decimal writing of `n`, without leading zeros.
pub open spec fn decimal(n: nat) -> Seq<char>
    decreases n,
{
    if n < 10 {
        seq![digit_char(n)]
    } else {
        decimal(n / 10) + seq![digit_char(n % 10)]
    }
}

fn digit_str(d: u64) -> (res: &'static str)
    requires
        d < 10,
    ensures
        res@ == seq![digit_char(d as nat)],
{
    proof {
        reveal_strlit("0");
        reveal_strlit("1");
        reveal_strlit("2");
        reveal_strlit("3");
        reveal_strlit("4");
        reveal_strlit("5");
        reveal_strlit("6");
        reveal_strlit("7");
        reveal_strlit("8");
        reveal_strlit("9");
    }
    let r = if d == 0 {
        "0"
    } else if d == 1 {
        "1"
    } else if d == 2 {
        "2"
    } else if d == 3 {
        "3"
    } else if d == 4 {
        "4"
    } else if d == 5 {
        "5"
    } else if d == 6 {
        "6"
    } else if d == 7 {
        "7"
    } else if d == 8 {
        "8"
    } else {
        "9"
    };
    assert(r@ =~= seq![digit_char(d as nat)]);
    r
}

/// The decimal writing of `n` (what `n.to_string()` gives).
pub fn decimal_string(n: u64) -> (res: String)
    ensures
        res@ == decimal(n as nat),
    decreases n,
{
    if n < 10 {
        String::from_str(digit_str(n))
    } else {
        let mut s = decimal_string(n / 10);
        s.append(digit_str(n % 10));
        s
    }
}

/// Whether two texts are equal.
pub fn same_text(a: &str, b: &str) -> (res: bool)
    ensures
        res == (a@ == b@),
{
    let x = chars_of(a);
    let y = chars_of(b);
    lex_order(&x, &y) == 0
}

/// The characters that ASCII bytes stand for.
pub open spec fn ascii_text(bytes: Seq<u8>) -> Seq<char> {
    bytes.map_values(|b: u8| b as char)
}

/// Every byte is ASCII.
pub open spec fn all_ascii(bytes: Seq<u8>) -> bool {
    forall|i: int| 0 <= i < bytes.len() ==> #[trigger] bytes[i] < 128
}

/// ASCII bytes are valid UTF-8, and decode to the characters they stand for.
pub proof fn lemma_ascii_utf8(bytes: Seq<u8>)
    requires
        all_ascii(bytes),
    ensures
        valid_utf8(bytes),
        decode_utf8(bytes) == ascii_text(bytes),
        encode_utf8(ascii_text(bytes)) == bytes,
{
    let c = ascii_text(bytes);
    assert(is_ascii_chars(c)) by {
        assert forall|i: int| 0 <= i < c.len() implies '\0' <= #[trigger] c[i] <= '\u{7f}' by {
            assert(bytes[i] < 128);
        }
    }
    vstd::utf8::is_ascii_chars_encode_utf8(c);
    assert forall|i: int| 0 <= i < bytes.len() implies encode_utf8(c)[i] == bytes[i] by {
        assert(c[i] as u8 == encode_utf8(c)[i]);
        assert(bytes[i] < 128);
        let b = bytes[i];
        assert((b as char) as u8 == b);
    }
    assert(encode_utf8(c) =~= bytes);
    vstd::utf8::encode_utf8_valid_utf8(c);
    vstd::utf8::encode_utf8_decode_utf8(c);
}

/// Decodes UTF-8 bytes into a `String` (std's `String::from_utf8`): the
/// result is `Some` exactly for valid UTF-8, and then holds the decoded text.
#[verifier::external_body]
pub(crate) fn string_from_utf8(bytes: Vec<u8>) -> (res: Option<String>)
    ensures
        res is Some <==> valid_utf8(bytes@),
        res matches Some(s) ==> s@ == decode_utf8(bytes@),
{
    String::from_utf8(bytes).ok()
}

/// The text of ASCII bytes.
pub fn ascii_string(bytes: &[u8]) -> (res: String)
    requires
        all_ascii(bytes@),
    ensures
        res@ == ascii_text(bytes@),
{
    proof {
        lemma_ascii_utf8(bytes@);
    }
    let v = vstd::slice::slice_to_vec(bytes);
    match string_from_utf8(v) {
        Some(s) => s,
        None => String::new(),
    }
}

} // verus!
