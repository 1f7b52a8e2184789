//! Small text utilities: string-slice equality and decimal rendering.

use vstd::prelude::*;

use vstd::string::StrSliceExecFns;
use vstd::string::StringExecFns;

verus! {

/// Relies on std's `str` equality: two string slices compare equal exactly
/// when their character sequences do.
#[verifier::external_body]
pub(crate) fn str_eq(a: &str, b: &str) -> (r: bool)
    ensures
        r == (a@ == b@),
{
    a == b
}

/// Whether `n` occurs as a contiguous run inside `h`.
pub open spec fn has_subrange(h: Seq<u8>, n: Seq<u8>) -> bool {
    exists|i: int|
        0 <= i && i + n.len() <= h.len() && #[trigger] h.subrange(i, i + n.len() as int) == n
}

/// Searches `haystack` for `needle` as a contiguous byte run.
pub fn contains_bytes(haystack: &[u8], needle: &[u8]) -> (r: bool)
    ensures
        r == has_subrange(haystack@, needle@),
{
    if needle.len() > haystack.len() {
        proof {
            assert(!has_subrange(haystack@, needle@));
        }
        return false;
    }
    if needle.len() == 0 {
        proof {
            assert(haystack@.subrange(0, 0 + needle@.len() as int) =~= needle@);
        }
        return true;
    }
    let mut i: usize = 0;
    while i <= haystack.len() - needle.len()
        invariant
            haystack@.len() <= usize::MAX,
            1 <= needle@.len() <= haystack@.len(),
            0 <= i <= haystack@.len() - needle@.len() + 1,
            forall|k: int|
                0 <= k < i ==> #[trigger] haystack@.subrange(k, k + needle@.len() as int)
                    != needle@,
        decreases haystack@.len() - needle@.len() - i + 1,
    {
        let mut j: usize = 0;
        let mut matched: bool = true;
        while j < needle.len()
            invariant_except_break
                matched,
            invariant
                haystack@.len() <= usize::MAX,
                0 <= j <= needle@.len(),
                i + needle@.len() <= haystack@.len(),
                forall|k: int| 0 <= k < j ==> haystack@[i + k] == #[trigger] needle@[k],
            ensures
                i + needle@.len() <= haystack@.len(),
                matched ==> (j == needle@.len() && forall|k: int|
                    0 <= k < j ==> haystack@[i + k] == #[trigger] needle@[k]),
                !matched ==> haystack@.subrange(i as int, i + needle@.len() as int) != needle@,
            decreases needle@.len() - j,
        {
            if haystack[i + j] != needle[j] {
                proof {
                    assert(haystack@.subrange(i as int, i + needle@.len() as int)[j as int]
                        != needle@[j as int]);
                }
                matched = false;
                break ;
            }
            j = j + 1;
        }
        if matched {
            proof {
                assert(haystack@.subrange(i as int, i + needle@.len()) =~= needle@);
            }
            return true;
        }
        i = i + 1;
    }
    proof {
        assert forall|k: int| 0 <= k && k + needle@.len() <= haystack@.len() implies #[trigger] haystack@
            .subrange(k, k + needle@.len() as int) != needle@ by {
            assert(k < i);
        }
    }
    false
}

/// The whitespace the filter trimming removes.
pub open spec fn is_plain_ws(c: char) -> bool {
    c == ' ' || c == '\t' || c == '\n' || c == '\r'
}

/// `s` without its leading whitespace.
pub open spec fn trim_front(s: Seq<char>) -> Seq<char>
    decreases s.len(),
{
    if s.len() > 0 && is_plain_ws(s[0]) {
        trim_front(s.drop_first())
    } else {
        s
    }
}

/// `s` without its trailing whitespace.
pub open spec fn trim_back(s: Seq<char>) -> Seq<char>
    decreases s.len(),
{
    if s.len() > 0 && is_plain_ws(s.last()) {
        trim_back(s.drop_last())
    } else {
        s
    }
}

/// `s` without surrounding whitespace.
pub open spec fn spec_trimmed(s: Seq<char>) -> Seq<char> {
    trim_back(trim_front(s))
}

/// Dropping a whitespace prefix is what `trim_front` does.
pub proof fn lemma_trim_front_at(s: Seq<char>, a: int)
    requires
        0 <= a <= s.len(),
        forall|i: int| 0 <= i < a ==> is_plain_ws(#[trigger] s[i]),
        a < s.len() ==> !is_plain_ws(s[a]),
    ensures
        trim_front(s) == s.skip(a),
    decreases a,
{
    if a == 0 {
        assert(s.skip(0) =~= s);
    } else {
        assert(is_plain_ws(s[0]));
        let rest = s.drop_first();
        assert(forall|i: int| 0 <= i < a - 1 ==> is_plain_ws(#[trigger] rest[i]));
        lemma_trim_front_at(rest, a - 1);
        assert(rest.skip(a - 1) =~= s.skip(a));
    }
}

/// Dropping a whitespace suffix is what `trim_back` does.
pub proof fn lemma_trim_back_at(s: Seq<char>, b: int)
    requires
        0 <= b <= s.len(),
        forall|i: int| b <= i < s.len() ==> is_plain_ws(#[trigger] s[i]),
        b > 0 ==> !is_plain_ws(s[b - 1]),
    ensures
        trim_back(s) == s.take(b),
    decreases s.len() - b,
{
    if b == s.len() {
        if s.len() > 0 && is_plain_ws(s.last()) {
            assert(false);
        }
        assert(s.take(b) =~= s);
    } else {
        assert(is_plain_ws(s.last()));
        let front = s.drop_last();
        assert(forall|i: int| b <= i < front.len() ==> is_plain_ws(#[trigger] front[i]));
        lemma_trim_back_at(front, b);
        assert(front.take(b) =~= s.take(b));
    }
}

/// Whether `c` is one of the characters the trimming removes.
fn is_ws_exec(c: char) -> (r: bool)
    ensures
        r == is_plain_ws(c),
{
    c == ' ' || c == '\t' || c == '\n' || c == '\r'
}

/// `text` without surrounding whitespace.
pub fn trimmed(text: &str) -> (r: &str)
    ensures
        r@ == spec_trimmed(text@),
{
    let n = text.unicode_len();
    let mut a: usize = 0;
    while a < n && is_ws_exec(text.get_char(a))
        invariant
            n == text@.len(),
            0 <= a <= n,
            forall|i: int| 0 <= i < a ==> is_plain_ws(#[trigger] text@[i]),
        decreases n - a,
    {
        a = a + 1;
    }
    proof {
        lemma_trim_front_at(text@, a as int);
    }
    if a == n {
        proof {
            assert(text@.skip(a as int) =~= Seq::<char>::empty());
            assert(trim_back(Seq::<char>::empty()) == Seq::<char>::empty());
        }
        let r = text.substring_char(a, n);
        proof {
            assert(r@ =~= spec_trimmed(text@));
        }
        return r;
    }
    let mut b: usize = n;
    while b > a && is_ws_exec(text.get_char(b - 1))
        invariant
            n == text@.len(),
            0 <= a <= b <= n,
            forall|i: int| b <= i < n ==> is_plain_ws(#[trigger] text@[i]),
        decreases b,
    {
        b = b - 1;
    }
    proof {
        assert(!is_plain_ws(text@[a as int]));
        assert(b > a);
        assert(!is_plain_ws(text@[b - 1]));
        let tf = text@.skip(a as int);
        assert(forall|i: int|
            b - a <= i < tf.len() ==> is_plain_ws(#[trigger] tf[i]));
        assert(tf[b - a - 1] == text@[b - 1]);
        lemma_trim_back_at(tf, b - a);
        assert(tf.take(b - a) =~= text@.subrange(a as int, b as int));
    }
    text.substring_char(a, b)
}

/// The character for one decimal digit.
pub open spec fn dec_digit(d: int) -> char {
    if d == 0 {
        '0'
    } else if d == 1 {
        '1'
    } else if d == 2 {
        '2'
    } else if d == 3 {
        '3'
    } else if d == 4 {
        '4'
    } else if d == 5 {
        '5'
    } else if d == 6 {
        '6'
    } else if d == 7 {
        '7'
    } else if d == 8 {
        '8'
    } else {
        '9'
    }
}

/// The usual decimal rendering of a number, no leading zeroes.
pub open spec fn spec_dec(n: nat) -> Seq<char>
    decreases n,
{
    if n < 10 {
        seq![dec_digit(n as int)]
    } else {
        spec_dec(n / 10).push(dec_digit((n % 10) as int))
    }
}

/// One decimal digit as a string.
fn digit_str(d: u64) -> (r: String)
    requires
        d < 10,
    ensures
        r@ == seq![dec_digit(d as int)],
{
    let s: &str = if d == 0 {
        "0"
    } else if d == 1 {
        "1"
    } else if d == 2 {
        "2"
    } else if d == 3 {
        "3"
    } else if d == 4 {
        "4"
    } else if d == 5 {
        "5"
    } else if d == 6 {
        "6"
    } else if d == 7 {
        "7"
    } else if d == 8 {
        "8"
    } else {
        "9"
    };
    proof {
        reveal_strlit("0");
        reveal_strlit("1");
        reveal_strlit("2");
        reveal_strlit("3");
        reveal_strlit("4");
        reveal_strlit("5");
        reveal_strlit("6");
        reveal_strlit("7");
        reveal_strlit("8");
        reveal_strlit("9");
        assert(s@ =~= seq![dec_digit(d as int)]);
    }
    s.to_owned()
}

/// Renders a number in decimal.
pub fn u64_to_string(n: u64) -> (r: String)
    ensures
        r@ == spec_dec(n as nat),
    decreases n,
{
    if n < 10 {
        digit_str(n)
    } else {
        let head = u64_to_string(n / 10);
        let tail = digit_str(n % 10);
        let out = head.concat(tail.as_str());
        proof {
            assert(out@ =~= spec_dec((n / 10) as nat).push(dec_digit((n % 10) as int)));
        }
        out
    }
}

/// Renders a machine-sized number in decimal.
pub fn usize_to_string(n: usize) -> (r: String)
    ensures
        r@ == spec_dec(n as nat),
{
    u64_to_string(n as u64)
}

} // verus!
