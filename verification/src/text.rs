//! Building the texts of messages and labels.
use vstd::prelude::*;

verus! {

/// The characters of `s` as Rust's `Debug` formatting of a string writes them:
/// quoted, with special characters escaped.
pub uninterp spec fn debug_quoted(s: Seq<char>) -> Seq<char>;

/// Formats a string with Rust's `Debug` formatting (`format!("{:?}", s)`). The contract
/// names the result and states nothing of its characters.
#[verifier::external_body]
pub fn quote_debug(s: &String) -> (r: String)
    ensures
        r@ == debug_quoted(s@),
{
    format!("{:?}", s)
}

/// Concatenates three pieces of text.
pub fn text3(a: &str, b: &String, c: &str) -> (r: String)
    ensures
        r@ == a@ + b@ + c@,
{
    let mut r = String::new();
    r.append(a);
    r.append(b.as_str());
    r.append(c);
    r
}

/// Copies a piece of text into a new string.
pub fn text(a: &str) -> (r: String)
    ensures
        r@ == a@,
{
    let mut r = String::new();
    r.append(a);
    assert(r@ =~= a@);
    r
}

/// The decimal digit for a value below ten.
pub open spec fn digit_char(d: nat) -> char {
    if d == 0 { '0' } else if d == 1 { '1' } else if d == 2 { '2' } else if d == 3 { '3' } else if d == 4 { '4' }
    else if d == 5 { '5' } else if d == 6 { '6' } else if d == 7 { '7' } else if d == 8 { '8' } else { '9' }
}

/// The decimal notation of a natural number, without leading zeros.
pub open spec fn decimal(n: nat) -> Seq<char>
    decreases n,
{
    if n < 10 {
        seq![digit_char(n)]
    } else {
        decimal(n / 10).push(digit_char(n % 10))
    }
}

fn digit(d: usize) -> (c: &'static str)
    requires
        d < 10,
    ensures
        c@ == seq![digit_char(d as nat)],
{
    proof {
        reveal_strlit("0");
        reveal_strlit("1");
        reveal_strlit("2");
        reveal_strlit("3");
        reveal_strlit("4");
        reveal_strlit("5");
        reveal_strlit("6");
        reveal_strlit("7");
        reveal_strlit("8");
        reveal_strlit("9");
    }
    if d == 0 { "0" } else if d == 1 { "1" } else if d == 2 { "2" } else if d == 3 { "3" } else if d == 4 { "4" }
    else if d == 5 { "5" } else if d == 6 { "6" } else if d == 7 { "7" } else if d == 8 { "8" } else { "9" }
}

/// Writes a number in decimal.
pub fn usize_text(n: usize) -> (r: String)
    ensures
        r@ == decimal(n as nat),
    decreases n,
{
    if n < 10 {
        let mut r = String::new();
        r.append(digit(n));
        assert(r@ =~= seq![digit_char(n as nat)]);
        r
    } else {
        let mut r = usize_text(n / 10);
        r.append(digit(n % 10));
        assert(r@ =~= decimal(n as nat));
        r
    }
}

/// The decimal notation of an integer, with a leading `-` when it is negative.
pub open spec fn signed_decimal(n: int) -> Seq<char> {
    if n < 0 {
        "-"@ + decimal((-n) as nat)
    } else {
        decimal(n as nat)
    }
}

/// Writes a signed number in decimal.
pub fn i32_text(n: i32) -> (r: String)
    ensures
        r@ == signed_decimal(n as int),
{
    if n < 0 {
        let magnitude: i64 = -(n as i64);
        let digits = usize_text(magnitude as usize);
        let r = text3("-", &digits, "");
        proof {
            reveal_strlit("");
        }
        assert(r@ =~= signed_decimal(n as int));
        r
    } else {
        usize_text(n as usize)
    }
}

/// `a` and `b` agree on their first `n` characters.
pub open spec fn common_prefix(a: Seq<char>, b: Seq<char>, n: int) -> bool {
    forall|j: int| 0 <= j < n ==> a[j] == b[j]
}

/// `n` is where `a` first sorts before `b`: they agree up to `n`, and there `a` ends
/// while `b` goes on, or `a` has the smaller character.
pub open spec fn lt_at(a: Seq<char>, b: Seq<char>, n: int) -> bool {
    &&& 0 <= n <= a.len()
    &&& n <= b.len()
    &&& common_prefix(a, b, n)
    &&& ((n == a.len() && n < b.len()) || (n < a.len() && n < b.len() && a[n] < b[n]))
}

/// Lexicographic order of texts by code point, the order of Rust's `String`.
pub open spec fn text_lt(a: Seq<char>, b: Seq<char>) -> bool {
    exists|n: int| #[trigger] lt_at(a, b, n)
}

proof fn lemma_first_difference(a: Seq<char>, b: Seq<char>, n: int)
    requires
        0 <= n <= a.len(),
        n <= b.len(),
        common_prefix(a, b, n),
    ensures
        a == b || text_lt(a, b) || text_lt(b, a),
    decreases a.len() - n,
{
    if n == a.len() {
        if n == b.len() {
            assert(a =~= b);
        } else {
            assert(lt_at(a, b, n));
        }
    } else if n == b.len() {
        assert(lt_at(b, a, n));
    } else if a[n] == b[n] {
        lemma_first_difference(a, b, n + 1);
    } else if a[n] < b[n] {
        assert(lt_at(a, b, n));
    } else {
        
        assert(lt_at(b, a, n));
    }
}

/// Any two texts are equal or one sorts before the other.
pub proof fn lemma_text_total(a: Seq<char>, b: Seq<char>)
    ensures
        a == b || text_lt(a, b) || text_lt(b, a),
{
    lemma_first_difference(a, b, 0);
}

/// No text sorts before itself, and no two texts sort before each other.
pub proof fn lemma_text_asymmetric(a: Seq<char>, b: Seq<char>)
    ensures
        !(text_lt(a, b) && text_lt(b, a)),
{
    if text_lt(a, b) && text_lt(b, a) {
        let i = choose|i: int| lt_at(a, b, i);
        let j = choose|j: int| lt_at(b, a, j);
        if i < j {
            assert(b[i] == a[i]);
        } else if j < i {
            assert(a[j] == b[j]);
        }
    }
}

/// Sorting before is transitive.
pub proof fn lemma_text_transitive(a: Seq<char>, b: Seq<char>, c: Seq<char>)
    requires
        text_lt(a, b),
        text_lt(b, c),
    ensures
        text_lt(a, c),
{
    let i = choose|i: int| lt_at(a, b, i);
    let j = choose|j: int| lt_at(b, c, j);
    if i < j {
        assert(b[i] == c[i]);
        assert(lt_at(a, c, i));
    } else if j < i {
        assert(a[j] == b[j]);
        assert(lt_at(a, c, j));
    } else {
        assert(lt_at(a, c, i));
    }
}

/// Whether text `a` sorts before text `b`.
pub fn text_less(a: &String, b: &String) -> (r: bool)
    ensures
        r == text_lt(a@, b@),
{
    let sa = a.as_str();
    let sb = b.as_str();
    let la = sa.unicode_len();
    let lb = sb.unicode_len();
    let mut i: usize = 0;
    while i < la && i < lb
        invariant
            la == a@.len(),
            lb == b@.len(),
            sa@ == a@,
            sb@ == b@,
            i <= la,
            i <= lb,
            common_prefix(a@, b@, i as int),
        decreases la - i,
    {
        let ca = sa.get_char(i);
        let cb = sb.get_char(i);
        if ca < cb {
            assert(lt_at(a@, b@, i as int));
            return true;
        }
        if ca != cb {
            proof {
                assert(lt_at(b@, a@, i as int));
                lemma_text_asymmetric(a@, b@);
            }
            return false;
        }
        i += 1;
    }
    if la < lb {
        assert(lt_at(a@, b@, i as int));
        true
    } else {
        proof {
            if text_lt(a@, b@) {
                let n = choose|n: int| lt_at(a@, b@, n);
                if n < i {
                } else {
                    assert(n == i);
                }
            }
        }
        false
    }
}

} // verus!
