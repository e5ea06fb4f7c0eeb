//! The naming policy for capture files:
//! `<base>_<bucket>_<disambiguator>.bin`.
use vstd::prelude::*;
use vstd::string::*;

verus! {

/// The character of a decimal digit.
pub open spec fn digit_char(d: nat) -> char {
    if d == 0 { '0' }
    else if d == 1 { '1' }
    else if d == 2 { '2' }
    else if d == 3 { '3' }
    else if d == 4 { '4' }
    else if d == 5 { '5' }
    else if d == 6 { '6' }
    else if d == 7 { '7' }
    else if d == 8 { '8' }
    else { '9' }
}

/// The decimal notation of `n`, without sign or leading zeros.
pub open spec fn decimal(n: nat) -> Seq<char>
    decreases n,
{
    if n < 10 {
        seq![digit_char(n)]
    } else {
        decimal(n / 10).push(digit_char(n % 10))
    }
}

/// `base_name + "_" + bucket`: the part of a name shared by all files opened
/// within one time bucket.
pub open spec fn name_prefix(base: Seq<char>, bucket: Seq<char>) -> Seq<char> {
    base + seq!['_'] + bucket
}

/// The full file name for a prefix and a disambiguator.
pub open spec fn file_name(prefix: Seq<char>, k: nat) -> Seq<char> {
    prefix + seq!['_'] + decimal(k) + seq!['.', 'b', 'i', 'n']
}

/// Whether `s` begins with `prefix`.
pub open spec fn has_prefix(s: Seq<char>, prefix: Seq<char>) -> bool {
    prefix.len() <= s.len() && s.subrange(0, prefix.len() as int) == prefix
}

/// The disambiguator to try first: one past the previous one when the
/// previous file name belongs to the same prefix, zero otherwise.
pub open spec fn first_disambiguator(prev: Seq<char>, prefix: Seq<char>, prev_inc: nat) -> nat {
    if has_prefix(prev, prefix) {
        prev_inc + 1
    } else {
        0
    }
}

/// Disambiguators within a time bucket count up, and start again in a new
/// one: after a file named with prefix `base_bucket1` and disambiguator `k`,
/// the next file of the same prefix tries `k + 1` first, and a file of
/// another bucket label of the same width tries `0` first.
pub proof fn disambiguator_progression(base: Seq<char>, b1: Seq<char>, b2: Seq<char>, k: nat)
    ensures
        first_disambiguator(file_name(name_prefix(base, b1), k), name_prefix(base, b1), k) == k + 1,
        b1.len() == b2.len() && b1 != b2 ==> first_disambiguator(
            file_name(name_prefix(base, b1), k),
            name_prefix(base, b2),
            k,
        ) == 0,
{
    let p1 = name_prefix(base, b1);
    let p2 = name_prefix(base, b2);
    let prev = file_name(p1, k);
    assert(prev.subrange(0, p1.len() as int) =~= p1);
    if b1.len() == b2.len() && b1 != b2 && has_prefix(prev, p2) {
        assert(p1 == p2);
        assert(p1.subrange(base.len() + 1int, p1.len() as int) =~= b1);
        assert(p2.subrange(base.len() + 1int, p2.len() as int) =~= b2);
    }
}

/// The one-character text of the decimal digit `d`.
fn digit_text(d: u32) -> (r: &'static str)
    requires
        d < 10,
    ensures
        r@ == seq![digit_char(d as nat)],
{
    proof {
        reveal_strlit("0");
        reveal_strlit("1");
        reveal_strlit("2");
        reveal_strlit("3");
        reveal_strlit("4");
        reveal_strlit("5");
        reveal_strlit("6");
        reveal_strlit("7");
        reveal_strlit("8");
        reveal_strlit("9");
    }
    let r = if d == 0 { "0" }
    else if d == 1 { "1" }
    else if d == 2 { "2" }
    else if d == 3 { "3" }
    else if d == 4 { "4" }
    else if d == 5 { "5" }
    else if d == 6 { "6" }
    else if d == 7 { "7" }
    else if d == 8 { "8" }
    else { "9" };
    assert(r@ =~= seq![digit_char(d as nat)]);
    r
}

/// Appends the decimal digits of `n` to `s`.
fn push_decimal_text(s: &mut String, n: u32)
    ensures
        final(s)@ == old(s)@ + decimal(n as nat),
    decreases n,
{
    if n >= 10 {
        push_decimal_text(s, n / 10);
    }
    s.append(digit_text(n % 10));
    proof {
        if n >= 10 {
            assert(decimal(n as nat) == decimal((n / 10) as nat).push(digit_char((n % 10) as nat)));
        }
        assert(s@ =~= old(s)@ + decimal(n as nat));
    }
}

/// Whether `s` begins with `prefix`.
pub fn starts_with(s: &String, prefix: &String) -> (r: bool)
    ensures
        r == has_prefix(s@, prefix@),
{
    let n = prefix.as_str().unicode_len();
    let m = s.as_str().unicode_len();
    if n > m {
        return false;
    }
    let mut i: usize = 0;
    while i < n
        invariant
            n == prefix@.len(),
            m == s@.len(),
            n <= m,
            i <= n,
            forall|j: int| 0 <= j < i ==> s@[j] == prefix@[j],
        decreases n - i,
    {
        if s.as_str().get_char(i) != prefix.as_str().get_char(i) {
            assert(s@.subrange(0, n as int)[i as int] != prefix@[i as int]);
            return false;
        }
        i = i + 1;
    }
    assert(s@.subrange(0, n as int) =~= prefix@);
    true
}

/// `base + "_" + bucket`.
pub fn make_prefix(base: &String, bucket: &String) -> (r: String)
    ensures
        r@ == name_prefix(base@, bucket@),
{
    let mut r = base.clone();
    r.append("_");
    r.append(bucket.as_str());
    proof {
        reveal_strlit("_");
    }
    r
}

/// The file name for `prefix` and disambiguator `k`.
pub fn make_file_name(prefix: &String, k: u32) -> (r: String)
    ensures
        r@ == file_name(prefix@, k as nat),
{
    let mut r = prefix.clone();
    r.append("_");
    push_decimal_text(&mut r, k);
    r.append(".bin");
    proof {
        reveal_strlit("_");
        reveal_strlit(".bin");
        assert(r@ =~= file_name(prefix@, k as nat));
    }
    r
}

/// Whether the existence check `taken` may have reported the file name for
/// `prefix` and `k` as already in use.
pub open spec fn reported_taken<F: Fn(&String) -> bool>(taken: F, prefix: Seq<char>, k: nat) -> bool {
    exists|n: String| n@ == file_name(prefix, k) && #[trigger] taken.ensures((&n,), true)
}

/// Tries the disambiguators from `start` upwards until `taken` reports a
/// name free, and returns that name with its disambiguator; `None` when
/// every disambiguator up to `u32::MAX` was reported taken.
pub fn choose_name<F: Fn(&String) -> bool>(prefix: &String, start: u32, taken: &F) -> (r: Option<(String, u32)>)
    requires
        forall|s: &String| taken.requires((s,)),
    ensures
        r matches Some((name, k)) ==> {
            &&& start <= k
            &&& name@ == file_name(prefix@, k as nat)
            &&& taken.ensures((&name,), false)
            &&& forall|j: nat| start <= j < k ==> reported_taken(*taken, prefix@, j)
        },
        r is None ==> forall|j: nat| start <= j <= u32::MAX ==> reported_taken(*taken, prefix@, j),
{
    let mut k: u32 = start;
    loop
        invariant
            forall|s: &String| taken.requires((s,)),
            start <= k,
            forall|j: nat| start <= j < k ==> reported_taken(*taken, prefix@, j),
        decreases u32::MAX - k,
    {
        let name = make_file_name(prefix, k);
        let in_use = taken(&name);
        if !in_use {
            return Some((name, k));
        }
        assert(reported_taken(*taken, prefix@, k as nat));
        if k == u32::MAX {
            return None;
        }
        k = k + 1;
    }
}

} // verus!
