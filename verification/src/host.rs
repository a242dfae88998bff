//! Facts about the host that shape the universe: a bias drawn from the host
//! name, and whether the machine runs on battery.

use vstd::prelude::*;

verus! {

/// Sum of the code points of `s`.
pub open spec fn code_point_sum(s: Seq<char>) -> nat
    decreases s.len(),
{
    if s.len() == 0 {
        0
    } else {
        code_point_sum(s.drop_last()) + s.last() as nat
    }
}

/// The code-point sum counts every character once: a name's sum is its
/// first character's code point plus the sum of the rest, and the empty
/// name sums to zero.
pub proof fn lemma_code_point_sum_counts_every_char(c: char, rest: Seq<char>)
    ensures
        code_point_sum(seq![c] + rest) == c as nat + code_point_sum(rest),
        code_point_sum(Seq::<char>::empty()) == 0,
    decreases rest.len(),
{
    if rest.len() == 0 {
        assert(seq![c] + rest =~= seq![c]);
        assert(seq![c].drop_last() =~= Seq::<char>::empty());
        assert(seq![c].last() == c);
        assert(code_point_sum(Seq::<char>::empty()) == 0);
    } else {
        lemma_code_point_sum_counts_every_char(c, rest.drop_last());
        let whole = seq![c] + rest;
        assert(whole.drop_last() =~= seq![c] + rest.drop_last());
        assert(whole.last() == rest.last());
        assert(code_point_sum(whole) == code_point_sum(whole.drop_last()) + whole.last() as nat);
        assert(code_point_sum(rest) == code_point_sum(rest.drop_last()) + rest.last() as nat);
    }
}

/// Sum of the code points of the host name; the universe takes its host bias
/// from it.
pub fn host_name_code_sum(hostname: &str) -> (sum: u32)
    requires
        code_point_sum(hostname@) <= u32::MAX,
    ensures
        sum == code_point_sum(hostname@),
{
    let n = hostname.unicode_len();
    let mut sum: u32 = 0;
    let mut i: usize = 0;
    while i < n
        invariant
            i <= n,
            n == hostname@.len(),
            code_point_sum(hostname@) <= u32::MAX,
            sum == code_point_sum(hostname@.take(i as int)),
        decreases n - i,
    {
        proof {
            assert(hostname@.take(i + 1).drop_last() =~= hostname@.take(i as int));
            lemma_prefix_sum_bounded(hostname@, i + 1);
        }
        let c = hostname.get_char(i);
        sum = sum + c as u32;
        i += 1;
    }
    assert(hostname@.take(n as int) =~= hostname@);
    sum
}

proof fn lemma_prefix_sum_bounded(s: Seq<char>, k: int)
    requires
        0 <= k <= s.len(),
    ensures
        code_point_sum(s.take(k)) <= code_point_sum(s),
    decreases s.len() - k,
{
    if k < s.len() {
        lemma_prefix_sum_bounded(s, k + 1);
        assert(s.take(k + 1).drop_last() =~= s.take(k));
    } else {
        assert(s.take(k) =~= s);
    }
}

/// `pattern` occurs in `text` starting at character `at`.
pub open spec fn occurs_at(text: Seq<char>, pattern: Seq<char>, at: int) -> bool {
    0 <= at && at + pattern.len() <= text.len() && text.subrange(at, at + pattern.len()) == pattern
}

/// Whether a power status report says the machine runs on battery: it names
/// `Battery` somewhere.
pub fn reports_battery(power_status: &str) -> (on_battery: bool)
    ensures
        on_battery == exists|at: int| occurs_at(power_status@, "Battery"@, at),
{
    let word = "Battery";
    proof {
        reveal_strlit("Battery");
    }
    let n = power_status.unicode_len();
    let m = word.unicode_len();
    if m > n {
        assert forall|at: int| !occurs_at(power_status@, "Battery"@, at) by {}
        return false;
    }
    let mut at: usize = 0;
    while at <= n - m
        invariant
            m == word@.len(),
            n == power_status@.len(),
            m <= n,
            word@ == "Battery"@,
            forall|a: int| 0 <= a < at ==> !occurs_at(power_status@, "Battery"@, a),
        decreases n - m + 1 - at,
    {
        let mut k: usize = 0;
        let mut same = true;
        while k < m
            invariant
                m == word@.len(),
                n == power_status@.len(),
                m <= n,
                at <= n - m,
                k <= m,
                same == forall|j: int| 0 <= j < k ==> power_status@[at + j] == word@[j],
            decreases m - k,
        {
            if power_status.get_char(at + k) != word.get_char(k) {
                same = false;
            }
            k += 1;
        }
        if same {
            assert(power_status@.subrange(at as int, at + m) =~= "Battery"@);
            assert(occurs_at(power_status@, "Battery"@, at as int));
            return true;
        }
        assert(!occurs_at(power_status@, "Battery"@, at as int)) by {
            let j = choose|j: int| 0 <= j < m && power_status@[at + j] != word@[j];
            assert(power_status@.subrange(at as int, at + m)[j] != word@[j]);
        }
        at += 1;
    }
    false
}

} // verus!
