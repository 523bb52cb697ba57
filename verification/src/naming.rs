//! Deterministic service names for orchestrated compute processes.
//!
//! The replica name is a pure, injective function of the instance and
//! replica identifiers, so that distinct replicas can never collide in the
//! orchestrator's namespace. It is exposed standalone so other layers can
//! pre-validate uniqueness.

use vstd::prelude::*;

verus! {

broadcast use vstd::seq::group_seq_axioms;

/// The decimal digit character for `d`.
pub open spec fn digit_char(d: int) -> char
    recommends
        0 <= d < 10,
{
    if d == 0 {
        '0'
    } else if d == 1 {
        '1'
    } else if d == 2 {
        '2'
    } else if d == 3 {
        '3'
    } else if d == 4 {
        '4'
    } else if d == 5 {
        '5'
    } else if d == 6 {
        '6'
    } else if d == 7 {
        '7'
    } else if d == 8 {
        '8'
    } else {
        '9'
    }
}

pub open spec fn is_digit_char(c: char) -> bool {
    c == '0' || c == '1' || c == '2' || c == '3' || c == '4' || c == '5' || c == '6' || c == '7'
        || c == '8' || c == '9'
}

/// The decimal digits of `n`, most significant first.
pub open spec fn dec_digits(n: nat) -> Seq<char>
    decreases n,
{
    if n < 10 {
        seq![digit_char(n as int)]
    } else {
        dec_digits(n / 10).push(digit_char((n % 10) as int))
    }
}

pub proof fn lemma_dec_digits_len(n: nat)
    ensures
        dec_digits(n).len() >= 1,
        n >= 10 ==> dec_digits(n).len() >= 2,
    decreases n,
{
    if n >= 10 {
        lemma_dec_digits_len(n / 10);
    }
}

pub proof fn lemma_dec_digits_are_digits(n: nat)
    ensures
        forall|i: int| 0 <= i < dec_digits(n).len() ==> is_digit_char(#[trigger] dec_digits(n)[i]),
    decreases n,
{
    if n < 10 {
        assert(is_digit_char(digit_char(n as int)));
    } else {
        lemma_dec_digits_are_digits(n / 10);
        let d = dec_digits(n / 10);
        let c = digit_char((n % 10) as int);
        assert forall|i: int| 0 <= i < dec_digits(n).len() implies is_digit_char(
            #[trigger] dec_digits(n)[i],
        ) by {
            assert(dec_digits(n) == d.push(c));
            assert(dec_digits(n).len() == d.len() + 1);
            if i < d.len() {
                assert(dec_digits(n)[i] == d[i]);
            } else {
                assert(dec_digits(n)[i] == c);
                assert(0 <= n % 10 < 10);
            }
        }
    }
}

/// Distinct numbers have distinct decimal representations.
pub proof fn lemma_dec_digits_injective(m: nat, n: nat)
    requires
        dec_digits(m) == dec_digits(n),
    ensures
        m == n,
    decreases m,
{
    lemma_dec_digits_len(m);
    lemma_dec_digits_len(n);
    if m < 10 && n < 10 {
        assert(dec_digits(m) == seq![digit_char(m as int)]);
        assert(dec_digits(n) == seq![digit_char(n as int)]);
        assert(seq![digit_char(m as int)][0] == digit_char(m as int));
        assert(seq![digit_char(n as int)][0] == digit_char(n as int));
        assert(dec_digits(m)[0] == dec_digits(n)[0]);
        assert(digit_char(m as int) == digit_char(n as int));
        assert(m == n);
    } else if m >= 10 && n >= 10 {
        let dm = dec_digits(m / 10);
        let dn = dec_digits(n / 10);
        let x = digit_char((m % 10) as int);
        let y = digit_char((n % 10) as int);
        let pm = dm.push(x);
        let pn = dn.push(y);
        assert(pm == pn);
        assert(pm.len() == dm.len() + 1);
        assert(pn.len() == dn.len() + 1);
        assert(dm.len() == dn.len());
        assert forall|i: int| 0 <= i < dm.len() implies dm[i] == dn[i] by {
            assert(pm[i] == dm[i]);
            assert(pn[i] == dn[i]);
        }
        assert(dm =~= dn);
        lemma_dec_digits_injective(m / 10, n / 10);
        assert(pm[pm.len() - 1] == x);
        assert(pn[pn.len() - 1] == y);
        assert(x == y);
        assert(m % 10 == n % 10);
        assert(m == 10 * (m / 10) + m % 10) by {
            vstd::arithmetic::div_mod::lemma_fundamental_div_mod(m as int, 10);
        }
        assert(n == 10 * (n / 10) + n % 10) by {
            vstd::arithmetic::div_mod::lemma_fundamental_div_mod(n as int, 10);
        }
        assert(m == n);
    } else {
        // one is a single digit and the other has at least two
        assert(dec_digits(m).len() == dec_digits(n).len());
        assert(false);
    }
}

/// The name under which a replica's service is registered with the
/// orchestrator.
pub open spec fn replica_service_name_spec(instance: nat, replica: nat) -> Seq<char> {
    "cluster-"@ + dec_digits(instance) + "-replica-"@ + dec_digits(replica)
}

/// The name of an instance's aggregate orchestrator service.
pub open spec fn instance_service_name_spec(instance: nat) -> Seq<char> {
    "cluster-"@ + dec_digits(instance)
}

fn digit_str(d: u64) -> (s: &'static str)
    requires
        d < 10,
    ensures
        s@ =~= seq![digit_char(d as int)],
{
    proof {
        reveal_strlit("0");
        reveal_strlit("1");
        reveal_strlit("2");
        reveal_strlit("3");
        reveal_strlit("4");
        reveal_strlit("5");
        reveal_strlit("6");
        reveal_strlit("7");
        reveal_strlit("8");
        reveal_strlit("9");
    }
    if d == 0 {
        "0"
    } else if d == 1 {
        "1"
    } else if d == 2 {
        "2"
    } else if d == 3 {
        "3"
    } else if d == 4 {
        "4"
    } else if d == 5 {
        "5"
    } else if d == 6 {
        "6"
    } else if d == 7 {
        "7"
    } else if d == 8 {
        "8"
    } else {
        "9"
    }
}

/// Renders a number in decimal.
pub fn u64_to_string(n: u64) -> (s: String)
    ensures
        s@ == dec_digits(n as nat),
    decreases n,
{
    if n < 10 {
        String::from_str(digit_str(n))
    } else {
        let mut s = u64_to_string(n / 10);
        s.append(digit_str(n % 10));
        proof {
            assert(s@ =~= dec_digits((n / 10) as nat).push(digit_char((n % 10) as int)));
        }
        s
    }
}

/// Deterministically generates a replica's service name from its
/// identifiers. Distinct identifier pairs always map to distinct names, so
/// other layers can rely on orchestrator names never colliding.
pub fn generate_replica_service_name(instance_id: u64, replica_id: u64) -> (name: String)
    ensures
        name@ == replica_service_name_spec(instance_id as nat, replica_id as nat),
{
    let mut name = String::from_str("cluster-");
    let inst = u64_to_string(instance_id);
    name.append(inst.as_str());
    name.append("-replica-");
    let repl = u64_to_string(replica_id);
    name.append(repl.as_str());
    proof {
        assert(name@ =~= replica_service_name_spec(instance_id as nat, replica_id as nat));
    }
    name
}

/// The name of the aggregate service an instance registers with the
/// orchestrator.
pub fn generate_instance_service_name(instance_id: u64) -> (name: String)
    ensures
        name@ == instance_service_name_spec(instance_id as nat),
{
    let mut name = String::from_str("cluster-");
    let inst = u64_to_string(instance_id);
    name.append(inst.as_str());
    name
}

/// Splitting a name of shape `prefix ++ digits ++ sep ++ digits` is
/// unambiguous: if two such names agree, the digit runs agree. The
/// separator begins with a character that is not a digit, so the first
/// digit run cannot silently absorb part of the other name's separator.
proof fn lemma_digit_run_split(a1: Seq<char>, b1: Seq<char>, a2: Seq<char>, b2: Seq<char>, sep: Seq<char>)
    requires
        a1 + sep + b1 == a2 + sep + b2,
        sep.len() >= 1,
        !is_digit_char(sep[0]),
        forall|i: int| 0 <= i < a1.len() ==> is_digit_char(#[trigger] a1[i]),
        forall|i: int| 0 <= i < a2.len() ==> is_digit_char(#[trigger] a2[i]),
    ensures
        a1 == a2,
        b1 == b2,
{
    let s1 = a1 + sep + b1;
    let s2 = a2 + sep + b2;
    if a1.len() < a2.len() {
        let k = a1.len() as int;
        assert(s1[k] == sep[0]);
        assert(s2[k] == a2[k]);
        assert(is_digit_char(a2[k]));
        assert(false);
    }
    if a2.len() < a1.len() {
        let k = a2.len() as int;
        assert(s2[k] == sep[0]);
        assert(s1[k] == a1[k]);
        assert(is_digit_char(a1[k]));
        assert(false);
    }
    assert(a1 =~= a2) by {
        assert(forall|i: int| 0 <= i < a1.len() ==> s1[i] == #[trigger] a1[i]);
        assert(forall|i: int| 0 <= i < a2.len() ==> s2[i] == #[trigger] a2[i]);
    }
    assert(b1 =~= b2) by {
        assert(forall|i: int|
            0 <= i < b1.len() ==> s1[a1.len() + sep.len() + i] == #[trigger] b1[i]);
        assert(forall|i: int|
            0 <= i < b2.len() ==> s2[a2.len() + sep.len() + i] == #[trigger] b2[i]);
        assert(s1.len() == a1.len() + sep.len() + b1.len());
        assert(s2.len() == a2.len() + sep.len() + b2.len());
        assert(b1.len() == b2.len());
    }
}

/// The replica naming function is injective: distinct `(instance, replica)`
/// pairs always receive distinct service names.
pub proof fn lemma_replica_service_name_injective(i1: nat, r1: nat, i2: nat, r2: nat)
    requires
        replica_service_name_spec(i1, r1) == replica_service_name_spec(i2, r2),
    ensures
        i1 == i2,
        r1 == r2,
{
    reveal_strlit("cluster-");
    reveal_strlit("-replica-");
    let p = "cluster-"@;
    let sep = "-replica-"@;
    let s1 = p + dec_digits(i1) + sep + dec_digits(r1);
    let s2 = p + dec_digits(i2) + sep + dec_digits(r2);
    assert(s1 == s2);
    let t1 = dec_digits(i1) + sep + dec_digits(r1);
    let t2 = dec_digits(i2) + sep + dec_digits(r2);
    assert(t1 =~= t2) by {
        assert(s1 =~= p + t1);
        assert(s2 =~= p + t2);
        assert(forall|i: int| 0 <= i < t1.len() ==> (p + t1)[p.len() + i] == #[trigger] t1[i]);
        assert(forall|i: int| 0 <= i < t2.len() ==> (p + t2)[p.len() + i] == #[trigger] t2[i]);
        assert(t1.len() == t2.len());
    }
    lemma_dec_digits_are_digits(i1);
    lemma_dec_digits_are_digits(i2);
    assert(!is_digit_char(sep[0]));
    lemma_digit_run_split(dec_digits(i1), dec_digits(r1), dec_digits(i2), dec_digits(r2), sep);
    lemma_dec_digits_injective(i1, i2);
    lemma_dec_digits_injective(r1, r2);
}

} // verus!
