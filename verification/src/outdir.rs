//! Collision-safe output directory naming: a batch run writes into a fresh
//! directory called after a fixed base name, or, when that name is taken,
//! the base name followed by the first decimal suffix 1, 2, ... that is
//! free. A run therefore never overwrites an earlier run's output.
use vstd::prelude::*;
use vstd::string::StrSliceExecFns;
use vstd::string::StringExecFns;

verus! {

/// The character for one decimal digit.
pub open spec fn digit_char(d: int) -> char {
    ((48 + d) as char)
}

/// Decimal rendering of n, most significant digit first, without leading
/// zeros (0 renders as "0").
pub open spec fn spec_decimal(n: int) -> Seq<char>
    decreases n,
{
    if n < 10 {
        seq![digit_char(n)]
    } else {
        spec_decimal(n / 10).push(digit_char(n % 10))
    }
}

proof fn lemma_decimal_len(n: int)
    ensures
        spec_decimal(n).len() >= 1,
    decreases n,
{
    if n >= 10 {
        lemma_decimal_len(n / 10);
    }
}

proof fn lemma_decimal_injective(a: int, b: int)
    requires
        0 <= a,
        0 <= b,
        spec_decimal(a) == spec_decimal(b),
    ensures
        a == b,
    decreases a,
{
    lemma_decimal_len(a / 10);
    lemma_decimal_len(b / 10);
    if a < 10 && b < 10 {
        assert(spec_decimal(a)[0] == digit_char(a));
        assert(spec_decimal(b)[0] == digit_char(b));
        assert(digit_char(a) as u32 == 48 + a);
        assert(digit_char(b) as u32 == 48 + b);
    } else if a < 10 && b >= 10 {
        assert(spec_decimal(a).len() == 1);
        assert(spec_decimal(b).len() >= 2);
    } else if a >= 10 && b < 10 {
        assert(spec_decimal(a).len() >= 2);
        assert(spec_decimal(b).len() == 1);
    } else {
        let la = spec_decimal(a);
        assert(la.last() == digit_char(a % 10));
        assert(la.last() == digit_char(b % 10));
        assert(digit_char(a % 10) as u32 == 48 + a % 10);
        assert(digit_char(b % 10) as u32 == 48 + b % 10);
        assert(spec_decimal(a).drop_last() =~= spec_decimal(a / 10));
        assert(spec_decimal(b).drop_last() =~= spec_decimal(b / 10));
        lemma_decimal_injective(a / 10, b / 10);
        vstd::arithmetic::div_mod::lemma_fundamental_div_mod(a, 10);
        vstd::arithmetic::div_mod::lemma_fundamental_div_mod(b, 10);
    }
}

fn digit_str(d: u32) -> (r: &'static str)
    requires
        d < 10,
    ensures
        r@ == seq![digit_char(d as int)],
{
    let r: &'static str = match d {
        0 => "0",
        1 => "1",
        2 => "2",
        3 => "3",
        4 => "4",
        5 => "5",
        6 => "6",
        7 => "7",
        8 => "8",
        _ => "9",
    };
    proof {
        reveal_strlit("0");
        reveal_strlit("1");
        reveal_strlit("2");
        reveal_strlit("3");
        reveal_strlit("4");
        reveal_strlit("5");
        reveal_strlit("6");
        reveal_strlit("7");
        reveal_strlit("8");
        reveal_strlit("9");
        assert(r@ =~= seq![digit_char(d as int)]);
    }
    r
}

/// Renders n in decimal.
pub fn decimal_string(n: u32) -> (r: String)
    ensures
        r@ == spec_decimal(n as int),
    decreases n,
{
    if n < 10 {
        String::from_str(digit_str(n))
    } else {
        let mut r = decimal_string(n / 10);
        r.append(digit_str(n % 10));
        proof {
            assert(r@ =~= spec_decimal(n as int));
        }
        r
    }
}

/// The name of the k-th candidate output directory: the base name itself
/// for k = 0, and the base name followed by k in decimal afterwards.
pub open spec fn spec_target_name(base: Seq<char>, k: int) -> Seq<char> {
    if k == 0 {
        base
    } else {
        base + spec_decimal(k)
    }
}

/// Distinct candidate indices always give distinct directory names.
pub proof fn lemma_target_name_injective(base: Seq<char>, k1: int, k2: int)
    requires
        0 <= k1,
        0 <= k2,
        spec_target_name(base, k1) == spec_target_name(base, k2),
    ensures
        k1 == k2,
{
    lemma_decimal_len(k1);
    lemma_decimal_len(k2);
    if k1 == 0 && k2 != 0 {
        assert(spec_target_name(base, k2).len() > base.len());
    } else if k1 != 0 && k2 == 0 {
        assert(spec_target_name(base, k1).len() > base.len());
    } else if k1 != 0 && k2 != 0 {
        let d1 = spec_decimal(k1);
        let d2 = spec_decimal(k2);
        assert((base + d1).len() == (base + d2).len());
        assert(d1.len() == d2.len());
        assert(d1 =~= d2) by {
            assert(forall|i: int| 0 <= i < d1.len()
                ==> d1[i] == (base + d1)[base.len() + i] && d2[i] == (base + d2)[base.len() + i]);
        }
        lemma_decimal_injective(k1, k2);
    }
}

/// The k-th candidate output directory name.
pub fn target_dir_name(base: &str, k: u32) -> (r: String)
    ensures
        r@ == spec_target_name(base@, k as int),
{
    if k == 0 {
        base.to_owned()
    } else {
        let mut r = base.to_owned();
        r.append(decimal_string(k).as_str());
        r
    }
}

fn contains_name(existing: &Vec<String>, name: &String) -> (b: bool)
    ensures
        b == existing@.map_values(|s: String| s@).contains(name@),
{
    let ghost viewed = existing@.map_values(|s: String| s@);
    let mut i: usize = 0;
    while i < existing.len()
        invariant
            i <= existing@.len(),
            viewed == existing@.map_values(|s: String| s@),
            forall|j: int| 0 <= j < i ==> viewed[j] != name@,
        decreases existing@.len() - i,
    {
        if existing[i].eq(name) {
            proof {
                assert(viewed[i as int] == name@);
            }
            return true;
        }
        i += 1;
    }
    proof {
        if viewed.contains(name@) {
            let w = choose|j: int| 0 <= j < viewed.len() && viewed[j] == name@;
            assert(viewed[w] != name@);
        }
    }
    false
}

/// Picks the first candidate directory name, in the order base, base1,
/// base2, ..., that does not already exist: the returned name is fresh, and
/// every candidate before it was taken. Calling this repeatedly, each time
/// recording the returned name as existing, yields base, base1, base2, ...
pub fn allocate_output_dir(existing: &Vec<String>, base: &str) -> (name: String)
    requires
        existing@.len() < 1000000000,
    ensures
        !existing@.map_values(|s: String| s@).contains(name@),
        exists|k: int|
            {
                &&& 0 <= k
                &&& name@ == spec_target_name(base@, k)
                &&& (forall|j: int| 0 <= j < k
                    ==> existing@.map_values(|s: String| s@).contains(
                        #[trigger] spec_target_name(base@, j)))
            },
{
    let ghost viewed = existing@.map_values(|s: String| s@);
    let n = existing.len();
    let mut k: usize = 0;
    while k <= n
        invariant
            k <= n + 1,
            n == existing@.len() < 1000000000,
            viewed == existing@.map_values(|s: String| s@),
            forall|j: int| 0 <= j < k ==> viewed.contains(#[trigger] spec_target_name(base@, j)),
        decreases n + 1 - k,
    {
        let nm = target_dir_name(base, k as u32);
        if !contains_name(existing, &nm) {
            proof {
                assert(0 <= k as int && nm@ == spec_target_name(base@, k as int)
                    && (forall|j: int| 0 <= j < k as int
                        ==> viewed.contains(#[trigger] spec_target_name(base@, j))));
            }
            return nm;
        }
        k += 1;
    }
    // every one of the n + 1 pairwise-distinct candidate names was found
    // among the n existing names, which is impossible
    proof {
        let cand = Seq::new((n + 1) as nat, |j: int| spec_target_name(base@, j));
        assert(cand.no_duplicates()) by {
            assert forall|i: int, j: int| 0 <= i < cand.len() && 0 <= j < cand.len() && i != j
                implies cand[i] != cand[j] by {
                if cand[i] == cand[j] {
                    lemma_target_name_injective(base@, i, j);
                }
            }
        }
        cand.unique_seq_to_set();
        viewed.lemma_cardinality_of_set();
        broadcast use vstd::seq_lib::seq_to_set_is_finite;

        assert(cand.to_set().subset_of(viewed.to_set())) by {
            assert forall|x: Seq<char>| cand.to_set().contains(x)
                implies viewed.to_set().contains(x) by {
                let i = choose|i: int| 0 <= i < cand.len() && cand[i] == x;
                assert(viewed.contains(x));
            }
        }
        vstd::set_lib::lemma_len_subset(cand.to_set(), viewed.to_set());
        assert(false);
    }
    target_dir_name(base, 0)
}

/// What the filesystem reported for one attempt to create a directory.
pub enum CreateDirOutcome {
    /// The directory was created; the attempted name is the result.
    Created,
    /// The name is taken; the allocator moves on to the next suffix.
    AlreadyExists,
    /// Any other failure (permissions, invalid path) is fatal for the batch.
    Failed,
}

/// The allocator's next move after one creation attempt.
pub enum AllocStep {
    /// The attempted name became the output directory.
    Done,
    /// Try the candidate with this suffix index next.
    Retry(u32),
    /// Report the failure and abort the batch before fan-out.
    Fatal,
}

/// Decision rule of the directory allocator: keep the created name, retry
/// with the next suffix only on a name collision, and treat every other
/// failure as fatal.
pub fn next_allocation_step(k: u32, outcome: CreateDirOutcome) -> (s: AllocStep)
    ensures
        outcome is Created ==> s is Done,
        outcome is AlreadyExists && k < u32::MAX ==> (s matches AllocStep::Retry(k2) && k2 == k + 1),
        outcome is AlreadyExists && k == u32::MAX ==> s is Fatal,
        outcome is Failed ==> s is Fatal,
{
    match outcome {
        CreateDirOutcome::Created => AllocStep::Done,
        CreateDirOutcome::AlreadyExists => {
            if k < u32::MAX {
                AllocStep::Retry(k + 1)
            } else {
                AllocStep::Fatal
            }
        },
        CreateDirOutcome::Failed => AllocStep::Fatal,
    }
}

} // verus!
