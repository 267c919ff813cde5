//! Selection predicates over the label column.
//!
//! Deletion and merge selection are pushed to the storage engine as
//! SQL-style filter strings over the identifier column: `label = 7`
//! for a single row, `label IN (3, 5, 8)` for a set.  The decimal
//! rendering and the joining are verified against character-level
//! specifications, so the predicate selects exactly the labels asked
//! for.

use vstd::prelude::*;

use vstd::string::StringExecFns;

verus! {

/// The character for one decimal digit.
pub open spec fn digit_char(d: nat) -> char {
    if d == 0 {
        '0'
    } else if d == 1 {
        '1'
    } else if d == 2 {
        '2'
    } else if d == 3 {
        '3'
    } else if d == 4 {
        '4'
    } else if d == 5 {
        '5'
    } else if d == 6 {
        '6'
    } else if d == 7 {
        '7'
    } else if d == 8 {
        '8'
    } else {
        '9'
    }
}

/// The decimal digits of a natural number, most significant first.
pub open spec fn dec_digits(n: nat) -> Seq<char>
    decreases n,
{
    if n < 10 {
        seq![digit_char(n)]
    } else {
        dec_digits(n / 10).push(digit_char(n % 10))
    }
}

/// The decimal rendering of a signed number.
pub open spec fn spec_i64_str(v: int) -> Seq<char> {
    if v >= 0 {
        dec_digits(v as nat)
    } else {
        seq!['-'] + dec_digits((-v) as nat)
    }
}

/// The digit characters of a digit sequence read back to front: the
/// order in which digits are recovered least-significant first.
pub open spec fn rev_chars(digs: Seq<u64>) -> Seq<char>
    decreases digs.len(),
{
    if digs.len() == 0 {
        Seq::empty()
    } else {
        rev_chars(digs.drop_first()) + seq![digit_char(digs[0] as nat)]
    }
}

proof fn lemma_rev_chars_push(digs: Seq<u64>, d: u64)
    ensures
        rev_chars(digs.push(d)) == seq![digit_char(d as nat)] + rev_chars(digs),
    decreases digs.len(),
{
    assert(digs.push(d)[0] == if digs.len() == 0 {
        d
    } else {
        digs[0]
    });
    if digs.len() == 0 {
        let pd = digs.push(d);
        assert(pd.len() == 1);
        assert(pd[0] == d);
        assert(pd.drop_first() =~= digs);
        assert(rev_chars(pd) == rev_chars(pd.drop_first()) + seq![digit_char(pd[0] as nat)]);
        assert(rev_chars(digs.push(d)) =~= seq![digit_char(d as nat)] + rev_chars(digs));
    } else {
        assert(digs.push(d).drop_first() =~= digs.drop_first().push(d));
        lemma_rev_chars_push(digs.drop_first(), d);
        assert(rev_chars(digs.push(d)) =~= seq![digit_char(d as nat)] + rev_chars(digs));
    }
}

/// One digit as a string.
fn digit_str(d: u64) -> (r: &'static str)
    requires
        d < 10,
    ensures
        r@ == seq![digit_char(d as nat)],
{
    proof {
        reveal_strlit("0");
        reveal_strlit("1");
        reveal_strlit("2");
        reveal_strlit("3");
        reveal_strlit("4");
        reveal_strlit("5");
        reveal_strlit("6");
        reveal_strlit("7");
        reveal_strlit("8");
        reveal_strlit("9");
    }
    if d == 0 {
        "0"
    } else if d == 1 {
        "1"
    } else if d == 2 {
        "2"
    } else if d == 3 {
        "3"
    } else if d == 4 {
        "4"
    } else if d == 5 {
        "5"
    } else if d == 6 {
        "6"
    } else if d == 7 {
        "7"
    } else if d == 8 {
        "8"
    } else {
        "9"
    }
}

/// The decimal rendering of an unsigned number.
pub fn u64_to_decimal(v: u64) -> (r: String)
    ensures
        r@ == dec_digits(v as nat),
{
    let mut digs: Vec<u64> = Vec::new();
    digs.push(v % 10);
    proof {
        lemma_rev_chars_push(Seq::<u64>::empty(), v % 10);
        assert(Seq::<u64>::empty().push(v % 10) =~= digs@);
    }
    let mut x = v / 10;
    while x > 0
        invariant
            dec_digits(v as nat) == (if x > 0 {
                dec_digits(x as nat)
            } else {
                Seq::<char>::empty()
            }) + rev_chars(digs@),
            digs@.len() >= 1,
            forall|j: int| 0 <= j < digs@.len() ==> digs@[j] < 10,
        decreases x,
    {
        let d = x % 10;
        proof {
            lemma_rev_chars_push(digs@, d);
            if x >= 10 {
                assert(dec_digits(x as nat) == dec_digits((x as nat) / 10).push(
                    digit_char((x as nat) % 10),
                ));
                assert(dec_digits((x as nat) / 10).push(digit_char((x as nat) % 10)) =~= dec_digits(
                    (x as nat) / 10,
                ) + seq![digit_char((x as nat) % 10)]);
            }
        }
        digs.push(d);
        x = x / 10;
        proof {
            assert(dec_digits(v as nat) =~= (if x > 0 {
                dec_digits(x as nat)
            } else {
                Seq::<char>::empty()
            }) + rev_chars(digs@));
        }
    }
    let mut s = String::new();
    let n = digs.len();
    let mut i = n;
    while i > 0
        invariant
            0 <= i <= n,
            n == digs@.len(),
            forall|j: int| 0 <= j < digs@.len() ==> digs@[j] < 10,
            s@ == rev_chars(digs@.skip(i as int)),
        decreases i,
    {
        i = i - 1;
        proof {
            assert(digs@.skip(i as int).drop_first() =~= digs@.skip(i as int + 1));
            assert(digs@.skip(i as int)[0] == digs@[i as int]);
        }
        s.append(digit_str(digs[i]));
    }
    proof {
        assert(digs@.skip(0) =~= digs@);
    }
    s
}

/// The decimal rendering of a label.
pub fn i64_to_decimal(v: i64) -> (r: String)
    ensures
        r@ == spec_i64_str(v as int),
{
    if v >= 0 {
        u64_to_decimal(v as u64)
    } else {
        let mag: u64 = ((-(v + 1)) as u64) + 1;
        proof {
            reveal_strlit("-");
        }
        let mut s = String::from_str("-");
        let digits = u64_to_decimal(mag);
        s.append(digits.as_str());
        proof {
            assert(s@ =~= spec_i64_str(v as int));
        }
        s
    }
}

/// The predicate selecting one label.
pub open spec fn spec_eq_predicate(label: int) -> Seq<char> {
    "label = "@ + spec_i64_str(label)
}

/// The predicate string `label = N`, as handed to the storage engine
/// to delete or fetch one row.
pub fn eq_predicate(label: i64) -> (r: String)
    ensures
        r@ == spec_eq_predicate(label as int),
{
    let mut s = String::from_str("label = ");
    let digits = i64_to_decimal(label);
    s.append(digits.as_str());
    s
}

/// The comma-joined decimal renderings of a label sequence.
pub open spec fn spec_join(labels: Seq<i64>) -> Seq<char>
    decreases labels.len(),
{
    if labels.len() == 0 {
        Seq::empty()
    } else if labels.len() == 1 {
        spec_i64_str(labels[0] as int)
    } else {
        spec_join(labels.drop_last()) + ", "@ + spec_i64_str(labels.last() as int)
    }
}

/// The predicate selecting a set of labels.
pub open spec fn spec_in_predicate(labels: Seq<i64>) -> Seq<char> {
    "label IN ("@ + spec_join(labels) + ")"@
}

/// The predicate string `label IN (a, b, ...)`, as handed to the
/// storage engine to delete or copy a set of rows.
pub fn in_predicate(labels: &Vec<i64>) -> (r: String)
    ensures
        r@ == spec_in_predicate(labels@),
{
    let mut s = String::from_str("label IN (");
    let n = labels.len();
    let mut i: usize = 0;
    while i < n
        invariant
            0 <= i <= n,
            n == labels@.len(),
            s@ == "label IN ("@ + spec_join(labels@.subrange(0, i as int)),
        decreases n - i,
    {
        if i > 0 {
            s.append(", ");
        }
        let digits = i64_to_decimal(labels[i]);
        s.append(digits.as_str());
        proof {
            let part = labels@.subrange(0, i as int + 1);
            assert(part.drop_last() =~= labels@.subrange(0, i as int));
            assert(part.last() == labels@[i as int]);
            if i == 0 {
                assert(labels@.subrange(0, 0) =~= Seq::<i64>::empty());
                assert(s@ =~= "label IN ("@ + spec_join(part));
            } else {
                assert(s@ =~= "label IN ("@ + spec_join(part));
            }
        }
        i = i + 1;
    }
    proof {
        assert(labels@.subrange(0, n as int) =~= labels@);
    }
    s.append(")");
    s
}

} // verus!
