//! The numeric `(major, minor, patch)` parts of a version text.
use vstd::prelude::*;

verus! {

/// Whether `c` is an ASCII decimal digit.
pub open spec fn is_digit(c: char) -> bool {
    '0' <= c && c <= '9'
}

/// The value of an ASCII decimal digit.
pub open spec fn digit_value(c: char) -> nat {
    (c as nat - '0' as nat) as nat
}

/// The pieces of `s` between the dots (`"1.2"` has the pieces `"1"` and
/// `"2"`; every text has at least one piece).
pub open spec fn fields(s: Seq<char>) -> Seq<Seq<char>>
    decreases s.len(),
{
    if s.len() == 0 {
        seq![seq![]]
    } else {
        let rest = fields(s.drop_last());
        if s.last() == '.' {
            rest.push(seq![])
        } else {
            rest.update(rest.len() - 1, rest.last().push(s.last()))
        }
    }
}

/// Scans the leading digits of `f`: whether all of `f` is digits, the value
/// of the leading digits and their number.
pub open spec fn digit_scan(f: Seq<char>) -> (bool, nat, nat)
    decreases f.len(),
{
    if f.len() == 0 {
        (true, 0, 0)
    } else {
        let (open, v, n) = digit_scan(f.drop_last());
        if open && is_digit(f.last()) {
            (true, v * 10 + digit_value(f.last()), n + 1)
        } else {
            (false, v, n)
        }
    }
}

/// The number that the leading digits of a piece give; `0` when there are
/// none or when their value does not fit in a `u16`.
pub open spec fn field_number(f: Seq<char>) -> u16 {
    let (_, v, n) = digit_scan(f);
    if n == 0 || v > 65535 {
        0
    } else {
        v as u16
    }
}

/// The `k`-th part of a version text; `0` when the text has fewer pieces.
pub open spec fn version_part(s: Seq<char>, k: int) -> u16 {
    if k < fields(s).len() {
        field_number(fields(s)[k])
    } else {
        0
    }
}

proof fn lemma_fields_nonempty(s: Seq<char>)
    ensures
        fields(s).len() >= 1,
    decreases s.len(),
{
    if s.len() > 0 {
        lemma_fields_nonempty(s.drop_last());
    }
}

/// The `(major, minor, patch)` numbers of a version text such as `"1.2.3"`:
/// the leading digits of each of the first three dot-separated pieces, `0`
/// for a piece that is missing, has no leading digit or does not fit in a
/// `u16`.
pub fn version_parts(text: &str) -> (r: [u16; 3])
    ensures
        r@ == seq![version_part(text@, 0), version_part(text@, 1), version_part(text@, 2)],
{
    let n = text.unicode_len();
    let mut parts: [u16; 3] = [0, 0, 0];
    let mut k: usize = 0;
    let mut open = true;
    let mut big = false;
    let mut value: u32 = 0;
    let mut count: usize = 0;
    let mut i: usize = 0;
    proof {
        assert(text@.take(0) =~= seq![]);
    }
    while i < n
        invariant
            n == text@.len(),
            i <= n,
            fields(text@.take(i as int)).len() == k + 1,
            forall|j: int|
                0 <= j < k && j < 3 ==> parts@[j] == field_number(
                    #[trigger] fields(text@.take(i as int))[j],
                ),
            forall|j: int| k <= j < 3 ==> parts@[j] == 0,
            ({
                let (o, v, c) = digit_scan(fields(text@.take(i as int))[k as int]);
                &&& o == open
                &&& c == count
                &&& big <==> v > 65535
                &&& !big ==> value == v
            }),
            count <= i,
            k <= i,
        decreases n - i,
    {
        let c = text.get_char(i);
        let ghost pre = text@.take(i as int);
        let ghost post = text@.take(i + 1);
        proof {
            assert(post.drop_last() =~= pre);
            assert(post.last() == c);
            lemma_fields_nonempty(pre);
        }
        if c == '.' {
            if k < 3 {
                let number: u16 = if count == 0 || big { 0 } else { value as u16 };
                parts[k] = number;
            }
            k = k + 1;
            open = true;
            big = false;
            value = 0;
            count = 0;
            proof {
                assert(fields(post) == fields(pre).push(seq![]));
                assert(digit_scan(seq![]) == (true, 0nat, 0nat));
            }
        } else {
            proof {
                let f = fields(pre)[k as int];
                assert(fields(post) == fields(pre).update(k as int, f.push(c)));
                assert(fields(post)[k as int].drop_last() =~= f);
            }
            if open && '0' <= c && c <= '9' {
                let d: u32 = (c as u32) - ('0' as u32);
                if !big {
                    let next: u32 = value * 10 + d;
                    if next > 65535 {
                        big = true;
                    } else {
                        value = next;
                    }
                }
                count = count + 1;
            } else {
                open = false;
            }
        }
        i = i + 1;
    }
    proof {
        assert(text@.take(n as int) =~= text@);
    }
    if k < 3 {
        let number: u16 = if count == 0 || big { 0 } else { value as u16 };
        parts[k] = number;
    }
    proof {
        assert(parts@ =~= seq![version_part(text@, 0), version_part(text@, 1), version_part(text@, 2)]);
    }
    parts
}

} // verus!
