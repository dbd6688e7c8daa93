//! Validation of a backend host override: whether a string is a well-formed
//! dotted-quad address — four decimal octets of at most 255, separated by
//! dots, with no leading zeros.

use vstd::prelude::*;
use vstd::string::*;

verus! {

pub open spec fn is_digit(c: char) -> bool {
    '0' as u32 <= c as u32 && c as u32 <= '9' as u32
}

pub open spec fn digit_val(c: char) -> int {
    c as u32 - '0' as u32
}

pub open spec fn all_digits(p: Seq<char>) -> bool {
    forall|i: int| 0 <= i < p.len() ==> is_digit(p[i])
}

/// The decimal value of a run of one to three digits.
pub open spec fn octet_val(p: Seq<char>) -> int {
    if p.len() == 1 {
        digit_val(p[0])
    } else if p.len() == 2 {
        10 * digit_val(p[0]) + digit_val(p[1])
    } else if p.len() == 3 {
        100 * digit_val(p[0]) + 10 * digit_val(p[1]) + digit_val(p[2])
    } else {
        -1
    }
}

/// A well-formed octet: one to three digits, no leading zero, at most 255.
pub open spec fn valid_octet(p: Seq<char>) -> bool {
    &&& 1 <= p.len() <= 3
    &&& all_digits(p)
    &&& (p.len() > 1 ==> p[0] != '0')
    &&& octet_val(p) <= 255
}

/// Dots at `i < j < k` split `s` into four well-formed octets.
pub open spec fn ipv4_witness(s: Seq<char>, i: int, j: int, k: int) -> bool {
    &&& 0 < i && i < j && j < k && k < s.len()
    &&& s[i] == '.' && s[j] == '.' && s[k] == '.'
    &&& valid_octet(s.subrange(0, i))
    &&& valid_octet(s.subrange(i + 1, j))
    &&& valid_octet(s.subrange(j + 1, k))
    &&& valid_octet(s.subrange(k + 1, s.len() as int))
}

/// A well-formed dotted-quad address.
pub open spec fn is_ipv4(s: Seq<char>) -> bool {
    exists|i: int, j: int, k: int| ipv4_witness(s, i, j, k)
}

/// In a string whose only dots stand at `a < b < c`, a witness can place the
/// three separating dots nowhere else, and those dots separate a well-formed
/// address exactly when the four runs between them are well-formed octets.
proof fn lemma_three_dots(s: Seq<char>, a: int, b: int, c: int)
    requires
        0 <= a && a < b && b < c && c < s.len(),
        s[a] == '.' && s[b] == '.' && s[c] == '.',
        forall|p: int| 0 <= p < s.len() && s[p] == '.' ==> p == a || p == b || p == c,
    ensures
        is_ipv4(s) <==> (valid_octet(s.subrange(0, a)) && valid_octet(s.subrange(a + 1, b))
            && valid_octet(s.subrange(b + 1, c)) && valid_octet(
            s.subrange(c + 1, s.len() as int),
        )),
{
    if is_ipv4(s) {
        let (i, j, k) = choose|i: int, j: int, k: int| ipv4_witness(s, i, j, k);
        assert(ipv4_witness(s, i, j, k));
        assert(i == a || i == b || i == c);
        assert(j == a || j == b || j == c);
        assert(k == a || k == b || k == c);
        assert(i == a && j == b && k == c);
    }
    if valid_octet(s.subrange(0, a)) && valid_octet(s.subrange(a + 1, b)) && valid_octet(
        s.subrange(b + 1, c),
    ) && valid_octet(s.subrange(c + 1, s.len() as int)) {
        assert(s.subrange(0, a).len() == a);
        assert(ipv4_witness(s, a, b, c));
    }
}

/// A string whose dots do not number exactly three holds no well-formed
/// dotted-quad: each octet of a witness is all digits, so the witness's
/// three dots would be the only ones.
proof fn lemma_dots_off(s: Seq<char>, dots: Seq<usize>)
    requires
        forall|q: int|
            0 <= q < dots.len() ==> (dots[q] as int) < s.len() && s[dots[q] as int] == '.',
        forall|q1: int, q2: int| 0 <= q1 < q2 < dots.len() ==> (dots[q1] as int) < (dots[q2] as int),
        forall|p: int|
            0 <= p < s.len() && s[p] == '.' ==> exists|q: int|
                0 <= q < dots.len() && dots[q] as int == p,
        dots.len() != 3,
    ensures
        !is_ipv4(s),
{
    if is_ipv4(s) {
        let (i, j, k) = choose|i: int, j: int, k: int| ipv4_witness(s, i, j, k);
        assert(ipv4_witness(s, i, j, k));
        let qi = choose|q: int| 0 <= q < dots.len() && dots[q] as int == i;
        let qj = choose|q: int| 0 <= q < dots.len() && dots[q] as int == j;
        let qk = choose|q: int| 0 <= q < dots.len() && dots[q] as int == k;
        assert(0 <= qi < dots.len() && dots[qi] as int == i);
        assert(0 <= qj < dots.len() && dots[qj] as int == j);
        assert(0 <= qk < dots.len() && dots[qk] as int == k);
        assert(qi < qj) by {
            if qj < qi {
                assert((dots[qj] as int) < (dots[qi] as int));
            }
            if qj == qi {
                assert(i == j);
            }
        }
        assert(qj < qk) by {
            if qk < qj {
                assert((dots[qk] as int) < (dots[qj] as int));
            }
            if qk == qj {
                assert(j == k);
            }
        }
        // With fewer than three dots the three strictly ordered indices
        // cannot exist; with more, some dot escapes the witness and lands
        // inside one of its all-digit octets.
        if dots.len() < 3 {
            assert(false);
        } else {
            let n = dots.len() as int;
            let q: int = if qk != n - 1 {
                n - 1
            } else if qj != n - 2 {
                n - 2
            } else if qi != n - 3 {
                n - 3
            } else {
                0
            };
            assert(0 <= q < n && q != qi && q != qj && q != qk);
            let p = dots[q] as int;
            assert(s[p] == '.');
            assert(p != i) by {
                if q < qi {
                    assert((dots[q] as int) < (dots[qi] as int));
                }
                if qi < q {
                    assert((dots[qi] as int) < (dots[q] as int));
                }
            }
            assert(p != j) by {
                if q < qj {
                    assert((dots[q] as int) < (dots[qj] as int));
                }
                if qj < q {
                    assert((dots[qj] as int) < (dots[q] as int));
                }
            }
            assert(p != k) by {
                if q < qk {
                    assert((dots[q] as int) < (dots[qk] as int));
                }
                if qk < q {
                    assert((dots[qk] as int) < (dots[q] as int));
                }
            }
            if p < i {
                assert(s.subrange(0, i)[p] == '.');
                assert(is_digit(s.subrange(0, i)[p]));
            } else if p < j {
                assert(s.subrange(i + 1, j)[p - i - 1] == '.');
                assert(is_digit(s.subrange(i + 1, j)[p - i - 1]));
            } else if p < k {
                assert(s.subrange(j + 1, k)[p - j - 1] == '.');
                assert(is_digit(s.subrange(j + 1, k)[p - j - 1]));
            } else {
                assert(s.subrange(k + 1, s.len() as int)[p - k - 1] == '.');
                assert(is_digit(s.subrange(k + 1, s.len() as int)[p - k - 1]));
            }
            assert(false);
        }
    }
}

fn check_octet(s: &str, from: usize, to: usize) -> (r: bool)
    requires
        from <= to <= s@.len(),
    ensures
        r == valid_octet(s@.subrange(from as int, to as int)),
{
    let ghost oct = s@.subrange(from as int, to as int);
    let len = to - from;
    if len < 1 || len > 3 {
        return false;
    }
    let mut i = from;
    while i < to
        invariant
            from <= i <= to <= s@.len(),
            oct == s@.subrange(from as int, to as int),
            forall|p: int| from <= p < i ==> is_digit(s@[p]),
        decreases to - i,
    {
        let cu = s.get_char(i) as u32;
        if cu < '0' as u32 || cu > '9' as u32 {
            proof {
                assert(oct[i - from as int] == s@[i as int]);
                assert(!is_digit(oct[i - from as int]));
            }
            return false;
        }
        i = i + 1;
    }
    proof {
        assert forall|p: int| 0 <= p < oct.len() implies is_digit(oct[p]) by {
            assert(oct[p] == s@[from + p]);
        }
    }
    proof {
        assert(oct[0] == s@[from as int]);
        assert(is_digit(oct[0]));
    }
    let c0 = s.get_char(from) as u32;
    if len > 1 && c0 == '0' as u32 {
        return false;
    }
    let d0 = c0 - '0' as u32;
    let v: u32 = if len == 1 {
        d0
    } else if len == 2 {
        proof {
            assert(oct[1] == s@[from + 1]);
            assert(is_digit(oct[1]));
        }
        let d1 = s.get_char(from + 1) as u32 - '0' as u32;
        10 * d0 + d1
    } else {
        proof {
            assert(oct[1] == s@[from + 1]);
            assert(is_digit(oct[1]));
            assert(oct[2] == s@[from + 2]);
            assert(is_digit(oct[2]));
        }
        let d1 = s.get_char(from + 1) as u32 - '0' as u32;
        let d2 = s.get_char(from + 2) as u32 - '0' as u32;
        100 * d0 + 10 * d1 + d2
    };
    proof {
        assert(v == octet_val(oct));
    }
    v <= 255
}

/// Whether a host override names a well-formed dotted-quad address.
pub fn test_bind(bind: &str) -> (r: bool)
    ensures
        r == is_ipv4(bind@),
{
    let n = bind.unicode_len();
    let mut dots: Vec<usize> = Vec::new();
    let mut i: usize = 0;
    while i < n
        invariant
            i <= n,
            n == bind@.len(),
            forall|q: int|
                0 <= q < dots@.len() ==> (dots@[q] as int) < i && bind@[dots@[q] as int] == '.',
            forall|q1: int, q2: int|
                0 <= q1 < q2 < dots@.len() ==> (dots@[q1] as int) < (dots@[q2] as int),
            forall|p: int|
                0 <= p < i && bind@[p] == '.' ==> exists|q: int|
                    0 <= q < dots@.len() && dots@[q] as int == p,
        decreases n - i,
    {
        let c = bind.get_char(i);
        if c as u32 == '.' as u32 {
            let ghost olddots = dots@;
            dots.push(i);
            proof {
                assert forall|p: int|
                    0 <= p < i + 1 && bind@[p] == '.' implies exists|q: int|
                        0 <= q < dots@.len() && dots@[q] as int == p by {
                    if p < i {
                        let q = choose|q: int| 0 <= q < olddots.len() && olddots[q] as int == p;
                        assert(0 <= q < olddots.len() && olddots[q] as int == p);
                        assert(dots@[q] as int == p);
                    } else {
                        assert(dots@[olddots.len() as int] as int == p);
                    }
                }
            }
        } else {
            proof {
                assert(bind@[i as int] != '.');
                assert forall|p: int|
                    0 <= p < i + 1 && bind@[p] == '.' implies exists|q: int|
                        0 <= q < dots@.len() && dots@[q] as int == p by {
                    assert(p < i);
                    let q = choose|q: int| 0 <= q < dots@.len() && dots@[q] as int == p;
                    assert(0 <= q < dots@.len() && dots@[q] as int == p);
                }
            }
        }
        i = i + 1;
    }
    if dots.len() != 3 {
        proof {
            lemma_dots_off(bind@, dots@);
        }
        return false;
    }
    let a = dots[0];
    let b = dots[1];
    let c = dots[2];
    proof {
        assert((a as int) < b as int && (b as int) < c as int);
        assert(bind@[a as int] == '.' && bind@[b as int] == '.' && bind@[c as int] == '.');
        assert forall|p: int|
            0 <= p < bind@.len() && bind@[p] == '.' implies p == a as int || p == b as int || p
            == c as int by {
            let q = choose|q: int| 0 <= q < dots@.len() && dots@[q] as int == p;
            assert(0 <= q < dots@.len() && dots@[q] as int == p);
            assert(q == 0 || q == 1 || q == 2);
        }
        lemma_three_dots(bind@, a as int, b as int, c as int);
    }
    let ok = check_octet(bind, 0, a) && check_octet(bind, a + 1, b) && check_octet(bind, b + 1, c)
        && check_octet(bind, c + 1, n);
    ok
}

} // verus!
