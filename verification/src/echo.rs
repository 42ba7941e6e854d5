//! The reply of the TCP echo server: every line of the received data is
//! reversed, the line breaks stay where they were.

use vstd::prelude::*;

verus! {

pub const NEWLINE: u8 = 0x0A;

/// Index of the first line break in `s`, or `s.len()` when there is none.
pub open spec fn first_newline(s: Seq<u8>) -> int
    decreases s.len(),
{
    if s.len() == 0 {
        0
    } else if s[0] == NEWLINE {
        0
    } else {
        1 + first_newline(s.drop_first())
    }
}

proof fn lemma_first_newline(s: Seq<u8>)
    ensures
        0 <= first_newline(s) <= s.len(),
        first_newline(s) < s.len() ==> s[first_newline(s)] == NEWLINE,
        forall|i: int| 0 <= i < first_newline(s) ==> s[i] != NEWLINE,
    decreases s.len(),
{
    if s.len() > 0 && s[0] != NEWLINE {
        lemma_first_newline(s.drop_first());
        assert forall|i: int| 0 <= i < first_newline(s) implies s[i] != NEWLINE by {
            if i > 0 {
                assert(s[i] == s.drop_first()[i - 1]);
            }
        }
    }
}

/// The first line break of `s` is at `k` when `s[k]` is one and no earlier byte is.
proof fn lemma_first_newline_at(s: Seq<u8>, k: int)
    requires
        0 <= k <= s.len(),
        k < s.len() ==> s[k] == NEWLINE,
        forall|i: int| 0 <= i < k ==> s[i] != NEWLINE,
    ensures
        first_newline(s) == k,
    decreases s.len(),
{
    if s.len() > 0 && k > 0 {
        lemma_first_newline_at(s.drop_first(), k - 1);
    }
}

/// `s` with each of its lines reversed in place.
pub open spec fn reverse_lines(s: Seq<u8>) -> Seq<u8>
    decreases s.len(),
{
    let k = first_newline(s);
    if k < 0 || k >= s.len() {
        s.reverse()
    } else {
        s.subrange(0, k).reverse() + seq![NEWLINE] + reverse_lines(s.subrange(k + 1, s.len() as int))
    }
}

/// Builds the echo reply for `buffer`: the number of bytes consumed (all of
/// them) and the data to send back, which is `buffer` with every line
/// reversed.
pub fn recv(buffer: &[u8]) -> (r: (usize, Vec<u8>))
    ensures
        r.0 == buffer@.len(),
        r.1@ == reverse_lines(buffer@),
{
    let n = buffer.len();
    let mut out: Vec<u8> = Vec::new();
    if n == 0 {
        proof {
            assert(buffer@.reverse() =~= Seq::<u8>::empty());
        }
        return (0, out);
    }
    let ghost s = buffer@;
    let mut start: usize = 0;
    let mut done = false;
    proof {
        assert(s.subrange(0, n as int) =~= s);
    }
    while !done
        invariant
            n == s.len(),
            s == buffer@,
            start <= n,
            !done ==> reverse_lines(s) == out@ + reverse_lines(s.subrange(start as int, n as int)),
            done ==> reverse_lines(s) == out@,
        decreases n - start + (if done { 0int } else { 1int }),
    {
        let ghost rest = s.subrange(start as int, n as int);
        let mut j: usize = start;
        while j < n && buffer[j] != NEWLINE
            invariant
                start <= j <= n,
                n == buffer@.len(),
                forall|i: int| start <= i < j ==> buffer@[i] != NEWLINE,
            decreases n - j,
        {
            j = j + 1;
        }
        proof {
            lemma_first_newline_at(rest, j - start);
        }
        let ghost line = s.subrange(start as int, j as int);
        let ghost before = out@;
        let mut k: usize = j;
        while k > start
            invariant
                start <= k <= j,
                j <= n,
                n == buffer@.len(),
                line == buffer@.subrange(start as int, j as int),
                out@ == before + line.reverse().subrange(0, (j - k) as int),
            decreases k,
        {
            k = k - 1;
            out.push(buffer[k]);
            proof {
                assert(line.reverse().subrange(0, (j - k) as int) =~= line.reverse().subrange(0, (j - k - 1) as int).push(
                    buffer@[k as int],
                ));
            }
        }
        proof {
            assert(line.reverse().subrange(0, (j - start) as int) =~= line.reverse());
            assert(rest.subrange(0, j - start) =~= line);
        }
        if j < n {
            out.push(NEWLINE);
            proof {
                assert(rest.subrange(j - start + 1, rest.len() as int) =~= s.subrange(j + 1, n as int));
                assert(out@ =~= before + line.reverse() + seq![NEWLINE]);
            }
            start = j + 1;
        } else {
            proof {
                assert(rest =~= line);
            }
            done = true;
            start = n;
        }
    }
    (n, out)
}

/// Reversing the lines twice gives the data back.
pub proof fn lemma_reverse_lines_involution(s: Seq<u8>)
    ensures
        reverse_lines(reverse_lines(s)) == s,
        reverse_lines(s).len() == s.len(),
    decreases s.len(),
{
    lemma_first_newline(s);
    let k = first_newline(s);
    if k >= s.len() {
        let r = s.reverse();
        assert forall|i: int| 0 <= i < r.len() implies r[i] != NEWLINE by {
            assert(r[i] == s[s.len() - 1 - i]);
        }
        lemma_first_newline_at(r, r.len() as int);
        assert(r.reverse() =~= s);
    } else {
        let a = s.subrange(0, k);
        let b = s.subrange(k + 1, s.len() as int);
        lemma_reverse_lines_involution(b);
        let r = a.reverse() + seq![NEWLINE] + reverse_lines(b);
        assert forall|i: int| 0 <= i < k implies r[i] != NEWLINE by {
            assert(r[i] == a[k - 1 - i]);
        }
        assert(r[k] == NEWLINE);
        lemma_first_newline_at(r, k);
        assert(r.subrange(0, k) =~= a.reverse());
        assert(r.subrange(k + 1, r.len() as int) =~= reverse_lines(b));
        assert(a.reverse().reverse() =~= a);
        assert(a + seq![NEWLINE] + b =~= s);
    }
}

/// `s[a..b]` is a whole line of `s`: it holds no line break, and it starts
/// at the beginning of `s` or just after a line break and ends at the end
/// of `s` or just before one.
pub open spec fn is_line(s: Seq<u8>, a: int, b: int) -> bool {
    &&& 0 <= a <= b <= s.len()
    &&& (a == 0 || s[a - 1] == NEWLINE)
    &&& (b == s.len() || s[b] == NEWLINE)
    &&& forall|j: int| a <= j < b ==> s[j] != NEWLINE
}

/// The echo reply keeps every line break where it was and reverses each
/// line in place: byte `i` of a line `a..b` of the data is answered at
/// position `a + b - 1 - i`.
pub proof fn lemma_reverse_lines_shape(s: Seq<u8>)
    ensures
        reverse_lines(s).len() == s.len(),
        forall|i: int| 0 <= i < s.len() ==> (#[trigger] reverse_lines(s)[i] == NEWLINE <==> s[i] == NEWLINE),
        forall|a: int, b: int, i: int|
            #![trigger is_line(s, a, b), reverse_lines(s)[i]]
            is_line(s, a, b) && a <= i < b ==> reverse_lines(s)[i] == s[a + b - 1 - i],
    decreases s.len(),
{
    lemma_first_newline(s);
    lemma_reverse_lines_involution(s);
    let k = first_newline(s);
    let r = reverse_lines(s);
    if k >= s.len() {
        assert(r == s.reverse());
        assert forall|a: int, b: int, i: int|
            #![trigger is_line(s, a, b), reverse_lines(s)[i]]
            is_line(s, a, b) && a <= i < b implies reverse_lines(s)[i] == s[a + b - 1 - i] by {
            if a > 0 {
                assert(s[a - 1] != NEWLINE);
            }
            if b < s.len() {
                assert(s[b] != NEWLINE);
            }
        }
    } else {
        let a0 = s.subrange(0, k);
        let b0 = s.subrange(k + 1, s.len() as int);
        lemma_reverse_lines_shape(b0);
        let rb = reverse_lines(b0);
        assert(r == a0.reverse() + seq![NEWLINE] + rb);
        assert forall|i: int| 0 <= i < s.len() implies (#[trigger] reverse_lines(s)[i] == NEWLINE <==> s[i]
            == NEWLINE) by {
            if i < k {
                assert(r[i] == s[k - 1 - i]);
            } else if i > k {
                assert(r[i] == rb[i - k - 1]);
                assert(b0[i - k - 1] == s[i]);
            }
        }
        assert forall|a: int, b: int, i: int|
            #![trigger is_line(s, a, b), reverse_lines(s)[i]]
            is_line(s, a, b) && a <= i < b implies reverse_lines(s)[i] == s[a + b - 1 - i] by {
            if a <= k {
                if b > k {
                    assert(s[k] != NEWLINE);
                }
                if a > 0 {
                    assert(s[a - 1] != NEWLINE);
                }
                assert(b == k) by {
                    if b < k {
                        assert(s[b] != NEWLINE);
                    }
                }
                assert(r[i] == a0[k - 1 - i]);
            } else {
                let a1 = a - k - 1;
                let b1 = b - k - 1;
                assert(is_line(b0, a1, b1)) by {
                    if a1 > 0 {
                        assert(b0[a1 - 1] == s[a - 1]);
                    }
                    if b1 < b0.len() {
                        assert(b0[b1] == s[b]);
                    }
                    assert forall|j: int| a1 <= j < b1 implies b0[j] != NEWLINE by {
                        assert(b0[j] == s[j + k + 1]);
                    }
                }
                assert(r[i] == rb[i - k - 1]);
                assert(rb[i - k - 1] == b0[a1 + b1 - 1 - (i - k - 1)]);
            }
        }
    }
}

} // verus!
