//! Exact decimal rendering for the report: right-aligned integers,
//! fixed-point values with five decimal digits, and durations.

use vstd::prelude::*;
use vstd::string::StringExecFns;

verus! {

/// The character of one decimal digit.
pub open spec fn digit_char(d: int) -> char {
    if d == 0 {
        '0'
    } else if d == 1 {
        '1'
    } else if d == 2 {
        '2'
    } else if d == 3 {
        '3'
    } else if d == 4 {
        '4'
    } else if d == 5 {
        '5'
    } else if d == 6 {
        '6'
    } else if d == 7 {
        '7'
    } else if d == 8 {
        '8'
    } else {
        '9'
    }
}

/// Decimal rendering of a non-negative integer, most significant digit
/// first, without padding.
pub open spec fn dec_seq(n: int) -> Seq<char>
    decreases n,
{
    if n < 10 {
        seq![digit_char(n)]
    } else {
        dec_seq(n / 10) + seq![digit_char(n % 10)]
    }
}

/// A run of one repeated character.
pub open spec fn fill_seq(c: char, k: int) -> Seq<char> {
    Seq::new(if k > 0 {
        k as nat
    } else {
        0
    }, |i: int| c)
}

/// A number rendered right-aligned in a field of `w` characters, padded
/// with `pad` (the rendering itself when it is already wider).
pub open spec fn aligned_seq(n: int, w: int, pad: char) -> Seq<char> {
    fill_seq(pad, w - dec_seq(n).len()) + dec_seq(n)
}

/// A scaled fixed-point value rendered with its five decimal digits:
/// integer part, point, zero-padded fraction.
pub open spec fn fixed5_seq(v: int) -> Seq<char> {
    dec_seq(v / 100_000) + seq!['.'] + aligned_seq(v % 100_000, 5, '0')
}

/// The one-character string of a decimal digit.
fn digit_str(d: u64) -> (r: &'static str)
    requires
        d < 10,
    ensures
        r@ =~= seq![digit_char(d as int)],
{
    proof {
        reveal_strlit("0");
        reveal_strlit("1");
        reveal_strlit("2");
        reveal_strlit("3");
        reveal_strlit("4");
        reveal_strlit("5");
        reveal_strlit("6");
        reveal_strlit("7");
        reveal_strlit("8");
        reveal_strlit("9");
    }
    if d == 0 {
        "0"
    } else if d == 1 {
        "1"
    } else if d == 2 {
        "2"
    } else if d == 3 {
        "3"
    } else if d == 4 {
        "4"
    } else if d == 5 {
        "5"
    } else if d == 6 {
        "6"
    } else if d == 7 {
        "7"
    } else if d == 8 {
        "8"
    } else {
        "9"
    }
}

/// Append the decimal rendering of `n`.
pub fn push_dec(s: &mut String, n: u64)
    ensures
        final(s)@ == old(s)@ + dec_seq(n as int),
    decreases n,
{
    if n >= 10 {
        push_dec(s, n / 10);
    }
    s.append(digit_str(n % 10));
    proof {
        if n >= 10 {
            assert(old(s)@ + dec_seq(n as int / 10) + seq![digit_char(n as int % 10)] =~= old(
                s,
            )@ + dec_seq(n as int));
        } else {
            assert(old(s)@ + seq![digit_char(n as int)] =~= old(s)@ + dec_seq(n as int));
        }
    }
}

/// Number of characters `dec_seq(n)` takes.
pub fn dec_width(n: u64) -> (w: usize)
    ensures
        w == dec_seq(n as int).len(),
        1 <= w <= 20,
    decreases n,
{
    proof {
        lemma_pow10_20();
        lemma_dec_len_bound(n as int, 20);
    }
    if n < 10 {
        1
    } else {
        let inner = dec_width(n / 10);
        proof {
            assert(dec_seq(n as int).len() == dec_seq(n as int / 10).len() + 1);
        }
        inner + 1
    }
}

/// `10^20` written out, by unfolding the recursion.
pub proof fn lemma_pow10_20()
    ensures
        pow10(20) == 100_000_000_000_000_000_000,
{
    assert(pow10(1) == 10);
    assert(pow10(2) == 100);
    assert(pow10(3) == 1000);
    assert(pow10(4) == 10000);
    assert(pow10(5) == 100000);
    assert(pow10(6) == 1000000);
    assert(pow10(7) == 10000000);
    assert(pow10(8) == 100000000);
    assert(pow10(9) == 1000000000);
    assert(pow10(10) == 10000000000);
    assert(pow10(11) == 100000000000);
    assert(pow10(12) == 1000000000000);
    assert(pow10(13) == 10000000000000);
    assert(pow10(14) == 100000000000000);
    assert(pow10(15) == 1000000000000000);
    assert(pow10(16) == 10000000000000000);
    assert(pow10(17) == 100000000000000000);
    assert(pow10(18) == 1000000000000000000);
    assert(pow10(19) == 10000000000000000000);
    assert(pow10(20) == 100000000000000000000);
}

/// Powers of ten.
pub open spec fn pow10(k: int) -> int
    decreases k,
{
    if k <= 1 {
        10
    } else {
        10 * pow10(k - 1)
    }
}

/// A number below `10^k` renders in at most `k` characters.
pub proof fn lemma_dec_len_bound(n: int, k: int)
    requires
        0 <= n,
        1 <= k,
        n < pow10(k),
    ensures
        dec_seq(n).len() <= k,
    decreases k,
{
    if n < 10 {
        assert(dec_seq(n).len() == 1);
    } else {
        assert(k >= 2) by {
            if k == 1 {
                assert(pow10(1) == 10);
            }
        }
        assert(pow10(k) == 10 * pow10(k - 1));
        assert(n / 10 < pow10(k - 1)) by (nonlinear_arith)
            requires
                n < 10 * pow10(k - 1),
                0 <= n,
        ;
        lemma_dec_len_bound(n / 10, k - 1);
        assert(dec_seq(n).len() == dec_seq(n / 10).len() + 1);
    }
}

/// Append `k` copies of the padding character.
fn push_fill(s: &mut String, pad: u64, k: usize)
    requires
        pad < 10 || pad == 10,
    ensures
        final(s)@ == old(s)@ + fill_seq(
            if pad == 10 {
                ' '
            } else {
                digit_char(pad as int)
            },
            k as int,
        ),
{
    let ghost c = if pad == 10 {
        ' '
    } else {
        digit_char(pad as int)
    };
    let mut i: usize = 0;
    proof {
        assert(old(s)@ + fill_seq(c, 0) =~= old(s)@);
        reveal_strlit(" ");
    }
    while i < k
        invariant
            i <= k,
            pad < 10 || pad == 10,
            c == if pad == 10 {
                ' '
            } else {
                digit_char(pad as int)
            },
            s@ == old(s)@ + fill_seq(c, i as int),
        decreases k - i,
    {
        if pad == 10 {
            s.append(" ");
            proof {
                reveal_strlit(" ");
            }
        } else {
            s.append(digit_str(pad));
        }
        proof {
            assert(old(s)@ + fill_seq(c, i as int) + seq![c] =~= old(s)@ + fill_seq(
                c,
                i as int + 1,
            ));
        }
        i += 1;
    }
}

/// Append `n` right-aligned in a field of `w` characters, padded with
/// spaces.
pub fn push_aligned(s: &mut String, n: u64, w: usize)
    ensures
        final(s)@ == old(s)@ + aligned_seq(n as int, w as int, ' '),
{
    let d = dec_width(n);
    if d < w {
        push_fill(s, 10, w - d);
    } else {
        proof {
            assert(fill_seq(' ', w - dec_seq(n as int).len()) =~= Seq::<char>::empty());
        }
    }
    push_dec(s, n);
    proof {
        assert(final(s)@ =~= old(s)@ + aligned_seq(n as int, w as int, ' '));
    }
}

/// Append a scaled value as a fixed-point number with five decimals,
/// right-aligned in a field of `w` characters.
pub fn push_fixed5(s: &mut String, v: u64, w: usize)
    ensures
        final(s)@ == old(s)@ + fill_seq(' ', w - fixed5_seq(v as int).len()) + fixed5_seq(
            v as int,
        ),
{
    let ip = v / 100_000;
    let fr = v % 100_000;
    let ipw = dec_width(ip);
    let frw = dec_width(fr);
    proof {
        assert(fixed5_seq(v as int).len() == dec_seq(ip as int).len() + 1 + 5) by {
            assert(aligned_seq(fr as int, 5, '0').len() == 5) by {
                assert(dec_seq(fr as int).len() <= 5) by {
                    lemma_dec_len_5(fr as int);
                }
            }
        }
    }
    let total = ipw + 6;
    if total < w {
        push_fill(s, 10, w - total);
    } else {
        proof {
            assert(fill_seq(' ', w - fixed5_seq(v as int).len()) =~= Seq::<char>::empty());
        }
    }
    push_dec(s, ip);
    proof {
        reveal_strlit(".");
    }
    s.append(".");
    if frw < 5 {
        push_fill(s, 0, 5 - frw);
    } else {
        proof {
            assert(fill_seq('0', 5 - dec_seq(fr as int).len()) =~= Seq::<char>::empty());
        }
    }
    push_dec(s, fr);
    proof {
        assert(final(s)@ =~= old(s)@ + fill_seq(' ', w - fixed5_seq(v as int).len())
            + fixed5_seq(v as int));
    }
}

/// A fraction below `100000` renders in at most five characters.
proof fn lemma_dec_len_5(n: int)
    requires
        0 <= n < 100_000,
    ensures
        dec_seq(n).len() <= 5,
{
    assert(pow10(1) == 10);
    assert(pow10(2) == 100);
    assert(pow10(3) == 1000);
    assert(pow10(4) == 10000);
    assert(pow10(5) == 100000);
    lemma_dec_len_bound(n, 5);
}

/// The `hh:mm:ss.mmm` rendering of a duration in milliseconds.
pub open spec fn duration_seq(ms: int) -> Seq<char> {
    aligned_seq(ms / 3_600_000, 2, '0') + seq![':'] + aligned_seq((ms % 3_600_000) / 60_000, 2, '0')
        + seq![':'] + aligned_seq((ms % 60_000) / 1_000, 2, '0') + seq!['.'] + aligned_seq(
        ms % 1_000,
        3,
        '0',
    )
}

/// Render a duration in milliseconds as `hh:mm:ss.mmm`, each component
/// zero-padded (hours take more room when they need it).
pub fn duration_string(ms: u64) -> (r: String)
    ensures
        r@ == duration_seq(ms as int),
{
    let mut s = String::new();
    let hours = ms / 3_600_000;
    let minutes = (ms % 3_600_000) / 60_000;
    let secs = (ms % 60_000) / 1_000;
    let milli = ms % 1_000;
    push_zero_aligned(&mut s, hours, 2);
    proof {
        reveal_strlit(":");
        reveal_strlit(".");
    }
    s.append(":");
    push_zero_aligned(&mut s, minutes, 2);
    s.append(":");
    push_zero_aligned(&mut s, secs, 2);
    s.append(".");
    push_zero_aligned(&mut s, milli, 3);
    proof {
        assert(s@ =~= duration_seq(ms as int));
    }
    s
}

/// Append `n` right-aligned in a field of `w` characters, padded with
/// zeros.
pub fn push_zero_aligned(s: &mut String, n: u64, w: usize)
    ensures
        final(s)@ == old(s)@ + aligned_seq(n as int, w as int, '0'),
{
    let d = dec_width(n);
    if d < w {
        push_fill(s, 0, w - d);
    } else {
        proof {
            assert(fill_seq('0', w - dec_seq(n as int).len()) =~= Seq::<char>::empty());
        }
    }
    push_dec(s, n);
    proof {
        assert(final(s)@ =~= old(s)@ + aligned_seq(n as int, w as int, '0'));
    }
}

} // verus!
