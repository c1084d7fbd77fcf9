//! Truncation of a source's contents.
//!
//! A run prints, for each source, either its first `n` lines or its first
//! `b` bytes.  A line is a maximal run of bytes ending in a newline byte,
//! or the trailing bytes of the input when no newline follows them; a
//! printed line keeps its own terminator, and a final line without one is
//! printed without one.

use vstd::prelude::*;

verus! {

/// Number of lines in `s`: one per newline byte, plus one for a non-empty
/// tail that lacks a terminator.
pub open spec fn line_count(s: Seq<u8>) -> nat
    decreases s.len(),
{
    if s.len() == 0 {
        0
    } else if s[0] == 10u8 {
        1 + line_count(s.drop_first())
    } else if s.len() == 1 {
        1
    } else {
        line_count(s.drop_first())
    }
}

/// The prefix of `s` holding its first `n` lines, each with its terminator;
/// all of `s` when it has no more than `n` lines.
pub open spec fn take_lines(s: Seq<u8>, n: nat) -> Seq<u8>
    decreases s.len(),
{
    if n == 0 || s.len() == 0 {
        Seq::empty()
    } else if s[0] == 10u8 {
        seq![10u8] + take_lines(s.drop_first(), (n - 1) as nat)
    } else {
        seq![s[0]] + take_lines(s.drop_first(), n)
    }
}

/// The first `b` bytes of `s`, or all of `s` when it is shorter.
pub open spec fn take_bytes(s: Seq<u8>, b: nat) -> Seq<u8> {
    if b <= s.len() {
        s.take(b as int)
    } else {
        s
    }
}

/// The lines of `s`, in order; every line but possibly the last ends in a
/// newline byte, and their concatenation is `s` itself.
pub open spec fn lines_of(s: Seq<u8>) -> Seq<Seq<u8>>
    decreases s.len(),
{
    if s.len() == 0 {
        Seq::empty()
    } else if s[0] == 10u8 {
        seq![seq![10u8]] + lines_of(s.drop_first())
    } else {
        let rest = lines_of(s.drop_first());
        if rest.len() == 0 {
            seq![seq![s[0]]]
        } else {
            seq![seq![s[0]] + rest[0]] + rest.drop_first()
        }
    }
}

/// Only the empty input has no lines.
proof fn lemma_lines_of_empty(s: Seq<u8>)
    ensures
        (lines_of(s).len() == 0) == (s.len() == 0),
{
    if s.len() > 0 {
        if s[0] == 10u8 {
            assert(lines_of(s).len() >= 1);
        } else {
            let rest = lines_of(s.drop_first());
            if rest.len() == 0 {
                assert(lines_of(s).len() == 1);
            } else {
                assert(lines_of(s).len() == rest.len());
            }
        }
    }
}

/// The lines of `s` concatenate back to `s` itself.
pub proof fn lemma_lines_of_concat(s: Seq<u8>)
    ensures
        lines_of(s).flatten() == s,
    decreases s.len(),
{
    if s.len() == 0 {
        assert(lines_of(s).flatten() =~= s);
    } else if s[0] == 10u8 {
        let tail = s.drop_first();
        lemma_lines_of_concat(tail);
        let ls = lines_of(s);
        assert(ls.first() == seq![10u8]);
        assert(ls.drop_first() =~= lines_of(tail));
        assert(ls.flatten() == seq![10u8] + lines_of(tail).flatten());
        assert(seq![10u8] + tail =~= s);
    } else {
        let tail = s.drop_first();
        let rest = lines_of(tail);
        lemma_lines_of_concat(tail);
        if rest.len() == 0 {
            lemma_lines_of_empty(tail);
            assert(tail.len() == 0);
            let ls = lines_of(s);
            assert(ls == seq![seq![s[0]]]);
            assert(ls.drop_first() =~= Seq::<Seq<u8>>::empty());
            assert(ls.flatten() == seq![s[0]] + Seq::<Seq<u8>>::empty().flatten());
            assert(seq![s[0]] + Seq::<u8>::empty() =~= s);
        } else {
            let ls = lines_of(s);
            assert(ls.first() == seq![s[0]] + rest[0]);
            assert(ls.drop_first() =~= rest.drop_first());
            assert(ls.flatten() == (seq![s[0]] + rest[0]) + rest.drop_first().flatten());
            assert(rest.flatten() == rest[0] + rest.drop_first().flatten());
            assert((seq![s[0]] + rest[0]) + rest.drop_first().flatten() =~= seq![s[0]] + tail);
            assert(seq![s[0]] + tail =~= s);
        }
    }
}

/// Every line is non-empty, every line before the last ends in a newline
/// byte, and a newline byte occurs in a line only as its final byte.
pub proof fn lemma_lines_of_shape(s: Seq<u8>)
    ensures
        forall|i: int| 0 <= i < lines_of(s).len() ==> (#[trigger] lines_of(s)[i]).len() > 0,
        forall|i: int|
            0 <= i < lines_of(s).len() - 1 ==> (#[trigger] lines_of(s)[i]).last() == 10u8,
        forall|i: int, j: int|
            0 <= i < lines_of(s).len() && 0 <= j < lines_of(s)[i].len() - 1 ==> #[trigger] lines_of(
                s,
            )[i][j] != 10u8,
    decreases s.len(),
{
    if s.len() == 0 {
    } else if s[0] == 10u8 {
        let tail = s.drop_first();
        lemma_lines_of_shape(tail);
        let ls = lines_of(s);
        assert(ls == seq![seq![10u8]] + lines_of(tail));
        assert forall|i: int| 1 <= i < ls.len() implies ls[i] == lines_of(tail)[i - 1] by {}
        assert(ls[0] == seq![10u8]);
    } else {
        let tail = s.drop_first();
        let rest = lines_of(tail);
        lemma_lines_of_shape(tail);
        if rest.len() == 0 {
            assert(lines_of(s) == seq![seq![s[0]]]);
            assert(lines_of(s)[0] == seq![s[0]]);
        } else {
            let ls = lines_of(s);
            assert(ls == seq![seq![s[0]] + rest[0]] + rest.drop_first());
            assert forall|i: int| 1 <= i < ls.len() implies ls[i] == rest[i] by {
                assert(ls[i] == rest.drop_first()[i - 1]);
            }
            assert(ls[0] == seq![s[0]] + rest[0]);
            assert(ls[0].len() == 1 + rest[0].len());
            assert(ls[0].last() == rest[0].last());
            assert forall|j: int| 0 <= j < ls[0].len() - 1 implies ls[0][j] != 10u8 by {
                if j > 0 {
                    assert(ls[0][j] == rest[0][j - 1]);
                }
            }
            if ls.len() > 1 {
                assert(rest.len() > 1);
                assert(rest[0].last() == 10u8);
            }
        }
    }
}

/// `line_count` counts exactly the lines that `lines_of` splits off.
pub proof fn lemma_line_count_lines_of(s: Seq<u8>)
    ensures
        line_count(s) == lines_of(s).len(),
    decreases s.len(),
{
    if s.len() == 0 {
    } else if s[0] == 10u8 {
        lemma_line_count_lines_of(s.drop_first());
    } else if s.len() == 1 {
        assert(s.drop_first().len() == 0);
        assert(lines_of(s.drop_first()) =~= Seq::<Seq<u8>>::empty());
        assert(lines_of(s) =~= seq![seq![s[0]]]);
    } else {
        lemma_line_count_lines_of(s.drop_first());
        lemma_lines_of_empty(s.drop_first());
        let rest = lines_of(s.drop_first());
        assert(rest.len() > 0);
        assert(lines_of(s) == seq![seq![s[0]] + rest[0]] + rest.drop_first());
        assert(lines_of(s).len() == rest.len());
    }
}

/// An input with at most `n` lines is echoed whole by line-mode truncation.
proof fn lemma_take_lines_all_helper(s: Seq<u8>, n: nat)
    requires
        line_count(s) <= n,
    ensures
        take_lines(s, n) == s,
    decreases s.len(),
{
    if s.len() == 0 {
        assert(take_lines(s, n) =~= s);
    } else if s[0] == 10u8 {
        lemma_take_lines_all_helper(s.drop_first(), (n - 1) as nat);
        assert(take_lines(s, n) =~= s);
    } else if s.len() == 1 {
        assert(take_lines(s.drop_first(), n) =~= Seq::<u8>::empty());
        assert(take_lines(s, n) =~= s);
    } else {
        lemma_take_lines_all_helper(s.drop_first(), n);
        assert(take_lines(s, n) =~= s);
    }
}

/// Line-mode truncation with a bound larger than the input's line count
/// returns the entire input unchanged.
pub proof fn lemma_take_lines_short_input(s: Seq<u8>, n: nat)
    requires
        line_count(s) < n,
    ensures
        take_lines(s, n) == s,
{
    lemma_take_lines_all_helper(s, n);
}

/// Line-mode output is always a prefix of the input.
pub proof fn lemma_take_lines_prefix(s: Seq<u8>, n: nat)
    ensures
        take_lines(s, n).len() <= s.len(),
        take_lines(s, n) == s.take(take_lines(s, n).len() as int),
    decreases s.len(),
{
    if n == 0 || s.len() == 0 {
    } else {
        lemma_take_lines_prefix(s.drop_first(), if s[0] == 10u8 {
            (n - 1) as nat
        } else {
            n
        });
        assert(take_lines(s, n) =~= s.take(take_lines(s, n).len() as int));
    }
}

/// Line-mode truncation of an input with at least `n` lines yields
/// exactly the first `n` lines, each with its own terminator,
/// concatenated.
pub proof fn lemma_take_lines_exact(s: Seq<u8>, n: nat)
    requires
        n <= lines_of(s).len(),
    ensures
        take_lines(s, n) == lines_of(s).take(n as int).flatten(),
    decreases s.len(),
{
    if n == 0 {
        assert(lines_of(s).take(0) =~= Seq::<Seq<u8>>::empty());
        assert(Seq::<Seq<u8>>::empty().flatten() == Seq::<u8>::empty());
    } else if s.len() == 0 {
        // n <= lines_of(s).len() == 0 contradicts n > 0
        assert(lines_of(s).len() == 0);
    } else if s[0] == 10u8 {
        let tail = s.drop_first();
        lemma_take_lines_exact(tail, (n - 1) as nat);
        let taken = lines_of(s).take(n as int);
        assert(taken.first() == seq![10u8]);
        assert(taken.drop_first() =~= lines_of(tail).take(n - 1));
        assert(taken.flatten() == seq![10u8] + lines_of(tail).take(n - 1).flatten());
        assert(take_lines(s, n) == seq![10u8] + take_lines(tail, (n - 1) as nat));
    } else {
        let tail = s.drop_first();
        let rest = lines_of(tail);
        if rest.len() == 0 {
            lemma_lines_of_empty(tail);
            assert(tail.len() == 0);
            assert(n == 1);
            let taken = lines_of(s).take(1);
            assert(taken =~= seq![seq![s[0]]]);
            assert(taken.drop_first() =~= Seq::<Seq<u8>>::empty());
            assert(taken.flatten() == seq![s[0]] + Seq::<Seq<u8>>::empty().flatten());
            assert(take_lines(tail, n) == Seq::<u8>::empty());
            assert(take_lines(s, n) =~= taken.flatten());
        } else {
            lemma_take_lines_exact(tail, n);
            let taken = lines_of(s).take(n as int);
            assert(taken.first() == seq![s[0]] + rest[0]);
            assert(taken.drop_first() =~= rest.drop_first().take(n - 1));
            assert(taken.flatten() == (seq![s[0]] + rest[0]) + rest.drop_first().take(
                n - 1,
            ).flatten());
            let rtaken = rest.take(n as int);
            assert(rtaken.first() == rest[0]);
            assert(rtaken.drop_first() =~= rest.drop_first().take(n - 1));
            assert(rtaken.flatten() == rest[0] + rest.drop_first().take(n - 1).flatten());
            assert(take_lines(s, n) == seq![s[0]] + take_lines(tail, n));
            assert(take_lines(s, n) =~= taken.flatten());
        }
    }
}

/// Byte-mode output has length `min(b, |s|)` and equals the input's first
/// bytes verbatim.
pub proof fn lemma_take_bytes_exact(s: Seq<u8>, b: nat)
    ensures
        take_bytes(s, b).len() == if b <= s.len() {
            b
        } else {
            s.len()
        },
        forall|i: int| 0 <= i < take_bytes(s, b).len() ==> take_bytes(s, b)[i] == s[i],
{
    if b > s.len() {
        assert(take_bytes(s, b) =~= s);
    }
}

/// Echoes the first `n` lines of `data`, stopping early at end of input.
pub fn head_lines(data: &Vec<u8>, n: usize) -> (out: Vec<u8>)
    ensures
        out@ == take_lines(data@, n as nat),
{
    let mut out: Vec<u8> = Vec::new();
    let mut i: usize = 0;
    let mut done: usize = 0;
    proof {
        assert(data@.skip(0) =~= data@);
        assert(Seq::<u8>::empty() + take_lines(data@, n as nat) =~= take_lines(data@, n as nat));
    }
    while i < data.len() && done < n
        invariant
            0 <= i <= data@.len(),
            done <= n,
            out@ == data@.take(i as int),
            take_lines(data@, n as nat) == out@ + take_lines(
                data@.skip(i as int),
                (n - done) as nat,
            ),
        decreases data@.len() - i,
    {
        let b = data[i];
        out.push(b);
        proof {
            let rest = data@.skip(i as int);
            assert(rest[0] == data@[i as int]);
            assert(rest.drop_first() =~= data@.skip(i as int + 1));
            assert(out@ =~= data@.take(i as int + 1));
        }
        if b == 10 {
            done = done + 1;
        }
        i = i + 1;
    }
    proof {
        if i == data@.len() {
            assert(data@.skip(i as int) =~= Seq::<u8>::empty());
        }
    }
    out
}

/// Copies the first `b` bytes of `data`, or all of it when shorter.
pub fn head_bytes(data: &Vec<u8>, b: usize) -> (out: Vec<u8>)
    ensures
        out@ == take_bytes(data@, b as nat),
{
    let end = if b <= data.len() {
        b
    } else {
        data.len()
    };
    let mut out: Vec<u8> = Vec::new();
    let mut i: usize = 0;
    while i < end
        invariant
            0 <= i <= end <= data@.len(),
            out@ == data@.take(i as int),
        decreases end - i,
    {
        out.push(data[i]);
        proof {
            assert(out@ =~= data@.take(i as int + 1));
        }
        i = i + 1;
    }
    proof {
        if b > data@.len() {
            assert(data@.take(end as int) =~= data@);
        }
    }
    out
}

} // verus!
