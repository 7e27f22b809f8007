//! Line-bounded reading: how many leading bytes of an input make up its first
//! `n` lines, each kept with its own terminator.

use vstd::prelude::*;

verus! {

/// The byte that ends a line.
pub const NEWLINE: u8 = 10;

/// Number of lines in `s`: every newline closes one, and a non-empty tail
/// without a newline is one more.
pub open spec fn lines_in(s: Seq<u8>) -> nat
    decreases s.len(),
{
    if s.len() == 0 {
        0
    } else if s[0] == NEWLINE {
        1 + lines_in(s.drop_first())
    } else if s.len() == 1 {
        1
    } else {
        lines_in(s.drop_first())
    }
}

/// Length of the shortest prefix of `s` that holds its first `n` lines
/// (all of `s` when it has fewer).
pub open spec fn line_cut(s: Seq<u8>, n: nat) -> nat
    decreases s.len(),
{
    if n == 0 || s.len() == 0 {
        0
    } else if s[0] == NEWLINE {
        1 + line_cut(s.drop_first(), (n - 1) as nat)
    } else {
        1 + line_cut(s.drop_first(), n)
    }
}

/// Number of newline bytes in `s`.
pub open spec fn newlines_in(s: Seq<u8>) -> nat
    decreases s.len(),
{
    if s.len() == 0 {
        0
    } else {
        (if s[0] == NEWLINE { 1nat } else { 0nat }) + newlines_in(s.drop_first())
    }
}

/// The cut never runs past the end of the input.
pub proof fn lemma_line_cut_bounded(s: Seq<u8>, n: nat)
    ensures
        line_cut(s, n) <= s.len(),
    decreases s.len(),
{
    if n > 0 && s.len() > 0 {
        if s[0] == NEWLINE {
            lemma_line_cut_bounded(s.drop_first(), (n - 1) as nat);
        } else {
            lemma_line_cut_bounded(s.drop_first(), n);
        }
    }
}

/// Taking the first `n` lines yields `min(n, L)` lines, where `L` is the
/// number of lines the input holds.
pub proof fn lemma_take_lines_count(s: Seq<u8>, n: nat)
    ensures
        lines_in(s.take(line_cut(s, n) as int)) == if n <= lines_in(s) { n } else { lines_in(s) },
    decreases s.len(),
{
    lemma_line_cut_bounded(s, n);
    let k = line_cut(s, n);
    let t = s.take(k as int);
    if n == 0 || s.len() == 0 {
        assert(t.len() == 0);
    } else {
        let r = s.drop_first();
        if s[0] == NEWLINE {
            let m = (n - 1) as nat;
            lemma_line_cut_bounded(r, m);
            lemma_take_lines_count(r, m);
            assert(t.drop_first() =~= r.take(line_cut(r, m) as int));
        } else {
            lemma_line_cut_bounded(r, n);
            lemma_take_lines_count(r, n);
            assert(t.drop_first() =~= r.take(line_cut(r, n) as int));
            if r.len() > 0 {
                assert(line_cut(r, n) > 0);
            }
        }
    }
}

/// Cutting `n` lines from input that arrives in two pieces: the cut falls in
/// the first piece when it holds `n` newlines, and otherwise the rest of the
/// lines are taken from the second piece.
pub proof fn lemma_line_cut_split(a: Seq<u8>, b: Seq<u8>, n: nat)
    ensures
        line_cut(a + b, n) == if n <= newlines_in(a) {
            line_cut(a, n)
        } else {
            a.len() + line_cut(b, (n - newlines_in(a)) as nat)
        },
    decreases a.len(),
{
    if a.len() == 0 {
        assert(a + b =~= b);
    } else if n > 0 {
        let m: nat = if a[0] == NEWLINE { (n - 1) as nat } else { n };
        assert((a + b).drop_first() =~= a.drop_first() + b);
        lemma_line_cut_split(a.drop_first(), b, m);
    }
}

/// When the input holds fewer newlines than the lines owed, the cut takes
/// all of it.
pub proof fn lemma_line_cut_whole(s: Seq<u8>, n: nat)
    requires
        newlines_in(s) < n,
    ensures
        line_cut(s, n) == s.len(),
    decreases s.len(),
{
    if s.len() > 0 {
        let m: nat = if s[0] == NEWLINE { (n - 1) as nat } else { n };
        lemma_line_cut_whole(s.drop_first(), m);
    }
}

/// Lines still owed after passing over `s` when `n` were owed before.
pub open spec fn lines_left(s: Seq<u8>, n: nat) -> nat {
    if n <= newlines_in(s) {
        0
    } else {
        (n - newlines_in(s)) as nat
    }
}

/// Walks `data` until `n` newlines have been passed or the data ends; returns
/// how far it went and how many lines are still owed.
fn scan_lines(data: &[u8], n: u32) -> (r: (usize, u32))
    ensures
        r.0 == line_cut(data@, n as nat),
        r.1 == lines_left(data@, n as nat),
        r.0 <= data@.len(),
{
    proof {
        lemma_line_cut_bounded(data@, n as nat);
        assert(data@.subrange(0, data@.len() as int) =~= data@);
    }
    let mut i: usize = 0;
    let mut left: u32 = n;
    while i < data.len() && left > 0
        invariant
            i <= data@.len(),
            left <= n,
            i + line_cut(data@.subrange(i as int, data@.len() as int), left as nat) == line_cut(
                data@,
                n as nat,
            ),
            lines_left(data@.subrange(i as int, data@.len() as int), left as nat) == lines_left(
                data@,
                n as nat,
            ),
        decreases data@.len() - i,
    {
        let ghost rest = data@.subrange(i as int, data@.len() as int);
        assert(rest.drop_first() =~= data@.subrange(i + 1, data@.len() as int));
        if data[i] == NEWLINE {
            left = left - 1;
        }
        i = i + 1;
    }
    (i, left)
}

/// Returns the length of the prefix of `data` that holds its first `n` lines,
/// terminators included; all of `data` when it has `n` lines or fewer.
pub fn take_lines(data: &[u8], n: u32) -> (k: usize)
    ensures
        k == line_cut(data@, n as nat),
        k <= data@.len(),
{
    scan_lines(data, n).0
}

/// Counts down the lines still to be shown of one input whose bytes arrive
/// in pieces.
pub struct LineLimit {
    left: u32,
}

impl LineLimit {
    /// Lines still to be shown.
    pub closed spec fn remaining(&self) -> nat {
        self.left as nat
    }

    /// A limit that lets `n` lines through.
    pub fn new(n: u32) -> (r: LineLimit)
        ensures
            r.remaining() == n,
    {
        LineLimit { left: n }
    }

    /// Whether every line owed has been let through.
    pub fn is_done(&self) -> (r: bool)
        ensures
            r == (self.remaining() == 0),
    {
        self.left == 0
    }

    /// Takes the next piece of input and returns how many of its leading bytes
    /// are to be shown.
    pub fn feed(&mut self, chunk: &[u8]) -> (k: usize)
        ensures
            k == line_cut(chunk@, old(self).remaining()),
            k <= chunk@.len(),
            final(self).remaining() == lines_left(chunk@, old(self).remaining()),
    {
        let (k, left) = scan_lines(chunk, self.left);
        self.left = left;
        k
    }
}

/// Showing an input piece by piece shows exactly what showing it whole
/// would: what a limit lets through of `a`, and then of `b` with the lines
/// still owed, is the first `n` lines of `a + b`.
pub proof fn lemma_feed_in_pieces(a: Seq<u8>, b: Seq<u8>, n: nat)
    ensures
        line_cut(a, n) + line_cut(b, lines_left(a, n)) == line_cut(a + b, n),
{
    lemma_line_cut_split(a, b, n);
    if newlines_in(a) < n {
        lemma_line_cut_whole(a, n);
    }
}

} // verus!
