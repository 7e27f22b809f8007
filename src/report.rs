//! What frames each input in the output: the header that names it when a run
//! has several inputs, the blank line between headers, and the line that
//! reports an input that could not be opened.

use vstd::prelude::*;

verus! {

/// The header line naming `t`: `==> t <==` and a newline.
pub open spec fn banner(t: Seq<char>) -> Seq<char> {
    seq!['=', '=', '>', ' '] + t + seq![' ', '<', '=', '=', '\n']
}

/// The text shown before the content of an input named `t` that opened: in a
/// run of several inputs its header, after a blank line unless it is the first
/// input to open; nothing in a run of one.
pub open spec fn header_text(multi: bool, first: bool, t: Seq<char>) -> Seq<char> {
    if !multi {
        Seq::empty()
    } else if first {
        banner(t)
    } else {
        seq!['\n'] + banner(t)
    }
}

/// Whether no input has opened yet after the inputs whose outcomes are
/// `opened` (`true` for each one that opened), starting from `first`.
pub open spec fn first_after(multi: bool, first: bool, opened: Seq<bool>) -> bool
    decreases opened.len(),
{
    if opened.len() == 0 {
        first
    } else if opened.last() {
        first_after(multi, first, opened.drop_last()) && !multi
    } else {
        first_after(multi, first, opened.drop_last())
    }
}

/// The line reporting that input `t` could not be opened, for `reason`.
pub open spec fn open_error_text(t: Seq<char>, reason: Seq<char>) -> Seq<char> {
    t + seq![':', ' '] + reason
}

/// The two facts a run carries from one input to the next.
pub struct RunState {
    multi: bool,
    first: bool,
}

impl RunState {
    /// Whether the run has more than one input token.
    pub closed spec fn is_multi(&self) -> bool {
        self.multi
    }

    /// Whether no input has opened yet (in a run of several).
    pub closed spec fn is_first(&self) -> bool {
        self.first
    }

    /// The state at the start of a run over `token_count` inputs.
    pub fn new(token_count: usize) -> (r: RunState)
        ensures
            r.is_multi() == (token_count > 1),
            r.is_first(),
    {
        RunState { multi: token_count > 1, first: true }
    }

    /// Whether the run has more than one input token.
    pub fn multi(&self) -> (r: bool)
        ensures
            r == self.is_multi(),
    {
        self.multi
    }

    /// Records that input `token` opened and returns what to show before its
    /// content.
    pub fn opened(&mut self, token: &str) -> (r: String)
        ensures
            r@ == header_text(old(self).is_multi(), old(self).is_first(), token@),
            final(self).is_multi() == old(self).is_multi(),
            final(self).is_first() == (old(self).is_first() && !old(self).is_multi()),
    {
        if !self.multi {
            return String::new();
        }
        let mut r = if self.first {
            String::new()
        } else {
            String::from_str("\n")
        };
        r.append("==> ");
        r.append(token);
        r.append(" <==\n");
        proof {
            reveal_strlit("\n");
            reveal_strlit("==> ");
            reveal_strlit(" <==\n");
            assert(r@ =~= header_text(self.multi, self.first, token@));
        }
        self.first = false;
        r
    }
}

/// Returns the line (without its newline) that reports that input `token`
/// could not be opened, for `reason`.
pub fn open_error_line(token: &str, reason: &str) -> (r: String)
    ensures
        r@ == open_error_text(token@, reason@),
{
    let mut r = String::from_str(token);
    r.append(": ");
    r.append(reason);
    proof {
        reveal_strlit(": ");
        assert(r@ =~= open_error_text(token@, reason@));
    }
    r
}

/// A run over a single input (or none) shows no header, whatever its state.
pub proof fn lemma_single_input_no_header(token_count: nat, first: bool, t: Seq<char>)
    requires
        token_count <= 1,
    ensures
        header_text(token_count > 1, first, t) == Seq::<char>::empty(),
{
}

/// In a run of several inputs no input has opened yet exactly while none of
/// the outcomes so far is an open.
pub proof fn lemma_first_until_opened(opened: Seq<bool>)
    ensures
        first_after(true, true, opened) == !(exists|j: int| 0 <= j < opened.len() && opened[j]),
    decreases opened.len(),
{
    if opened.len() > 0 {
        let before = opened.drop_last();
        lemma_first_until_opened(before);
        if exists|j: int| 0 <= j < before.len() && before[j] {
            let j = choose|j: int| 0 <= j < before.len() && before[j];
            assert(opened[j]);
        }
        if exists|j: int| 0 <= j < opened.len() && opened[j] {
            let j = choose|j: int| 0 <= j < opened.len() && opened[j];
            if j < before.len() {
                assert(before[j]);
            }
        }
    }
}

/// In a run of several inputs, input `i`, once it opens, is shown after its
/// header, and the header follows a blank line exactly when an earlier input
/// opened: every header but the first is set off by one blank line.
pub proof fn lemma_headers_in_multi_run(opened: Seq<bool>, i: int, t: Seq<char>)
    requires
        0 <= i < opened.len(),
        opened[i],
    ensures
        header_text(true, first_after(true, true, opened.take(i)), t) == if exists|j: int|
            0 <= j < i && opened[j] {
            seq!['\n'] + banner(t)
        } else {
            banner(t)
        },
{
    let before = opened.take(i);
    lemma_first_until_opened(before);
    if exists|j: int| 0 <= j < i && opened[j] {
        let j = choose|j: int| 0 <= j < i && opened[j];
        assert(before[j]);
    }
    if exists|j: int| 0 <= j < before.len() && before[j] {
        let j = choose|j: int| 0 <= j < before.len() && before[j];
        assert(opened[j]);
    }
}

} // verus!
