//! Rounding of decimal numerals to a few significant figures.
//!
//! A number that a human wrote with a few digits, and that some arithmetic has moved off by
//! a little, prints with many digits. Rounding what is printed to six significant figures
//! brings the number back that was written.

use vstd::prelude::*;

verus! {

/// The number of significant figures that are kept.
pub const MAX_SIG_FIGS: usize = 6;

/// The byte of the decimal point.
pub const DOT: u8 = 0x2E;

/// The byte of the digit 0.
pub const ZERO: u8 = 0x30;

/// The byte of the digit 5.
pub const FIVE: u8 = 0x35;

/// The byte of the digit 9.
pub const NINE: u8 = 0x39;

/// Whether every byte of a text is a decimal digit or a decimal point.
pub open spec fn is_numeral(text: Seq<u8>) -> bool {
    forall|i: int| 0 <= i < text.len() ==> ZERO <= #[trigger] text[i] <= NINE || text[i] == DOT
}

/// The number of significant figures among the first `end` bytes of a numeral: the digits
/// from the first one on that is not zero.
pub open spec fn significant_figures(text: Seq<u8>, end: int) -> nat
    decreases end,
{
    if end <= 0 {
        0
    } else {
        let before = significant_figures(text, end - 1);
        if text[end - 1] == DOT || (before == 0 && text[end - 1] == ZERO) {
            before
        } else {
            before + 1
        }
    }
}

/// Whether the byte at `position` is a significant figure.
pub open spec fn is_significant(text: Seq<u8>, position: int) -> bool {
    significant_figures(text, position + 1) > significant_figures(text, position)
}

/// The position of the first significant figure from `from` on that has `before` significant
/// figures before it, or the length of the text if there is none.
pub open spec fn position_of_figure(text: Seq<u8>, before: nat, from: int) -> int
    decreases text.len() - from,
{
    if from >= text.len() {
        text.len() as int
    } else if is_significant(text, from) && significant_figures(text, from) == before {
        from
    } else {
        position_of_figure(text, before, from + 1)
    }
}

/// The numeral with its significant figures among the first `end` bytes set to zero, but for
/// the first [`MAX_SIG_FIGS`] of them.
pub open spec fn cleared(text: Seq<u8>, end: int) -> Seq<u8> {
    Seq::new(
        text.len(),
        |i: int|
            if i < end && is_significant(text, i) && significant_figures(text, i) >= MAX_SIG_FIGS {
                ZERO
            } else {
                text[i]
            },
    )
}

/// The numeral with one added to a digit among its first `end` bytes: to the last one that
/// is not zero, or, once `carrying` a one on from a nine that it has set to zero, to the
/// last one.
pub open spec fn bumped(text: Seq<u8>, end: int, carrying: bool) -> Seq<u8>
    decreases end,
{
    if end <= 0 || end > text.len() {
        text
    } else if text[end - 1] == DOT || (!carrying && text[end - 1] == ZERO) {
        bumped(text, end - 1, carrying)
    } else if text[end - 1] == NINE {
        bumped(text.update(end - 1, ZERO), end - 1, true)
    } else {
        text.update(end - 1, (text[end - 1] + 1) as u8)
    }
}

/// A numeral rounded to [`MAX_SIG_FIGS`] significant figures: the figures after them are
/// set to zero, and if the first of those was 5 or more, one is added to the last figure
/// before them that is not zero.
pub open spec fn nudged(text: Seq<u8>) -> Seq<u8> {
    let position = position_of_figure(text, MAX_SIG_FIGS as nat, 0);
    if position >= text.len() {
        text
    } else if text[position] >= FIVE {
        bumped(cleared(text, text.len() as int), position, false)
    } else {
        cleared(text, text.len() as int)
    }
}

/// Bytes without the figure that is looked for are passed over.
proof fn lemma_position_of_figure_skip(text: Seq<u8>, before: nat, from: int)
    requires
        0 <= from < text.len(),
        !(is_significant(text, from) && significant_figures(text, from) == before),
    ensures
        position_of_figure(text, before, from) == position_of_figure(text, before, from + 1),
{
}

/// Where the first bytes hold no more significant figures than are kept, nothing is cleared
/// among them.
proof fn lemma_cleared_few(text: Seq<u8>, end: int)
    requires
        0 <= end <= text.len(),
        significant_figures(text, end) <= MAX_SIG_FIGS,
    ensures
        cleared(text, end) == text,
{
    assert forall|i: int| 0 <= i < end implies !(is_significant(text, i) && significant_figures(
        text,
        i,
    ) >= MAX_SIG_FIGS) by {
        lemma_significant_figures_grow(text, i + 1, end);
    }
    assert(cleared(text, end) =~= text);
}

/// More bytes hold no fewer significant figures.
proof fn lemma_significant_figures_grow(text: Seq<u8>, end: int, later: int)
    requires
        end <= later,
    ensures
        significant_figures(text, end) <= significant_figures(text, later),
    decreases later - end,
{
    if end < later {
        lemma_significant_figures_grow(text, end, later - 1);
    }
}

/// Adding one to a digit of a numeral leaves a numeral of the same length, with its decimal
/// points where they were.
pub proof fn lemma_bumped_is_numeral(text: Seq<u8>, end: int, carrying: bool)
    requires
        is_numeral(text),
    ensures
        is_numeral(bumped(text, end, carrying)),
        bumped(text, end, carrying).len() == text.len(),
        forall|i: int|
            0 <= i < text.len() ==> (#[trigger] bumped(text, end, carrying)[i] == DOT) == (text[i]
                == DOT),
    decreases end,
{
    if end <= 0 || end > text.len() {
    } else if text[end - 1] == DOT || (!carrying && text[end - 1] == ZERO) {
        lemma_bumped_is_numeral(text, end - 1, carrying);
    } else if text[end - 1] == NINE {
        let zeroed = text.update(end - 1, ZERO);
        lemma_bumped_is_numeral(zeroed, end - 1, true);
        assert forall|i: int| 0 <= i < text.len() implies (#[trigger] bumped(
            text,
            end,
            carrying,
        )[i] == DOT) == (text[i] == DOT) by {
            assert((zeroed[i] == DOT) == (text[i] == DOT));
        }
    } else {
    }
}

/// Rounding a numeral leaves a numeral of the same length, with its decimal points where
/// they were.
pub proof fn lemma_nudged_is_numeral(text: Seq<u8>)
    requires
        is_numeral(text),
    ensures
        is_numeral(nudged(text)),
        nudged(text).len() == text.len(),
        forall|i: int| 0 <= i < text.len() ==> (#[trigger] nudged(text)[i] == DOT) == (text[i] == DOT),
{
    let zeroed = cleared(text, text.len() as int);
    assert forall|i: int| 0 <= i < text.len() implies (ZERO <= #[trigger] zeroed[i] <= NINE
        || zeroed[i] == DOT) && ((zeroed[i] == DOT) == (text[i] == DOT)) by {
        assert(ZERO <= text[i] <= NINE || text[i] == DOT);
    }
    let position = position_of_figure(text, MAX_SIG_FIGS as nat, 0);
    lemma_bumped_is_numeral(zeroed, position, false);
}

/// Adding one to a digit among the first `end` bytes leaves the bytes from `end` on as they
/// were.
proof fn lemma_bumped_keeps_the_rest(text: Seq<u8>, end: int, carrying: bool)
    ensures
        bumped(text, end, carrying).len() == text.len(),
        forall|i: int| end <= i < text.len() ==> #[trigger] bumped(text, end, carrying)[i] == text[i],
    decreases end,
{
    if end <= 0 || end > text.len() {
    } else if text[end - 1] == DOT || (!carrying && text[end - 1] == ZERO) {
        lemma_bumped_keeps_the_rest(text, end - 1, carrying);
    } else if text[end - 1] == NINE {
        lemma_bumped_keeps_the_rest(text.update(end - 1, ZERO), end - 1, true);
    } else {
    }
}

/// The first significant figure from `from` on with `before` figures before it stands at or
/// after `from`, and every byte from there on that is no decimal point is a significant
/// figure with at least `before` figures before it.
proof fn lemma_position_of_figure(text: Seq<u8>, before: nat, from: int)
    requires
        0 <= from <= text.len(),
        before > 0,
    ensures
        from <= position_of_figure(text, before, from) <= text.len(),
        forall|i: int|
            position_of_figure(text, before, from) <= i < text.len() && text[i] != DOT
                ==> #[trigger] is_significant(text, i) && significant_figures(text, i) >= before,
    decreases text.len() - from,
{
    let position = position_of_figure(text, before, from);
    if from < text.len() {
        if is_significant(text, from) && significant_figures(text, from) == before {
            assert forall|i: int| position <= i < text.len() && text[i] != DOT implies #[trigger] is_significant(
                text,
                i,
            ) && significant_figures(text, i) >= before by {
                lemma_significant_figures_grow(text, from, i);
            }
        } else {
            lemma_position_of_figure(text, before, from + 1);
        }
    }
}

/// A rounded numeral has nothing but zeros after its first six significant figures: from the
/// seventh on, every byte is a zero or a decimal point.
pub proof fn lemma_nudged_keeps_six_figures(text: Seq<u8>)
    ensures
        nudged(text).len() == text.len(),
        forall|i: int|
            position_of_figure(text, MAX_SIG_FIGS as nat, 0) <= i < text.len() ==> #[trigger] nudged(
                text,
            )[i] == ZERO || nudged(text)[i] == DOT,
{
    let position = position_of_figure(text, MAX_SIG_FIGS as nat, 0);
    let zeroed = cleared(text, text.len() as int);
    lemma_position_of_figure(text, MAX_SIG_FIGS as nat, 0);
    lemma_bumped_keeps_the_rest(zeroed, position, false);
    assert forall|i: int| position <= i < text.len() implies #[trigger] nudged(text)[i] == ZERO
        || nudged(text)[i] == DOT by {
        if text[i] != DOT {
            assert(is_significant(text, i));
        }
    }
}

/// A numeral with no more significant figures than are kept is left as it is.
pub proof fn lemma_nudged_few_figures(text: Seq<u8>)
    requires
        significant_figures(text, text.len() as int) <= MAX_SIG_FIGS,
    ensures
        nudged(text) == text,
{
    lemma_no_figure_beyond(text, MAX_SIG_FIGS as nat, 0);
}

/// There is no figure with as many figures before it as the text has in all.
proof fn lemma_no_figure_beyond(text: Seq<u8>, before: nat, from: int)
    requires
        0 <= from,
        significant_figures(text, text.len() as int) <= before,
    ensures
        position_of_figure(text, before, from) >= text.len(),
    decreases text.len() - from,
{
    if from < text.len() {
        lemma_significant_figures_grow(text, from + 1, text.len() as int);
        lemma_no_figure_beyond(text, before, from + 1);
    }
}

/// Tests whether every byte of a text is a decimal digit or a decimal point.
pub fn check_numeral(text: &[u8]) -> (r: bool)
    ensures
        r == is_numeral(text@),
{
    let mut i: usize = 0;
    while i < text.len()
        invariant
            i <= text@.len(),
            forall|k: int| 0 <= k < i ==> ZERO <= #[trigger] text@[k] <= NINE || text@[k] == DOT,
        decreases text@.len() - i,
    {
        let byte = text[i];
        if !((ZERO <= byte && byte <= NINE) || byte == DOT) {
            return false;
        }
        i += 1;
    }
    true
}

/// Round a decimal numeral to six significant figures.
///
/// `digits` is a number as it is written without sign or exponent. Returns `None` if it has
/// five bytes or less: so short a numeral is left as it is. Else returns the numeral with a
/// zero in front of it, rounded as [`nudged`] says: with every figure after the sixth
/// significant one set to zero, and one added before them where the seventh was 5 or more.
pub fn fix_decimal_rounding(digits: &[u8]) -> (r: Option<Vec<u8>>)
    requires
        is_numeral(digits@),
    ensures
        r is None <==> digits@.len() < MAX_SIG_FIGS,
        r matches Some(rounded) ==> rounded@ == nudged(seq![ZERO] + digits@),
        r matches Some(rounded) ==> rounded@.len() == digits@.len() + 1 && is_numeral(rounded@),
{
    let len = digits.len();
    if len < MAX_SIG_FIGS {
        return None;
    }
    let ghost text = seq![ZERO] + digits@;
    proof {
        assert(is_numeral(text)) by {
            assert forall|i: int| 0 <= i < text.len() implies ZERO <= #[trigger] text[i] <= NINE
                || text[i] == DOT by {
                if i > 0 {
                    assert(text[i] == digits@[i - 1]);
                }
            }
        }
        lemma_nudged_is_numeral(text);
    }
    let mut written: Vec<u8> = Vec::new();
    written.push(ZERO);
    let mut copied: usize = 0;
    while copied < len
        invariant
            copied <= len,
            len == digits@.len(),
            written@.len() == copied + 1,
            forall|i: int| 0 <= i <= copied ==> written@[i] == text[i],
            text == seq![ZERO] + digits@,
        decreases len - copied,
    {
        written.push(digits[copied]);
        copied += 1;
    }
    assert(written@ =~= text);
    assert(is_numeral(text));

    let mut sig_figs_end: usize = written.len();
    let mut sig_figs_index: usize = 0;
    let mut round_up = false;
    let mut i: usize = 0;
    while i < written.len()
        invariant
            i <= written@.len(),
            written@.len() == text.len(),
            is_numeral(text),
            sig_figs_index == significant_figures(text, i as int),
            sig_figs_index <= i,
            written@ == cleared(text, i as int),
            position_of_figure(text, MAX_SIG_FIGS as nat, 0) == if sig_figs_index <= MAX_SIG_FIGS {
                position_of_figure(text, MAX_SIG_FIGS as nat, i as int)
            } else {
                sig_figs_end as int
            },
            sig_figs_index <= MAX_SIG_FIGS ==> sig_figs_end == text.len(),
            sig_figs_index > MAX_SIG_FIGS ==> sig_figs_end < i && round_up == (text[sig_figs_end as int]
                >= FIVE),
        decreases written@.len() - i,
    {
        let byte = written[i];
        proof {
            assert(byte == text[i as int]);
            assert(significant_figures(text, i + 1) == if byte == DOT || (sig_figs_index == 0 && byte
                == ZERO) {
                sig_figs_index as nat
            } else {
                (sig_figs_index + 1) as nat
            });
        }
        if !(byte == DOT || (sig_figs_index == 0 && byte == ZERO)) {
            if sig_figs_index == MAX_SIG_FIGS {
                sig_figs_end = i;
                round_up = byte >= FIVE;
            } else {
                proof {
                    lemma_position_of_figure_skip(text, MAX_SIG_FIGS as nat, i as int);
                }
            }
            if sig_figs_index >= MAX_SIG_FIGS {
                written.set(i, ZERO);
            }
            sig_figs_index += 1;
        } else {
            proof {
                if sig_figs_index <= MAX_SIG_FIGS {
                    lemma_position_of_figure_skip(text, MAX_SIG_FIGS as nat, i as int);
                }
            }
        }
        proof {
            assert(written@ =~= cleared(text, i + 1));
        }
        i += 1;
    }

    if sig_figs_index <= MAX_SIG_FIGS {
        proof {
            lemma_cleared_few(text, text.len() as int);
        }
        return Some(written);
    }
    if !round_up {
        return Some(written);
    }
    let ghost zeroed = written@;
    assert(nudged(text) == bumped(zeroed, sig_figs_end as int, false));
    let mut j: usize = sig_figs_end;
    let mut carrying = false;
    while j > 0
        invariant
            j <= sig_figs_end < written@.len(),
            written@.len() == text.len(),
            digits@.len() >= MAX_SIG_FIGS,
            text == seq![ZERO] + digits@,
            nudged(text).len() == text.len(),
            is_numeral(nudged(text)),
            nudged(text) == bumped(zeroed, sig_figs_end as int, false),
            forall|k: int| 0 <= k < j ==> ZERO <= #[trigger] written@[k] <= NINE || written@[k] == DOT,
            bumped(zeroed, sig_figs_end as int, false) == bumped(written@, j as int, carrying),
        decreases j,
    {
        j -= 1;
        let byte = written[j];
        if byte == DOT || (!carrying && byte == ZERO) {
        } else if byte == NINE {
            written.set(j, ZERO);
            carrying = true;
        } else {
            written.set(j, byte + 1);
            return Some(written);
        }
    }
    Some(written)
}

} // verus!
