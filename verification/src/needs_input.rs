//! Heuristic detection of interactive confirmation prompts in a line of
//! process output.
//!
//! The detector holds a fixed, ordered set of prompt patterns: the literal
//! answer markers `(y/n)`, `(Y/n)` and `(yes/no)` are matched case
//! sensitively; the phrase patterns (`confirm ... ?`, `continue?`,
//! `proceed?`, `allow ... ?`, `do you want to`) are matched case
//! insensitively, with ASCII word boundaries so that words such as
//! "confirmation" do not trigger. This is a heuristic, not a protocol: a
//! missed prompt is recovered by the orchestrator's output timeout.

use vstd::prelude::*;
use vstd::string::StringSliceAdditionalSpecFns;

verus! {

pub open spec fn is_word_byte(b: u8) -> bool {
    (97 <= b <= 122) || (65 <= b <= 90) || (48 <= b <= 57) || b == 95
}

pub open spec fn is_space_byte(b: u8) -> bool {
    b == 32 || b == 9 || b == 10 || b == 13 || b == 11 || b == 12
}

pub open spec fn lower_byte(b: u8) -> u8 {
    if 65 <= b <= 90 {
        (b + 32) as u8
    } else {
        b
    }
}

pub open spec fn lower_bytes(s: Seq<u8>) -> Seq<u8> {
    s.map_values(|b: u8| lower_byte(b))
}

/// `pat` occurs in `s` starting at position `i`.
pub open spec fn matches_at(s: Seq<u8>, pat: Seq<u8>, i: int) -> bool {
    0 <= i && i + pat.len() <= s.len() && s.subrange(i, i + pat.len()) == pat
}

pub open spec fn contains_pat(s: Seq<u8>, pat: Seq<u8>) -> bool {
    exists|i: int| matches_at(s, pat, i)
}

/// An ASCII word boundary on the left of position `i`.
pub open spec fn boundary_before(s: Seq<u8>, i: int) -> bool {
    i == 0 || !is_word_byte(s[i - 1])
}

/// An ASCII word boundary at position `p` (the position after a match).
pub open spec fn boundary_after(s: Seq<u8>, p: int) -> bool {
    p >= s.len() || !is_word_byte(s[p])
}

/// A `?` appears at or after position `p`, with no line break before it.
pub open spec fn question_after(s: Seq<u8>, p: int) -> bool {
    exists|j: int| p <= j < s.len() && s[j] == 63 && (forall|k: int| p <= k < j ==> s[k] != 10)
}

/// A `?` appears at or after position `p`, with only whitespace before it.
pub open spec fn question_after_spaces(s: Seq<u8>, p: int) -> bool {
    exists|j: int|
        p <= j < s.len() && s[j] == 63 && (forall|k: int| p <= k < j ==> is_space_byte(s[k]))
}

/// `pat` occurs at `i` with boundaries on both sides and a `?` later in the
/// line: the shape of the `confirm ... ?` and `allow ... ?` patterns.
pub open spec fn word_then_question_at(s: Seq<u8>, pat: Seq<u8>, i: int) -> bool {
    matches_at(s, pat, i) && boundary_before(s, i) && boundary_after(s, i + pat.len())
        && question_after(s, i + pat.len())
}

pub open spec fn word_then_question(s: Seq<u8>, pat: Seq<u8>) -> bool {
    exists|i: int| word_then_question_at(s, pat, i)
}

/// `pat` occurs at `i` with a left boundary, followed by optional whitespace
/// and a `?`: the shape of `continue?` and `proceed?`.
pub open spec fn word_then_prompt_at(s: Seq<u8>, pat: Seq<u8>, i: int) -> bool {
    matches_at(s, pat, i) && boundary_before(s, i) && question_after_spaces(s, i + pat.len())
}

pub open spec fn word_then_prompt(s: Seq<u8>, pat: Seq<u8>) -> bool {
    exists|i: int| word_then_prompt_at(s, pat, i)
}

/// `pat` occurs at `i` with a right boundary after it: the shape of
/// `do you want to`.
pub open spec fn phrase_with_boundary_at(s: Seq<u8>, pat: Seq<u8>, i: int) -> bool {
    matches_at(s, pat, i) && boundary_after(s, i + pat.len())
}

pub open spec fn phrase_with_boundary(s: Seq<u8>, pat: Seq<u8>) -> bool {
    exists|i: int| phrase_with_boundary_at(s, pat, i)
}

pub open spec fn pat_yn() -> Seq<u8> {
    seq![40, 121, 47, 110, 41]
}

pub open spec fn pat_cap_yn() -> Seq<u8> {
    seq![40, 89, 47, 110, 41]
}

pub open spec fn pat_yes_no() -> Seq<u8> {
    seq![40, 121, 101, 115, 47, 110, 111, 41]
}

pub open spec fn pat_confirm() -> Seq<u8> {
    seq![99, 111, 110, 102, 105, 114, 109]
}

pub open spec fn pat_continue() -> Seq<u8> {
    seq![99, 111, 110, 116, 105, 110, 117, 101]
}

pub open spec fn pat_proceed() -> Seq<u8> {
    seq![112, 114, 111, 99, 101, 101, 100]
}

pub open spec fn pat_allow() -> Seq<u8> {
    seq![97, 108, 108, 111, 119]
}

pub open spec fn pat_want() -> Seq<u8> {
    seq![100, 111, 32, 121, 111, 117, 32, 119, 97, 110, 116, 32, 116, 111]
}

/// The whole heuristic: a line asks for input when any of the fixed patterns
/// matches it (the phrase patterns on its lowercased form).
pub open spec fn needs_input_line(s: Seq<u8>) -> bool {
    ||| contains_pat(s, pat_yn())
    ||| contains_pat(s, pat_cap_yn())
    ||| contains_pat(s, pat_yes_no())
    ||| word_then_question(lower_bytes(s), pat_confirm())
    ||| word_then_prompt(lower_bytes(s), pat_continue())
    ||| word_then_prompt(lower_bytes(s), pat_proceed())
    ||| word_then_question(lower_bytes(s), pat_allow())
    ||| phrase_with_boundary(lower_bytes(s), pat_want())
}

fn to_lower_vec(s: &[u8]) -> (r: Vec<u8>)
    ensures
        r@ == lower_bytes(s@),
{
    let mut r: Vec<u8> = Vec::new();
    let mut i: usize = 0;
    while i < s.len()
        invariant
            i <= s.len(),
            r@.len() == i,
            forall|k: int| 0 <= k < i ==> r@[k] == lower_byte(s@[k]),
        decreases s.len() - i,
    {
        let b = s[i];
        if 65 <= b && b <= 90 {
            r.push(b + 32);
        } else {
            r.push(b);
        }
        i = i + 1;
    }
    assert(r@ =~= lower_bytes(s@));
    r
}

fn matches_at_exec(s: &[u8], pat: &[u8], i: usize) -> (r: bool)
    requires
        i + pat@.len() <= s@.len(),
    ensures
        r == matches_at(s@, pat@, i as int),
{
    let n = s.len();
    let mut j: usize = 0;
    while j < pat.len()
        invariant
            j <= pat@.len(),
            i + pat@.len() <= s@.len(),
            n == s@.len(),
            forall|k: int| 0 <= k < j ==> s@[i + k] == pat@[k],
        decreases pat@.len() - j,
    {
        if s[i + j] != pat[j] {
            assert(s@.subrange(i as int, i + pat@.len())[j as int] != pat@[j as int]);
            return false;
        }
        j = j + 1;
    }
    assert(s@.subrange(i as int, i + pat@.len()) =~= pat@);
    true
}

fn contains_exec(s: &[u8], pat: &[u8]) -> (r: bool)
    requires
        pat@.len() >= 1,
    ensures
        r == contains_pat(s@, pat@),
{
    if pat.len() > s.len() {
        return false;
    }
    let n = s.len();
    let last = s.len() - pat.len();
    let mut i: usize = 0;
    while i <= last
        invariant
            1 <= pat@.len(),
            n == s@.len(),
            last == s@.len() - pat@.len(),
            i <= last + 1,
            forall|k: int| 0 <= k < i ==> !matches_at(s@, pat@, k),
        decreases last + 1 - i,
    {
        if matches_at_exec(s, pat, i) {
            return true;
        }
        i = i + 1;
    }
    false
}

fn question_after_exec(s: &[u8], p: usize) -> (r: bool)
    requires
        p <= s@.len(),
    ensures
        r == question_after(s@, p as int),
{
    let mut j: usize = p;
    while j < s.len()
        invariant
            p <= j <= s@.len(),
            forall|k: int| p <= k < j ==> s@[k] != 63 && s@[k] != 10,
        decreases s@.len() - j,
    {
        if s[j] == 63 {
            return true;
        }
        if s[j] == 10 {
            return false;
        }
        j = j + 1;
    }
    false
}

fn question_after_spaces_exec(s: &[u8], p: usize) -> (r: bool)
    requires
        p <= s@.len(),
    ensures
        r == question_after_spaces(s@, p as int),
{
    let mut j: usize = p;
    while j < s.len()
        invariant
            p <= j <= s@.len(),
            forall|k: int| p <= k < j ==> s@[k] != 63 && is_space_byte(s@[k]),
        decreases s@.len() - j,
    {
        let b = s[j];
        if b == 63 {
            return true;
        }
        if !(b == 32 || b == 9 || b == 10 || b == 13 || b == 11 || b == 12) {
            return false;
        }
        j = j + 1;
    }
    false
}

fn is_word_exec(b: u8) -> (r: bool)
    ensures
        r == is_word_byte(b),
{
    (97 <= b && b <= 122) || (65 <= b && b <= 90) || (48 <= b && b <= 57) || b == 95
}

fn word_then_question_exec(s: &[u8], pat: &[u8]) -> (r: bool)
    requires
        pat@.len() >= 1,
    ensures
        r == word_then_question(s@, pat@),
{
    if pat.len() > s.len() {
        return false;
    }
    let n = s.len();
    let last = s.len() - pat.len();
    let mut i: usize = 0;
    while i <= last
        invariant
            1 <= pat@.len(),
            n == s@.len(),
            last == s@.len() - pat@.len(),
            i <= last + 1,
            forall|k: int| 0 <= k < i ==> !word_then_question_at(s@, pat@, k),
        decreases last + 1 - i,
    {
        if matches_at_exec(s, pat, i) {
            let left_ok = i == 0 || !is_word_exec(s[i - 1]);
            let end = i + pat.len();
            let right_ok = end >= s.len() || !is_word_exec(s[end]);
            if left_ok && right_ok && question_after_exec(s, end) {
                assert(word_then_question_at(s@, pat@, i as int));
                return true;
            }
        }
        i = i + 1;
    }
    false
}

fn word_then_prompt_exec(s: &[u8], pat: &[u8]) -> (r: bool)
    requires
        pat@.len() >= 1,
    ensures
        r == word_then_prompt(s@, pat@),
{
    if pat.len() > s.len() {
        return false;
    }
    let n = s.len();
    let last = s.len() - pat.len();
    let mut i: usize = 0;
    while i <= last
        invariant
            1 <= pat@.len(),
            n == s@.len(),
            last == s@.len() - pat@.len(),
            i <= last + 1,
            forall|k: int| 0 <= k < i ==> !word_then_prompt_at(s@, pat@, k),
        decreases last + 1 - i,
    {
        if matches_at_exec(s, pat, i) {
            let left_ok = i == 0 || !is_word_exec(s[i - 1]);
            if left_ok && question_after_spaces_exec(s, i + pat.len()) {
                assert(word_then_prompt_at(s@, pat@, i as int));
                return true;
            }
        }
        i = i + 1;
    }
    false
}

fn phrase_with_boundary_exec(s: &[u8], pat: &[u8]) -> (r: bool)
    requires
        pat@.len() >= 1,
    ensures
        r == phrase_with_boundary(s@, pat@),
{
    if pat.len() > s.len() {
        return false;
    }
    let n = s.len();
    let last = s.len() - pat.len();
    let mut i: usize = 0;
    while i <= last
        invariant
            1 <= pat@.len(),
            n == s@.len(),
            last == s@.len() - pat@.len(),
            i <= last + 1,
            forall|k: int| 0 <= k < i ==> !phrase_with_boundary_at(s@, pat@, k),
        decreases last + 1 - i,
    {
        if matches_at_exec(s, pat, i) {
            let end = i + pat.len();
            if end >= s.len() || !is_word_exec(s[end]) {
                assert(phrase_with_boundary_at(s@, pat@, i as int));
                return true;
            }
        }
        i = i + 1;
    }
    false
}

/// The stateless prompt classifier.
pub struct NeedsInputDetector {}

impl NeedsInputDetector {
    pub fn new() -> (d: NeedsInputDetector) {
        NeedsInputDetector {  }
    }

    /// Classify one line of raw output bytes.
    pub fn check_bytes(&self, line: &[u8]) -> (r: bool)
        ensures
            r == needs_input_line(line@),
    {
        let lowered = to_lower_vec(line);

        let yn = vec![40u8, 121, 47, 110, 41];
        assert(yn@ =~= pat_yn());
        let cap_yn = vec![40u8, 89, 47, 110, 41];
        assert(cap_yn@ =~= pat_cap_yn());
        let yes_no = vec![40u8, 121, 101, 115, 47, 110, 111, 41];
        assert(yes_no@ =~= pat_yes_no());
        let confirm = vec![99u8, 111, 110, 102, 105, 114, 109];
        assert(confirm@ =~= pat_confirm());
        let cont = vec![99u8, 111, 110, 116, 105, 110, 117, 101];
        assert(cont@ =~= pat_continue());
        let proceed = vec![112u8, 114, 111, 99, 101, 101, 100];
        assert(proceed@ =~= pat_proceed());
        let allow = vec![97u8, 108, 108, 111, 119];
        assert(allow@ =~= pat_allow());
        let want = vec![100u8, 111, 32, 121, 111, 117, 32, 119, 97, 110, 116, 32, 116, 111];
        assert(want@ =~= pat_want());

        contains_exec(line, yn.as_slice()) || contains_exec(line, cap_yn.as_slice())
            || contains_exec(line, yes_no.as_slice()) || word_then_question_exec(
            lowered.as_slice(),
            confirm.as_slice(),
        ) || word_then_prompt_exec(lowered.as_slice(), cont.as_slice()) || word_then_prompt_exec(
            lowered.as_slice(),
            proceed.as_slice(),
        ) || word_then_question_exec(lowered.as_slice(), allow.as_slice())
            || phrase_with_boundary_exec(lowered.as_slice(), want.as_slice())
    }

    /// Classify one line of text.
    pub fn check(&self, text: &str) -> (r: bool)
        ensures
            r == needs_input_line(text.spec_bytes()),
    {
        self.check_bytes(text.as_bytes())
    }
}

} // verus!
