//! Grapheme-cluster segmentation and column widths.
//!
//! Unicode segmentation and width lookup are done by outside crates; the
//! spec-level names `graphemes_of`, `word_bounds_of`, `standard_width_of`
//! and `wide_width_of` stand for their results, and every contract in the
//! library speaks of those names. A [`Grapheme`] is an owned string that
//! is known to hold exactly one extended grapheme cluster.

use vstd::prelude::*;
use vstd::string::StrSliceExecFns;
use vstd::string::StringSliceAdditionalSpecFns;
use vstd::utf8::encode_utf8;
use unicode_segmentation::UnicodeSegmentation;
use unicode_width::UnicodeWidthStr;

verus! {

/// How East-Asian-ambiguous characters are counted: `Standard` gives them
/// one column, `Wide` gives them two.
#[derive(Clone, Copy, Debug, PartialEq, Eq, Structural)]
pub enum AmbiguityPolicy {
    Standard,
    Wide,
}

/// The columns a string occupies when ambiguous characters count as 1.
pub uninterp spec fn standard_width_of(s: Seq<char>) -> nat;

/// The columns a string occupies when ambiguous characters count as 2.
pub uninterp spec fn wide_width_of(s: Seq<char>) -> nat;

/// The extended grapheme clusters of a string, in order.
pub uninterp spec fn graphemes_of(s: Seq<char>) -> Seq<Seq<char>>;

/// The substrings of a string split at Unicode word boundaries, in order.
pub uninterp spec fn word_bounds_of(s: Seq<char>) -> Seq<Seq<char>>;

pub open spec fn grapheme_width_of(s: Seq<char>, policy: AmbiguityPolicy) -> nat {
    match policy {
        AmbiguityPolicy::Standard => standard_width_of(s),
        AmbiguityPolicy::Wide => wide_width_of(s),
    }
}

/// A string that segments to exactly one grapheme cluster: itself.
pub open spec fn is_single_grapheme(s: Seq<char>) -> bool {
    graphemes_of(s) == seq![s]
}

/// A single printable (graphic or space) ASCII character.
pub open spec fn is_ascii_graphic(s: Seq<char>) -> bool {
    s.len() == 1 && ' ' <= s[0] && s[0] <= '~'
}

pub open spec fn concat_seqs(ss: Seq<Seq<char>>) -> Seq<char>
    decreases ss.len(),
{
    if ss.len() == 0 {
        Seq::empty()
    } else {
        ss[0] + concat_seqs(ss.drop_first())
    }
}

/// The views of a sequence of graphemes.
pub open spec fn views_of(gs: Seq<Grapheme>) -> Seq<Seq<char>> {
    gs.map_values(|g: Grapheme| g@)
}

pub open spec fn sum_lens(ss: Seq<Seq<char>>) -> nat
    decreases ss.len(),
{
    if ss.len() == 0 {
        0
    } else {
        ss[0].len() + sum_lens(ss.drop_first())
    }
}

pub proof fn lemma_concat_len_sum(ss: Seq<Seq<char>>)
    ensures
        concat_seqs(ss).len() == sum_lens(ss),
    decreases ss.len(),
{
    if ss.len() > 0 {
        lemma_concat_len_sum(ss.drop_first());
    }
}

pub proof fn lemma_concat_all_nonempty_len(ss: Seq<Seq<char>>)
    requires
        forall|i: int| 0 <= i < ss.len() ==> (#[trigger] ss[i]).len() > 0,
    ensures
        concat_seqs(ss).len() >= ss.len(),
    decreases ss.len(),
{
    if ss.len() > 0 {
        lemma_concat_all_nonempty_len(ss.drop_first());
    }
}

/// A short string segments to itself: if the parts are nonempty and
/// concatenate to a one-character string, there is exactly one part.
proof fn lemma_singleton_parts(ss: Seq<Seq<char>>, s: Seq<char>)
    requires
        concat_seqs(ss) == s,
        forall|i: int| 0 <= i < ss.len() ==> (#[trigger] ss[i]).len() > 0,
        s.len() == 1,
    ensures
        ss =~= seq![s],
{
    lemma_concat_all_nonempty_len(ss);
    if ss.len() == 1 {
        assert(concat_seqs(ss.drop_first()) =~= Seq::<char>::empty());
        assert(ss[0] =~= s);
    } else {
        assert(ss.len() > 1);
        assert(ss.drop_first()[0] == ss[1]);
        lemma_concat_all_nonempty_len(ss.drop_first());
        assert(concat_seqs(ss).len() >= ss[0].len() + ss.len() - 1 >= 2);
    }
}

/// Relies on `unicode_segmentation::UnicodeSegmentation::graphemes` with
/// extended clusters: the pieces partition the input at extended grapheme
/// cluster boundaries, each piece is nonempty, and a piece taken alone
/// segments to itself (UAX #29 boundaries are reproducible on the piece).
#[verifier::external_body]
fn split_graphemes(s: &str) -> (r: Vec<String>)
    ensures
        r.deep_view() == graphemes_of(s@),
        concat_seqs(r.deep_view()) == s@,
        forall|i: int| 0 <= i < r.deep_view().len() ==> (#[trigger] r.deep_view()[i]).len() > 0,
        forall|i: int|
            0 <= i < r.deep_view().len() ==> graphemes_of(#[trigger] r.deep_view()[i]) == seq![
                r.deep_view()[i],
            ],
{
    s.graphemes(true).map(|g| g.to_owned()).collect()
}

/// Relies on `unicode_segmentation::UnicodeSegmentation::split_word_bounds`:
/// the pieces partition the input at UAX #29 word boundaries ("the
/// concatenation of the substrings returned by this function is just the
/// original string"), and each piece is nonempty.
#[verifier::external_body]
fn split_word_bounds_vec(s: &str) -> (r: Vec<String>)
    ensures
        r.deep_view() == word_bounds_of(s@),
        concat_seqs(r.deep_view()) == s@,
        forall|i: int| 0 <= i < r.deep_view().len() ==> (#[trigger] r.deep_view()[i]).len() > 0,
{
    s.split_word_bounds().map(|w| w.to_owned()).collect()
}

/// Relies on `unicode_width::UnicodeWidthStr::width`: ambiguous characters
/// count as one column, and a printable ASCII character is exactly one
/// column wide.
#[verifier::external_body]
fn width_standard(s: &str) -> (r: usize)
    ensures
        r as nat == standard_width_of(s@),
        is_ascii_graphic(s@) ==> r == 1,
{
    UnicodeWidthStr::width(s)
}

/// Relies on `unicode_width::UnicodeWidthStr::width_cjk`: the same width
/// rules as `width`, except that ambiguous characters count as two columns
/// instead of one, so the result is never smaller than `width`'s.
#[verifier::external_body]
fn width_wide(s: &str) -> (r: usize)
    ensures
        r as nat == wide_width_of(s@),
        r as nat >= standard_width_of(s@),
        is_ascii_graphic(s@) ==> r == 1,
{
    UnicodeWidthStr::width_cjk(s)
}

/// Relies on `String::push`: appends the given character to the string.
#[verifier::external_body]
fn char_to_string(c: char) -> (r: String)
    ensures
        r@ == seq![c],
{
    let mut s = String::new();
    s.push(c);
    s
}

/// An owned string holding exactly one extended grapheme cluster.
#[derive(Debug)]
pub struct Grapheme {
    text: String,
}

impl Clone for Grapheme {
    fn clone(&self) -> (r: Self)
        ensures
            r@ == self@,
    {
        Grapheme { text: self.text.clone() }
    }
}

impl View for Grapheme {
    type V = Seq<char>;

    closed spec fn view(&self) -> Seq<char> {
        self.text@
    }
}

impl Grapheme {
    pub open spec fn wf(&self) -> bool {
        is_single_grapheme(self@) && self@.len() > 0
    }

    /// Wrap an already-segmented cluster.
    pub(crate) fn from_owned(text: String) -> (r: Self)
        requires
            is_single_grapheme(text@),
            text@.len() > 0,
        ensures
            r@ == text@,
            r.wf(),
    {
        Grapheme { text }
    }

    /// All grapheme clusters of a string, in order.
    pub fn from_str(s: &str) -> (r: Vec<Grapheme>)
        ensures
            views_of(r@) == graphemes_of(s@),
            concat_seqs(views_of(r@)) == s@,
            forall|i: int| 0 <= i < r@.len() ==> (#[trigger] r@[i]).wf(),
            forall|i: int| 0 <= i < r@.len() ==> (#[trigger] r@[i])@.len() > 0,
    {
        let parts = split_graphemes(s);
        let mut out: Vec<Grapheme> = Vec::new();
        let ghost target = parts.deep_view();
        let n = parts.len();
        let mut i: usize = 0;
        while i < n
            invariant
                n == parts.len(),
                i <= n,
                parts.deep_view() == target,
                target == graphemes_of(s@),
                concat_seqs(target) == s@,
                forall|j: int| 0 <= j < n ==> (#[trigger] target[j]).len() > 0,
                forall|j: int| 0 <= j < n ==> graphemes_of(#[trigger] target[j]) == seq![target[j]],
                out@.len() == i,
                forall|j: int| 0 <= j < i ==> (#[trigger] out@[j])@ == target[j],
                forall|j: int| 0 <= j < i ==> (#[trigger] out@[j]).wf(),
            decreases n - i,
        {
            let g = parts[i].clone();
            assert(g@ == target[i as int]);
            out.push(Grapheme::from_owned(g));
            i += 1;
        }
        proof {
            assert(views_of(out@) =~= target);
        }
        out
    }

    /// The first grapheme cluster of a string, if the string is nonempty.
    pub fn from_single_grapheme_str(s: &str) -> (r: Option<Grapheme>)
        ensures
            graphemes_of(s@).len() == 0 ==> r is None,
            graphemes_of(s@).len() > 0 ==> (r matches Some(g) && g@ == graphemes_of(s@)[0]
                && g.wf()),
    {
        let mut parts = split_graphemes(s);
        if parts.len() == 0 {
            None
        } else {
            let first = parts.remove(0);
            Some(Grapheme::from_owned(first))
        }
    }

    /// A single character is always a whole grapheme cluster.
    pub fn from_char(c: char) -> (r: Grapheme)
        ensures
            r@ == seq![c],
            r.wf(),
    {
        let text = char_to_string(c);
        // Segmenting the one-character string is what establishes that it
        // forms a single cluster: nonempty pieces concatenating to one
        // character leave room for exactly one piece, the string itself.
        let pieces = split_graphemes(text.as_str());
        proof {
            lemma_singleton_parts(graphemes_of(text@), text@);
        }
        Grapheme { text }
    }

    pub fn as_str(&self) -> (r: &str)
        ensures
            r@ == self@,
    {
        self.text.as_str()
    }

    /// The length of the cluster in UTF-8 bytes.
    pub fn len(&self) -> (r: usize)
        ensures
            r == encode_utf8(self@).len(),
    {
        let b = self.text.as_str().as_bytes();
        proof {
            vstd::slice::axiom_spec_len(b);
        }
        b.len()
    }

    /// The columns this grapheme occupies under the given policy.
    ///
    /// The width under `Standard` never exceeds the width under `Wide`,
    /// and a printable ASCII grapheme is exactly one column wide under
    /// both policies.
    pub fn width(&self, policy: AmbiguityPolicy) -> (r: usize)
        ensures
            r as nat == grapheme_width_of(self@, policy),
            standard_width_of(self@) <= wide_width_of(self@),
            is_ascii_graphic(self@) ==> standard_width_of(self@) == 1 && wide_width_of(self@)
                == 1,
    {
        let standard = self.width_normal();
        let wide = self.width_cjk();
        match policy {
            AmbiguityPolicy::Standard => standard,
            AmbiguityPolicy::Wide => wide,
        }
    }

    /// The columns this grapheme occupies with ambiguous characters narrow.
    pub fn width_normal(&self) -> (r: usize)
        ensures
            r as nat == standard_width_of(self@),
            is_ascii_graphic(self@) ==> r == 1,
    {
        width_standard(self.text.as_str())
    }

    /// The columns this grapheme occupies with ambiguous characters wide.
    pub fn width_cjk(&self) -> (r: usize)
        ensures
            r as nat == wide_width_of(self@),
            r as nat >= standard_width_of(self@),
            is_ascii_graphic(self@) ==> r == 1,
    {
        width_wide(self.text.as_str())
    }

    /// Whether this grapheme is the line feed cluster.
    pub fn is_newline(&self) -> (r: bool)
        ensures
            r == (self@ == seq!['\n']),
    {
        let s = self.text.as_str();
        if s.unicode_len() == 1 {
            let c = s.get_char(0);
            proof {
                if c == '\n' {
                    assert(self@ =~= seq!['\n']);
                }
            }
            c == '\n'
        } else {
            false
        }
    }

    /// Whether this grapheme is a line break cluster: a bare line feed,
    /// or the carriage-return/line-feed pair (one cluster under UAX #29).
    pub fn is_line_break(&self) -> (r: bool)
        ensures
            r == (self@ == seq!['\n'] || self@ == seq!['\r', '\n']),
    {
        let s = self.text.as_str();
        let n = s.unicode_len();
        if n == 1 {
            let c = s.get_char(0);
            proof {
                if c == '\n' {
                    assert(self@ =~= seq!['\n']);
                }
            }
            c == '\n'
        } else if n == 2 {
            let c0 = s.get_char(0);
            let c1 = s.get_char(1);
            proof {
                if c0 == '\r' && c1 == '\n' {
                    assert(self@ =~= seq!['\r', '\n']);
                }
            }
            c0 == '\r' && c1 == '\n'
        } else {
            false
        }
    }
}

/// The substrings of a string split at Unicode word boundaries.
pub fn word_chunks(s: &str) -> (r: Vec<String>)
    ensures
        r.deep_view() == word_bounds_of(s@),
        concat_seqs(r.deep_view()) == s@,
        forall|i: int| 0 <= i < r.deep_view().len() ==> (#[trigger] r.deep_view()[i]).len() > 0,
{
    split_word_bounds_vec(s)
}

} // verus!
