//! Terminal helpers: how many rows a text occupies when wrapped, and the
//! choice of one message among several.

use crate::cancel::Cancellation;
use crate::graphemes::{grapheme_clusters, graphemes};
use vstd::arithmetic::div_mod::{
    lemma_fundamental_div_mod, lemma_fundamental_div_mod_converse, lemma_mod_pos_bound,
};
use vstd::prelude::*;

verus! {

/// A lone carriage return or byte-order mark occupies no column.
pub open spec fn is_zero_width(cluster: Seq<char>) -> bool {
    cluster == seq!['\r'] || cluster == seq!['\u{FEFF}']
}

/// A lone line feed ends the row.
pub open spec fn is_newline(cluster: Seq<char>) -> bool {
    cluster == seq!['\n']
}

/// Progress of a wrap: rows already closed and columns used on the open row.
pub struct Wrap {
    pub breaks: nat,
    pub width: nat,
}

/// The wrap after one more cluster. A cluster that does not fit any more
/// closes the row and opens the next one with its own character count.
pub open spec fn wrap_step(before: Wrap, cluster: Seq<char>, max_width: nat) -> Wrap {
    if is_zero_width(cluster) {
        before
    } else if is_newline(cluster) {
        Wrap { breaks: before.breaks + 1, width: 0 }
    } else if before.width + 1 > max_width {
        Wrap { breaks: before.breaks + 1, width: cluster.len() }
    } else {
        Wrap { breaks: before.breaks, width: before.width + 1 }
    }
}

/// The wrap after all of `clusters`, taken from left to right.
pub open spec fn wrap(clusters: Seq<Seq<char>>, max_width: nat) -> Wrap
    decreases clusters.len(),
{
    if clusters.len() == 0 {
        Wrap { breaks: 0, width: 0 }
    } else {
        wrap_step(wrap(clusters.drop_last(), max_width), clusters.last(), max_width)
    }
}

/// Rows occupied by `clusters`: the closed rows and the one still open.
pub open spec fn cluster_rows(clusters: Seq<Seq<char>>, max_width: nat) -> nat {
    wrap(clusters, max_width).breaks + 1
}

/// Rows occupied by `text` at `max_width` columns; the empty text has none.
pub open spec fn text_rows(text: Seq<char>, max_width: nat) -> nat {
    if text.len() == 0 {
        0
    } else {
        cluster_rows(grapheme_clusters(text), max_width)
    }
}

fn cluster_is(cluster: &str, c: char) -> (r: bool)
    ensures
        r == (cluster@ == seq![c]),
{
    if cluster.unicode_len() == 1 {
        let first = cluster.get_char(0);
        proof {
            if first == c {
                assert(cluster@ =~= seq![c]);
            }
        }
        first == c
    } else {
        false
    }
}

fn count_breaks(clusters: &Vec<String>, max_width: usize) -> (breaks: usize)
    ensures
        breaks == wrap(clusters.deep_view(), max_width as nat).breaks,
{
    let ghost all = clusters.deep_view();
    let mut breaks: usize = 0;
    let mut width: usize = 0;
    let mut i: usize = 0;
    while i < clusters.len()
        invariant
            i <= clusters.len(),
            all == clusters.deep_view(),
            breaks <= i,
            wrap(all.take(i as int), max_width as nat) == (Wrap {
                breaks: breaks as nat,
                width: width as nat,
            }),
        decreases clusters.len() - i,
    {
        let cluster = clusters[i].as_str();
        proof {
            assert(all.take(i + 1).drop_last() =~= all.take(i as int));
            assert(all.take(i + 1).last() == cluster@);
        }
        let zero_width = cluster_is(cluster, '\r') || cluster_is(cluster, '\u{FEFF}');
        if !zero_width {
            if cluster_is(cluster, '\n') {
                breaks = breaks + 1;
                width = 0;
            } else if width >= max_width {
                breaks = breaks + 1;
                width = cluster.unicode_len();
            } else {
                width = width + 1;
            }
        }
        i = i + 1;
    }
    proof {
        assert(all.take(i as int) =~= all);
    }
    breaks
}

/// Counts the rows that already segmented text occupies.
pub fn count_rows(clusters: &Vec<String>, max_width: usize) -> (rows: u16)
    requires
        cluster_rows(clusters.deep_view(), max_width as nat) <= u16::MAX,
    ensures
        rows == cluster_rows(clusters.deep_view(), max_width as nat),
{
    let breaks = count_breaks(clusters, max_width);
    (breaks + 1) as u16
}

/// Counts the terminal rows that `text` occupies when wrapped at
/// `max_width` columns, a column being one grapheme cluster.
#[must_use]
pub fn count_lines(text: &str, max_width: usize) -> (rows: u16)
    requires
        text_rows(text@, max_width as nat) <= u16::MAX,
    ensures
        rows == text_rows(text@, max_width as nat),
        text@.len() == 0 ==> rows == 0,
{
    if text.is_empty() {
        return 0;
    }
    let clusters = graphemes(text);
    count_rows(&clusters, max_width)
}

/// Like [`count_lines`], for any text: `None` when the rows do not fit the
/// result type.
pub fn count_lines_checked(text: &str, max_width: usize) -> (rows: Option<u16>)
    ensures
        match rows {
            Some(n) => n == text_rows(text@, max_width as nat),
            None => text_rows(text@, max_width as nat) > u16::MAX,
        },
{
    if text.is_empty() {
        return Some(0);
    }
    let clusters = graphemes(text);
    let breaks = count_breaks(&clusters, max_width);
    if breaks < 65535 {
        Some(count_lines(text, max_width))
    } else {
        None
    }
}

/// A cluster of one character that takes a column.
pub open spec fn is_plain(cluster: Seq<char>) -> bool {
    cluster.len() == 1 && !is_zero_width(cluster) && !is_newline(cluster)
}

/// Each cluster closes at most one row.
pub proof fn breaks_at_most_clusters(clusters: Seq<Seq<char>>, max_width: nat)
    ensures
        wrap(clusters, max_width).breaks <= clusters.len(),
    decreases clusters.len(),
{
    if clusters.len() > 0 {
        breaks_at_most_clusters(clusters.drop_last(), max_width);
    }
}

/// Clusters that take no column leave the rows as they are.
pub proof fn zero_width_cluster_changes_nothing(
    clusters: Seq<Seq<char>>,
    cluster: Seq<char>,
    max_width: nat,
)
    requires
        is_zero_width(cluster),
    ensures
        wrap(clusters.push(cluster), max_width) == wrap(clusters, max_width),
{
    assert(clusters.push(cluster).drop_last() =~= clusters);
}

/// Text without line ends, of `n > 0` plain clusters, fills rows of
/// `max_width > 0` columns one after the other: it takes `n / max_width`
/// rows, rounded up.
pub proof fn plain_text_fills_its_rows(clusters: Seq<Seq<char>>, max_width: nat)
    requires
        max_width > 0,
        clusters.len() > 0,
        forall|i: int| 0 <= i < clusters.len() ==> is_plain(#[trigger] clusters[i]),
    ensures
        wrap(clusters, max_width).breaks == (clusters.len() - 1) / (max_width as int),
        wrap(clusters, max_width).width == (clusters.len() - 1) % (max_width as int) + 1,
        cluster_rows(clusters, max_width) == (clusters.len() - 1) / (max_width as int) + 1,
    decreases clusters.len(),
{
    let w = max_width as int;
    let before = clusters.drop_last();
    assert(is_plain(clusters.last()));
    if clusters.len() == 1 {
        assert(before.len() == 0);
        assert(wrap(before, max_width) == Wrap { breaks: 0, width: 0 });
        lemma_fundamental_div_mod_converse(0, w, 0, 0);
    } else {
        assert forall|i: int| 0 <= i < before.len() implies is_plain(#[trigger] before[i]) by {
            assert(before[i] == clusters[i]);
        }
        plain_text_fills_its_rows(before, max_width);
        let x = before.len() - 1;
        let q = x / w;
        let r = x % w;
        lemma_fundamental_div_mod(x, w);
        lemma_mod_pos_bound(x, w);
        if r + 1 < w {
            assert(x + 1 == q * w + (r + 1)) by (nonlinear_arith)
                requires
                    x == w * q + r,
            ;
            lemma_fundamental_div_mod_converse(x + 1, w, q, r + 1);
        } else {
            assert(x + 1 == (q + 1) * w + 0) by (nonlinear_arith)
                requires
                    x == w * q + r,
                    r + 1 == w,
            ;
            lemma_fundamental_div_mod_converse(x + 1, w, q + 1, 0);
        }
    }
}

/// An index that picks none of the choices.
#[derive(Clone, Copy, Debug, PartialEq, Eq, Structural)]
pub struct InvalidIndex;

impl InvalidIndex {
    /// What the user is told.
    pub fn message(&self) -> (text: String)
        ensures
            text@ == "Invalid index"@,
    {
        String::from_str("Invalid index")
    }
}

/// Waiting for the user to name one of `choices` by its index.
#[derive(Debug)]
pub struct Prompting {
    pub choices: Vec<String>,
}

/// Where the choice stands.
#[derive(Debug)]
pub enum ChoiceStep {
    /// The message is chosen.
    Chosen(String),
    /// Ask for an index, check each input with [`validate_index`], and call
    /// [`Prompting::answered`] or [`Prompting::cancelled`].
    Prompt(Prompting),
}

/// An index picks a choice when it is below their number.
pub open spec fn valid_index(index: nat, max_index: nat) -> bool {
    index < max_index
}

/// The choice that `index` picks, if it picks one.
pub open spec fn choice_at(choices: Seq<String>, index: nat) -> Option<Seq<char>> {
    if valid_index(index, choices.len()) {
        Some(choices[index as int]@)
    } else {
        None
    }
}

/// The characters of the message, if there is one.
pub open spec fn message_view(message: Option<String>) -> Option<Seq<char>> {
    match message {
        Some(text) => Some(text@),
        None => None,
    }
}

/// Validates an index typed by the user: it must be below `max_index`, the
/// number of choices.
pub fn validate_index(index: usize, max_index: usize) -> (checked: Result<(), InvalidIndex>)
    ensures
        checked is Ok <==> valid_index(index as nat, max_index as nat),
{
    if index >= max_index {
        Err(InvalidIndex)
    } else {
        Ok(())
    }
}

/// Chooses among `choices`: a single one is chosen without asking, else the
/// user is to be asked.
pub fn choose_message(choices: Vec<String>) -> (step: ChoiceStep)
    ensures
        match step {
            ChoiceStep::Chosen(message) => choices.len() == 1 && message@ == choices[0]@,
            ChoiceStep::Prompt(prompt) => choices.len() != 1 && prompt.choices == choices,
        },
{
    if choices.len() == 1 {
        return ChoiceStep::Chosen(choices[0].clone());
    }
    ChoiceStep::Prompt(Prompting { choices })
}

impl Prompting {
    /// The number of choices: the first index that is refused.
    pub fn max_index(&self) -> (count: usize)
        ensures
            count == self.choices.len(),
    {
        self.choices.len()
    }

    /// Takes the index that the user gave: the choice at that index, and
    /// nothing for an index that [`validate_index`] refuses.
    pub fn answered(self, index: usize) -> (message: Option<String>)
        ensures
            message_view(message) == choice_at(self.choices@, index as nat),
    {
        match validate_index(index, self.choices.len()) {
            Ok(_) => Some(self.choices[index].clone()),
            Err(_) => None,
        }
    }

    /// The user cancelled the prompt: the process is to end at once.
    pub fn cancelled(self) -> (end: Cancellation)
        ensures
            end == Cancellation::FatalImmediate,
    {
        Cancellation::FatalImmediate
    }
}

/// A message is chosen exactly by the indices that the validator lets
/// through, and it is the choice that stands at the index.
pub proof fn only_valid_indices_choose(choices: Seq<String>, index: nat)
    ensures
        choice_at(choices, index) is Some <==> valid_index(index, choices.len()),
        choice_at(choices, index) matches Some(text) ==> 0 <= index < choices.len() && text
            == choices[index as int]@,
{
}

} // verus!
