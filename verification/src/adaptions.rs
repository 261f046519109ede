//! Fitting a diff into a token budget.
//!
//! The diff is measured; while it takes more tokens than the budget leaves,
//! the user is shown its files and keeps some of them, and what is kept is
//! measured again. Measuring and asking are not done here: each state says
//! what it waits for, and the answer is handed to one of its methods.

use crate::cancel::Cancellation;
use crate::headers::{hunk_marks_are_headers, targets_follow_sources};
use crate::patch::{parse_records, parsed_patch, PatchError};
use crate::records::{
    file_views, find_record, fragments, join, joined, keep, kept_records, offers, offers_all, views,
    DiffFile, DiffFileView, FileRecord, FileRecordView,
};
use vstd::prelude::*;

verus! {

/// Which files a further round of reduction shows.
#[derive(Clone, Copy, Debug, PartialEq, Eq, Structural)]
pub enum OfferStrategy {
    /// Every file of the diff as it was given, in every round.
    ReofferAll,
    /// Only the files kept in the round before.
    NarrowProgressively,
}

/// Which text comes back with the token count once the diff fits.
#[derive(Clone, Copy, Debug, PartialEq, Eq, Structural)]
pub enum ResultText {
    /// The text that was measured last: text and count describe the same.
    Fitted,
    /// The diff as it was given, whatever was kept of it.
    Given,
}

/// How fitting behaves where it can behave in two ways.
#[derive(Clone, Copy, Debug, PartialEq, Eq, Structural)]
pub struct FitOptions {
    pub offer: OfferStrategy,
    pub text: ResultText,
}

/// Every round shows all files, and the fitted text comes back.
pub open spec fn default_options() -> FitOptions {
    FitOptions { offer: OfferStrategy::ReofferAll, text: ResultText::Fitted }
}

impl Default for FitOptions {
    fn default() -> (options: FitOptions)
        ensures
            options == default_options(),
    {
        FitOptions { offer: OfferStrategy::ReofferAll, text: ResultText::Fitted }
    }
}

/// Why no fitted diff came out.
#[derive(Debug)]
pub enum FitError {
    /// The user cancelled the selection of files.
    Cancelled(Cancellation),
    /// The diff is no patch.
    InvalidPatch(PatchError),
}

impl FitError {
    /// What the user is told.
    pub open spec fn text(self) -> Seq<char> {
        match self {
            FitError::Cancelled(_) => "Operation was canceled by the user"@,
            FitError::InvalidPatch(error) => error.text(),
        }
    }

    pub fn message(&self) -> (text: String)
        ensures
            text@ == self.text(),
    {
        match self {
            FitError::Cancelled(_) => String::from_str("Operation was canceled by the user"),
            FitError::InvalidPatch(error) => error.message(),
        }
    }
}

/// A diff that fits, with the tokens it takes.
#[derive(Debug)]
pub struct Fitted {
    pub text: String,
    pub tokens: usize,
}

/// Waiting for the token count of `candidate`.
#[derive(Debug)]
pub struct Measuring {
    /// The diff as it was given.
    pub artifact: String,
    /// Tokens taken by the rest of the request.
    pub used_tokens: usize,
    /// Tokens the whole request may take.
    pub context: usize,
    pub options: FitOptions,
    /// The text to measure.
    pub candidate: String,
    /// The records kept in the last round; `None` before the first.
    pub kept: Option<Vec<FileRecord>>,
}

/// Waiting for the user to keep some of `offered`.
#[derive(Debug)]
pub struct Reducing {
    pub artifact: String,
    pub used_tokens: usize,
    pub context: usize,
    pub options: FitOptions,
    /// Tokens of the text that did not fit.
    pub diff_tokens: usize,
    /// The files to choose among, in the order of the diff.
    pub offered: Vec<FileRecord>,
}

/// Where the work stands, and with it what is to be done next.
#[derive(Debug)]
pub enum FitStep {
    /// Count the tokens of the candidate and call [`Measuring::measured`].
    Measure(Measuring),
    /// Warn that the request is too long, let the user choose, and call
    /// [`Reducing::selected`] or [`Reducing::cancelled`].
    Reduce(Reducing),
    Done(Fitted),
    Failed(FitError),
}

/// A [`Measuring`] as plain values.
pub struct MeasuringView {
    pub artifact: Seq<char>,
    pub used_tokens: nat,
    pub context: nat,
    pub options: FitOptions,
    pub candidate: Seq<char>,
    pub kept: Option<Seq<FileRecordView>>,
}

/// A [`Reducing`] as plain values.
pub struct ReducingView {
    pub artifact: Seq<char>,
    pub used_tokens: nat,
    pub context: nat,
    pub options: FitOptions,
    pub diff_tokens: nat,
    pub offered: Seq<FileRecordView>,
}

impl View for Measuring {
    type V = MeasuringView;

    open spec fn view(&self) -> MeasuringView {
        MeasuringView {
            artifact: self.artifact@,
            used_tokens: self.used_tokens as nat,
            context: self.context as nat,
            options: self.options,
            candidate: self.candidate@,
            kept: match self.kept {
                Some(records) => Some(views(records@)),
                None => None,
            },
        }
    }
}

impl View for Reducing {
    type V = ReducingView;

    open spec fn view(&self) -> ReducingView {
        ReducingView {
            artifact: self.artifact@,
            used_tokens: self.used_tokens as nat,
            context: self.context as nat,
            options: self.options,
            diff_tokens: self.diff_tokens as nat,
            offered: views(self.offered@),
        }
    }
}

/// The tokens that a measurement stands for: a failed one counts as none.
pub open spec fn tokens_of(count: Option<usize>) -> nat {
    match count {
        Some(tokens) => tokens as nat,
        None => 0,
    }
}

/// The state in which fitting starts: the diff itself is the candidate.
pub open spec fn start(
    contents: Seq<char>,
    used_tokens: nat,
    context: nat,
    options: FitOptions,
) -> MeasuringView {
    MeasuringView {
        artifact: contents,
        used_tokens,
        context,
        options,
        candidate: contents,
        kept: None,
    }
}

/// `r` waits for a choice among `offered` after `tokens` did not fit, with
/// the rest as in `m`.
pub open spec fn reduces(
    m: MeasuringView,
    tokens: nat,
    offered: Seq<FileRecordView>,
    r: ReducingView,
) -> bool {
    r == ReducingView {
        artifact: m.artifact,
        used_tokens: m.used_tokens,
        context: m.context,
        options: m.options,
        diff_tokens: tokens,
        offered,
    }
}

/// `step` is what follows when the candidate of `m` takes `tokens` tokens.
pub open spec fn settles(m: MeasuringView, tokens: nat, step: FitStep) -> bool {
    if m.used_tokens + tokens <= m.context {
        &&& step matches FitStep::Done(fitted)
        &&& fitted.tokens == tokens
        &&& fitted.text@ == match m.options.text {
            ResultText::Fitted => m.candidate,
            ResultText::Given => m.artifact,
        }
    } else if m.options.offer == OfferStrategy::NarrowProgressively && m.kept is Some {
        &&& step matches FitStep::Reduce(r)
        &&& reduces(m, tokens, m.kept->0, r@)
    } else if !targets_follow_sources(m.artifact) {
        step matches FitStep::Failed(FitError::InvalidPatch(PatchError::TargetBeforeSource))
    } else if !hunk_marks_are_headers(m.artifact) {
        step matches FitStep::Failed(FitError::InvalidPatch(PatchError::MalformedHunkHeader))
    } else {
        match parsed_patch(m.artifact) {
            Some(files) => {
                &&& step matches FitStep::Reduce(r)
                &&& reduces(m, tokens, files, r@)
            },
            None => step matches FitStep::Failed(
                FitError::InvalidPatch(PatchError::Rejected(_)),
            ),
        }
    }
}

/// The state after the user kept `kept` of what `r` offered: the candidate
/// is the rendering of the kept records.
pub open spec fn narrowed(r: ReducingView, kept: Seq<DiffFileView>) -> MeasuringView {
    MeasuringView {
        artifact: r.artifact,
        used_tokens: r.used_tokens,
        context: r.context,
        options: r.options,
        candidate: joined(kept_records(r.offered, kept)),
        kept: Some(kept_records(r.offered, kept)),
    }
}

/// `step` is what follows when the user keeps `kept` of what `r` offered.
/// Keeping nothing counts as no tokens and is settled at once.
pub open spec fn selects(r: ReducingView, kept: Seq<DiffFileView>, step: FitStep) -> bool {
    if kept.len() == 0 {
        settles(narrowed(r, kept), 0, step)
    } else {
        &&& step matches FitStep::Measure(m)
        &&& m@ == narrowed(r, kept)
    }
}

/// Starts fitting the diff `contents` into what `context` leaves beside
/// `used_tokens`, with the default options.
pub fn diff(contents: String, used_tokens: usize, context: usize) -> (m: Measuring)
    ensures
        m@ == start(contents@, used_tokens as nat, context as nat, default_options()),
{
    diff_with(contents, used_tokens, context, FitOptions::default())
}

/// Starts fitting the diff `contents` with the given options.
pub fn diff_with(contents: String, used_tokens: usize, context: usize, options: FitOptions) -> (m:
    Measuring)
    ensures
        m@ == start(contents@, used_tokens as nat, context as nat, options),
{
    let candidate = contents.clone();
    Measuring { artifact: contents, used_tokens, context, options, candidate, kept: None }
}

fn settle(m: Measuring, tokens: usize) -> (step: FitStep)
    ensures
        settles(m@, tokens as nat, step),
{
    let ghost before = m@;
    let Measuring { artifact, used_tokens, context, options, candidate, kept } = m;
    if used_tokens <= context && tokens <= context - used_tokens {
        let text = match options.text {
            ResultText::Fitted => candidate,
            ResultText::Given => artifact,
        };
        return FitStep::Done(Fitted { text, tokens });
    }
    let narrowed = match options.offer {
        OfferStrategy::NarrowProgressively => kept,
        OfferStrategy::ReofferAll => None,
    };
    let offered = match narrowed {
        Some(records) => records,
        None => match parse_records(artifact.as_str()) {
            Ok(records) => records,
            Err(error) => {
                return FitStep::Failed(FitError::InvalidPatch(error));
            },
        },
    };
    FitStep::Reduce(
        Reducing { artifact, used_tokens, context, options, diff_tokens: tokens, offered },
    )
}

impl Measuring {
    /// Takes the answer of the token counter for the candidate, `None` where
    /// counting failed, and says what follows.
    pub fn measured(self, count: Option<usize>) -> (step: FitStep)
        ensures
            settles(self@, tokens_of(count), step),
    {
        let tokens = match count {
            Some(tokens) => tokens,
            None => 0,
        };
        settle(self, tokens)
    }
}

impl Reducing {
    /// Tokens of the whole request that did not fit.
    pub fn request_tokens(&self) -> (total: u128)
        ensures
            total == self.used_tokens + self.diff_tokens,
    {
        self.used_tokens as u128 + self.diff_tokens as u128
    }

    /// Whether each of `kept` stands for an offered file.
    pub fn accepts(&self, kept: &Vec<DiffFile>) -> (ok: bool)
        ensures
            ok == offers_all(self@.offered, file_views(kept@)),
    {
        let mut k: usize = 0;
        while k < kept.len()
            invariant
                k <= kept.len(),
                forall|j: int|
                    0 <= j < k ==> offers(views(self.offered@), #[trigger] file_views(kept@)[j]),
            decreases kept.len() - k,
        {
            if find_record(&self.offered, &kept[k]).is_none() {
                assert(!offers(views(self.offered@), file_views(kept@)[k as int]));
                return false;
            }
            k = k + 1;
        }
        true
    }

    /// Takes the files that the user kept and says what follows.
    pub fn selected(self, kept: &Vec<DiffFile>) -> (step: FitStep)
        requires
            offers_all(self@.offered, file_views(kept@)),
        ensures
            selects(self@, file_views(kept@), step),
    {
        let picked = keep(&self.offered, kept);
        let candidate = join(&picked);
        let next = Measuring {
            artifact: self.artifact,
            used_tokens: self.used_tokens,
            context: self.context,
            options: self.options,
            candidate,
            kept: Some(picked),
        };
        if kept.len() == 0 {
            settle(next, 0)
        } else {
            FitStep::Measure(next)
        }
    }

    /// The user cancelled the selection: fitting fails, and the caller goes
    /// on with the error.
    pub fn cancelled(self) -> (error: FitError)
        ensures
            error == FitError::Cancelled(Cancellation::Recoverable),
    {
        FitError::Cancelled(Cancellation::Recoverable)
    }
}

/// A diff that fits when it is first measured comes back as it was given,
/// with the tokens that were counted, and the user is asked nothing.
pub proof fn fitting_diff_comes_back_unchanged(
    contents: Seq<char>,
    used_tokens: nat,
    context: nat,
    options: FitOptions,
    tokens: nat,
    step: FitStep,
)
    requires
        used_tokens + tokens <= context,
        settles(start(contents, used_tokens, context, options), tokens, step),
    ensures
        step matches FitStep::Done(fitted) && fitted.text@ == contents && fitted.tokens == tokens,
{
}

/// Once files were dropped, the text that is measured is the rendering of
/// the kept records, and the count that comes back is the one given for it.
/// The text that comes back is that rendering, or under
/// [`ResultText::Given`] the diff as it was given.
pub proof fn reduced_count_is_of_kept_records(
    r: ReducingView,
    kept: Seq<DiffFileView>,
    m: Measuring,
    count: Option<usize>,
    fitted: Fitted,
)
    requires
        selects(r, kept, FitStep::Measure(m)),
        settles(m@, tokens_of(count), FitStep::Done(fitted)),
    ensures
        m@.candidate == joined(kept_records(r.offered, kept)),
        fitted.tokens == tokens_of(count),
        r.options.text == ResultText::Fitted ==> fitted.text@ == joined(
            kept_records(r.offered, kept),
        ),
        r.options.text == ResultText::Given ==> fitted.text@ == r.artifact,
{
}

/// Keeping no file ends the fitting with no tokens and, as the fitted text,
/// the empty one, where the rest of the request fits at all.
pub proof fn empty_selection_ends_fitting(r: ReducingView, step: FitStep)
    requires
        r.used_tokens <= r.context,
        selects(r, Seq::<DiffFileView>::empty(), step),
    ensures
        step matches FitStep::Done(fitted) && fitted.tokens == 0 && (r.options.text
            == ResultText::Fitted ==> fitted.text@ == Seq::<char>::empty()),
{
    let none = Seq::<DiffFileView>::empty();
    assert(kept_records(r.offered, none) =~= Seq::<FileRecordView>::empty());
    assert(fragments(Seq::<FileRecordView>::empty()) =~= Seq::<Seq<char>>::empty());
}

/// Whatever was dropped before, under [`OfferStrategy::ReofferAll`] a round
/// of reduction shows every file of the diff as it was given.
pub proof fn every_round_offers_all_files(m: MeasuringView, tokens: nat, r: Reducing)
    requires
        m.options.offer == OfferStrategy::ReofferAll,
        settles(m, tokens, FitStep::Reduce(r)),
    ensures
        parsed_patch(m.artifact) == Some(r@.offered),
        r@.diff_tokens == tokens,
{
}

/// The diff as it was given, the tokens used beside it, the budget and the
/// options stay what they are from state to state.
pub proof fn request_stays_the_same(
    m: MeasuringView,
    tokens: nat,
    r: Reducing,
    kept: Seq<DiffFileView>,
    step: FitStep,
)
    requires
        settles(m, tokens, FitStep::Reduce(r)),
        selects(r@, kept, step),
    ensures
        r@.artifact == m.artifact && r@.used_tokens == m.used_tokens && r@.context == m.context
            && r@.options == m.options,
        step matches FitStep::Measure(next) ==> next@.artifact == m.artifact && next@.used_tokens
            == m.used_tokens && next@.context == m.context && next@.options == m.options,
        step matches FitStep::Reduce(next) ==> next@.artifact == m.artifact && next@.used_tokens
            == m.used_tokens && next@.context == m.context && next@.options == m.options,
{
}

} // verus!
